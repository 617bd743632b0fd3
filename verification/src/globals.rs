//! What the wrapper keeps: its configuration, its log, and what it found and
//! changed in the process.

use crate::farjmp::FarJmp;
use crate::ini_file::{IniFile, SectionView};
use crate::settings;
use crate::version::FileVersion;
use vstd::prelude::*;

verus! {

/// The state of the wrapper. Addresses are numbers, and the handle of a module
/// that is not loaded is 0.
pub struct Globals {
    pub ini_file: Option<IniFile>,
    /// The path of the log, in a path buffer.
    pub log_file: Vec<u16>,
    pub h_termsrv: usize,
    pub h_slc: usize,
    /// Where the code of the terminal service starts.
    pub termsrv_base: usize,
    /// The version of the terminal service.
    pub fv: FileVersion,
    pub service_main: Option<usize>,
    pub svchost_push: Option<usize>,
    /// The function of the system that answers policy queries.
    pub sl_get_info: Option<usize>,
    /// What stood where the jump was written into that function.
    pub old_sl_bytes: Vec<u8>,
    /// The jump that was written there.
    pub stub_sl: Option<FarJmp>,
}

/// What the state says.
pub struct GlobalsView {
    pub cfg: Option<Seq<SectionView>>,
    pub log_file: Seq<u16>,
    pub h_termsrv: usize,
    pub h_slc: usize,
    pub termsrv_base: usize,
    pub fv: FileVersion,
    pub service_main: Option<usize>,
    pub svchost_push: Option<usize>,
    pub sl_get_info: Option<usize>,
    pub old_sl_bytes: Seq<u8>,
    pub stub_sl: Option<FarJmp>,
}

impl View for Globals {
    type V = GlobalsView;

    open spec fn view(&self) -> GlobalsView {
        GlobalsView {
            cfg: match self.ini_file {
                Some(f) => Some(f@),
                None => None,
            },
            log_file: self.log_file@,
            h_termsrv: self.h_termsrv,
            h_slc: self.h_slc,
            termsrv_base: self.termsrv_base,
            fv: self.fv,
            service_main: self.service_main,
            svchost_push: self.svchost_push,
            sl_get_info: self.sl_get_info,
            old_sl_bytes: self.old_sl_bytes@,
            stub_sl: self.stub_sl,
        }
    }
}

impl GlobalsView {
    /// Whether what is kept of the jump into the system's function fits together:
    /// there are bytes to restore exactly where there is a jump, they fill the
    /// same place, and the place is known.
    pub open spec fn consistent(self) -> bool {
        match self.stub_sl {
            Some(jump) => self.old_sl_bytes.len() == jump.code().len() && self.old_sl_bytes.len()
                > 0 && self.sl_get_info is Some,
            None => self.old_sl_bytes.len() == 0,
        }
    }
}

impl Globals {
    /// The state before anything was found, with the given log.
    pub fn new(log_file: Vec<u16>) -> (r: Globals)
        ensures
            r@ == (GlobalsView {
                cfg: None,
                log_file: log_file@,
                h_termsrv: 0,
                h_slc: 0,
                termsrv_base: 0,
                fv: FileVersion { major: 0, minor: 0, release: 0, build: 0 },
                service_main: None,
                svchost_push: None,
                sl_get_info: None,
                old_sl_bytes: Seq::empty(),
                stub_sl: None,
            }),
            r@.consistent(),
    {
        let r = Globals {
            ini_file: None,
            log_file,
            h_termsrv: 0,
            h_slc: 0,
            termsrv_base: 0,
            fv: FileVersion::default(),
            service_main: None,
            svchost_push: None,
            sl_get_info: None,
            old_sl_bytes: Vec::new(),
            stub_sl: None,
        };
        assert(r@.old_sl_bytes =~= Seq::empty());
        r
    }

    /// The configuration.
    pub fn ini(&self) -> (r: Option<&IniFile>)
        ensures
            settings::config(r) == self@.cfg,
    {
        match &self.ini_file {
            Some(f) => Some(f),
            None => None,
        }
    }
}

} // verus!
