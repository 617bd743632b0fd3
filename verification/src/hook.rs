//! The installation of the wrapper: what is asked of the system, in which order,
//! and what is done with each answer.

use crate::action;
use crate::action::{Action, ActionView};
use crate::farjmp;
use crate::farjmp::Arch;
use crate::globals::{Globals, GlobalsView};
use crate::ini_file;
use crate::ini_file::{IniFile, SectionView};
use crate::number;
use crate::patch;
use crate::patch::Targets;
use crate::paths;
use crate::settings;
use crate::utf16;
use crate::version::FileVersion;
use vstd::prelude::*;

verus! {

/// What the installation waits for.
#[derive(Clone, Copy, Debug, PartialEq, Eq, Structural)]
pub enum Phase {
    /// The path of this module, for the path of the log.
    LogModulePath,
    /// The path of this module, for the path of the configuration.
    ConfigModulePath,
    /// The configuration in the file at `config_file`.
    Config,
    /// The handle of `termsrv.dll`.
    LoadTermsrv,
    /// The service functions of the terminal service.
    Exports,
    /// The version of the terminal service.
    Version,
    /// The handle of `slc.dll`, whose function gets a jump.
    LoadSlcForJump,
    /// The address of that function.
    FindSlForJump,
    /// The first bytes of that function, as many as a jump takes.
    SaveSlBytes,
    /// The handle of `slc.dll`, whose function is only called.
    LoadSlcForCall,
    /// The address of that function.
    FindSlForCall,
    /// The start and the size of the code of the terminal service.
    CodeSection,
    /// Nothing: the installation is over.
    Done,
}

/// An answer of the system.
pub enum Event {
    /// The path of this module, in a path buffer.
    ModulePath(Vec<u16>),
    /// The configuration, where there is one.
    Config(Option<IniFile>),
    /// The handle of a module, 0 where it could not be loaded.
    Module(usize),
    /// The addresses of the service functions, 0 where there is none.
    Exports { service_main: usize, svchost_push: usize },
    /// The version of a module, where it has one.
    Version(Option<FileVersion>),
    /// The address of a function, 0 where there is none.
    Function(usize),
    /// Bytes of the memory, where they could be read.
    Memory(Option<Vec<u8>>),
    /// The start and the size of a module's code, where it has any.
    CodeSection(Option<(usize, usize)>),
}

/// What an answer says.
pub enum EventView {
    ModulePath(Seq<u16>),
    Config(Option<Seq<SectionView>>),
    Module(usize),
    Exports { service_main: usize, svchost_push: usize },
    Version(Option<FileVersion>),
    Function(usize),
    Memory(Option<Seq<u8>>),
    CodeSection(Option<(usize, usize)>),
}

impl View for Event {
    type V = EventView;

    open spec fn view(&self) -> EventView {
        match self {
            Event::ModulePath(path) => EventView::ModulePath(path@),
            Event::Config(ini) => EventView::Config(
                match ini {
                    Some(f) => Some(f@),
                    None => None,
                },
            ),
            Event::Module(handle) => EventView::Module(*handle),
            Event::Exports { service_main, svchost_push } => EventView::Exports {
                service_main: *service_main,
                svchost_push: *svchost_push,
            },
            Event::Version(version) => EventView::Version(*version),
            Event::Function(address) => EventView::Function(*address),
            Event::Memory(read) => EventView::Memory(
                match read {
                    Some(b) => Some(b@),
                    None => None,
                },
            ),
            Event::CodeSection(code) => EventView::CodeSection(*code),
        }
    }
}

/// The installation.
pub struct Hook {
    pub arch: Arch,
    pub targets: Targets,
    pub phase: Phase,
    /// The path of the configuration, in a path buffer.
    pub config_file: Vec<u16>,
    pub globals: Globals,
}

/// What the installation says.
pub struct HookView {
    pub arch: Arch,
    pub targets: Targets,
    pub phase: Phase,
    pub config_file: Seq<u16>,
    pub globals: GlobalsView,
}

impl View for Hook {
    type V = HookView;

    open spec fn view(&self) -> HookView {
        HookView {
            arch: self.arch,
            targets: self.targets,
            phase: self.phase,
            config_file: self.config_file@,
            globals: self.globals@,
        }
    }
}

/// The installation after an answer, and what it does on that.
pub struct StepView {
    pub hook: HookView,
    pub actions: Seq<ActionView>,
}

/// Whether the phase takes the answer: the answer is one to what the phase waits
/// for.
pub open spec fn takes(h: HookView, event: EventView) -> bool {
    match (h.phase, event) {
        (Phase::LogModulePath, EventView::ModulePath(path)) => path.len() == paths::PATH_LEN,
        (Phase::ConfigModulePath, EventView::ModulePath(path)) => path.len() == paths::PATH_LEN,
        (Phase::Config, EventView::Config(_)) => true,
        (Phase::LoadTermsrv, EventView::Module(_)) => true,
        (Phase::Exports, EventView::Exports { service_main: _, svchost_push: _ }) => true,
        (Phase::Version, EventView::Version(_)) => true,
        (Phase::LoadSlcForJump, EventView::Module(_)) => true,
        (Phase::FindSlForJump, EventView::Function(_)) => true,
        (Phase::SaveSlBytes, EventView::Memory(_)) => true,
        (Phase::LoadSlcForCall, EventView::Module(_)) => true,
        (Phase::FindSlForCall, EventView::Function(_)) => true,
        (Phase::CodeSection, EventView::CodeSection(_)) => true,
        _ => false,
    }
}

/// The address, where it is not 0.
pub open spec fn found(address: usize) -> Option<usize> {
    if address == 0 {
        None
    } else {
        Some(address)
    }
}

/// How far an address is behind another, round the end of the address space.
pub open spec fn distance(address: usize, base: usize) -> nat {
    if address >= base {
        (address - base) as nat
    } else {
        (address - base + usize::MAX + 1) as nat
    }
}

/// What the log says of the configuration's path: the whole buffer, with the NULs
/// that fill it.
pub open spec fn config_message(config_file: Seq<u16>) -> Seq<char> {
    "Configuration file: "@ + utf16::decoded(config_file) + "\r\n"@
}

/// What the log says of the terminal service.
pub open spec fn exports_message(base: usize, service_main: usize, svchost_push: usize) -> Seq<
    char,
> {
    "Base addr:  0x0x"@ + number::hexadecimal(base as nat)
        + "\r\nSvcMain:    termsrv.dll+0x"@ + number::hexadecimal(distance(service_main, base))
        + "\r\nSvcGlobals: termsrv.dll+0x"@ + number::hexadecimal(distance(svchost_push, base))
        + "\r\n"@
}

/// What the log says of the version.
pub open spec fn version_message(version: FileVersion) -> Seq<char> {
    "Version:    "@ + version.dotted() + "\r\n"@
}

/// The end: the threads go on.
pub open spec fn ending() -> Seq<ActionView> {
    seq![ActionView::Log("Resuming threads...\r\n"@), ActionView::ResumeThreads]
}

/// The step to a phase.
pub open spec fn goes_to(h: HookView, phase: Phase, actions: Seq<ActionView>) -> StepView {
    StepView { hook: HookView { phase, ..h }, actions }
}

/// The step on to the patches: where the configuration has a section for the
/// version, the code is asked for; else the installation ends.
pub open spec fn goes_to_patches(h: HookView, actions: Seq<ActionView>) -> StepView {
    if settings::has_section(h.globals.cfg, h.globals.fv.dotted()) {
        goes_to(h, Phase::CodeSection, actions)
    } else {
        goes_to(h, Phase::Done, actions + ending())
    }
}

/// What comes once the threads are frozen: on Windows Vista and 7 the system's
/// function gets a jump, unless the configuration says no; on Windows 8 it is
/// only looked up.
pub open spec fn goes_on_frozen(h: HookView, actions: Seq<ActionView>) -> StepView {
    let ver = h.globals.fv.packed();
    let cfg = h.globals.cfg;
    if ver == 0x0600 && settings::flag_setting(cfg, "Main"@, "SLPolicyHookNT60"@, true) {
        goes_to(h, Phase::LoadSlcForJump, actions)
    } else if ver == 0x0601 && settings::flag_setting(cfg, "Main"@, "SLPolicyHookNT61"@, true) {
        goes_to(h, Phase::LoadSlcForJump, actions)
    } else if ver == 0x0602 {
        goes_to(h, Phase::LoadSlcForCall, actions)
    } else {
        goes_to_patches(h, actions)
    }
}

/// The log that the configuration wants, or the one there is.
pub open spec fn log_of(cfg: Option<Seq<SectionView>>, log_file: Seq<u16>) -> Seq<u16> {
    match settings::setting(cfg, "Main"@, "LogFile"@) {
        Some(v) => paths::buffer_of(utf16::encoded(ini_file::field(v.value))),
        None => log_file,
    }
}

/// The step on an answer that the phase takes.
pub open spec fn next(h: HookView, event: EventView) -> StepView {
    match (h.phase, event) {
        (Phase::LogModulePath, EventView::ModulePath(path)) => goes_to(
            HookView {
                globals: GlobalsView {
                    log_file: paths::beside(path, utf16::encoded("rdpwrap.txt\0"@)),
                    ..h.globals
                },
                ..h
            },
            Phase::ConfigModulePath,
            Seq::empty(),
        ),
        (Phase::ConfigModulePath, EventView::ModulePath(path)) => {
            let config_file = paths::beside(path, utf16::encoded("rdpwrap.ini\0"@));
            goes_to(
                HookView { config_file, ..h },
                Phase::Config,
                seq![
                    ActionView::Log("Loading configuration...\r\n"@),
                    ActionView::Log(config_message(config_file)),
                ],
            )
        },
        (Phase::Config, EventView::Config(cfg)) => goes_to(
            HookView {
                globals: GlobalsView { cfg, log_file: log_of(cfg, h.globals.log_file), ..h.globals },
                ..h
            },
            Phase::LoadTermsrv,
            seq![ActionView::Log("Initializing RDP Wrapper...\r\n"@)],
        ),
        (Phase::LoadTermsrv, EventView::Module(handle)) => if handle == 0 {
            goes_to(
                h,
                Phase::Done,
                seq![ActionView::Log("Error: Failed to load Terminal Services library\r\n"@)],
            )
        } else {
            goes_to(
                HookView { globals: GlobalsView { h_termsrv: handle, ..h.globals }, ..h },
                Phase::Exports,
                Seq::empty(),
            )
        },
        (Phase::Exports, EventView::Exports { service_main, svchost_push }) => goes_to(
            HookView {
                globals: GlobalsView {
                    service_main: found(service_main),
                    svchost_push: found(svchost_push),
                    ..h.globals
                },
                ..h
            },
            Phase::Version,
            seq![
                ActionView::Log(
                    exports_message(h.globals.h_termsrv, service_main, svchost_push),
                ),
            ],
        ),
        (Phase::Version, EventView::Version(detected)) => {
            let failed = seq![
                ActionView::Log("Error: Failed to detect Terminal Services version\r\n"@),
            ];
            match detected {
                None => goes_to(h, Phase::Done, failed),
                Some(fv) => {
                    let k = HookView { globals: GlobalsView { fv, ..h.globals }, ..h };
                    if fv.packed() == 0 {
                        goes_to(k, Phase::Done, failed)
                    } else {
                        goes_on_frozen(
                            k,
                            seq![
                                ActionView::Log(version_message(fv)),
                                ActionView::Log("Freezing threads...\r\n"@),
                                ActionView::FreezeThreads,
                            ],
                        )
                    }
                },
            }
        },
        (Phase::LoadSlcForJump, EventView::Module(handle)) => if handle == 0 {
            goes_to_patches(h, Seq::empty())
        } else {
            goes_to(
                HookView { globals: GlobalsView { h_slc: handle, ..h.globals }, ..h },
                Phase::FindSlForJump,
                Seq::empty(),
            )
        },
        (Phase::FindSlForJump, EventView::Function(address)) => if address == 0 {
            goes_to_patches(h, Seq::empty())
        } else {
            goes_to(
                HookView {
                    globals: GlobalsView { sl_get_info: Some(address), ..h.globals },
                    ..h
                },
                Phase::SaveSlBytes,
                seq![ActionView::Log("Hook SLGetWindowsInformationDWORD\r\n"@)],
            )
        },
        (Phase::SaveSlBytes, EventView::Memory(read)) => {
            let jump = farjmp::stub(h.arch, h.targets.sl_get_info as nat);
            if read is Some && read->0.len() == h.arch.jump_size() {
                goes_to_patches(
                    HookView {
                        globals: GlobalsView {
                            old_sl_bytes: read->0,
                            stub_sl: Some(jump),
                            ..h.globals
                        },
                        ..h
                    },
                    seq![
                        ActionView::WriteMemory {
                            address: h.globals.sl_get_info->0 as int,
                            bytes: jump.code(),
                        },
                    ],
                )
            } else {
                goes_to_patches(
                    h,
                    seq![
                        ActionView::Log(
                            "Error: Failed to save original SLGetWindowsInformationDWORD bytes\r\n"@,
                        ),
                    ],
                )
            }
        },
        (Phase::LoadSlcForCall, EventView::Module(handle)) => goes_to(
            HookView { globals: GlobalsView { h_slc: handle, ..h.globals }, ..h },
            Phase::FindSlForCall,
            Seq::empty(),
        ),
        (Phase::FindSlForCall, EventView::Function(address)) => goes_to_patches(
            HookView {
                globals: GlobalsView {
                    sl_get_info: if address == 0 {
                        h.globals.sl_get_info
                    } else {
                        Some(address)
                    },
                    ..h.globals
                },
                ..h
            },
            Seq::empty(),
        ),
        (Phase::CodeSection, EventView::CodeSection(code)) => match code {
            Some((base, _)) => goes_to(
                HookView { globals: GlobalsView { termsrv_base: base, ..h.globals }, ..h },
                Phase::Done,
                patch::binary_patch(
                    h.globals.cfg,
                    h.globals.fv.dotted(),
                    h.arch,
                    base as int,
                    h.targets,
                ) + ending(),
            ),
            None => goes_to(h, Phase::Done, ending()),
        },
        _ => goes_to(h, h.phase, Seq::empty()),
    }
}

/// Whether the other threads run as they did before in the phase.
pub open spec fn before_freeze(phase: Phase) -> bool {
    match phase {
        Phase::LogModulePath | Phase::ConfigModulePath | Phase::Config | Phase::LoadTermsrv
        | Phase::Exports | Phase::Version => true,
        _ => false,
    }
}

/// Whether the other threads are frozen in the phase.
pub open spec fn frozen_in(phase: Phase) -> bool {
    match phase {
        Phase::LoadSlcForJump | Phase::FindSlForJump | Phase::SaveSlBytes | Phase::LoadSlcForCall
        | Phase::FindSlForCall | Phase::CodeSection => true,
        _ => false,
    }
}

/// Whether the installation fits together: the path of the log ends in a NUL, and
/// so does that of the configuration, once it is known; what is kept of the jump
/// into the system's function does fit, and the jump is written at most once,
/// where the function is known; the service is loaded before its version is, and
/// the threads are frozen only where the version is known.
pub open spec fn well_formed(h: HookView) -> bool {
    &&& h.globals.consistent()
    &&& paths::terminated(h.globals.log_file)
    &&& h.phase == Phase::LogModulePath || h.phase == Phase::ConfigModulePath || paths::terminated(
        h.config_file,
    )
    &&& h.phase == Phase::SaveSlBytes ==> h.globals.sl_get_info is Some
    &&& h.globals.stub_sl is Some ==> h.phase == Phase::CodeSection || h.phase == Phase::Done
    &&& before_freeze(h.phase) ==> h.globals.fv.packed() == 0
    &&& frozen_in(h.phase) ==> h.globals.fv.packed() != 0
    &&& h.phase == Phase::Exports || h.phase == Phase::Version ==> h.globals.h_termsrv != 0
    &&& h.globals.h_termsrv == 0 ==> h.globals.fv.packed() == 0
}

/// The start of the installation.
pub open spec fn started(arch: Arch, targets: Targets) -> HookView {
    HookView {
        arch,
        targets,
        phase: Phase::LogModulePath,
        config_file: Seq::empty(),
        globals: GlobalsView {
            cfg: None,
            log_file: Seq::new(paths::PATH_LEN as nat, |i: int| 0u16),
            h_termsrv: 0,
            h_slc: 0,
            termsrv_base: 0,
            fv: FileVersion { major: 0, minor: 0, release: 0, build: 0 },
            service_main: None,
            svchost_push: None,
            sl_get_info: None,
            old_sl_bytes: Seq::empty(),
            stub_sl: None,
        },
    }
}

fn no_actions() -> (r: Vec<Action>)
    ensures
        action::trace(r@) == Seq::<ActionView>::empty(),
{
    let r: Vec<Action> = Vec::new();
    assert(action::trace(r@) =~= Seq::<ActionView>::empty());
    r
}

fn only_log(line: &str) -> (r: Vec<Action>)
    ensures
        action::trace(r@) == seq![ActionView::Log(line@)],
{
    let mut r = no_actions();
    action::add_log(&mut r, line);
    assert(action::trace(r@) =~= seq![ActionView::Log(line@)]);
    r
}

fn add_ending(out: &mut Vec<Action>)
    ensures
        action::trace(final(out)@) == action::trace(old(out)@) + ending(),
{
    action::add_log(out, "Resuming threads...\r\n");
    action::add_action(out, Action::ResumeThreads);
    assert(action::trace(out@) =~= action::trace(old(out)@) + ending());
}

fn non_null(address: usize) -> (r: Option<usize>)
    ensures
        r == found(address),
{
    if address == 0 {
        None
    } else {
        Some(address)
    }
}

fn distance_to(address: usize, base: usize) -> (r: usize)
    ensures
        r == distance(address, base),
{
    if address >= base {
        address - base
    } else {
        usize::MAX - (base - address) + 1
    }
}

impl Hook {
    /// The start of the installation.
    pub fn new(arch: Arch, targets: Targets) -> (r: Hook)
        ensures
            r@ == started(arch, targets),
            well_formed(r@),
    {
        let log_file = paths::path_buffer("");
        proof {
            reveal_strlit("");
            assert(utf16::encoded(""@).len() == 0);
            assert(log_file@ =~= Seq::new(paths::PATH_LEN as nat, |i: int| 0u16));
            law_start_is_well_formed(arch, targets);
        }
        let r = Hook {
            arch,
            targets,
            phase: Phase::LogModulePath,
            config_file: Vec::new(),
            globals: Globals::new(log_file),
        };
        assert(r@.config_file =~= Seq::empty());
        r
    }

    fn to_patches(&mut self, actions: Vec<Action>) -> (r: Vec<Action>)
        ensures
            final(self)@ == goes_to_patches(old(self)@, action::trace(actions@)).hook,
            action::trace(r@) == goes_to_patches(old(self)@, action::trace(actions@)).actions,
    {
        let mut out = actions;
        let sect = self.globals.fv.text();
        if settings::ini_has_section(self.globals.ini(), &sect) {
            self.phase = Phase::CodeSection;
        } else {
            self.phase = Phase::Done;
            add_ending(&mut out);
        }
        out
    }

    fn on_frozen(&mut self, actions: Vec<Action>) -> (r: Vec<Action>)
        ensures
            final(self)@ == goes_on_frozen(old(self)@, action::trace(actions@)).hook,
            action::trace(r@) == goes_on_frozen(old(self)@, action::trace(actions@)).actions,
    {
        let ver: u16 = self.globals.fv.pack();
        let hook_nt60 = settings::ini_read_bool(
            self.globals.ini(),
            "Main",
            "SLPolicyHookNT60",
            true,
        );
        let hook_nt61 = settings::ini_read_bool(
            self.globals.ini(),
            "Main",
            "SLPolicyHookNT61",
            true,
        );
        if (ver == 0x0600 && hook_nt60) || (ver == 0x0601 && hook_nt61) {
            self.phase = Phase::LoadSlcForJump;
            actions
        } else if ver == 0x0602 {
            self.phase = Phase::LoadSlcForCall;
            actions
        } else {
            self.to_patches(actions)
        }
    }

    fn on_config_path(&mut self, path: &[u16]) -> (r: Vec<Action>)
        requires
            old(self).phase == Phase::ConfigModulePath,
            path@.len() == paths::PATH_LEN,
        ensures
            final(self)@ == next(old(self)@, EventView::ModulePath(path@)).hook,
            action::trace(r@) == next(old(self)@, EventView::ModulePath(path@)).actions,
    {
        self.config_file = paths::sibling_path(path, "rdpwrap.ini\0");
        self.phase = Phase::Config;
        let mut out = only_log("Loading configuration...\r\n");
        let said = utf16::decode(&self.config_file);
        action::add_action(
            &mut out,
            Action::Log(action::around_text("Configuration file: ", &said, "\r\n")),
        );
        assert(action::trace(out@) =~= next(old(self)@, EventView::ModulePath(path@)).actions);
        out
    }

    fn on_config(&mut self, ini: Option<IniFile>) -> (r: Vec<Action>)
        requires
            old(self).phase == Phase::Config,
        ensures
            final(self)@ == next(old(self)@, Event::Config(ini)@).hook,
            action::trace(r@) == next(old(self)@, Event::Config(ini)@).actions,
    {
        self.globals.ini_file = ini;
        let log = match self.globals.ini() {
            Some(f) => f.get_string("Main", "LogFile"),
            None => None,
        };
        if let Some(var) = log {
            self.globals.log_file = paths::path_buffer(&var.value);
        }
        self.phase = Phase::LoadTermsrv;
        only_log("Initializing RDP Wrapper...\r\n")
    }

    fn on_exports(&mut self, service_main: usize, svchost_push: usize) -> (r: Vec<Action>)
        requires
            old(self).phase == Phase::Exports,
        ensures
            final(self)@ == next(
                old(self)@,
                EventView::Exports { service_main, svchost_push },
            ).hook,
            action::trace(r@) == next(
                old(self)@,
                EventView::Exports { service_main, svchost_push },
            ).actions,
    {
        self.globals.service_main = non_null(service_main);
        self.globals.svchost_push = non_null(svchost_push);
        self.phase = Phase::Version;
        let base: usize = self.globals.h_termsrv;
        let mut line = "Base addr:  0x0x".to_string();
        line.append(&number::to_hexadecimal(base as u64));
        line.append("\r\nSvcMain:    termsrv.dll+0x");
        line.append(&number::to_hexadecimal(distance_to(service_main, base) as u64));
        line.append("\r\nSvcGlobals: termsrv.dll+0x");
        line.append(&number::to_hexadecimal(distance_to(svchost_push, base) as u64));
        line.append("\r\n");
        only_log(&line)
    }

    fn on_version(&mut self, detected: Option<FileVersion>) -> (r: Vec<Action>)
        requires
            old(self).phase == Phase::Version,
        ensures
            final(self)@ == next(old(self)@, EventView::Version(detected)).hook,
            action::trace(r@) == next(old(self)@, EventView::Version(detected)).actions,
    {
        let fv = match detected {
            Some(fv) => fv,
            None => {
                self.phase = Phase::Done;
                return only_log("Error: Failed to detect Terminal Services version\r\n");
            },
        };
        self.globals.fv = fv;
        if fv.pack() == 0 {
            self.phase = Phase::Done;
            return only_log("Error: Failed to detect Terminal Services version\r\n");
        }
        let mut out = only_log(&action::around_text("Version:    ", &fv.text(), "\r\n"));
        action::add_log(&mut out, "Freezing threads...\r\n");
        action::add_action(&mut out, Action::FreezeThreads);
        assert(action::trace(out@) =~= seq![
            ActionView::Log(version_message(fv)),
            ActionView::Log("Freezing threads...\r\n"@),
            ActionView::FreezeThreads,
        ]);
        self.on_frozen(out)
    }

    fn on_sl_bytes(&mut self, read: Option<Vec<u8>>) -> (r: Vec<Action>)
        requires
            old(self).phase == Phase::SaveSlBytes,
            well_formed(old(self)@),
        ensures
            final(self)@ == next(old(self)@, Event::Memory(read)@).hook,
            action::trace(r@) == next(old(self)@, Event::Memory(read)@).actions,
    {
        if let Some(saved) = read {
            if saved.len() == farjmp::farjmp_size(self.arch) {
                if let Some(address) = self.globals.sl_get_info {
                    let jump = farjmp::make_stub(self.arch, self.targets.sl_get_info);
                    self.globals.old_sl_bytes = saved;
                    self.globals.stub_sl = Some(jump);
                    let mut out = no_actions();
                    action::add_action(
                        &mut out,
                        Action::WriteMemory { address, bytes: jump.as_bytes() },
                    );
                    assert(action::trace(out@) =~= seq![
                        ActionView::WriteMemory { address: address as int, bytes: jump.code() },
                    ]);
                    return self.to_patches(out);
                }
            }
        }
        self.to_patches(
            only_log("Error: Failed to save original SLGetWindowsInformationDWORD bytes\r\n"),
        )
    }

    fn on_code_section(&mut self, code: Option<(usize, usize)>) -> (r: Vec<Action>)
        requires
            old(self).phase == Phase::CodeSection,
        ensures
            final(self)@ == next(old(self)@, EventView::CodeSection(code)).hook,
            action::trace(r@) == next(old(self)@, EventView::CodeSection(code)).actions,
    {
        let mut out = no_actions();
        if let Some((base, _)) = code {
            self.globals.termsrv_base = base;
            let sect = self.globals.fv.text();
            out = patch::apply_binary_patch(
                self.globals.ini(),
                &sect,
                self.arch,
                base,
                self.targets,
            );
        }
        self.phase = Phase::Done;
        add_ending(&mut out);
        assert(action::trace(out@) =~= next(old(self)@, EventView::CodeSection(code)).actions);
        out
    }

    /// Whether `step` can be called with the answer.
    pub fn accepts(&self, event: &Event) -> (r: bool)
        ensures
            r == takes(self@, event@),
    {
        match (self.phase, event) {
            (Phase::LogModulePath, Event::ModulePath(path)) => path.len() == paths::PATH_LEN,
            (Phase::ConfigModulePath, Event::ModulePath(path)) => path.len() == paths::PATH_LEN,
            (Phase::Config, Event::Config(_)) => true,
            (Phase::LoadTermsrv, Event::Module(_)) => true,
            (Phase::Exports, Event::Exports { service_main: _, svchost_push: _ }) => true,
            (Phase::Version, Event::Version(_)) => true,
            (Phase::LoadSlcForJump, Event::Module(_)) => true,
            (Phase::FindSlForJump, Event::Function(_)) => true,
            (Phase::SaveSlBytes, Event::Memory(_)) => true,
            (Phase::LoadSlcForCall, Event::Module(_)) => true,
            (Phase::FindSlForCall, Event::Function(_)) => true,
            (Phase::CodeSection, Event::CodeSection(_)) => true,
            _ => false,
        }
    }

    /// Takes an answer of the system, and says what to do on it, in order. What
    /// goes to the log goes to the log of the new state.
    pub fn step(&mut self, event: Event) -> (r: Vec<Action>)
        requires
            well_formed(old(self)@),
            takes(old(self)@, event@),
        ensures
            final(self)@ == next(old(self)@, event@).hook,
            action::trace(r@) == next(old(self)@, event@).actions,
            well_formed(final(self)@),
    {
        proof {
            law_step_stays_well_formed(self@, event@);
        }
        match (self.phase, event) {
            (Phase::LogModulePath, Event::ModulePath(path)) => {
                self.globals.log_file = paths::sibling_path(&path, "rdpwrap.txt\0");
                self.phase = Phase::ConfigModulePath;
                no_actions()
            },
            (Phase::ConfigModulePath, Event::ModulePath(path)) => self.on_config_path(&path),
            (Phase::Config, Event::Config(ini)) => self.on_config(ini),
            (Phase::LoadTermsrv, Event::Module(handle)) => {
                if handle == 0 {
                    self.phase = Phase::Done;
                    only_log("Error: Failed to load Terminal Services library\r\n")
                } else {
                    self.globals.h_termsrv = handle;
                    self.phase = Phase::Exports;
                    no_actions()
                }
            },
            (Phase::Exports, Event::Exports { service_main, svchost_push }) => self.on_exports(
                service_main,
                svchost_push,
            ),
            (Phase::Version, Event::Version(detected)) => self.on_version(detected),
            (Phase::LoadSlcForJump, Event::Module(handle)) => {
                if handle == 0 {
                    self.to_patches(no_actions())
                } else {
                    self.globals.h_slc = handle;
                    self.phase = Phase::FindSlForJump;
                    no_actions()
                }
            },
            (Phase::FindSlForJump, Event::Function(address)) => {
                if address == 0 {
                    self.to_patches(no_actions())
                } else {
                    self.globals.sl_get_info = Some(address);
                    self.phase = Phase::SaveSlBytes;
                    only_log("Hook SLGetWindowsInformationDWORD\r\n")
                }
            },
            (Phase::SaveSlBytes, Event::Memory(read)) => self.on_sl_bytes(read),
            (Phase::LoadSlcForCall, Event::Module(handle)) => {
                self.globals.h_slc = handle;
                self.phase = Phase::FindSlForCall;
                no_actions()
            },
            (Phase::FindSlForCall, Event::Function(address)) => {
                if address != 0 {
                    self.globals.sl_get_info = Some(address);
                }
                self.to_patches(no_actions())
            },
            (Phase::CodeSection, Event::CodeSection(code)) => self.on_code_section(code),
            _ => no_actions(),
        }
    }
}

/// The installation fits together at its start.
pub proof fn law_start_is_well_formed(arch: Arch, targets: Targets)
    ensures
        well_formed(started(arch, targets)),
{
    assert(0u16 | (0u16 << 8u16) == 0u16) by (bit_vector);
}

/// Every step leaves an installation that fits together.
pub proof fn law_step_stays_well_formed(h: HookView, event: EventView)
    requires
        well_formed(h),
        takes(h, event),
    ensures
        well_formed(next(h, event).hook),
{
    farjmp::law_jump_fits(h.arch, h.targets.sl_get_info as nat);
    if let EventView::Config(Some(sections)) = event {
        if let Some(v) = settings::setting(Some(sections), "Main"@, "LogFile"@) {
            paths::law_path_buffers_end(
                Seq::empty(),
                utf16::encoded(ini_file::field(v.value)),
            );
        }
    }
    if let EventView::ModulePath(path) = event {
        paths::law_path_buffers_end(path, utf16::encoded("rdpwrap.txt\0"@));
        paths::law_path_buffers_end(path, utf16::encoded("rdpwrap.ini\0"@));
    }
}

} // verus!
