//! The policy variables of the terminal service: which of them the
//! configuration sets, and to what.

use crate::action;
use crate::action::{Action, ActionView};
use crate::farjmp::Arch;
use crate::ini_file::{IniFile, SectionView};
use crate::number;
use crate::policy::S_OK;
use crate::settings;
use crate::version::FileVersion;
use vstd::prelude::*;

verus! {

/// The name of the section with the places of the variables in a version.
pub open spec fn init_section(version: FileVersion) -> Seq<char> {
    version.dotted() + "-SLInit"@
}

/// What the log says of a variable that was set.
pub open spec fn set_message(address: nat, key: Seq<char>, value: nat) -> Seq<char> {
    "SLInit [0x0x"@ + number::hexadecimal(address) + "] "@ + key + " = "@ + number::decimal(value)
        + "\r\n"@
}

/// What setting one variable does: where the section of the version gives its
/// place, and the place fits behind the base, the value is stored and logged.
pub open spec fn set_variable(
    cfg: Option<Seq<SectionView>>,
    sect: Seq<char>,
    arch: Arch,
    base: int,
    key: Seq<char>,
    default: int,
) -> Seq<ActionView> {
    let offset = settings::hex_setting(cfg, sect, key + "."@ + arch.suffix(), 0);
    if offset == 0 || base + offset > usize::MAX {
        Seq::empty()
    } else {
        let value = settings::hex_setting(cfg, "SLInit"@, key, default) % 0x1_0000_0000;
        seq![
            ActionView::WriteDword { address: base + offset, value },
            ActionView::Log(set_message((base + offset) as nat, key, value as nat)),
        ]
    }
}

/// What setting all variables does.
pub open spec fn set_variables(
    cfg: Option<Seq<SectionView>>,
    sect: Seq<char>,
    arch: Arch,
    base: int,
) -> Seq<ActionView> {
    set_variable(cfg, sect, arch, base, "bServerSku"@, 1) + set_variable(
        cfg,
        sect,
        arch,
        base,
        "bRemoteConnAllowed"@,
        1,
    ) + set_variable(cfg, sect, arch, base, "bFUSEnabled"@, 1) + set_variable(
        cfg,
        sect,
        arch,
        base,
        "bAppServerAllowed"@,
        1,
    ) + set_variable(cfg, sect, arch, base, "bMultimonAllowed"@, 1) + set_variable(
        cfg,
        sect,
        arch,
        base,
        "lMaxUserSessions"@,
        0,
    ) + set_variable(cfg, sect, arch, base, "ulMaxDebugSessions"@, 0) + set_variable(
        cfg,
        sect,
        arch,
        base,
        "bInitialized"@,
        1,
    )
}

/// What the initialisation of the policy variables does.
pub open spec fn initialization(
    cfg: Option<Seq<SectionView>>,
    version: FileVersion,
    arch: Arch,
    base: int,
) -> Seq<ActionView> {
    seq![ActionView::Log(">>> CSLQuery::Initialize\r\n"@)] + (if settings::has_section(
        cfg,
        init_section(version),
    ) {
        set_variables(cfg, init_section(version), arch, base)
    } else {
        Seq::empty()
    }) + seq![ActionView::Log("<<< CSLQuery::Initialize\r\n"@)]
}

fn add_variable(
    out: &mut Vec<Action>,
    ini: Option<&IniFile>,
    sect: &str,
    arch: Arch,
    base: usize,
    key: &str,
    default: usize,
)
    ensures
        action::trace(final(out)@) == action::trace(old(out)@) + set_variable(
            settings::config(ini),
            sect@,
            arch,
            base as int,
            key@,
            default as int,
        ),
{
    let ghost start = action::trace(out@);
    let place = crate::patch::arch_key(&action::around_text(key, ".", ""), arch);
    proof {
        reveal_strlit("");
        assert(place@ =~= key@ + "."@ + arch.suffix());
    }
    let offset: usize = settings::ini_read_dword_hex(ini, sect, &place, 0);
    assert(start + Seq::<ActionView>::empty() =~= start);
    if offset == 0 {
        return ;
    }
    match base.checked_add(offset) {
        None => {},
        Some(address) => {
            let setting: usize = settings::ini_read_dword_hex(ini, "SLInit", key, default);
            let low: u64 = setting as u64 % 0x1_0000_0000;
            let value: u32 = low as u32;
            action::add_action(out, Action::WriteDword { address, value });
            let mut line = "SLInit [0x0x".to_string();
            line.append(&number::to_hexadecimal(address as u64));
            line.append("] ");
            line.append(key);
            line.append(" = ");
            line.append(&number::to_decimal(value as u64));
            line.append("\r\n");
            action::add_action(out, Action::Log(line));
            assert(action::trace(out@) =~= start + set_variable(
                settings::config(ini),
                sect@,
                arch,
                base as int,
                key@,
                default as int,
            ));
        },
    }
}

proof fn lemma_sum(a: Seq<ActionView>, b: Seq<ActionView>, c: Seq<ActionView>)
    ensures
        a + b + c == a + (b + c),
{
    assert(a + b + c =~= a + (b + c));
}

fn add_variables(
    out: &mut Vec<Action>,
    ini: Option<&IniFile>,
    sect: &str,
    arch: Arch,
    base: usize,
)
    ensures
        action::trace(final(out)@) == action::trace(old(out)@) + set_variables(
            settings::config(ini),
            sect@,
            arch,
            base as int,
        ),
{
    let ghost start = action::trace(out@);
    add_variable(out, ini, sect, arch, base, "bServerSku", 1);
    add_variable(out, ini, sect, arch, base, "bRemoteConnAllowed", 1);
    add_variable(out, ini, sect, arch, base, "bFUSEnabled", 1);
    add_variable(out, ini, sect, arch, base, "bAppServerAllowed", 1);
    add_variable(out, ini, sect, arch, base, "bMultimonAllowed", 1);
    add_variable(out, ini, sect, arch, base, "lMaxUserSessions", 0);
    add_variable(out, ini, sect, arch, base, "ulMaxDebugSessions", 0);
    add_variable(out, ini, sect, arch, base, "bInitialized", 1);
    proof {
        let cfg = settings::config(ini);
        let v0 = set_variable(cfg, sect@, arch, base as int, "bServerSku"@, 1);
        let v1 = set_variable(cfg, sect@, arch, base as int, "bRemoteConnAllowed"@, 1);
        let v2 = set_variable(cfg, sect@, arch, base as int, "bFUSEnabled"@, 1);
        let v3 = set_variable(cfg, sect@, arch, base as int, "bAppServerAllowed"@, 1);
        let v4 = set_variable(cfg, sect@, arch, base as int, "bMultimonAllowed"@, 1);
        let v5 = set_variable(cfg, sect@, arch, base as int, "lMaxUserSessions"@, 0);
        let v6 = set_variable(cfg, sect@, arch, base as int, "ulMaxDebugSessions"@, 0);
        let v7 = set_variable(cfg, sect@, arch, base as int, "bInitialized"@, 1);
        lemma_sum(start, v0, v1);
        lemma_sum(start, v0 + v1, v2);
        lemma_sum(start, v0 + v1 + v2, v3);
        lemma_sum(start, v0 + v1 + v2 + v3, v4);
        lemma_sum(start, v0 + v1 + v2 + v3 + v4, v5);
        lemma_sum(start, v0 + v1 + v2 + v3 + v4 + v5, v6);
        lemma_sum(start, v0 + v1 + v2 + v3 + v4 + v5 + v6, v7);
    }
}

/// The initialisation of the policy variables: what to do, and the result that
/// its caller gets.
pub struct Initialized {
    pub actions: Vec<Action>,
    pub result: i32,
}

/// Lists what the initialisation of the policy variables does in the service
/// whose code starts at `base`. It always succeeds.
pub fn csl_query_initialize(
    ini: Option<&IniFile>,
    version: FileVersion,
    arch: Arch,
    base: usize,
) -> (r: Initialized)
    ensures
        action::trace(r.actions@) == initialization(
            settings::config(ini),
            version,
            arch,
            base as int,
        ),
        r.result == S_OK,
{
    let mut out: Vec<Action> = Vec::new();
    assert(action::trace(out@) =~= Seq::<ActionView>::empty());
    action::add_log(&mut out, ">>> CSLQuery::Initialize\r\n");
    let mut sect = version.text();
    sect.append("-SLInit");
    if settings::ini_has_section(ini, &sect) {
        add_variables(&mut out, ini, &sect, arch, base);
    }
    action::add_log(&mut out, "<<< CSLQuery::Initialize\r\n");
    assert(action::trace(out@) =~= initialization(
        settings::config(ini),
        version,
        arch,
        base as int,
    ));
    Initialized { actions: out, result: S_OK }
}

/// Whether the actions only log, and store numbers of 32 bits at addresses behind
/// the base.
pub open spec fn stores_behind(actions: Seq<ActionView>, base: int) -> bool {
    forall|i: int|
        0 <= i < actions.len() ==> (match #[trigger] actions[i] {
            ActionView::Log(_) => true,
            ActionView::WriteDword { address, value } => base < address <= usize::MAX && 0 <= value
                <= u32::MAX,
            _ => false,
        })
}

proof fn lemma_stores_behind_sum(a: Seq<ActionView>, b: Seq<ActionView>, base: int)
    requires
        stores_behind(a, base),
        stores_behind(b, base),
    ensures
        stores_behind(a + b, base),
{
    assert forall|i: int| 0 <= i < (a + b).len() implies (match #[trigger] (a + b)[i] {
        ActionView::Log(_) => true,
        ActionView::WriteDword { address, value } => base < address <= usize::MAX && 0 <= value
            <= u32::MAX,
        _ => false,
    }) by {
        if i < a.len() {
            assert((a + b)[i] == a[i]);
        } else {
            assert((a + b)[i] == b[i - a.len()]);
        }
    }
}

proof fn lemma_variable_behind(
    cfg: Option<Seq<SectionView>>,
    sect: Seq<char>,
    arch: Arch,
    base: int,
    key: Seq<char>,
    default: int,
)
    ensures
        stores_behind(set_variable(cfg, sect, arch, base, key, default), base),
{
    if let Some(v) = settings::setting(cfg, sect, key + "."@ + arch.suffix()) {
        vstd::arithmetic::div_mod::lemma_mod_bound(
            crate::ini_file::dword_value(v.value, 16),
            usize::MAX + 1,
        );
    }
}

/// Whatever the configuration says, nothing is stored at or before the base.
pub proof fn law_stores_stay_behind_base(
    cfg: Option<Seq<SectionView>>,
    version: FileVersion,
    arch: Arch,
    base: int,
)
    ensures
        stores_behind(initialization(cfg, version, arch, base), base),
{
    let sect = init_section(version);
    let v0 = set_variable(cfg, sect, arch, base, "bServerSku"@, 1);
    lemma_variable_behind(cfg, sect, arch, base, "bServerSku"@, 1);
    let v1 = set_variable(cfg, sect, arch, base, "bRemoteConnAllowed"@, 1);
    lemma_variable_behind(cfg, sect, arch, base, "bRemoteConnAllowed"@, 1);
    let v2 = set_variable(cfg, sect, arch, base, "bFUSEnabled"@, 1);
    lemma_variable_behind(cfg, sect, arch, base, "bFUSEnabled"@, 1);
    let v3 = set_variable(cfg, sect, arch, base, "bAppServerAllowed"@, 1);
    lemma_variable_behind(cfg, sect, arch, base, "bAppServerAllowed"@, 1);
    let v4 = set_variable(cfg, sect, arch, base, "bMultimonAllowed"@, 1);
    lemma_variable_behind(cfg, sect, arch, base, "bMultimonAllowed"@, 1);
    let v5 = set_variable(cfg, sect, arch, base, "lMaxUserSessions"@, 0);
    lemma_variable_behind(cfg, sect, arch, base, "lMaxUserSessions"@, 0);
    let v6 = set_variable(cfg, sect, arch, base, "ulMaxDebugSessions"@, 0);
    lemma_variable_behind(cfg, sect, arch, base, "ulMaxDebugSessions"@, 0);
    let v7 = set_variable(cfg, sect, arch, base, "bInitialized"@, 1);
    lemma_variable_behind(cfg, sect, arch, base, "bInitialized"@, 1);
    lemma_stores_behind_sum(v0, v1, base);
    lemma_stores_behind_sum(v0 + v1, v2, base);
    lemma_stores_behind_sum(v0 + v1 + v2, v3, base);
    lemma_stores_behind_sum(v0 + v1 + v2 + v3, v4, base);
    lemma_stores_behind_sum(v0 + v1 + v2 + v3 + v4, v5, base);
    lemma_stores_behind_sum(v0 + v1 + v2 + v3 + v4 + v5, v6, base);
    lemma_stores_behind_sum(v0 + v1 + v2 + v3 + v4 + v5 + v6, v7, base);
    let first = seq![ActionView::Log(">>> CSLQuery::Initialize\r\n"@)];
    let last = seq![ActionView::Log("<<< CSLQuery::Initialize\r\n"@)];
    if settings::has_section(cfg, sect) {
        lemma_stores_behind_sum(first, set_variables(cfg, sect, arch, base), base);
        lemma_stores_behind_sum(first + set_variables(cfg, sect, arch, base), last, base);
    } else {
        lemma_stores_behind_sum(first, Seq::empty(), base);
        lemma_stores_behind_sum(first + Seq::<ActionView>::empty(), last, base);
    }
}

} // verus!
