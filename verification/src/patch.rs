//! What the configuration wants changed in the code of the terminal service:
//! code that is replaced, and functions that are sent elsewhere.

use crate::action;
use crate::action::{Action, ActionView};
use crate::farjmp;
use crate::farjmp::Arch;
use crate::ini_file;
use crate::ini_file::{IniFile, SectionView};
use crate::settings;
use vstd::prelude::*;

verus! {

/// The addresses of the functions that calls are sent to.
#[derive(Clone, Copy, Debug, PartialEq, Eq, Structural)]
pub struct Targets {
    /// Answers policy queries in place of the exported function.
    pub sl_get_info: usize,
    /// Answers policy queries in place of the internal function.
    pub win8_sl: usize,
    /// The same, for the arguments that an early x86 release passes.
    pub win8_sl_cp: usize,
    /// Sets the policy variables.
    pub csl_query_initialize: usize,
}

/// The patches that replace code.
#[derive(Clone, Copy, Debug, PartialEq, Eq, Structural)]
pub enum Patch {
    LocalOnly,
    SingleUser,
    DefPolicy,
}

impl Patch {
    /// The key, without the architecture, that switches the patch on.
    pub open spec fn flag_key(self) -> Seq<char> {
        match self {
            Patch::LocalOnly => "LocalOnlyPatch."@,
            Patch::SingleUser => "SingleUserPatch."@,
            Patch::DefPolicy => "DefPolicyPatch."@,
        }
    }

    /// The key, without the architecture, of the place that is patched.
    pub open spec fn offset_key(self) -> Seq<char> {
        match self {
            Patch::LocalOnly => "LocalOnlyOffset."@,
            Patch::SingleUser => "SingleUserOffset."@,
            Patch::DefPolicy => "DefPolicyOffset."@,
        }
    }

    /// The key, without the architecture, of the name of the code.
    pub open spec fn code_key(self) -> Seq<char> {
        match self {
            Patch::LocalOnly => "LocalOnlyCode."@,
            Patch::SingleUser => "SingleUserCode."@,
            Patch::DefPolicy => "DefPolicyCode."@,
        }
    }

    /// What the log says of the patch.
    pub open spec fn message(self) -> Seq<char> {
        match self {
            Patch::LocalOnly => "Patch CEnforcementCore::GetInstanceOfTSLicense\r\n"@,
            Patch::SingleUser =>
                "Patch CSessionArbitrationHelper::IsSingleSessionPerUserEnabled\r\n"@,
            Patch::DefPolicy => "Patch CDefPolicy::Query\r\n"@,
        }
    }

    fn names(self) -> (r: (&'static str, &'static str, &'static str, &'static str))
        ensures
            r.0@ == self.flag_key(),
            r.1@ == self.offset_key(),
            r.2@ == self.code_key(),
            r.3@ == self.message(),
    {
        match self {
            Patch::LocalOnly => (
                "LocalOnlyPatch.",
                "LocalOnlyOffset.",
                "LocalOnlyCode.",
                "Patch CEnforcementCore::GetInstanceOfTSLicense\r\n",
            ),
            Patch::SingleUser => (
                "SingleUserPatch.",
                "SingleUserOffset.",
                "SingleUserCode.",
                "Patch CSessionArbitrationHelper::IsSingleSessionPerUserEnabled\r\n",
            ),
            Patch::DefPolicy => (
                "DefPolicyPatch.",
                "DefPolicyOffset.",
                "DefPolicyCode.",
                "Patch CDefPolicy::Query\r\n",
            ),
        }
    }
}

/// The write of bytes at an offset behind the base, where the offset is not 0,
/// the address fits, and there is something to write.
pub open spec fn write_behind(base: int, offset: int, written: Seq<u8>) -> Seq<ActionView> {
    if 0 < offset && base + offset <= usize::MAX && written.len() > 0 {
        seq![ActionView::WriteMemory { address: base + offset, bytes: written }]
    } else {
        Seq::empty()
    }
}

/// Whether the section switches the patch on.
pub open spec fn patch_enabled(
    cfg: Option<Seq<SectionView>>,
    sect: Seq<char>,
    arch: Arch,
    patch: Patch,
) -> bool {
    settings::flag_setting(cfg, sect, patch.flag_key() + arch.suffix(), false)
}

/// The name of the code that the section puts in the patched place.
pub open spec fn patch_code(
    cfg: Option<Seq<SectionView>>,
    sect: Seq<char>,
    arch: Arch,
    patch: Patch,
) -> Seq<char> {
    settings::text_setting(cfg, sect, patch.code_key() + arch.suffix(), Seq::empty())
}

/// The bytes of the code with the name.
pub open spec fn code_bytes(cfg: Option<Seq<SectionView>>, code: Seq<char>) -> Option<Seq<u8>> {
    match cfg {
        Some(sections) => ini_file::lookup_bytes(sections, "PatchCodes"@, code),
        None => None,
    }
}

/// What a patch does.
pub open spec fn patch_actions(
    cfg: Option<Seq<SectionView>>,
    sect: Seq<char>,
    arch: Arch,
    base: int,
    patch: Patch,
) -> Seq<ActionView> {
    if !patch_enabled(cfg, sect, arch, patch) {
        Seq::empty()
    } else {
        let code = patch_code(cfg, sect, arch, patch);
        let offset = settings::hex_setting(cfg, sect, patch.offset_key() + arch.suffix(), 0);
        seq![ActionView::Log(patch.message())] + (if code.len() == 0 {
            Seq::empty()
        } else {
            match code_bytes(cfg, code) {
                Some(b) => write_behind(base, offset, b),
                None => Seq::empty(),
            }
        })
    }
}

/// What sending a function elsewhere does.
pub open spec fn jump_actions(
    cfg: Option<Seq<SectionView>>,
    sect: Seq<char>,
    arch: Arch,
    base: int,
    flag_key: Seq<char>,
    offset_key: Seq<char>,
    message: Seq<char>,
    target: nat,
) -> Seq<ActionView> {
    if !settings::flag_setting(cfg, sect, flag_key + arch.suffix(), false) {
        Seq::empty()
    } else {
        let offset = settings::hex_setting(cfg, sect, offset_key + arch.suffix(), 0);
        seq![ActionView::Log(message)] + write_behind(
            base,
            offset,
            farjmp::stub(arch, target).code(),
        )
    }
}

/// The function that answers policy queries in place of the internal one: on
/// x86 the section may ask for the one with the other arguments.
pub open spec fn policy_target(
    cfg: Option<Seq<SectionView>>,
    sect: Seq<char>,
    arch: Arch,
    targets: Targets,
) -> nat {
    let func = settings::text_setting(
        cfg,
        sect,
        "SLPolicyFunc."@ + arch.suffix(),
        "New_Win8SL"@,
    );
    if arch == Arch::X86 && func == "New_Win8SL_CP"@ {
        targets.win8_sl_cp as nat
    } else {
        targets.win8_sl as nat
    }
}

/// What sending policy queries to the wrapper does.
pub open spec fn policy_jump(
    cfg: Option<Seq<SectionView>>,
    sect: Seq<char>,
    arch: Arch,
    base: int,
    targets: Targets,
) -> Seq<ActionView> {
    jump_actions(
        cfg,
        sect,
        arch,
        base,
        "SLPolicyInternal."@,
        "SLPolicyOffset."@,
        "Hook SLGetWindowsInformationDWORDWrapper\r\n"@,
        policy_target(cfg, sect, arch, targets),
    )
}

/// What sending the initialisation of the policy variables to the wrapper does.
pub open spec fn init_jump(
    cfg: Option<Seq<SectionView>>,
    sect: Seq<char>,
    arch: Arch,
    base: int,
    targets: Targets,
) -> Seq<ActionView> {
    jump_actions(
        cfg,
        sect,
        arch,
        base,
        "SLInitHook."@,
        "SLInitOffset."@,
        "Hook CSLQuery::Initialize\r\n"@,
        targets.csl_query_initialize as nat,
    )
}

/// What the section wants done, in order.
pub open spec fn binary_patch(
    cfg: Option<Seq<SectionView>>,
    sect: Seq<char>,
    arch: Arch,
    base: int,
    targets: Targets,
) -> Seq<ActionView> {
    patch_actions(cfg, sect, arch, base, Patch::LocalOnly) + patch_actions(
        cfg,
        sect,
        arch,
        base,
        Patch::SingleUser,
    ) + patch_actions(cfg, sect, arch, base, Patch::DefPolicy) + policy_jump(
        cfg,
        sect,
        arch,
        base,
        targets,
    ) + init_jump(cfg, sect, arch, base, targets)
}

/// A configuration key: what it asks, and for which architecture.
pub fn arch_key(prefix: &str, arch: Arch) -> (r: String)
    ensures
        r@ == prefix@ + arch.suffix(),
{
    let mut r = prefix.to_string();
    r.append(arch.name());
    r
}

fn add_write_behind(out: &mut Vec<Action>, base: usize, offset: usize, written: Vec<u8>)
    ensures
        action::trace(final(out)@) == action::trace(old(out)@) + write_behind(
            base as int,
            offset as int,
            written@,
        ),
{
    if let Some(address) = base.checked_add(offset) {
        if address > base && written.len() > 0 {
            action::add_action(out, Action::WriteMemory { address, bytes: written });
            assert(action::trace(out@) =~= action::trace(old(out)@) + write_behind(
                base as int,
                offset as int,
                written@,
            ));
            return ;
        }
    }
    assert(action::trace(out@) =~= action::trace(old(out)@) + write_behind(
        base as int,
        offset as int,
        written@,
    ));
}

fn add_patch(
    out: &mut Vec<Action>,
    ini: Option<&IniFile>,
    sect: &str,
    arch: Arch,
    base: usize,
    patch: Patch,
)
    ensures
        action::trace(final(out)@) == action::trace(old(out)@) + patch_actions(
            settings::config(ini),
            sect@,
            arch,
            base as int,
            patch,
        ),
{
    let ghost start = action::trace(out@);
    let (flag_key, offset_key, code_key, message) = patch.names();
    if !settings::ini_read_bool(ini, sect, &arch_key(flag_key, arch), false) {
        assert(start + Seq::<ActionView>::empty() =~= start);
        return ;
    }
    action::add_log(out, message);
    let offset: usize = settings::ini_read_dword_hex(ini, sect, &arch_key(offset_key, arch), 0);
    let empty = String::new();
    let code = settings::ini_read_string(ini, sect, &arch_key(code_key, arch), &empty);
    let mut written: Vec<u8> = Vec::new();
    if !code.as_str().is_empty() {
        if let Some(f) = ini {
            if let Some(found) = f.get_bytearray("PatchCodes", &code) {
                written = found.value;
            }
        }
    }
    assert(write_behind(base as int, offset as int, Seq::empty()) =~= Seq::empty());
    add_write_behind(out, base, offset, written);
    assert(action::trace(out@) =~= start + patch_actions(
        settings::config(ini),
        sect@,
        arch,
        base as int,
        patch,
    ));
}

fn add_jump(
    out: &mut Vec<Action>,
    ini: Option<&IniFile>,
    sect: &str,
    arch: Arch,
    base: usize,
    keys: (&str, &str, &str),
    target: usize,
)
    ensures
        action::trace(final(out)@) == action::trace(old(out)@) + jump_actions(
            settings::config(ini),
            sect@,
            arch,
            base as int,
            keys.0@,
            keys.1@,
            keys.2@,
            target as nat,
        ),
{
    let ghost start = action::trace(out@);
    let (flag_key, offset_key, message) = keys;
    if !settings::ini_read_bool(ini, sect, &arch_key(flag_key, arch), false) {
        assert(start + Seq::<ActionView>::empty() =~= start);
        return ;
    }
    action::add_log(out, message);
    let offset: usize = settings::ini_read_dword_hex(ini, sect, &arch_key(offset_key, arch), 0);
    add_write_behind(out, base, offset, farjmp::make_stub(arch, target).as_bytes());
    assert(action::trace(out@) =~= start + jump_actions(
        settings::config(ini),
        sect@,
        arch,
        base as int,
        keys.0@,
        keys.1@,
        keys.2@,
        target as nat,
    ));
}

fn choose_policy_target(
    ini: Option<&IniFile>,
    sect: &str,
    arch: Arch,
    targets: Targets,
) -> (r: usize)
    ensures
        r == policy_target(settings::config(ini), sect@, arch, targets),
{
    let func = settings::ini_read_string(
        ini,
        sect,
        &arch_key("SLPolicyFunc.", arch),
        "New_Win8SL",
    );
    if arch == Arch::X86 && crate::text::same_text(&func, "New_Win8SL_CP") {
        targets.win8_sl_cp
    } else {
        targets.win8_sl
    }
}

/// Lists what the section wants done to the code that starts at `base`: three
/// patches and two functions that are sent elsewhere, each where the section
/// switches it on.
pub fn apply_binary_patch(
    ini: Option<&IniFile>,
    sect: &str,
    arch: Arch,
    base: usize,
    targets: Targets,
) -> (r: Vec<Action>)
    ensures
        action::trace(r@) == binary_patch(settings::config(ini), sect@, arch, base as int, targets),
{
    let mut out: Vec<Action> = Vec::new();
    assert(action::trace(out@) =~= Seq::<ActionView>::empty());
    add_patch(&mut out, ini, sect, arch, base, Patch::LocalOnly);
    add_patch(&mut out, ini, sect, arch, base, Patch::SingleUser);
    add_patch(&mut out, ini, sect, arch, base, Patch::DefPolicy);
    let target: usize = choose_policy_target(ini, sect, arch, targets);
    add_jump(
        &mut out,
        ini,
        sect,
        arch,
        base,
        (
            "SLPolicyInternal.",
            "SLPolicyOffset.",
            "Hook SLGetWindowsInformationDWORDWrapper\r\n",
        ),
        target,
    );
    add_jump(
        &mut out,
        ini,
        sect,
        arch,
        base,
        ("SLInitHook.", "SLInitOffset.", "Hook CSLQuery::Initialize\r\n"),
        targets.csl_query_initialize,
    );
    assert(action::trace(out@) =~= binary_patch(
        settings::config(ini),
        sect@,
        arch,
        base as int,
        targets,
    ));
    out
}

/// Whether the actions only log, and write between 1 and 16 bytes at addresses
/// behind the base.
pub open spec fn writes_behind(actions: Seq<ActionView>, base: int) -> bool {
    forall|i: int|
        0 <= i < actions.len() ==> (match #[trigger] actions[i] {
            ActionView::Log(_) => true,
            ActionView::WriteMemory { address, bytes } => base < address <= usize::MAX && 1
                <= bytes.len() <= 16,
            _ => false,
        })
}

proof fn lemma_writes_behind_sum(a: Seq<ActionView>, b: Seq<ActionView>, base: int)
    requires
        writes_behind(a, base),
        writes_behind(b, base),
    ensures
        writes_behind(a + b, base),
{
    assert forall|i: int| 0 <= i < (a + b).len() implies (match #[trigger] (a + b)[i] {
        ActionView::Log(_) => true,
        ActionView::WriteMemory { address, bytes } => base < address <= usize::MAX && 1
            <= bytes.len() <= 16,
        _ => false,
    }) by {
        if i < a.len() {
            assert((a + b)[i] == a[i]);
        } else {
            assert((a + b)[i] == b[i - a.len()]);
        }
    }
}

proof fn lemma_patch_behind(
    cfg: Option<Seq<SectionView>>,
    sect: Seq<char>,
    arch: Arch,
    base: int,
    patch: Patch,
)
    ensures
        writes_behind(patch_actions(cfg, sect, arch, base, patch), base),
{
    if let Some(sections) = cfg {
        let code = patch_code(cfg, sect, arch, patch);
        if let Some(v) = ini_file::lookup(sections, "PatchCodes"@, code) {
            crate::ini_laws::law_at_most_sixteen_bytes(v.value);
        }
    }
}

proof fn lemma_jump_behind(
    cfg: Option<Seq<SectionView>>,
    sect: Seq<char>,
    arch: Arch,
    base: int,
    flag_key: Seq<char>,
    offset_key: Seq<char>,
    message: Seq<char>,
    target: nat,
)
    ensures
        writes_behind(
            jump_actions(cfg, sect, arch, base, flag_key, offset_key, message, target),
            base,
        ),
{
    farjmp::law_jump_fits(arch, target);
}

/// Whatever the configuration says, nothing is written at or before the base,
/// and nothing longer than a patch or a jump.
pub proof fn law_writes_stay_behind_base(
    cfg: Option<Seq<SectionView>>,
    sect: Seq<char>,
    arch: Arch,
    base: int,
    targets: Targets,
)
    ensures
        writes_behind(binary_patch(cfg, sect, arch, base, targets), base),
{
    let a = patch_actions(cfg, sect, arch, base, Patch::LocalOnly);
    let b = patch_actions(cfg, sect, arch, base, Patch::SingleUser);
    let c = patch_actions(cfg, sect, arch, base, Patch::DefPolicy);
    let d = policy_jump(cfg, sect, arch, base, targets);
    let e = init_jump(cfg, sect, arch, base, targets);
    lemma_patch_behind(cfg, sect, arch, base, Patch::LocalOnly);
    lemma_patch_behind(cfg, sect, arch, base, Patch::SingleUser);
    lemma_patch_behind(cfg, sect, arch, base, Patch::DefPolicy);
    lemma_jump_behind(
        cfg,
        sect,
        arch,
        base,
        "SLPolicyInternal."@,
        "SLPolicyOffset."@,
        "Hook SLGetWindowsInformationDWORDWrapper\r\n"@,
        policy_target(cfg, sect, arch, targets),
    );
    lemma_jump_behind(
        cfg,
        sect,
        arch,
        base,
        "SLInitHook."@,
        "SLInitOffset."@,
        "Hook CSLQuery::Initialize\r\n"@,
        targets.csl_query_initialize as nat,
    );
    lemma_writes_behind_sum(a, b, base);
    lemma_writes_behind_sum(a + b, c, base);
    lemma_writes_behind_sum(a + b + c, d, base);
    lemma_writes_behind_sum(a + b + c + d, e, base);
}

/// A section that switches nothing on changes nothing.
pub proof fn law_nothing_switched_on(
    cfg: Option<Seq<SectionView>>,
    sect: Seq<char>,
    arch: Arch,
    base: int,
    targets: Targets,
)
    requires
        !patch_enabled(cfg, sect, arch, Patch::LocalOnly),
        !patch_enabled(cfg, sect, arch, Patch::SingleUser),
        !patch_enabled(cfg, sect, arch, Patch::DefPolicy),
        !settings::flag_setting(cfg, sect, "SLPolicyInternal."@ + arch.suffix(), false),
        !settings::flag_setting(cfg, sect, "SLInitHook."@ + arch.suffix(), false),
    ensures
        binary_patch(cfg, sect, arch, base, targets) == Seq::<ActionView>::empty(),
{
    assert(binary_patch(cfg, sect, arch, base, targets) =~= Seq::<ActionView>::empty());
}

/// The writes among the actions, in order.
pub open spec fn writes(actions: Seq<ActionView>) -> Seq<ActionView> {
    actions.filter(|a: ActionView| a is WriteMemory)
}

/// Whether there is at most one write, at an address behind the base and of at
/// least `min` and at most `max` bytes.
pub open spec fn one_write_behind(
    written: Seq<ActionView>,
    base: int,
    min: nat,
    max: nat,
) -> bool {
    written.len() == 0 || (written.len() == 1 && (match written[0] {
        ActionView::WriteMemory { address, bytes } => base < address <= usize::MAX && min
            <= bytes.len() <= max,
        _ => false,
    }))
}

proof fn lemma_writes_sum(a: Seq<ActionView>, b: Seq<ActionView>)
    ensures
        writes(a + b) == writes(a) + writes(b),
{
    Seq::filter_distributes_over_add(a, b, |x: ActionView| x is WriteMemory);
}

proof fn lemma_log_then(message: Seq<char>, behind: Seq<ActionView>)
    requires
        behind.len() == 0 || (behind.len() == 1 && behind[0] is WriteMemory),
    ensures
        writes(seq![ActionView::Log(message)] + behind) == behind,
{
    let first = seq![ActionView::Log(message)];
    lemma_writes_sum(first, behind);
    reveal_with_fuel(Seq::filter, 2);
    assert(writes(first) =~= Seq::empty());
    assert(writes(behind) =~= behind);
    assert(writes(first) + writes(behind) =~= behind);
}

proof fn lemma_patch_writes(
    cfg: Option<Seq<SectionView>>,
    sect: Seq<char>,
    arch: Arch,
    base: int,
    patch: Patch,
)
    ensures
        one_write_behind(writes(patch_actions(cfg, sect, arch, base, patch)), base, 1, 16),
{
    lemma_patch_behind(cfg, sect, arch, base, patch);
    let actions = patch_actions(cfg, sect, arch, base, patch);
    if actions.len() > 0 {
        let behind = actions.skip(1);
        assert(actions =~= seq![ActionView::Log(patch.message())] + behind);
        lemma_log_then(patch.message(), behind);
        if behind.len() > 0 {
            assert(behind[0] == actions[1]);
        }
    } else {
        reveal_with_fuel(Seq::filter, 1);
    }
}

proof fn lemma_jump_writes(
    cfg: Option<Seq<SectionView>>,
    sect: Seq<char>,
    arch: Arch,
    base: int,
    flag_key: Seq<char>,
    offset_key: Seq<char>,
    message: Seq<char>,
    target: nat,
)
    ensures
        one_write_behind(
            writes(jump_actions(cfg, sect, arch, base, flag_key, offset_key, message, target)),
            base,
            arch.jump_size(),
            arch.jump_size(),
        ),
{
    farjmp::law_jump_fits(arch, target);
    let actions = jump_actions(cfg, sect, arch, base, flag_key, offset_key, message, target);
    if actions.len() > 0 {
        let behind = actions.skip(1);
        assert(actions =~= seq![ActionView::Log(message)] + behind);
        lemma_log_then(message, behind);
        if behind.len() > 0 {
            assert(behind[0] == actions[1]);
        }
    } else {
        reveal_with_fuel(Seq::filter, 1);
    }
}

/// Whatever the configuration says, there are at most five writes: one for each
/// patch of at most 16 bytes, in their order, then one for each jump of exactly
/// the jump's size, all behind the base; without a configuration nothing is done
/// at all.
pub proof fn law_writes_in_order(
    cfg: Option<Seq<SectionView>>,
    sect: Seq<char>,
    arch: Arch,
    base: int,
    targets: Targets,
)
    ensures
        ({
            let local = writes(patch_actions(cfg, sect, arch, base, Patch::LocalOnly));
            let single = writes(patch_actions(cfg, sect, arch, base, Patch::SingleUser));
            let default = writes(patch_actions(cfg, sect, arch, base, Patch::DefPolicy));
            let policy = writes(policy_jump(cfg, sect, arch, base, targets));
            let init = writes(init_jump(cfg, sect, arch, base, targets));
            let all = writes(binary_patch(cfg, sect, arch, base, targets));
            &&& all == local + single + default + policy + init
            &&& all.len() <= 5
            &&& one_write_behind(local, base, 1, 16)
            &&& one_write_behind(single, base, 1, 16)
            &&& one_write_behind(default, base, 1, 16)
            &&& one_write_behind(policy, base, arch.jump_size(), arch.jump_size())
            &&& one_write_behind(init, base, arch.jump_size(), arch.jump_size())
            &&& cfg is None ==> binary_patch(cfg, sect, arch, base, targets) == Seq::<
                ActionView,
            >::empty()
        }),
{
    let a = patch_actions(cfg, sect, arch, base, Patch::LocalOnly);
    let b = patch_actions(cfg, sect, arch, base, Patch::SingleUser);
    let c = patch_actions(cfg, sect, arch, base, Patch::DefPolicy);
    let d = policy_jump(cfg, sect, arch, base, targets);
    let e = init_jump(cfg, sect, arch, base, targets);
    lemma_writes_sum(a, b);
    lemma_writes_sum(a + b, c);
    lemma_writes_sum(a + b + c, d);
    lemma_writes_sum(a + b + c + d, e);
    lemma_patch_writes(cfg, sect, arch, base, Patch::LocalOnly);
    lemma_patch_writes(cfg, sect, arch, base, Patch::SingleUser);
    lemma_patch_writes(cfg, sect, arch, base, Patch::DefPolicy);
    lemma_jump_writes(
        cfg,
        sect,
        arch,
        base,
        "SLPolicyInternal."@,
        "SLPolicyOffset."@,
        "Hook SLGetWindowsInformationDWORDWrapper\r\n"@,
        policy_target(cfg, sect, arch, targets),
    );
    lemma_jump_writes(
        cfg,
        sect,
        arch,
        base,
        "SLInitHook."@,
        "SLInitOffset."@,
        "Hook CSLQuery::Initialize\r\n"@,
        targets.csl_query_initialize as nat,
    );
    if cfg is None {
        law_nothing_switched_on(cfg, sect, arch, base, targets);
    }
}

} // verus!
