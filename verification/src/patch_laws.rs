//! Laws of the patches: which settings of a section write which bytes where.

use crate::action::ActionView;
use crate::farjmp;
use crate::farjmp::Arch;
use crate::ini_file;
use crate::ini_file::SectionView;
use crate::patch;
use crate::patch::{Patch, Targets};
use vstd::prelude::*;

verus! {

/// The name of the variable that switches a patch on.
pub open spec fn flag_name(patch: Patch, arch: Arch) -> Seq<char> {
    match (patch, arch) {
        (Patch::LocalOnly, Arch::X64) => "LocalOnlyPatch.x64"@,
        (Patch::LocalOnly, Arch::X86) => "LocalOnlyPatch.x86"@,
        (Patch::SingleUser, Arch::X64) => "SingleUserPatch.x64"@,
        (Patch::SingleUser, Arch::X86) => "SingleUserPatch.x86"@,
        (Patch::DefPolicy, Arch::X64) => "DefPolicyPatch.x64"@,
        (Patch::DefPolicy, Arch::X86) => "DefPolicyPatch.x86"@,
    }
}

/// The name of the variable with the place of a patch.
pub open spec fn offset_name(patch: Patch, arch: Arch) -> Seq<char> {
    match (patch, arch) {
        (Patch::LocalOnly, Arch::X64) => "LocalOnlyOffset.x64"@,
        (Patch::LocalOnly, Arch::X86) => "LocalOnlyOffset.x86"@,
        (Patch::SingleUser, Arch::X64) => "SingleUserOffset.x64"@,
        (Patch::SingleUser, Arch::X86) => "SingleUserOffset.x86"@,
        (Patch::DefPolicy, Arch::X64) => "DefPolicyOffset.x64"@,
        (Patch::DefPolicy, Arch::X86) => "DefPolicyOffset.x86"@,
    }
}

/// The name of the variable with the name of the code of a patch.
pub open spec fn code_name(patch: Patch, arch: Arch) -> Seq<char> {
    match (patch, arch) {
        (Patch::LocalOnly, Arch::X64) => "LocalOnlyCode.x64"@,
        (Patch::LocalOnly, Arch::X86) => "LocalOnlyCode.x86"@,
        (Patch::SingleUser, Arch::X64) => "SingleUserCode.x64"@,
        (Patch::SingleUser, Arch::X86) => "SingleUserCode.x86"@,
        (Patch::DefPolicy, Arch::X64) => "DefPolicyCode.x64"@,
        (Patch::DefPolicy, Arch::X86) => "DefPolicyCode.x86"@,
    }
}

/// What the log says of a patch.
pub open spec fn patch_log(patch: Patch) -> Seq<char> {
    match patch {
        Patch::LocalOnly => "Patch CEnforcementCore::GetInstanceOfTSLicense\r\n"@,
        Patch::SingleUser => "Patch CSessionArbitrationHelper::IsSingleSessionPerUserEnabled\r\n"@,
        Patch::DefPolicy => "Patch CDefPolicy::Query\r\n"@,
    }
}

/// The name of the variable that sends policy queries to the wrapper.
pub open spec fn policy_flag_name(arch: Arch) -> Seq<char> {
    match arch {
        Arch::X64 => "SLPolicyInternal.x64"@,
        Arch::X86 => "SLPolicyInternal.x86"@,
    }
}

/// The name of the variable with the place of the function that answers them.
pub open spec fn policy_offset_name(arch: Arch) -> Seq<char> {
    match arch {
        Arch::X64 => "SLPolicyOffset.x64"@,
        Arch::X86 => "SLPolicyOffset.x86"@,
    }
}

/// The name of the variable with the name of the function that they are sent to.
pub open spec fn policy_func_name(arch: Arch) -> Seq<char> {
    match arch {
        Arch::X64 => "SLPolicyFunc.x64"@,
        Arch::X86 => "SLPolicyFunc.x86"@,
    }
}

/// The name of the variable that sends the initialisation to the wrapper.
pub open spec fn init_flag_name(arch: Arch) -> Seq<char> {
    match arch {
        Arch::X64 => "SLInitHook.x64"@,
        Arch::X86 => "SLInitHook.x86"@,
    }
}

/// The name of the variable with the place of the function that initialises.
pub open spec fn init_offset_name(arch: Arch) -> Seq<char> {
    match arch {
        Arch::X64 => "SLInitOffset.x64"@,
        Arch::X86 => "SLInitOffset.x86"@,
    }
}

/// Whether the section has the variable, and it is a decimal number other than 0.
pub open spec fn switched_on(sections: Seq<SectionView>, sect: Seq<char>, name: Seq<char>) -> bool {
    ini_file::lookup(sections, sect, name) matches Some(v) && ini_file::bool_value(v.value)
}

/// The number that the section gives the variable in hexadecimal, in the bits of
/// an address; 0 where it has no such variable.
pub open spec fn place(sections: Seq<SectionView>, sect: Seq<char>, name: Seq<char>) -> int {
    match ini_file::lookup(sections, sect, name) {
        Some(v) => ini_file::dword_value(v.value, 16) % (usize::MAX + 1),
        None => 0,
    }
}

/// The bytes of the code that the section's variable names; none where the section
/// has no such variable, the name is empty, or no such code has bytes.
pub open spec fn named_bytes(
    sections: Seq<SectionView>,
    sect: Seq<char>,
    name: Seq<char>,
) -> Seq<u8> {
    match ini_file::lookup(sections, sect, name) {
        Some(v) => if v.value.len() == 0 {
            Seq::empty()
        } else {
            match ini_file::lookup(sections, "PatchCodes"@, ini_file::field(v.value)) {
                Some(code) => match ini_file::bytes_value(code.value) {
                    Some(b) => b,
                    None => Seq::empty(),
                },
                None => Seq::empty(),
            }
        },
        None => Seq::empty(),
    }
}

/// Whether the place is one behind the base that an address can name.
pub open spec fn reachable(base: int, n: int) -> bool {
    0 < n && base + n <= usize::MAX
}

proof fn lemma_patch_names(patch: Patch, arch: Arch)
    ensures
        patch.flag_key() + arch.suffix() == flag_name(patch, arch),
        patch.offset_key() + arch.suffix() == offset_name(patch, arch),
        patch.code_key() + arch.suffix() == code_name(patch, arch),
{
    reveal_strlit("x64");
    reveal_strlit("x86");
    reveal_strlit("LocalOnlyPatch.");
    reveal_strlit("LocalOnlyPatch.x64");
    reveal_strlit("LocalOnlyPatch.x86");
    reveal_strlit("LocalOnlyOffset.");
    reveal_strlit("LocalOnlyOffset.x64");
    reveal_strlit("LocalOnlyOffset.x86");
    reveal_strlit("LocalOnlyCode.");
    reveal_strlit("LocalOnlyCode.x64");
    reveal_strlit("LocalOnlyCode.x86");
    reveal_strlit("SingleUserPatch.");
    reveal_strlit("SingleUserPatch.x64");
    reveal_strlit("SingleUserPatch.x86");
    reveal_strlit("SingleUserOffset.");
    reveal_strlit("SingleUserOffset.x64");
    reveal_strlit("SingleUserOffset.x86");
    reveal_strlit("SingleUserCode.");
    reveal_strlit("SingleUserCode.x64");
    reveal_strlit("SingleUserCode.x86");
    reveal_strlit("DefPolicyPatch.");
    reveal_strlit("DefPolicyPatch.x64");
    reveal_strlit("DefPolicyPatch.x86");
    reveal_strlit("DefPolicyOffset.");
    reveal_strlit("DefPolicyOffset.x64");
    reveal_strlit("DefPolicyOffset.x86");
    reveal_strlit("DefPolicyCode.");
    reveal_strlit("DefPolicyCode.x64");
    reveal_strlit("DefPolicyCode.x86");
    assert(patch.flag_key() + arch.suffix() =~= flag_name(patch, arch));
    assert(patch.offset_key() + arch.suffix() =~= offset_name(patch, arch));
    assert(patch.code_key() + arch.suffix() =~= code_name(patch, arch));
}

proof fn lemma_jump_names(arch: Arch)
    ensures
        "SLPolicyInternal."@ + arch.suffix() == policy_flag_name(arch),
        "SLPolicyOffset."@ + arch.suffix() == policy_offset_name(arch),
        "SLPolicyFunc."@ + arch.suffix() == policy_func_name(arch),
        "SLInitHook."@ + arch.suffix() == init_flag_name(arch),
        "SLInitOffset."@ + arch.suffix() == init_offset_name(arch),
{
    reveal_strlit("x64");
    reveal_strlit("x86");
    reveal_strlit("SLPolicyInternal.");
    reveal_strlit("SLPolicyInternal.x64");
    reveal_strlit("SLPolicyInternal.x86");
    reveal_strlit("SLPolicyOffset.");
    reveal_strlit("SLPolicyOffset.x64");
    reveal_strlit("SLPolicyOffset.x86");
    reveal_strlit("SLPolicyFunc.");
    reveal_strlit("SLPolicyFunc.x64");
    reveal_strlit("SLPolicyFunc.x86");
    reveal_strlit("SLInitHook.");
    reveal_strlit("SLInitHook.x64");
    reveal_strlit("SLInitHook.x86");
    reveal_strlit("SLInitOffset.");
    reveal_strlit("SLInitOffset.x64");
    reveal_strlit("SLInitOffset.x86");
    assert("SLPolicyInternal."@ + arch.suffix() =~= policy_flag_name(arch));
    assert("SLPolicyOffset."@ + arch.suffix() =~= policy_offset_name(arch));
    assert("SLPolicyFunc."@ + arch.suffix() =~= policy_func_name(arch));
    assert("SLInitHook."@ + arch.suffix() =~= init_flag_name(arch));
    assert("SLInitOffset."@ + arch.suffix() =~= init_offset_name(arch));
}

/// A patch that the section switches on, with a place that can be reached and
/// with code that has bytes, writes exactly these bytes at exactly that place
/// behind the base, once, whatever the architecture, and nothing else.
pub proof fn law_patch_writes_its_bytes(
    sections: Seq<SectionView>,
    sect: Seq<char>,
    arch: Arch,
    base: int,
    patch: Patch,
    code: Seq<char>,
    b: Seq<u8>,
)
    requires
        switched_on(sections, sect, flag_name(patch, arch)),
        reachable(base, place(sections, sect, offset_name(patch, arch))),
        ini_file::lookup(sections, sect, code_name(patch, arch)) matches Some(v)
            && ini_file::field(v.value) == code,
        code.len() > 0,
        ini_file::lookup(sections, "PatchCodes"@, code) matches Some(v)
            && ini_file::bytes_value(v.value) == Some(b),
        b.len() > 0,
    ensures
        patch::patch_actions(Some(sections), sect, arch, base, patch) == seq![
            ActionView::Log(patch_log(patch)),
            ActionView::WriteMemory {
                address: base + place(sections, sect, offset_name(patch, arch)),
                bytes: b,
            },
        ],
{
    lemma_patch_names(patch, arch);
    let n = place(sections, sect, offset_name(patch, arch));
    assert(patch::patch_actions(Some(sections), sect, arch, base, patch) =~= seq![
        ActionView::Log(patch_log(patch)),
        ActionView::WriteMemory { address: base + n, bytes: b },
    ]);
}

/// A patch that the section does not switch on does nothing, and one that has no
/// place that can be reached, or no code with bytes, only logs.
pub proof fn law_patch_leaves_alone(
    sections: Seq<SectionView>,
    sect: Seq<char>,
    arch: Arch,
    base: int,
    patch: Patch,
)
    ensures
        !switched_on(sections, sect, flag_name(patch, arch)) ==> patch::patch_actions(
            Some(sections),
            sect,
            arch,
            base,
            patch,
        ) == Seq::<ActionView>::empty(),
        switched_on(sections, sect, flag_name(patch, arch)) && (!reachable(
            base,
            place(sections, sect, offset_name(patch, arch)),
        ) || named_bytes(sections, sect, code_name(patch, arch)).len() == 0)
            ==> patch::patch_actions(Some(sections), sect, arch, base, patch) == seq![
            ActionView::Log(patch_log(patch)),
        ],
{
    lemma_patch_names(patch, arch);
    let actions = patch::patch_actions(Some(sections), sect, arch, base, patch);
    if switched_on(sections, sect, flag_name(patch, arch)) {
        assert(actions.len() == 1 ==> actions =~= seq![ActionView::Log(patch_log(patch))]);
    }
}

/// The address that an architecture can jump to.
pub open spec fn jump_address(arch: Arch, target: usize) -> nat {
    match arch {
        Arch::X64 => target as nat,
        Arch::X86 => target as nat % 0x1_0000_0000,
    }
}

/// Whether the actions log the line and then write a jump to the target at the
/// place behind the base, where it can be reached, and do nothing else.
pub open spec fn sends(
    actions: Seq<ActionView>,
    line: Seq<char>,
    arch: Arch,
    base: int,
    n: int,
    target: usize,
) -> bool {
    &&& actions.len() == if reachable(base, n) {
        2int
    } else {
        1int
    }
    &&& actions[0] == ActionView::Log(line)
    &&& reachable(base, n) ==> (actions[1] matches ActionView::WriteMemory { address, bytes }
        && address == base + n && farjmp::jump_target(arch, bytes) == Some(
        jump_address(arch, target),
    ))
}

/// A jump that is made goes to its target, as far as the architecture can name it.
pub proof fn law_jump_is_made(arch: Arch, target: usize)
    ensures
        farjmp::jump_target(arch, farjmp::stub(arch, target as nat).code()) == Some(
            jump_address(arch, target),
        ),
        farjmp::stub(arch, target as nat).code().len() > 0,
{
    farjmp::law_jump_fits(arch, target as nat);
    farjmp::law_jump_goes_to_target(arch, jump_address(arch, target));
    assert(jump_address(arch, target) % 0x1_0000_0000 == target as nat % 0x1_0000_0000);
}

/// Policy queries are sent to the wrapper where the section says so: a jump is
/// written at the place that it gives, to the function for the other arguments
/// where an x86 section asks for that by name, and else to the ordinary one.
pub proof fn law_policy_queries_are_sent(
    sections: Seq<SectionView>,
    sect: Seq<char>,
    arch: Arch,
    base: int,
    targets: Targets,
)
    ensures
        ({
            let actions = patch::policy_jump(Some(sections), sect, arch, base, targets);
            let on = switched_on(sections, sect, policy_flag_name(arch));
            let n = place(sections, sect, policy_offset_name(arch));
            let other = arch == Arch::X86 && (ini_file::lookup(
                sections,
                sect,
                policy_func_name(arch),
            ) matches Some(v) && v.value == "New_Win8SL_CP"@);
            let line = "Hook SLGetWindowsInformationDWORDWrapper\r\n"@;
            &&& !on ==> actions == Seq::<ActionView>::empty()
            &&& on && other ==> sends(actions, line, arch, base, n, targets.win8_sl_cp)
            &&& on && !other ==> sends(actions, line, arch, base, n, targets.win8_sl)
        }),
{
    lemma_jump_names(arch);
    law_jump_is_made(arch, targets.win8_sl);
    law_jump_is_made(arch, targets.win8_sl_cp);
    lemma_names_differ();
    reveal_strlit("New_Win8SL_CP");
    if let Some(v) = ini_file::lookup(sections, sect, policy_func_name(arch)) {
        if ini_file::field(v.value) == "New_Win8SL_CP"@ {
            assert("New_Win8SL_CP"@.len() == 13);
            assert(ini_file::field(v.value).len() == 13);
            assert(v.value.len() <= 255);
        }
    }
}

proof fn lemma_names_differ()
    ensures
        "New_Win8SL"@ != "New_Win8SL_CP"@,
{
    reveal_strlit("New_Win8SL");
    reveal_strlit("New_Win8SL_CP");
    assert("New_Win8SL"@.len() == 10);
    assert("New_Win8SL_CP"@.len() == 13);
}

/// The initialisation of the policy variables is sent to the wrapper where the
/// section says so: a jump is written at the place that it gives.
pub proof fn law_initialisation_is_sent(
    sections: Seq<SectionView>,
    sect: Seq<char>,
    arch: Arch,
    base: int,
    targets: Targets,
)
    ensures
        ({
            let actions = patch::init_jump(Some(sections), sect, arch, base, targets);
            let on = switched_on(sections, sect, init_flag_name(arch));
            let n = place(sections, sect, init_offset_name(arch));
            let line = "Hook CSLQuery::Initialize\r\n"@;
            &&& !on ==> actions == Seq::<ActionView>::empty()
            &&& on ==> sends(actions, line, arch, base, n, targets.csl_query_initialize)
        }),
{
    lemma_jump_names(arch);
    law_jump_is_made(arch, targets.csl_query_initialize);
}

proof fn lemma_five(
    a: Seq<ActionView>,
    b: Seq<ActionView>,
    c: Seq<ActionView>,
    d: Seq<ActionView>,
    e: Seq<ActionView>,
)
    ensures
        a + b + c + d + e == a + (b + (c + (d + e))),
{
    assert(a + b + c + d + e =~= a + (b + (c + (d + e))));
}

/// The three patches come first, in their order, then the two jumps, and nothing
/// else; without a configuration there is nothing at all.
pub proof fn law_section_is_applied_in_order(
    sections: Seq<SectionView>,
    sect: Seq<char>,
    arch: Arch,
    base: int,
    targets: Targets,
)
    ensures
        ({
            let cfg = Some(sections);
            let local = patch::patch_actions(cfg, sect, arch, base, Patch::LocalOnly);
            let single = patch::patch_actions(cfg, sect, arch, base, Patch::SingleUser);
            let default = patch::patch_actions(cfg, sect, arch, base, Patch::DefPolicy);
            let policy = patch::policy_jump(cfg, sect, arch, base, targets);
            let init = patch::init_jump(cfg, sect, arch, base, targets);
            patch::binary_patch(cfg, sect, arch, base, targets) == local + (single + (default + (
            policy + init)))
        }),
        patch::binary_patch(None, sect, arch, base, targets) == Seq::<ActionView>::empty(),
{
    let cfg = Some(sections);
    let local = patch::patch_actions(cfg, sect, arch, base, Patch::LocalOnly);
    let single = patch::patch_actions(cfg, sect, arch, base, Patch::SingleUser);
    let default = patch::patch_actions(cfg, sect, arch, base, Patch::DefPolicy);
    let policy = patch::policy_jump(cfg, sect, arch, base, targets);
    let init = patch::init_jump(cfg, sect, arch, base, targets);
    lemma_five(local, single, default, policy, init);
    patch::law_writes_in_order(None, sect, arch, base, targets);
}

/// What a patch writes is among what the section does.
pub proof fn law_patch_is_part_of_the_section(
    sections: Seq<SectionView>,
    sect: Seq<char>,
    arch: Arch,
    base: int,
    targets: Targets,
    patch: Patch,
    code: Seq<char>,
    b: Seq<u8>,
)
    requires
        switched_on(sections, sect, flag_name(patch, arch)),
        reachable(base, place(sections, sect, offset_name(patch, arch))),
        ini_file::lookup(sections, sect, code_name(patch, arch)) matches Some(v)
            && ini_file::field(v.value) == code,
        code.len() > 0,
        ini_file::lookup(sections, "PatchCodes"@, code) matches Some(v)
            && ini_file::bytes_value(v.value) == Some(b),
        b.len() > 0,
    ensures
        patch::binary_patch(Some(sections), sect, arch, base, targets).contains(
            ActionView::WriteMemory {
                address: base + place(sections, sect, offset_name(patch, arch)),
                bytes: b,
            },
        ),
{
    law_patch_writes_its_bytes(sections, sect, arch, base, patch, code, b);
    let cfg = Some(sections);
    let local = patch::patch_actions(cfg, sect, arch, base, Patch::LocalOnly);
    let single = patch::patch_actions(cfg, sect, arch, base, Patch::SingleUser);
    let all = patch::binary_patch(cfg, sect, arch, base, targets);
    let before: int = match patch {
        Patch::LocalOnly => 0,
        Patch::SingleUser => local.len() as int,
        Patch::DefPolicy => (local.len() + single.len()) as int,
    };
    assert(all[before + 1] == ActionView::WriteMemory {
        address: base + place(sections, sect, offset_name(patch, arch)),
        bytes: b,
    });
}

} // verus!
