//! Laws of the policy variables: which settings store which numbers where.

use crate::action;
use crate::action::ActionView;
use crate::bytes;
use crate::farjmp::Arch;
use crate::ini_file;
use crate::ini_file::SectionView;
use crate::ini_laws;
use crate::number;
use crate::patch_laws;
use crate::sl_init;
use crate::version::FileVersion;
use vstd::prelude::*;

verus! {

/// A policy variable of the terminal service.
pub enum PolicyVariable {
    ServerSku,
    RemoteConnAllowed,
    FusEnabled,
    AppServerAllowed,
    MultimonAllowed,
    MaxUserSessions,
    MaxDebugSessions,
    Initialized,
}

/// The name of the variable.
pub open spec fn variable_name(v: PolicyVariable) -> Seq<char> {
    match v {
        PolicyVariable::ServerSku => "bServerSku"@,
        PolicyVariable::RemoteConnAllowed => "bRemoteConnAllowed"@,
        PolicyVariable::FusEnabled => "bFUSEnabled"@,
        PolicyVariable::AppServerAllowed => "bAppServerAllowed"@,
        PolicyVariable::MultimonAllowed => "bMultimonAllowed"@,
        PolicyVariable::MaxUserSessions => "lMaxUserSessions"@,
        PolicyVariable::MaxDebugSessions => "ulMaxDebugSessions"@,
        PolicyVariable::Initialized => "bInitialized"@,
    }
}

/// The name of the setting with the place of the variable.
pub open spec fn place_name(v: PolicyVariable, arch: Arch) -> Seq<char> {
    match (v, arch) {
        (PolicyVariable::ServerSku, Arch::X64) => "bServerSku.x64"@,
        (PolicyVariable::ServerSku, Arch::X86) => "bServerSku.x86"@,
        (PolicyVariable::RemoteConnAllowed, Arch::X64) => "bRemoteConnAllowed.x64"@,
        (PolicyVariable::RemoteConnAllowed, Arch::X86) => "bRemoteConnAllowed.x86"@,
        (PolicyVariable::FusEnabled, Arch::X64) => "bFUSEnabled.x64"@,
        (PolicyVariable::FusEnabled, Arch::X86) => "bFUSEnabled.x86"@,
        (PolicyVariable::AppServerAllowed, Arch::X64) => "bAppServerAllowed.x64"@,
        (PolicyVariable::AppServerAllowed, Arch::X86) => "bAppServerAllowed.x86"@,
        (PolicyVariable::MultimonAllowed, Arch::X64) => "bMultimonAllowed.x64"@,
        (PolicyVariable::MultimonAllowed, Arch::X86) => "bMultimonAllowed.x86"@,
        (PolicyVariable::MaxUserSessions, Arch::X64) => "lMaxUserSessions.x64"@,
        (PolicyVariable::MaxUserSessions, Arch::X86) => "lMaxUserSessions.x86"@,
        (PolicyVariable::MaxDebugSessions, Arch::X64) => "ulMaxDebugSessions.x64"@,
        (PolicyVariable::MaxDebugSessions, Arch::X86) => "ulMaxDebugSessions.x86"@,
        (PolicyVariable::Initialized, Arch::X64) => "bInitialized.x64"@,
        (PolicyVariable::Initialized, Arch::X86) => "bInitialized.x86"@,
    }
}

/// What the variable is set to where the configuration says nothing: it allows
/// what can be allowed, and 0 stands for no limit.
pub open spec fn default_value(v: PolicyVariable) -> int {
    match v {
        PolicyVariable::MaxUserSessions | PolicyVariable::MaxDebugSessions => 0,
        _ => 1,
    }
}

/// What the configuration sets the variable to: the hexadecimal number in the
/// section `SLInit`, in 32 bits, or the default.
pub open spec fn wanted_value(sections: Seq<SectionView>, v: PolicyVariable) -> int {
    match ini_file::lookup(sections, "SLInit"@, variable_name(v)) {
        Some(setting) => ini_file::dword_value(setting.value, 16) % 0x1_0000_0000,
        None => default_value(v),
    }
}

/// The name of the section with the places of the variables in a version.
pub open spec fn places_section(version: FileVersion) -> Seq<char> {
    number::decimal(version.major as nat) + "."@ + number::decimal(version.minor as nat) + "."@
        + number::decimal(version.release as nat) + "."@ + number::decimal(version.build as nat)
        + "-SLInit"@
}

/// Where the variable stands: behind the base, by the number that the section of
/// the version gives; 0 where it gives none.
pub open spec fn variable_place(
    sections: Seq<SectionView>,
    version: FileVersion,
    arch: Arch,
    v: PolicyVariable,
) -> int {
    patch_laws::place(sections, places_section(version), place_name(v, arch))
}

/// What the initialisation does for the variable.
pub open spec fn part(
    sections: Seq<SectionView>,
    version: FileVersion,
    arch: Arch,
    base: int,
    v: PolicyVariable,
) -> Seq<ActionView> {
    sl_init::set_variable(
        Some(sections),
        places_section(version),
        arch,
        base,
        variable_name(v),
        default_value(v),
    )
}

proof fn lemma_names(v: PolicyVariable, arch: Arch)
    ensures
        variable_name(v) + "."@ + arch.suffix() == place_name(v, arch),
{
    reveal_strlit(".");
    reveal_strlit("x64");
    reveal_strlit("x86");
    reveal_strlit("bServerSku");
    reveal_strlit("bServerSku.x64");
    reveal_strlit("bServerSku.x86");
    reveal_strlit("bRemoteConnAllowed");
    reveal_strlit("bRemoteConnAllowed.x64");
    reveal_strlit("bRemoteConnAllowed.x86");
    reveal_strlit("bFUSEnabled");
    reveal_strlit("bFUSEnabled.x64");
    reveal_strlit("bFUSEnabled.x86");
    reveal_strlit("bAppServerAllowed");
    reveal_strlit("bAppServerAllowed.x64");
    reveal_strlit("bAppServerAllowed.x86");
    reveal_strlit("bMultimonAllowed");
    reveal_strlit("bMultimonAllowed.x64");
    reveal_strlit("bMultimonAllowed.x86");
    reveal_strlit("lMaxUserSessions");
    reveal_strlit("lMaxUserSessions.x64");
    reveal_strlit("lMaxUserSessions.x86");
    reveal_strlit("ulMaxDebugSessions");
    reveal_strlit("ulMaxDebugSessions.x64");
    reveal_strlit("ulMaxDebugSessions.x86");
    reveal_strlit("bInitialized");
    reveal_strlit("bInitialized.x64");
    reveal_strlit("bInitialized.x86");
    assert(variable_name(v) + "."@ + arch.suffix() =~= place_name(v, arch));
}

proof fn lemma_section_name(version: FileVersion)
    ensures
        sl_init::init_section(version) == places_section(version),
{
    reveal_strlit(".");
    assert("."@ =~= seq!['.']);
    assert(sl_init::init_section(version) =~= places_section(version));
}

proof fn lemma_word(n: int)
    requires
        0 <= n <= u64::MAX,
    ensures
        (n % (usize::MAX + 1)) % 0x1_0000_0000 == n % 0x1_0000_0000,
        0 <= n % (usize::MAX + 1) <= usize::MAX,
{
    if usize::MAX == 0xffff_ffff {
        vstd::arithmetic::div_mod::lemma_mod_twice(n, 0x1_0000_0000);
    } else {
        assert(usize::MAX == u64::MAX);
        vstd::arithmetic::div_mod::lemma_small_mod(n as nat, (usize::MAX + 1) as nat);
    }
    vstd::arithmetic::div_mod::lemma_mod_bound(n, usize::MAX + 1);
}

/// What is done for one variable: where its place can be reached, the number that
/// the configuration wants is stored there and that is logged; else nothing.
pub proof fn law_part(
    sections: Seq<SectionView>,
    version: FileVersion,
    arch: Arch,
    base: int,
    v: PolicyVariable,
)
    ensures
        patch_laws::reachable(base, variable_place(sections, version, arch, v)) ==> part(
            sections,
            version,
            arch,
            base,
            v,
        ) == seq![
            ActionView::WriteDword {
                address: base + variable_place(sections, version, arch, v),
                value: wanted_value(sections, v),
            },
            ActionView::Log(
                said(base + variable_place(sections, version, arch, v), v, wanted_value(sections, v)),
            ),
        ],
        !patch_laws::reachable(base, variable_place(sections, version, arch, v)) ==> part(
            sections,
            version,
            arch,
            base,
            v,
        ) == Seq::<ActionView>::empty(),
{
    lemma_names(v, arch);
    if let Some(setting) = ini_file::lookup(sections, "SLInit"@, variable_name(v)) {
        lemma_word(ini_file::dword_value(setting.value, 16));
    }
    if let Some(setting) = ini_file::lookup(
        sections,
        places_section(version),
        place_name(v, arch),
    ) {
        lemma_word(ini_file::dword_value(setting.value, 16));
    }
    let actions = part(sections, version, arch, base, v);
    let n = variable_place(sections, version, arch, v);
    if patch_laws::reachable(base, n) {
        assert(actions =~= seq![
            ActionView::WriteDword { address: base + n, value: wanted_value(sections, v) },
            ActionView::Log(said(base + n, v, wanted_value(sections, v))),
        ]);
    } else {
        assert(actions =~= Seq::<ActionView>::empty());
    }
}

/// What the log says of a variable that was set.
pub open spec fn said(address: int, v: PolicyVariable, value: int) -> Seq<char> {
    "SLInit [0x0x"@ + number::hexadecimal(address as nat) + "] "@ + variable_name(v) + " = "@
        + number::decimal(value as nat) + "\r\n"@
}

/// Whether the action stores what the configuration wants of the variable, where
/// the configuration says that the variable stands.
pub open spec fn stores(
    action: ActionView,
    sections: Seq<SectionView>,
    version: FileVersion,
    arch: Arch,
    base: int,
    v: PolicyVariable,
) -> bool {
    action == ActionView::WriteDword {
        address: base + variable_place(sections, version, arch, v),
        value: wanted_value(sections, v),
    }
}

/// The variables in the order in which they are set.
pub open spec fn nth(i: int) -> PolicyVariable {
    if i == 0 {
        PolicyVariable::ServerSku
    } else if i == 1 {
        PolicyVariable::RemoteConnAllowed
    } else if i == 2 {
        PolicyVariable::FusEnabled
    } else if i == 3 {
        PolicyVariable::AppServerAllowed
    } else if i == 4 {
        PolicyVariable::MultimonAllowed
    } else if i == 5 {
        PolicyVariable::MaxUserSessions
    } else if i == 6 {
        PolicyVariable::MaxDebugSessions
    } else {
        PolicyVariable::Initialized
    }
}

/// The place of the variable in that order.
pub open spec fn rank(v: PolicyVariable) -> int {
    match v {
        PolicyVariable::ServerSku => 0,
        PolicyVariable::RemoteConnAllowed => 1,
        PolicyVariable::FusEnabled => 2,
        PolicyVariable::AppServerAllowed => 3,
        PolicyVariable::MultimonAllowed => 4,
        PolicyVariable::MaxUserSessions => 5,
        PolicyVariable::MaxDebugSessions => 6,
        PolicyVariable::Initialized => 7,
    }
}

/// What is done for the first variables, in their order.
pub open spec fn first_parts(
    sections: Seq<SectionView>,
    version: FileVersion,
    arch: Arch,
    base: int,
    k: nat,
) -> Seq<ActionView>
    decreases k,
{
    if k == 0 {
        Seq::empty()
    } else {
        first_parts(sections, version, arch, base, (k - 1) as nat) + part(
            sections,
            version,
            arch,
            base,
            nth(k - 1),
        )
    }
}

/// Where the configuration has a section of the version, all variables are set in
/// their order, and the log says when that starts and when it ends.
pub proof fn law_variables_in_order(sections: Seq<SectionView>, version: FileVersion, arch: Arch, base: int)
    requires
        ini_file::find_section(sections, places_section(version)) is Some,
    ensures
        sl_init::initialization(Some(sections), version, arch, base) == seq![
            ActionView::Log(">>> CSLQuery::Initialize\r\n"@),
        ] + first_parts(sections, version, arch, base, 8) + seq![
            ActionView::Log("<<< CSLQuery::Initialize\r\n"@),
        ],
{
    lemma_section_name(version);
    reveal_with_fuel(first_parts, 9);
    let first = part(sections, version, arch, base, nth(0));
    assert(Seq::<ActionView>::empty() + first =~= first);
}

proof fn lemma_nth(v: PolicyVariable)
    ensures
        nth(rank(v)) == v,
        0 <= rank(v) < 8,
{
}

proof fn lemma_part_is_there(
    sections: Seq<SectionView>,
    version: FileVersion,
    arch: Arch,
    base: int,
    k: nat,
    v: PolicyVariable,
) -> (at: int)
    requires
        rank(v) < k <= 8,
    ensures
        0 <= at,
        at + part(sections, version, arch, base, v).len() <= first_parts(
            sections,
            version,
            arch,
            base,
            k,
        ).len(),
        forall|i: int|
            0 <= i < part(sections, version, arch, base, v).len() ==> first_parts(
                sections,
                version,
                arch,
                base,
                k,
            )[at + i] == #[trigger] part(sections, version, arch, base, v)[i],
    decreases k,
{
    lemma_nth(v);
    let shorter = first_parts(sections, version, arch, base, (k - 1) as nat);
    if rank(v) == k - 1 {
        shorter.len() as int
    } else {
        lemma_part_is_there(sections, version, arch, base, (k - 1) as nat, v)
    }
}

/// A variable whose place the section of the version gives, behind any base and
/// anywhere in the address space, is set there to what the configuration wants of
/// it, and that is logged at once.
pub proof fn law_variable_is_set(
    sections: Seq<SectionView>,
    version: FileVersion,
    arch: Arch,
    base: int,
    v: PolicyVariable,
)
    requires
        patch_laws::reachable(base, variable_place(sections, version, arch, v)),
    ensures
        ({
            let actions = sl_init::initialization(Some(sections), version, arch, base);
            let address = base + variable_place(sections, version, arch, v);
            let value = wanted_value(sections, v);
            exists|i: int|
                0 <= i && i + 1 < actions.len() && #[trigger] actions[i]
                    == (ActionView::WriteDword { address, value }) && actions[i + 1]
                    == ActionView::Log(said(address, v, value))
        }),
{
    ini_laws::law_existence(sections, places_section(version), place_name(v, arch));
    law_variables_in_order(sections, version, arch, base);
    law_part(sections, version, arch, base, v);
    lemma_nth(v);
    let actions = sl_init::initialization(Some(sections), version, arch, base);
    let middle = first_parts(sections, version, arch, base, 8);
    let at = lemma_part_is_there(sections, version, arch, base, 8, v);
    let mine = part(sections, version, arch, base, v);
    assert(middle[at + 0] == mine[0]);
    assert(middle[at + 1] == mine[1]);
    assert(actions[at + 1] == middle[at]);
    assert(actions[at + 2] == middle[at + 1]);
}

proof fn lemma_only_wanted(
    sections: Seq<SectionView>,
    version: FileVersion,
    arch: Arch,
    base: int,
    k: nat,
    i: int,
) -> (v: PolicyVariable)
    requires
        k <= 8,
        0 <= i < first_parts(sections, version, arch, base, k).len(),
    ensures
        patch_laws::reachable(base, variable_place(sections, version, arch, v)),
        first_parts(sections, version, arch, base, k)[i] is Log || stores(
            first_parts(sections, version, arch, base, k)[i],
            sections,
            version,
            arch,
            base,
            v,
        ),
    decreases k,
{
    let shorter = first_parts(sections, version, arch, base, (k - 1) as nat);
    law_part(sections, version, arch, base, nth(k - 1));
    if i < shorter.len() {
        lemma_only_wanted(sections, version, arch, base, (k - 1) as nat, i)
    } else {
        let mine = part(sections, version, arch, base, nth(k - 1));
        assert(first_parts(sections, version, arch, base, k)[i] == mine[i - shorter.len()]);
        nth(k - 1)
    }
}

/// Nothing else is stored: every number that is stored is what the configuration
/// wants of some variable, in the place of that variable.
pub proof fn law_only_variables_are_set(
    sections: Seq<SectionView>,
    version: FileVersion,
    arch: Arch,
    base: int,
    i: int,
)
    requires
        0 <= i < sl_init::initialization(Some(sections), version, arch, base).len(),
    ensures
        sl_init::initialization(Some(sections), version, arch, base)[i] is Log || exists|
            v: PolicyVariable,
        |
            patch_laws::reachable(base, variable_place(sections, version, arch, v))
                && #[trigger] stores(
                sl_init::initialization(Some(sections), version, arch, base)[i],
                sections,
                version,
                arch,
                base,
                v,
            ),
{
    let actions = sl_init::initialization(Some(sections), version, arch, base);
    lemma_section_name(version);
    if ini_file::find_section(sections, places_section(version)) is Some {
        law_variables_in_order(sections, version, arch, base);
        let middle = first_parts(sections, version, arch, base, 8);
        if 1 <= i < 1 + middle.len() {
            assert(actions[i] == middle[i - 1]);
            let v = lemma_only_wanted(sections, version, arch, base, 8, i - 1);
        }
    }
}

/// Without a section for the version, and without a configuration, the
/// initialisation is logged and sets nothing; in every case the first and the
/// last thing that it does is to log that it starts and that it ends.
pub proof fn law_initialisation_is_logged(
    cfg: Option<Seq<SectionView>>,
    version: FileVersion,
    arch: Arch,
    base: int,
)
    ensures
        ({
            let actions = sl_init::initialization(cfg, version, arch, base);
            let known = cfg matches Some(sections) && ini_file::find_section(
                sections,
                places_section(version),
            ) is Some;
            &&& actions.len() >= 2
            &&& actions[0] == ActionView::Log(">>> CSLQuery::Initialize\r\n"@)
            &&& actions.last() == ActionView::Log("<<< CSLQuery::Initialize\r\n"@)
            &&& !known ==> actions.len() == 2
        }),
{
    lemma_section_name(version);
}

/// Storing a number leaves its four bytes at its address, least significant
/// first, and leaves everything else as it was.
pub proof fn law_store_leaves_the_number(memory: action::Memory, address: int, value: u32)
    ensures
        ({
            let end = action::after_action(
                memory,
                ActionView::WriteDword { address, value: value as int },
            );
            &&& end(address) == value % 256
            &&& end(address + 1) == value / 256 % 256
            &&& end(address + 2) == value / 0x1_0000 % 256
            &&& end(address + 3) == value / 0x100_0000
            &&& forall|a: int| a < address || a >= address + 4 ==> #[trigger] end(a) == memory(a)
        }),
{
    bytes::law_le_four(value as nat);
}

} // verus!
