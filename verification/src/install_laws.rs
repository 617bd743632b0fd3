//! Laws of the single steps of the installation, and of what it is for: that the
//! section of the running version is applied.

use crate::action::ActionView;
use crate::farjmp;
use crate::hook;
use crate::hook::{EventView, HookView, Phase};
use crate::hook_laws;
use crate::ini_file;
use crate::ini_file::SectionView;
use crate::number;
use crate::patch;
use crate::patch::Targets;
use crate::farjmp::Arch;
use crate::paths;
use crate::utf16;
use crate::version::FileVersion;
use vstd::prelude::*;

verus! {

/// The name of the section of a version: its four numbers in decimal, with dots
/// between them.
pub open spec fn section_name(fv: FileVersion) -> Seq<char> {
    number::decimal(fv.major as nat) + "."@ + number::decimal(fv.minor as nat) + "."@
        + number::decimal(fv.release as nat) + "."@ + number::decimal(fv.build as nat)
}

/// Whether the configuration has a section of the version.
pub open spec fn knows(h: HookView) -> bool {
    match h.globals.cfg {
        Some(sections) => ini_file::find_section(sections, section_name(h.globals.fv)) is Some,
        None => false,
    }
}

/// Whether the setting of the section `Main` is on, as it is where the
/// configuration does not have it.
pub open spec fn main_flag(h: HookView, name: Seq<char>) -> bool {
    match h.globals.cfg {
        Some(sections) => match ini_file::lookup(sections, "Main"@, name) {
            Some(v) => ini_file::bool_value(v.value),
            None => true,
        },
        None => true,
    }
}

/// Whether the policy function of the system is being dealt with in the phase.
pub open spec fn in_policy(phase: Phase) -> bool {
    phase == Phase::LoadSlcForJump || phase == Phase::FindSlForJump || phase == Phase::SaveSlBytes
        || phase == Phase::LoadSlcForCall || phase == Phase::FindSlForCall
}

proof fn lemma_section_name(fv: FileVersion)
    ensures
        fv.dotted() == section_name(fv),
{
    reveal_strlit(".");
    assert("."@ =~= seq!['.']);
    assert(fv.dotted() =~= section_name(fv));
}

/// Once the policy function is dealt with, whatever came of that and whatever the
/// version is, the installation waits for the code of the service exactly where
/// the configuration has a section of the version, and is over else.
pub proof fn law_known_version_is_patched(h: HookView, event: EventView)
    requires
        hook::takes(h, event),
        h.phase == Phase::Version || in_policy(h.phase),
        hook::next(h, event).hook.globals.fv.packed() != 0,
        h.phase == Phase::Version ==> event->Version_0 is Some,
        !in_policy(hook::next(h, event).hook.phase),
    ensures
        hook::next(h, event).hook.phase == (if knows(hook::next(h, event).hook) {
            Phase::CodeSection
        } else {
            Phase::Done
        }),
        !knows(hook::next(h, event).hook) ==> ({
            let actions = hook::next(h, event).actions;
            &&& actions.len() >= 2
            &&& actions[actions.len() - 2] == ActionView::Log("Resuming threads...\r\n"@)
            &&& actions.last() == ActionView::ResumeThreads
        }),
{
    lemma_section_name(hook::next(h, event).hook.globals.fv);
}

/// The start of the code of the service gets everything that the section of the
/// version wants done, and only then the threads go on; without a start they go
/// on at once. Then the installation is over.
pub proof fn law_code_is_patched(h: HookView, code: Option<(usize, usize)>)
    requires
        h.phase == Phase::CodeSection,
    ensures
        ({
            let step = hook::next(h, EventView::CodeSection(code));
            let resuming = seq![
                ActionView::Log("Resuming threads...\r\n"@),
                ActionView::ResumeThreads,
            ];
            &&& step.hook.phase == Phase::Done
            &&& code matches Some((base, _)) ==> step.hook.globals.termsrv_base == base
                && step.actions == patch::binary_patch(
                h.globals.cfg,
                section_name(h.globals.fv),
                h.arch,
                base as int,
                h.targets,
            ) + resuming
            &&& code is None ==> step.actions == resuming && step.hook.globals.termsrv_base
                == h.globals.termsrv_base
        }),
{
    lemma_section_name(h.globals.fv);
}

proof fn lemma_last_answer(h: HookView, event: EventView)
    requires
        hook::well_formed(h),
        hook::takes(h, event),
        hook::next(h, event).hook.phase == Phase::Done,
        hook::next(h, event).hook.globals.fv.packed() != 0,
        knows(hook::next(h, event).hook),
    ensures
        h.phase == Phase::CodeSection,
        event is CodeSection,
{
    if h.phase == Phase::Version || in_policy(h.phase) {
        law_known_version_is_patched(h, event);
    }
}

/// Whether the actions end with the wanted ones and two more.
pub open spec fn ends_with(actions: Seq<ActionView>, wanted: Seq<ActionView>) -> bool {
    let n = actions.len() - 2 - wanted.len();
    &&& n >= 0
    &&& forall|i: int| 0 <= i < wanted.len() ==> actions[n + i] == #[trigger] wanted[i]
}

proof fn lemma_ends_with(
    before: Seq<ActionView>,
    wanted: Seq<ActionView>,
    behind: Seq<ActionView>,
)
    requires
        behind.len() == 2,
    ensures
        ends_with(before + (wanted + behind), wanted),
{
}

/// Every run that is over and in which the system gave a version that the
/// configuration has a section of has asked for the code of the service; and
/// where the system gave its start, the run did everything that the section wants
/// done, in its order.
#[verifier::spinoff_prover]
#[verifier::rlimit(40)]
pub proof fn law_run_applies_the_section(arch: Arch, targets: Targets, events: Seq<EventView>)
    requires
        hook_laws::run(hook::started(arch, targets), events),
        hook_laws::after_all(hook::started(arch, targets), events).hook.phase == Phase::Done,
        hook_laws::has_version(events),
        knows(hook_laws::after_all(hook::started(arch, targets), events).hook),
    ensures
        ({
            let end = hook_laws::after_all(hook::started(arch, targets), events);
            &&& events.len() > 0
            &&& events.last() matches EventView::CodeSection(code) && (code matches Some(
                (base, _),
            ) ==> ends_with(
                end.actions,
                patch::binary_patch(
                    end.hook.globals.cfg,
                    section_name(end.hook.globals.fv),
                    arch,
                    base as int,
                    targets,
                ),
            ))
        }),
{
    let h = hook::started(arch, targets);
    hook_laws::law_version_is_kept(arch, targets, events);
    assert(events.len() > 0);
    let rest = events.drop_last();
    let before = hook_laws::after_all(h, rest);
    hook_laws::law_run_stays_well_formed(arch, targets, rest);
    lemma_last_answer(before.hook, events.last());
    law_run_keeps_its_targets(arch, targets, rest);
    if let EventView::CodeSection(code) = events.last() {
        law_code_is_patched(before.hook, code);
        law_step_frame(before.hook, events.last());
        if let Some((base, _)) = code {
            let wanted = patch::binary_patch(
                before.hook.globals.cfg,
                section_name(before.hook.globals.fv),
                arch,
                base as int,
                targets,
            );
            let resuming = seq![
                ActionView::Log("Resuming threads...\r\n"@),
                ActionView::ResumeThreads,
            ];
            lemma_ends_with(before.actions, wanted, resuming);
        }
    }
}

/// A run keeps the architecture and the functions that it was started with.
pub proof fn law_run_keeps_its_targets(arch: Arch, targets: Targets, events: Seq<EventView>)
    requires
        hook_laws::run(hook::started(arch, targets), events),
    ensures
        hook_laws::after_all(hook::started(arch, targets), events).hook.arch == arch,
        hook_laws::after_all(hook::started(arch, targets), events).hook.targets == targets,
    decreases events.len(),
{
    if events.len() > 0 {
        law_run_keeps_its_targets(arch, targets, events.drop_last());
        law_step_frame(
            hook_laws::after_all(hook::started(arch, targets), events.drop_last()).hook,
            events.last(),
        );
    }
}

/// What a step leaves alone: each thing that the wrapper keeps changes only in the
/// phase that it is found in.
pub proof fn law_step_frame(h: HookView, event: EventView)
    requires
        hook::takes(h, event),
    ensures
        ({
            let k = hook::next(h, event).hook;
            &&& k.arch == h.arch
            &&& k.targets == h.targets
            &&& h.phase != Phase::ConfigModulePath ==> k.config_file == h.config_file
            &&& h.phase != Phase::Config ==> k.globals.cfg == h.globals.cfg
            &&& h.phase != Phase::Config && h.phase != Phase::LogModulePath ==> k.globals.log_file
                == h.globals.log_file
            &&& h.phase != Phase::LoadTermsrv ==> k.globals.h_termsrv == h.globals.h_termsrv
            &&& h.phase != Phase::LoadSlcForJump && h.phase != Phase::LoadSlcForCall
                ==> k.globals.h_slc == h.globals.h_slc
            &&& h.phase != Phase::CodeSection ==> k.globals.termsrv_base == h.globals.termsrv_base
            &&& h.phase != Phase::Version ==> k.globals.fv == h.globals.fv
            &&& h.phase != Phase::Exports ==> k.globals.service_main == h.globals.service_main
                && k.globals.svchost_push == h.globals.svchost_push
            &&& h.phase != Phase::FindSlForJump && h.phase != Phase::FindSlForCall
                ==> k.globals.sl_get_info == h.globals.sl_get_info
            &&& h.phase != Phase::SaveSlBytes ==> k.globals.old_sl_bytes == h.globals.old_sl_bytes
                && k.globals.stub_sl == h.globals.stub_sl
        }),
{
}

proof fn lemma_file_names()
    ensures
        utf16::encoded("rdpwrap.txt\0"@).len() == 12,
        utf16::encoded("rdpwrap.ini\0"@).len() == 12,
        forall|i: int|
            0 <= i < 12 ==> (#[trigger] utf16::encoded("rdpwrap.txt\0"@)[i]) as int
                == "rdpwrap.txt\0"@[i] as int,
        forall|i: int|
            0 <= i < 12 ==> (#[trigger] utf16::encoded("rdpwrap.ini\0"@)[i]) as int
                == "rdpwrap.ini\0"@[i] as int,
{
    reveal_strlit("rdpwrap.txt\0");
    reveal_strlit("rdpwrap.ini\0");
    utf16::law_ascii_units("rdpwrap.txt\0"@);
    utf16::law_ascii_units("rdpwrap.ini\0"@);
}

/// The buffer holds the path up to and with position `k`, the name of a file
/// behind that as far as there is room, and 0 everywhere else.
pub open spec fn names_file(
    buffer: Seq<u16>,
    path: Seq<u16>,
    k: int,
    name: Seq<char>,
) -> bool {
    &&& buffer.len() == 256
    &&& forall|i: int|
        0 <= i < 256 ==> #[trigger] buffer[i] == (if i == 255 {
            0
        } else if i <= k {
            path[i] as int
        } else if i - k - 1 < name.len() {
            name[i - k - 1] as int
        } else {
            0
        })
}

/// The log and the configuration stand beside the module: `rdpwrap.txt` and
/// `rdpwrap.ini` behind the last backslash of its path.
pub proof fn law_files_stand_beside_the_module(h: HookView, path: Seq<u16>, k: int)
    requires
        hook::takes(h, EventView::ModulePath(path)),
        0 <= k < 256,
        k == 0 || path[k] == 92,
        forall|j: int| k < j < 256 ==> path[j] != 92,
    ensures
        ({
            let step = hook::next(h, EventView::ModulePath(path));
            &&& h.phase == Phase::LogModulePath ==> names_file(
                step.hook.globals.log_file,
                path,
                k,
                "rdpwrap.txt"@,
            ) && step.hook.phase == Phase::ConfigModulePath && step.actions == Seq::<
                ActionView,
            >::empty()
            &&& h.phase == Phase::ConfigModulePath ==> names_file(
                step.hook.config_file,
                path,
                k,
                "rdpwrap.ini"@,
            ) && step.hook.phase == Phase::Config && step.actions == seq![
                ActionView::Log("Loading configuration...\r\n"@),
                ActionView::Log(
                    "Configuration file: "@ + utf16::decoded(step.hook.config_file) + "\r\n"@,
                ),
            ]
        }),
{
    let step = hook::next(h, EventView::ModulePath(path));
    lemma_file_names();
    reveal_strlit("rdpwrap.txt\0");
    reveal_strlit("rdpwrap.ini\0");
    reveal_strlit("rdpwrap.txt");
    reveal_strlit("rdpwrap.ini");
    let txt = utf16::encoded("rdpwrap.txt\0"@);
    let ini = utf16::encoded("rdpwrap.ini\0"@);
    let a = paths::beside(path, txt);
    let b = paths::beside(path, ini);
    assert forall|i: int| 0 <= i < 256 implies #[trigger] a[i] == (if i == 255 {
        0
    } else if i <= k {
        path[i] as int
    } else if i - k - 1 < 11 {
        "rdpwrap.txt"@[i - k - 1] as int
    } else {
        0
    }) by {
        paths::law_beside(path, txt, k, i);
        if k < i && i - k - 1 < 12 {
            assert(txt[i - k - 1] as int == "rdpwrap.txt\0"@[i - k - 1] as int);
        }
    }
    assert forall|i: int| 0 <= i < 256 implies #[trigger] b[i] == (if i == 255 {
        0
    } else if i <= k {
        path[i] as int
    } else if i - k - 1 < 11 {
        "rdpwrap.ini"@[i - k - 1] as int
    } else {
        0
    }) by {
        paths::law_beside(path, ini, k, i);
        if k < i && i - k - 1 < 12 {
            assert(ini[i - k - 1] as int == "rdpwrap.ini\0"@[i - k - 1] as int);
        }
    }
    paths::law_beside(path, txt, k, 0);
    paths::law_beside(path, ini, k, 0);
}

/// The configuration is kept as it was loaded. Where its section `Main` names a
/// log, the log is that, cut to what a path buffer holds; else it stays.
pub proof fn law_configuration_is_kept(h: HookView, cfg: Option<Seq<SectionView>>, i: int)
    requires
        h.phase == Phase::Config,
        0 <= i < 256,
    ensures
        ({
            let step = hook::next(h, EventView::Config(cfg));
            let log = match cfg {
                Some(sections) => ini_file::lookup(sections, "Main"@, "LogFile"@),
                None => None,
            };
            &&& step.hook.globals.cfg == cfg
            &&& step.hook.phase == Phase::LoadTermsrv
            &&& step.actions == seq![ActionView::Log("Initializing RDP Wrapper...\r\n"@)]
            &&& log is None ==> step.hook.globals.log_file == h.globals.log_file
            &&& log matches Some(v) ==> ({
                let units = utf16::encoded(ini_file::field(v.value));
                &&& step.hook.globals.log_file.len() == 256
                &&& step.hook.globals.log_file[i] == (if i < 255 && i < units.len() {
                    units[i]
                } else {
                    0
                })
            })
        }),
{
    if let Some(sections) = cfg {
        if let Some(v) = ini_file::lookup(sections, "Main"@, "LogFile"@) {
            paths::law_buffer_of(utf16::encoded(ini_file::field(v.value)), i);
        }
    }
}

/// A service library that cannot be loaded ends the installation; one that can is
/// kept, and its functions are asked for.
pub proof fn law_service_is_loaded(h: HookView, handle: usize)
    requires
        h.phase == Phase::LoadTermsrv,
    ensures
        ({
            let step = hook::next(h, EventView::Module(handle));
            &&& handle == 0 ==> step.hook.phase == Phase::Done && step.hook.globals == h.globals
                && step.actions == seq![
                ActionView::Log("Error: Failed to load Terminal Services library\r\n"@),
            ]
            &&& handle != 0 ==> step.hook.phase == Phase::Exports && step.hook.globals.h_termsrv
                == handle && step.actions == Seq::<ActionView>::empty()
        }),
{
}

/// The service functions that were found are kept, and the log says how far
/// behind the start of the library they are, round the end of the address space.
pub proof fn law_exports_are_kept(h: HookView, service_main: usize, svchost_push: usize)
    requires
        h.phase == Phase::Exports,
    ensures
        ({
            let step = hook::next(h, EventView::Exports { service_main, svchost_push });
            let base = h.globals.h_termsrv;
            let a = hook::distance(service_main, base);
            let b = hook::distance(svchost_push, base);
            &&& step.hook.phase == Phase::Version
            &&& step.hook.globals.service_main == (if service_main == 0 {
                None
            } else {
                Some(service_main)
            })
            &&& step.hook.globals.svchost_push == (if svchost_push == 0 {
                None
            } else {
                Some(svchost_push)
            })
            &&& a <= usize::MAX && (base + a == service_main || base + a == service_main
                + usize::MAX + 1)
            &&& b <= usize::MAX && (base + b == svchost_push || base + b == svchost_push
                + usize::MAX + 1)
            &&& step.actions == seq![
                ActionView::Log(
                    "Base addr:  0x0x"@ + number::hexadecimal(base as nat)
                        + "\r\nSvcMain:    termsrv.dll+0x"@ + number::hexadecimal(a)
                        + "\r\nSvcGlobals: termsrv.dll+0x"@ + number::hexadecimal(b) + "\r\n"@,
                ),
            ]
        }),
{
}

/// Without a version, or with version 0, the installation is over and has frozen
/// nothing. Every other version is kept and logged, and the threads are frozen.
/// Then the policy function of the system gets a jump on Windows Vista and 7,
/// unless the configuration says no, and is looked up on Windows 8; on every other
/// version it is left alone.
pub proof fn law_version_decides(h: HookView, detected: Option<FileVersion>)
    requires
        h.phase == Phase::Version,
    ensures
        ({
            let step = hook::next(h, EventView::Version(detected));
            let frozen = seq![
                ActionView::Log("Version:    "@ + section_name(detected->0) + "\r\n"@),
                ActionView::Log("Freezing threads...\r\n"@),
                ActionView::FreezeThreads,
            ];
            let ver = detected->0.packed();
            let jumped = (ver == 0x0600 && main_flag(h, "SLPolicyHookNT60"@)) || (ver == 0x0601
                && main_flag(h, "SLPolicyHookNT61"@));
            &&& detected is None || ver == 0 ==> step.hook.phase == Phase::Done && step.actions
                == seq![
                ActionView::Log("Error: Failed to detect Terminal Services version\r\n"@),
            ]
            &&& detected is Some ==> step.hook.globals.fv == detected->0
            &&& detected is None ==> step.hook.globals.fv == h.globals.fv
            &&& detected is Some && ver != 0 ==> step.actions.len() >= 3 && step.actions.take(3)
                == frozen
            &&& detected is Some && ver != 0 && jumped ==> step.hook.phase == Phase::LoadSlcForJump
                && step.actions.len() == 3
            &&& detected is Some && ver == 0x0602 ==> step.hook.phase == Phase::LoadSlcForCall
                && step.actions.len() == 3
            &&& detected is Some && ver != 0 && ver != 0x0602 && !jumped ==> !in_policy(
                step.hook.phase,
            ) && step.actions.len() == (if step.hook.phase == Phase::CodeSection {
                3int
            } else {
                5int
            })
        }),
{
    if let Some(fv) = detected {
        lemma_section_name(fv);
        let step = hook::next(h, EventView::Version(detected));
        if fv.packed() != 0 {
            assert(step.actions.take(3) =~= seq![
                ActionView::Log("Version:    "@ + section_name(fv) + "\r\n"@),
                ActionView::Log("Freezing threads...\r\n"@),
                ActionView::FreezeThreads,
            ]);
        }
    }
}

/// How many actions end a step: none where the code is asked for, and two, which
/// let the threads go on, where the installation is over.
pub open spec fn ending_len(phase: Phase) -> int {
    if phase == Phase::CodeSection {
        0
    } else {
        2
    }
}

/// On Windows Vista and 7 the policy function is looked for, and given up where
/// its library or the function is not there; once it is found it is kept, that is
/// logged, and its first bytes are asked for.
pub proof fn law_policy_function_is_found(h: HookView, handle: usize, address: usize)
    ensures
        h.phase == Phase::LoadSlcForJump ==> ({
            let step = hook::next(h, EventView::Module(handle));
            &&& handle != 0 ==> step.hook.phase == Phase::FindSlForJump
                && step.hook.globals.h_slc == handle && step.actions == Seq::<ActionView>::empty()
            &&& handle == 0 ==> !in_policy(step.hook.phase) && step.hook.globals == h.globals
                && step.actions.len() == ending_len(step.hook.phase)
        }),
        h.phase == Phase::FindSlForJump ==> ({
            let step = hook::next(h, EventView::Function(address));
            &&& address != 0 ==> step.hook.phase == Phase::SaveSlBytes
                && step.hook.globals.sl_get_info == Some(address) && step.actions == seq![
                ActionView::Log("Hook SLGetWindowsInformationDWORD\r\n"@),
            ]
            &&& address == 0 ==> !in_policy(step.hook.phase) && step.hook.globals == h.globals
                && step.actions.len() == ending_len(step.hook.phase)
        }),
        h.phase == Phase::LoadSlcForCall ==> ({
            let step = hook::next(h, EventView::Module(handle));
            &&& step.hook.phase == Phase::FindSlForCall
            &&& step.hook.globals.h_slc == handle
            &&& step.actions == Seq::<ActionView>::empty()
        }),
        h.phase == Phase::FindSlForCall ==> ({
            let step = hook::next(h, EventView::Function(address));
            &&& !in_policy(step.hook.phase)
            &&& step.actions.len() == ending_len(step.hook.phase)
            &&& address != 0 ==> step.hook.globals.sl_get_info == Some(address)
            &&& address == 0 ==> step.hook.globals == h.globals
        }),
{
}

/// The jump goes into the policy function exactly where all of its bytes that the
/// jump takes could be saved: these are kept, and the first thing that is done is
/// to write a jump to the wrapper there. Else that is logged, and nothing of the
/// function changes.
pub proof fn law_saved_bytes_decide(h: HookView, read: Option<Seq<u8>>)
    requires
        hook::well_formed(h),
        h.phase == Phase::SaveSlBytes,
    ensures
        ({
            let step = hook::next(h, EventView::Memory(read));
            let size = match h.arch {
                Arch::X64 => 12nat,
                Arch::X86 => 6nat,
            };
            let whole = read is Some && read->0.len() == size;
            &&& !in_policy(step.hook.phase)
            &&& step.actions.len() == (if step.hook.phase == Phase::CodeSection {
                1int
            } else {
                3int
            })
            &&& whole ==> step.hook.globals.old_sl_bytes == read->0 && step.hook.globals.stub_sl
                is Some && (step.actions[0] matches ActionView::WriteMemory { address, bytes }
                && h.globals.sl_get_info == Some(address as usize) && address >= 0 && bytes
                == step.hook.globals.stub_sl->0.code() && farjmp::jump_target(h.arch, bytes)
                == Some(crate::patch_laws::jump_address(h.arch, h.targets.sl_get_info)))
            &&& !whole ==> step.hook.globals == h.globals && step.actions[0] == ActionView::Log(
                "Error: Failed to save original SLGetWindowsInformationDWORD bytes\r\n"@,
            )
        }),
{
    crate::patch_laws::law_jump_is_made(h.arch, h.targets.sl_get_info);
}

/// Every answer to what the installation waits for is taken, whatever it says; a
/// path is one where it fills a path buffer.
pub proof fn law_answers_are_taken(
    h: HookView,
    path: Seq<u16>,
    cfg: Option<Seq<SectionView>>,
    n: usize,
    m: usize,
    fv: Option<FileVersion>,
    read: Option<Seq<u8>>,
    code: Option<(usize, usize)>,
)
    requires
        path.len() == 256,
    ensures
        match h.phase {
            Phase::LogModulePath | Phase::ConfigModulePath => hook::takes(
                h,
                EventView::ModulePath(path),
            ),
            Phase::Config => hook::takes(h, EventView::Config(cfg)),
            Phase::LoadTermsrv | Phase::LoadSlcForJump | Phase::LoadSlcForCall => hook::takes(
                h,
                EventView::Module(n),
            ),
            Phase::Exports => hook::takes(
                h,
                EventView::Exports { service_main: n, svchost_push: m },
            ),
            Phase::Version => hook::takes(h, EventView::Version(fv)),
            Phase::FindSlForJump | Phase::FindSlForCall => hook::takes(h, EventView::Function(n)),
            Phase::SaveSlBytes => hook::takes(h, EventView::Memory(read)),
            Phase::CodeSection => hook::takes(h, EventView::CodeSection(code)),
            Phase::Done => !hook::takes(h, EventView::Module(n)),
        },
{
}

/// The installation starts with the path of the module, and with nothing found.
pub proof fn law_start(arch: Arch, targets: Targets, i: int)
    ensures
        ({
            let h = hook::started(arch, targets);
            &&& h.arch == arch && h.targets == targets
            &&& h.phase == Phase::LogModulePath
            &&& h.globals.cfg is None && h.globals.service_main is None
                && h.globals.svchost_push is None && h.globals.sl_get_info is None
                && h.globals.stub_sl is None
            &&& h.globals.h_termsrv == 0 && h.globals.h_slc == 0 && h.globals.termsrv_base == 0
            &&& h.globals.old_sl_bytes.len() == 0
            &&& h.globals.log_file.len() == 256 && (0 <= i < 256 ==> h.globals.log_file[i] == 0)
        }),
{
}

} // verus!
