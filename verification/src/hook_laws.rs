//! Laws of the installation: what holds of every run, whatever the system
//! answers.

use crate::action;
use crate::action::ActionView;
use crate::farjmp;
use crate::farjmp::Arch;
use crate::hook;
use crate::hook::{EventView, HookView, Phase, StepView};
use crate::patch;
use crate::patch::Targets;
use vstd::prelude::*;

verus! {

/// How far the other threads are: they run as before, they are frozen, or they
/// were let go.
pub enum Stage {
    Before,
    Frozen,
    After,
}

/// The stage after an action; `None` where the action comes at the wrong time:
/// threads are frozen only where they run as before and let go only where they
/// are frozen, and memory is written only in between.
pub open spec fn next_stage(stage: Stage, action: ActionView) -> Option<Stage> {
    match (stage, action) {
        (_, ActionView::Log(_)) => Some(stage),
        (Stage::Frozen, ActionView::WriteMemory { address: _, bytes: _ }) => Some(stage),
        (Stage::Frozen, ActionView::WriteDword { address: _, value: _ }) => Some(stage),
        (Stage::Before, ActionView::FreezeThreads) => Some(Stage::Frozen),
        (Stage::Frozen, ActionView::ResumeThreads) => Some(Stage::After),
        _ => None,
    }
}

/// The stage after the actions.
pub open spec fn stage_after(start: Stage, actions: Seq<ActionView>) -> Option<Stage>
    decreases actions.len(),
{
    if actions.len() == 0 {
        Some(start)
    } else {
        match stage_after(start, actions.drop_last()) {
            Some(stage) => next_stage(stage, actions.last()),
            None => None,
        }
    }
}

/// The stage of an installation. One that is over without a version never froze
/// a thread.
pub open spec fn stage_of(h: HookView) -> Stage {
    if hook::frozen_in(h.phase) {
        Stage::Frozen
    } else if hook::before_freeze(h.phase) || h.globals.fv.packed() == 0 {
        Stage::Before
    } else {
        Stage::After
    }
}

/// Whether the actions only log.
pub open spec fn undisturbed(actions: Seq<ActionView>) -> bool {
    forall|k: int| 0 <= k < actions.len() ==> (#[trigger] actions[k]) is Log
}

/// Whether the action writes memory.
pub open spec fn is_write(action: ActionView) -> bool {
    action is WriteMemory || action is WriteDword
}

/// Whether the actions freeze the threads at the position and nowhere else, and
/// write memory only behind it.
pub open spec fn frozen_since(actions: Seq<ActionView>, i: int) -> bool {
    &&& 0 <= i < actions.len()
    &&& actions[i] == ActionView::FreezeThreads
    &&& forall|k: int|
        0 <= k < actions.len() && k != i ==> (#[trigger] actions[k]) is Log || (i < k && is_write(
            actions[k],
        ))
}

/// Whether the actions freeze the threads at the first position, let them go at
/// the second, do neither anywhere else, and write memory only in between.
pub open spec fn frozen_between(actions: Seq<ActionView>, i: int, j: int) -> bool {
    &&& 0 <= i < j < actions.len()
    &&& actions[i] == ActionView::FreezeThreads
    &&& actions[j] == ActionView::ResumeThreads
    &&& forall|k: int|
        0 <= k < actions.len() && k != i && k != j ==> (#[trigger] actions[k]) is Log || (i < k < j
            && is_write(actions[k]))
}

proof fn lemma_stages(actions: Seq<ActionView>)
    ensures
        stage_after(Stage::Before, actions) == Some(Stage::Before) ==> undisturbed(actions),
        stage_after(Stage::Before, actions) == Some(Stage::Frozen) ==> exists|i: int|
            frozen_since(actions, i),
        stage_after(Stage::Before, actions) == Some(Stage::After) ==> exists|i: int, j: int|
            frozen_between(actions, i, j),
    decreases actions.len(),
{
    if actions.len() > 0 {
        let rest = actions.drop_last();
        let last = actions.last();
        let n = rest.len() as int;
        lemma_stages(rest);
        assert(actions[n] == last);
        assert forall|k: int| 0 <= k < n implies #[trigger] actions[k] == rest[k] by {}
        match stage_after(Stage::Before, rest) {
            Some(Stage::Before) => {
                if last is FreezeThreads {
                    assert(frozen_since(actions, n));
                }
            },
            Some(Stage::Frozen) => {
                let i = choose|i: int| frozen_since(rest, i);
                assert(actions[i] == rest[i]);
                if last is ResumeThreads {
                    assert(frozen_between(actions, i, n));
                } else if stage_after(Stage::Before, actions) is Some {
                    assert(frozen_since(actions, i));
                }
            },
            Some(Stage::After) => {
                let (i, j) = choose|i: int, j: int| frozen_between(rest, i, j);
                assert(actions[i] == rest[i] && actions[j] == rest[j]);
                if stage_after(Stage::Before, actions) is Some {
                    assert(frozen_between(actions, i, j));
                }
            },
            None => {},
        }
    }
}

proof fn lemma_stage_push(start: Stage, actions: Seq<ActionView>, last: ActionView)
    ensures
        stage_after(start, actions.push(last)) == (match stage_after(start, actions) {
            Some(stage) => next_stage(stage, last),
            None => None,
        }),
{
    assert(actions.push(last).drop_last() =~= actions);
}

proof fn lemma_stage_sum(start: Stage, a: Seq<ActionView>, b: Seq<ActionView>)
    requires
        stage_after(start, a) is Some,
    ensures
        stage_after(start, a + b) == stage_after(stage_after(start, a)->0, b),
    decreases b.len(),
{
    if b.len() == 0 {
        assert(a + b =~= a);
    } else {
        lemma_stage_sum(start, a, b.drop_last());
        assert((a + b).drop_last() =~= a + b.drop_last());
        assert((a + b).last() == b.last());
    }
}

proof fn lemma_patches_frozen(actions: Seq<ActionView>, base: int)
    requires
        patch::writes_behind(actions, base),
    ensures
        stage_after(Stage::Frozen, actions) == Some(Stage::Frozen),
    decreases actions.len(),
{
    if actions.len() > 0 {
        let rest = actions.drop_last();
        assert forall|i: int| 0 <= i < rest.len() implies (match #[trigger] rest[i] {
            ActionView::Log(_) => true,
            ActionView::WriteMemory { address, bytes } => base < address <= usize::MAX && 1
                <= bytes.len() <= 16,
            _ => false,
        }) by {
            assert(rest[i] == actions[i]);
        }
        lemma_patches_frozen(rest, base);
        assert(actions.last() == actions[actions.len() - 1]);
    }
}

proof fn lemma_ending(before: Seq<ActionView>, start: Stage)
    requires
        stage_after(start, before) == Some(Stage::Frozen),
    ensures
        stage_after(start, before + hook::ending()) == Some(Stage::After),
{
    let resuming = ActionView::Log("Resuming threads...\r\n"@);
    assert(before + hook::ending() =~= before.push(resuming).push(ActionView::ResumeThreads));
    lemma_stage_push(start, before, resuming);
    lemma_stage_push(start, before.push(resuming), ActionView::ResumeThreads);
}

proof fn lemma_one(start: Stage, only: ActionView)
    ensures
        stage_after(start, seq![only]) == next_stage(start, only),
{
    lemma_stage_push(start, Seq::empty(), only);
    assert(Seq::<ActionView>::empty().push(only) =~= seq![only]);
}

proof fn lemma_to_patches(h: HookView, actions: Seq<ActionView>, start: Stage)
    requires
        stage_after(start, actions) == Some(Stage::Frozen),
        h.globals.fv.packed() != 0,
    ensures
        stage_after(start, hook::goes_to_patches(h, actions).actions) == Some(
            stage_of(hook::goes_to_patches(h, actions).hook),
        ),
{
    lemma_ending(actions, start);
}

/// Every step keeps the order of things: it takes the threads from the stage of
/// the installation before it to that of the installation after it.
pub proof fn law_step_keeps_the_order(h: HookView, event: EventView)
    requires
        hook::well_formed(h),
        hook::takes(h, event),
    ensures
        stage_after(stage_of(h), hook::next(h, event).actions) == Some(
            stage_of(hook::next(h, event).hook),
        ),
{
    let start = stage_of(h);
    let step = hook::next(h, event);
    assert(stage_after(start, Seq::<ActionView>::empty()) == Some(start));
    match h.phase {
        Phase::ConfigModulePath => {
            let a = step.actions[0];
            let b = step.actions[1];
            lemma_one(start, a);
            lemma_stage_push(start, seq![a], b);
            assert(step.actions =~= seq![a].push(b));
        },
        Phase::Config | Phase::Exports => {
            lemma_one(start, step.actions[0]);
            assert(step.actions =~= seq![step.actions[0]]);
        },
        Phase::LoadTermsrv => {
            if step.actions.len() > 0 {
                lemma_one(start, step.actions[0]);
                assert(step.actions =~= seq![step.actions[0]]);
            }
        },
        Phase::Version => {
            let failed = ActionView::Log("Error: Failed to detect Terminal Services version\r\n"@);
            lemma_one(start, failed);
            if let EventView::Version(Some(fv)) = event {
                let said = ActionView::Log(hook::version_message(fv));
                let freezing = ActionView::Log("Freezing threads...\r\n"@);
                lemma_one(start, said);
                lemma_stage_push(start, seq![said], freezing);
                lemma_stage_push(start, seq![said].push(freezing), ActionView::FreezeThreads);
                let all = seq![said, freezing, ActionView::FreezeThreads];
                assert(all =~= seq![said].push(freezing).push(ActionView::FreezeThreads));
                let k = HookView {
                    globals: crate::globals::GlobalsView { fv, ..h.globals },
                    ..h
                };
                if fv.packed() != 0 {
                    lemma_to_patches(k, all, start);
                }
            }
        },
        Phase::LoadSlcForJump | Phase::FindSlForJump | Phase::FindSlForCall => {
            lemma_one(start, ActionView::Log("Hook SLGetWindowsInformationDWORD\r\n"@));
            lemma_ending(Seq::empty(), start);
        },
        Phase::SaveSlBytes => {
            if let EventView::Memory(read) = event {
                let failed = ActionView::Log(
                    "Error: Failed to save original SLGetWindowsInformationDWORD bytes\r\n"@,
                );
                let jump = ActionView::WriteMemory {
                    address: h.globals.sl_get_info->0 as int,
                    bytes: farjmp::stub(h.arch, h.targets.sl_get_info as nat).code(),
                };
                lemma_one(start, failed);
                lemma_one(start, jump);
                lemma_ending(seq![failed], start);
                lemma_ending(seq![jump], start);
            }
        },
        Phase::CodeSection => {
            if let EventView::CodeSection(code) = event {
                lemma_ending(Seq::empty(), start);
                assert(Seq::<ActionView>::empty() + hook::ending() =~= hook::ending());
                if let Some((base, _)) = code {
                    patch::law_writes_stay_behind_base(
                        h.globals.cfg,
                        h.globals.fv.dotted(),
                        h.arch,
                        base as int,
                        h.targets,
                    );
                    let patches = patch::binary_patch(
                        h.globals.cfg,
                        h.globals.fv.dotted(),
                        h.arch,
                        base as int,
                        h.targets,
                    );
                    lemma_patches_frozen(patches, base as int);
                    lemma_ending(patches, start);
                }
            }
        },
        _ => {},
    }
}

/// The installation after all the answers, and everything that it did.
pub open spec fn after_all(h: HookView, events: Seq<EventView>) -> StepView
    decreases events.len(),
{
    if events.len() == 0 {
        StepView { hook: h, actions: Seq::empty() }
    } else {
        let before = after_all(h, events.drop_last());
        let step = hook::next(before.hook, events.last());
        StepView { hook: step.hook, actions: before.actions + step.actions }
    }
}

/// Whether the installation takes each answer when it comes.
pub open spec fn run(h: HookView, events: Seq<EventView>) -> bool
    decreases events.len(),
{
    events.len() > 0 ==> run(h, events.drop_last()) && hook::takes(
        after_all(h, events.drop_last()).hook,
        events.last(),
    )
}

/// In every run the installation fits together after each answer.
pub proof fn law_run_stays_well_formed(arch: Arch, targets: Targets, events: Seq<EventView>)
    requires
        run(hook::started(arch, targets), events),
    ensures
        hook::well_formed(after_all(hook::started(arch, targets), events).hook),
    decreases events.len(),
{
    hook::law_start_is_well_formed(arch, targets);
    if events.len() > 0 {
        law_run_stays_well_formed(arch, targets, events.drop_last());
        hook::law_step_stays_well_formed(
            after_all(hook::started(arch, targets), events.drop_last()).hook,
            events.last(),
        );
    }
}

/// At every moment of a run the threads are at the stage that the installation is
/// at: they are frozen exactly while it says so, and memory is written only then.
pub proof fn law_run_keeps_the_order(arch: Arch, targets: Targets, events: Seq<EventView>)
    requires
        run(hook::started(arch, targets), events),
    ensures
        stage_after(
            Stage::Before,
            after_all(hook::started(arch, targets), events).actions,
        ) == Some(stage_of(after_all(hook::started(arch, targets), events).hook)),
    decreases events.len(),
{
    let h = hook::started(arch, targets);
    if events.len() > 0 {
        law_run_keeps_the_order(arch, targets, events.drop_last());
        law_run_stays_well_formed(arch, targets, events.drop_last());
        let before = after_all(h, events.drop_last());
        law_step_keeps_the_order(before.hook, events.last());
        lemma_stage_sum(
            Stage::Before,
            before.actions,
            hook::next(before.hook, events.last()).actions,
        );
    }
}

/// Whether the answer is a version that is not 0.
pub open spec fn is_version(event: EventView) -> bool {
    event matches EventView::Version(Some(fv)) && fv.packed() != 0
}

proof fn lemma_step_version(h: HookView, event: EventView)
    requires
        hook::takes(h, event),
    ensures
        !(event is Version) ==> hook::next(h, event).hook.globals.fv == h.globals.fv,
        event matches EventView::Version(Some(fv)) ==> hook::next(h, event).hook.globals.fv == fv,
        event == EventView::Version(None) ==> hook::next(h, event).hook.globals.fv == h.globals.fv,
        event is Version ==> hook::before_freeze(h.phase),
        hook::before_freeze(hook::next(h, event).hook.phase) ==> !(event is Version)
            && hook::before_freeze(h.phase),
{
}

/// Whether one of the answers is a version that is not 0.
pub open spec fn has_version(events: Seq<EventView>) -> bool {
    exists|k: int| 0 <= k < events.len() && is_version(#[trigger] events[k])
}

proof fn lemma_has_version(events: Seq<EventView>)
    requires
        events.len() > 0,
    ensures
        has_version(events) <==> has_version(events.drop_last()) || is_version(events.last()),
{
    let rest = events.drop_last();
    assert(events.last() == events[events.len() - 1]);
    assert forall|k: int| 0 <= k < rest.len() implies #[trigger] rest[k] == events[k] by {}
    if has_version(rest) {
        let k = choose|k: int| 0 <= k < rest.len() && is_version(#[trigger] rest[k]);
        assert(is_version(events[k]));
    }
    if has_version(events) {
        let k = choose|k: int| 0 <= k < events.len() && is_version(#[trigger] events[k]);
        if k < rest.len() {
            assert(is_version(rest[k]));
        }
    }
}

/// In every run the version that is kept is not 0 exactly where the system gave
/// one that is not, and before the threads are frozen it gave none.
pub proof fn law_version_is_kept(arch: Arch, targets: Targets, events: Seq<EventView>)
    requires
        run(hook::started(arch, targets), events),
    ensures
        hook::before_freeze(after_all(hook::started(arch, targets), events).hook.phase)
            ==> !has_version(events),
        after_all(hook::started(arch, targets), events).hook.globals.fv.packed() != 0
            <==> has_version(events),
    decreases events.len(),
{
    let h = hook::started(arch, targets);
    if events.len() == 0 {
        hook::law_start_is_well_formed(arch, targets);
    } else {
        let rest = events.drop_last();
        law_version_is_kept(arch, targets, rest);
        law_run_stays_well_formed(arch, targets, rest);
        lemma_step_version(after_all(h, rest).hook, events.last());
        lemma_has_version(events);
    }
}

/// A run that is over has frozen the other threads once and has let them go once
/// behind that, and has written memory only in between, where the system gave a
/// version of the terminal service; where it gave none, as where the service was
/// not loaded, the run has done nothing but log.
pub proof fn law_run_freezes_once(arch: Arch, targets: Targets, events: Seq<EventView>)
    requires
        run(hook::started(arch, targets), events),
        after_all(hook::started(arch, targets), events).hook.phase == Phase::Done,
    ensures
        ({
            let end = after_all(hook::started(arch, targets), events);
            &&& has_version(events) ==> exists|i: int, j: int| frozen_between(end.actions, i, j)
            &&& !has_version(events) ==> undisturbed(end.actions)
            &&& end.hook.globals.h_termsrv == 0 ==> undisturbed(end.actions)
        }),
{
    law_run_keeps_the_order(arch, targets, events);
    law_run_stays_well_formed(arch, targets, events);
    law_version_is_kept(arch, targets, events);
    lemma_stages(after_all(hook::started(arch, targets), events).actions);
}

/// How many answers the installation can still take in the phase.
pub open spec fn steps_left(phase: Phase) -> nat {
    match phase {
        Phase::LogModulePath => 10,
        Phase::ConfigModulePath => 9,
        Phase::Config => 8,
        Phase::LoadTermsrv => 7,
        Phase::Exports => 6,
        Phase::Version => 5,
        Phase::LoadSlcForJump => 4,
        Phase::LoadSlcForCall => 3,
        Phase::FindSlForJump => 3,
        Phase::SaveSlBytes => 2,
        Phase::FindSlForCall => 2,
        Phase::CodeSection => 1,
        Phase::Done => 0,
    }
}

proof fn lemma_step_leaves_fewer(h: HookView, event: EventView)
    requires
        hook::takes(h, event),
    ensures
        steps_left(hook::next(h, event).hook.phase) < steps_left(h.phase),
{
}

proof fn lemma_some_answer(h: HookView)
    requires
        h.phase != Phase::Done,
    ensures
        exists|event: EventView| hook::takes(h, event),
{
    let path = Seq::new(crate::paths::PATH_LEN as nat, |i: int| 0u16);
    match h.phase {
        Phase::LogModulePath | Phase::ConfigModulePath => {
            assert(hook::takes(h, EventView::ModulePath(path)));
        },
        Phase::Config => {
            assert(hook::takes(h, EventView::Config(None)));
        },
        Phase::LoadTermsrv | Phase::LoadSlcForJump | Phase::LoadSlcForCall => {
            assert(hook::takes(h, EventView::Module(0)));
        },
        Phase::Exports => {
            assert(hook::takes(h, EventView::Exports { service_main: 0, svchost_push: 0 }));
        },
        Phase::Version => {
            assert(hook::takes(h, EventView::Version(None)));
        },
        Phase::FindSlForJump | Phase::FindSlForCall => {
            assert(hook::takes(h, EventView::Function(0)));
        },
        Phase::SaveSlBytes => {
            assert(hook::takes(h, EventView::Memory(None)));
        },
        Phase::CodeSection => {
            assert(hook::takes(h, EventView::CodeSection(None)));
        },
        Phase::Done => {},
    }
}

/// The installation comes to an end: no run has more than ten answers, and one
/// that is not over takes some answer.
pub proof fn law_installation_ends(arch: Arch, targets: Targets, events: Seq<EventView>)
    requires
        run(hook::started(arch, targets), events),
    ensures
        events.len() + steps_left(
            after_all(hook::started(arch, targets), events).hook.phase,
        ) <= 10,
        after_all(hook::started(arch, targets), events).hook.phase != Phase::Done ==> exists|
            event: EventView,
        |
            hook::takes(after_all(hook::started(arch, targets), events).hook, event),
    decreases events.len(),
{
    let h = hook::started(arch, targets);
    if events.len() > 0 {
        law_installation_ends(arch, targets, events.drop_last());
        lemma_step_leaves_fewer(after_all(h, events.drop_last()).hook, events.last());
    }
    let now = after_all(h, events).hook;
    if now.phase != Phase::Done {
        lemma_some_answer(now);
    }
}

proof fn lemma_ending_leaves_memory(memory: action::Memory, before: Seq<ActionView>)
    ensures
        action::after_actions(memory, before + hook::ending()) == action::after_actions(
            memory,
            before,
        ),
{
    reveal_with_fuel(action::after_actions, 3);
    let resuming = ActionView::Log("Resuming threads...\r\n"@);
    let all = before + hook::ending();
    assert(all.drop_last() =~= before.push(resuming));
    assert(before.push(resuming).drop_last() =~= before);
    assert(all.last() == ActionView::ResumeThreads);
    assert(before.push(resuming).last() == resuming);
}

/// Once the first bytes of the system's function are saved, the function starts
/// with the jump to the wrapper, the bytes and the jump are kept, and nothing
/// else in the memory has changed.
pub proof fn law_jump_is_installed(h: HookView, memory: action::Memory, saved: Seq<u8>)
    requires
        hook::well_formed(h),
        h.phase == Phase::SaveSlBytes,
        saved.len() == h.arch.jump_size(),
    ensures
        ({
            let step = hook::next(h, EventView::Memory(Some(saved)));
            let jump = farjmp::stub(h.arch, h.targets.sl_get_info as nat);
            let place = h.globals.sl_get_info->0 as int;
            let end = action::after_actions(memory, step.actions);
            &&& step.hook.globals.stub_sl == Some(jump)
            &&& step.hook.globals.old_sl_bytes == saved
            &&& step.hook.globals.consistent()
            &&& action::holds(end, place, jump.code())
            &&& forall|a: int| !(place <= a < place + saved.len()) ==> #[trigger] end(a) == memory(a)
        }),
{
    let step = hook::next(h, EventView::Memory(Some(saved)));
    let jump = farjmp::stub(h.arch, h.targets.sl_get_info as nat);
    let place = h.globals.sl_get_info->0 as int;
    let write = ActionView::WriteMemory { address: place, bytes: jump.code() };
    farjmp::law_jump_fits(h.arch, h.targets.sl_get_info as nat);
    lemma_ending_leaves_memory(memory, seq![write]);
    reveal_with_fuel(action::after_actions, 2);
    assert(seq![write].drop_last() =~= Seq::<ActionView>::empty());
    let end = action::after_actions(memory, step.actions);
    assert(end == action::written_at(memory, place, jump.code()));
}

} // verus!
