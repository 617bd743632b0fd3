//! Policy queries: which the configuration answers, and what happens around
//! those that go on to the system.

use crate::action;
use crate::action::{Action, ActionView};
use crate::bytes;
use crate::globals::{Globals, GlobalsView};
use crate::ini_file;
use crate::ini_file::{IniFile, SectionView};
use crate::number;
use crate::settings;
use crate::utf16;
use vstd::prelude::*;

verus! {

/// The result of a query that succeeded.
pub const S_OK: i32 = 0;

/// The result of a query that failed for no particular reason.
pub const E_FAIL: i32 = -2147467259;

/// The value that the configuration gives a policy, if it names the policy.
pub open spec fn policy_override(
    cfg: Option<Seq<SectionView>>,
    value_name: Seq<u16>,
) -> Option<int> {
    match settings::setting(cfg, "SLPolicy"@, utf16::wide_text(value_name)) {
        Some(v) => Some(ini_file::dword_value(v.value, 10) % 0x1_0000_0000),
        None => None,
    }
}

/// The value that the configuration gives a policy: its setting in decimal, cut
/// to 32 bits; `None` where the configuration does not name the policy.
pub fn override_sl(ini: Option<&IniFile>, value_name: &[u16]) -> (r: Option<u32>)
    ensures
        match r {
            Some(value) => policy_override(settings::config(ini), value_name@) == Some(
                value as int,
            ),
            None => policy_override(settings::config(ini), value_name@) is None,
        },
{
    let name = IniFile::wide_to_string(value_name);
    match ini {
        Some(f) => match f.get_dword("SLPolicy", &name) {
            Some(var) => {
                let low: u64 = var.value_dec % 0x1_0000_0000;
                Some(low as u32)
            },
            None => None,
        },
        None => None,
    }
}

/// What becomes of a query.
#[derive(Clone, Copy, Debug, PartialEq, Eq, Structural)]
pub enum Outcome {
    /// It is answered, with the result.
    Answered { result: i32 },
    /// It goes to the function at the address, and `finish` comes after that.
    Forwarded { target: usize },
}

/// The start of a query: what to do at once, and what becomes of it.
pub struct Query {
    pub actions: Vec<Action>,
    pub outcome: Outcome,
}

/// What the log says of a query.
pub open spec fn query_message(name: Seq<u16>) -> Seq<char> {
    "Policy query: "@ + utf16::decoded(name) + "\r\n"@
}

/// What the log says of a query that the configuration answers.
pub open spec fn rewrite_message(value: nat) -> Seq<char> {
    "Policy rewrite: "@ + number::decimal(value) + "\r\n"@
}

/// What the log says of a query that the system answered.
pub open spec fn result_message(result: i32, value: nat) -> Seq<char> {
    if result == S_OK {
        "Policy result: "@ + number::decimal(value) + "\r\n"@
    } else {
        "Policy request failed\r\n"@
    }
}

/// What a query does that the configuration answers: it is logged, the value is
/// stored where the caller wants it, and that is logged.
pub open spec fn answer_actions(name: Seq<u16>, out: int, value: int) -> Seq<ActionView> {
    seq![
        ActionView::Log(query_message(name)),
        ActionView::WriteDword { address: out, value },
        ActionView::Log(rewrite_message(value as nat)),
    ]
}

/// What a query to the exported function does first, where the configuration
/// does not answer it: it is logged, and the bytes that stood where the jump
/// stands are put back.
pub open spec fn forward_actions(g: GlobalsView, name: Seq<u16>, target: int) -> Seq<ActionView> {
    seq![ActionView::Log(query_message(name))] + (if g.old_sl_bytes.len() > 0 {
        seq![ActionView::WriteMemory { address: target, bytes: g.old_sl_bytes }]
    } else {
        Seq::empty()
    })
}

/// What a query to the exported function does once the system has answered: that
/// is logged, and the jump is put back.
pub open spec fn return_actions(
    g: GlobalsView,
    target: int,
    result: i32,
    value: nat,
) -> Seq<ActionView> {
    seq![ActionView::Log(result_message(result, value))] + (match g.stub_sl {
        Some(jump) => seq![ActionView::WriteMemory { address: target, bytes: jump.code() }],
        None => Seq::empty(),
    })
}

fn start(ini: Option<&IniFile>, name: &[u16], out: usize) -> (r: (Vec<Action>, bool))
    ensures
        r.1 == (policy_override(settings::config(ini), name@) is Some),
        match policy_override(settings::config(ini), name@) {
            Some(value) => action::trace(r.0@) == answer_actions(name@, out as int, value),
            None => action::trace(r.0@) == seq![ActionView::Log(query_message(name@))],
        },
{
    let mut actions: Vec<Action> = Vec::new();
    assert(action::trace(actions@) =~= Seq::<ActionView>::empty());
    let said = utf16::decode(name);
    let line = action::around_text("Policy query: ", &said, "\r\n");
    action::add_action(&mut actions, Action::Log(line));
    match override_sl(ini, name) {
        Some(value) => {
            action::add_action(&mut actions, Action::WriteDword { address: out, value });
            let line = action::around_number("Policy rewrite: ", value, "\r\n");
            action::add_action(&mut actions, Action::Log(line));
            assert(action::trace(actions@) =~= answer_actions(name@, out as int, value as int));
            (actions, true)
        },
        None => {
            assert(action::trace(actions@) =~= seq![ActionView::Log(query_message(name@))]);
            (actions, false)
        },
    }
}

pub(crate) proof fn lemma_answer_memory(
    memory: action::Memory,
    name: Seq<u16>,
    out: int,
    value: int,
)
    ensures
        action::after_actions(memory, answer_actions(name, out, value)) == action::written_at(
            memory,
            out,
            bytes::le_bytes(value as nat, 4),
        ),
{
    reveal_with_fuel(action::after_actions, 4);
    let all = answer_actions(name, out, value);
    assert(all.drop_last() =~= seq![all[0], all[1]]);
    assert(all.drop_last().drop_last() =~= seq![all[0]]);
    assert(all.drop_last().drop_last().drop_last() =~= Seq::<ActionView>::empty());
}

/// Starts a query that came through the jump in the exported function. The name
/// is without its NUL, and `out` is where the caller wants the value.
pub fn begin_hooked_query(g: &Globals, name: &[u16], out: usize) -> (r: Query)
    requires
        policy_override(g@.cfg, name@) is None ==> g@.sl_get_info is Some,
    ensures
        match policy_override(g@.cfg, name@) {
            Some(value) => r.outcome == (Outcome::Answered { result: S_OK }) && action::trace(
                r.actions@,
            ) == answer_actions(name@, out as int, value),
            None => r.outcome == (Outcome::Forwarded { target: g@.sl_get_info->0 })
                && action::trace(r.actions@) == forward_actions(
                g@,
                name@,
                g@.sl_get_info->0 as int,
            ),
        },
        forall|memory: action::Memory|
            policy_override(g@.cfg, name@) is Some ==> action::holds(
                #[trigger] action::after_actions(memory, action::trace(r.actions@)),
                out as int,
                bytes::le_bytes(policy_override(g@.cfg, name@)->0 as nat, 4),
            ),
{
    let (mut actions, answered) = start(g.ini(), name, out);
    if answered {
        proof {
            let value = policy_override(g@.cfg, name@)->0;
            assert forall|memory: action::Memory| action::holds(
                #[trigger] action::after_actions(memory, action::trace(actions@)),
                out as int,
                bytes::le_bytes(value as nat, 4),
            ) by {
                lemma_answer_memory(memory, name@, out as int, value);
            }
        }
        return Query { actions, outcome: Outcome::Answered { result: S_OK } };
    }
    match g.sl_get_info {
        Some(target) => {
            if g.old_sl_bytes.len() > 0 {
                action::add_action(
                    &mut actions,
                    Action::WriteMemory { address: target, bytes: g.old_sl_bytes.clone() },
                );
            }
            assert(action::trace(actions@) =~= forward_actions(g@, name@, target as int));
            Query { actions, outcome: Outcome::Forwarded { target } }
        },
        None => Query { actions, outcome: Outcome::Answered { result: E_FAIL } },
    }
}

/// Ends a query that went from the exported function to the system, which gave
/// the result and left the value.
pub fn finish_hooked_query(g: &Globals, target: usize, result: i32, value: u32) -> (r: Vec<Action>)
    ensures
        action::trace(r@) == return_actions(g@, target as int, result, value as nat),
{
    let mut actions = finish_internal_query(result, value);
    if let Some(jump) = g.stub_sl {
        action::add_action(
            &mut actions,
            Action::WriteMemory { address: target, bytes: jump.as_bytes() },
        );
    }
    assert(action::trace(actions@) =~= return_actions(g@, target as int, result, value as nat));
    actions
}

/// Starts a query that came through the jump in the internal function.
pub fn begin_internal_query(g: &Globals, name: &[u16], out: usize) -> (r: Query)
    ensures
        match policy_override(g@.cfg, name@) {
            Some(value) => r.outcome == (Outcome::Answered { result: S_OK }) && action::trace(
                r.actions@,
            ) == answer_actions(name@, out as int, value),
            None => action::trace(r.actions@) == seq![ActionView::Log(query_message(name@))]
                && r.outcome == (match g@.sl_get_info {
                Some(target) => Outcome::Forwarded { target },
                None => Outcome::Answered { result: E_FAIL },
            }),
        },
        forall|memory: action::Memory|
            policy_override(g@.cfg, name@) is Some ==> action::holds(
                #[trigger] action::after_actions(memory, action::trace(r.actions@)),
                out as int,
                bytes::le_bytes(policy_override(g@.cfg, name@)->0 as nat, 4),
            ),
{
    let (actions, answered) = start(g.ini(), name, out);
    if answered {
        proof {
            let value = policy_override(g@.cfg, name@)->0;
            assert forall|memory: action::Memory| action::holds(
                #[trigger] action::after_actions(memory, action::trace(actions@)),
                out as int,
                bytes::le_bytes(value as nat, 4),
            ) by {
                lemma_answer_memory(memory, name@, out as int, value);
            }
        }
        return Query { actions, outcome: Outcome::Answered { result: S_OK } };
    }
    match g.sl_get_info {
        Some(target) => Query { actions, outcome: Outcome::Forwarded { target } },
        None => Query { actions, outcome: Outcome::Answered { result: E_FAIL } },
    }
}

/// Ends a query that went from the internal function to the system.
pub fn finish_internal_query(result: i32, value: u32) -> (r: Vec<Action>)
    ensures
        action::trace(r@) == seq![ActionView::Log(result_message(result, value as nat))],
{
    let mut actions: Vec<Action> = Vec::new();
    assert(action::trace(actions@) =~= Seq::<ActionView>::empty());
    if result == S_OK {
        let line = action::around_number("Policy result: ", value, "\r\n");
        action::add_action(&mut actions, Action::Log(line));
    } else {
        action::add_log(&mut actions, "Policy request failed\r\n");
    }
    assert(action::trace(actions@) =~= seq![
        ActionView::Log(result_message(result, value as nat)),
    ]);
    actions
}

proof fn lemma_one_write(memory: action::Memory, first: ActionView, second: Seq<ActionView>)
    requires
        first is Log,
        second.len() <= 1,
    ensures
        action::after_actions(memory, seq![first] + second) == (if second.len() == 0 {
            memory
        } else {
            action::after_action(memory, second[0])
        }),
{
    reveal_with_fuel(action::after_actions, 3);
    let all = seq![first] + second;
    if second.len() == 0 {
        assert(all.drop_last() =~= Seq::<ActionView>::empty());
        assert(all.last() == first);
    } else {
        assert(all.drop_last() =~= seq![first]);
        assert(seq![first].drop_last() =~= Seq::<ActionView>::empty());
        assert(all.last() == second[0]);
    }
}

/// While a query is with the system, the system's function is as it was before
/// the jump was written, and once the query has ended the jump is back: the
/// memory is the one that the query found.
pub proof fn law_query_keeps_the_jump(
    g: GlobalsView,
    memory: action::Memory,
    name: Seq<u16>,
    result: i32,
    value: nat,
)
    requires
        g.consistent(),
        g.stub_sl is Some,
        action::holds(memory, g.sl_get_info->0 as int, g.stub_sl->0.code()),
    ensures
        ({
            let target = g.sl_get_info->0 as int;
            let during = action::after_actions(memory, forward_actions(g, name, target));
            let end = action::after_actions(during, return_actions(g, target, result, value));
            &&& action::holds(during, target, g.old_sl_bytes)
            &&& forall|a: int| #[trigger] end(a) == memory(a)
        }),
{
    let target = g.sl_get_info->0 as int;
    let code = g.stub_sl->0.code();
    let put_back = ActionView::WriteMemory { address: target, bytes: g.old_sl_bytes };
    let jump = ActionView::WriteMemory { address: target, bytes: code };
    lemma_one_write(memory, ActionView::Log(query_message(name)), seq![put_back]);
    let during = action::after_actions(memory, forward_actions(g, name, target));
    assert(during == action::written_at(memory, target, g.old_sl_bytes));
    lemma_one_write(during, ActionView::Log(result_message(result, value)), seq![jump]);
    let end = action::after_actions(during, return_actions(g, target, result, value));
    assert(end == action::written_at(during, target, code));
    assert forall|a: int| #[trigger] end(a) == memory(a) by {
        if target <= a < target + code.len() {
            assert(code[a - target] == memory(target + (a - target)));
        }
    }
}

/// A policy that the configuration names is answered with the number that its
/// setting writes.
pub proof fn law_named_policies_are_answered(
    sections: Seq<SectionView>,
    policy: Seq<char>,
    value: u32,
)
    requires
        !policy.contains('\0'),
        ini_file::lookup(sections, "SLPolicy"@, policy) matches Some(v) && v.value
            == number::decimal(value as nat),
    ensures
        policy_override(Some(sections), utf16::encoded(policy)) == Some(value as int),
{
    utf16::law_wide_text(policy, Seq::empty());
    crate::ini_laws::law_dword_read_back(value as int);
}

} // verus!
