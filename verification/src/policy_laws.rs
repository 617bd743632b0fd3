//! Laws of policy queries: what the caller gets, and what the log says.

use crate::action;
use crate::action::ActionView;
use crate::bytes;
use crate::globals::GlobalsView;
use crate::ini_file;
use crate::ini_file::SectionView;
use crate::number;
use crate::policy;
use crate::utf16;
use vstd::prelude::*;

verus! {

/// The results that callers know: 0 for success, and the general failure, whose
/// bits are 0x80004005.
pub proof fn law_results()
    ensures
        policy::S_OK == 0,
        policy::E_FAIL + 0x1_0000_0000 == 0x8000_4005,
{
}

/// Which queries the configuration answers: exactly those for a policy that the
/// section `SLPolicy` names, with the number that stands there in decimal, in 32
/// bits. Without a configuration it answers none.
pub proof fn law_answered_queries(sections: Seq<SectionView>, name: Seq<u16>)
    ensures
        policy::policy_override(None, name) is None,
        match ini_file::lookup(sections, "SLPolicy"@, utf16::wide_text(name)) {
            Some(v) => policy::policy_override(Some(sections), name) matches Some(value) && 0
                <= value <= u32::MAX && (ini_file::dword_value(v.value, 10) - value)
                % 0x1_0000_0000 == 0,
            None => policy::policy_override(Some(sections), name) is None,
        },
{
    if let Some(v) = ini_file::lookup(sections, "SLPolicy"@, utf16::wide_text(name)) {
        let n = ini_file::dword_value(v.value, 10);
        assert((n - n % 0x1_0000_0000) % 0x1_0000_0000 == 0);
    }
}

/// A query for a policy whose setting writes a number of 32 bits in decimal, 0
/// among them, leaves the four bytes of that number where the caller wants them,
/// the least significant first, and changes nothing else in memory.
pub proof fn law_answer_reaches_the_caller(
    sections: Seq<SectionView>,
    policy: Seq<char>,
    n: u32,
    memory: action::Memory,
    out: int,
)
    requires
        !policy.contains('\0'),
        ini_file::lookup(sections, "SLPolicy"@, policy) matches Some(v) && v.value
            == number::decimal(n as nat),
    ensures
        ({
            let name = utf16::encoded(policy);
            let value = policy::policy_override(Some(sections), name)->0;
            let end = action::after_actions(memory, policy::answer_actions(name, out, value));
            &&& policy::policy_override(Some(sections), name) is Some
            &&& end(out) == n % 256
            &&& end(out + 1) == n / 256 % 256
            &&& end(out + 2) == n / 0x1_0000 % 256
            &&& end(out + 3) == n / 0x100_0000
            &&& forall|a: int| a < out || a >= out + 4 ==> #[trigger] end(a) == memory(a)
        }),
{
    let name = utf16::encoded(policy);
    policy::law_named_policies_are_answered(sections, policy, n);
    policy::lemma_answer_memory(memory, name, out, n as int);
    bytes::law_le_four(n as nat);
}

/// The lines that the actions put into the log, in order.
pub open spec fn logged(actions: Seq<ActionView>) -> Seq<Seq<char>>
    decreases actions.len(),
{
    if actions.len() == 0 {
        Seq::empty()
    } else {
        match actions.last() {
            ActionView::Log(line) => logged(actions.drop_last()).push(line),
            _ => logged(actions.drop_last()),
        }
    }
}

/// A query that the configuration answers is logged with the name of the policy,
/// and the answer is logged in decimal.
pub proof fn law_answer_is_logged(name: Seq<u16>, out: int, value: u32)
    ensures
        logged(policy::answer_actions(name, out, value as int)) == seq![
            "Policy query: "@ + utf16::decoded(name) + "\r\n"@,
            "Policy rewrite: "@ + number::decimal(value as nat) + "\r\n"@,
        ],
{
    reveal_with_fuel(logged, 4);
    let all = policy::answer_actions(name, out, value as int);
    assert(all.drop_last() =~= seq![all[0], all[1]]);
    assert(all.drop_last().drop_last() =~= seq![all[0]]);
    assert(all.drop_last().drop_last().drop_last() =~= Seq::<ActionView>::empty());
    assert(logged(all) =~= seq![
        "Policy query: "@ + utf16::decoded(name) + "\r\n"@,
        "Policy rewrite: "@ + number::decimal(value as nat) + "\r\n"@,
    ]);
}

proof fn lemma_two(all: Seq<ActionView>)
    requires
        1 <= all.len() <= 2,
        all[0] is Log,
        all.len() == 2 ==> all[1] is WriteMemory,
    ensures
        logged(all) == seq![all[0]->Log_0],
{
    reveal_with_fuel(logged, 3);
    if all.len() == 2 {
        assert(all.drop_last() =~= seq![all[0]]);
        assert(seq![all[0]].drop_last() =~= Seq::<ActionView>::empty());
    } else {
        assert(all.drop_last() =~= Seq::<ActionView>::empty());
    }
    assert(logged(all) =~= seq![all[0]->Log_0]);
}

/// A query that goes on to the system is logged with the name of the policy
/// before, and with what came back behind: the value in decimal where the system
/// succeeded, and that it failed where it did not.
pub proof fn law_forwarding_is_logged(
    g: GlobalsView,
    name: Seq<u16>,
    target: int,
    result: i32,
    value: u32,
)
    ensures
        logged(policy::forward_actions(g, name, target)) == seq![
            "Policy query: "@ + utf16::decoded(name) + "\r\n"@,
        ],
        result == 0 ==> logged(policy::return_actions(g, target, result, value as nat)) == seq![
            "Policy result: "@ + number::decimal(value as nat) + "\r\n"@,
        ],
        result != 0 ==> logged(policy::return_actions(g, target, result, value as nat)) == seq![
            "Policy request failed\r\n"@,
        ],
{
    lemma_two(policy::forward_actions(g, name, target));
    lemma_two(policy::return_actions(g, target, result, value as nat));
}

/// Where no jump was written, a query changes no memory.
pub proof fn law_query_without_a_jump(
    g: GlobalsView,
    memory: action::Memory,
    name: Seq<u16>,
    target: int,
    result: i32,
    value: nat,
)
    requires
        g.consistent(),
        g.stub_sl is None,
    ensures
        action::after_actions(memory, policy::forward_actions(g, name, target)) == memory,
        action::after_actions(memory, policy::return_actions(g, target, result, value)) == memory,
{
    reveal_with_fuel(action::after_actions, 2);
    let a = policy::forward_actions(g, name, target);
    let b = policy::return_actions(g, target, result, value);
    assert(a.drop_last() =~= Seq::<ActionView>::empty());
    assert(b.drop_last() =~= Seq::<ActionView>::empty());
}

} // verus!
