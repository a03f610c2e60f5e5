//! Laws of the registry that span several operations or states.

use vstd::prelude::*;
use crate::contract::RegistryView;
use crate::lottery::LotteryView;

verus! {

/// In every registry that the operations can reach, no lottery holds more
/// participants than its capacity.
pub proof fn lemma_within_capacity(reg: RegistryView)
    requires
        reg.wf(),
    ensures
        forall|i: int|
            0 <= i < reg.lotteries.len() ==> (#[trigger] reg.lotteries[i]).participants.len()
                <= reg.lotteries[i].max_participants,
{
}

/// Completed lotteries stay frozen along any chain of operations: if each
/// step keeps them, so does the whole chain.
pub proof fn lemma_frozen_chains(a: RegistryView, b: RegistryView, c: RegistryView)
    requires
        a.completed_frozen(b),
        b.completed_frozen(c),
    ensures
        a.completed_frozen(c),
{
    assert forall|i: int| 0 <= i < a.len() implies {
        &&& (#[trigger] c.lotteries[i]).id == a.lotteries[i].id
        &&& a.lotteries[i].is_completed ==> {
            &&& c.lotteries[i].is_completed
            &&& c.lotteries[i].participants == a.lotteries[i].participants
            &&& c.lotteries[i].winner == a.lotteries[i].winner
        }
    } by {
        assert(b.lotteries[i].id == a.lotteries[i].id);
    }
}

/// The first identifier issued by an empty registry is 1.
pub proof fn lemma_first_identifier()
    ensures
        RegistryView::empty().create_outcome(true) == Ok::<u32, crate::contract::LotteryError>(1),
{
}

/// The identifier that a creation issues is above every identifier in the
/// registry, so it is new; and the creation after it issues a larger one.
pub proof fn lemma_identifiers_increase(
    reg: RegistryView,
    creator: Seq<char>,
    name: Seq<char>,
    entry_fee: i128,
    max_participants: u32,
    now: u64,
)
    requires
        reg.wf(),
        reg.counter < u32::MAX,
    ensures
        reg.create_outcome(true) matches Ok(id) && {
            &&& 1 <= id
            &&& forall|i: int| 0 <= i < reg.len() ==> #[trigger] reg.lotteries[i].id < id
            &&& !reg.has_id(id)
            &&& {
                let next = reg.created(creator, name, entry_fee, max_participants, now);
                &&& next.has_id(id)
                &&& next.counter == id
                &&& next.counter < u32::MAX ==> (next.create_outcome(true) matches Ok(later)
                    && id < later)
            }
        },
{
    let id = (reg.counter + 1) as u32;
    let next = reg.created(creator, name, entry_fee, max_participants, now);
    assert(next.lotteries[reg.len()].id == id);
}

/// Reading the lotteries twice from one registry state gives equal results,
/// for all lotteries and for the completed ones.
pub proof fn lemma_queries_repeatable(
    reg: RegistryView,
    first: Seq<LotteryView>,
    second: Seq<LotteryView>,
    first_completed: Seq<LotteryView>,
    second_completed: Seq<LotteryView>,
)
    requires
        first == reg.lotteries,
        second == reg.lotteries,
        first_completed == reg.completed_lotteries(),
        second_completed == reg.completed_lotteries(),
    ensures
        first == second,
        first_completed == second_completed,
        forall|i: int| 0 <= i < first_completed.len() ==> (#[trigger] first_completed[i]).is_completed,
{
    reg.lotteries.lemma_filter_len(|l: LotteryView| l.is_completed);
    assert forall|i: int| 0 <= i < first_completed.len() implies (
    #[trigger] first_completed[i]).is_completed by {
        reg.lotteries.lemma_filter_pred(|l: LotteryView| l.is_completed, i);
    }
}

} // verus!
