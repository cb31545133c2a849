//! What holds of the logic side, the channel and the render side together.

use crate::channel::{ChannelModel, ChannelOp};
use crate::consumer::ConsumerModel;
use crate::engine::{batches, law_commits_mirror_record, record_after};
use crate::manager::{Call, ManagerModel};
use crate::message::Message;
use vstd::prelude::*;

verus! {

/// One push for each batch of `sealed`, in their order.
pub open spec fn commits<L, S>(sealed: Seq<Vec<Message<L, S>>>) -> Seq<ChannelOp<Vec<Message<L, S>>>> {
    Seq::new(sealed.len(), |i: int| ChannelOp::Push { value: sealed[i] })
}

/// `n` pops.
pub open spec fn polls<L, S>(n: nat) -> Seq<ChannelOp<Vec<Message<L, S>>>> {
    Seq::new(n, |i: int| ChannelOp::TryPop)
}

/// Let the logic side make any rounds of calls and commit after each round,
/// into an empty channel with room for all the batches, and let the render
/// side start from the scene on record and tick once for each batch. Then
/// the channel hands out exactly the committed batches, in the order of the
/// commits, and after its `k`-th tick the render side shows the scene that
/// was on record at the `k`-th commit: every batch is applied in full
/// before the next one, and nothing of a later batch shows early.
pub proof fn law_commits_are_consumed_in_order<L, S>(
    state: ManagerModel<L, S>,
    consumer: ConsumerModel<L, S>,
    channel: ChannelModel<Vec<Message<L, S>>>,
    rounds: Seq<Seq<Call<L, S>>>,
    sealed: Seq<Vec<Message<L, S>>>,
    k: int,
)
    requires
        state.wf(),
        consumer.wf(),
        consumer.scene() == state.scene(),
        channel.wf(),
        !channel.closed,
        channel.queue.len() == 0,
        rounds.len() <= channel.capacity,
        sealed.len() == rounds.len(),
        forall|i: int| 0 <= i < rounds.len() ==> (#[trigger] sealed[i])@ == batches(state, rounds)[i],
        0 <= k <= rounds.len(),
    ensures
        channel.popped(commits(sealed) + polls(sealed.len())) == sealed,
        channel.run(commits(sealed) + polls(sealed.len())).queue.len() == 0,
        consumer.ticked(sealed.take(k)).wf(),
        consumer.ticked(sealed.take(k)).scene() == record_after(state, rounds.take(k)).scene(),
{
    channel.law_pushes_then_pops(sealed);
    consumer.law_ticks_consume_in_order(sealed.take(k));
    law_commits_mirror_record(state, rounds, k);
    assert(sealed.take(k).map_values(|batch: Vec<Message<L, S>>| batch@) =~= batches(
        state,
        rounds,
    ).take(k));
}

} // verus!
