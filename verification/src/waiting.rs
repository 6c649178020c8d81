//! Who waits for a stream, as far as the calls of a publisher and their results tell.
use vstd::prelude::*;
use crate::aeron_publisher::{
    has_client, AeronPublisher, JoinCompletion, JoinError, JoinStatus, PublicationFactory,
    Settlement,
};
use crate::protocol::AeronConfigModel;
use crate::routes::StreamKey;

verus! {

/// A call of the publisher and what it returned.
pub enum PublisherCall {
    AddClient { client_id: u64, result: Result<JoinStatus, JoinError> },
    RemoveClient { client_id: u64 },
    DoWork { completions: Seq<JoinCompletion> },
    /// A call that is about frames or subscriptions.
    Other,
}

/// The client was told that its join is pending.
pub open spec fn is_pending(result: Result<JoinStatus, JoinError>) -> bool {
    result matches Ok(status) && status is Pending
}

/// One of the completions tells the client that it has waited in vain.
pub open spec fn has_failure(completions: Seq<JoinCompletion>, client_id: u64) -> bool {
    exists|i: int|
        0 <= i < completions.len() && (#[trigger] completions[i]).client_id == client_id
            && completions[i].result is Err
}

impl<F: PublicationFactory> AeronPublisher<F> {
    /// The client waits for its stream.
    pub open spec fn waits(self, client_id: u64) -> bool {
        &&& self.client_groups@.contains_key(client_id)
        &&& self.groups@[self.client_groups@[client_id]@].waiters@.contains(client_id)
    }

    /// This call was made, and it has done what its contract says.
    pub open spec fn called(self, call: PublisherCall, after: AeronPublisher<F>) -> bool {
        match call {
            PublisherCall::AddClient { client_id, result } => exists|
                config: AeronConfigModel,
                now: u128,
            |
                #[trigger] self.client_added(after, client_id, config, now, result),
            PublisherCall::RemoveClient { client_id } => self.client_removed(after, client_id),
            PublisherCall::DoWork { completions } => if self.work_pending {
                exists|
                    now: u128,
                    settlements: Map<AeronConfigModel, Settlement<F::Publication>>,
                    restarts: Map<AeronConfigModel, Result<F::Registration, String>>,
                |
                    #[trigger] self.worked(after, now, settlements, restarts) && self.all_told(
                        settlements,
                        completions,
                    )
            } else {
                completions.len() == 0 && after == self
            },
            PublisherCall::Other => self.keeps_clients(after),
        }
    }
}

/// The client belongs to a stream, by what the calls returned: it has joined one, and has
/// neither been removed nor been told that it has waited in vain since.
pub open spec fn belongs(calls: Seq<PublisherCall>, client_id: u64) -> bool
    decreases calls.len(),
{
    if calls.len() == 0 {
        false
    } else {
        let before = belongs(calls.drop_last(), client_id);
        match calls.last() {
            PublisherCall::AddClient { client_id: added, result } => before || (added == client_id
                && result is Ok),
            PublisherCall::RemoveClient { client_id: removed } => before && removed != client_id,
            PublisherCall::DoWork { completions } => before && !has_failure(
                completions,
                client_id,
            ),
            PublisherCall::Other => before,
        }
    }
}

/// The client is owed a completion, by what the calls returned: it belonged to no stream
/// when it was told that its join is pending, and has neither been told of a completion nor
/// been removed since.
pub open spec fn is_owed(calls: Seq<PublisherCall>, client_id: u64) -> bool
    decreases calls.len(),
{
    if calls.len() == 0 {
        false
    } else {
        let before = is_owed(calls.drop_last(), client_id);
        match calls.last() {
            PublisherCall::AddClient { client_id: added, result } => if added == client_id
                && !belongs(calls.drop_last(), client_id) {
                is_pending(result)
            } else {
                before
            },
            PublisherCall::RemoveClient { client_id: removed } => before && removed != client_id,
            PublisherCall::DoWork { completions } => before && !has_client(completions, client_id),
            PublisherCall::Other => before,
        }
    }
}

/// What it means for those who wait that a client asks to join.
proof fn lemma_added<F: PublicationFactory>(
    before: AeronPublisher<F>,
    after: AeronPublisher<F>,
    added: u64,
    config: AeronConfigModel,
    now: u128,
    result: Result<JoinStatus, JoinError>,
    client_id: u64,
)
    requires
        before.wf(),
        before.client_added(after, added, config, now, result),
    ensures
        after.client_groups@.contains_key(client_id) == (before.client_groups@.contains_key(
            client_id,
        ) || (added == client_id && result is Ok)),
        added == client_id && !before.client_groups@.contains_key(client_id) ==> after.waits(
            client_id,
        ) == is_pending(result),
        added != client_id || before.client_groups@.contains_key(client_id) ==> after.waits(
            client_id,
        ) == before.waits(client_id),
{
    let key = before.client_groups@[client_id]@;
    if before.client_groups@.contains_key(client_id) {
        assert(before.groups@.contains_key(key));
    }
    assert(after.client_groups@.remove(added).contains_key(client_id) == (
    after.client_groups@.contains_key(client_id) && client_id != added));
    if client_id != added && before.client_groups@.contains_key(client_id) {
        assert(after.client_groups@.remove(added)[client_id] == after.client_groups@[client_id]);
    }
    if !before.client_groups@.contains_key(added) && before.groups@.contains_key(config) {
        assert(before.groups@[config].wf());
        assert(!before.groups@[config].members@.contains(added));
    }
}

/// What it means for those who wait that a client leaves.
proof fn lemma_removed<F: PublicationFactory>(
    before: AeronPublisher<F>,
    after: AeronPublisher<F>,
    removed: u64,
    client_id: u64,
)
    requires
        before.wf(),
        before.client_removed(after, removed),
    ensures
        after.client_groups@.contains_key(client_id) == (before.client_groups@.contains_key(
            client_id,
        ) && removed != client_id),
        after.waits(client_id) == (before.waits(client_id) && removed != client_id),
{
    let key = before.client_groups@[client_id]@;
    if before.client_groups@.contains_key(client_id) {
        assert(before.groups@.contains_key(key));
        assert(before.groups@[key].members@.contains(client_id));
    }
    if before.client_groups@.contains_key(removed) && client_id != removed
        && before.client_groups@.contains_key(client_id) {
        let left = before.client_groups@[removed]@;
        assert(before.groups@[left].members@.contains(removed));
        if key != left {
            assert(after.groups@.remove(left)[key] == after.groups@[key]);
            assert(before.groups@.remove(left)[key] == before.groups@[key]);
        } else {
            assert(before.groups@[key].members@ != set![removed]);
        }
    }
}

/// What one call means for those who wait.
proof fn lemma_call<F: PublicationFactory>(
    before: AeronPublisher<F>,
    call: PublisherCall,
    after: AeronPublisher<F>,
    client_id: u64,
)
    requires
        before.wf(),
        before.called(call, after),
    ensures
        after.client_groups@.contains_key(client_id) == (match call {
            PublisherCall::AddClient { client_id: added, result } =>
                before.client_groups@.contains_key(client_id) || (added == client_id && result is Ok),
            PublisherCall::RemoveClient { client_id: removed } => before.client_groups@.contains_key(
                client_id,
            ) && removed != client_id,
            PublisherCall::DoWork { completions } => before.client_groups@.contains_key(client_id)
                && !has_failure(completions, client_id),
            PublisherCall::Other => before.client_groups@.contains_key(client_id),
        }),
        after.waits(client_id) == (match call {
            PublisherCall::AddClient { client_id: added, result } => if added == client_id
                && !before.client_groups@.contains_key(client_id) {
                is_pending(result)
            } else {
                before.waits(client_id)
            },
            PublisherCall::RemoveClient { client_id: removed } => before.waits(client_id)
                && removed != client_id,
            PublisherCall::DoWork { completions } => before.waits(client_id) && !has_client(
                completions,
                client_id,
            ),
            PublisherCall::Other => before.waits(client_id),
        }),
{
    let key = before.client_groups@[client_id]@;
    if before.client_groups@.contains_key(client_id) {
        assert(before.groups@.contains_key(key));
        assert(before.groups@[key].members@.contains(client_id));
    }
    match call {
        PublisherCall::AddClient { client_id: added, result } => {
            let (config, now) = choose|config: AeronConfigModel, now: u128|
                #[trigger] before.client_added(after, added, config, now, result);
            lemma_added(before, after, added, config, now, result, client_id);
        },
        PublisherCall::RemoveClient { client_id: removed } => {
            lemma_removed(before, after, removed, client_id);
        },
        PublisherCall::DoWork { completions } => {
            if before.work_pending {
                let (now, settlements, restarts) = choose|
                    now: u128,
                    settlements: Map<AeronConfigModel, Settlement<F::Publication>>,
                    restarts: Map<AeronConfigModel, Result<F::Registration, String>>,
                |
                    #[trigger] before.worked(after, now, settlements, restarts) && before.all_told(
                        settlements,
                        completions,
                    );
                lemma_work(before, after, now, settlements, restarts, completions, client_id);
            }
        },
        PublisherCall::Other => {
            if before.client_groups@.contains_key(client_id) {
                assert(after.groups@.contains_key(key));
            }
            assert(after.waits(client_id) == before.waits(client_id));
        },
    }
}

/// What the work means for those who wait.
proof fn lemma_work<F: PublicationFactory>(
    before: AeronPublisher<F>,
    after: AeronPublisher<F>,
    now: u128,
    settlements: Map<AeronConfigModel, Settlement<F::Publication>>,
    restarts: Map<AeronConfigModel, Result<F::Registration, String>>,
    completions: Seq<JoinCompletion>,
    client_id: u64,
)
    requires
        before.wf(),
        before.worked(after, now, settlements, restarts),
        before.all_told(settlements, completions),
    ensures
        after.client_groups@.contains_key(client_id) == (before.client_groups@.contains_key(
            client_id,
        ) && !has_failure(completions, client_id)),
        after.waits(client_id) == (before.waits(client_id) && !has_client(completions, client_id)),
{
    let key = before.client_groups@[client_id]@;
    if before.client_groups@.contains_key(client_id) {
        assert(before.groups@.contains_key(key));
        assert(before.groups@[key].members@.contains(client_id));
    }
    if has_client(completions, client_id) {
        let i = choose|i: int|
            0 <= i < completions.len() && (#[trigger] completions[i]).client_id == client_id;
        assert(before.told_rightly(settlements, completions[i]));
        assert forall|j: int|
            0 <= j < completions.len() && (#[trigger] completions[j]).client_id
                == client_id implies j == i by {
            assert(completions[i].client_id == completions[j].client_id);
        }
        assert(has_failure(completions, client_id) == (completions[i].result is Err));
    }
    assert(before.told(settlements, client_id) == has_client(completions, client_id));
    assert(before.gone(settlements, client_id) == has_failure(completions, client_id));
    assert(after.client_groups@.contains_key(client_id) == (before.client_groups@.contains_key(
        client_id,
    ) && !before.gone(settlements, client_id)));
    if after.client_groups@.contains_key(client_id) {
        if settlements[key] is Failed && before.groups@[key].members@ == before.groups@[key].waiters@ {
            assert(before.gone(settlements, client_id));
        }
        assert(before.survives(settlements, key));
        assert(after.groups@.contains_key(key));
    }
}

/// A client waits exactly if it is owed a completion: it was told that its join is pending,
/// and has neither been told of a completion nor been removed since. Whatever else is
/// called in between changes nothing.
pub proof fn law_clients_wait_until_they_are_told<F: PublicationFactory>(
    states: Seq<AeronPublisher<F>>,
    calls: Seq<PublisherCall>,
    client_id: u64,
)
    requires
        states.len() == calls.len() + 1,
        states[0].client_groups@ == Map::<u64, StreamKey>::empty(),
        forall|i: int| 0 <= i < states.len() ==> (#[trigger] states[i]).wf(),
        forall|i: int|
            0 <= i < calls.len() ==> states[i].called(#[trigger] calls[i], states[i + 1]),
    ensures
        states.last().client_groups@.contains_key(client_id) == belongs(calls, client_id),
        states.last().waits(client_id) == is_owed(calls, client_id),
    decreases calls.len(),
{
    if calls.len() > 0 {
        let last = calls.len() - 1;
        let earlier = states.drop_last();
        let fewer = calls.drop_last();
        assert forall|i: int| 0 <= i < earlier.len() implies (#[trigger] earlier[i]).wf() by {
            assert(earlier[i] == states[i]);
        }
        assert forall|i: int| 0 <= i < fewer.len() implies earlier[i].called(
            #[trigger] fewer[i],
            earlier[i + 1],
        ) by {
            assert(fewer[i] == calls[i]);
        }
        law_clients_wait_until_they_are_told(earlier, fewer, client_id);
        assert(earlier.last() == states[last]);
        assert(states[last].wf());
        assert(states[last].called(calls[last], states[last + 1]));
        lemma_call(states[last], calls[last], states[last + 1], client_id);
    }
}

} // verus!
