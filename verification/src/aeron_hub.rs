//! Aeron broadcast groups that are shared between sessions, and the worker that owns their
//! publications.
use std::collections::VecDeque;
use vstd::prelude::*;
use vstd::slice::*;
use vstd::string::*;
use crate::aeron_publisher::PublicationOffer;
use crate::collections::{
    distinct, has_key, index_of, lemma_models_len, lemma_update_value, models, position, SameKey,
    VecMap, VecSet,
};
use crate::float64::Float64;
use crate::protocol::{
    AeronConfig, AeronConfigModel, ControlRequest, KeyModel, SubscriptionKey,
};
use crate::publication::Outlet;
use crate::routes::{
    change_subscriptions, changed, lemma_take_next, members_want, members_want_market, subscribed,
    subscribed_market, RouteModel, StreamKey,
};
use crate::text::{decimal, decimal_text, same_text};
use crate::worker_link::{may_join, may_send, CommandModel, WorkerLink};

pub use crate::worker_link::{SendOutcome, WorkerCommand};

verus! {

/// How many frames of one stream of a group are remembered.
pub const RECENT_FRAME_LIMIT: usize = 256;

/// The clients of one Aeron stream.
pub struct StreamGroup {
    pub members: VecSet<u64>,
}

/// One stream of market data within a group.
#[derive(Debug, PartialEq, Eq)]
pub struct FrameKey {
    pub group: StreamKey,
    pub id: i32,
    pub stream: String,
}

/// The contents of a [`FrameKey`].
#[verifier::ext_equal]
pub struct FrameKeyModel {
    pub group: AeronConfigModel,
    pub id: i32,
    pub stream: Seq<char>,
}

impl View for FrameKey {
    type V = FrameKeyModel;

    open spec fn view(&self) -> FrameKeyModel {
        FrameKeyModel { group: self.group@, id: self.id, stream: self.stream@ }
    }
}

impl SameKey for FrameKey {
    fn same(&self, other: &FrameKey) -> (same: bool) {
        self.id == other.id && self.stream == other.stream && self.group.same(&other.group)
    }
}

/// The bytes of several frames.
pub open spec fn frames(recent: VecDeque<Vec<u8>>) -> Seq<Seq<u8>> {
    Seq::new(recent@.len(), |i: int| recent@[i]@)
}

/// Who has joined which group, what they have subscribed to, and what was sent lately.
pub struct HubState {
    pub groups: VecMap<StreamKey, StreamGroup>,
    pub client_groups: VecMap<u64, StreamKey>,
    pub subscriptions: VecMap<u64, VecSet<SubscriptionKey>>,
    pub recent_frames: VecMap<FrameKey, VecDeque<Vec<u8>>>,
}

impl HubState {
    /// Every client belongs to the one group that lists it, and has its subscriptions;
    /// frames are remembered up to the limit, none twice.
    pub open spec fn wf(self) -> bool {
        &&& self.groups.wf()
        &&& self.client_groups.wf()
        &&& self.subscriptions.wf()
        &&& self.recent_frames.wf()
        &&& forall|key: AeronConfigModel| #[trigger]
            self.groups@.contains_key(key) ==> self.groups@[key].members.wf()
                && self.groups@[key].members.items@.len() > 0
        &&& forall|client: u64| #[trigger]
            self.client_groups@.contains_key(client) ==> self.groups@.contains_key(
                self.client_groups@[client]@,
            ) && self.groups@[self.client_groups@[client]@].members@.contains(client)
        &&& forall|key: AeronConfigModel, client: u64|
            self.groups@.contains_key(key) && #[trigger] self.groups@[key].members@.contains(client)
                ==> self.client_groups@.contains_key(client) && self.client_groups@[client]@ == key
        &&& forall|client: u64| #[trigger]
            self.subscriptions@.contains_key(client) <==> self.client_groups@.contains_key(client)
        &&& forall|client: u64| #[trigger]
            self.subscriptions@.contains_key(client) ==> self.subscriptions@[client].wf()
        &&& forall|key: FrameKeyModel| #[trigger]
            self.recent_frames@.contains_key(key) ==> frames(self.recent_frames@[key]).len()
                <= RECENT_FRAME_LIMIT && frames(self.recent_frames@[key]).no_duplicates()
    }

    /// The frames that are remembered, oldest first.
    pub open spec fn recent(self, key: FrameKeyModel) -> Seq<Seq<u8>> {
        if self.recent_frames@.contains_key(key) {
            frames(self.recent_frames@[key])
        } else {
            Seq::empty()
        }
    }

    /// A member of the group wants what the key names. The status of a market goes to
    /// everyone who follows any of its streams.
    pub open spec fn matches(self, group: AeronConfigModel, key: KeyModel) -> bool {
        &&& self.groups@.contains_key(group)
        &&& if key.stream == "market_status"@ {
            members_want_market(self.groups@[group].members@, self.subscriptions@, key.id)
        } else {
            members_want(
                self.groups@[group].members@,
                self.subscriptions@,
                RouteModel { id: key.id, stream: key.stream },
            )
        }
    }

    /// Nobody has joined.
    pub fn new() -> (state: HubState)
        ensures
            state.wf(),
            state.groups@ == Map::<AeronConfigModel, StreamGroup>::empty(),
            state.client_groups@ == Map::<u64, StreamKey>::empty(),
            forall|key: FrameKeyModel| #[trigger] state.recent(key) == Seq::<Seq<u8>>::empty(),
    {
        HubState {
            groups: VecMap::new(),
            client_groups: VecMap::new(),
            subscriptions: VecMap::new(),
            recent_frames: VecMap::new(),
        }
    }

    /// Lets a client join a group, which is opened for its first member.
    pub fn join(&mut self, client_id: u64, key: StreamKey)
        requires
            old(self).wf(),
            old(self).client_groups@.contains_key(client_id) ==> old(self).client_groups@[client_id]@ == key@,
        ensures
            final(self).wf(),
            final(self).groups@.remove(key@) == old(self).groups@.remove(key@),
            final(self).groups@.contains_key(key@),
            final(self).groups@[key@].members@ == (if old(self).groups@.contains_key(key@) {
                old(self).groups@[key@].members@.insert(client_id)
            } else {
                set![client_id]
            }),
            final(self).client_groups@.contains_key(client_id),
            final(self).client_groups@[client_id]@ == key@,
            final(self).client_groups@.remove(client_id) == old(self).client_groups@.remove(
                client_id,
            ),
            final(self).subscriptions@.remove(client_id) == old(self).subscriptions@.remove(
                client_id,
            ),
            final(self).subscriptions@[client_id]@ == (if old(self).subscriptions@.contains_key(
                client_id,
            ) {
                old(self).subscriptions@[client_id]@
            } else {
                Set::<KeyModel>::empty()
            }),
            final(self).recent_frames == old(self).recent_frames,
    {
        let ghost before = self.groups;
        match position(&self.groups.keys, &key) {
            Some(at) => {
                proof {
                    before.lemma_entry(at as int);
                    lemma_update_value(before, at as int);
                }
                self.groups.values[at].members.insert(client_id);
                proof {
                    let group = self.groups.values@[at as int];
                    assert(self.groups.values@ =~= before.values@.update(at as int, group));
                    assert(self.groups@ == before@.insert(key@, group));
                    assert(group.members@.contains(client_id));
                    assert(has_key(group.members.items@, client_id));
                }
            },
            None => {
                let members: VecSet<u64> = VecSet::of(client_id);
                proof {
                    assert(members@ =~= set![client_id]);
                    assert(members@.contains(client_id));
                    assert(has_key(members.items@, client_id));
                }
                self.groups.insert(key.clone(), StreamGroup { members });
            },
        }
        assert(self.groups@.remove(key@) =~= before@.remove(key@));
        self.client_groups.insert(client_id, key);
        assert(self.client_groups@.remove(client_id) =~= old(self).client_groups@.remove(client_id));
        if !self.subscriptions.contains_key(&client_id) {
            self.subscriptions.insert(client_id, VecSet::new());
        }
        assert(self.subscriptions@.remove(client_id) =~= old(self).subscriptions@.remove(client_id));
        proof {
            assert forall|other: AeronConfigModel, client: u64|
                self.groups@.contains_key(other) && #[trigger] self.groups@[other].members@.contains(
                    client,
                ) implies self.client_groups@.contains_key(client)
                && self.client_groups@[client]@ == other by {
                if client != client_id {
                    assert(old(self).groups@.contains_key(other));
                    assert(old(self).groups@[other].members@.contains(client));
                } else if other != key@ {
                    assert(old(self).groups@.contains_key(other));
                    assert(old(self).groups@[other].members@.contains(client));
                }
            }
        }
    }

    /// Changes the subscriptions of a client as a request asks. Clients that have not
    /// joined have none.
    pub fn apply(&mut self, client_id: u64, request: &ControlRequest)
        requires
            old(self).wf(),
        ensures
            final(self).wf(),
            !old(self).client_groups@.contains_key(client_id) ==> *final(self) == *old(self),
            old(self).client_groups@.contains_key(client_id) ==> {
                &&& final(self).subscriptions@ == old(self).subscriptions@.insert(
                    client_id,
                    final(self).subscriptions@[client_id],
                )
                &&& final(self).subscriptions@[client_id]@ == changed(
                    old(self).subscriptions@[client_id]@,
                    request@,
                )
            },
            final(self).groups == old(self).groups,
            final(self).client_groups == old(self).client_groups,
            final(self).recent_frames == old(self).recent_frames,
    {
        if !self.client_groups.contains_key(&client_id) {
            return;
        }
        match position(&self.subscriptions.keys, &client_id) {
            Some(at) => {
                let ghost before = self.subscriptions;
                proof {
                    before.lemma_entry(at as int);
                    lemma_update_value(before, at as int);
                }
                change_subscriptions(&mut self.subscriptions.values[at], request);
                proof {
                    let now = self.subscriptions.values@[at as int];
                    assert(self.subscriptions.values@ =~= before.values@.update(at as int, now));
                    assert(self.subscriptions@ == before@.insert(client_id, now));
                }
            },
            None => {
                assert(self.subscriptions@.contains_key(client_id));
            },
        }
    }

    /// The groups that a frame goes to, each once.
    pub fn matching_groups(&self, key: &SubscriptionKey) -> (groups: Vec<StreamKey>)
        requires
            self.wf(),
        ensures
            distinct(groups@),
            forall|group: AeronConfigModel| #[trigger]
                has_key(groups@, group) <==> self.matches(group, key@),
    {
        let any_stream: bool = same_text(key.stream.as_str(), "market_status");
        let mut groups: Vec<StreamKey> = Vec::new();
        let mut i: usize = 0;
        while i < self.groups.keys.len()
            invariant
                self.wf(),
                any_stream == (key.stream@ == "market_status"@),
                i <= self.groups.keys@.len(),
                distinct(groups@),
                forall|group: AeronConfigModel| #[trigger]
                    has_key(groups@, group) <==> self.matches(group, key@) && has_key(
                        self.groups.keys@.take(i as int),
                        group,
                    ),
            decreases self.groups.keys@.len() - i,
        {
            let ghost earlier = groups@;
            let ghost at = self.groups.keys@[i as int]@;
            proof {
                self.groups.lemma_entry(i as int);
            }
            let wanted: bool = self.some_member_wants(
                &self.groups.values[i].members,
                key,
                any_stream,
            );
            proof {
                assert(wanted == self.matches(at, key@));
                assert(!has_key(self.groups.keys@.take(i as int), at)) by {
                    if has_key(self.groups.keys@.take(i as int), at) {
                        let j = index_of(self.groups.keys@.take(i as int), at);
                        assert(self.groups.keys@[j]@ == at);
                    }
                }
            }
            if wanted {
                groups.push(self.groups.keys[i].clone());
            }
            proof {
                assert forall|group: AeronConfigModel| #[trigger]
                    has_key(groups@, group) <==> self.matches(group, key@) && has_key(
                        self.groups.keys@.take(i + 1),
                        group,
                    ) by {
                    lemma_take_next(self.groups.keys@, i as int, group);
                    assert(has_key(earlier, group) <==> self.matches(group, key@) && has_key(
                        self.groups.keys@.take(i as int),
                        group,
                    ));
                    if wanted {
                        assert(groups@.take(earlier.len() as int) =~= earlier);
                        assert(groups@.take(earlier.len() as int + 1) =~= groups@);
                        lemma_take_next(groups@, earlier.len() as int, group);
                    }
                }
                assert(distinct(groups@)) by {
                    assert(!has_key(earlier, at));
                    assert forall|m: int, n: int| 0 <= m < n < groups@.len() implies (
                    #[trigger] groups@[m])@ != (#[trigger] groups@[n])@ by {
                        assert(groups@[m] == earlier[m]);
                        assert(has_key(earlier, earlier[m]@));
                        if n < earlier.len() {
                            assert(groups@[n] == earlier[n]);
                        }
                    }
                }
            }
            i += 1;
        }
        proof {
            assert(self.groups.keys@.take(i as int) =~= self.groups.keys@);
            assert forall|group: AeronConfigModel| #[trigger]
                has_key(groups@, group) <==> self.matches(group, key@) by {
                assert(self.groups@.contains_key(group) == has_key(self.groups.keys@, group));
            }
        }
        groups
    }

    /// Whether some member wants what the key names.
    fn some_member_wants(&self, members: &VecSet<u64>, key: &SubscriptionKey, any_stream: bool) -> (
    wanted: bool)
        requires
            self.wf(),
        ensures
            wanted == if any_stream {
                members_want_market(members@, self.subscriptions@, key.id)
            } else {
                members_want(
                    members@,
                    self.subscriptions@,
                    RouteModel { id: key.id, stream: key.stream@ },
                )
            },
    {
        let ghost route = RouteModel { id: key.id, stream: key.stream@ };
        let items: &Vec<u64> = &members.items;
        let mut i: usize = 0;
        while i < items.len()
            invariant
                self.wf(),
                items == &members.items,
                route == (RouteModel { id: key.id, stream: key.stream@ }),
                i <= items@.len(),
                forall|j: int|
                    0 <= j < i && self.subscriptions@.contains_key(#[trigger] items@[j]) ==> !(
                    if any_stream {
                        subscribed_market(self.subscriptions@[items@[j]]@, key.id)
                    } else {
                        subscribed(self.subscriptions@[items@[j]]@, route)
                    }),
            decreases items@.len() - i,
        {
            if let Some(wants) = self.subscriptions.get(&items[i]) {
                if wants_any(wants, key, any_stream) {
                    proof {
                        let client = items@[i as int];
                        assert(has_key(items@, client));
                        assert(members@.contains(client));
                    }
                    return true;
                }
            }
            i += 1;
        }
        proof {
            if any_stream && members_want_market(members@, self.subscriptions@, key.id) {
                let client = choose|client: u64| #[trigger]
                    members@.contains(client) && self.subscriptions@.contains_key(client)
                        && subscribed_market(self.subscriptions@[client]@, key.id);
                assert(items@[index_of(items@, client)]@ == client);
            }
            if !any_stream && members_want(members@, self.subscriptions@, route) {
                let client = choose|client: u64| #[trigger]
                    members@.contains(client) && self.subscriptions@.contains_key(client)
                        && subscribed(self.subscriptions@[client]@, route);
                assert(items@[index_of(items@, client)]@ == client);
            }
        }
        false
    }

    /// Lets a client go. The stream of its group is given back when the last member has
    /// left; nothing that was sent on it is remembered any longer.
    pub fn disconnect(&mut self, client_id: u64) -> (closed: Option<StreamKey>)
        requires
            old(self).wf(),
        ensures
            final(self).wf(),
            !old(self).client_groups@.contains_key(client_id) ==> closed is None && *final(self)
                == *old(self),
            old(self).client_groups@.contains_key(client_id) ==> {
                let key = old(self).client_groups@[client_id]@;
                let last = old(self).groups@[key].members@ == set![client_id];
                &&& closed is Some <==> last
                &&& last ==> closed->0@ == key
                &&& final(self).client_groups@ == old(self).client_groups@.remove(client_id)
                &&& final(self).subscriptions@ == old(self).subscriptions@.remove(client_id)
                &&& final(self).groups@.remove(key) == old(self).groups@.remove(key)
                &&& final(self).groups@.contains_key(key) <==> !last
                &&& !last ==> final(self).groups@[key].members@
                    == old(self).groups@[key].members@.remove(client_id)
                &&& forall|frame: FrameKeyModel| #[trigger]
                    final(self).recent(frame) == if last && frame.group == key {
                        Seq::<Seq<u8>>::empty()
                    } else {
                        old(self).recent(frame)
                    }
            },
    {
        if !self.client_groups.contains_key(&client_id) {
            return None;
        }
        self.subscriptions.remove(&client_id);
        let removed: Option<StreamKey> = self.client_groups.remove(&client_id);
        let key: StreamKey = match removed {
            Some(key) => key,
            None => {
                return None;
            },
        };
        let ghost before = self.groups;
        assert(before@.contains_key(key@));
        match position(&self.groups.keys, &key) {
            Some(at) => {
                proof {
                    before.lemma_entry(at as int);
                    lemma_update_value(before, at as int);
                }
                self.groups.values[at].members.remove(&client_id);
                proof {
                    let group = self.groups.values@[at as int];
                    let members = before@[key@].members@;
                    assert(self.groups.values@ =~= before.values@.update(at as int, group));
                    assert(self.groups@ == before@.insert(key@, group));
                    if group.members.items@.len() == 0 {
                        assert(group.members@ =~= Set::<u64>::empty());
                        assert(members =~= members.remove(client_id).insert(client_id));
                        assert(members =~= set![client_id]);
                    } else {
                        let other = group.members.items@[0];
                        assert(has_key(group.members.items@, other));
                        assert(group.members@.contains(other));
                        assert(members != set![client_id]);
                    }
                    assert(self.groups@.remove(key@) =~= before@.remove(key@));
                }
                if self.groups.values[at].members.items.len() > 0 {
                    return None;
                }
                self.groups.remove(&key);
                assert(self.groups@ =~= before@.remove(key@));
            },
            None => {
                return None;
            },
        }
        self.forget_group(&key);
        Some(key)
    }

    /// Forgets what was sent to a group.
    fn forget_group(&mut self, key: &StreamKey)
        requires
            old(self).recent_frames.wf(),
        ensures
            final(self).recent_frames.wf(),
            forall|frame: FrameKeyModel| #[trigger]
                final(self).recent_frames@.contains_key(frame)
                    <==> old(self).recent_frames@.contains_key(frame) && frame.group != key@,
            forall|frame: FrameKeyModel| #[trigger]
                final(self).recent_frames@.contains_key(frame)
                    ==> final(self).recent_frames@[frame] == old(self).recent_frames@[frame],
            final(self).groups == old(self).groups,
            final(self).client_groups == old(self).client_groups,
            final(self).subscriptions == old(self).subscriptions,
    {
        let ghost before = self.recent_frames@;
        let mut i: usize = 0;
        while i < self.recent_frames.keys.len()
            invariant
                before == old(self).recent_frames@,
                self.recent_frames.wf(),
                i <= self.recent_frames.keys@.len(),
                forall|frame: FrameKeyModel| #[trigger]
                    self.recent_frames@.contains_key(frame) ==> before.contains_key(frame)
                        && self.recent_frames@[frame] == before[frame],
                forall|frame: FrameKeyModel|
                    before.contains_key(frame) && frame.group != key@
                        ==> #[trigger] self.recent_frames@.contains_key(frame),
                forall|j: int|
                    0 <= j < i ==> (#[trigger] self.recent_frames.keys@[j])@.group != key@,
                self.groups == old(self).groups,
                self.client_groups == old(self).client_groups,
                self.subscriptions == old(self).subscriptions,
            decreases self.recent_frames.keys@.len() - i,
        {
            let ghost earlier = self.recent_frames;
            if self.recent_frames.keys[i].group.same(key) {
                self.recent_frames.remove_at(i);
                proof {
                    assert forall|frame: FrameKeyModel| #[trigger]
                        self.recent_frames@.contains_key(frame) implies before.contains_key(frame)
                        && self.recent_frames@[frame] == before[frame] by {
                        assert(earlier@.contains_key(frame));
                    }
                    assert forall|frame: FrameKeyModel|
                        before.contains_key(frame) && frame.group
                            != key@ implies #[trigger] self.recent_frames@.contains_key(frame) by {
                        assert(earlier@.contains_key(frame));
                    }
                    assert forall|j: int| 0 <= j < i implies (
                    #[trigger] self.recent_frames.keys@[j])@.group != key@ by {
                        assert(self.recent_frames.keys@[j] == earlier.keys@[j]);
                    }
                }
            } else {
                i += 1;
            }
        }
        proof {
            assert forall|frame: FrameKeyModel| #[trigger]
                self.recent_frames@.contains_key(frame) implies frame.group != key@ by {
                let at = self.recent_frames.lemma_position(frame);
                assert(self.recent_frames.keys@[at]@ == frame);
            }
        }
    }

    /// Remembers a frame of a group, unless it is remembered already. The oldest of too
    /// many is forgotten.
    pub fn record_if_new(&mut self, stream_key: &StreamKey, key: &SubscriptionKey, bytes: &[u8])
        -> (new: bool)
        requires
            old(self).wf(),
        ensures
            final(self).wf(),
            final(self).groups == old(self).groups,
            final(self).client_groups == old(self).client_groups,
            final(self).subscriptions == old(self).subscriptions,
            ({
                let own = FrameKeyModel { group: stream_key@, id: key.id, stream: key.stream@ };
                &&& new == !old(self).recent(own).contains(bytes@)
                &&& forall|frame: FrameKeyModel| #[trigger]
                    final(self).recent(frame) == if frame == own && new {
                        remembered(old(self).recent(own), bytes@)
                    } else {
                        old(self).recent(frame)
                    }
            }),
    {
        let frame_key = FrameKey {
            group: stream_key.clone(),
            id: key.id,
            stream: key.stream.clone(),
        };
        let ghost own = frame_key@;
        let ghost before = *self;
        match position(&self.recent_frames.keys, &frame_key) {
            Some(at) => {
                proof {
                    before.recent_frames.lemma_entry(at as int);
                    lemma_update_value(before.recent_frames, at as int);
                }
                if remembers(&self.recent_frames.values[at], bytes) {
                    return false;
                }
                remember(&mut self.recent_frames.values[at], bytes);
                proof {
                    let now = self.recent_frames.values@[at as int];
                    assert(self.recent_frames.values@ =~= before.recent_frames.values@.update(
                        at as int,
                        now,
                    ));
                    assert(self.recent_frames@ == before.recent_frames@.insert(own, now));
                    assert(before.recent_frames@.contains_key(own));
                }
            },
            None => {
                let mut recent: VecDeque<Vec<u8>> = VecDeque::new();
                assert(frames(recent) =~= Seq::<Seq<u8>>::empty());
                remember(&mut recent, bytes);
                self.recent_frames.insert(frame_key, recent);
            },
        }
        true
    }
}

/// The remembered frames after one more.
pub open spec fn remembered(recent: Seq<Seq<u8>>, bytes: Seq<u8>) -> Seq<Seq<u8>> {
    if recent.len() == RECENT_FRAME_LIMIT {
        recent.drop_first().push(bytes)
    } else {
        recent.push(bytes)
    }
}

/// Whether two byte strings are the same.
fn same_bytes(left: &[u8], right: &[u8]) -> (same: bool)
    ensures
        same == (left@ == right@),
{
    if left.len() != right.len() {
        return false;
    }
    let mut i: usize = 0;
    while i < left.len()
        invariant
            left@.len() == right@.len(),
            i <= left@.len(),
            forall|j: int| 0 <= j < i ==> left@[j] == right@[j],
        decreases left@.len() - i,
    {
        if left[i] != right[i] {
            assert(left@[i as int] != right@[i as int]);
            return false;
        }
        i += 1;
    }
    assert(left@ =~= right@);
    true
}

/// Whether a frame is remembered.
fn remembers(recent: &VecDeque<Vec<u8>>, bytes: &[u8]) -> (held: bool)
    ensures
        held == frames(*recent).contains(bytes@),
{
    let mut i: usize = 0;
    while i < recent.len()
        invariant
            i <= recent@.len(),
            forall|j: int| 0 <= j < i ==> #[trigger] frames(*recent)[j] != bytes@,
        decreases recent@.len() - i,
    {
        if same_bytes(recent[i].as_slice(), bytes) {
            assert(frames(*recent)[i as int] == bytes@);
            return true;
        }
        assert(frames(*recent)[i as int] != bytes@);
        i += 1;
    }
    false
}

/// Remembers one more frame.
fn remember(recent: &mut VecDeque<Vec<u8>>, bytes: &[u8])
    requires
        frames(*old(recent)).len() <= RECENT_FRAME_LIMIT,
        frames(*old(recent)).no_duplicates(),
        !frames(*old(recent)).contains(bytes@),
    ensures
        frames(*final(recent)) == remembered(frames(*old(recent)), bytes@),
        frames(*final(recent)).len() <= RECENT_FRAME_LIMIT,
        frames(*final(recent)).no_duplicates(),
{
    let ghost before = frames(*recent);
    if recent.len() == RECENT_FRAME_LIMIT {
        recent.pop_front();
        assert(frames(*recent) =~= before.drop_first());
    }
    let ghost kept = frames(*recent);
    recent.push_back(slice_to_vec(bytes));
    proof {
        assert(frames(*recent) =~= kept.push(bytes@));
        assert forall|i: int, j: int|
            0 <= i < kept.push(bytes@).len() && 0 <= j < kept.push(bytes@).len() && i
                != j implies kept.push(bytes@)[i] != kept.push(bytes@)[j] by {
            let shift = before.len() - kept.len();
            if i < kept.len() {
                assert(kept[i] == before[i + shift]);
                assert(before.contains(before[i + shift]));
            }
            if j < kept.len() {
                assert(kept[j] == before[j + shift]);
                assert(before.contains(before[j + shift]));
            }
        }
    }
}

/// Whether some subscription is to what the key names.
fn wants_any(wants: &VecSet<SubscriptionKey>, key: &SubscriptionKey, any_stream: bool) -> (wanted:
    bool)
    ensures
        wanted == if any_stream {
            subscribed_market(wants@, key.id)
        } else {
            subscribed(wants@, RouteModel { id: key.id, stream: key.stream@ })
        },
{
    let items: &Vec<SubscriptionKey> = &wants.items;
    let mut i: usize = 0;
    while i < items.len()
        invariant
            items == &wants.items,
            i <= items@.len(),
            forall|j: int|
                0 <= j < i ==> !((#[trigger] items@[j])@.id == key.id && (any_stream
                    || items@[j]@.stream == key.stream@)),
        decreases items@.len() - i,
    {
        if items[i].id == key.id && (any_stream || items[i].stream == key.stream) {
            proof {
                let found = items@[i as int]@;
                assert(has_key(items@, found));
                assert(wants@.contains(found));
            }
            return true;
        }
        i += 1;
    }
    proof {
        let route = RouteModel { id: key.id, stream: key.stream@ };
        if any_stream && subscribed_market(wants@, key.id) {
            let found = choose|found: KeyModel| #[trigger]
                wants@.contains(found) && found.id == key.id;
            assert(items@[index_of(items@, found)]@ == found);
        }
        if !any_stream && subscribed(wants@, route) {
            let found = choose|found: KeyModel| #[trigger]
                wants@.contains(found) && found.routes(route.id, route.stream);
            assert(items@[index_of(items@, found)]@ == found);
        }
    }
    false
}

/// The noise threshold that satisfies everyone who wants a stream.
#[derive(Debug, Clone, Copy, PartialEq, Eq, Structural)]
pub enum LowestThreshold {
    /// Nobody wants the stream.
    Nobody,
    /// Someone wants every frame.
    Unfiltered,
    /// The lowest of the thresholds.
    At(Float64),
}

/// The lowest threshold of several wishes, where `None` is the wish for every frame.
pub open spec fn is_lowest(wishes: Set<Option<Float64>>, lowest: LowestThreshold) -> bool {
    match lowest {
        LowestThreshold::Nobody => forall|wish: Option<Float64>| !wishes.contains(wish),
        LowestThreshold::Unfiltered => wishes.contains(None),
        LowestThreshold::At(threshold) => {
            &&& !wishes.contains(None)
            &&& wishes.contains(Some(threshold))
            &&& forall|other: Float64| #[trigger]
                wishes.contains(Some(other)) ==> !other.num_lt(threshold) && (threshold.nan()
                    ==> other.nan())
        },
    }
}

/// The wishes for a route among the first subscriptions.
spec fn wishes_among(
    items: Seq<SubscriptionKey>,
    count: int,
    route: RouteModel,
) -> Set<Option<Float64>> {
    Set::new(
        |wish: Option<Float64>|
            exists|i: int|
                0 <= i < count && (#[trigger] items[i])@.routes(route.id, route.stream)
                    && items[i]@.threshold() == wish,
    )
}

/// The wishes for a route.
pub open spec fn wishes(subscriptions: Set<KeyModel>, route: RouteModel) -> Set<Option<Float64>> {
    Set::new(
        |wish: Option<Float64>|
            exists|key: KeyModel| #[trigger]
                subscriptions.contains(key) && key.routes(route.id, route.stream)
                    && key.threshold() == wish,
    )
}

/// The lowest threshold after one more wish.
fn lower(lowest: LowestThreshold, wish: Option<Float64>, Ghost(wishes): Ghost<Set<Option<Float64>>>)
    -> (lower: LowestThreshold)
    requires
        is_lowest(wishes, lowest),
    ensures
        is_lowest(wishes.insert(wish), lower),
{
    match (lowest, wish) {
        (LowestThreshold::Unfiltered, _) => LowestThreshold::Unfiltered,
        (_, None) => LowestThreshold::Unfiltered,
        (LowestThreshold::Nobody, Some(threshold)) => LowestThreshold::At(threshold),
        (LowestThreshold::At(current), Some(threshold)) => {
            LowestThreshold::At(current.lesser(&threshold))
        },
    }
}

/// The lowest threshold after the wishes of one more client.
fn lower_all(
    lowest: LowestThreshold,
    wants: &VecSet<SubscriptionKey>,
    id: i32,
    stream: &str,
    Ghost(before): Ghost<Set<Option<Float64>>>,
) -> (lower_still: LowestThreshold)
    requires
        is_lowest(before, lowest),
    ensures
        is_lowest(before.union(wishes(wants@, RouteModel { id, stream: stream@ })), lower_still),
{
    let ghost route = RouteModel { id, stream: stream@ };
    let items: &Vec<SubscriptionKey> = &wants.items;
    let mut lowest: LowestThreshold = lowest;
    let mut i: usize = 0;
    assert(before.union(wishes_among(items@, 0, route)) =~= before);
    while i < items.len()
        invariant
            i <= items@.len(),
            route == (RouteModel { id, stream: stream@ }),
            is_lowest(before.union(wishes_among(items@, i as int, route)), lowest),
        decreases items@.len() - i,
    {
        let ghost known = before.union(wishes_among(items@, i as int, route));
        let ghost next = before.union(wishes_among(items@, i + 1, route));
        let item: &SubscriptionKey = &items[i];
        let ghost named = item@;
        proof {
            assert forall|wish: Option<Float64>| #[trigger]
                next.contains(wish) == (known.contains(wish) || (named.routes(
                    route.id,
                    route.stream,
                ) && wish == named.threshold())) by {
                if known.contains(wish) && !before.contains(wish) {
                    let j = choose|j: int|
                        0 <= j < i && (#[trigger] items@[j])@.routes(route.id, route.stream)
                            && items@[j]@.threshold() == wish;
                    assert(items@[j]@.routes(route.id, route.stream));
                }
                if named.routes(route.id, route.stream) && wish == named.threshold() {
                    assert(items@[i as int]@.routes(route.id, route.stream));
                }
            }
        }
        if item.id == id && same_text(item.stream.as_str(), stream) {
            let wish: Option<Float64> = item.noise_filter_bps();
            lowest = lower(lowest, wish, Ghost(known));
            assert(next =~= known.insert(wish));
        } else {
            assert(next =~= known);
        }
        i += 1;
    }
    proof {
        assert forall|wish: Option<Float64>| #[trigger]
            wishes_among(items@, i as int, route).contains(wish) == wishes(
                wants@,
                route,
            ).contains(wish) by {
            if wishes_among(items@, i as int, route).contains(wish) {
                let j = choose|j: int|
                    0 <= j < i && (#[trigger] items@[j])@.routes(route.id, route.stream)
                        && items@[j]@.threshold() == wish;
                assert(has_key(items@, items@[j]@));
                assert(wants@.contains(items@[j]@));
            }
            if wishes(wants@, route).contains(wish) {
                let key = choose|key: KeyModel| #[trigger]
                    wants@.contains(key) && key.routes(route.id, route.stream) && key.threshold()
                        == wish;
                assert(items@[index_of(items@, key)]@ == key);
            }
        }
        assert(wishes_among(items@, i as int, route) =~= wishes(wants@, route));
    }
    lowest
}

impl HubState {
    /// The wishes of a group for a route.
    pub open spec fn group_wishes(self, group: AeronConfigModel, route: RouteModel) -> Set<
        Option<Float64>,
    > {
        Set::new(
            |wish: Option<Float64>|
                self.groups@.contains_key(group) && exists|client: u64| #[trigger]
                    self.groups@[group].members@.contains(client) && wishes(
                        self.subscriptions@[client]@,
                        route,
                    ).contains(wish),
        )
    }

    spec fn wishes_of(self, members: Seq<u64>, count: int, route: RouteModel) -> Set<
        Option<Float64>,
    > {
        Set::new(
            |wish: Option<Float64>|
                exists|i: int|
                    0 <= i < count && wishes(
                        self.subscriptions@[#[trigger] members[i]]@,
                        route,
                    ).contains(wish),
        )
    }

    /// The threshold at which a group has to be served: `None` where no member wants the
    /// stream, `Some(None)` where at least one member wants every frame, and else the
    /// lowest of the thresholds.
    pub fn effective_noise_filter(&self, group_key: &StreamKey, id: i32, stream: &str) -> (filter:
        Option<Option<Float64>>)
        requires
            self.wf(),
        ensures
            is_lowest(
                self.group_wishes(group_key@, RouteModel { id, stream: stream@ }),
                match filter {
                    None => LowestThreshold::Nobody,
                    Some(None) => LowestThreshold::Unfiltered,
                    Some(Some(threshold)) => LowestThreshold::At(threshold),
                },
            ),
    {
        let ghost route = RouteModel { id, stream: stream@ };
        let group: &StreamGroup = match self.groups.get(group_key) {
            Some(group) => group,
            None => {
                return None;
            },
        };
        let members: &Vec<u64> = &group.members.items;
        let mut lowest: LowestThreshold = LowestThreshold::Nobody;
        let mut i: usize = 0;
        while i < members.len()
            invariant
                self.wf(),
                self.groups@.contains_key(group_key@),
                *group == self.groups@[group_key@],
                members == &group.members.items,
                route == (RouteModel { id, stream: stream@ }),
                i <= members@.len(),
                is_lowest(self.wishes_of(members@, i as int, route), lowest),
            decreases members@.len() - i,
        {
            let ghost known = self.wishes_of(members@, i as int, route);
            let ghost client = members@[i as int];
            proof {
                assert(has_key(members@, client));
                assert(group.members@.contains(client));
                assert(self.subscriptions@.contains_key(client));
            }
            if let Some(wants) = self.subscriptions.get(&members[i]) {
                lowest = lower_all(lowest, wants, id, stream, Ghost(known));
                proof {
                    assert forall|wish: Option<Float64>| #[trigger]
                        self.wishes_of(members@, i + 1, route).contains(wish) == known.union(
                            wishes(wants@, route),
                        ).contains(wish) by {
                        if known.contains(wish) {
                            let j = choose|j: int|
                                0 <= j < i && wishes(
                                    self.subscriptions@[#[trigger] members@[j]]@,
                                    route,
                                ).contains(wish);
                            assert(wishes(
                                self.subscriptions@[members@[j]]@,
                                route,
                            ).contains(wish));
                        }
                        if wishes(wants@, route).contains(wish) {
                            assert(wishes(
                                self.subscriptions@[members@[i as int]]@,
                                route,
                            ).contains(wish));
                        }
                    }
                    assert(self.wishes_of(members@, i + 1, route) =~= known.union(
                        wishes(wants@, route),
                    ));
                }
            }
            i += 1;
        }
        proof {
            assert forall|wish: Option<Float64>| #[trigger]
                self.wishes_of(members@, i as int, route).contains(wish) == self.group_wishes(
                    group_key@,
                    route,
                ).contains(wish) by {
                if self.wishes_of(members@, i as int, route).contains(wish) {
                    let j = choose|j: int|
                        0 <= j < i && wishes(
                            self.subscriptions@[#[trigger] members@[j]]@,
                            route,
                        ).contains(wish);
                    assert(has_key(members@, members@[j]));
                    assert(self.groups@[group_key@].members@.contains(members@[j]));
                }
                if self.group_wishes(group_key@, route).contains(wish) {
                    let client = choose|client: u64| #[trigger]
                        self.groups@[group_key@].members@.contains(client) && wishes(
                            self.subscriptions@[client]@,
                            route,
                        ).contains(wish);
                    assert(members@[index_of(members@, client)]@ == client);
                }
            }
            assert(self.wishes_of(members@, i as int, route) =~= self.group_wishes(
                group_key@,
                route,
            ));
        }
        match lowest {
            LowestThreshold::Nobody => None,
            LowestThreshold::Unfiltered => Some(None),
            LowestThreshold::At(threshold) => Some(Some(threshold)),
        }
    }
}

/// A frame that was sent lately is not sent again, whatever else was sent in between, as
/// long as the limit of remembered frames is not reached.
pub proof fn law_sent_frames_are_remembered(
    recent: Seq<Seq<u8>>,
    bytes: Seq<u8>,
    other: Seq<u8>,
)
    ensures
        remembered(recent, bytes).contains(bytes),
        recent.len() < RECENT_FRAME_LIMIT && recent.contains(bytes) ==> remembered(
            recent,
            other,
        ).contains(bytes),
{
    let after = remembered(recent, bytes);
    assert(after[after.len() - 1] == bytes);
    if recent.len() < RECENT_FRAME_LIMIT && recent.contains(bytes) {
        let i = choose|i: int| 0 <= i < recent.len() && recent[i] == bytes;
        assert(remembered(recent, other)[i] == bytes);
    }
}

/// A group is served at a threshold that no member's own threshold is below, and without a
/// threshold as soon as one member wants every frame.
pub proof fn law_groups_are_served_at_the_lowest_threshold(
    state: HubState,
    group: AeronConfigModel,
    client: u64,
    key: KeyModel,
    lowest: LowestThreshold,
)
    requires
        state.groups@.contains_key(group),
        state.groups@[group].members@.contains(client),
        state.subscriptions@[client]@.contains(key),
        is_lowest(
            state.group_wishes(group, RouteModel { id: key.id, stream: key.stream }),
            lowest,
        ),
    ensures
        !(lowest is Nobody),
        key.threshold() is None ==> lowest is Unfiltered,
        lowest matches LowestThreshold::At(threshold) ==> !key.threshold()->0.num_lt(threshold),
{
    let route = RouteModel { id: key.id, stream: key.stream };
    assert(key.routes(route.id, route.stream));
    assert(wishes(state.subscriptions@[client]@, route).contains(key.threshold()));
    assert(state.group_wishes(group, route).contains(key.threshold()));
}

/// What went wrong with a hub.
#[derive(Debug, PartialEq, Eq)]
pub enum HubError {
    Disabled,
    AnotherStream { client_id: u64 },
    WorkerStopped,
    ReplyDropped,
    Publication { message: String },
    QueueFull,
}

impl HubError {
    /// The text that a client is shown.
    pub open spec fn text(self) -> Seq<char> {
        match self {
            HubError::Disabled => "Aeron support is disabled"@,
            HubError::AnotherStream { client_id } => "client "@ + decimal(client_id as nat)
                + " has already selected another Aeron stream"@,
            HubError::WorkerStopped => "Aeron publisher thread stopped"@,
            HubError::ReplyDropped => "Aeron publisher thread dropped join reply"@,
            HubError::Publication { message } => message@,
            HubError::QueueFull => "Aeron publisher queue is full"@,
        }
    }

    /// The text that a client is shown.
    pub fn message(&self) -> (message: String)
        ensures
            message@ == self.text(),
    {
        match self {
            HubError::Disabled => "Aeron support is disabled".to_owned(),
            HubError::AnotherStream { client_id } => {
                let mut text: String = "client ".to_owned();
                let digits: String = decimal_text(*client_id);
                text.append(digits.as_str());
                text.append(" has already selected another Aeron stream");
                text
            },
            HubError::WorkerStopped => "Aeron publisher thread stopped".to_owned(),
            HubError::ReplyDropped => "Aeron publisher thread dropped join reply".to_owned(),
            HubError::Publication { message } => message.clone(),
            HubError::QueueFull => "Aeron publisher queue is full".to_owned(),
        }
    }
}

/// Aeron broadcast groups that are shared between sessions.
///
/// A frame is offered once per group that wants it, however many members of the group do.
/// Clients have subscriptions of their own and discard what only others have asked for.
pub struct AeronStreamHub {
    pub enabled: bool,
    pub state: HubState,
    pub worker: Option<WorkerLink>,
}

/// What a hub makes of the outcome of handing a frame for so many groups to the worker.
pub open spec fn concluded(
    delivered: nat,
    outcome: SendOutcome,
    result: Result<usize, HubError>,
) -> bool {
    match outcome {
        SendOutcome::Sent => result matches Ok(count) && count == delivered,
        SendOutcome::Full => result == Err::<usize, _>(HubError::QueueFull),
        SendOutcome::Stopped => result == Err::<usize, _>(HubError::WorkerStopped),
    }
}

/// What a hub makes of the worker's answer to a join; `sent` says whether the worker was
/// there to be asked.
pub open spec fn join_result(sent: bool, reply: Option<Result<(), String>>) -> Result<(), HubError> {
    if !sent {
        Err(HubError::WorkerStopped)
    } else {
        match reply {
            None => Err(HubError::ReplyDropped),
            Some(Err(message)) => Err(HubError::Publication { message }),
            Some(Ok(())) => Ok(()),
        }
    }
}

/// What a hub makes of the outcome of handing a frame to the worker.
pub fn conclude_publish(delivered: usize, outcome: SendOutcome) -> (result: Result<usize, HubError>)
    ensures
        concluded(delivered as nat, outcome, result),
{
    match outcome {
        SendOutcome::Sent => Ok(delivered),
        SendOutcome::Full => Err(HubError::QueueFull),
        SendOutcome::Stopped => Err(HubError::WorkerStopped),
    }
}

/// What a hub makes of the worker's answer to a join.
pub fn conclude_join(sent: bool, reply: Option<Result<(), String>>) -> (result: Result<
    (),
    HubError,
>)
    ensures
        result == join_result(sent, reply),
{
    if !sent {
        return Err(HubError::WorkerStopped);
    }
    match reply {
        None => Err(HubError::ReplyDropped),
        Some(Err(message)) => Err(HubError::Publication { message }),
        Some(Ok(())) => Ok(()),
    }
}

impl HubState {
    /// The groups that want a frame and have not been sent it lately.
    pub open spec fn fresh_groups(self, key: KeyModel, bytes: Seq<u8>) -> Set<AeronConfigModel> {
        Set::new(
            |group: AeronConfigModel|
                self.matches(group, key) && !self.recent(
                    FrameKeyModel { group, id: key.id, stream: key.stream },
                ).contains(bytes),
        )
    }

    /// A frame was remembered for the groups that it is sent to.
    pub open spec fn took_frame(self, after: HubState, key: KeyModel, bytes: Seq<u8>) -> bool {
        &&& after.groups == self.groups
        &&& after.client_groups == self.client_groups
        &&& after.subscriptions == self.subscriptions
        &&& forall|frame: FrameKeyModel| #[trigger]
            after.recent(frame) == if frame.id == key.id && frame.stream == key.stream
                && self.fresh_groups(key, bytes).contains(frame.group) {
                remembered(self.recent(frame), bytes)
            } else {
                self.recent(frame)
            }
    }

    /// The groups that a frame is to be sent to: each that wants it and has not been sent
    /// it lately, once.
    pub fn take_frame(&mut self, key: &SubscriptionKey, bytes: &[u8]) -> (groups: Vec<StreamKey>)
        requires
            old(self).wf(),
        ensures
            final(self).wf(),
            old(self).took_frame(*final(self), key@, bytes@),
            distinct(groups@),
            models(groups@) == old(self).fresh_groups(key@, bytes@),
            groups@.len() == old(self).fresh_groups(key@, bytes@).len(),
    {
        let ghost start = *self;
        let matching: Vec<StreamKey> = self.matching_groups(key);
        let mut groups: Vec<StreamKey> = Vec::new();
        let mut i: usize = 0;
        while i < matching.len()
            invariant
                start == *old(self),
                self.wf(),
                i <= matching@.len(),
                distinct(matching@),
                forall|group: AeronConfigModel| #[trigger]
                    has_key(matching@, group) <==> start.matches(group, key@),
                self.groups == start.groups,
                self.client_groups == start.client_groups,
                self.subscriptions == start.subscriptions,
                forall|frame: FrameKeyModel| #[trigger]
                    self.recent(frame) == if frame.id == key.id && frame.stream == key.stream@
                        && start.fresh_groups(key@, bytes@).contains(frame.group) && has_key(
                        matching@.take(i as int),
                        frame.group,
                    ) {
                        remembered(start.recent(frame), bytes@)
                    } else {
                        start.recent(frame)
                    },
                distinct(groups@),
                forall|group: AeronConfigModel| #[trigger]
                    has_key(groups@, group) <==> start.fresh_groups(key@, bytes@).contains(group)
                        && has_key(matching@.take(i as int), group),
            decreases matching@.len() - i,
        {
            let ghost earlier = *self;
            let ghost listed = groups@;
            let ghost group = matching@[i as int]@;
            let ghost own = FrameKeyModel { group, id: key.id, stream: key.stream@ };
            proof {
                assert(has_key(matching@, group));
                assert(!has_key(matching@.take(i as int), group)) by {
                    if has_key(matching@.take(i as int), group) {
                        let j = index_of(matching@.take(i as int), group);
                        assert(matching@[j]@ == group);
                    }
                }
                assert(earlier.recent(own) == start.recent(own));
            }
            let new: bool = self.record_if_new(&matching[i], key, bytes);
            proof {
                assert(new == start.fresh_groups(key@, bytes@).contains(group));
                assert forall|frame: FrameKeyModel| #[trigger]
                    self.recent(frame) == if frame.id == key.id && frame.stream == key.stream@
                        && start.fresh_groups(key@, bytes@).contains(frame.group) && has_key(
                        matching@.take(i + 1),
                        frame.group,
                    ) {
                        remembered(start.recent(frame), bytes@)
                    } else {
                        start.recent(frame)
                    } by {
                    lemma_take_next(matching@, i as int, frame.group);
                    if frame != own {
                        assert(self.recent(frame) == earlier.recent(frame));
                    }
                    if frame.id == key.id && frame.stream == key.stream@ && frame.group == group {
                        assert(frame =~= own);
                    }
                }
            }
            if new {
                groups.push(matching[i].clone());
            }
            proof {
                assert forall|other: AeronConfigModel| #[trigger]
                    has_key(groups@, other) <==> start.fresh_groups(key@, bytes@).contains(other)
                        && has_key(matching@.take(i + 1), other) by {
                    lemma_take_next(matching@, i as int, other);
                    assert(has_key(listed, other) <==> start.fresh_groups(
                        key@,
                        bytes@,
                    ).contains(other) && has_key(matching@.take(i as int), other));
                    if new {
                        assert(groups@.take(listed.len() as int) =~= listed);
                        assert(groups@.take(listed.len() as int + 1) =~= groups@);
                        lemma_take_next(groups@, listed.len() as int, other);
                    }
                }
                assert(distinct(groups@)) by {
                    assert(!has_key(listed, group));
                    assert forall|m: int, n: int| 0 <= m < n < groups@.len() implies (
                    #[trigger] groups@[m])@ != (#[trigger] groups@[n])@ by {
                        assert(groups@[m] == listed[m]);
                        assert(has_key(listed, listed[m]@));
                        if n < listed.len() {
                            assert(groups@[n] == listed[n]);
                        }
                    }
                }
            }
            i += 1;
        }
        proof {
            assert(matching@.take(i as int) =~= matching@);
            assert forall|group: AeronConfigModel| #[trigger]
                has_key(groups@, group) <==> start.fresh_groups(key@, bytes@).contains(group) by {
                assert(has_key(matching@, group) <==> start.matches(group, key@));
            }
            assert(models(groups@) =~= start.fresh_groups(key@, bytes@));
            lemma_models_len(groups@);
            assert forall|frame: FrameKeyModel| #[trigger]
                self.recent(frame) == if frame.id == key.id && frame.stream == key.stream@
                    && start.fresh_groups(key@, bytes@).contains(frame.group) {
                    remembered(start.recent(frame), bytes@)
                } else {
                    start.recent(frame)
                } by {
                assert(has_key(matching@, frame.group) <==> start.matches(frame.group, key@));
            }
        }
        groups
    }
}

impl AeronStreamHub {
    /// An enabled hub has a worker, and nobody joins a hub that is not enabled.
    pub open spec fn wf(self) -> bool {
        &&& self.state.wf()
        &&& self.enabled <==> self.worker is Some
        &&& !self.enabled ==> self.state.groups@ == Map::<AeronConfigModel, StreamGroup>::empty()
    }

    /// Every command that the worker was handed, in order, and what became of it.
    pub open spec fn commands(self) -> Seq<(CommandModel, SendOutcome)> {
        match self.worker {
            Some(worker) => worker.commands(),
            None => Seq::empty(),
        }
    }

    /// The worker was handed this command once and nothing else.
    pub open spec fn commanded(
        self,
        after: AeronStreamHub,
        command: CommandModel,
        outcome: SendOutcome,
    ) -> bool {
        &&& self.worker is Some
        &&& after.worker is Some
        &&& after.worker->0.end() == self.worker->0.end()
        &&& after.commands() == self.commands().push((command, outcome))
    }

    /// A hub that nobody has joined, enabled if there is a worker.
    pub fn new(worker: Option<std::sync::mpsc::SyncSender<WorkerCommand>>) -> (hub: AeronStreamHub)
        ensures
            hub.wf(),
            hub.enabled == worker is Some,
            worker is Some ==> hub.worker->0.end() == worker->0,
            hub.commands() == Seq::<(CommandModel, SendOutcome)>::empty(),
            hub.state.groups@ == Map::<AeronConfigModel, StreamGroup>::empty(),
            hub.state.client_groups@ == Map::<u64, StreamKey>::empty(),
            forall|frame: FrameKeyModel| #[trigger]
                hub.state.recent(frame) == Seq::<Seq<u8>>::empty(),
    {
        let worker: Option<WorkerLink> = match worker {
            Some(sender) => Some(WorkerLink::new(sender)),
            None => None,
        };
        AeronStreamHub { enabled: worker.is_some(), state: HubState::new(), worker }
    }

    pub fn enabled(&self) -> (enabled: bool)
        ensures
            enabled == self.enabled,
    {
        self.enabled
    }

    pub fn group_count(&self) -> (count: usize)
        requires
            self.wf(),
        ensures
            count == self.state.groups@.len(),
    {
        self.state.groups.len()
    }

    /// The client is a member of the stream's group, and nothing else of the state has
    /// changed.
    pub open spec fn joined(
        self,
        after: AeronStreamHub,
        client_id: u64,
        key: AeronConfigModel,
    ) -> bool {
        &&& after.enabled == self.enabled
        &&& after.state.recent_frames == self.state.recent_frames
        &&& after.state.groups@.remove(key) == self.state.groups@.remove(key)
        &&& after.state.groups@.contains_key(key)
        &&& after.state.groups@[key].members@ == (if self.state.groups@.contains_key(key) {
            self.state.groups@[key].members@.insert(client_id)
        } else {
            set![client_id]
        })
        &&& after.state.client_groups@.contains_key(client_id)
        &&& after.state.client_groups@[client_id]@ == key
        &&& after.state.client_groups@.remove(client_id) == self.state.client_groups@
        &&& after.state.subscriptions@.remove(client_id) == self.state.subscriptions@
        &&& after.state.subscriptions@[client_id]@ == Set::<KeyModel>::empty()
    }

    /// The worker was asked once for a publication of the stream and handed nothing else,
    /// and this is what came of it.
    pub open spec fn asked(
        self,
        after: AeronStreamHub,
        key: AeronConfigModel,
        result: Result<(), HubError>,
    ) -> bool {
        exists|sent: bool, received: Option<Result<(), String>>|
            {
                &&& #[trigger] may_join(self.worker->0.end(), key, sent, received)
                &&& self.commanded(
                    after,
                    CommandModel::Join { key },
                    if sent {
                        SendOutcome::Sent
                    } else {
                        SendOutcome::Stopped
                    },
                )
                &&& result == join_result(sent, received)
            }
    }

    /// Lets a client join a stream. For the first client of a stream the worker is asked
    /// for a publication; only if there is one does the client join.
    pub fn join(&mut self, client_id: u64, config: AeronConfig) -> (result: Result<(), HubError>)
        requires
            old(self).wf(),
        ensures
            final(self).wf(),
            !old(self).enabled ==> *final(self) == *old(self) && result == Err::<(), _>(
                HubError::Disabled,
            ),
            old(self).enabled && old(self).state.client_groups@.contains_key(client_id)
                ==> *final(self) == *old(self) && result
                == (if old(self).state.client_groups@[client_id]@ == config@ {
                Ok(())
            } else {
                Err(HubError::AnotherStream { client_id })
            }),
            old(self).enabled && !old(self).state.client_groups@.contains_key(client_id) ==> {
                &&& old(self).state.groups@.contains_key(config@) ==> result is Ok
                    && final(self).worker == old(self).worker
                &&& !old(self).state.groups@.contains_key(config@) ==> old(self).asked(
                    *final(self),
                    config@,
                    result,
                )
                &&& result is Ok ==> old(self).joined(*final(self), client_id, config@)
                &&& result is Err ==> *final(self) == (AeronStreamHub {
                    worker: final(self).worker,
                    ..*old(self)
                })
            },
    {
        if !self.enabled {
            return Err(HubError::Disabled);
        }
        let key: StreamKey = StreamKey::of_config(config);
        if let Some(previous) = self.state.client_groups.get(&client_id) {
            if previous.same(&key) {
                return Ok(());
            }
            return Err(HubError::AnotherStream { client_id });
        }
        let ghost mut answer: (bool, Option<Result<(), String>>) = (false, None);
        if !self.state.groups.contains_key(&key) {
            let (sent, received) = match &mut self.worker {
                Some(worker) => worker.join(key.clone()),
                None => (false, None),
            };
            proof {
                answer = (sent, received);
            }
            let outcome: Result<(), HubError> = conclude_join(sent, received);
            proof {
                assert(may_join(old(self).worker->0.end(), config@, answer.0, answer.1));
                assert(old(self).asked(*self, config@, outcome));
            }
            if outcome.is_err() {
                return outcome;
            }
        }
        self.state.join(client_id, key);
        proof {
            assert(old(self).state.client_groups@.remove(client_id) =~= old(self).state.client_groups@);
            assert(old(self).state.subscriptions@.remove(client_id) =~= old(self).state.subscriptions@);
            if !old(self).state.groups@.contains_key(config@) {
                assert(may_join(old(self).worker->0.end(), config@, answer.0, answer.1));
                assert(old(self).asked(*self, config@, Ok(())));
            }
        }
        Ok(())
    }

    /// Changes the subscriptions of a client as a request asks.
    pub fn apply(&mut self, client_id: u64, request: &ControlRequest) -> (result: Result<
        (),
        HubError,
    >)
        requires
            old(self).wf(),
        ensures
            result is Ok,
            final(self).wf(),
            final(self).enabled == old(self).enabled,
            final(self).worker == old(self).worker,
            !old(self).state.client_groups@.contains_key(client_id) ==> *final(self) == *old(self),
            old(self).state.client_groups@.contains_key(client_id) ==> {
                &&& final(self).state.subscriptions@ == old(self).state.subscriptions@.insert(
                    client_id,
                    final(self).state.subscriptions@[client_id],
                )
                &&& final(self).state.subscriptions@[client_id]@ == changed(
                    old(self).state.subscriptions@[client_id]@,
                    request@,
                )
            },
            final(self).state.groups == old(self).state.groups,
            final(self).state.client_groups == old(self).state.client_groups,
            final(self).state.recent_frames == old(self).state.recent_frames,
    {
        self.state.apply(client_id, request);
        Ok(())
    }

    /// The worker was handed a frame once for all the groups that want it and have not been
    /// sent it lately, each listed once, and nothing else.
    pub open spec fn sent_frame(
        self,
        after: AeronStreamHub,
        key: KeyModel,
        bytes: Seq<u8>,
        outcome: SendOutcome,
    ) -> bool {
        let groups = self.state.fresh_groups(key, bytes);
        let command = CommandModel::Publish { groups, count: groups.len(), bytes };
        &&& self.commanded(after, command, outcome)
        &&& exists|handed: WorkerCommand|
            handed@ == command && #[trigger] may_send(self.worker->0.end(), handed, outcome)
    }

    /// Sends a frame once to every group that wants it and has not been sent it lately, and
    /// says to how many. A frame counts as sent even if the worker does not take it.
    pub fn publish(&mut self, key: &SubscriptionKey, bytes: &[u8]) -> (result: Result<
        usize,
        HubError,
    >)
        requires
            old(self).wf(),
        ensures
            final(self).wf(),
            final(self).enabled == old(self).enabled,
            old(self).state.took_frame(final(self).state, key@, bytes@),
            old(self).state.fresh_groups(key@, bytes@).len() == 0 ==> result == Ok::<
                usize,
                HubError,
            >(0) && final(self).worker == old(self).worker,
            old(self).state.fresh_groups(key@, bytes@).len() > 0 ==> exists|outcome: SendOutcome|
                #[trigger] old(self).sent_frame(*final(self), key@, bytes@, outcome) && concluded(
                    old(self).state.fresh_groups(key@, bytes@).len(),
                    outcome,
                    result,
                ),
    {
        let groups: Vec<StreamKey> = self.state.take_frame(key, bytes);
        let delivered: usize = groups.len();
        if delivered == 0 {
            return Ok(0);
        }
        let copy: Vec<u8> = slice_to_vec(bytes);
        let command = WorkerCommand::Publish { groups, bytes: copy };
        let ghost handed = command;
        let outcome: SendOutcome = match &mut self.worker {
            Some(worker) => worker.try_send(command),
            None => {
                proof {
                    let group = groups@[0]@;
                    assert(has_key(groups@, group));
                    assert(models(groups@).contains(group));
                    assert(old(self).state.matches(group, key@));
                }
                SendOutcome::Stopped
            },
        };
        proof {
            assert(may_send(old(self).worker->0.end(), handed, outcome));
            assert(old(self).sent_frame(*self, key@, bytes@, outcome));
        }
        conclude_publish(delivered, outcome)
    }

    /// Lets a client go, and has the worker give up a publication that nobody needs.
    pub fn disconnect(&mut self, client_id: u64)
        requires
            old(self).wf(),
        ensures
            final(self).wf(),
            final(self).enabled == old(self).enabled,
            !old(self).state.client_groups@.contains_key(client_id) ==> *final(self) == *old(self),
            old(self).state.client_groups@.contains_key(client_id) ==> {
                let key = old(self).state.client_groups@[client_id]@;
                let last = old(self).state.groups@[key].members@ == set![client_id];
                &&& final(self).state.client_groups@ == old(self).state.client_groups@.remove(
                    client_id,
                )
                &&& final(self).state.subscriptions@ == old(self).state.subscriptions@.remove(
                    client_id,
                )
                &&& final(self).state.groups@.remove(key) == old(self).state.groups@.remove(key)
                &&& final(self).state.groups@.contains_key(key) <==> !last
                &&& !last ==> final(self).state.groups@[key].members@
                    == old(self).state.groups@[key].members@.remove(client_id)
                &&& forall|frame: FrameKeyModel| #[trigger]
                    final(self).state.recent(frame) == if last && frame.group == key {
                        Seq::<Seq<u8>>::empty()
                    } else {
                        old(self).state.recent(frame)
                    }
                &&& !last ==> final(self).worker == old(self).worker
                &&& last ==> exists|stream: StreamKey, outcome: SendOutcome|
                    {
                        &&& stream@ == key
                        &&& #[trigger] may_send(
                            old(self).worker->0.end(),
                            WorkerCommand::Leave { key: stream },
                            outcome,
                        )
                        &&& old(self).commanded(*final(self), CommandModel::Leave { key }, outcome)
                    }
            },
    {
        proof {
            if self.state.client_groups@.contains_key(client_id) {
                assert(self.state.groups@.contains_key(self.state.client_groups@[client_id]@));
            }
        }
        let closed: Option<StreamKey> = self.state.disconnect(client_id);
        if let Some(key) = closed {
            let ghost stream = key;
            if let Some(worker) = &mut self.worker {
                let outcome: SendOutcome = worker.try_send(WorkerCommand::Leave { key });
                assert(may_send(
                    old(self).worker->0.end(),
                    WorkerCommand::Leave { key: stream },
                    outcome,
                ));
            }
        }
        proof {
            if !self.enabled && old(self).state.client_groups@.contains_key(client_id) {
                assert(old(self).state.groups@.contains_key(
                    old(self).state.client_groups@[client_id]@,
                ));
            }
        }
    }
}

/// What the worker has to do next for a stream that is to be joined.
#[derive(Debug, Clone, Copy, PartialEq, Eq, Structural)]
pub enum JoinStep {
    /// Connect to the media driver.
    Connect,
    /// Create the publication.
    CreatePublication,
    /// Nothing: there is a publication.
    Ready,
}

/// A frame that a publication did not take.
#[derive(Debug, PartialEq, Eq)]
pub struct FailedOffer {
    pub key: StreamKey,
    pub result: i64,
}

/// The worker's connection to the media driver and its publications.
#[verifier::reject_recursive_types(P)]
pub struct Worker<C, P: PublicationOffer> {
    pub client: Option<C>,
    pub publishers: VecMap<StreamKey, Outlet<P>>,
}

impl<C, P: PublicationOffer> Worker<C, P> {
    pub open spec fn wf(self) -> bool {
        self.publishers.wf()
    }

    pub fn new() -> (worker: Worker<C, P>)
        ensures
            worker.wf(),
            worker.client is None,
            worker.publishers@ == Map::<AeronConfigModel, Outlet<P>>::empty(),
    {
        Worker { client: None, publishers: VecMap::new() }
    }

    /// What has to be done next for a stream that is to be joined. The connection comes
    /// first, even for a stream that has a publication.
    pub fn next_join_step(&self, key: &StreamKey) -> (step: JoinStep)
        requires
            self.wf(),
        ensures
            step == (if self.client is None {
                JoinStep::Connect
            } else if !self.publishers@.contains_key(key@) {
                JoinStep::CreatePublication
            } else {
                JoinStep::Ready
            }),
    {
        if self.client.is_none() {
            JoinStep::Connect
        } else if !self.publishers.contains_key(key) {
            JoinStep::CreatePublication
        } else {
            JoinStep::Ready
        }
    }

    /// Enters the connection.
    pub fn connected(&mut self, client: C)
        requires
            old(self).wf(),
        ensures
            final(self).wf(),
            final(self).client == Some(client),
            final(self).publishers == old(self).publishers,
    {
        self.client = Some(client);
    }

    /// Enters the publication of a stream.
    pub fn created(&mut self, key: StreamKey, publication: Outlet<P>)
        requires
            old(self).wf(),
        ensures
            final(self).wf(),
            final(self).client == old(self).client,
            final(self).publishers@ == old(self).publishers@.insert(key@, publication),
    {
        self.publishers.insert(key, publication);
    }

    /// Gives up the publication of a stream.
    pub fn leave(&mut self, key: &StreamKey)
        requires
            old(self).wf(),
        ensures
            final(self).wf(),
            final(self).client == old(self).client,
            final(self).publishers@ == old(self).publishers@.remove(key@),
    {
        self.publishers.remove(key);
    }

    /// The outcomes of offering a frame to the streams among the first that have a
    /// publication, those that failed in order.
    pub open spec fn failures(
        self,
        groups: Seq<StreamKey>,
        results: Seq<i64>,
    ) -> Seq<(AeronConfigModel, i64)>
        decreases groups.len(),
    {
        if groups.len() == 0 {
            Seq::empty()
        } else {
            let last = groups.last()@;
            let before = self.failures(groups.drop_last(), results.drop_last());
            if self.publishers@.contains_key(last) && results.last() < 0 {
                before.push((last, results.last()))
            } else {
                before
            }
        }
    }

    /// A frame was offered to these streams in turn, once for each time that a stream is
    /// listed, and to no other publication.
    pub open spec fn offered(
        self,
        after: Worker<C, P>,
        groups: Seq<StreamKey>,
        bytes: &[u8],
        results: Seq<i64>,
    ) -> bool {
        &&& results.len() == groups.len()
        &&& after.client == self.client
        &&& after.publishers@.dom() == self.publishers@.dom()
        &&& forall|i: int|
            0 <= i < groups.len() && self.publishers@.contains_key(groups[i]@) ==> call_ensures(
                P::offer,
                (&self.publishers@[groups[i]@].end(), bytes),
                #[trigger] results[i],
            )
        &&& forall|key: AeronConfigModel| #[trigger]
            self.publishers@.contains_key(key) ==> after.publishers@[key].end()
                == self.publishers@[key].end() && after.publishers@[key].offers()
                == self.publishers@[key].offers() + frames_for(key, groups, bytes@, results)
    }

    /// Offers a frame once to each of the streams that has a publication, and says which
    /// have not taken it.
    pub fn offer(&mut self, groups: &Vec<StreamKey>, bytes: &[u8]) -> (failed: Vec<FailedOffer>)
        requires
            old(self).wf(),
        ensures
            final(self).wf(),
            exists|results: Seq<i64>|
                old(self).offered(*final(self), groups@, bytes, results) && failed_offers(failed@)
                    == #[trigger] old(self).failures(groups@, results),
    {
        let ghost start = *self;
        let mut failed: Vec<FailedOffer> = Vec::new();
        let ghost mut results: Seq<i64> = Seq::empty();
        let mut i: usize = 0;
        proof {
            assert(failed_offers(failed@) =~= start.failures(groups@.take(0), results));
            assert forall|key: AeronConfigModel| #[trigger]
                start.publishers@.contains_key(key) implies start.publishers@[key].offers()
                == start.publishers@[key].offers() + frames_for(
                key,
                groups@.take(0),
                bytes@,
                results,
            ) by {
                assert(start.publishers@[key].offers() + Seq::<(Seq<u8>, i64)>::empty()
                    =~= start.publishers@[key].offers());
            }
        }
        while i < groups.len()
            invariant
                start == *old(self),
                self.wf(),
                i <= groups@.len(),
                start.offered(*self, groups@.take(i as int), bytes, results),
                failed_offers(failed@) == start.failures(groups@.take(i as int), results),
            decreases groups@.len() - i,
        {
            let ghost known = results;
            let ghost listed = failed@;
            let ghost earlier = *self;
            let ghost fewer = groups@.take(i as int);
            let ghost more = groups@.take(i + 1);
            let ghost here = groups@[i as int]@;
            let mut result: i64 = 0;
            if let Some(at) = position(&self.publishers.keys, &groups[i]) {
                proof {
                    self.publishers.lemma_entry(at as int);
                }
                result = self.publishers.values[at].offer(bytes);
                proof {
                    lemma_update_value(earlier.publishers, at as int);
                }
                if result < 0 {
                    failed.push(FailedOffer { key: groups[i].clone(), result });
                    assert(failed_offers(failed@) =~= failed_offers(listed).push((here, result)));
                }
            }
            proof {
                results = results.push(result);
                assert(more.drop_last() =~= fewer);
                assert(results.drop_last() =~= known);
                assert(more.last() == groups@[i as int]);
                assert forall|j: int|
                    0 <= j < more.len() && start.publishers@.contains_key(
                        more[j]@,
                    ) implies call_ensures(
                    P::offer,
                    (&start.publishers@[more[j]@].end(), bytes),
                    #[trigger] results[j],
                ) by {
                    if j < i {
                        assert(known[j] == results[j]);
                        assert(fewer[j] == more[j]);
                    }
                }
                assert forall|key: AeronConfigModel| #[trigger]
                    start.publishers@.contains_key(key) implies self.publishers@[key].end()
                    == start.publishers@[key].end() && self.publishers@[key].offers()
                    == start.publishers@[key].offers() + frames_for(key, more, bytes@, results) by {
                    assert(earlier.publishers@.contains_key(key));
                    let so_far = start.publishers@[key].offers() + frames_for(
                        key,
                        fewer,
                        bytes@,
                        known,
                    );
                    if key == here {
                        assert(so_far.push((bytes@, result)) =~= start.publishers@[key].offers()
                            + frames_for(key, fewer, bytes@, known).push((bytes@, result)));
                    }
                }
            }
            i += 1;
        }
        assert(groups@.take(i as int) =~= groups@);
        failed
    }
}

/// What is offered to one stream when a frame goes to these streams in turn.
pub open spec fn frames_for(
    key: AeronConfigModel,
    groups: Seq<StreamKey>,
    bytes: Seq<u8>,
    results: Seq<i64>,
) -> Seq<(Seq<u8>, i64)>
    decreases groups.len(),
{
    if groups.len() == 0 {
        Seq::empty()
    } else {
        let before = frames_for(key, groups.drop_last(), bytes, results.drop_last());
        if groups.last()@ == key {
            before.push((bytes, results.last()))
        } else {
            before
        }
    }
}

/// Streams and results of failed offers.
pub open spec fn failed_offers(failed: Seq<FailedOffer>) -> Seq<(AeronConfigModel, i64)> {
    Seq::new(failed.len(), |i: int| (failed[i].key@, failed[i].result))
}

} // verus!
