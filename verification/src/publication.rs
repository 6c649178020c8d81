//! Publications, and what they are made by.
//!
//! Nobody but this module reaches a publication, a registration or a factory, so the frames
//! that were offered and the streams that were started are exactly what the logs say.
use vstd::prelude::*;
use vstd::string::*;
use crate::aeron_publisher::{
    PublicationFactory, PublicationOffer, PublicationRegistration,
    PUBLICATION_REGISTRATION_TIMEOUT,
};
use crate::protocol::{AeronChannel, AeronConfigModel};

verus! {

/// A publication that is ready.
#[verifier::reject_recursive_types(P)]
pub struct Outlet<P: PublicationOffer> {
    publication: P,
    log: Ghost<Seq<(Seq<u8>, i64)>>,
}

impl<P: PublicationOffer> Outlet<P> {
    /// The publication that frames are offered to.
    pub closed spec fn end(self) -> P {
        self.publication
    }

    /// Every frame that was offered, in order, and the result.
    pub closed spec fn offers(self) -> Seq<(Seq<u8>, i64)> {
        self.log@
    }

    /// A publication that nothing was offered to.
    pub fn new(publication: P) -> (outlet: Outlet<P>)
        ensures
            outlet.end() == publication,
            outlet.offers() == Seq::<(Seq<u8>, i64)>::empty(),
    {
        Outlet { publication, log: Ghost(Seq::empty()) }
    }

    /// Offers a frame once.
    pub fn offer(&mut self, bytes: &[u8]) -> (result: i64)
        ensures
            final(self).end() == old(self).end(),
            final(self).offers() == old(self).offers().push((bytes@, result)),
            call_ensures(P::offer, (&old(self).end(), bytes), result),
    {
        let result: i64 = self.publication.offer(bytes);
        proof {
            self.log@ = self.log@.push((bytes@, result));
        }
        result
    }
}

/// How far the publication of a stream has come.
#[verifier::reject_recursive_types(F)]
pub enum PublicationState<F: PublicationFactory> {
    Registering { registration: F::Registration, started_at: u128 },
    Ready(F::Publication),
    Unavailable,
}

/// How far a publication has come when it was last looked at.
pub enum Settlement<P> {
    /// Nothing has changed.
    Idle,
    /// The publication is ready.
    Completed(P),
    /// The publication cannot be had.
    Failed(String),
}

impl<P> Settlement<P> {
    /// What the answer of a registration means.
    pub open spec fn meaning(poll: Result<Option<P>, String>) -> Settlement<P> {
        match poll {
            Ok(Some(publication)) => Settlement::Completed(publication),
            Ok(None) => Settlement::Idle,
            Err(message) => Settlement::Failed(message),
        }
    }
}

/// What a look at a publication has brought, for those who do not get the publication
/// itself.
#[derive(Debug, PartialEq, Eq)]
pub enum Progress {
    Idle,
    Completed,
    Failed(String),
}

/// The look has brought this.
pub open spec fn tells<P>(progress: Progress, settlement: Settlement<P>) -> bool {
    match settlement {
        Settlement::Idle => progress is Idle,
        Settlement::Completed(_) => progress is Completed,
        Settlement::Failed(message) => progress matches Progress::Failed(text) && text@
            == message@,
    }
}

/// A registration has taken too long.
pub open spec fn timed_out(started_at: u128, now: u128) -> bool {
    now - started_at >= PUBLICATION_REGISTRATION_TIMEOUT
}

/// The registration is asked how far it is: only one that has time left is.
pub open spec fn is_polled<F: PublicationFactory>(state: PublicationState<F>, now: u128) -> bool {
    match state {
        PublicationState::Registering { started_at, .. } => !timed_out(started_at, now),
        _ => false,
    }
}

/// What may be found when a publication is looked at.
pub open spec fn may_find<F: PublicationFactory>(
    state: PublicationState<F>,
    now: u128,
    settlement: Settlement<F::Publication>,
) -> bool {
    match state {
        PublicationState::Registering { registration, started_at } => if timed_out(
            started_at,
            now,
        ) {
            settlement matches Settlement::Failed(message) && message@
                == "Aeron publication registration timed out"@
        } else {
            exists|poll: Result<Option<F::Publication>, String>|
                call_ensures(F::Registration::poll, (&registration,), poll) && settlement
                    == #[trigger] Settlement::<F::Publication>::meaning(poll)
        },
        _ => settlement is Idle,
    }
}

/// The publication once this was found.
pub open spec fn found<F: PublicationFactory>(
    state: PublicationState<F>,
    settlement: Settlement<F::Publication>,
) -> PublicationState<F> {
    match settlement {
        Settlement::Idle => state,
        Settlement::Completed(publication) => PublicationState::Ready(publication),
        Settlement::Failed(_) => PublicationState::Unavailable,
    }
}

/// The publication of one stream, from one registration to the next.
#[verifier::reject_recursive_types(F)]
pub struct StreamPublication<F: PublicationFactory> {
    state: PublicationState<F>,
    log: Ghost<Seq<(Seq<u8>, i64)>>,
    polled: Ghost<nat>,
}

impl<F: PublicationFactory> View for StreamPublication<F> {
    type V = PublicationState<F>;

    closed spec fn view(&self) -> PublicationState<F> {
        self.state
    }
}

impl<F: PublicationFactory> StreamPublication<F> {
    /// Every frame that was offered on the stream, in order, and the result. Frames stay
    /// listed when a publication is lost.
    pub closed spec fn offers(self) -> Seq<(Seq<u8>, i64)> {
        self.log@
    }

    /// How often a registration was asked how far it is.
    pub closed spec fn polls(self) -> nat {
        self.polled@
    }

    /// A publication that is being set up.
    pub fn registering(registration: F::Registration, now: u128) -> (publication:
        StreamPublication<F>)
        ensures
            publication@ == (PublicationState::<F>::Registering { registration, started_at: now }),
            publication.offers() == Seq::<(Seq<u8>, i64)>::empty(),
            publication.polls() == 0,
    {
        StreamPublication {
            state: PublicationState::Registering { registration, started_at: now },
            log: Ghost(Seq::empty()),
            polled: Ghost(0),
        }
    }

    pub fn is_ready(&self) -> (ready: bool)
        ensures
            ready == (self@ is Ready),
    {
        matches!(self.state, PublicationState::Ready(_))
    }

    /// Whether the publication was lost.
    pub fn is_unavailable(&self) -> (unavailable: bool)
        ensures
            unavailable == (self@ is Unavailable),
    {
        matches!(self.state, PublicationState::Unavailable)
    }

    /// Offers a frame once, if the publication is ready, and not at all otherwise.
    pub fn offer(&mut self, bytes: &[u8]) -> (result: Option<i64>)
        ensures
            match old(self)@ {
                PublicationState::Ready(publication) => {
                    &&& result is Some
                    &&& call_ensures(F::Publication::offer, (&publication, bytes), result->0)
                    &&& final(self)@ == old(self)@
                    &&& final(self).offers() == old(self).offers().push((bytes@, result->0))
                    &&& final(self).polls() == old(self).polls()
                },
                _ => result is None && *final(self) == *old(self),
            },
    {
        let result: i64 = match &self.state {
            PublicationState::Ready(publication) => publication.offer(bytes),
            _ => {
                return None;
            },
        };
        proof {
            self.log@ = self.log@.push((bytes@, result));
        }
        Some(result)
    }

    /// Gives the publication up.
    pub fn lose(&mut self)
        ensures
            final(self)@ is Unavailable,
            final(self).offers() == old(self).offers(),
            final(self).polls() == old(self).polls(),
    {
        self.state = PublicationState::Unavailable;
    }

    /// Goes on with a publication that is being set up anew.
    pub fn replace(&mut self, next: StreamPublication<F>)
        ensures
            final(self)@ == next@,
            final(self).offers() == old(self).offers() + next.offers(),
            final(self).polls() == old(self).polls() + next.polls(),
    {
        self.state = next.state;
        proof {
            self.log@ = self.log@ + next.log@;
            self.polled@ = self.polled@ + next.polled@;
        }
    }

    /// Enters what a look at the publication has brought.
    pub fn enter(&mut self, settlement: Settlement<F::Publication>) -> (progress: Progress)
        ensures
            tells(progress, settlement),
            final(self)@ == found(old(self)@, settlement),
            final(self).offers() == old(self).offers(),
            final(self).polls() == old(self).polls(),
    {
        match settlement {
            Settlement::Idle => Progress::Idle,
            Settlement::Completed(publication) => {
                self.state = PublicationState::Ready(publication);
                Progress::Completed
            },
            Settlement::Failed(message) => {
                self.state = PublicationState::Unavailable;
                Progress::Failed(message)
            },
        }
    }

    /// Looks at the publication, if it is being set up: its registration is asked once,
    /// unless it has taken too long.
    pub fn advance(&mut self, now: u128) -> (done: (
        Progress,
        Ghost<Settlement<F::Publication>>,
    ))
        ensures
            may_find(old(self)@, now, done.1@),
            tells(done.0, done.1@),
            final(self)@ == found(old(self)@, done.1@),
            final(self).offers() == old(self).offers(),
            final(self).polls() == old(self).polls() + (if is_polled(old(self)@, now) {
                1nat
            } else {
                0nat
            }),
    {
        let settlement: Settlement<F::Publication> = match &self.state {
            PublicationState::Registering { registration, started_at } => {
                if now >= *started_at && now - *started_at >= PUBLICATION_REGISTRATION_TIMEOUT {
                    Settlement::Failed("Aeron publication registration timed out".to_owned())
                } else {
                    let poll: Result<Option<F::Publication>, String> = registration.poll();
                    let ghost seen = poll;
                    proof {
                        self.polled@ = self.polled@ + 1;
                    }
                    let settlement: Settlement<F::Publication> = match poll {
                        Ok(Some(publication)) => Settlement::Completed(publication),
                        Ok(None) => Settlement::Idle,
                        Err(message) => Settlement::Failed(message),
                    };
                    assert(settlement == Settlement::<F::Publication>::meaning(seen));
                    settlement
                }
            },
            _ => Settlement::Idle,
        };
        let ghost found_settlement = settlement;
        let progress: Progress = self.enter(settlement);
        (progress, Ghost(found_settlement))
    }
}

/// What publications are made by.
#[verifier::reject_recursive_types(F)]
pub struct Starter<F: PublicationFactory> {
    factory: F,
    log: Ghost<Seq<AeronConfigModel>>,
}

impl<F: PublicationFactory> Starter<F> {
    /// The factory that publications are asked from.
    pub closed spec fn end(self) -> F {
        self.factory
    }

    /// Every stream that the factory was asked to start, in order.
    pub closed spec fn started(self) -> Seq<AeronConfigModel> {
        self.log@
    }

    /// A factory that was asked for nothing.
    pub fn new(factory: F) -> (starter: Starter<F>)
        ensures
            starter.end() == factory,
            starter.started() == Seq::<AeronConfigModel>::empty(),
    {
        Starter { factory, log: Ghost(Seq::empty()) }
    }

    /// Asks the factory once to start a stream.
    pub fn begin(&mut self, channel: &AeronChannel, stream_id: i32, now: u128) -> (outcome: Result<
        StreamPublication<F>,
        String,
    >)
        ensures
            final(self).started() == old(self).started().push(
                AeronConfigModel { aeron_channel: channel@, stream_id },
            ),
            match outcome {
                Ok(publication) => {
                    &&& publication@ matches PublicationState::Registering {
                        registration,
                        started_at,
                    }
                    &&& started_at == now
                    &&& publication.offers() == Seq::<(Seq<u8>, i64)>::empty()
                    &&& publication.polls() == 0
                    &&& F::may_begin(
                        AeronConfigModel { aeron_channel: channel@, stream_id },
                        Ok(registration),
                    )
                },
                Err(message) => F::may_begin(
                    AeronConfigModel { aeron_channel: channel@, stream_id },
                    Err(message),
                ),
            },
    {
        let outcome: Result<F::Registration, String> = self.factory.begin(channel, stream_id);
        proof {
            self.log@ = self.log@.push(AeronConfigModel { aeron_channel: channel@, stream_id });
        }
        match outcome {
            Ok(registration) => Ok(StreamPublication::registering(registration, now)),
            Err(message) => Err(message),
        }
    }
}

} // verus!
