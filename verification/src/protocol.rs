//! Control messages of the link: subscriptions, replies and transport selection.
use vstd::prelude::*;
use vstd::string::*;
use crate::collections::{has_key, index_of, SameKey};
use crate::float64::Float64;
use crate::text::{
    blank, copy_ids, decimal, decimal_text, is_blank, is_text_less, lemma_text_less_irreflexive,
    lemma_text_less_total, lemma_text_less_transitive, same_text, text_less,
};

verus! {

/// What a control request asks for.
#[derive(Debug, Clone, Copy, PartialEq, Eq, Structural)]
pub enum ControlOperation {
    Subscribe,
    Unsubscribe,
    RefetchBbo,
}

impl ControlOperation {
    /// The operation as errors show it.
    pub open spec fn shown(self) -> Seq<char> {
        match self {
            ControlOperation::Subscribe => "Subscribe"@,
            ControlOperation::Unsubscribe => "Unsubscribe"@,
            ControlOperation::RefetchBbo => "RefetchBbo"@,
        }
    }

    /// The operation as errors show it.
    pub fn show(&self) -> (text: &'static str)
        ensures
            text@ == self.shown(),
    {
        match self {
            ControlOperation::Subscribe => "Subscribe",
            ControlOperation::Unsubscribe => "Unsubscribe",
            ControlOperation::RefetchBbo => "RefetchBbo",
        }
    }
}

/// Why a control request is refused before it reaches anyone.
#[derive(Debug, Clone, Copy, PartialEq, Eq, Structural)]
pub enum ProtocolError {
    EmptyArgs,
    EmptyIds,
    EmptyStream,
    InvalidNoiseFilter,
    InvalidRefetchStream,
}

impl ProtocolError {
    /// The text that a client is shown.
    pub open spec fn text(self) -> Seq<char> {
        match self {
            ProtocolError::EmptyArgs => "control request args cannot be empty"@,
            ProtocolError::EmptyIds => "subscription ids cannot be empty"@,
            ProtocolError::EmptyStream => "subscription stream cannot be empty"@,
            ProtocolError::InvalidNoiseFilter =>
                "noise_filter_bps must be finite and non-negative"@,
            ProtocolError::InvalidRefetchStream => "refetch_bbo only supports the bbo stream"@,
        }
    }

    /// The text that a client is shown.
    pub fn message(&self) -> (message: String)
        ensures
            message@ == self.text(),
    {
        match self {
            ProtocolError::EmptyArgs => "control request args cannot be empty".to_owned(),
            ProtocolError::EmptyIds => "subscription ids cannot be empty".to_owned(),
            ProtocolError::EmptyStream => "subscription stream cannot be empty".to_owned(),
            ProtocolError::InvalidNoiseFilter =>
                "noise_filter_bps must be finite and non-negative".to_owned(),
            ProtocolError::InvalidRefetchStream =>
                "refetch_bbo only supports the bbo stream".to_owned(),
        }
    }
}

/// A stream wanted for several identifiers, with an optional noise threshold.
#[derive(Debug, PartialEq, Eq)]
pub struct SubscriptionArg {
    pub id: Vec<i32>,
    pub stream: String,
    pub noise_filter_bps: Option<Float64>,
}

/// The contents of a [`SubscriptionArg`].
#[verifier::ext_equal]
pub struct ArgModel {
    pub id: Seq<i32>,
    pub stream: Seq<char>,
    pub noise_filter_bps: Option<Float64>,
}

impl View for SubscriptionArg {
    type V = ArgModel;

    open spec fn view(&self) -> ArgModel {
        ArgModel {
            id: self.id@,
            stream: self.stream@,
            noise_filter_bps: self.noise_filter_bps,
        }
    }
}

impl ArgModel {
    /// The first rule that this argument breaks.
    pub open spec fn error(self) -> Option<ProtocolError> {
        if self.id.len() == 0 {
            Some(ProtocolError::EmptyIds)
        } else if blank(self.stream) {
            Some(ProtocolError::EmptyStream)
        } else if self.noise_filter_bps is Some && (!self.noise_filter_bps->0.finite()
            || self.noise_filter_bps->0.num_lt(Float64 { bits: 0 })) {
            Some(ProtocolError::InvalidNoiseFilter)
        } else {
            None
        }
    }

    /// The key that the identifier number `index` stands for.
    pub open spec fn key(self, index: int) -> KeyModel {
        KeyModel {
            id: self.id[index],
            stream: self.stream,
            noise_filter_bps_bits: match self.noise_filter_bps {
                Some(threshold) => Some(threshold.bits),
                None => None,
            },
        }
    }

    /// One of the first `count` identifiers stands for `key`.
    pub open spec fn names_among(self, count: int, key: KeyModel) -> bool {
        exists|i: int| 0 <= i < count && #[trigger] self.key(i) == key
    }

    /// The argument names `key`.
    pub open spec fn names(self, key: KeyModel) -> bool {
        exists|i: int| 0 <= i < self.id.len() && #[trigger] self.key(i) == key
    }
}

impl Clone for SubscriptionArg {
    fn clone(&self) -> (copy: SubscriptionArg)
        ensures
            copy@ == self@,
    {
        SubscriptionArg {
            id: copy_ids(&self.id),
            stream: self.stream.clone(),
            noise_filter_bps: self.noise_filter_bps,
        }
    }
}

impl SubscriptionArg {
    /// An argument without a noise threshold.
    pub fn new(id: Vec<i32>, stream: &str) -> (arg: SubscriptionArg)
        ensures
            arg@ == (ArgModel { id: id@, stream: stream@, noise_filter_bps: None }),
    {
        SubscriptionArg { id, stream: stream.to_owned(), noise_filter_bps: None }
    }

    /// Checks the rules that every argument keeps.
    pub fn validate(&self) -> (result: Result<(), ProtocolError>)
        ensures
            result == match self@.error() {
                Some(error) => Err(error),
                None => Ok(()),
            },
    {
        if self.id.len() == 0 {
            return Err(ProtocolError::EmptyIds);
        }
        if is_blank(self.stream.as_str()) {
            return Err(ProtocolError::EmptyStream);
        }
        if let Some(threshold) = self.noise_filter_bps {
            if !threshold.is_finite() || threshold.is_below_zero() {
                return Err(ProtocolError::InvalidNoiseFilter);
            }
        }
        Ok(())
    }

    /// One key per identifier, in their order.
    pub fn keys(&self) -> (keys: Vec<SubscriptionKey>)
        ensures
            keys@.len() == self.id@.len(),
            forall|i: int| 0 <= i < keys@.len() ==> (#[trigger] keys@[i])@ == self@.key(i),
    {
        let bits: Option<u64> = match self.noise_filter_bps {
            Some(threshold) => Some(threshold.bits),
            None => None,
        };
        let mut keys: Vec<SubscriptionKey> = Vec::with_capacity(self.id.len());
        let mut i: usize = 0;
        while i < self.id.len()
            invariant
                i <= self.id@.len(),
                keys@.len() == i,
                bits == match self.noise_filter_bps {
                    Some(threshold) => Some(threshold.bits),
                    None => None,
                },
                forall|j: int| 0 <= j < i ==> (#[trigger] keys@[j])@ == self@.key(j),
            decreases self.id@.len() - i,
        {
            keys.push(
                SubscriptionKey {
                    id: self.id[i],
                    stream: self.stream.clone(),
                    noise_filter_bps_bits: bits,
                },
            );
            i += 1;
        }
        keys
    }
}

/// One identifier of one stream at one noise threshold.
#[derive(Debug, PartialEq, Eq, Hash, PartialOrd, Ord)]
pub struct SubscriptionKey {
    pub id: i32,
    pub stream: String,
    pub noise_filter_bps_bits: Option<u64>,
}

/// The contents of a [`SubscriptionKey`].
#[verifier::ext_equal]
pub struct KeyModel {
    pub id: i32,
    pub stream: Seq<char>,
    pub noise_filter_bps_bits: Option<u64>,
}

impl View for SubscriptionKey {
    type V = KeyModel;

    open spec fn view(&self) -> KeyModel {
        KeyModel {
            id: self.id,
            stream: self.stream@,
            noise_filter_bps_bits: self.noise_filter_bps_bits,
        }
    }
}

impl KeyModel {
    /// The noise threshold.
    pub open spec fn threshold(self) -> Option<Float64> {
        match self.noise_filter_bps_bits {
            Some(bits) => Some(Float64 { bits }),
            None => None,
        }
    }

    /// The argument that names this key alone.
    pub open spec fn arg(self) -> ArgModel {
        ArgModel { id: seq![self.id], stream: self.stream, noise_filter_bps: self.threshold() }
    }

    /// The key routes frames of this identifier and stream; the noise threshold plays
    /// no part in routing.
    pub open spec fn routes(self, id: i32, stream: Seq<char>) -> bool {
        self.id == id && self.stream == stream
    }

    /// The canonical order of keys: by identifier, then by stream, then by threshold
    /// bits with an absent threshold first.
    pub open spec fn less(self, other: KeyModel) -> bool {
        if self.id != other.id {
            self.id < other.id
        } else if self.stream != other.stream {
            text_less(self.stream, other.stream)
        } else {
            match (self.noise_filter_bps_bits, other.noise_filter_bps_bits) {
                (None, Some(_)) => true,
                (Some(left), Some(right)) => left < right,
                _ => false,
            }
        }
    }
}

pub proof fn lemma_key_less_transitive(a: KeyModel, b: KeyModel, c: KeyModel)
    requires
        a.less(b),
        b.less(c),
    ensures
        a.less(c),
{
    if a.id == b.id && b.id == c.id {
        if a.stream != b.stream && b.stream != c.stream {
            lemma_text_less_transitive(a.stream, b.stream, c.stream);
            if a.stream == c.stream {
                lemma_text_less_irreflexive(a.stream);
            }
        }
    }
}

pub proof fn lemma_key_less_irreflexive(key: KeyModel)
    ensures
        !key.less(key),
{
}

pub proof fn lemma_key_less_total(a: KeyModel, b: KeyModel)
    ensures
        a.less(b) || b.less(a) || a == b,
{
    lemma_text_less_total(a.stream, b.stream);
}

impl Clone for SubscriptionKey {
    fn clone(&self) -> (copy: SubscriptionKey)
        ensures
            copy == *self,
    {
        SubscriptionKey {
            id: self.id,
            stream: self.stream.clone(),
            noise_filter_bps_bits: self.noise_filter_bps_bits,
        }
    }
}

impl SameKey for SubscriptionKey {
    fn same(&self, other: &SubscriptionKey) -> (same: bool) {
        let same_bits: bool = match (self.noise_filter_bps_bits, other.noise_filter_bps_bits) {
            (None, None) => true,
            (Some(left), Some(right)) => left == right,
            _ => false,
        };
        same_bits && self.id == other.id && self.stream == other.stream
    }
}

impl SubscriptionKey {
    /// A key without a noise threshold.
    pub fn new(id: i32, stream: &str) -> (key: SubscriptionKey)
        ensures
            key@ == (KeyModel { id, stream: stream@, noise_filter_bps_bits: None }),
    {
        SubscriptionKey { id, stream: stream.to_owned(), noise_filter_bps_bits: None }
    }

    /// The noise threshold.
    pub fn noise_filter_bps(&self) -> (threshold: Option<Float64>)
        ensures
            threshold == self@.threshold(),
    {
        match self.noise_filter_bps_bits {
            Some(bits) => Some(Float64::from_bits(bits)),
            None => None,
        }
    }

    /// The argument that names this key alone.
    pub fn as_arg(&self) -> (arg: SubscriptionArg)
        ensures
            arg@ == self@.arg(),
    {
        let mut id: Vec<i32> = Vec::with_capacity(1);
        id.push(self.id);
        assert(id@ =~= seq![self.id]);
        SubscriptionArg {
            id,
            stream: self.stream.clone(),
            noise_filter_bps: self.noise_filter_bps(),
        }
    }

    /// Whether this key routes frames of the identifier and stream.
    pub fn is_route_of(&self, id: i32, stream: &String) -> (routes: bool)
        ensures
            routes == self@.routes(id, stream@),
    {
        self.id == id && self.stream == *stream
    }

    /// Whether this key comes first in the canonical order.
    pub fn is_less(&self, other: &SubscriptionKey) -> (less: bool)
        ensures
            less == self@.less(other@),
    {
        if self.id != other.id {
            self.id < other.id
        } else if self.stream != other.stream {
            is_text_less(self.stream.as_str(), other.stream.as_str())
        } else {
            match (self.noise_filter_bps_bits, other.noise_filter_bps_bits) {
                (None, Some(_)) => true,
                (Some(left), Some(right)) => left < right,
                _ => false,
            }
        }
    }
}

/// A key taken apart and put together again is the same key.
pub proof fn law_key_as_arg_names_that_key(key: KeyModel)
    ensures
        key.arg().id.len() == 1,
        key.arg().key(0) == key,
        forall|other: KeyModel| key.arg().names(other) <==> other == key,
{
    assert(key.arg().key(0) == key);
}

/// The keys stand in the canonical order, each once.
pub open spec fn canonical(keys: Seq<SubscriptionKey>) -> bool {
    forall|i: int, j: int|
        0 <= i < j < keys.len() ==> (#[trigger] keys[i])@.less((#[trigger] keys[j])@)
}

/// Puts a key in its place in the canonical order, unless it is there already.
fn insert_canonical(keys: &mut Vec<SubscriptionKey>, key: SubscriptionKey)
    requires
        canonical(old(keys)@),
    ensures
        canonical(final(keys)@),
        forall|model: KeyModel|
            has_key(final(keys)@, model) <==> has_key(old(keys)@, model) || model == key@,
{
    let mut at: usize = 0;
    while at < keys.len() && keys[at].is_less(&key)
        invariant
            at <= keys@.len(),
            keys@ == old(keys)@,
            forall|i: int| 0 <= i < at ==> (#[trigger] keys@[i])@.less(key@),
        decreases keys@.len() - at,
    {
        at += 1;
    }
    if at < keys.len() && keys[at].same(&key) {
        assert(has_key(keys@, key@)) by {
            assert(keys@[at as int]@ == key@);
        }
        return;
    }
    let ghost before = keys@;
    let ghost model_at = key@;
    keys.insert(at, key);
    proof {
        let after = keys@;
        assert forall|i: int, j: int| 0 <= i < j < after.len() implies (#[trigger] after[i])@.less(
            (#[trigger] after[j])@,
        ) by {
            if at < before.len() {
                lemma_key_less_total(before[at as int]@, model_at);
            }
            if i == at && at < before.len() && j > at + 1 {
                lemma_key_less_transitive(model_at, before[at as int]@, before[j - 1]@);
            }
        }
        assert forall|model: KeyModel|
            has_key(after, model) <==> has_key(before, model) || model == model_at by {
            if has_key(before, model) {
                let i = index_of(before, model);
                let to = if i < at { i } else { i + 1 };
                assert(after[to]@ == model);
            }
            if model == model_at {
                assert(after[at as int]@ == model);
            }
            if has_key(after, model) && model != model_at {
                let i = index_of(after, model);
                let from = if i < at { i } else { i - 1 };
                assert(before[from]@ == model);
            }
        }
    }
}

/// Canonical lists of the same keys are the same list.
pub proof fn law_canonical_keys_are_unique(left: Seq<SubscriptionKey>, right: Seq<SubscriptionKey>)
    requires
        canonical(left),
        canonical(right),
        forall|model: KeyModel| has_key(left, model) <==> has_key(right, model),
    ensures
        left.len() == right.len(),
        forall|i: int| 0 <= i < left.len() ==> (#[trigger] left[i])@ == right[i]@,
    decreases left.len(),
{
    if left.len() == 0 {
        if right.len() > 0 {
            assert(has_key(right, right[0]@));
        }
    } else {
        assert(has_key(left, left.last()@)) by {
            assert(left[left.len() - 1]@ == left.last()@);
        }
        let other = index_of(right, left.last()@);
        assert(has_key(right, right.last()@)) by {
            assert(right[right.len() - 1]@ == right.last()@);
        }
        let back = index_of(left, right.last()@);
        if other < right.len() - 1 {
            assert(right[other]@.less(right[right.len() - 1]@));
            if back < left.len() - 1 {
                assert(left[back]@.less(left[left.len() - 1]@));
                lemma_key_less_transitive(left.last()@, right.last()@, left.last()@);
            }
            lemma_key_less_irreflexive(left.last()@);
        }
        assert(right.last()@ == left.last()@);
        let l = left.drop_last();
        let r = right.drop_last();
        assert forall|model: KeyModel| has_key(l, model) <==> has_key(r, model) by {
            if has_key(l, model) {
                let i = index_of(l, model);
                assert(left[i]@ == model);
                assert(left[i]@.less(left[left.len() - 1]@));
                lemma_key_less_irreflexive(model);
                assert(has_key(left, model));
                assert(has_key(right, model));
                let j = index_of(right, model);
                assert(r[j]@ == model);
            }
            if has_key(r, model) {
                let i = index_of(r, model);
                assert(right[i]@ == model);
                assert(right[i]@.less(right[right.len() - 1]@));
                lemma_key_less_irreflexive(model);
                assert(has_key(right, model));
                assert(has_key(left, model));
                let j = index_of(left, model);
                assert(l[j]@ == model);
            }
        }
        law_canonical_keys_are_unique(l, r);
        assert forall|i: int| 0 <= i < left.len() implies (#[trigger] left[i])@ == right[i]@ by {
            if i < l.len() {
                assert(l[i]@ == r[i]@);
            }
        }
    }
}

/// A request to change or refresh subscriptions.
#[derive(Debug, PartialEq, Eq)]
pub struct ControlRequest {
    pub op: ControlOperation,
    pub args: Vec<SubscriptionArg>,
}

/// The contents of a [`ControlRequest`].
#[verifier::ext_equal]
pub struct RequestModel {
    pub op: ControlOperation,
    pub args: Seq<ArgModel>,
}

/// The contents of several arguments.
pub open spec fn arg_models(args: Seq<SubscriptionArg>) -> Seq<ArgModel> {
    Seq::new(args.len(), |i: int| args[i]@)
}

impl View for ControlRequest {
    type V = RequestModel;

    open spec fn view(&self) -> RequestModel {
        RequestModel { op: self.op, args: arg_models(self.args@) }
    }
}

/// The error of the first argument that has one.
pub open spec fn first_arg_error(args: Seq<ArgModel>) -> Option<ProtocolError>
    decreases args.len(),
{
    if args.len() == 0 {
        None
    } else if args[0].error() is Some {
        args[0].error()
    } else {
        first_arg_error(args.skip(1))
    }
}

impl RequestModel {
    /// Why this request is refused: it names nothing, an argument is wrong, or it wants
    /// anything but best bids and offers fetched again.
    pub open spec fn error(self) -> Option<ProtocolError> {
        if self.args.len() == 0 {
            Some(ProtocolError::EmptyArgs)
        } else if first_arg_error(self.args) is Some {
            first_arg_error(self.args)
        } else if self.op == ControlOperation::RefetchBbo && exists|i: int|
            0 <= i < self.args.len() && (#[trigger] self.args[i]).stream != "bbo"@ {
            Some(ProtocolError::InvalidRefetchStream)
        } else {
            None
        }
    }

    /// The request names `key` in one of its arguments.
    pub open spec fn names(self, key: KeyModel) -> bool {
        exists|i: int| 0 <= i < self.args.len() && (#[trigger] self.args[i]).names(key)
    }
}

/// A copy of arguments.
pub fn copy_args(args: &Vec<SubscriptionArg>) -> (copy: Vec<SubscriptionArg>)
    ensures
        arg_models(copy@) == arg_models(args@),
{
    let mut copy: Vec<SubscriptionArg> = Vec::with_capacity(args.len());
    let mut i: usize = 0;
    while i < args.len()
        invariant
            i <= args@.len(),
            copy@.len() == i,
            forall|j: int| 0 <= j < i ==> (#[trigger] copy@[j])@ == args@[j]@,
        decreases args@.len() - i,
    {
        copy.push(args[i].clone());
        i += 1;
    }
    assert(arg_models(copy@) =~= arg_models(args@));
    copy
}

impl Clone for ControlRequest {
    fn clone(&self) -> (copy: ControlRequest)
        ensures
            copy@ == self@,
    {
        ControlRequest { op: self.op, args: copy_args(&self.args) }
    }
}

impl ControlRequest {
    pub fn subscribe(args: Vec<SubscriptionArg>) -> (request: ControlRequest)
        ensures
            request@ == (RequestModel {
                op: ControlOperation::Subscribe,
                args: arg_models(args@),
            }),
    {
        ControlRequest { op: ControlOperation::Subscribe, args }
    }

    pub fn unsubscribe(args: Vec<SubscriptionArg>) -> (request: ControlRequest)
        ensures
            request@ == (RequestModel {
                op: ControlOperation::Unsubscribe,
                args: arg_models(args@),
            }),
    {
        ControlRequest { op: ControlOperation::Unsubscribe, args }
    }

    pub fn refetch_bbo(ids: Vec<i32>) -> (request: ControlRequest)
        ensures
            request@ == (RequestModel {
                op: ControlOperation::RefetchBbo,
                args: seq![ArgModel { id: ids@, stream: "bbo"@, noise_filter_bps: None }],
            }),
    {
        let mut args: Vec<SubscriptionArg> = Vec::with_capacity(1);
        args.push(SubscriptionArg::new(ids, "bbo"));
        let request = ControlRequest { op: ControlOperation::RefetchBbo, args };
        assert(request@.args =~= seq![
            ArgModel { id: ids@, stream: "bbo"@, noise_filter_bps: None },
        ]);
        request
    }

    /// Checks the rules that every request keeps.
    pub fn validate(&self) -> (result: Result<(), ProtocolError>)
        ensures
            result == match self@.error() {
                Some(error) => Err(error),
                None => Ok(()),
            },
    {
        if self.args.len() == 0 {
            return Err(ProtocolError::EmptyArgs);
        }
        let mut i: usize = 0;
        assert(self@.args.skip(0) =~= self@.args);
        while i < self.args.len()
            invariant
                i <= self.args@.len(),
                self.args@.len() > 0,
                first_arg_error(self@.args) == first_arg_error(self@.args.skip(i as int)),
            decreases self.args@.len() - i,
        {
            assert(self@.args.skip(i as int)[0] == self.args@[i as int]@);
            assert(self@.args.skip(i as int).skip(1) =~= self@.args.skip(i + 1));
            match self.args[i].validate() {
                Ok(()) => {},
                Err(error) => {
                    return Err(error);
                },
            }
            i += 1;
        }
        if matches!(self.op, ControlOperation::RefetchBbo) {
            let mut j: usize = 0;
            while j < self.args.len()
                invariant
                    j <= self.args@.len(),
                    self.args@.len() > 0,
                    self.op == ControlOperation::RefetchBbo,
                    first_arg_error(self@.args) is None,
                    forall|k: int| 0 <= k < j ==> (#[trigger] self@.args[k]).stream == "bbo"@,
                decreases self.args@.len() - j,
            {
                if !same_text(self.args[j].stream.as_str(), "bbo") {
                    assert(self@.args[j as int].stream != "bbo"@);
                    return Err(ProtocolError::InvalidRefetchStream);
                }
                j += 1;
            }
        }
        Ok(())
    }

    /// The keys that the request names, in the canonical order and each once.
    pub fn keys(&self) -> (keys: Vec<SubscriptionKey>)
        ensures
            canonical(keys@),
            forall|key: KeyModel| has_key(keys@, key) <==> self@.names(key),
    {
        let mut keys: Vec<SubscriptionKey> = Vec::new();
        let mut i: usize = 0;
        while i < self.args.len()
            invariant
                i <= self.args@.len(),
                canonical(keys@),
                forall|key: KeyModel| #[trigger]
                    has_key(keys@, key) <==> (exists|k: int|
                        0 <= k < i && (#[trigger] self@.args[k]).names(key)),
            decreases self.args@.len() - i,
        {
            let arg_keys: Vec<SubscriptionKey> = self.args[i].keys();
            let ghost before = keys@;
            let ghost arg = self@.args[i as int];
            let mut j: usize = 0;
            while j < arg_keys.len()
                invariant
                    j <= arg_keys@.len(),
                    canonical(keys@),
                    arg_keys@.len() == arg.id.len(),
                    forall|k: int|
                        0 <= k < arg_keys@.len() ==> (#[trigger] arg_keys@[k])@ == arg.key(k),
                    forall|key: KeyModel| #[trigger]
                        has_key(keys@, key) <==> has_key(before, key) || arg.names_among(
                            j as int,
                            key,
                        ),
                decreases arg_keys@.len() - j,
            {
                let ghost earlier = keys@;
                let next: SubscriptionKey = arg_keys[j].clone();
                assert(next@ == arg.key(j as int));
                insert_canonical(&mut keys, next);
                assert forall|key: KeyModel| #[trigger]
                    has_key(keys@, key) <==> has_key(before, key) || arg.names_among(
                        j + 1,
                        key,
                    ) by {
                    assert(has_key(earlier, key) <==> has_key(before, key) || arg.names_among(
                        j as int,
                        key,
                    ));
                    if arg.names_among(j as int, key) {
                        let k = choose|k: int| 0 <= k < j && #[trigger] arg.key(k) == key;
                        assert(arg.key(k) == key);
                    }
                    if key == arg.key(j as int) {
                        assert(arg.names_among(j + 1, key));
                    }
                }
                j += 1;
            }
            assert forall|key: KeyModel| #[trigger]
                has_key(keys@, key) <==> (exists|k: int|
                    0 <= k < i + 1 && (#[trigger] self@.args[k]).names(key)) by {
                assert(arg.names(key) == arg.names_among(arg_keys@.len() as int, key));
                if has_key(before, key) {
                    let k = choose|k: int| 0 <= k < i && (#[trigger] self@.args[k]).names(key);
                    assert(self@.args[k].names(key));
                }
                if arg.names(key) {
                    assert(self@.args[i as int].names(key));
                }
            }
            i += 1;
        }
        keys
    }
}

/// A request that passes validation names at least one key.
pub proof fn law_valid_requests_name_keys(request: RequestModel)
    requires
        request.error() is None,
    ensures
        exists|key: KeyModel| request.names(key),
{
    assert(request.args[0].error() is None);
    assert(request.args[0].names(request.args[0].key(0)));
    assert(request.names(request.args[0].key(0)));
}

/// Where a socket can be reached: the text of its address without the port, and the port.
#[derive(Debug, PartialEq, Eq, Hash)]
pub struct SocketAddress {
    pub host: String,
    pub port: u16,
}

/// The contents of a [`SocketAddress`].
#[verifier::ext_equal]
pub struct AddressModel {
    pub host: Seq<char>,
    pub port: u16,
}

impl View for SocketAddress {
    type V = AddressModel;

    open spec fn view(&self) -> AddressModel {
        AddressModel { host: self.host@, port: self.port }
    }
}

impl Clone for SocketAddress {
    fn clone(&self) -> (copy: SocketAddress)
        ensures
            copy == *self,
    {
        SocketAddress { host: self.host.clone(), port: self.port }
    }
}

impl SocketAddress {
    pub fn new(host: &str, port: u16) -> (address: SocketAddress)
        ensures
            address@ == (AddressModel { host: host@, port }),
    {
        SocketAddress { host: host.to_owned(), port }
    }
}

/// The medium of an Aeron publication.
#[derive(Debug, PartialEq, Eq, Hash)]
pub enum AeronChannel {
    Ipc,
    Udp { host: String, port: u16 },
}

/// The contents of an [`AeronChannel`].
#[verifier::ext_equal]
pub enum ChannelModel {
    Ipc,
    Udp { host: Seq<char>, port: u16 },
}

impl ChannelModel {
    /// The channel in Aeron's own notation.
    pub open spec fn text(self) -> Seq<char> {
        match self {
            ChannelModel::Ipc => "aeron:ipc"@,
            ChannelModel::Udp { host, port } => "aeron:udp?endpoint="@ + host + ":"@ + decimal(
                port as nat,
            ),
        }
    }
}

impl View for AeronChannel {
    type V = ChannelModel;

    open spec fn view(&self) -> ChannelModel {
        match self {
            AeronChannel::Ipc => ChannelModel::Ipc,
            AeronChannel::Udp { host, port } => ChannelModel::Udp { host: host@, port: *port },
        }
    }
}

impl Clone for AeronChannel {
    fn clone(&self) -> (copy: AeronChannel)
        ensures
            copy == *self,
    {
        match self {
            AeronChannel::Ipc => AeronChannel::Ipc,
            AeronChannel::Udp { host, port } => AeronChannel::Udp {
                host: host.clone(),
                port: *port,
            },
        }
    }
}

impl AeronChannel {
    pub fn ipc() -> (channel: AeronChannel)
        ensures
            channel@ == ChannelModel::Ipc,
    {
        AeronChannel::Ipc
    }

    pub fn udp(host: &str, port: u16) -> (channel: AeronChannel)
        ensures
            channel@ == (ChannelModel::Udp { host: host@, port }),
    {
        AeronChannel::Udp { host: host.to_owned(), port }
    }

    /// The channel in Aeron's own notation.
    pub fn to_channel_string(&self) -> (text: String)
        ensures
            text@ == self@.text(),
    {
        match self {
            AeronChannel::Ipc => "aeron:ipc".to_owned(),
            AeronChannel::Udp { host, port } => {
                let mut text: String = "aeron:udp?endpoint=".to_owned();
                text.append(host.as_str());
                text.append(":");
                let digits: String = decimal_text(*port as u64);
                text.append(digits.as_str());
                text
            },
        }
    }
}

/// What it takes to open an Aeron stream.
#[derive(Debug, PartialEq, Eq)]
pub struct AeronConfig {
    pub aeron_channel: AeronChannel,
    pub stream_id: i32,
}

/// The contents of an [`AeronConfig`].
#[verifier::ext_equal]
pub struct AeronConfigModel {
    pub aeron_channel: ChannelModel,
    pub stream_id: i32,
}

impl View for AeronConfig {
    type V = AeronConfigModel;

    open spec fn view(&self) -> AeronConfigModel {
        AeronConfigModel { aeron_channel: self.aeron_channel@, stream_id: self.stream_id }
    }
}

impl Clone for AeronConfig {
    fn clone(&self) -> (copy: AeronConfig)
        ensures
            copy == *self,
    {
        AeronConfig { aeron_channel: self.aeron_channel.clone(), stream_id: self.stream_id }
    }
}

/// The configuration of an Aeron stream on shared memory.
pub open spec fn ipc_config(stream_id: i32) -> AeronConfigModel {
    AeronConfigModel { aeron_channel: ChannelModel::Ipc, stream_id }
}

/// The configuration of an Aeron stream that is sent to `endpoint`.
pub open spec fn udp_config(endpoint: AddressModel, stream_id: i32) -> AeronConfigModel {
    AeronConfigModel {
        aeron_channel: ChannelModel::Udp { host: endpoint.host, port: endpoint.port },
        stream_id,
    }
}

fn new_ipc_config(stream_id: i32) -> (config: AeronConfig)
    ensures
        config@ == ipc_config(stream_id),
{
    AeronConfig { aeron_channel: AeronChannel::Ipc, stream_id }
}

fn new_udp_config(endpoint: &SocketAddress, stream_id: i32) -> (config: AeronConfig)
    ensures
        config@ == udp_config(endpoint@, stream_id),
{
    AeronConfig {
        aeron_channel: AeronChannel::Udp { host: endpoint.host.clone(), port: endpoint.port },
        stream_id,
    }
}

/// The transport that a client wants its data on.
#[derive(Debug, PartialEq, Eq)]
pub enum ClientTransportConfig {
    WebSocket,
    Udp,
    AeronIpc { stream_id: i32 },
    AeronUdp { endpoint: SocketAddress, stream_id: i32 },
}

/// The contents of a [`ClientTransportConfig`].
#[verifier::ext_equal]
pub enum ClientTransportModel {
    WebSocket,
    Udp,
    AeronIpc { stream_id: i32 },
    AeronUdp { endpoint: AddressModel, stream_id: i32 },
}

impl View for ClientTransportConfig {
    type V = ClientTransportModel;

    open spec fn view(&self) -> ClientTransportModel {
        match self {
            ClientTransportConfig::WebSocket => ClientTransportModel::WebSocket,
            ClientTransportConfig::Udp => ClientTransportModel::Udp,
            ClientTransportConfig::AeronIpc { stream_id } => ClientTransportModel::AeronIpc {
                stream_id: *stream_id,
            },
            ClientTransportConfig::AeronUdp { endpoint, stream_id } =>
                ClientTransportModel::AeronUdp { endpoint: endpoint@, stream_id: *stream_id },
        }
    }
}

impl ClientTransportModel {
    /// The Aeron stream behind the transport.
    pub open spec fn aeron_config(self) -> Option<AeronConfigModel> {
        match self {
            ClientTransportModel::WebSocket | ClientTransportModel::Udp => None,
            ClientTransportModel::AeronIpc { stream_id } => Some(ipc_config(stream_id)),
            ClientTransportModel::AeronUdp { endpoint, stream_id } => Some(
                udp_config(endpoint, stream_id),
            ),
        }
    }
}

impl Clone for ClientTransportConfig {
    fn clone(&self) -> (copy: ClientTransportConfig)
        ensures
            copy == *self,
    {
        match self {
            ClientTransportConfig::WebSocket => ClientTransportConfig::WebSocket,
            ClientTransportConfig::Udp => ClientTransportConfig::Udp,
            ClientTransportConfig::AeronIpc { stream_id } => ClientTransportConfig::AeronIpc {
                stream_id: *stream_id,
            },
            ClientTransportConfig::AeronUdp { endpoint, stream_id } =>
                ClientTransportConfig::AeronUdp {
                endpoint: endpoint.clone(),
                stream_id: *stream_id,
            },
        }
    }
}

impl ClientTransportConfig {
    pub fn is_aeron(&self) -> (aeron: bool)
        ensures
            aeron == (self@.aeron_config() is Some),
    {
        match self {
            ClientTransportConfig::AeronIpc { .. } => true,
            ClientTransportConfig::AeronUdp { .. } => true,
            ClientTransportConfig::WebSocket => false,
            ClientTransportConfig::Udp => false,
        }
    }

    /// The Aeron stream behind the transport.
    pub fn aeron_config(&self) -> (config: Option<AeronConfig>)
        ensures
            match config {
                Some(config) => self@.aeron_config() == Some(config@),
                None => self@.aeron_config() is None,
            },
    {
        match self {
            ClientTransportConfig::AeronIpc { stream_id } => Some(new_ipc_config(*stream_id)),
            ClientTransportConfig::AeronUdp { endpoint, stream_id } => Some(
                new_udp_config(endpoint, *stream_id),
            ),
            ClientTransportConfig::WebSocket => None,
            ClientTransportConfig::Udp => None,
        }
    }
}

/// The transport that a client asks a server for.
#[derive(Debug, PartialEq, Eq)]
pub enum TransportSelection {
    WebSocket,
    Udp { client_port: u16 },
    AeronIpc { stream_id: i32 },
    AeronUdp { endpoint: SocketAddress, stream_id: i32 },
}

/// The contents of a [`TransportSelection`].
#[verifier::ext_equal]
pub enum SelectionModel {
    WebSocket,
    Udp { client_port: u16 },
    AeronIpc { stream_id: i32 },
    AeronUdp { endpoint: AddressModel, stream_id: i32 },
}

impl View for TransportSelection {
    type V = SelectionModel;

    open spec fn view(&self) -> SelectionModel {
        match self {
            TransportSelection::WebSocket => SelectionModel::WebSocket,
            TransportSelection::Udp { client_port } => SelectionModel::Udp {
                client_port: *client_port,
            },
            TransportSelection::AeronIpc { stream_id } => SelectionModel::AeronIpc {
                stream_id: *stream_id,
            },
            TransportSelection::AeronUdp { endpoint, stream_id } => SelectionModel::AeronUdp {
                endpoint: endpoint@,
                stream_id: *stream_id,
            },
        }
    }
}

impl SelectionModel {
    /// The Aeron stream behind the transport.
    pub open spec fn aeron_config(self) -> Option<AeronConfigModel> {
        match self {
            SelectionModel::WebSocket | SelectionModel::Udp { .. } => None,
            SelectionModel::AeronIpc { stream_id } => Some(ipc_config(stream_id)),
            SelectionModel::AeronUdp { endpoint, stream_id } => Some(
                udp_config(endpoint, stream_id),
            ),
        }
    }
}

impl Clone for TransportSelection {
    fn clone(&self) -> (copy: TransportSelection)
        ensures
            copy == *self,
    {
        match self {
            TransportSelection::WebSocket => TransportSelection::WebSocket,
            TransportSelection::Udp { client_port } => TransportSelection::Udp {
                client_port: *client_port,
            },
            TransportSelection::AeronIpc { stream_id } => TransportSelection::AeronIpc {
                stream_id: *stream_id,
            },
            TransportSelection::AeronUdp { endpoint, stream_id } => TransportSelection::AeronUdp {
                endpoint: endpoint.clone(),
                stream_id: *stream_id,
            },
        }
    }
}

impl TransportSelection {
    /// The Aeron stream behind the transport.
    pub fn aeron_config(&self) -> (config: Option<AeronConfig>)
        ensures
            match config {
                Some(config) => self@.aeron_config() == Some(config@),
                None => self@.aeron_config() is None,
            },
    {
        match self {
            TransportSelection::AeronIpc { stream_id } => Some(new_ipc_config(*stream_id)),
            TransportSelection::AeronUdp { endpoint, stream_id } => Some(
                new_udp_config(endpoint, *stream_id),
            ),
            TransportSelection::WebSocket => None,
            TransportSelection::Udp { .. } => None,
        }
    }
}

/// The one operation of a [`SelectTransport`] message.
#[derive(Debug, Clone, Copy, PartialEq, Eq, Structural)]
pub enum SelectTransportOperation {
    SelectTransport,
}

/// The message by which a client asks for a transport.
#[derive(Debug, PartialEq, Eq)]
pub struct SelectTransport {
    pub op: SelectTransportOperation,
    pub transport: TransportSelection,
}

impl Clone for SelectTransport {
    fn clone(&self) -> (copy: SelectTransport)
        ensures
            copy == *self,
    {
        SelectTransport { op: self.op, transport: self.transport.clone() }
    }
}

impl SelectTransport {
    pub fn new(transport: TransportSelection) -> (message: SelectTransport)
        ensures
            message == (SelectTransport {
                op: SelectTransportOperation::SelectTransport,
                transport,
            }),
    {
        SelectTransport { op: SelectTransportOperation::SelectTransport, transport }
    }
}

/// The transport that a server has prepared.
#[derive(Debug, PartialEq, Eq)]
pub enum TransportReady {
    WebSocket,
    Udp { server_address: SocketAddress },
    AeronIpc { stream_id: i32 },
    AeronUdp { endpoint: SocketAddress, stream_id: i32 },
}

/// The contents of a [`TransportReady`].
#[verifier::ext_equal]
pub enum ReadyModel {
    WebSocket,
    Udp { server_address: AddressModel },
    AeronIpc { stream_id: i32 },
    AeronUdp { endpoint: AddressModel, stream_id: i32 },
}

impl View for TransportReady {
    type V = ReadyModel;

    open spec fn view(&self) -> ReadyModel {
        match self {
            TransportReady::WebSocket => ReadyModel::WebSocket,
            TransportReady::Udp { server_address } => ReadyModel::Udp {
                server_address: server_address@,
            },
            TransportReady::AeronIpc { stream_id } => ReadyModel::AeronIpc {
                stream_id: *stream_id,
            },
            TransportReady::AeronUdp { endpoint, stream_id } => ReadyModel::AeronUdp {
                endpoint: endpoint@,
                stream_id: *stream_id,
            },
        }
    }
}

impl Clone for TransportReady {
    fn clone(&self) -> (copy: TransportReady)
        ensures
            copy == *self,
    {
        match self {
            TransportReady::WebSocket => TransportReady::WebSocket,
            TransportReady::Udp { server_address } => TransportReady::Udp {
                server_address: server_address.clone(),
            },
            TransportReady::AeronIpc { stream_id } => TransportReady::AeronIpc {
                stream_id: *stream_id,
            },
            TransportReady::AeronUdp { endpoint, stream_id } => TransportReady::AeronUdp {
                endpoint: endpoint.clone(),
                stream_id: *stream_id,
            },
        }
    }
}

/// What a server answers on the control connection.
#[derive(Debug, PartialEq, Eq)]
pub enum ControlReply {
    TransportReady { transport: TransportReady },
    Subscribed { args: Vec<SubscriptionArg> },
    Unsubscribed { args: Vec<SubscriptionArg> },
    Refetched { args: Vec<SubscriptionArg> },
    Error { message: String },
}

/// The contents of a [`ControlReply`].
#[verifier::ext_equal]
pub enum ReplyModel {
    TransportReady { transport: ReadyModel },
    Subscribed { args: Seq<ArgModel> },
    Unsubscribed { args: Seq<ArgModel> },
    Refetched { args: Seq<ArgModel> },
    Error { message: Seq<char> },
}

impl View for ControlReply {
    type V = ReplyModel;

    open spec fn view(&self) -> ReplyModel {
        match self {
            ControlReply::TransportReady { transport } => ReplyModel::TransportReady {
                transport: transport@,
            },
            ControlReply::Subscribed { args } => ReplyModel::Subscribed { args: arg_models(args@) },
            ControlReply::Unsubscribed { args } => ReplyModel::Unsubscribed {
                args: arg_models(args@),
            },
            ControlReply::Refetched { args } => ReplyModel::Refetched { args: arg_models(args@) },
            ControlReply::Error { message } => ReplyModel::Error { message: message@ },
        }
    }
}

impl RequestModel {
    /// The answer that grants this request.
    pub open spec fn granted(self) -> ReplyModel {
        match self.op {
            ControlOperation::Subscribe => ReplyModel::Subscribed { args: self.args },
            ControlOperation::Unsubscribe => ReplyModel::Unsubscribed { args: self.args },
            ControlOperation::RefetchBbo => ReplyModel::Refetched { args: self.args },
        }
    }
}

impl Clone for ControlReply {
    fn clone(&self) -> (copy: ControlReply)
        ensures
            copy@ == self@,
    {
        match self {
            ControlReply::TransportReady { transport } => ControlReply::TransportReady {
                transport: transport.clone(),
            },
            ControlReply::Subscribed { args } => ControlReply::Subscribed { args: copy_args(args) },
            ControlReply::Unsubscribed { args } => ControlReply::Unsubscribed {
                args: copy_args(args),
            },
            ControlReply::Refetched { args } => ControlReply::Refetched { args: copy_args(args) },
            ControlReply::Error { message } => ControlReply::Error { message: message.clone() },
        }
    }
}

impl ControlReply {
    /// The answer that grants a request.
    pub fn for_request(request: &ControlRequest) -> (reply: ControlReply)
        ensures
            reply@ == request@.granted(),
    {
        match request.op {
            ControlOperation::Subscribe => ControlReply::Subscribed {
                args: copy_args(&request.args),
            },
            ControlOperation::Unsubscribe => ControlReply::Unsubscribed {
                args: copy_args(&request.args),
            },
            ControlOperation::RefetchBbo => ControlReply::Refetched {
                args: copy_args(&request.args),
            },
        }
    }

    /// The answer that refuses a request.
    pub fn error(message: &str) -> (reply: ControlReply)
        ensures
            reply@ == (ReplyModel::Error { message: message@ }),
    {
        ControlReply::Error { message: message.to_owned() }
    }
}

/// Requests that differ are granted by answers that differ.
pub proof fn law_granted_replies_tell_requests_apart(left: RequestModel, right: RequestModel)
    ensures
        left.granted() == right.granted() <==> left == right,
{
}

/// A request with the number that its reply carries.
#[derive(Debug, PartialEq, Eq)]
pub struct ControlRequestEnvelope {
    pub request_id: u64,
    pub request: ControlRequest,
}

impl ControlRequestEnvelope {
    pub fn new(request_id: u64, request: ControlRequest) -> (envelope: ControlRequestEnvelope)
        ensures
            envelope == (ControlRequestEnvelope { request_id, request }),
    {
        ControlRequestEnvelope { request_id, request }
    }
}

/// A reply with the number of the request that it answers; a reply to the choice of a
/// transport has none.
#[derive(Debug, PartialEq, Eq)]
pub struct ControlReplyEnvelope {
    pub request_id: Option<u64>,
    pub reply: ControlReply,
}

impl ControlReplyEnvelope {
    pub fn new(request_id: Option<u64>, reply: ControlReply) -> (envelope: ControlReplyEnvelope)
        ensures
            envelope == (ControlReplyEnvelope { request_id, reply }),
    {
        ControlReplyEnvelope { request_id, reply }
    }
}

} // verus!
