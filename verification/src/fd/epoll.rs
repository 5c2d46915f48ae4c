use crate::allocation::{allocation_granted, allocation_refused, reserved};
use crate::counting::{count, count_take_next, total};
use crate::fd::types::{EpollId, FdNumber, InterestMask, InterestMode, OfdId, ReadyMask};
use vstd::prelude::*;

verus! {

/// Linux epoll interest identity: the shared OFD plus descriptor used by ADD.
#[derive(Debug, Clone, Copy, PartialEq, Eq, PartialOrd, Ord, Hash, Structural)]
pub struct EpollKey {
    /// Stable open-file-description identity.
    pub ofd: OfdId,
    /// Numeric descriptor supplied to `EPOLL_CTL_ADD`.
    pub fd: FdNumber,
}

/// One fully armed interest ready for atomic epoll publication.
#[derive(Debug)]
pub struct EpollInterest<U, S> {
    pub(crate) key: EpollKey,
    pub(crate) interest: InterestMask,
    pub(crate) mode: InterestMode,
    pub(crate) user_data: U,
    pub(crate) subscription: S,
}

impl<U, S> EpollInterest<U, S> {
    /// Creates an interest after the aggregate source subscription is armed.
    pub fn new(
        key: EpollKey,
        interest: InterestMask,
        mode: InterestMode,
        user_data: U,
        subscription: S,
    ) -> (result: Self)
        ensures
            result.key() == key,
            result.interest() == interest,
            result.mode() == mode,
            *result.user_data() == user_data,
            *result.subscription() == subscription,
    {
        Self { key, interest, mode, user_data, subscription }
    }

    /// Returns the Linux `(OFD, fd)` identity.
    #[verifier::when_used_as_spec(spec_key)]
    pub fn key(&self) -> (result: EpollKey)
        ensures
            result == self.spec_key(),
    {
        self.key
    }

    /// Specification counterpart of [`Self::key`].
    pub open(crate) spec fn spec_key(&self) -> EpollKey {
        self.key
    }

    /// Returns the normal readiness interest mask.
    #[verifier::when_used_as_spec(spec_interest)]
    pub fn interest(&self) -> (result: InterestMask)
        ensures
            result == self.spec_interest(),
    {
        self.interest
    }

    /// Specification counterpart of [`Self::interest`].
    pub open(crate) spec fn spec_interest(&self) -> InterestMask {
        self.interest
    }

    /// Returns trigger behavior.
    #[verifier::when_used_as_spec(spec_mode)]
    pub fn mode(&self) -> (result: InterestMode)
        ensures
            result == self.spec_mode(),
    {
        self.mode
    }

    /// Specification counterpart of [`Self::mode`].
    pub open(crate) spec fn spec_mode(&self) -> InterestMode {
        self.mode
    }

    /// Returns user-provided event data.
    #[verifier::when_used_as_spec(spec_user_data)]
    pub fn user_data(&self) -> (result: &U)
        ensures
            result == self.spec_user_data(),
    {
        &self.user_data
    }

    /// Specification counterpart of [`Self::user_data`].
    pub open(crate) spec fn spec_user_data(&self) -> &U {
        &self.user_data
    }

    /// Returns the retained aggregate source subscription.
    #[verifier::when_used_as_spec(spec_subscription)]
    pub fn subscription(&self) -> (result: &S)
        ensures
            result == self.spec_subscription(),
    {
        &self.subscription
    }

    /// Specification counterpart of [`Self::subscription`].
    pub open(crate) spec fn spec_subscription(&self) -> &S {
        &self.subscription
    }

    /// Decomposes ownership for lock-external cancellation/destruction.
    pub fn into_parts(self) -> (result: (EpollKey, InterestMask, InterestMode, U, S))
        ensures
            result == (
                self.key(),
                self.interest(),
                self.mode(),
                *self.user_data(),
                *self.subscription(),
            ),
    {
        (self.key, self.interest, self.mode, self.user_data, self.subscription)
    }
}

/// Generation-tagged callback/ctl identity for one epoll interest.
#[derive(Debug, Clone, Copy, PartialEq, Eq, Hash, Structural)]
pub struct EpollToken {
    pub(crate) epoll: EpollId,
    pub(crate) slot: usize,
    pub(crate) generation: u64,
}

impl EpollToken {
    /// Returns the owning epoll instance.
    #[verifier::when_used_as_spec(spec_epoll)]
    pub fn epoll(self) -> (result: EpollId)
        ensures
            result == self.spec_epoll(),
    {
        self.epoll
    }

    /// Specification counterpart of [`Self::epoll`].
    pub open(crate) spec fn spec_epoll(self) -> EpollId {
        self.epoll
    }

    /// Returns the private slot index for adapter indexes.
    #[verifier::when_used_as_spec(spec_slot)]
    pub fn slot(self) -> (result: usize)
        ensures
            result == self.spec_slot(),
    {
        self.slot
    }

    /// Specification counterpart of [`Self::slot`].
    pub open(crate) spec fn spec_slot(self) -> usize {
        self.slot
    }

    /// Returns the opaque generation.
    #[verifier::when_used_as_spec(spec_generation)]
    pub fn generation(self) -> (result: u64)
        ensures
            result == self.spec_generation(),
    {
        self.generation
    }

    /// Specification counterpart of [`Self::generation`].
    pub open(crate) spec fn spec_generation(self) -> u64 {
        self.generation
    }
}

/// In-flight ready event retained across lock-free userspace copyout.
#[derive(Debug, Clone, Copy, PartialEq, Eq, Hash, Structural)]
pub struct DeliveryToken {
    pub(crate) interest: EpollToken,
    pub(crate) serial: u64,
    pub(crate) events: ReadyMask,
}

impl DeliveryToken {
    /// Returns the exact interest generation whose delivery is in flight.
    ///
    /// An adapter uses this identity after lock-free userspace copyout to find
    /// its non-authoritative source-control index, recheck level readiness,
    /// and rearm the retained source before finishing the core transaction.
    /// User data is intentionally not an identity because Linux permits
    /// duplicate `epoll_event.data` values.
    #[verifier::when_used_as_spec(spec_interest)]
    pub fn interest(self) -> (result: EpollToken)
        ensures
            result == self.spec_interest(),
    {
        self.interest
    }

    /// Specification counterpart of [`Self::interest`].
    pub open(crate) spec fn spec_interest(self) -> EpollToken {
        self.interest
    }

    /// The serial that names this delivery among all deliveries of the core.
    pub open(crate) spec fn serial(self) -> u64 {
        self.serial
    }

    /// The readiness bits handed out with this delivery.
    pub open(crate) spec fn events(self) -> ReadyMask {
        self.events
    }
}

/// Stable candidate returned before an adapter prepares userspace event data.
///
/// Preparing this token never clones caller state or mutates a valid ready
/// entry. The adapter may release its IRQ-safe core lock, prepare an owned
/// event payload, then call [`EpollCore::commit_delivery`].
#[derive(Debug, Clone, Copy, PartialEq, Eq, Hash, Structural)]
pub struct DeliveryPreparation {
    pub(crate) interest: EpollToken,
}

impl DeliveryPreparation {
    /// Returns the exact interest generation that must still be ready at
    /// commit.
    #[verifier::when_used_as_spec(spec_interest)]
    pub fn interest(self) -> (result: EpollToken)
        ensures
            result == self.spec_interest(),
    {
        self.interest
    }

    /// Specification counterpart of [`Self::interest`].
    pub open(crate) spec fn spec_interest(self) -> EpollToken {
        self.interest
    }
}

/// Ready event snapshot returned without retaining an epoll-core borrow.
#[derive(Debug, Clone, PartialEq, Eq)]
pub struct ReadyEvent<U> {
    /// Token required to finish copied or faulted delivery.
    pub delivery: DeliveryToken,
    /// Coalesced Linux readiness bits.
    pub events: ReadyMask,
    /// User data captured from the interest generation.
    pub user_data: U,
}

/// Result of userspace copyout and the post-copy level recheck.
#[derive(Debug, Clone, Copy, PartialEq, Eq, Structural)]
pub enum DeliveryOutcome {
    /// The event was copied. Level-triggered callers provide readiness after
    /// copy; edge-triggered callers normally pass an empty mask.
    Copied {
        /// Readiness observed by the adapter's post-copy level check.
        still_ready: ReadyMask,
    },
    /// The adapter re-polled the queued item immediately before copyout and
    /// found no currently deliverable event. The stale snapshot is discarded,
    /// but a wake which raced the recheck remains pending and one-shot state is
    /// not consumed because userspace observed no event.
    Suppressed,
    /// Copyout faulted; the same event must remain deliverable.
    Fault,
}

/// Wake callback publication result.
#[derive(Debug, Clone, Copy, PartialEq, Eq, Structural)]
pub enum NotifyOutcome {
    /// A new ready-queue item was published.
    Enqueued,
    /// Bits were coalesced into an already queued or in-flight item.
    Coalesced,
    /// The interest is disabled or no requested/unconditional bit is ready.
    Ignored,
}

/// Epoll-core operation failure before errno mapping.
#[derive(Debug, Clone, Copy, PartialEq, Eq, Structural)]
#[non_exhaustive]
pub enum EpollError {
    /// Fallible fixed-capacity storage could not be reserved.
    NoMemory,
    /// Interest or ready capacity is exhausted.
    Capacity,
    /// The `(OFD, fd)` interest already exists.
    Duplicate,
    /// The requested interest does not exist.
    NotFound,
    /// A callback, ctl, or delivery token is stale or foreign.
    StaleToken,
    /// Trigger flags form an unsupported combination.
    UnsupportedMode,
    /// No future unique generation/serial can be allocated.
    GenerationExhausted,
    /// Ready storage violated its admitted one-item-per-interest invariant.
    ReadyQueueFull,
    /// A bounded rescan was requested after an unexpected queue overflow.
    RescanRequired,
}

/// Progress from one explicitly bounded epoll readiness rescan.
#[derive(Debug, Clone, Copy, PartialEq, Eq, Structural)]
pub struct RescanProgress {
    /// Entry slots examined by this call.
    pub scanned: usize,
    /// Previously unqueued ready interests published by this call.
    pub enqueued: usize,
    /// Whether every entry was examined and the rescan request was cleared.
    pub complete: bool,
}

/// Failed ADD/MOD which returns the never-published replacement ownership.
#[derive(Debug)]
pub struct EpollPublishError<U, S> {
    /// Typed epoll error.
    pub error: EpollError,
    /// Interest and retained subscription not published by the operation.
    pub interest: EpollInterest<U, S>,
}

/// Failed delivery commit which returns the adapter-prepared payload.
#[derive(Debug)]
pub struct DeliveryCommitError<U> {
    /// Typed epoll-core error.
    pub error: EpollError,
    /// Payload that was never published into a ready event.
    pub user_data: U,
}

/// Generation-tagged owner of one incremental defensive rescan.
#[derive(Debug, Clone, Copy, PartialEq, Eq, Hash, Structural)]
pub struct RescanToken {
    pub(crate) epoll: EpollId,
    pub(crate) generation: u64,
}

impl RescanToken {
    /// Returns the owning epoll instance.
    #[verifier::when_used_as_spec(spec_epoll)]
    pub fn epoll(self) -> (result: EpollId)
        ensures
            result == self.spec_epoll(),
    {
        self.epoll
    }

    /// Specification counterpart of [`Self::epoll`].
    pub open(crate) spec fn spec_epoll(self) -> EpollId {
        self.epoll
    }

    /// Returns the recovery generation.
    #[verifier::when_used_as_spec(spec_generation)]
    pub fn generation(self) -> (result: u64)
        ensures
            result == self.spec_generation(),
    {
        self.generation
    }

    /// Specification counterpart of [`Self::generation`].
    pub open(crate) spec fn spec_generation(self) -> u64 {
        self.generation
    }
}

/// One published interest together with its delivery state.
pub struct Entry<U, S> {
    /// Generation that every token for this publication carries.
    pub generation: u64,
    /// The published interest and its retained subscription.
    pub interest: EpollInterest<U, S>,
    /// Whether new readiness may be delivered.
    pub enabled: bool,
    /// Whether a ready record for this interest is queued.
    pub queued: bool,
    /// Serial of the delivery in flight, if any.
    pub in_delivery: Option<u64>,
    /// Readiness waiting for the next delivery.
    pub ready: ReadyMask,
    /// Readiness that arrived while a delivery was in flight.
    pub during_delivery: ReadyMask,
}

/// Progress of one defensive rescan over the interest slots.
#[derive(Debug, Clone, Copy)]
pub struct RescanState {
    /// Generation that the rescan token carries.
    pub generation: u64,
    /// Next slot to examine.
    pub cursor: usize,
    /// Slots still to examine.
    pub remaining: usize,
}

impl<U, S> Entry<U, S> {
    /// A newly published interest: enabled, idle, and without readiness.
    pub open spec fn fresh(generation: u64, interest: EpollInterest<U, S>) -> Self {
        Entry {
            generation,
            interest,
            enabled: true,
            queued: false,
            in_delivery: None,
            ready: ReadyMask::EMPTY(),
            during_delivery: ReadyMask::EMPTY(),
        }
    }

    /// Readiness is waiting although neither the queue nor a delivery holds
    /// the interest.
    pub open spec fn pending(self) -> bool {
        self.enabled && !self.ready.is_empty() && !self.queued && self.in_delivery is None
    }

    /// A queued interest is enabled and ready, an interest in delivery is
    /// enabled and holds no readiness of its own, and readiness races only a
    /// delivery that is in flight.
    pub open spec fn consistent(self) -> bool {
        &&& self.queued ==> self.enabled && self.in_delivery is None && !self.ready.is_empty()
        &&& self.in_delivery is Some ==> self.enabled && self.ready.is_empty()
        &&& self.in_delivery is None ==> self.during_delivery.is_empty()
    }

    /// The readiness left once a delivery of `events` ended with `outcome`.
    pub open spec fn ready_after(self, events: ReadyMask, outcome: DeliveryOutcome) -> ReadyMask {
        match outcome {
            DeliveryOutcome::Fault => self.ready.union(events.union(self.during_delivery)),
            DeliveryOutcome::Suppressed => self.ready.union(self.during_delivery),
            DeliveryOutcome::Copied { still_ready } => if self.interest.mode().edge {
                self.ready.union(self.during_delivery)
            } else {
                self.ready.union(self.during_delivery).union(
                    still_ready.deliverable(self.interest.interest()),
                )
            },
        }
    }

    /// The entry once a delivery of `events` ended with `outcome`: a copied
    /// one-shot event disables the interest, nothing else does.
    pub open spec fn settled(self, events: ReadyMask, outcome: DeliveryOutcome) -> Self {
        Entry {
            in_delivery: None,
            ready: self.ready_after(events, outcome),
            during_delivery: ReadyMask::EMPTY(),
            enabled: self.enabled && !(outcome is Copied && self.interest.mode().one_shot),
            ..self
        }
    }
}

/// Mathematical model of an [`EpollCore`].
#[verifier::ext_equal]
pub struct EpollState<U, S> {
    /// Instance identity.
    pub id: EpollId,
    /// Interest slots.
    pub entries: Seq<Option<Entry<U, S>>>,
    /// Ready records, oldest first.
    pub ready: Seq<EpollToken>,
    /// Next interest generation.
    pub next_generation: u64,
    /// Next delivery serial.
    pub next_delivery: u64,
    /// Next rescan generation.
    pub next_rescan: u64,
    /// Rescan in progress, if any.
    pub rescan: Option<RescanState>,
}

impl<U, S> EpollState<U, S> {
    /// The state of a core without interests.
    pub open spec fn empty(id: EpollId, capacity: nat) -> Self {
        EpollState {
            id,
            entries: Seq::new(capacity, |i: int| None),
            ready: Seq::empty(),
            next_generation: 1,
            next_delivery: 1,
            next_rescan: 1,
            rescan: None,
        }
    }

    /// The token names a currently published interest generation.
    pub open spec fn resolves(self, token: EpollToken) -> bool {
        &&& token.epoll() == self.id
        &&& token.slot() < self.entries.len()
        &&& self.entries[token.slot() as int] matches Some(entry)
        &&& entry.generation == token.generation()
    }

    /// The entry that a resolving token names.
    pub open spec fn entry(self, token: EpollToken) -> Entry<U, S> {
        self.entries[token.slot() as int]->0
    }

    /// The state with one entry replaced.
    pub open spec fn with_entry(self, token: EpollToken, entry: Entry<U, S>) -> Self {
        EpollState { entries: self.entries.update(token.slot() as int, Some(entry)), ..self }
    }

    /// The token currently naming the interest in `slot`.
    pub open(crate) spec fn token_at(self, slot: int) -> EpollToken {
        EpollToken {
            epoll: self.id,
            slot: slot as usize,
            generation: self.entries[slot]->0.generation,
        }
    }

    /// An interest for `key` is published.
    pub open spec fn has_key(self, key: EpollKey) -> bool {
        exists|i: int|
            0 <= i < self.entries.len() && (#[trigger] self.entries[i]) is Some
                && self.entries[i]->0.interest.key() == key
    }

    /// `slot` is the lowest unused interest slot.
    pub open spec fn first_vacant(self, slot: int) -> bool {
        &&& 0 <= slot < self.entries.len()
        &&& self.entries[slot] is None
        &&& forall|i: int| 0 <= i < slot ==> (#[trigger] self.entries[i]) is Some
    }

    /// Every interest slot is used.
    pub open spec fn full(self) -> bool {
        forall|i: int| 0 <= i < self.entries.len() ==> (#[trigger] self.entries[i]) is Some
    }

    /// A ready record is backed by a queued interest of the same generation.
    pub open spec fn backs(self, token: EpollToken) -> bool {
        self.resolves(token) && self.entry(token).queued
    }

    /// The state once a rescan of every slot was requested. Without another
    /// rescan generation the request is dropped.
    pub open spec fn with_rescan(self) -> Self {
        if self.next_rescan == u64::MAX {
            self
        } else {
            EpollState {
                rescan: Some(
                    RescanState {
                        generation: self.next_rescan,
                        cursor: 0,
                        remaining: self.entries.len() as usize,
                    },
                ),
                next_rescan: (self.next_rescan + 1) as u64,
                ..self
            }
        }
    }

    /// The state once the interest named by `token` was to be queued: a full
    /// queue requests a rescan instead.
    pub open spec fn enqueued(self, token: EpollToken) -> Self {
        if self.ready.len() < self.entries.len() {
            EpollState {
                ready: self.ready.push(token),
                ..self.with_entry(token, Entry { queued: true, ..self.entry(token) })
            }
        } else {
            self.with_rescan()
        }
    }

    /// What queueing an interest reports.
    pub open spec fn enqueue_result(self) -> Result<(), EpollError> {
        if self.ready.len() < self.entries.len() {
            Ok(())
        } else if self.next_rescan == u64::MAX {
            Err(EpollError::GenerationExhausted)
        } else {
            Err(EpollError::ReadyQueueFull)
        }
    }

    /// The first `k` ready records are stale, and the next one, if any, is not.
    pub open spec fn stale_records(self, k: int) -> bool {
        &&& 0 <= k <= self.ready.len()
        &&& forall|j: int| 0 <= j < k ==> !self.backs(#[trigger] self.ready[j])
        &&& k < self.ready.len() ==> self.backs(self.ready[k])
    }

    /// The state without the first `k` ready records.
    pub open spec fn without_records(self, k: int) -> Self {
        EpollState { ready: self.ready.skip(k), ..self }
    }

    /// The state once the oldest ready record, which `token` backs, was handed
    /// out for delivery.
    pub open spec fn delivering(self, token: EpollToken) -> Self {
        EpollState {
            ready: self.ready.skip(1),
            next_delivery: (self.next_delivery + 1) as u64,
            ..self.with_entry(
                token,
                Entry {
                    queued: false,
                    in_delivery: Some(self.next_delivery),
                    ready: ReadyMask::EMPTY(),
                    ..self.entry(token)
                },
            )
        }
    }

    /// The event handed out when the interest named by `token` is delivered.
    pub open spec fn hands_out<V>(
        self,
        token: EpollToken,
        event: ReadyEvent<V>,
        user_data: V,
    ) -> bool {
        &&& event.delivery.interest() == token
        &&& event.delivery.serial() == self.next_delivery
        &&& event.delivery.events() == self.entry(token).ready
        &&& event.events == self.entry(token).ready
        &&& event.user_data == user_data
    }

    /// The delivery is the one in flight for its interest.
    pub open spec fn in_flight(self, delivery: DeliveryToken) -> bool {
        self.resolves(delivery.interest()) && self.entry(delivery.interest()).in_delivery == Some(
            delivery.serial(),
        )
    }

    /// Tokens of the pending interests in the slots `from..to`, in slot order.
    pub open spec fn pending_between(self, from: int, to: int) -> Seq<EpollToken>
        decreases to - from,
    {
        if to <= from {
            Seq::empty()
        } else {
            let before = self.pending_between(from, to - 1);
            match self.entries[to - 1] {
                Some(entry) => if entry.pending() {
                    before.push(self.token_at(to - 1))
                } else {
                    before
                },
                None => before,
            }
        }
    }

    /// The entries with every pending interest in `from..to` marked queued.
    pub open spec fn marked_between(self, from: int, to: int) -> Seq<Option<Entry<U, S>>> {
        Seq::new(
            self.entries.len(),
            |i: int|
                match self.entries[i] {
                    Some(entry) => if from <= i < to && entry.pending() {
                        Some(Entry { queued: true, ..entry })
                    } else {
                        Some(entry)
                    },
                    None => None,
                },
        )
    }

    /// The state once the rescan `progress` examined every slot before `to`.
    pub open spec fn rescanned(self, progress: RescanState, to: int) -> Self {
        EpollState {
            entries: self.marked_between(progress.cursor as int, to),
            ready: self.ready + self.pending_between(progress.cursor as int, to),
            rescan: Some(
                RescanState {
                    generation: progress.generation,
                    cursor: to as usize,
                    remaining: (self.entries.len() - to) as usize,
                },
            ),
            ..self
        }
    }

    /// Where a rescan call with this budget stops.
    pub open spec fn rescan_target(self, max_entries: usize) -> int {
        if max_entries < self.rescan->0.remaining {
            self.rescan->0.cursor + max_entries
        } else {
            self.entries.len() as int
        }
    }

    /// A rescan call with this budget examines every slot up to its target,
    /// queues what is pending there, and reports so.
    pub open spec fn rescans_into(
        self,
        max_entries: usize,
        next: Self,
        report: RescanProgress,
    ) -> bool {
        let from = self.rescan->0.cursor as int;
        let to = self.rescan_target(max_entries);
        let complete = to == self.entries.len();
        &&& self.ready.len() + self.pending_between(from, to).len() <= self.entries.len()
        &&& next == EpollState {
            rescan: if complete {
                None
            } else {
                self.rescanned(self.rescan->0, to).rescan
            },
            ..self.rescanned(self.rescan->0, to)
        }
        &&& report.scanned == to - from
        &&& report.enqueued == self.pending_between(from, to).len()
        &&& report.complete == complete
    }

    /// No interest in the slots before `to` is pending.
    pub open spec fn swept_before(self, to: int) -> bool {
        forall|i: int|
            0 <= i < to && (#[trigger] self.entries[i]) is Some ==> !self.entries[i]->0.pending()
    }

    /// No readiness is forgotten: an interest is pending only where a rescan
    /// has yet to examine its slot.
    pub open spec fn swept(self) -> bool {
        match self.rescan {
            Some(progress) => self.swept_before(progress.cursor as int),
            None => self.swept_before(self.entries.len() as int),
        }
    }

    /// Outside rescan calls a rescan stays where it is, unless a new one
    /// replaces it or starts.
    pub open spec fn keeps_rescan(self, next: Self) -> bool {
        next.rescan == self.rescan || (next.rescan matches Some(progress) && progress.cursor == 0
            && self.next_rescan <= progress.generation)
    }

    /// What holds of every core: generations and serials in use were issued
    /// earlier, no two interests share a key or a generation, no exclusive
    /// interest is published, every interest is consistent, and a rescan covers
    /// the slots it has left, of which there are some.
    pub open spec fn wf(self) -> bool {
        &&& 1 <= self.next_generation
        &&& 1 <= self.next_delivery
        &&& 1 <= self.next_rescan
        &&& self.ready.len() <= self.entries.len() <= usize::MAX
        &&& forall|i: int|
            0 <= i < self.entries.len() && (#[trigger] self.entries[i]) is Some ==> {
                let entry = self.entries[i]->0;
                &&& entry.generation < self.next_generation
                &&& !entry.interest.mode().exclusive
                &&& entry.consistent()
                &&& entry.in_delivery matches Some(serial) ==> serial < self.next_delivery
            }
        &&& forall|i: int, j: int|
            #![trigger self.entries[i], self.entries[j]]
            0 <= i < j < self.entries.len() && self.entries[i] is Some && self.entries[j] is Some
                ==> {
                &&& self.entries[i]->0.generation != self.entries[j]->0.generation
                &&& self.entries[i]->0.interest.key() != self.entries[j]->0.interest.key()
            }
        &&& self.rescan matches Some(progress) ==> {
            &&& progress.cursor + progress.remaining == self.entries.len()
            &&& progress.remaining > 0
            &&& progress.generation < self.next_rescan
        }
    }

    /// Normal operation: the queue holds exactly one record for each queued
    /// interest, no rescan is needed, and no enabled readiness is forgotten.
    pub open spec fn coherent(self) -> bool {
        &&& self.rescan is None
        &&& forall|i: int| 0 <= i < self.ready.len() ==> self.backs(#[trigger] self.ready[i])
        &&& forall|i: int, j: int|
            #![trigger self.ready[i], self.ready[j]]
            0 <= i < j < self.ready.len() ==> self.ready[i].slot() != self.ready[j].slot()
        &&& forall|s: int|
            0 <= s < self.entries.len() && (#[trigger] self.entries[s]) is Some ==> {
                let entry = self.entries[s]->0;
                &&& entry.queued ==> self.ready.contains(self.token_at(s))
                &&& entry.queued ==> entry.in_delivery is None && entry.enabled
                    && !entry.ready.is_empty()
                &&& !entry.pending()
            }
    }

    /// No token that was stale before is accepted after, no delivery that was
    /// not in flight is in flight after, and generations and serials are only
    /// ever consumed.
    pub open spec fn retires_into(self, next: Self) -> bool {
        &&& next.id == self.id
        &&& next.entries.len() == self.entries.len()
        &&& self.next_generation <= next.next_generation
        &&& self.next_delivery <= next.next_delivery
        &&& self.next_rescan <= next.next_rescan
        &&& forall|token: EpollToken|
            #![trigger next.resolves(token)]
            next.resolves(token) && token.generation() < self.next_generation ==> self.resolves(
                token,
            )
        &&& forall|delivery: DeliveryToken|
            #![trigger next.in_flight(delivery)]
            next.in_flight(delivery) && delivery.serial() < self.next_delivery ==> self.in_flight(
                delivery,
            )
    }
}

/// `ready` without the records equal to `token`.
pub open spec fn without(ready: Seq<EpollToken>, token: EpollToken) -> Seq<EpollToken>
    decreases ready.len(),
{
    if ready.len() == 0 {
        ready
    } else {
        let before = without(ready.drop_last(), token);
        if ready.last() == token {
            before
        } else {
            before.push(ready.last())
        }
    }
}

proof fn without_len(ready: Seq<EpollToken>, token: EpollToken)
    ensures
        without(ready, token).len() <= ready.len(),
    decreases ready.len(),
{
    if ready.len() > 0 {
        without_len(ready.drop_last(), token);
    }
}

/// Removing a record keeps the other records, in order, and nothing else.
pub(crate) proof fn without_keeps_the_rest(ready: Seq<EpollToken>, token: EpollToken)
    ensures
        forall|t: EpollToken| #[trigger]
            without(ready, token).contains(t) <==> ready.contains(t) && t != token,
        (forall|i: int, j: int|
            #![trigger ready[i], ready[j]]
            0 <= i < j < ready.len() ==> ready[i].slot() != ready[j].slot()) ==> (forall|
            i: int,
            j: int,
        |
            #![trigger without(ready, token)[i], without(ready, token)[j]]
            0 <= i < j < without(ready, token).len() ==> without(ready, token)[i].slot()
                != without(ready, token)[j].slot()),
    decreases ready.len(),
{
    if ready.len() > 0 {
        let front = ready.drop_last();
        let before = without(front, token);
        let after = without(ready, token);
        without_keeps_the_rest(front, token);
        assert(ready =~= front.push(ready.last()));
        assert forall|t: EpollToken| #[trigger] after.contains(t) <==> ready.contains(t) && t
            != token by {
            if after.contains(t) {
                let k = choose|k: int| 0 <= k < after.len() && after[k] == t;
                if k < before.len() {
                    assert(before[k] == t);
                    assert(before.contains(t));
                    let m = choose|m: int| 0 <= m < front.len() && front[m] == t;
                    assert(ready[m] == t);
                } else {
                    assert(ready[ready.len() - 1] == t);
                }
            }
            if ready.contains(t) && t != token {
                let m = choose|m: int| 0 <= m < ready.len() && ready[m] == t;
                if m < front.len() {
                    assert(front[m] == t);
                    assert(front.contains(t));
                    assert(before.contains(t));
                    let k = choose|k: int| 0 <= k < before.len() && before[k] == t;
                    assert(after[k] == t);
                } else {
                    assert(after[after.len() - 1] == t);
                }
            }
        }
        if forall|i: int, j: int|
            #![trigger ready[i], ready[j]]
            0 <= i < j < ready.len() ==> ready[i].slot() != ready[j].slot() {
            assert forall|i: int, j: int|
                #![trigger front[i], front[j]]
                0 <= i < j < front.len() implies front[i].slot() != front[j].slot() by {
                assert(front[i] == ready[i] && front[j] == ready[j]);
            }
            assert forall|i: int, j: int|
                #![trigger after[i], after[j]]
                0 <= i < j < after.len() implies after[i].slot() != after[j].slot() by {
                if j < before.len() {
                    assert(after[i] == before[i] && after[j] == before[j]);
                } else {
                    assert(before[i] == after[i]);
                    assert(before.contains(after[i]));
                    let m = choose|m: int| 0 <= m < front.len() && front[m] == after[i];
                    assert(ready[m] == after[i]);
                    assert(ready[ready.len() - 1] == after[j]);
                }
            }
        }
    }
}

/// In normal operation a queue never overflows: while some live interest is
/// not queued there is room for its record.
pub proof fn coherent_queue_has_room<U, S>(state: EpollState<U, S>, slot: int)
    requires
        state.wf(),
        state.coherent(),
        0 <= slot < state.entries.len(),
        state.entries[slot] matches Some(entry) && !entry.queued,
    ensures
        state.ready.len() < state.entries.len(),
{
    let slots = state.ready.map_values(|t: EpollToken| t.slot() as int);
    assert(slots.no_duplicates()) by {
        assert forall|i: int, j: int|
            0 <= i < slots.len() && 0 <= j < slots.len() && i != j implies slots[i]
            != slots[j] by {
            if i < j {
                assert(state.ready[i].slot() != state.ready[j].slot());
            } else {
                assert(state.ready[j].slot() != state.ready[i].slot());
            }
        }
    }
    slots.unique_seq_to_set();
    let all = vstd::set_lib::set_int_range(0, state.entries.len() as int);
    vstd::set_lib::lemma_int_range(0, state.entries.len() as int);
    assert(slots.to_set().subset_of(all.remove(slot))) by {
        assert forall|s: int| slots.to_set().contains(s) implies all.remove(slot).contains(s) by {
            let k = choose|k: int| 0 <= k < slots.len() && slots[k] == s;
            assert(state.backs(state.ready[k]));
        }
    }
    vstd::set_lib::lemma_len_subset(slots.to_set(), all.remove(slot));
}

/// A token that went stale is never accepted again, however many operations
/// follow: slots are reused, generations are not.
pub proof fn retired_tokens_stay_retired<U, S>(
    first: EpollState<U, S>,
    second: EpollState<U, S>,
    third: EpollState<U, S>,
    token: EpollToken,
)
    requires
        first.retires_into(second),
        second.retires_into(third),
        token.generation() < first.next_generation,
        !first.resolves(token),
    ensures
        !second.resolves(token),
        !third.resolves(token),
        first.retires_into(third),
{
    assert forall|t: EpollToken| #[trigger]
        third.resolves(t) && t.generation() < first.next_generation implies first.resolves(t) by {
        assert(second.resolves(t));
    }
    assert forall|d: DeliveryToken| #[trigger]
        third.in_flight(d) && d.serial() < first.next_delivery implies first.in_flight(d) by {
        assert(second.in_flight(d));
    }
}

/// A delivery is settled at most once. Once it was accepted, or its interest was
/// removed or modified, it is not in flight, and whatever follows it never is
/// again: [`EpollCore::finish_delivery`] then refuses it and changes nothing.
pub proof fn settled_deliveries_stay_settled<U, S>(
    first: EpollState<U, S>,
    second: EpollState<U, S>,
    delivery: DeliveryToken,
)
    requires
        first.retires_into(second),
        delivery.serial() < first.next_delivery,
        !first.in_flight(delivery),
    ensures
        !second.in_flight(delivery),
        delivery.serial() < second.next_delivery,
{
}

/// A delivery leaves flight when it is settled, and when its interest is removed
/// or modified: settling clears the serial, and a stale token names nothing.
pub proof fn deliveries_end<U, S>(
    state: EpollState<U, S>,
    delivery: DeliveryToken,
    outcome: DeliveryOutcome,
)
    requires
        state.wf(),
    ensures
        state.in_flight(delivery) ==> {
            let token = delivery.interest();
            let settled = state.with_entry(
                token,
                state.entry(token).settled(delivery.events(), outcome),
            );
            &&& delivery.serial() < state.next_delivery
            &&& !settled.in_flight(delivery)
            &&& !settled.enqueued(token).in_flight(delivery)
        },
        !state.resolves(delivery.interest()) ==> !state.in_flight(delivery),
{
    if state.in_flight(delivery) {
        assert(state.entries[delivery.interest().slot() as int] is Some);
    }
}

/// One call of [`EpollCore::rescan_ready`] that succeeded.
pub struct RescanCall<U, S> {
    /// The core before the call.
    pub before: EpollState<U, S>,
    /// The core after the call.
    pub after: EpollState<U, S>,
    /// The budget of the call.
    pub max_entries: usize,
    /// What the call reported.
    pub report: RescanProgress,
}

/// The slots that a call examined.
pub open spec fn scanned_by<U, S>() -> spec_fn(RescanCall<U, S>) -> nat {
    |call: RescanCall<U, S>| call.report.scanned as nat
}

/// The calls are calls of one rescan, each successful, from its start: between
/// two of them other calls may have changed the core, but no new rescan began.
pub open spec fn one_rescan<U, S>(calls: Seq<RescanCall<U, S>>, generation: u64) -> bool {
    &&& calls.len() > 0
    &&& calls[0].before.rescan matches Some(progress) && progress.cursor == 0
    &&& forall|i: int|
        0 <= i < calls.len() ==> {
            let call = #[trigger] calls[i];
            &&& call.before.wf()
            &&& call.before.rescan matches Some(progress) && progress.generation == generation
            &&& call.before.entries.len() == calls[0].before.entries.len()
            &&& call.before.rescans_into(call.max_entries, call.after, call.report)
        }
    &&& forall|i: int|
        0 <= i < calls.len() - 1 ==> (#[trigger] calls[i]).after.keeps_rescan(calls[i + 1].before)
}

/// The calls of one rescan examine every slot once: up to each call they have
/// examined exactly the slots before its target, and when the last reports
/// completion they have examined as many slots as the core has.
pub proof fn a_rescan_examines_every_slot_once<U, S>(
    calls: Seq<RescanCall<U, S>>,
    generation: u64,
)
    requires
        one_rescan(calls, generation),
    ensures
        total(calls, scanned_by()) == calls.last().before.rescan_target(calls.last().max_entries),
        calls.last().report.complete ==> total(calls, scanned_by())
            == calls[0].before.entries.len(),
        calls.last().report.complete == (calls.last().after.rescan is None),
    decreases calls.len(),
{
    let n = calls.len() - 1;
    let last = calls[n];
    let rest = calls.drop_last();
    assert(last == calls.last());
    assert(last.before.wf());
    if n == 0 {
        assert(rest.len() == 0);
        assert(total(rest, scanned_by()) == 0);
    } else {
        assert forall|i: int| 0 <= i < rest.len() implies rest[i] == calls[i] by {}
        assert(one_rescan(rest, generation)) by {
            assert(rest[0] == calls[0]);
            assert forall|i: int| 0 <= i < rest.len() - 1 implies (
            #[trigger] rest[i]).after.keeps_rescan(rest[i + 1].before) by {
                assert(calls[i].after.keeps_rescan(calls[i + 1].before));
            }
        }
        a_rescan_examines_every_slot_once(rest, generation);
        let previous = calls[n - 1];
        assert(rest.last() == previous);
        assert(previous.before.wf());
        assert(previous.before.rescans_into(
            previous.max_entries,
            previous.after,
            previous.report,
        ));
        assert(previous.after.keeps_rescan(calls[n - 1 + 1].before));
    }
}

/// When a rescan has ended and no readiness was forgotten, every enabled
/// interest with waiting readiness is queued or in delivery. Every call of the
/// core keeps readiness from being forgotten, except one that found the queue
/// full and the rescan generations exhausted, and reports that.
pub proof fn nothing_pending_is_left_unqueued<U, S>(state: EpollState<U, S>, slot: int)
    requires
        state.swept(),
        state.rescan is None,
        0 <= slot < state.entries.len(),
        state.entries[slot] matches Some(entry) && entry.enabled && !entry.ready.is_empty()
            && entry.in_delivery is None,
    ensures
        state.entries[slot]->0.queued,
{
}

/// In normal operation nothing is forgotten.
pub proof fn coherent_cores_are_swept<U, S>(state: EpollState<U, S>)
    requires
        state.coherent(),
    ensures
        state.swept(),
{
}

/// A faulted copyout keeps every event bit deliverable, and a wake that raced a
/// delivery survives it whatever the outcome.
pub proof fn delivery_loses_no_wake<U, S>(
    entry: Entry<U, S>,
    events: ReadyMask,
    outcome: DeliveryOutcome,
)
    ensures
        entry.ready_after(events, outcome).bits() & entry.during_delivery.bits()
            == entry.during_delivery.bits(),
        entry.ready_after(events, outcome).bits() & entry.ready.bits() == entry.ready.bits(),
        outcome is Fault ==> entry.ready_after(events, outcome).bits() & events.bits()
            == events.bits(),
        !(outcome is Copied) ==> entry.settled(events, outcome).enabled == entry.enabled,
{
    let r = entry.ready.0;
    let d = entry.during_delivery.0;
    let e = events.0;
    let n = match outcome {
        DeliveryOutcome::Copied { still_ready } => still_ready.deliverable(
            entry.interest.interest(),
        ).0,
        _ => 0u32,
    };
    assert((r | (e | d)) & d == d && (r | (e | d)) & e == e && (r | (e | d)) & r == r && (r | d) & d
        == d && (r | d) & r == r && (r | d | n) & d == d && (r | d | n) & r == r) by (bit_vector);
}

/// Replacing the state of one published interest keeps the core well formed
/// and revives no token.
proof fn replacing_an_entry<U, S>(state: EpollState<U, S>, token: EpollToken, entry: Entry<U, S>)
    requires
        state.wf(),
        state.resolves(token),
        entry.generation == token.generation(),
        entry.interest == state.entry(token).interest,
        entry.consistent(),
        entry.in_delivery is Some ==> entry.in_delivery == state.entry(token).in_delivery,
    ensures
        state.with_entry(token, entry).wf(),
        state.retires_into(state.with_entry(token, entry)),
        state.swept() && !entry.pending() ==> state.with_entry(token, entry).swept(),
{
    let next = state.with_entry(token, entry);
    assert(state.entries[token.slot() as int] is Some);
    assert forall|t: EpollToken| #[trigger] next.resolves(t) implies state.resolves(t) by {
        assert(state.entries[t.slot() as int] is Some);
    }
    assert forall|d: DeliveryToken| #[trigger] next.in_flight(d) implies state.in_flight(d) by {
        assert(state.resolves(d.interest()));
    }
    if state.swept() && !entry.pending() {
        assert forall|i: int|
            0 <= i < next.entries.len() && (#[trigger] next.entries[i]) is Some && i
                != token.slot() implies next.entries[i] == state.entries[i] by {}
    }
}

/// Queueing an idle interest forgets nothing: it is queued, or a rescan that
/// starts at the first slot will find it.
proof fn queueing_keeps_swept<U, S>(state: EpollState<U, S>, token: EpollToken, entry: Entry<U, S>)
    requires
        state.wf(),
        state.swept(),
        state.resolves(token),
        entry.pending(),
        state.ready.len() < state.entries.len() || state.next_rescan < u64::MAX,
    ensures
        state.with_entry(token, entry).enqueued(token).swept(),
{
    let changed = state.with_entry(token, entry);
    let next = changed.enqueued(token);
    assert forall|i: int|
        0 <= i < next.entries.len() && (#[trigger] next.entries[i]) is Some && i
            != token.slot() implies next.entries[i] == state.entries[i] by {}
}

/// Changing the state of one interest, but not whether it is queued, keeps
/// normal operation as long as no readiness is left pending.
proof fn replacing_keeps_coherence<U, S>(
    state: EpollState<U, S>,
    token: EpollToken,
    entry: Entry<U, S>,
)
    requires
        state.coherent(),
        state.resolves(token),
        entry.generation == token.generation(),
        entry.queued == state.entry(token).queued,
        entry.queued ==> entry.in_delivery is None && entry.enabled && !entry.ready.is_empty(),
        !entry.pending(),
    ensures
        state.with_entry(token, entry).coherent(),
{
    let next = state.with_entry(token, entry);
    assert forall|i: int| 0 <= i < next.ready.len() implies next.backs(#[trigger] next.ready[i]) by {
        assert(state.backs(state.ready[i]));
    }
    assert forall|s: int| 0 <= s < next.entries.len() && (#[trigger] next.entries[s]) is Some implies {
        let e = next.entries[s]->0;
        &&& e.queued ==> next.ready.contains(next.token_at(s))
        &&& e.queued ==> e.in_delivery is None && e.enabled && !e.ready.is_empty()
        &&& !e.pending()
    } by {
        assert(state.entries[s] is Some);
        assert(next.token_at(s) == state.token_at(s));
    }
}

/// Normal operation does not depend on which generations come next.
proof fn coherence_ignores_counters<U, S>(state: EpollState<U, S>, next: EpollState<U, S>)
    requires
        state.coherent(),
        next.id == state.id,
        next.entries == state.entries,
        next.ready == state.ready,
        next.rescan == state.rescan,
    ensures
        next.coherent(),
{
    assert forall|i: int| 0 <= i < next.ready.len() implies next.backs(#[trigger] next.ready[i]) by {
        assert(state.backs(state.ready[i]));
    }
    assert forall|s: int| 0 <= s < next.entries.len() && (#[trigger] next.entries[s]) is Some implies {
        let e = next.entries[s]->0;
        &&& e.queued ==> next.ready.contains(next.token_at(s))
        &&& e.queued ==> e.in_delivery is None && e.enabled && !e.ready.is_empty()
        &&& !e.pending()
    } by {
        assert(state.entries[s] is Some);
        assert(next.token_at(s) == state.token_at(s));
    }
}

/// Queueing an idle interest keeps normal operation and cannot overflow.
proof fn queueing_keeps_coherence<U, S>(
    state: EpollState<U, S>,
    token: EpollToken,
    entry: Entry<U, S>,
)
    requires
        state.wf(),
        state.coherent(),
        state.resolves(token),
        !state.entry(token).queued,
        entry.generation == token.generation(),
        entry.interest == state.entry(token).interest,
        entry.pending(),
    ensures
        state.ready.len() < state.entries.len(),
        state.with_entry(token, entry).enqueued(token).coherent(),
{
    coherent_queue_has_room(state, token.slot() as int);
    let changed = state.with_entry(token, entry);
    let next = changed.enqueued(token);
    let last = state.ready.len() as int;
    assert(next.ready == state.ready.push(token));
    assert forall|i: int| 0 <= i < next.ready.len() implies next.backs(#[trigger] next.ready[i]) by {
        if i < last {
            assert(state.backs(state.ready[i]));
            assert(next.ready[i] == state.ready[i]);
        }
    }
    assert forall|i: int, j: int|
        #![trigger next.ready[i], next.ready[j]]
        0 <= i < j < next.ready.len() implies next.ready[i].slot() != next.ready[j].slot() by {
        assert(next.ready[i] == state.ready[i]);
        assert(state.backs(state.ready[i]));
        if j < last {
            assert(next.ready[j] == state.ready[j]);
        }
    }
    assert forall|s: int| 0 <= s < next.entries.len() && (#[trigger] next.entries[s]) is Some implies {
        let e = next.entries[s]->0;
        &&& e.queued ==> next.ready.contains(next.token_at(s))
        &&& e.queued ==> e.in_delivery is None && e.enabled && !e.ready.is_empty()
        &&& !e.pending()
    } by {
        assert(state.entries[s] is Some);
        assert(next.token_at(s) == state.token_at(s));
        if s == token.slot() {
            assert(next.ready[last] == token);
        } else if next.entries[s]->0.queued {
            let k = choose|k: int| 0 <= k < last && state.ready[k] == state.token_at(s);
            assert(next.ready[k] == state.token_at(s));
        }
    }
}

/// Taking an interest out of the queue, and out of its slot or into another
/// state, keeps normal operation.
proof fn removing_keeps_coherence<U, S>(
    state: EpollState<U, S>,
    token: EpollToken,
    replacement: Option<Entry<U, S>>,
)
    requires
        state.wf(),
        state.coherent(),
        state.resolves(token),
        replacement matches Some(entry) ==> !entry.queued && !entry.pending(),
    ensures
        (EpollState {
            entries: state.entries.update(token.slot() as int, replacement),
            ready: without(state.ready, token),
            ..state
        }).coherent(),
{
    let next = EpollState {
        entries: state.entries.update(token.slot() as int, replacement),
        ready: without(state.ready, token),
        ..state
    };
    without_keeps_the_rest(state.ready, token);
    assert forall|i: int| 0 <= i < next.ready.len() implies next.backs(#[trigger] next.ready[i]) by {
        let t = next.ready[i];
        assert(next.ready.contains(t));
        assert(state.ready.contains(t));
        let k = choose|k: int| 0 <= k < state.ready.len() && state.ready[k] == t;
        assert(state.backs(state.ready[k]));
    }
    assert forall|s: int| 0 <= s < next.entries.len() && (#[trigger] next.entries[s]) is Some implies {
        let e = next.entries[s]->0;
        &&& e.queued ==> next.ready.contains(next.token_at(s))
        &&& e.queued ==> e.in_delivery is None && e.enabled && !e.ready.is_empty()
        &&& !e.pending()
    } by {
        if s != token.slot() {
            assert(state.entries[s] is Some);
            assert(next.token_at(s) == state.token_at(s));
        }
    }
}

/// Handing out the oldest record keeps the core well formed, revives no token,
/// and keeps normal operation.
proof fn delivering_keeps_the_core<U, S>(state: EpollState<U, S>, token: EpollToken)
    requires
        state.wf(),
        state.ready.len() > 0,
        state.ready[0] == token,
        state.backs(token),
        state.next_delivery < u64::MAX,
    ensures
        state.delivering(token).wf(),
        state.retires_into(state.delivering(token)),
        state.coherent() ==> state.delivering(token).coherent(),
        state.swept() ==> state.delivering(token).swept(),
{
    let next = state.delivering(token);
    assert(state.entries[token.slot() as int] is Some);
    assert forall|t: EpollToken| #[trigger] next.resolves(t) implies state.resolves(t) by {
        assert(state.entries[t.slot() as int] is Some);
    }
    assert forall|d: DeliveryToken| #[trigger]
        next.in_flight(d) && d.serial() < state.next_delivery implies state.in_flight(d) by {
        assert(state.resolves(d.interest()));
    }
    if state.swept() {
        assert forall|i: int|
            0 <= i < next.entries.len() && (#[trigger] next.entries[i]) is Some && i
                != token.slot() implies next.entries[i] == state.entries[i] by {}
    }
    if state.coherent() {
        assert forall|i: int| 0 <= i < next.ready.len() implies next.backs(
            #[trigger] next.ready[i],
        ) by {
            assert(next.ready[i] == state.ready[i + 1]);
            assert(state.backs(state.ready[i + 1]));
            assert(state.ready[0].slot() != state.ready[i + 1].slot());
        }
        assert forall|i: int, j: int|
            #![trigger next.ready[i], next.ready[j]]
            0 <= i < j < next.ready.len() implies next.ready[i].slot() != next.ready[j].slot() by {
            assert(next.ready[i] == state.ready[i + 1] && next.ready[j] == state.ready[j + 1]);
        }
        assert forall|s: int|
            0 <= s < next.entries.len() && (#[trigger] next.entries[s]) is Some implies {
            let e = next.entries[s]->0;
            &&& e.queued ==> next.ready.contains(next.token_at(s))
            &&& e.queued ==> e.in_delivery is None && e.enabled && !e.ready.is_empty()
            &&& !e.pending()
        } by {
            if s != token.slot() {
                assert(state.entries[s] is Some);
                assert(next.token_at(s) == state.token_at(s));
                if state.entries[s]->0.queued {
                    let k = choose|k: int|
                        0 <= k < state.ready.len() && state.ready[k] == state.token_at(s);
                    assert(k > 0);
                    assert(next.ready[k - 1] == state.token_at(s));
                }
            }
        }
    }
}

/// Marking and queueing pending interests keeps the core well formed and
/// revives no token.
proof fn rescanning_keeps_the_core<U, S>(
    state: EpollState<U, S>,
    progress: RescanState,
    to: int,
    rescan: Option<RescanState>,
)
    requires
        state.wf(),
        state.rescan == Some(progress),
        progress.cursor <= to <= state.entries.len(),
        state.ready.len() + state.pending_between(progress.cursor as int, to).len()
            <= state.entries.len(),
        rescan == state.rescan || rescan is None || (rescan == state.rescanned(progress, to).rescan
            && to < state.entries.len()),
    ensures
        (EpollState { rescan, ..state.rescanned(progress, to) }).wf(),
        state.retires_into(EpollState { rescan, ..state.rescanned(progress, to) }),
        state.swept() ==> state.rescanned(progress, to).swept_before(to),
{
    let next = EpollState { rescan, ..state.rescanned(progress, to) };
    assert forall|i: int| 0 <= i < state.entries.len() && (#[trigger] next.entries[i]) is Some implies {
        &&& state.entries[i] is Some
        &&& next.entries[i]->0.generation == state.entries[i]->0.generation
        &&& next.entries[i]->0.interest == state.entries[i]->0.interest
        &&& next.entries[i]->0.in_delivery == state.entries[i]->0.in_delivery
        &&& next.entries[i]->0.consistent()
    } by {
        assert(state.entries[i] is Some);
    }
    assert forall|d: DeliveryToken| #[trigger] next.in_flight(d) implies state.in_flight(d) by {
        assert(next.entries[d.interest().slot() as int] is Some);
    }
    if state.swept() {
        assert forall|i: int|
            0 <= i < to && (#[trigger] state.rescanned(progress, to).entries[i]) is Some implies !(
        state.rescanned(progress, to).entries[i]->0.pending()) by {
            assert(state.entries[i] is Some);
        }
    }
    assert forall|i: int, j: int|
        #![trigger next.entries[i], next.entries[j]]
        0 <= i < j < next.entries.len() && next.entries[i] is Some && next.entries[j] is Some implies {
        &&& next.entries[i]->0.generation != next.entries[j]->0.generation
        &&& next.entries[i]->0.interest.key() != next.entries[j]->0.interest.key()
    } by {
        assert(state.entries[i] is Some && state.entries[j] is Some);
    }
    assert forall|t: EpollToken| #[trigger] next.resolves(t) implies state.resolves(t) by {
        assert(next.entries[t.slot() as int] is Some);
    }
}

proof fn pending_prefix_len<U, S>(state: EpollState<U, S>, from: int, middle: int, to: int)
    requires
        from <= middle <= to,
    ensures
        state.pending_between(from, middle).len() <= state.pending_between(from, to).len(),
    decreases to - middle,
{
    if middle < to {
        pending_prefix_len(state, from, middle, to - 1);
    }
}

/// Fixed-capacity circular queue of ready records.
pub(crate) struct ReadyQueue {
    items: Vec<EpollToken>,
    head: usize,
    len: usize,
}

impl ReadyQueue {
    spec fn wf(&self) -> bool {
        &&& self.len <= self.items.len()
        &&& self.head < self.items.len() || (self.items.len() == 0 && self.head == 0)
    }

    spec fn place(&self, i: int) -> int {
        if self.head + i >= self.items.len() {
            self.head + i - self.items.len()
        } else {
            self.head + i
        }
    }

    spec fn view(&self) -> Seq<EpollToken> {
        Seq::new(self.len as nat, |i: int| self.items@[self.place(i)])
    }

    fn try_new(capacity: usize, filler: EpollToken) -> (result: Result<Self, EpollError>)
        ensures
            match result {
                Ok(queue) => queue.wf() && queue.items.len() == capacity && queue@ == Seq::<
                    EpollToken,
                >::empty() && allocation_granted::<EpollToken>(capacity),
                Err(error) => error == EpollError::NoMemory && allocation_refused::<EpollToken>(
                    capacity,
                ),
            },
    {
        let mut items: Vec<EpollToken> = match reserved(capacity) {
            Some(items) => items,
            None => return Err(EpollError::NoMemory),
        };
        items.resize(capacity, filler);
        let queue = Self { items, head: 0, len: 0 };
        assert(queue@ =~= Seq::<EpollToken>::empty());
        Ok(queue)
    }

    fn capacity(&self) -> (result: usize)
        ensures
            result == self.items.len(),
    {
        self.items.len()
    }

    fn locate(&self, i: usize) -> (result: usize)
        requires
            self.wf(),
            i < self.items.len(),
        ensures
            result == self.place(i as int),
            result < self.items.len(),
    {
        let room: usize = self.items.len() - self.head;
        if i < room {
            self.head + i
        } else {
            i - room
        }
    }

    fn push(&mut self, token: EpollToken) -> (result: Result<(), EpollError>)
        requires
            old(self).wf(),
        ensures
            final(self).wf(),
            final(self).items.len() == old(self).items.len(),
            match result {
                Ok(_) => old(self)@.len() < old(self).items.len() && final(self)@ == old(
                    self,
                )@.push(token),
                Err(error) => error == EpollError::ReadyQueueFull && old(self)@.len() == old(
                    self,
                ).items.len() && *final(self) == *old(self),
            },
    {
        if self.len == self.items.len() {
            return Err(EpollError::ReadyQueueFull);
        }
        let index = self.locate(self.len);
        self.items[index] = token;
        self.len = self.len + 1;
        assert(self@ =~= old(self)@.push(token));
        Ok(())
    }

    fn pop(&mut self) -> (result: Option<EpollToken>)
        requires
            old(self).wf(),
        ensures
            final(self).wf(),
            final(self).items@ == old(self).items@,
            match result {
                Some(token) => old(self)@.len() > 0 && token == old(self)@[0] && final(self)@
                    == old(self)@.skip(1),
                None => old(self)@.len() == 0 && final(self)@ == old(self)@,
            },
    {
        if self.len == 0 {
            return None;
        }
        let token = self.items[self.head];
        if self.head + 1 == self.items.len() {
            self.head = 0;
        } else {
            self.head = self.head + 1;
        }
        self.len = self.len - 1;
        assert(self@ =~= old(self)@.skip(1));
        Some(token)
    }

    fn peek(&self) -> (result: Option<EpollToken>)
        requires
            self.wf(),
        ensures
            match result {
                Some(token) => self@.len() > 0 && token == self@[0],
                None => self@.len() == 0,
            },
    {
        if self.len != 0 {
            Some(self.items[self.head])
        } else {
            None
        }
    }

    fn remove(&mut self, token: EpollToken)
        requires
            old(self).wf(),
        ensures
            final(self).wf(),
            final(self).items.len() == old(self).items.len(),
            final(self)@ == without(old(self)@, token),
    {
        let ghost before = self@;
        let count: usize = self.len;
        let mut read: usize = 0;
        let mut retained: usize = 0;
        assert(before.take(0) =~= Seq::<EpollToken>::empty());
        while read < count
            invariant
                self.wf(),
                self.len == count,
                self.items.len() == old(self).items.len(),
                self.head == old(self).head,
                before.len() == count,
                retained <= read <= count,
                retained == without(before.take(read as int), token).len(),
                forall|i: int| read <= i < count ==> self@[i] == before[i],
                forall|i: int|
                    0 <= i < retained ==> self@[i] == without(before.take(read as int), token)[i],
            decreases count - read,
        {
            let from = self.locate(read);
            let item = self.items[from];
            assert(item == self@[read as int]);
            assert(before.take(read + 1).drop_last() =~= before.take(read as int));
            assert(before.take(read + 1).last() == before[read as int]);
            let ghost kept = self@;
            let ghost so_far = without(before.take(read as int), token);
            assert(without(before.take(read + 1), token) == if item == token {
                so_far
            } else {
                so_far.push(item)
            });
            if item != token {
                let to = self.locate(retained);
                self.items[to] = item;
                assert forall|i: int| 0 <= i < count && i != retained implies self@[i]
                    == kept[i] by {}
                assert(self@[retained as int] == item);
                retained = retained + 1;
            }
            read = read + 1;
            assert forall|i: int| 0 <= i < retained implies self@[i] == without(
                before.take(read as int),
                token,
            )[i] by {
                assert(i < so_far.len() ==> kept[i] == so_far[i]);
            }
        }
        assert(before.take(count as int) =~= before);
        let ghost compacted = self@;
        self.len = retained;
        assert forall|i: int| 0 <= i < retained implies self@[i] == compacted[i] by {}
        assert(self@ =~= without(before, token));
    }
}

/// Bounded allocation-free-after-construction epoll interest/ready core.
///
/// The consumer protects it with its chosen short IRQ-safe lock. Methods never
/// call source registrations, wakers, destructors, or usercopy; removed and
/// replaced interests are returned for lock-external teardown.
pub struct EpollCore<U, S> {
    id: EpollId,
    entries: Vec<Option<Entry<U, S>>>,
    ready: ReadyQueue,
    next_generation: u64,
    next_delivery: u64,
    next_rescan: u64,
    rescan: Option<RescanState>,
}

impl<U, S> View for EpollCore<U, S> {
    type V = EpollState<U, S>;

    closed spec fn view(&self) -> EpollState<U, S> {
        EpollState {
            id: self.id,
            entries: self.entries@,
            ready: self.ready@,
            next_generation: self.next_generation,
            next_delivery: self.next_delivery,
            next_rescan: self.next_rescan,
            rescan: self.rescan,
        }
    }
}

impl<U, S> EpollCore<U, S> {
    /// Representation invariant of the core.
    pub closed spec fn wf(&self) -> bool {
        &&& self.ready.wf()
        &&& self.ready.items.len() == self.entries.len()
        &&& self@.wf()
    }

    /// The model of a well-formed core is well formed, so that what is proved of
    /// the model holds of the core.
    pub proof fn wf_of_the_model(&self)
        requires
            self.wf(),
        ensures
            self@.wf(),
    {
    }

    /// Fallibly reserves all interest and ready storage up front.
    ///
    /// It fails for want of memory only where the allocator refuses the storage.
    pub fn try_new(id: EpollId, capacity: usize) -> (result: Result<Self, EpollError>)
        ensures
            capacity == usize::MAX <==> result is Err && result->Err_0 == EpollError::Capacity,
            match result {
                Ok(core) => {
                    &&& core.wf()
                    &&& core@ == EpollState::<U, S>::empty(id, capacity as nat)
                    &&& core@.coherent()
                    &&& core@.swept()
                    &&& allocation_granted::<EpollToken>(capacity)
                    &&& allocation_granted::<Option<Entry<U, S>>>(capacity)
                },
                Err(EpollError::Capacity) => capacity == usize::MAX,
                Err(error) => {
                    &&& error == EpollError::NoMemory
                    &&& allocation_refused::<EpollToken>(capacity) || allocation_refused::<
                        Option<Entry<U, S>>,
                    >(capacity)
                },
            },
    {
        if capacity == usize::MAX {
            return Err(EpollError::Capacity);
        }
        let filler = EpollToken { epoll: id, slot: 0, generation: 0 };
        let ready = match ReadyQueue::try_new(capacity, filler) {
            Ok(ready) => ready,
            Err(_) => return Err(EpollError::NoMemory),
        };
        let mut entries: Vec<Option<Entry<U, S>>> = match reserved(capacity) {
            Some(entries) => entries,
            None => return Err(EpollError::NoMemory),
        };
        let mut filled: usize = 0;
        while filled < capacity
            invariant
                filled <= capacity,
                entries.len() == filled,
                forall|i: int| 0 <= i < filled ==> (#[trigger] entries@[i]) is None,
            decreases capacity - filled,
        {
            entries.push(None);
            filled = filled + 1;
        }
        let core = Self {
            id,
            entries,
            ready,
            next_generation: 1,
            next_delivery: 1,
            next_rescan: 1,
            rescan: None,
        };
        assert(core@.entries =~= EpollState::<U, S>::empty(id, capacity as nat).entries);
        Ok(core)
    }

    /// Returns the instance identity.
    pub fn id(&self) -> (result: EpollId)
        ensures
            result == self@.id,
    {
        self.id
    }

    /// Returns admitted interest capacity.
    pub fn capacity(&self) -> (result: usize)
        ensures
            result == self@.entries.len(),
    {
        self.entries.len()
    }

    /// Returns the number of published interests.
    pub fn len(&self) -> (result: usize)
        ensures
            result == count(self@.entries, |entry: Option<Entry<U, S>>| entry is Some),
    {
        let ghost published = |entry: Option<Entry<U, S>>| entry is Some;
        let mut found: usize = 0;
        let mut i: usize = 0;
        while i < self.entries.len()
            invariant
                i <= self.entries.len(),
                found <= i,
                found == count(self.entries@.take(i as int), published),
                published == (|entry: Option<Entry<U, S>>| entry is Some),
            decreases self.entries.len() - i,
        {
            proof {
                count_take_next(self.entries@, i as int, published);
            }
            if self.entries[i].is_some() {
                found = found + 1;
            }
            i = i + 1;
        }
        assert(self.entries@.take(i as int) =~= self.entries@);
        found
    }

    /// Returns whether no interest is published.
    pub fn is_empty(&self) -> (result: bool)
        ensures
            result <==> (forall|i: int|
                0 <= i < self@.entries.len() ==> (#[trigger] self@.entries[i]) is None),
    {
        proof {
            crate::counting::count_bounds(
                self@.entries,
                |entry: Option<Entry<U, S>>| entry is Some,
            );
        }
        self.len() == 0
    }

    /// Returns whether an unexpected ready-queue overflow requested a bounded
    /// adapter-driven rescan.
    pub fn needs_rescan(&self) -> (result: bool)
        ensures
            result <==> self@.rescan is Some,
    {
        self.rescan.is_some()
    }

    /// Returns the current recovery token, if an invariant failure requested
    /// an incremental rescan.
    pub fn rescan_token(&self) -> (result: Option<RescanToken>)
        ensures
            match (result, self@.rescan) {
                (Some(token), Some(progress)) => token.epoll() == self@.id && token.generation()
                    == progress.generation,
                (None, None) => true,
                _ => false,
            },
    {
        match self.rescan {
            Some(state) => Some(RescanToken { epoll: self.id, generation: state.generation }),
            None => None,
        }
    }

    /// Returns the number of queued ready records.
    pub fn ready_len(&self) -> (result: usize)
        ensures
            result == self@.ready.len(),
    {
        self.ready.len
    }

    /// Returns whether the exact interest generation is queued for delivery.
    pub fn is_queued(&self, token: EpollToken) -> (result: Result<bool, EpollError>)
        ensures
            result == if self@.resolves(token) {
                Ok::<bool, EpollError>(self@.entry(token).queued)
            } else {
                Err(EpollError::StaleToken)
            },
    {
        match self.entry(token) {
            Ok(entry) => Ok(entry.queued),
            Err(error) => Err(error),
        }
    }

    fn start_rescan(&mut self) -> (result: Result<(), EpollError>)
        requires
            old(self).wf(),
            old(self)@.entries.len() > 0,
        ensures
            final(self).wf(),
            final(self)@ == old(self)@.with_rescan(),
            result == if old(self)@.next_rescan == u64::MAX {
                Err::<(), EpollError>(EpollError::GenerationExhausted)
            } else {
                Ok(())
            },
            final(self).ready == old(self).ready,
    {
        let generation = self.next_rescan;
        if generation == u64::MAX {
            return Err(EpollError::GenerationExhausted);
        }
        self.next_rescan = generation + 1;
        self.rescan = Some(RescanState { generation, cursor: 0, remaining: self.entries.len() });
        Ok(())
    }

    fn validate_mode(mode: InterestMode) -> (result: Result<(), EpollError>)
        ensures
            result == if mode.exclusive {
                Err::<(), EpollError>(EpollError::UnsupportedMode)
            } else {
                Ok(())
            },
    {
        // Exclusive selection requires coordination across multiple epoll
        // instances at the source registry. This single-instance core cannot
        // honestly provide it until that lower-layer contract is supplied.
        if mode.exclusive {
            Err(EpollError::UnsupportedMode)
        } else {
            Ok(())
        }
    }

    fn entry(&self, token: EpollToken) -> (result: Result<&Entry<U, S>, EpollError>)
        ensures
            result == if self@.resolves(token) {
                Ok::<&Entry<U, S>, EpollError>(&self@.entry(token))
            } else {
                Err(EpollError::StaleToken)
            },
    {
        if token.epoll != self.id || token.slot >= self.entries.len() {
            return Err(EpollError::StaleToken);
        }
        match &self.entries[token.slot] {
            Some(entry) => if entry.generation == token.generation {
                Ok(entry)
            } else {
                Err(EpollError::StaleToken)
            },
            None => Err(EpollError::StaleToken),
        }
    }

    fn entry_mut(&mut self, token: EpollToken) -> (result: Result<&mut Entry<U, S>, EpollError>)
        ensures
            final(self).ready == old(self).ready,
            match result {
                Ok(entry) => {
                    &&& old(self)@.resolves(token)
                    &&& *entry == old(self)@.entry(token)
                    &&& final(self)@ == old(self)@.with_entry(token, *final(entry))
                },
                Err(error) => {
                    &&& !old(self)@.resolves(token)
                    &&& error == EpollError::StaleToken
                    &&& final(self)@ == old(self)@
                },
            },
    {
        if token.epoll != self.id || token.slot >= self.entries.len() {
            return Err(EpollError::StaleToken);
        }
        match &mut self.entries[token.slot] {
            Some(entry) => if entry.generation == token.generation {
                Ok(entry)
            } else {
                Err(EpollError::StaleToken)
            },
            None => Err(EpollError::StaleToken),
        }
    }

    /// Queues the interest named by `token`, or requests a rescan when the
    /// queue is unexpectedly full.
    fn enqueue(&mut self, token: EpollToken) -> (result: Result<(), EpollError>)
        requires
            old(self).wf(),
            old(self)@.resolves(token),
            old(self)@.entry(token).pending(),
        ensures
            final(self).wf(),
            final(self)@ == old(self)@.enqueued(token),
            result == old(self)@.enqueue_result(),
            old(self)@.retires_into(final(self)@),
            old(self)@.keeps_rescan(final(self)@),
    {
        if let Err(error) = self.ready.push(token) {
            assert(self@ == old(self)@);
            self.start_rescan()?;
            return Err(error);
        }
        let ghost pushed = self@;
        proof {
            assert(pushed.resolves(token));
            replacing_an_entry(
                old(self)@,
                token,
                Entry { queued: true, ..old(self)@.entry(token) },
            );
        }
        match self.entry_mut(token) {
            Ok(entry) => {
                entry.queued = true;
                Ok(())
            },
            Err(error) => Err(error),
        }
    }

    /// Atomically publishes an already armed interest.
    pub fn add(&mut self, interest: EpollInterest<U, S>) -> (result: Result<
        EpollToken,
        EpollPublishError<U, S>,
    >)
        requires
            old(self).wf(),
        ensures
            final(self).wf(),
            old(self)@.coherent() ==> final(self)@.coherent(),
            old(self)@.retires_into(final(self)@),
            old(self)@.swept() ==> final(self)@.swept(),
            old(self)@.keeps_rescan(final(self)@),
            match result {
                Ok(token) => {
                    &&& !interest.mode().exclusive
                    &&& !old(self)@.has_key(interest.key())
                    &&& old(self)@.next_generation < u64::MAX
                    &&& token.epoll() == old(self)@.id
                    &&& token.generation() == old(self)@.next_generation
                    &&& old(self)@.first_vacant(token.slot() as int)
                    &&& final(self)@ == EpollState {
                        next_generation: (old(self)@.next_generation + 1) as u64,
                        ..old(self)@.with_entry(token, Entry::fresh(token.generation(), interest))
                    }
                },
                Err(failure) => {
                    &&& final(self)@ == old(self)@
                    &&& failure.interest == interest
                    &&& interest.mode().exclusive || old(self)@.has_key(interest.key()) || old(
                        self,
                    )@.full() || old(self)@.next_generation == u64::MAX
                    &&& failure.error == if interest.mode().exclusive {
                        EpollError::UnsupportedMode
                    } else if old(self)@.has_key(interest.key()) {
                        EpollError::Duplicate
                    } else if old(self)@.full() {
                        EpollError::Capacity
                    } else {
                        EpollError::GenerationExhausted
                    }
                },
            },
    {
        if let Err(error) = Self::validate_mode(interest.mode) {
            return Err(EpollPublishError { error, interest });
        }
        let capacity: usize = self.entries.len();
        let mut slot: usize = capacity;
        let mut i: usize = 0;
        while i < capacity
            invariant
                self@ == old(self)@,
                self.wf(),
                !interest.mode().exclusive,
                capacity == self.entries.len(),
                i <= capacity,
                slot == capacity || slot < i,
                slot == capacity ==> forall|j: int|
                    0 <= j < i ==> (#[trigger] self@.entries[j]) is Some,
                slot < capacity ==> self@.first_vacant(slot as int),
                forall|j: int|
                    0 <= j < i && (#[trigger] self@.entries[j]) is Some
                        ==> self@.entries[j]->0.interest.key() != interest.key(),
            decreases capacity - i,
        {
            assert(self.entries@[i as int] == self@.entries[i as int]);
            match &self.entries[i] {
                Some(entry) => {
                    if entry.interest.key == interest.key {
                        assert(self@.has_key(interest.key()));
                        return Err(EpollPublishError { error: EpollError::Duplicate, interest });
                    }
                },
                None => {
                    if slot == capacity {
                        slot = i;
                    }
                },
            }
            i = i + 1;
        }
        assert(!self@.has_key(interest.key()));
        if slot == capacity {
            return Err(EpollPublishError { error: EpollError::Capacity, interest });
        }
        assert(!self@.full());
        let generation = self.next_generation;
        if generation == u64::MAX {
            return Err(EpollPublishError { error: EpollError::GenerationExhausted, interest });
        }
        self.next_generation = generation + 1;
        let token = EpollToken { epoll: self.id, slot, generation };
        let ghost fresh = Entry::fresh(generation, interest);
        self.entries[slot] = Some(
            Entry {
                generation,
                interest,
                enabled: true,
                queued: false,
                in_delivery: None,
                ready: ReadyMask::EMPTY(),
                during_delivery: ReadyMask::EMPTY(),
            },
        );
        proof {
            let before = old(self)@;
            let after = self@;
            assert(after =~= EpollState {
                next_generation: (before.next_generation + 1) as u64,
                ..before.with_entry(token, fresh)
            });
            assert forall|t: EpollToken| #[trigger]
                after.resolves(t) && t.generation() < before.next_generation implies before.resolves(
                t,
            ) by {
                assert(before.entries[t.slot() as int] == after.entries[t.slot() as int]);
            }
            if before.coherent() {
                assert forall|k: int| 0 <= k < after.ready.len() implies after.backs(
                    #[trigger] after.ready[k],
                ) by {
                    assert(before.backs(before.ready[k]));
                }
                assert forall|s: int|
                    0 <= s < after.entries.len() && (#[trigger] after.entries[s]) is Some implies {
                    let e = after.entries[s]->0;
                    &&& e.queued ==> after.ready.contains(after.token_at(s))
                    &&& e.queued ==> e.in_delivery is None && e.enabled && !e.ready.is_empty()
                    &&& !e.pending()
                } by {
                    if s != slot {
                        assert(before.entries[s] is Some);
                        assert(after.token_at(s) == before.token_at(s));
                    }
                }
            }
        }
        Ok(token)
    }

    /// Replaces one exact interest generation and returns the old subscription
    /// owner for lock-external cancellation.
    pub fn modify(&mut self, token: EpollToken, replacement: EpollInterest<U, S>) -> (result:
        Result<(EpollToken, EpollInterest<U, S>), EpollPublishError<U, S>>)
        requires
            old(self).wf(),
        ensures
            final(self).wf(),
            old(self)@.coherent() ==> final(self)@.coherent(),
            old(self)@.retires_into(final(self)@),
            old(self)@.swept() ==> final(self)@.swept(),
            old(self)@.keeps_rescan(final(self)@),
            match result {
                Ok((renewed, previous)) => {
                    &&& !replacement.mode().exclusive
                    &&& old(self)@.resolves(token)
                    &&& old(self)@.entry(token).interest.key() == replacement.key()
                    &&& old(self)@.next_generation < u64::MAX
                    &&& previous == old(self)@.entry(token).interest
                    &&& renewed.epoll() == old(self)@.id
                    &&& renewed.slot() == token.slot()
                    &&& renewed.generation() == old(self)@.next_generation
                    &&& !final(self)@.resolves(token)
                    &&& final(self)@ == EpollState {
                        ready: without(old(self)@.ready, token),
                        next_generation: (old(self)@.next_generation + 1) as u64,
                        ..old(self)@.with_entry(
                            token,
                            Entry::fresh(renewed.generation(), replacement),
                        )
                    }
                },
                Err(failure) => {
                    &&& final(self)@ == old(self)@
                    &&& failure.interest == replacement
                    &&& failure.error == if replacement.mode().exclusive {
                        EpollError::UnsupportedMode
                    } else if !(old(self)@.resolves(token) && old(
                        self,
                    )@.entry(token).interest.key() == replacement.key()) {
                        EpollError::StaleToken
                    } else {
                        EpollError::GenerationExhausted
                    }
                    &&& failure.error == EpollError::GenerationExhausted ==> old(
                        self,
                    )@.next_generation == u64::MAX
                },
            },
    {
        if let Err(error) = Self::validate_mode(replacement.mode) {
            return Err(EpollPublishError { error, interest: replacement });
        }
        let key_matches = match self.entry(token) {
            Ok(entry) => entry.interest.key == replacement.key,
            Err(_) => false,
        };
        if !key_matches {
            return Err(
                EpollPublishError { error: EpollError::StaleToken, interest: replacement },
            );
        }
        let generation = self.next_generation;
        if generation == u64::MAX {
            return Err(
                EpollPublishError { error: EpollError::GenerationExhausted, interest: replacement },
            );
        }
        let slot = token.slot;
        let ghost before = self@;
        proof {
            without_len(before.ready, token);
        }
        self.next_generation = generation + 1;
        self.ready.remove(token);
        let ghost fresh = Entry::fresh(generation, replacement);
        let mut entry = Some(
            Entry {
                generation,
                interest: replacement,
                enabled: true,
                queued: false,
                in_delivery: None,
                ready: ReadyMask::EMPTY(),
                during_delivery: ReadyMask::EMPTY(),
            },
        );
        core::mem::swap(&mut self.entries[slot], &mut entry);
        proof {
            let after = self@;
            assert(after =~= EpollState {
                ready: without(before.ready, token),
                next_generation: (before.next_generation + 1) as u64,
                ..before.with_entry(token, fresh)
            });
            assert forall|t: EpollToken| #[trigger]
                after.resolves(t) && t.generation() < before.next_generation implies before.resolves(
                t,
            ) by {
                assert(before.entries[t.slot() as int] == after.entries[t.slot() as int]);
            }
            if before.coherent() {
                removing_keeps_coherence(before, token, Some(fresh));
                coherence_ignores_counters(
                    EpollState {
                        ready: without(before.ready, token),
                        ..before.with_entry(token, fresh)
                    },
                    after,
                );
            }
        }
        Ok((EpollToken { epoll: self.id, slot, generation }, entry.unwrap().interest))
    }

    /// Deletes one exact interest and returns retained ownership.
    pub fn remove(&mut self, token: EpollToken) -> (result: Result<
        EpollInterest<U, S>,
        EpollError,
    >)
        requires
            old(self).wf(),
        ensures
            final(self).wf(),
            old(self)@.coherent() ==> final(self)@.coherent(),
            old(self)@.retires_into(final(self)@),
            old(self)@.swept() ==> final(self)@.swept(),
            old(self)@.keeps_rescan(final(self)@),
            !final(self)@.resolves(token),
            match result {
                Ok(interest) => {
                    &&& old(self)@.resolves(token)
                    &&& interest == old(self)@.entry(token).interest
                    &&& final(self)@ == EpollState {
                        entries: old(self)@.entries.update(token.slot() as int, None),
                        ready: without(old(self)@.ready, token),
                        ..old(self)@
                    }
                },
                Err(error) => {
                    &&& !old(self)@.resolves(token)
                    &&& error == EpollError::StaleToken
                    &&& final(self)@ == old(self)@
                },
            },
    {
        if let Err(error) = self.entry(token) {
            return Err(error);
        }
        let ghost before = self@;
        proof {
            without_len(before.ready, token);
        }
        self.ready.remove(token);
        let taken = self.entries[token.slot].take();
        proof {
            let after = self@;
            assert forall|t: EpollToken| #[trigger] after.resolves(t) implies before.resolves(t) by {
                assert(before.entries[t.slot() as int] == after.entries[t.slot() as int]);
            }
            if before.coherent() {
                removing_keeps_coherence(before, token, None);
            }
        }
        match taken {
            Some(entry) => Ok(entry.interest),
            None => Err(EpollError::StaleToken),
        }
    }

    /// Publishes bounded readiness from a source callback.
    pub fn notify(&mut self, token: EpollToken, ready: ReadyMask) -> (result: Result<
        NotifyOutcome,
        EpollError,
    >)
        requires
            old(self).wf(),
        ensures
            final(self).wf(),
            old(self)@.retires_into(final(self)@),
            old(self)@.swept() && result != Err::<NotifyOutcome, EpollError>(
                EpollError::GenerationExhausted,
            ) ==> final(self)@.swept(),
            old(self)@.keeps_rescan(final(self)@),
            old(self)@.coherent() ==> final(self)@.coherent() && (result is Ok || result->Err_0
                == EpollError::StaleToken),
            !old(self)@.resolves(token) ==> result == Err::<NotifyOutcome, EpollError>(
                EpollError::StaleToken,
            ) && final(self)@ == old(self)@,
            old(self)@.resolves(token) ==> {
                let entry = old(self)@.entry(token);
                let news = ready.deliverable(entry.interest.interest());
                if !entry.enabled || news.is_empty() {
                    &&& result == Ok::<NotifyOutcome, EpollError>(NotifyOutcome::Ignored)
                    &&& final(self)@ == old(self)@
                } else if entry.in_delivery is Some {
                    &&& result == Ok::<NotifyOutcome, EpollError>(NotifyOutcome::Coalesced)
                    &&& final(self)@ == old(self)@.with_entry(
                        token,
                        Entry { during_delivery: entry.during_delivery.union(news), ..entry },
                    )
                } else {
                    let merged = old(self)@.with_entry(
                        token,
                        Entry { ready: entry.ready.union(news), ..entry },
                    );
                    if entry.queued {
                        &&& result == Ok::<NotifyOutcome, EpollError>(NotifyOutcome::Coalesced)
                        &&& final(self)@ == merged
                    } else {
                        &&& final(self)@ == merged.enqueued(token)
                        &&& result == match merged.enqueue_result() {
                            Ok(_) => Ok::<NotifyOutcome, EpollError>(NotifyOutcome::Enqueued),
                            Err(error) => Err(error),
                        }
                    }
                }
            },
    {
        let ghost before = self@;
        let (enabled, interest, delivering, queued) = match self.entry(token) {
            Ok(entry) => (
                entry.enabled,
                entry.interest.interest,
                entry.in_delivery.is_some(),
                entry.queued,
            ),
            Err(error) => return Err(error),
        };
        if !enabled {
            return Ok(NotifyOutcome::Ignored);
        }
        let deliverable = ready.deliverable(interest);
        if deliverable.is_empty() {
            return Ok(NotifyOutcome::Ignored);
        }
        let ghost entry0 = before.entry(token);
        let ghost entry1 = if delivering {
            Entry { during_delivery: entry0.during_delivery.union(deliverable), ..entry0 }
        } else {
            Entry { ready: entry0.ready.union(deliverable), ..entry0 }
        };
        proof {
            let r = entry0.ready.0;
            let d = deliverable.0;
            assert(d != 0 ==> r | d != 0) by (bit_vector);
            assert(before.entries[token.slot() as int] is Some);
            replacing_an_entry(before, token, entry1);
            if before.swept() && !delivering && !queued && !(before.ready.len()
                == before.entries.len() && before.next_rescan == u64::MAX) {
                queueing_keeps_swept(before, token, entry1);
            }
            if before.coherent() && (delivering || queued) {
                assert(before.entries[token.slot() as int] is Some);
                replacing_keeps_coherence(before, token, entry1);
            }
            if before.coherent() && !delivering && !queued {
                queueing_keeps_coherence(before, token, entry1);
            }
        }
        match self.entry_mut(token) {
            Ok(entry) => {
                if delivering {
                    entry.during_delivery = entry.during_delivery | deliverable;
                } else {
                    entry.ready = entry.ready | deliverable;
                }
            },
            Err(error) => return Err(error),
        }
        assert(self@ == before.with_entry(token, entry1));
        if delivering || queued {
            return Ok(NotifyOutcome::Coalesced);
        }
        self.enqueue(token)?;
        Ok(NotifyOutcome::Enqueued)
    }

    /// Returns one exact ready candidate without cloning caller state.
    ///
    /// Stale queue records are removed defensively. A valid candidate remains
    /// queued until [`commit_delivery`](Self::commit_delivery) revalidates it,
    /// so an adapter can prepare arbitrary owned user data outside its
    /// IRQ-safe core lock.
    pub fn prepare_delivery(&mut self) -> (result: Result<Option<DeliveryPreparation>, EpollError>)
        requires
            old(self).wf(),
        ensures
            final(self).wf(),
            old(self)@.retires_into(final(self)@),
            old(self)@.swept() ==> final(self)@.swept(),
            old(self)@.keeps_rescan(final(self)@),
            old(self)@.coherent() ==> final(self)@ == old(self)@,
            exists|k: int| #[trigger]
                old(self)@.stale_records(k) && final(self)@ == old(self)@.without_records(k) && (
                match result {
                    Ok(Some(candidate)) => k < old(self)@.ready.len() && candidate.interest()
                        == old(self)@.ready[k],
                    Ok(None) => k == old(self)@.ready.len() && old(self)@.rescan is None,
                    Err(error) => k == old(self)@.ready.len() && old(self)@.rescan is Some && error
                        == EpollError::RescanRequired,
                }),
    {
        let ghost before = self@;
        let ghost mut k: int = 0;
        assert(before.ready.skip(0) =~= before.ready);
        assert(before.coherent() && before.ready.len() > 0 ==> before.backs(before.ready[0]));
        while self.ready.len != 0
            invariant
                self.wf(),
                before.wf(),
                0 <= k <= before.ready.len(),
                self@ == before.without_records(k),
                forall|j: int| 0 <= j < k ==> !before.backs(#[trigger] before.ready[j]),
                before.coherent() ==> k == 0,
                before.coherent() && before.ready.len() > 0 ==> before.backs(before.ready[0]),
                before == old(self)@,
            decreases self.ready.len,
        {
            let token = self.ready.peek().unwrap();
            assert(token == before.ready[k]);
            let valid = match self.entry(token) {
                Ok(entry) => entry.queued,
                Err(_) => false,
            };
            assert(valid == before.backs(token));
            if valid {
                assert(before.stale_records(k));
                assert(before.coherent() ==> self@ =~= before);
                return Ok(Some(DeliveryPreparation { interest: token }));
            }
            let _ = self.ready.pop();
            proof {
                assert(before.ready.skip(k).skip(1) =~= before.ready.skip(k + 1));
                k = k + 1;
            }
        }
        assert(before.stale_records(k));
        assert(before.coherent() ==> self@ =~= before);
        if self.rescan.is_some() {
            Err(EpollError::RescanRequired)
        } else {
            Ok(None)
        }
    }

    /// Commits a prepared candidate and moves caller-prepared event data into
    /// the ready snapshot.
    ///
    /// No `Clone`, callback, allocation, or destructor runs in the core. A
    /// stale candidate returns `user_data` unchanged for lock-external cleanup.
    pub fn commit_delivery<V>(&mut self, preparation: DeliveryPreparation, user_data: V) -> (result:
        Result<ReadyEvent<V>, DeliveryCommitError<V>>)
        requires
            old(self).wf(),
        ensures
            final(self).wf(),
            old(self)@.retires_into(final(self)@),
            old(self)@.swept() ==> final(self)@.swept(),
            old(self)@.keeps_rescan(final(self)@),
            old(self)@.coherent() ==> final(self)@.coherent(),
            ({
                let token = preparation.interest();
                let current = old(self)@.ready.len() > 0 && old(self)@.ready[0] == token && old(
                    self,
                )@.backs(token);
                match result {
                    Ok(event) => {
                        &&& current
                        &&& old(self)@.next_delivery < u64::MAX
                        &&& old(self)@.hands_out(token, event, user_data)
                        &&& final(self)@ == old(self)@.delivering(token)
                    },
                    Err(failure) => {
                        &&& failure.user_data == user_data
                        &&& final(self)@ == old(self)@
                        &&& failure.error == if current {
                            EpollError::GenerationExhausted
                        } else {
                            EpollError::StaleToken
                        }
                        &&& current ==> old(self)@.next_delivery == u64::MAX
                    },
                }
            }),
    {
        let token = preparation.interest;
        let at_head = match self.ready.peek() {
            Some(head) => head == token,
            None => false,
        };
        let queued = match self.entry(token) {
            Ok(entry) => entry.queued,
            Err(_) => false,
        };
        if !(at_head && queued) {
            return Err(DeliveryCommitError { error: EpollError::StaleToken, user_data });
        }
        let serial = self.next_delivery;
        if serial == u64::MAX {
            return Err(DeliveryCommitError { error: EpollError::GenerationExhausted, user_data });
        }
        proof {
            delivering_keeps_the_core(self@, token);
        }
        self.next_delivery = serial + 1;
        let _ = self.ready.pop();
        match self.entry_mut(token) {
            Ok(entry) => {
                let events = entry.ready;
                entry.queued = false;
                entry.in_delivery = Some(serial);
                entry.ready = ReadyMask::EMPTY();
                Ok(
                    ReadyEvent {
                        delivery: DeliveryToken { interest: token, serial, events },
                        events,
                        user_data,
                    },
                )
            },
            Err(error) => Err(DeliveryCommitError { error, user_data }),
        }
    }

    /// Convenience delivery for bitwise-copyable event data.
    ///
    /// Kernels with owned or fallible event payloads should use
    /// [`prepare_delivery`](Self::prepare_delivery) and
    /// [`commit_delivery`](Self::commit_delivery) explicitly.
    pub fn begin_delivery(&mut self) -> (result: Result<Option<ReadyEvent<U>>, EpollError>) where
        U: Copy,

        requires
            old(self).wf(),
        ensures
            final(self).wf(),
            old(self)@.retires_into(final(self)@),
            old(self)@.swept() ==> final(self)@.swept(),
            old(self)@.keeps_rescan(final(self)@),
            old(self)@.coherent() ==> final(self)@.coherent(),
            exists|k: int| #[trigger]
                old(self)@.stale_records(k) && ({
                    let live = old(self)@.without_records(k);
                    if k == old(self)@.ready.len() {
                        &&& final(self)@ == live
                        &&& result == if old(self)@.rescan is Some {
                            Err::<Option<ReadyEvent<U>>, EpollError>(EpollError::RescanRequired)
                        } else {
                            Ok(None)
                        }
                    } else if old(self)@.next_delivery == u64::MAX {
                        &&& final(self)@ == live
                        &&& result == Err::<Option<ReadyEvent<U>>, EpollError>(
                            EpollError::GenerationExhausted,
                        )
                    } else {
                        let token = old(self)@.ready[k];
                        &&& final(self)@ == live.delivering(token)
                        &&& result matches Ok(Some(event))
                        &&& live.hands_out(
                            token,
                            event,
                            *old(self)@.entry(token).interest.user_data(),
                        )
                    }
                }),
    {
        let ghost before = self@;
        let prepared = self.prepare_delivery();
        let ghost k = choose|k: int| #[trigger]
            before.stale_records(k) && self@ == before.without_records(k) && (match prepared {
                Ok(Some(candidate)) => k < before.ready.len() && candidate.interest()
                    == before.ready[k],
                Ok(None) => k == before.ready.len() && before.rescan is None,
                Err(error) => k == before.ready.len() && before.rescan is Some && error
                    == EpollError::RescanRequired,
            });
        assert(before.stale_records(k));
        let preparation = match prepared {
            Ok(Some(preparation)) => preparation,
            Ok(None) => return Ok(None),
            Err(error) => return Err(error),
        };
        assert(self@.ready[0] == before.ready[k]);
        assert(self@.resolves(before.ready[k]));
        let user_data = match self.entry(preparation.interest) {
            Ok(entry) => entry.interest.user_data,
            Err(error) => return Err(error),
        };
        match self.commit_delivery(preparation, user_data) {
            Ok(event) => Ok(Some(event)),
            Err(failure) => Err(failure.error),
        }
    }

    /// Completes copyout, preserving faulted events and wakeups racing copy.
    pub fn finish_delivery(&mut self, delivery: DeliveryToken, outcome: DeliveryOutcome) -> (result:
        Result<(), EpollError>)
        requires
            old(self).wf(),
        ensures
            final(self).wf(),
            old(self)@.retires_into(final(self)@),
            old(self)@.swept() && result != Err::<(), EpollError>(
                EpollError::GenerationExhausted,
            ) ==> final(self)@.swept(),
            old(self)@.keeps_rescan(final(self)@),
            old(self)@.coherent() ==> final(self)@.coherent() && (result is Ok || result->Err_0
                == EpollError::StaleToken),
            !old(self)@.in_flight(delivery) ==> result == Err::<(), EpollError>(
                EpollError::StaleToken,
            ) && final(self)@ == old(self)@,
            old(self)@.in_flight(delivery) ==> {
                let token = delivery.interest();
                let entry = old(self)@.entry(token).settled(delivery.events(), outcome);
                let settled = old(self)@.with_entry(token, entry);
                if entry.pending() {
                    &&& final(self)@ == settled.enqueued(token)
                    &&& result == settled.enqueue_result()
                } else {
                    &&& final(self)@ == settled
                    &&& result == Ok::<(), EpollError>(())
                }
            },
    {
        let ghost before = self@;
        let token = delivery.interest;
        let current = match self.entry(token) {
            Ok(entry) => match entry.in_delivery {
                Some(serial) => serial == delivery.serial,
                None => false,
            },
            Err(_) => false,
        };
        if !current {
            return Err(EpollError::StaleToken);
        }
        let ghost entry1 = before.entry(token).settled(delivery.events, outcome);
        proof {
            assert(before.entries[token.slot() as int] is Some);
            replacing_an_entry(before, token, entry1);
            if before.coherent() {
                if entry1.pending() {
                    queueing_keeps_coherence(before, token, entry1);
                } else {
                    replacing_keeps_coherence(before, token, entry1);
                }
            }
        }
        let should_enqueue = match self.entry_mut(token) {
            Ok(entry) => {
                entry.in_delivery = None;
                match outcome {
                    DeliveryOutcome::Fault => {
                        entry.ready = entry.ready | (delivery.events | entry.during_delivery);
                    },
                    DeliveryOutcome::Suppressed => {
                        entry.ready = entry.ready | entry.during_delivery;
                    },
                    DeliveryOutcome::Copied { still_ready } => {
                        entry.ready = entry.ready | entry.during_delivery;
                        if !entry.interest.mode.edge {
                            entry.ready = entry.ready | still_ready.deliverable(
                                entry.interest.interest,
                            );
                        }
                        if entry.interest.mode.one_shot {
                            entry.enabled = false;
                        }
                    },
                }
                entry.during_delivery = ReadyMask::EMPTY();
                entry.enabled && !entry.ready.is_empty() && !entry.queued
            },
            Err(error) => return Err(error),
        };
        assert(self@ == before.with_entry(token, entry1));
        if should_enqueue {
            self.enqueue(token)?;
        }
        Ok(())
    }

    /// Examines at most `max_entries` slots after an unexpected queue overflow.
    ///
    /// Normal operation admits one ready item per interest, so this is a
    /// defensive recovery seam rather than a periodic scan path. A zero budget
    /// performs no work and never clears a pending request.
    pub fn rescan_ready(&mut self, token: RescanToken, max_entries: usize) -> (result: Result<
        RescanProgress,
        EpollError,
    >)
        requires
            old(self).wf(),
        ensures
            final(self).wf(),
            old(self)@.retires_into(final(self)@),
            old(self)@.swept() ==> final(self)@.swept(),
            ({
                let before = old(self)@;
                if before.rescan is None || token.epoll() != before.id || token.generation()
                    != before.rescan->0.generation {
                    &&& result == Err::<RescanProgress, EpollError>(EpollError::StaleToken)
                    &&& final(self)@ == before
                } else {
                    let progress = before.rescan->0;
                    let from = progress.cursor as int;
                    let to = before.rescan_target(max_entries);
                    match result {
                        Ok(report) => before.rescans_into(max_entries, final(self)@, report),
                        Err(error) => {
                            &&& error == EpollError::ReadyQueueFull
                            &&& before.ready.len() + before.pending_between(from, to).len()
                                > before.entries.len()
                            &&& exists|stop: int|
                                from <= stop < to && (#[trigger] before.entries[stop]) is Some
                                    && before.entries[stop]->0.pending() && final(self)@
                                    == before.rescanned(progress, stop)
                                    && final(self)@.ready.len() == before.entries.len()
                        },
                    }
                }
            }),
    {
        let ghost before = self@;
        let state = match self.rescan {
            Some(state) => state,
            None => return Err(EpollError::StaleToken),
        };
        if token.epoll != self.id || token.generation != state.generation {
            return Err(EpollError::StaleToken);
        }
        let target: usize = if max_entries < state.remaining {
            max_entries
        } else {
            state.remaining
        };
        let from: usize = state.cursor;
        let ghost to = from + target;
        let mut scanned: usize = 0;
        let mut enqueued: usize = 0;
        assert(before.marked_between(from as int, from as int) =~= before.entries);
        assert(before.ready + before.pending_between(from as int, from as int) =~= before.ready);
        while scanned < target
            invariant
                self.wf(),
                before.wf(),
                before == old(self)@,
                before.rescan == Some(state),
                token.epoll() == before.id,
                token.generation() == state.generation,
                target == if max_entries < state.remaining {
                    max_entries
                } else {
                    state.remaining
                },
                from == state.cursor,
                from + state.remaining == before.entries.len(),
                to == from + target,
                scanned <= target <= state.remaining,
                enqueued <= scanned,
                enqueued == before.pending_between(from as int, from + scanned).len(),
                before.ready.len() + enqueued <= before.entries.len(),
                self@ == (EpollState {
                    rescan: before.rescan,
                    ..before.rescanned(state, from + scanned)
                }),
            decreases target - scanned,
        {
            let slot: usize = from + scanned;
            let ghost here = self@;
            assert(here.entries[slot as int] == before.entries[slot as int]);
            assert(before.pending_between(from as int, slot + 1) == match before.entries[slot as int] {
                Some(entry) => if entry.pending() {
                    before.pending_between(from as int, slot as int).push(
                        before.token_at(slot as int),
                    )
                } else {
                    before.pending_between(from as int, slot as int)
                },
                None => before.pending_between(from as int, slot as int),
            });
            let pending = match &self.entries[slot] {
                Some(entry) => if entry.enabled && !entry.ready.is_empty() && !entry.queued
                    && entry.in_delivery.is_none() {
                    Some(EpollToken { epoll: self.id, slot, generation: entry.generation })
                } else {
                    None
                },
                None => None,
            };
            match pending {
                Some(ready_token) => {
                    assert(ready_token == before.token_at(slot as int));
                    if let Err(error) = self.ready.push(ready_token) {
                        proof {
                            pending_prefix_len(before, from as int, slot + 1, to);
                            rescanning_keeps_the_core(
                                before,
                                state,
                                slot as int,
                                before.rescanned(state, slot as int).rescan,
                            );
                        }
                        self.rescan = Some(
                            RescanState {
                                generation: state.generation,
                                cursor: slot,
                                remaining: self.entries.len() - slot,
                            },
                        );
                        assert(self@ == before.rescanned(state, slot as int));
                        assert(before.entries[slot as int] is Some);
                        return Err(error);
                    }
                    let ghost pushed = self@;
                    assert(pushed.resolves(ready_token));
                    if let Ok(entry) = self.entry_mut(ready_token) {
                        entry.queued = true;
                    }
                    enqueued = enqueued + 1;
                },
                None => {},
            }
            assert(self@.entries =~= before.marked_between(from as int, slot + 1));
            assert(self@.ready =~= before.ready + before.pending_between(from as int, slot + 1));
            scanned = scanned + 1;
            proof {
                rescanning_keeps_the_core(before, state, slot + 1, before.rescan);
            }
        }
        let complete = target == state.remaining;
        proof {
            rescanning_keeps_the_core(
                before,
                state,
                to,
                if complete {
                    None
                } else {
                    before.rescanned(state, to).rescan
                },
            );
        }
        if complete {
            self.rescan = None;
        } else {
            self.rescan = Some(
                RescanState {
                    generation: state.generation,
                    cursor: from + target,
                    remaining: state.remaining - target,
                },
            );
        }
        Ok(RescanProgress { scanned, enqueued, complete })
    }

    /// Appends a raw ready record without consulting the interests.
    ///
    /// Recovery tooling uses it to replay a saved queue image. Records that no
    /// interest backs are discarded by [`prepare_delivery`](Self::prepare_delivery).
    pub fn restore_ready_record(&mut self, record: EpollToken) -> (result: Result<(), EpollError>)
        requires
            old(self).wf(),
        ensures
            final(self).wf(),
            old(self)@.retires_into(final(self)@),
            old(self)@.swept() ==> final(self)@.swept(),
            old(self)@.keeps_rescan(final(self)@),
            match result {
                Ok(_) => old(self)@.ready.len() < old(self)@.entries.len() && final(self)@
                    == (EpollState { ready: old(self)@.ready.push(record), ..old(self)@ }),
                Err(error) => old(self)@.ready.len() == old(self)@.entries.len() && error
                    == EpollError::ReadyQueueFull && final(self)@ == old(self)@,
            },
    {
        let result = self.ready.push(record);
        assert forall|t: EpollToken| #[trigger] self@.resolves(t) implies old(self)@.resolves(t) by {}
        result
    }

    /// Skips every delivery serial below `next`, so that a restored core does
    /// not issue a serial again. An earlier `next` changes nothing.
    pub fn skip_deliveries_to(&mut self, next: u64)
        requires
            old(self).wf(),
        ensures
            final(self).wf(),
            old(self)@.retires_into(final(self)@),
            old(self)@.swept() ==> final(self)@.swept(),
            old(self)@.keeps_rescan(final(self)@),
            old(self)@.coherent() ==> final(self)@.coherent(),
            final(self)@ == (EpollState {
                next_delivery: if next > old(self)@.next_delivery {
                    next
                } else {
                    old(self)@.next_delivery
                },
                ..old(self)@
            }),
    {
        if next > self.next_delivery {
            self.next_delivery = next;
        }
        assert forall|t: EpollToken| #[trigger] self@.resolves(t) implies old(self)@.resolves(t) by {}
        proof {
            if old(self)@.coherent() {
                coherence_ignores_counters(old(self)@, self@);
            }
        }
    }
}

} // verus!
