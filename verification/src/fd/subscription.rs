use crate::allocation::{allocation_granted, allocation_refused, reserved};
use core::sync::atomic::{AtomicUsize, Ordering};
use core::task::Waker;
use vstd::prelude::*;

verus! {

/// The executor waker handed through to source registrations.
#[verifier::external_type_specification]
#[verifier::external_body]
pub struct ExWaker(core::task::Waker);

/// The credits in use once `amount` more are admitted under `limit`, if they
/// are.
pub fn admitted(used: usize, amount: usize, limit: usize) -> (result: Option<usize>)
    ensures
        result == if used + amount <= limit {
            Some((used + amount) as usize)
        } else {
            None
        },
{
    match used.checked_add(amount) {
        Some(next) => if next <= limit {
            Some(next)
        } else {
            None
        },
        None => None,
    }
}

/// Calls [`AtomicUsize::fetch_update`], which applies [`admitted`] to the
/// current credits until the exchange takes place: it reports the credits it
/// replaced when they admitted `amount`, or those that did not.
#[verifier::external_body]
fn reserve_credits(used: &AtomicUsize, amount: usize, limit: usize) -> (result: Result<
    usize,
    usize,
>)
    ensures
        match result {
            Ok(previous) => previous + amount <= limit,
            Err(current) => current + amount > limit,
        },
{
    used.fetch_update(Ordering::AcqRel, Ordering::Acquire, |used| admitted(used, amount, limit))
}

/// Calls [`AtomicUsize::fetch_sub`], which subtracts `amount` from the shared
/// credits. Nothing is promised of what other owners leave there.
#[verifier::external_body]
fn refund_credits(used: &AtomicUsize, amount: usize)
    opens_invariants none
    no_unwind
{
    used.fetch_sub(amount, Ordering::AcqRel);
}

/// Shared bounded accounting for persistent watches or ephemeral source slots.
pub struct WatchAccount {
    limit: usize,
    used: AtomicUsize,
}

impl WatchAccount {
    /// Creates an account with an immutable finite limit.
    pub fn try_new(limit: usize) -> (result: Result<Self, WatchChargeError>)
        ensures
            match result {
                Ok(account) => {
                    &&& limit < usize::MAX
                    &&& account.limit() == limit
                    &&& account.starts_unused()
                },
                Err(error) => limit == usize::MAX && error == WatchChargeError::Unbounded,
            },
    {
        if limit == usize::MAX {
            return Err(WatchChargeError::Unbounded);
        }
        Ok(Self { limit, used: AtomicUsize::new(0) })
    }

    /// Returns the configured maximum charge.
    #[verifier::when_used_as_spec(spec_limit)]
    pub fn limit(&self) -> (result: usize)
        ensures
            result == self.spec_limit(),
    {
        self.limit
    }

    /// Specification counterpart of [`Self::limit`].
    pub closed spec fn spec_limit(&self) -> usize {
        self.limit
    }

    /// Reading the shared credits with [`AtomicUsize::load`] may answer `credits`.
    pub closed spec fn may_read(&self, credits: usize) -> bool {
        call_ensures(AtomicUsize::load, (&self.used, Ordering::Acquire), credits)
    }

    /// Asking for `amount` of the shared credits under the account's limit may be
    /// answered so: `Ok` with the credits that admitted it, `Err` with those that
    /// did not.
    pub closed spec fn may_answer(&self, amount: usize, answer: Result<usize, usize>) -> bool {
        call_ensures(reserve_credits, (&self.used, amount, self.limit), answer)
    }

    /// `amount` was given back to the shared credits.
    pub closed spec fn refunded(&self, amount: usize) -> bool {
        call_ensures(refund_credits, (&self.used, amount), ())
    }

    /// The shared credits started at zero: they are what [`AtomicUsize::new`]
    /// gives for it.
    pub closed spec fn starts_unused(&self) -> bool {
        call_ensures(AtomicUsize::new, (0,), self.used)
    }

    /// Returns currently retained source credits.
    ///
    /// The credits are shared with every charge that is still alive, so the
    /// value read is not fixed by the account alone.
    pub fn used(&self) -> (result: usize)
        ensures
            self.may_read(result),
    {
        self.used.load(Ordering::Acquire)
    }

    /// Atomically reserves `amount`, refunding it when the returned charge is
    /// dropped.
    ///
    /// The decision is [`admitted`] on the credits found in the account. Other
    /// owners of the account move them, so only a request beyond the limit is
    /// decided by the arguments.
    pub fn try_charge(&self, amount: usize) -> (result: Result<WatchCharge<'_>, WatchChargeError>)
        ensures
            match result {
                Ok(charge) => {
                    &&& amount <= self.limit()
                    &&& charge.amount() == amount
                    &&& charge.account() == self
                },
                Err(error) => error == WatchChargeError::Limit,
            },
            exists|answer: Result<usize, usize>| #[trigger]
                self.may_answer(amount, answer) && match answer {
                    Ok(previous) => result is Ok && previous + amount <= self.limit(),
                    Err(current) => result is Err && current + amount > self.limit(),
                },
            amount > self.limit() ==> result is Err,
    {
        let answer = reserve_credits(&self.used, amount, self.limit);
        assert(self.may_answer(amount, answer));
        match answer {
            Ok(_) => Ok(WatchCharge { account: self, amount }),
            Err(_) => Err(WatchChargeError::Limit),
        }
    }
}

/// Watch-account admission failure.
#[derive(Debug, Clone, Copy, PartialEq, Eq, Structural)]
#[non_exhaustive]
pub enum WatchChargeError {
    /// The checked charge would exceed the configured owner limit.
    Limit,
    /// `usize::MAX` is rejected rather than exposed as an unbounded policy.
    Unbounded,
}

/// RAII ownership of admitted watch/source credits.
pub struct WatchCharge<'a> {
    account: &'a WatchAccount,
    amount: usize,
}

impl<'a> WatchCharge<'a> {
    /// Returns the retained charge.
    #[verifier::when_used_as_spec(spec_amount)]
    pub fn amount(&self) -> (result: usize)
        ensures
            result == self.spec_amount(),
    {
        self.amount
    }

    /// Specification counterpart of [`Self::amount`].
    pub closed spec fn spec_amount(&self) -> usize {
        self.amount
    }

    /// The account that granted the charge.
    pub closed spec fn account(&self) -> &'a WatchAccount {
        self.account
    }

    fn reduce_to(&mut self, amount: usize) -> (result: Result<(), CommitSubscriptionError>)
        ensures
            final(self).account() == old(self).account(),
            match result {
                Ok(_) => {
                    &&& amount <= old(self).amount()
                    &&& final(self).amount() == amount
                    &&& old(self).account().refunded((old(self).amount() - amount) as usize)
                },
                Err(error) => amount > old(self).amount() && error
                    == CommitSubscriptionError::InvalidState && final(self).amount() == old(
                    self,
                ).amount(),
            },
    {
        if amount > self.amount {
            return Err(CommitSubscriptionError::InvalidState);
        }
        let refund = self.amount - amount;
        self.amount = amount;
        refund_credits(&self.account.used, refund);
        Ok(())
    }
}

impl<'a> Drop for WatchCharge<'a> {
    fn drop(&mut self)
        ensures
            old(self).account().refunded(old(self).amount()),
        opens_invariants none
        no_unwind
    {
        refund_credits(&self.account.used, self.amount);
    }
}

/// Terminal result of cancelling one retained low-level registration.
#[derive(Debug, Clone, Copy, PartialEq, Eq, Structural)]
#[non_exhaustive]
pub enum CancelState {
    /// This call detached a live source registration.
    Cancelled,
    /// The source had already closed, fired, or detached the registration.
    AlreadyInactive,
}

/// One owned source registration retained until explicit cancellation/drop.
///
/// `cancel` must leave the value without ownership of a live source slot even
/// when it returns an error. This lets aggregate teardown continue without a
/// hidden retry loop or resource leak. It runs during drop and must not unwind.
pub trait RetainedRegistration {
    /// Waker-update error.
    type UpdateError;

    /// Cancellation outcome error.
    type CancelError;

    /// Updates the executor waker without creating another registration.
    fn update(&mut self, waker: &Waker) -> Result<(), Self::UpdateError>;

    /// Detaches the retained source slot and consumes its live ownership.
    fn cancel(&mut self) -> Result<CancelState, Self::CancelError>;
}

/// Aggregate operation failure identifying the source that failed first.
#[derive(Debug, PartialEq, Eq)]
pub struct AggregateError<E> {
    /// Source index in arming order.
    pub index: usize,
    /// Source-specific typed error.
    pub error: E,
}

/// `index` is the first failed outcome.
pub open spec fn first_failed<E>(outcomes: Seq<Result<(), E>>, index: int) -> bool {
    &&& 0 <= index < outcomes.len()
    &&& outcomes[index] is Err
    &&& forall|i: int| 0 <= i < index ==> (#[trigger] outcomes[i]) is Ok
}

/// What an aggregate of these outcomes, in arming order, reports: the first
/// failure, or success when there is none.
pub open spec fn aggregate_of<E>(
    outcomes: Seq<Result<(), E>>,
    result: Result<(), AggregateError<E>>,
) -> bool {
    match result {
        Ok(_) => forall|i: int| 0 <= i < outcomes.len() ==> (#[trigger] outcomes[i]) is Ok,
        Err(failure) => first_failed(outcomes, failure.index as int)
            && outcomes[failure.index as int]->Err_0 == failure.error,
    }
}

/// The first failure among the outcomes so far, once the outcome of the source
/// at `index` is known too.
pub fn keep_first<E>(
    first: Option<AggregateError<E>>,
    index: usize,
    outcome: Result<(), E>,
) -> (result: Option<AggregateError<E>>)
    ensures
        result == match first {
            Some(failure) => Some(failure),
            None => match outcome {
                Ok(_) => None,
                Err(error) => Some(AggregateError { index, error }),
            },
        },
{
    match (first, outcome) {
        (Some(failure), _) => Some(failure),
        (None, Err(error)) => Some(AggregateError { index, error }),
        (None, Ok(_)) => None,
    }
}

/// What is reported when `first` is the first failure.
spec fn report<E>(first: Option<AggregateError<E>>) -> Result<(), AggregateError<E>> {
    match first {
        Some(failure) => Err(failure),
        None => Ok(()),
    }
}

/// Keeping the first failure keeps the aggregate up to date.
proof fn aggregate_push<E>(
    outcomes: Seq<Result<(), E>>,
    first: Option<AggregateError<E>>,
    outcome: Result<(), E>,
    next: Option<AggregateError<E>>,
)
    requires
        outcomes.len() <= usize::MAX,
        aggregate_of(outcomes, report(first)),
        next == match first {
            Some(failure) => Some(failure),
            None => match outcome {
                Ok(_) => None,
                Err(error) => Some(AggregateError { index: outcomes.len() as usize, error }),
            },
        },
    ensures
        aggregate_of(outcomes.push(outcome), report(next)),
{
    let all = outcomes.push(outcome);
    assert forall|i: int| 0 <= i < outcomes.len() implies #[trigger] all[i] == outcomes[i] by {}
    if let Some(failure) = next {
        assert(first_failed(all, failure.index as int));
    }
}

/// Calling [`RetainedRegistration::update`] with `waker` on the source `before`
/// may answer `outcome`.
pub open spec fn updated_by<R: RetainedRegistration>(
    before: R,
    waker: &Waker,
    outcome: Result<(), R::UpdateError>,
) -> bool {
    exists|source: &mut R|
        *source == before && #[trigger] call_ensures(R::update, (source, waker), outcome)
}

/// Hands the waker to one source.
fn update_source<R: RetainedRegistration>(source: &mut R, waker: &Waker) -> (outcome: Result<
    (),
    R::UpdateError,
>)
    ensures
        updated_by(*old(source), waker, outcome),
        exists|called: &mut R|
            *called == *old(source) && *final(called) == *final(source)
                && #[trigger] call_ensures(R::update, (called, waker), outcome),
{
    source.update(waker)
}

/// Calling [`RetainedRegistration::cancel`] on the source `before` may answer
/// so that `outcome` is reported for it: any success counts alike, and a
/// failure is handed on.
pub open spec fn cancelled_by<R: RetainedRegistration>(
    before: R,
    outcome: Result<(), R::CancelError>,
) -> bool {
    exists|source: &mut R, answer: Result<CancelState, R::CancelError>|
        *source == before && #[trigger] call_ensures(R::cancel, (source,), answer) && outcome
            == match answer {
            Ok(_) => Ok(()),
            Err(error) => Err(error),
        }
}

/// Failure while arming one source in a prepared aggregate.
#[derive(Debug, PartialEq, Eq)]
pub enum ArmError<E> {
    /// The caller attempted to exceed its declared, admitted topology.
    Capacity {
        /// Maximum source count reserved during prepare.
        maximum: usize,
    },
    /// A specific source rejected registration.
    Source(AggregateError<E>),
    /// The prepared owner no longer retains its unpublished storage.
    InvalidState,
}

/// Failure while publishing a fully armed aggregate subscription.
#[derive(Debug, Clone, Copy, PartialEq, Eq, Structural)]
#[non_exhaustive]
pub enum CommitSubscriptionError {
    /// The prepared owner did not retain a coherent storage/accounting pair.
    InvalidState,
}

/// Failure before any aggregate subscription is published.
#[derive(Debug, Clone, Copy, PartialEq, Eq, Structural)]
#[non_exhaustive]
pub enum PrepareSubscriptionError {
    /// Per-owner/watch accounting rejected the declared maximum source count.
    Quota,
    /// Fallible owned registration storage could not be reserved.
    NoMemory,
}

/// [`RetainedRegistration::cancel`] was called on the source `before`, whatever
/// it answered.
spec fn cancels<R: RetainedRegistration>(before: R) -> bool {
    exists|source: &mut R, answer: Result<CancelState, R::CancelError>|
        *source == before && #[trigger] call_ensures(R::cancel, (source,), answer)
}

/// Calls [`RetainedRegistration::cancel`] of a consumer's registration and
/// discards the outcome. Claimed is that it makes this call, on this
/// registration, and that cancelling does not unwind, because a drop may not:
/// the trait's documentation asks that of its implementors, and nothing checks
/// it.
#[verifier::external_body]
fn cancel_on_drop<R: RetainedRegistration>(registration: &mut R)
    ensures
        cancels(*old(registration)),
    opens_invariants none
    no_unwind
{
    let _ = registration.cancel();
}

/// One armed source, cancelled when dropped while still live.
struct Armed<R: RetainedRegistration> {
    registration: R,
    live: bool,
}

impl<R: RetainedRegistration> Armed<R> {
    /// A source that is still live was cancelled.
    pub closed spec fn ends(&self) -> bool {
        self.live ==> cancels(self.registration)
    }
}

impl<R: RetainedRegistration> Drop for Armed<R> {
    fn drop(&mut self)
        ensures
            old(self).ends(),
        opens_invariants none
        no_unwind
    {
        if self.live {
            cancel_on_drop(&mut self.registration);
        }
    }
}

/// Every source is cancelled when it is dropped.
spec fn all_live<R: RetainedRegistration>(registrations: Seq<Armed<R>>) -> bool {
    forall|i: int| 0 <= i < registrations.len() ==> (#[trigger] registrations[i]).live
}

/// Two-phase aggregate registration owner.
///
/// The caller declares and pays for the maximum source topology before arming.
/// Any error or dropped prepare value cancels every already armed source.
#[must_use]
pub struct PreparedSubscription<'a, R: RetainedRegistration> {
    registrations: Vec<Armed<R>>,
    charge: WatchCharge<'a>,
    maximum: usize,
}

impl<'a, R: RetainedRegistration> PreparedSubscription<'a, R> {
    /// Registrations armed so far, in arming order.
    pub closed spec fn sources(&self) -> Seq<R> {
        self.registrations@.map_values(|armed: Armed<R>| armed.registration)
    }

    /// The account that pays for the topology.
    pub closed spec fn account(&self) -> &'a WatchAccount {
        self.charge.account()
    }

    /// The charge covers the declared topology, which covers the armed sources,
    /// and every source is cancelled when it is dropped.
    pub closed spec fn wf(&self) -> bool {
        &&& self.registrations@.len() <= self.maximum
        &&& self.charge.amount() == self.maximum
        &&& all_live(self.registrations@)
    }

    /// The allocator may grant room for `maximum_sources` registrations.
    pub closed spec fn storage_granted(maximum_sources: usize) -> bool {
        allocation_granted::<Armed<R>>(maximum_sources)
    }

    /// The allocator may refuse room for `maximum_sources` registrations.
    pub closed spec fn storage_refused(maximum_sources: usize) -> bool {
        allocation_refused::<Armed<R>>(maximum_sources)
    }

    /// Reserves accounting and owned storage before source publication.
    ///
    /// It fails with a quota error only where the credits in use leave too few,
    /// and for want of memory only where the allocator refuses the storage.
    /// A topology beyond the account limit never succeeds.
    pub fn try_new(account: &'a WatchAccount, maximum_sources: usize) -> (result: Result<
        Self,
        PrepareSubscriptionError,
    >)
        ensures
            match result {
                Ok(prepared) => {
                    &&& prepared.wf()
                    &&& maximum_sources <= account.limit()
                    &&& prepared.maximum_sources() == maximum_sources
                    &&& prepared.account() == account
                    &&& prepared.sources() == Seq::<R>::empty()
                },
                Err(error) => error == PrepareSubscriptionError::Quota || error
                    == PrepareSubscriptionError::NoMemory,
            },
            exists|answer: Result<usize, usize>| #[trigger]
                account.may_answer(maximum_sources, answer) && match answer {
                    Ok(previous) => {
                        &&& previous + maximum_sources <= account.limit()
                        &&& match result {
                            Ok(_) => Self::storage_granted(maximum_sources),
                            Err(error) => error == PrepareSubscriptionError::NoMemory
                                && Self::storage_refused(maximum_sources),
                        }
                    },
                    Err(current) => {
                        &&& current + maximum_sources > account.limit()
                        &&& result is Err && result->Err_0 == PrepareSubscriptionError::Quota
                    },
                },
            maximum_sources > account.limit() ==> result is Err && result->Err_0
                == PrepareSubscriptionError::Quota,
    {
        let charge = match account.try_charge(maximum_sources) {
            Ok(charge) => charge,
            Err(_) => return Err(PrepareSubscriptionError::Quota),
        };
        let mut registrations: Vec<Armed<R>> = match reserved(maximum_sources) {
            Some(registrations) => registrations,
            None => return Err(PrepareSubscriptionError::NoMemory),
        };
        let prepared = Self { registrations, charge, maximum: maximum_sources };
        assert(prepared.sources() =~= Seq::<R>::empty());
        Ok(prepared)
    }

    /// Returns the declared source maximum.
    #[verifier::when_used_as_spec(spec_maximum_sources)]
    pub fn maximum_sources(&self) -> (result: usize)
        ensures
            result == self.spec_maximum_sources(),
    {
        self.maximum
    }

    /// Specification counterpart of [`Self::maximum_sources`].
    pub closed spec fn spec_maximum_sources(&self) -> usize {
        self.maximum
    }

    /// Returns the number of sources armed so far.
    pub fn armed_sources(&self) -> (result: usize)
        ensures
            result == self.sources().len(),
    {
        self.registrations.len()
    }

    /// Arms and retains one source. If `arm` fails, the prepared owner remains
    /// intact so normal error propagation drops it and rolls back prior slots.
    ///
    /// Beyond the declared topology `arm` does not run, because there is no
    /// admitted storage or accounting for a source.
    pub fn arm_with<E>(&mut self, arm: impl FnOnce() -> Result<R, E>) -> (result: Result<
        (),
        ArmError<E>,
    >)
        requires
            old(self).wf(),
            call_requires(arm, ()),
        ensures
            final(self).wf(),
            final(self).maximum_sources() == old(self).maximum_sources(),
            final(self).account() == old(self).account(),
            if old(self).sources().len() >= old(self).maximum_sources() {
                &&& result == Err::<(), ArmError<E>>(
                    ArmError::Capacity { maximum: old(self).maximum_sources() },
                )
                &&& final(self).sources() == old(self).sources()
            } else {
                exists|armed: Result<R, E>| #[trigger]
                    call_ensures(arm, (), armed) && match armed {
                        Ok(registration) => {
                            &&& result == Ok::<(), ArmError<E>>(())
                            &&& final(self).sources() == old(self).sources().push(registration)
                        },
                        Err(error) => result == Err::<(), ArmError<E>>(
                            ArmError::Source(
                                AggregateError {
                                    index: old(self).sources().len() as usize,
                                    error,
                                },
                            ),
                        ) && final(self).sources() == old(self).sources(),
                    }
            },
    {
        let index: usize = self.registrations.len();
        if index >= self.maximum {
            return Err(ArmError::Capacity { maximum: self.maximum });
        }
        match arm() {
            Ok(registration) => {
                let ghost before = self.sources();
                self.registrations.push(Armed { registration, live: true });
                assert(self.sources() =~= before.push(registration));
                Ok(())
            },
            Err(error) => Err(ArmError::Source(AggregateError { index, error })),
        }
    }

    /// Publishes the complete aggregate and refunds unused planned credits.
    pub fn commit(self) -> (result: Result<Subscription<'a, R>, CommitSubscriptionError>)
        requires
            self.wf(),
        ensures
            result is Ok,
            result->Ok_0.wf(),
            result->Ok_0.sources() == self.sources(),
            result->Ok_0.charged() == self.sources().len(),
            result->Ok_0.account() == self.account(),
            self.account().refunded((self.maximum_sources() - self.sources().len()) as usize),
    {
        let registrations = self.registrations;
        let mut charge = self.charge;
        charge.reduce_to(registrations.len())?;
        Ok(Subscription { registrations, charge })
    }
}

/// Published aggregate subscription retaining every source token and charge.
#[must_use]
pub struct Subscription<'a, R: RetainedRegistration> {
    registrations: Vec<Armed<R>>,
    charge: WatchCharge<'a>,
}

impl<'a, R: RetainedRegistration> Subscription<'a, R> {
    /// Retained registrations, in arming order.
    pub closed spec fn sources(&self) -> Seq<R> {
        self.registrations@.map_values(|armed: Armed<R>| armed.registration)
    }

    /// The account that pays for the sources.
    pub closed spec fn account(&self) -> &'a WatchAccount {
        self.charge.account()
    }

    /// Credits retained from the account.
    pub closed spec fn charged(&self) -> usize {
        self.charge.amount()
    }

    /// Every retained source is cancelled when it is dropped.
    pub closed spec fn live(&self) -> bool {
        all_live(self.registrations@)
    }

    /// Exactly the retained sources are paid for, and all of them are live.
    pub open spec fn wf(&self) -> bool {
        self.charged() == self.sources().len() && self.live()
    }

    /// Returns the retained source count.
    pub fn source_count(&self) -> (result: usize)
        ensures
            result == self.sources().len(),
    {
        self.registrations.len()
    }

    /// Updates every retained source and reports the first error after trying
    /// all sources. Each source is called once, with `waker`, and stays as the
    /// call leaves it. What a source answers is up to the registration.
    pub fn update_all(&mut self, waker: &Waker) -> (result: Result<
        (),
        AggregateError<R::UpdateError>,
    >)
        requires
            old(self).wf(),
        ensures
            final(self).wf(),
            final(self).account() == old(self).account(),
            final(self).sources().len() == old(self).sources().len(),
            exists|outcomes: Seq<Result<(), R::UpdateError>>|
                {
                    &&& outcomes.len() == old(self).sources().len()
                    &&& #[trigger] aggregate_of(outcomes, result)
                    // every source was called with the waker
                    &&& forall|i: int|
                        0 <= i < outcomes.len() ==> updated_by(
                            old(self).sources()[i],
                            waker,
                            #[trigger] outcomes[i],
                        )
                    // and stays as that call left it
                    &&& forall|i: int|
                        0 <= i < outcomes.len() && updated_by(
                            old(self).sources()[i],
                            waker,
                            #[trigger] outcomes[i],
                        ) ==> exists|source: &mut R|
                            {
                                &&& *source == old(self).sources()[i]
                                &&& *final(source) == final(self).sources()[i]
                                &&& #[trigger] call_ensures(
                                    R::update,
                                    (source, waker),
                                    outcomes[i],
                                )
                            }
                },
    {
        let ghost before = self.sources();
        let ghost mut outcomes: Seq<Result<(), R::UpdateError>> = Seq::empty();
        let mut first: Option<AggregateError<R::UpdateError>> = None;
        let total: usize = self.registrations.len();
        let mut index: usize = 0;
        while index < total
            invariant
                index <= total,
                total == self.registrations.len(),
                total == before.len(),
                before == old(self).sources(),
                self.charge == old(self).charge,
                self.live(),
                outcomes.len() == index,
                aggregate_of(outcomes, report(first)),
                forall|i: int|
                    0 <= i < index ==> updated_by(before[i], waker, #[trigger] outcomes[i]),
                forall|i: int|
                    0 <= i < index && updated_by(before[i], waker, #[trigger] outcomes[i])
                        ==> exists|source: &mut R|
                        *source == before[i] && *final(source) == self.sources()[i]
                            && #[trigger] call_ensures(R::update, (source, waker), outcomes[i]),
                forall|i: int| index <= i < total ==> self.sources()[i] == #[trigger] before[i],
            decreases total - index,
        {
            let ghost sources = self.sources();
            let ghost known = outcomes;
            let ghost previous = first;
            let armed = &mut self.registrations[index];
            let outcome = update_source(&mut armed.registration, waker);
            proof {
                outcomes = outcomes.push(outcome);
            }
            first = keep_first(first, index, outcome);
            proof {
                aggregate_push(known, previous, outcome, first);
                let now = self.sources();
                assert(before[index as int] == sources[index as int]);
                assert forall|i: int| 0 <= i < index + 1 implies {
                    &&& updated_by(before[i], waker, #[trigger] outcomes[i])
                    &&& exists|source: &mut R|
                        *source == before[i] && *final(source) == now[i]
                            && #[trigger] call_ensures(R::update, (source, waker), outcomes[i])
                } by {
                    if i < index {
                        assert(outcomes[i] == known[i]);
                        assert(now[i] == sources[i]);
                    } else {
                        assert(outcomes[i] == outcome);
                    }
                }
            }
            index = index + 1;
        }
        let result = match first {
            Some(failure) => Err(failure),
            None => Ok(()),
        };
        proof {
            assert(aggregate_of(outcomes, result));
            assert(outcomes.len() == old(self).sources().len());
        }
        result
    }

    /// Explicitly cancels all sources in arming order, still attempting later
    /// sources after an error. Credits are refunded before this function
    /// returns. What a source answers is up to the registration.
    pub fn cancel(self) -> (result: Result<(), AggregateError<R::CancelError>>)
        ensures
            self.account().refunded(self.charged()),
            exists|outcomes: Seq<Result<(), R::CancelError>>|
                {
                    &&& outcomes.len() == self.sources().len()
                    &&& #[trigger] aggregate_of(outcomes, result)
                    &&& forall|i: int|
                        0 <= i < outcomes.len() ==> cancelled_by::<R>(
                            self.sources()[i],
                            #[trigger] outcomes[i],
                        )
                },
    {
        let ghost before = self.sources();
        let mut registrations = self.registrations;
        let mut charge = self.charge;
        let ghost mut outcomes: Seq<Result<(), R::CancelError>> = Seq::empty();
        let mut first: Option<AggregateError<R::CancelError>> = None;
        let total: usize = registrations.len();
        let mut index: usize = 0;
        while index < total
            invariant
                index <= total,
                total == registrations.len(),
                total == before.len(),
                outcomes.len() == index,
                aggregate_of(outcomes, report(first)),
                forall|i: int|
                    0 <= i < index ==> cancelled_by::<R>(before[i], #[trigger] outcomes[i]),
                forall|i: int|
                    index <= i < total ==> registrations@[i].registration == #[trigger] before[i],
            decreases total - index,
        {
            let ghost known = outcomes;
            let ghost previous = first;
            let ghost source = registrations@[index as int].registration;
            let armed = &mut registrations[index];
            armed.live = false;
            let outcome = match armed.registration.cancel() {
                Ok(_) => Ok(()),
                Err(error) => Err(error),
            };
            proof {
                outcomes = outcomes.push(outcome);
            }
            first = keep_first(first, index, outcome);
            proof {
                aggregate_push(known, previous, outcome, first);
                assert(before[index as int] == source);
                assert(cancelled_by::<R>(source, outcome));
                assert forall|i: int| 0 <= i < index + 1 implies cancelled_by::<R>(
                    before[i],
                    #[trigger] outcomes[i],
                ) by {
                    if i < index {
                        assert(outcomes[i] == known[i]);
                    }
                }
            }
            index = index + 1;
        }
        let _ = charge.reduce_to(0);
        match first {
            Some(failure) => Err(failure),
            None => Ok(()),
        }
    }
}

} // verus!
