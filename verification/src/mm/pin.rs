use crate::mm::error::MmError;
use crate::mm::identity::{AddressSpaceId, PinOwner};
use crate::mm::range::{PageRange, UserRange};
use vstd::prelude::*;

verus! {

/// Requested memory access of a pin.
#[derive(Clone, Copy, Debug, Eq, Hash, PartialEq, Structural)]
pub enum PinAccess {
    /// The consumer only reads memory.
    Read,
    /// The consumer may write memory; COW must be broken before publication.
    Write,
}

/// Lifetime class of a pin.
#[derive(Clone, Copy, Debug, Eq, Hash, PartialEq, Structural)]
pub enum PinDuration {
    /// Operation completes synchronously before returning to the caller.
    Synchronous,
    /// Pin survives until an asynchronous operation completes or is cancelled.
    AsyncIo,
    /// Long-term pin subject to stricter reclaim and file constraints.
    LongTerm,
}

/// Purpose of a pin, without importing a driver or syscall type.
#[derive(Clone, Copy, Debug, Eq, Hash, PartialEq, Structural)]
#[non_exhaustive]
pub enum PinUse {
    /// Fault-in or bounded userspace copy preparation.
    UserCopy,
    /// Block I/O scatter/gather request.
    BlockIo,
    /// Network I/O scatter/gather request.
    NetworkIo,
    /// Device DMA mapping.
    Dma,
    /// Other consumer-owned use with the same lifetime contract.
    Other,
}

/// Fully typed pin intent. Fields remain private so intent cannot be partial.
#[derive(Clone, Copy, Debug, Eq, PartialEq, Structural)]
pub struct PinRequest {
    pub(crate) range: UserRange,
    pub(crate) access: PinAccess,
    pub(crate) duration: PinDuration,
    pub(crate) use_kind: PinUse,
    pub(crate) owner: PinOwner,
}

impl PinRequest {
    /// Builds a pin request from checked values.
    pub fn new(
        range: UserRange,
        access: PinAccess,
        duration: PinDuration,
        use_kind: PinUse,
        owner: PinOwner,
    ) -> (result: Self)
        ensures
            result.range() == range,
            result.access() == access,
            result.duration() == duration,
            result.use_kind() == use_kind,
            result.owner() == owner,
    {
        Self { range, access, duration, use_kind, owner }
    }

    /// Raw-value adapter for syscall/kernel consumers.
    pub fn from_raw(
        start: usize,
        length: usize,
        access: PinAccess,
        duration: PinDuration,
        use_kind: PinUse,
        owner: u64,
    ) -> (result: Result<Self, MmError>)
        ensures
            match result {
                Ok(request) => {
                    &&& length > 0 && owner != 0
                    &&& request.range().start() == start
                    &&& request.range().end() == start + length
                    &&& request.access() == access
                    &&& request.duration() == duration
                    &&& request.use_kind() == use_kind
                    &&& request.owner().get() == owner
                },
                Err(error) => if length == 0 {
                    error == MmError::ZeroLength
                } else if start + length > usize::MAX {
                    error == MmError::Overflow
                } else {
                    owner == 0 && error == MmError::InvalidIdentity
                },
            },
    {
        let range = match UserRange::new(start, length) {
            Ok(range) => range,
            Err(error) => return Err(error),
        };
        let owner = match PinOwner::new(owner) {
            Ok(owner) => owner,
            Err(error) => return Err(error),
        };
        Ok(Self::new(range, access, duration, use_kind, owner))
    }

    /// Exact requested byte range before page covering.
    #[verifier::when_used_as_spec(spec_range)]
    pub fn range(self) -> (result: UserRange)
        ensures
            result == self.spec_range(),
    {
        self.range
    }

    /// Specification counterpart of [`Self::range`].
    pub open(crate) spec fn spec_range(self) -> UserRange {
        self.range
    }

    /// Requested access.
    #[verifier::when_used_as_spec(spec_access)]
    pub fn access(self) -> (result: PinAccess)
        ensures
            result == self.spec_access(),
    {
        self.access
    }

    /// Specification counterpart of [`Self::access`].
    pub open(crate) spec fn spec_access(self) -> PinAccess {
        self.access
    }

    /// Requested lifetime.
    #[verifier::when_used_as_spec(spec_duration)]
    pub fn duration(self) -> (result: PinDuration)
        ensures
            result == self.spec_duration(),
    {
        self.duration
    }

    /// Specification counterpart of [`Self::duration`].
    pub open(crate) spec fn spec_duration(self) -> PinDuration {
        self.duration
    }

    /// Requested use.
    #[verifier::when_used_as_spec(spec_use_kind)]
    pub fn use_kind(self) -> (result: PinUse)
        ensures
            result == self.spec_use_kind(),
    {
        self.use_kind
    }

    /// Specification counterpart of [`Self::use_kind`].
    pub open(crate) spec fn spec_use_kind(self) -> PinUse {
        self.use_kind
    }

    /// Accounting owner.
    #[verifier::when_used_as_spec(spec_owner)]
    pub fn owner(self) -> (result: PinOwner)
        ensures
            result == self.spec_owner(),
    {
        self.owner
    }

    /// Specification counterpart of [`Self::owner`].
    pub open(crate) spec fn spec_owner(self) -> PinOwner {
        self.owner
    }
}

/// Finite pages, bytes, and live-token quota.
#[derive(Clone, Copy, Debug, Eq, PartialEq, Structural)]
pub struct PinQuota {
    pub(crate) max_pages: u64,
    pub(crate) max_bytes: u64,
    pub(crate) max_tokens: u64,
}

impl PinQuota {
    /// Builds an explicit quota. Zero fields intentionally deny that resource.
    pub fn new(max_pages: u64, max_bytes: u64, max_tokens: u64) -> (result: Self)
        ensures
            result.max_pages() == max_pages,
            result.max_bytes() == max_bytes,
            result.max_tokens() == max_tokens,
    {
        Self { max_pages, max_bytes, max_tokens }
    }

    /// Maximum charged pages.
    #[verifier::when_used_as_spec(spec_max_pages)]
    pub fn max_pages(self) -> (result: u64)
        ensures
            result == self.spec_max_pages(),
    {
        self.max_pages
    }

    /// Specification counterpart of [`Self::max_pages`].
    pub open(crate) spec fn spec_max_pages(self) -> u64 {
        self.max_pages
    }

    /// Maximum charged bytes.
    #[verifier::when_used_as_spec(spec_max_bytes)]
    pub fn max_bytes(self) -> (result: u64)
        ensures
            result == self.spec_max_bytes(),
    {
        self.max_bytes
    }

    /// Specification counterpart of [`Self::max_bytes`].
    pub open(crate) spec fn spec_max_bytes(self) -> u64 {
        self.max_bytes
    }

    /// Maximum simultaneous reservations and active pins.
    #[verifier::when_used_as_spec(spec_max_tokens)]
    pub fn max_tokens(self) -> (result: u64)
        ensures
            result == self.spec_max_tokens(),
    {
        self.max_tokens
    }

    /// Specification counterpart of [`Self::max_tokens`].
    pub open(crate) spec fn spec_max_tokens(self) -> u64 {
        self.max_tokens
    }

    /// Whether the charges stay within the quota.
    #[verifier::when_used_as_spec(spec_admits)]
    pub fn admits(self, accounting: PinAccounting) -> (result: bool)
        ensures
            result == self.spec_admits(accounting),
    {
        accounting.pages <= self.max_pages && accounting.bytes <= self.max_bytes
            && accounting.tokens <= self.max_tokens
    }

    /// Specification counterpart of [`Self::admits`].
    pub open spec fn spec_admits(self, accounting: PinAccounting) -> bool {
        &&& accounting.pages() <= self.max_pages()
        &&& accounting.bytes() <= self.max_bytes()
        &&& accounting.tokens() <= self.max_tokens()
    }
}

/// Current pin resource charges.
#[derive(Clone, Copy, Debug, Eq, PartialEq, Structural)]
pub struct PinAccounting {
    pub(crate) pages: u64,
    pub(crate) bytes: u64,
    pub(crate) tokens: u64,
}

impl PinAccounting {
    /// Charged pages.
    #[verifier::when_used_as_spec(spec_pages)]
    pub fn pages(self) -> (result: u64)
        ensures
            result == self.spec_pages(),
    {
        self.pages
    }

    /// Specification counterpart of [`Self::pages`].
    pub open(crate) spec fn spec_pages(self) -> u64 {
        self.pages
    }

    /// Charged bytes.
    #[verifier::when_used_as_spec(spec_bytes)]
    pub fn bytes(self) -> (result: u64)
        ensures
            result == self.spec_bytes(),
    {
        self.bytes
    }

    /// Specification counterpart of [`Self::bytes`].
    pub open(crate) spec fn spec_bytes(self) -> u64 {
        self.bytes
    }

    /// Charged reservations plus active pins.
    #[verifier::when_used_as_spec(spec_tokens)]
    pub fn tokens(self) -> (result: u64)
        ensures
            result == self.spec_tokens(),
    {
        self.tokens
    }

    /// Specification counterpart of [`Self::tokens`].
    pub open(crate) spec fn spec_tokens(self) -> u64 {
        self.tokens
    }

    pub(crate) fn checked_add(self, charge: Self) -> (result: Result<Self, MmError>)
        ensures
            match result {
                Ok(sum) => is_sum(self, charge, sum),
                Err(error) => !sum_fits(self, charge) && error == MmError::Overflow,
            },
    {
        match (
            self.pages.checked_add(charge.pages),
            self.bytes.checked_add(charge.bytes),
            self.tokens.checked_add(charge.tokens),
        ) {
            (Some(pages), Some(bytes), Some(tokens)) => Ok(Self { pages, bytes, tokens }),
            _ => Err(MmError::Overflow),
        }
    }

    pub(crate) fn checked_sub(self, charge: Self) -> (result: Result<Self, MmError>)
        ensures
            match result {
                Ok(rest) => is_sum(rest, charge, self),
                Err(error) => {
                    &&& self.pages() < charge.pages() || self.bytes() < charge.bytes()
                        || self.tokens() < charge.tokens()
                    &&& error == MmError::Overflow
                },
            },
    {
        match (
            self.pages.checked_sub(charge.pages),
            self.bytes.checked_sub(charge.bytes),
            self.tokens.checked_sub(charge.tokens),
        ) {
            (Some(pages), Some(bytes), Some(tokens)) => Ok(Self { pages, bytes, tokens }),
            _ => Err(MmError::Overflow),
        }
    }

    /// The charge of one reservation or pin over `range`.
    #[verifier::when_used_as_spec(spec_for_range)]
    pub(crate) fn for_range(range: PageRange) -> (result: Self)
        ensures
            result == PinAccounting::spec_for_range(range),
    {
        Self { pages: range.page_count() as u64, bytes: range.len() as u64, tokens: 1 }
    }

    /// Specification counterpart of [`Self::for_range`]: every page, every
    /// byte, and one token.
    pub open(crate) spec fn spec_for_range(range: PageRange) -> Self {
        Self { pages: range.page_count() as u64, bytes: range.len() as u64, tokens: 1 }
    }
}

/// A range charges its pages, its bytes, and one token.
pub proof fn ranges_charge_pages_bytes_and_one_token(range: PageRange)
    ensures
        PinAccounting::spec_for_range(range).pages() == range.page_count(),
        PinAccounting::spec_for_range(range).bytes() == range.len(),
        PinAccounting::spec_for_range(range).tokens() == 1,
{
}

impl Default for PinAccounting {
    fn default() -> (result: Self)
        ensures
            result.pages() == 0,
            result.bytes() == 0,
            result.tokens() == 0,
    {
        Self { pages: 0, bytes: 0, tokens: 0 }
    }
}

/// `sum` is `a` and `b` together.
pub open spec fn is_sum(a: PinAccounting, b: PinAccounting, sum: PinAccounting) -> bool {
    &&& sum.pages() == a.pages() + b.pages()
    &&& sum.bytes() == a.bytes() + b.bytes()
    &&& sum.tokens() == a.tokens() + b.tokens()
}

/// `a` and `b` together are representable.
pub open spec fn sum_fits(a: PinAccounting, b: PinAccounting) -> bool {
    &&& a.pages() + b.pages() <= u64::MAX
    &&& a.bytes() + b.bytes() <= u64::MAX
    &&& a.tokens() + b.tokens() <= u64::MAX
}

/// `quota` admits `a` and `b` together.
pub open spec fn sum_admitted(quota: PinQuota, a: PinAccounting, b: PinAccounting) -> bool {
    &&& a.pages() + b.pages() <= quota.max_pages()
    &&& a.bytes() + b.bytes() <= quota.max_bytes()
    &&& a.tokens() + b.tokens() <= quota.max_tokens()
}

/// The number after `raw` in a sequence that ends rather than wraps.
pub open spec fn following(raw: u64) -> Option<u64> {
    if raw == u64::MAX {
        None
    } else {
        Some((raw + 1) as u64)
    }
}

/// A sequence whose next number is `next` has handed out `raw`.
pub open spec fn issued(next: Option<u64>, raw: u64) -> bool {
    raw != 0 && (next matches Some(n) ==> raw < n)
}

/// The sequence only moves forward from `before` to `after`.
pub open spec fn advances(before: Option<u64>, after: Option<u64>) -> bool {
    match (before, after) {
        (Some(a), Some(b)) => a <= b,
        (_, None) => true,
        (None, Some(_)) => false,
    }
}

pub(crate) fn following_number(raw: u64) -> (result: Option<u64>)
    ensures
        result == following(raw),
{
    raw.checked_add(1)
}

/// ABA-safe, nonzero pin token. Registry sequences never wrap or reuse it.
#[derive(Clone, Copy, Debug, Eq, Hash, Ord, PartialEq, PartialOrd, Structural)]
pub struct PinToken(pub(crate) u64);

impl PinToken {
    #[verifier::type_invariant]
    pub(crate) open spec fn nonzero(self) -> bool {
        self.0 != 0
    }

    /// Integer representation useful for opaque consumer maps and diagnostics.
    #[verifier::when_used_as_spec(spec_get)]
    pub fn get(self) -> (result: u64)
        ensures
            result == self.spec_get(),
            result != 0,
    {
        proof {
            use_type_invariant(&self);
        }
        self.0
    }

    /// Specification counterpart of [`Self::get`].
    pub open(crate) spec fn spec_get(self) -> u64 {
        self.0
    }
}

/// Opaque handle for quota reserved before fault/pin mechanism work.
#[derive(Clone, Copy, Debug, Eq, PartialEq, Structural)]
#[must_use]
pub struct PinReservation {
    pub(crate) token: PinToken,
}

impl PinReservation {
    /// Token identifying the reserved registry record.
    #[verifier::when_used_as_spec(spec_token)]
    pub fn token(self) -> (result: PinToken)
        ensures
            result == self.spec_token(),
    {
        self.token
    }

    /// Specification counterpart of [`Self::token`].
    pub open(crate) spec fn spec_token(self) -> PinToken {
        self.token
    }
}

/// Whether a record is published.
#[derive(Clone, Copy, Debug, Eq, PartialEq, Structural)]
pub enum RecordState {
    /// Quota is held and revalidation is under way.
    Reserved,
    /// Revalidation covered the whole range and the pin is published.
    Active,
}

/// One live reservation or active pin.
#[derive(Clone, Copy, Debug, Eq, PartialEq, Structural)]
pub struct PinRecord {
    /// Stable token.
    pub token: PinToken,
    /// Original typed request.
    pub request: PinRequest,
    /// Page-covering range charged and protected from mutation.
    pub range: PageRange,
    /// Address space and range frozen at admission.
    pub snapshot: PinSnapshot,
    /// End of the prefix that has been revalidated.
    pub validated_until: usize,
    /// Number of mapping segments in that prefix.
    pub validated_mappings: usize,
    /// Resource charge.
    pub charge: PinAccounting,
    /// Whether the pin is published.
    pub state: RecordState,
}

/// Read-only view of one live reservation or active pin.
#[derive(Clone, Copy, Debug, Eq, PartialEq, Structural)]
pub struct PinLeaseView(pub(crate) PinRecord);

impl PinLeaseView {
    /// Stable token.
    #[verifier::when_used_as_spec(spec_token)]
    pub fn token(self) -> (result: PinToken)
        ensures
            result == self.spec_token(),
    {
        self.0.token
    }

    /// Specification counterpart of [`Self::token`].
    pub open spec fn spec_token(self) -> PinToken {
        self.record().token
    }

    /// Original typed request.
    #[verifier::when_used_as_spec(spec_request)]
    pub fn request(self) -> (result: PinRequest)
        ensures
            result == self.spec_request(),
    {
        self.0.request
    }

    /// Specification counterpart of [`Self::request`].
    pub open spec fn spec_request(self) -> PinRequest {
        self.record().request
    }

    /// Exact page-covering range charged and protected from mutation.
    #[verifier::when_used_as_spec(spec_range)]
    pub fn range(self) -> (result: PageRange)
        ensures
            result == self.spec_range(),
    {
        self.0.range
    }

    /// Specification counterpart of [`Self::range`].
    pub open spec fn spec_range(self) -> PageRange {
        self.record().range
    }

    /// Address-space/range snapshot frozen at admission.
    #[verifier::when_used_as_spec(spec_snapshot)]
    pub fn snapshot(self) -> (result: PinSnapshot)
        ensures
            result == self.spec_snapshot(),
    {
        self.0.snapshot
    }

    /// Specification counterpart of [`Self::snapshot`].
    pub open spec fn spec_snapshot(self) -> PinSnapshot {
        self.record().snapshot
    }

    /// Number of contiguous mapping segments revalidated before publication.
    #[verifier::when_used_as_spec(spec_validated_mappings)]
    pub fn validated_mappings(self) -> (result: usize)
        ensures
            result == self.spec_validated_mappings(),
    {
        self.0.validated_mappings
    }

    /// Specification counterpart of [`Self::validated_mappings`].
    pub open spec fn spec_validated_mappings(self) -> usize {
        self.record().validated_mappings
    }

    /// Exact resource charge.
    #[verifier::when_used_as_spec(spec_accounting)]
    pub fn accounting(self) -> (result: PinAccounting)
        ensures
            result == self.spec_accounting(),
    {
        self.0.charge
    }

    /// Specification counterpart of [`Self::accounting`].
    pub open spec fn spec_accounting(self) -> PinAccounting {
        self.record().charge
    }

    /// Whether mechanism pins have been revalidated and published.
    #[verifier::when_used_as_spec(spec_is_active)]
    pub fn is_active(self) -> (result: bool)
        ensures
            result == self.spec_is_active(),
    {
        matches!(self.0.state, RecordState::Active)
    }

    /// Specification counterpart of [`Self::is_active`].
    pub open spec fn spec_is_active(self) -> bool {
        self.record().state is Active
    }

    /// The record that the view shows.
    pub open(crate) spec fn record(self) -> PinRecord {
        self.0
    }
}

/// Address-space and full page-covering range frozen for one pin operation.
#[derive(Clone, Copy, Debug, Eq, PartialEq, Structural)]
pub struct PinSnapshot {
    pub(crate) address_space: AddressSpaceId,
    pub(crate) range: PageRange,
}

impl PinSnapshot {
    /// Address space whose mappings must cover the pin.
    #[verifier::when_used_as_spec(spec_address_space)]
    pub fn address_space(self) -> (result: AddressSpaceId)
        ensures
            result == self.spec_address_space(),
    {
        self.address_space
    }

    /// Specification counterpart of [`Self::address_space`].
    pub open(crate) spec fn spec_address_space(self) -> AddressSpaceId {
        self.address_space
    }

    /// Full page-covering range protected by the registry.
    #[verifier::when_used_as_spec(spec_range)]
    pub fn range(self) -> (result: PageRange)
        ensures
            result == self.spec_range(),
    {
        self.range
    }

    /// Specification counterpart of [`Self::range`].
    pub open(crate) spec fn spec_range(self) -> PageRange {
        self.range
    }
}

/// Quota and charges of one configured owner.
#[derive(Clone, Copy, Debug, Eq, PartialEq, Structural)]
pub struct OwnerAccount {
    /// The owner.
    pub owner: PinOwner,
    /// Its quota.
    pub quota: PinQuota,
    /// Its live charges.
    pub usage: PinAccounting,
}

/// Pin registry admission lifecycle.
#[derive(Clone, Copy, Debug, Eq, PartialEq, Structural)]
pub enum PinRegistryState {
    /// New reservations are admitted.
    Open,
    /// New work is rejected while existing work drains normally.
    Closing,
    /// Reserved work is cancelled and active pins must release.
    TearingDown,
    /// No live work remains and the registry cannot reopen.
    Closed,
}

/// Current bounded work counts returned by lifecycle operations.
#[derive(Clone, Copy, Debug, Eq, PartialEq, Structural)]
pub struct LifecycleProgress {
    pub(crate) active: usize,
    pub(crate) reserved: usize,
}

impl LifecycleProgress {
    /// Published pins still owned by consumers or devices.
    #[verifier::when_used_as_spec(spec_active)]
    pub fn active(self) -> (result: usize)
        ensures
            result == self.spec_active(),
    {
        self.active
    }

    /// Specification counterpart of [`Self::active`].
    pub open(crate) spec fn spec_active(self) -> usize {
        self.active
    }

    /// Pre-publication reservations still in flight.
    #[verifier::when_used_as_spec(spec_reserved)]
    pub fn reserved(self) -> (result: usize)
        ensures
            result == self.spec_reserved(),
    {
        self.reserved
    }

    /// Specification counterpart of [`Self::reserved`].
    pub open(crate) spec fn spec_reserved(self) -> usize {
        self.reserved
    }

    /// Total live registry records.
    pub fn total(self) -> (result: usize)
        ensures
            result == self.active() + self.reserved(),
    {
        proof {
            use_type_invariant(&self);
        }
        self.active + self.reserved
    }

    /// The counts describe disjoint sets of array slots.
    #[verifier::type_invariant]
    pub(crate) open spec fn bounded(self) -> bool {
        self.active + self.reserved <= usize::MAX
    }
}

/// Result of beginning forced teardown.
#[derive(Clone, Copy, Debug, Eq, PartialEq, Structural)]
pub struct TeardownReport {
    pub(crate) cancelled_reservations: usize,
    pub(crate) active_remaining: usize,
}

impl TeardownReport {
    /// Reservations rolled back before publication.
    #[verifier::when_used_as_spec(spec_cancelled_reservations)]
    pub fn cancelled_reservations(self) -> (result: usize)
        ensures
            result == self.spec_cancelled_reservations(),
    {
        self.cancelled_reservations
    }

    /// Specification counterpart of [`Self::cancelled_reservations`].
    pub open(crate) spec fn spec_cancelled_reservations(self) -> usize {
        self.cancelled_reservations
    }

    /// Active pins that still require verified release/cancellation.
    #[verifier::when_used_as_spec(spec_active_remaining)]
    pub fn active_remaining(self) -> (result: usize)
        ensures
            result == self.spec_active_remaining(),
    {
        self.active_remaining
    }

    /// Specification counterpart of [`Self::active_remaining`].
    pub open(crate) spec fn spec_active_remaining(self) -> usize {
        self.active_remaining
    }
}

/// First live pin preventing a mapping mutation.
#[derive(Clone, Copy, Debug, Eq, PartialEq, Structural)]
pub struct MutationBlocker(pub(crate) PinLeaseView);

impl MutationBlocker {
    /// The blocking record.
    pub open(crate) spec fn record(self) -> PinRecord {
        self.0.0
    }

    /// Blocking token.
    #[verifier::when_used_as_spec(spec_token)]
    pub fn token(self) -> (result: PinToken)
        ensures
            result == self.spec_token(),
    {
        self.0.0.token
    }

    /// Specification counterpart of [`Self::token`].
    pub open spec fn spec_token(self) -> PinToken {
        self.record().token
    }

    /// Blocking range.
    #[verifier::when_used_as_spec(spec_range)]
    pub fn range(self) -> (result: PageRange)
        ensures
            result == self.spec_range(),
    {
        self.0.0.range
    }

    /// Specification counterpart of [`Self::range`].
    pub open spec fn spec_range(self) -> PageRange {
        self.record().range
    }

    /// Blocking request.
    #[verifier::when_used_as_spec(spec_request)]
    pub fn request(self) -> (result: PinRequest)
        ensures
            result == self.spec_request(),
    {
        self.0.0.request
    }

    /// Specification counterpart of [`Self::request`].
    pub open spec fn spec_request(self) -> PinRequest {
        self.record().request
    }

    /// Frozen mapping snapshot.
    #[verifier::when_used_as_spec(spec_snapshot)]
    pub fn snapshot(self) -> (result: PinSnapshot)
        ensures
            result == self.spec_snapshot(),
    {
        self.0.0.snapshot
    }

    /// Specification counterpart of [`Self::snapshot`].
    pub open spec fn spec_snapshot(self) -> PinSnapshot {
        self.record().snapshot
    }
}

} // verus!
