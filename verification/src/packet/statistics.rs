use vstd::prelude::*;

verus! {

/// Typed result of one endpoint-owned destructive statistics snapshot.
///
/// The Layer 1 packet endpoint remains the sole owner of live counters and
/// resets them exactly once. This value only maps that already-destructive
/// snapshot without inventing event attribution the endpoint did not record.
#[derive(Clone, Copy, Debug, Eq, PartialEq, Structural)]
pub struct PacketStatistics {
    pub(crate) packets: u64,
    pub(crate) drops: u64,
    pub(crate) filter_rejected: u64,
    pub(crate) filter_errors: u64,
}

impl PacketStatistics {
    /// Maps one endpoint-owned destructive snapshot without taking ownership
    /// of the counters or introducing a second reset point.
    ///
    /// `packets` and `drops` are already the endpoint's Linux-compatible
    /// aggregates. Filter outcomes remain diagnostics and are not added to
    /// either total. The values are copied exactly because the endpoint does
    /// not currently expose drop reasons or a saturation marker.
    pub fn from_destructive_snapshot(
        packets: u64,
        drops: u64,
        filter_rejected: u64,
        filter_errors: u64,
    ) -> (result: Self)
        ensures
            result.packets() == packets,
            result.drops() == drops,
            result.filter_rejected() == filter_rejected,
            result.filter_errors() == filter_errors,
    {
        Self { packets, drops, filter_rejected, filter_errors }
    }

    /// Endpoint-provided Linux-visible packet aggregate with its drops counted.
    #[verifier::when_used_as_spec(spec_packets)]
    pub fn packets(self) -> (result: u64)
        ensures
            result == self.spec_packets(),
    {
        self.packets
    }

    /// Specification counterpart of [`Self::packets`].
    pub open(crate) spec fn spec_packets(self) -> u64 {
        self.packets
    }

    /// Endpoint-provided Linux-visible drop aggregate.
    #[verifier::when_used_as_spec(spec_drops)]
    pub fn drops(self) -> (result: u64)
        ensures
            result == self.spec_drops(),
    {
        self.drops
    }

    /// Specification counterpart of [`Self::drops`].
    pub open(crate) spec fn spec_drops(self) -> u64 {
        self.drops
    }

    /// Packets rejected by an attached filter before admission.
    ///
    /// This diagnostic counter is intentionally excluded from Linux-visible
    /// `packets` and `drops`.
    #[verifier::when_used_as_spec(spec_filter_rejected)]
    pub fn filter_rejected(self) -> (result: u64)
        ensures
            result == self.spec_filter_rejected(),
    {
        self.filter_rejected
    }

    /// Specification counterpart of [`Self::filter_rejected`].
    pub open(crate) spec fn spec_filter_rejected(self) -> u64 {
        self.filter_rejected
    }

    /// Attached-filter executions that returned an internal mechanism error.
    ///
    /// This Layer 1 diagnostic is also excluded from Linux-visible totals.
    #[verifier::when_used_as_spec(spec_filter_errors)]
    pub fn filter_errors(self) -> (result: u64)
        ensures
            result == self.spec_filter_errors(),
    {
        self.filter_errors
    }

    /// Specification counterpart of [`Self::filter_errors`].
    pub open(crate) spec fn spec_filter_errors(self) -> u64 {
        self.filter_errors
    }

    /// Returns whether every aggregate and diagnostic counter is zero.
    pub fn is_empty(self) -> (result: bool)
        ensures
            result == (self.packets() == 0 && self.drops() == 0 && self.filter_rejected() == 0
                && self.filter_errors() == 0),
    {
        self.packets == 0 && self.drops == 0 && self.filter_rejected == 0 && self.filter_errors == 0
    }
}

impl Default for PacketStatistics {
    fn default() -> (result: Self)
        ensures
            result.packets() == 0,
            result.drops() == 0,
            result.filter_rejected() == 0,
            result.filter_errors() == 0,
    {
        Self { packets: 0, drops: 0, filter_rejected: 0, filter_errors: 0 }
    }
}

} // verus!
