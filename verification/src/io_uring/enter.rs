use crate::io_uring::error::IoUringError;
use vstd::prelude::*;

verus! {

/// Strictly decoded `io_uring_enter` flags supported by the initial profile.
#[derive(Clone, Copy, Debug, Eq, PartialEq, Structural)]
pub struct EnterFlags(pub(crate) u32);

impl Default for EnterFlags {
    fn default() -> (result: Self)
        ensures
            result.bits() == 0,
    {
        Self(0)
    }
}

impl EnterFlags {
    /// Wait until the requested minimum completion count is available.
    #[allow(non_snake_case)]
    #[verifier::when_used_as_spec(spec_GETEVENTS)]
    pub fn GETEVENTS() -> (result: Self)
        ensures
            result == Self::spec_GETEVENTS(),
            result.bits() == 1u32,
    {
        Self(1u32)
    }

    /// Specification counterpart of [`Self::GETEVENTS`].
    #[allow(non_snake_case)]
    pub open(crate) spec fn spec_GETEVENTS() -> Self {
        Self(1u32)
    }

    /// Complete initial supported enter flag set.
    #[allow(non_snake_case)]
    #[verifier::when_used_as_spec(spec_SUPPORTED)]
    pub fn SUPPORTED() -> (result: Self)
        ensures
            result == Self::spec_SUPPORTED(),
            result.bits() == 1u32,
    {
        Self(1u32)
    }

    /// Specification counterpart of [`Self::SUPPORTED`].
    #[allow(non_snake_case)]
    pub open(crate) spec fn spec_SUPPORTED() -> Self {
        Self(1u32)
    }

    /// Rejects `SQ_WAKEUP`, `SQ_WAIT`, `EXT_ARG`, registered-ring, and timer
    /// modifiers before submission state changes.
    pub fn from_bits(bits: u32) -> (result: Result<Self, IoUringError>)
        ensures
            match result {
                Ok(flags) => bits & !EnterFlags::SUPPORTED().bits() == 0 && flags.bits() == bits,
                Err(error) => bits & !EnterFlags::SUPPORTED().bits() != 0 && error
                    == IoUringError::UnsupportedEnterFlags,
            },
    {
        if bits & !1u32 == 0 {
            Ok(Self(bits))
        } else {
            Err(IoUringError::UnsupportedEnterFlags)
        }
    }

    /// Linux-compatible raw enter bits.
    #[verifier::when_used_as_spec(spec_bits)]
    pub fn bits(self) -> (result: u32)
        ensures
            result == self.spec_bits(),
    {
        self.0
    }

    /// Specification counterpart of [`Self::bits`].
    pub open(crate) spec fn spec_bits(self) -> u32 {
        self.0
    }

    /// Whether all selected bits are present.
    pub fn contains(self, other: Self) -> (result: bool)
        ensures
            result == (self.bits() & other.bits() == other.bits()),
    {
        self.0 & other.0 == other.0
    }
}

/// Optional legacy signal-mask copyin requested for one enter invocation.
#[derive(Clone, Copy, Debug, Eq, PartialEq, Structural)]
pub enum LegacySignalMask {
    /// No temporary signal mask is requested.
    Absent,
    /// Copy exactly the consumer-provided native `SignalSet` size from this
    /// userspace address, install it for the wait, and restore on every exit.
    Address(u64),
}

/// Copied scalar `io_uring_enter` arguments after strict initial decoding.
#[derive(Clone, Copy, Debug, Eq, PartialEq, Structural)]
pub struct EnterRequest {
    pub(crate) to_submit: u32,
    pub(crate) minimum_complete: u32,
    pub(crate) flags: EnterFlags,
    pub(crate) signal_mask: LegacySignalMask,
}

impl EnterRequest {
    /// A legacy mask argument is well formed: a present mask has exactly the
    /// native size, an absent one has that size or none.
    pub open spec fn mask_argument_ok(address: u64, bytes: u64, expected: u64) -> bool {
        if address == 0 {
            bytes == 0 || bytes == expected
        } else {
            expected != 0 && bytes == expected
        }
    }

    /// Validates initial enter flags and legacy signal-mask geometry.
    ///
    /// `expected_signal_set_bytes` is supplied by the signal ABI adapter. A
    /// present legacy mask must match it exactly. The returned value does not
    /// install a mask; the adapter must use a restoration guard spanning every
    /// success, interruption, timeout, and error exit.
    pub fn from_raw(
        to_submit: u32,
        minimum_complete: u32,
        flags: u32,
        signal_mask_address: u64,
        signal_mask_bytes: u64,
        expected_signal_set_bytes: u64,
    ) -> (result: Result<Self, IoUringError>)
        ensures
            ({
                let flags_ok = flags & !EnterFlags::SUPPORTED().bits() == 0;
                let mask_ok = EnterRequest::mask_argument_ok(
                    signal_mask_address,
                    signal_mask_bytes,
                    expected_signal_set_bytes,
                );
                match result {
                    Ok(request) => {
                        &&& flags_ok && mask_ok
                        &&& request.to_submit() == to_submit
                        &&& request.minimum_complete() == minimum_complete
                        &&& request.flags().bits() == flags
                        &&& request.signal_mask() == if signal_mask_address == 0 {
                            LegacySignalMask::Absent
                        } else {
                            LegacySignalMask::Address(signal_mask_address)
                        }
                    },
                    Err(error) => if !flags_ok {
                        error == IoUringError::UnsupportedEnterFlags
                    } else {
                        !mask_ok && error == IoUringError::InvalidSignalMaskArgument
                    },
                }
            }),
    {
        let flags = match EnterFlags::from_bits(flags) {
            Ok(flags) => flags,
            Err(error) => return Err(error),
        };
        let signal_mask = if signal_mask_address == 0 {
            if signal_mask_bytes != 0 && signal_mask_bytes != expected_signal_set_bytes {
                return Err(IoUringError::InvalidSignalMaskArgument);
            }
            LegacySignalMask::Absent
        } else {
            if expected_signal_set_bytes == 0 || signal_mask_bytes != expected_signal_set_bytes {
                return Err(IoUringError::InvalidSignalMaskArgument);
            }
            LegacySignalMask::Address(signal_mask_address)
        };
        Ok(Self { to_submit, minimum_complete, flags, signal_mask })
    }

    /// Maximum SQ entries requested by this invocation.
    #[verifier::when_used_as_spec(spec_to_submit)]
    pub fn to_submit(self) -> (result: u32)
        ensures
            result == self.spec_to_submit(),
    {
        self.to_submit
    }

    /// Specification counterpart of [`Self::to_submit`].
    pub open(crate) spec fn spec_to_submit(self) -> u32 {
        self.to_submit
    }

    /// Completion count requested by `GETEVENTS` waiting.
    #[verifier::when_used_as_spec(spec_minimum_complete)]
    pub fn minimum_complete(self) -> (result: u32)
        ensures
            result == self.spec_minimum_complete(),
    {
        self.minimum_complete
    }

    /// Specification counterpart of [`Self::minimum_complete`].
    pub open(crate) spec fn spec_minimum_complete(self) -> u32 {
        self.minimum_complete
    }

    /// Strictly decoded enter flags.
    #[verifier::when_used_as_spec(spec_flags)]
    pub fn flags(self) -> (result: EnterFlags)
        ensures
            result == self.spec_flags(),
    {
        self.flags
    }

    /// Specification counterpart of [`Self::flags`].
    pub open(crate) spec fn spec_flags(self) -> EnterFlags {
        self.flags
    }

    /// Optional exact-size legacy mask request.
    #[verifier::when_used_as_spec(spec_signal_mask)]
    pub fn signal_mask(self) -> (result: LegacySignalMask)
        ensures
            result == self.spec_signal_mask(),
    {
        self.signal_mask
    }

    /// Specification counterpart of [`Self::signal_mask`].
    pub open(crate) spec fn spec_signal_mask(self) -> LegacySignalMask {
        self.signal_mask
    }
}

} // verus!
