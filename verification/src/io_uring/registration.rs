use crate::io_uring::error::IoUringError;
use crate::io_uring::setup::IORING_MAX_FIXED_FILES;
use vstd::prelude::*;

verus! {

/// Registers an iovec array as fixed buffers.
pub const IORING_REGISTER_BUFFERS: u32 = 0;

/// Retires the fixed buffers.
pub const IORING_UNREGISTER_BUFFERS: u32 = 1;

/// Registers a descriptor array as fixed files.
pub const IORING_REGISTER_FILES: u32 = 2;

/// Retires the fixed files.
pub const IORING_UNREGISTER_FILES: u32 = 3;

/// Asks which operations are supported.
pub const IORING_REGISTER_PROBE: u32 = 8;

/// Modifier that names the ring by a registered index.
pub const IORING_REGISTER_USE_REGISTERED_RING: u32 = 0x8000_0000;

/// Linux v6.12.35 maximum classic registered-buffer slots.
pub const IORING_MAX_REGISTERED_BUFFERS: u32 = 16_384;

/// Linux v6.12.35 maximum operation records accepted by `REGISTER_PROBE`.
pub const IORING_MAX_PROBE_OPERATIONS: u32 = 256;

/// First registration opcode outside the Linux v6.12.35 UAPI enum.
pub const PINNED_IORING_REGISTER_LAST: u32 = 31;

/// Header-level registration operations implemented by the initial profile.
#[derive(Clone, Copy, Debug, Eq, PartialEq, Structural)]
pub enum RegistrationOperation {
    /// Copy `count` iovec descriptors and build an unpublished fixed table.
    RegisterBuffers {
        /// Userspace address of the iovec array.
        argument: u64,
        /// Number of fixed-buffer slots.
        count: u32,
    },
    /// Retire the one published fixed-buffer table.
    UnregisterBuffers,
    /// Copy `count` signed descriptors and build an unpublished fixed table.
    RegisterFiles {
        /// Userspace address of the signed descriptor array.
        argument: u64,
        /// Number of fixed-file slots, with `-1` sparse entries.
        count: u32,
    },
    /// Retire the one published fixed-file table.
    UnregisterFiles,
    /// Fill a zeroed probe header and at most `operations` records.
    Probe {
        /// Userspace address of the probe object.
        argument: u64,
        /// Requested operation-record capacity.
        operations: u32,
    },
}

/// Copied syscall registration header before any userspace array access.
#[derive(Clone, Copy, Debug, Eq, PartialEq, Structural)]
pub struct RegistrationRequest {
    pub(crate) opcode: u32,
    pub(crate) argument: u64,
    pub(crate) count: u32,
}

impl RegistrationRequest {
    /// Preserves one copied raw registration header.
    pub fn new(opcode: u32, argument: u64, count: u32) -> (result: Self)
        ensures
            result.opcode() == opcode,
            result.argument() == argument,
            result.count() == count,
    {
        Self { opcode, argument, count }
    }

    /// Raw Linux registration opcode.
    #[verifier::when_used_as_spec(spec_opcode)]
    pub fn opcode(self) -> (result: u32)
        ensures
            result == self.spec_opcode(),
    {
        self.opcode
    }

    /// Specification counterpart of [`Self::opcode`].
    pub open(crate) spec fn spec_opcode(self) -> u32 {
        self.opcode
    }

    /// Raw userspace argument address.
    #[verifier::when_used_as_spec(spec_argument)]
    pub fn argument(self) -> (result: u64)
        ensures
            result == self.spec_argument(),
    {
        self.argument
    }

    /// Specification counterpart of [`Self::argument`].
    pub open(crate) spec fn spec_argument(self) -> u64 {
        self.argument
    }

    /// Raw `nr_args` value.
    #[verifier::when_used_as_spec(spec_count)]
    pub fn count(self) -> (result: u32)
        ensures
            result == self.spec_count(),
    {
        self.count
    }

    /// Specification counterpart of [`Self::count`].
    pub open(crate) spec fn spec_count(self) -> u32 {
        self.count
    }

    /// What a header without the registered-ring modifier decodes to.
    pub open spec fn decoded(self) -> Result<RegistrationOperation, IoUringError> {
        let argument = self.argument();
        let count = self.count();
        if self.opcode() == IORING_REGISTER_BUFFERS {
            // Without an argument the adapter reports the fault before the
            // count is looked at.
            if argument == 0 || 1 <= count <= IORING_MAX_REGISTERED_BUFFERS {
                Ok(RegistrationOperation::RegisterBuffers { argument, count })
            } else {
                Err(IoUringError::InvalidRegistration)
            }
        } else if self.opcode() == IORING_UNREGISTER_BUFFERS {
            if argument == 0 && count == 0 {
                Ok(RegistrationOperation::UnregisterBuffers)
            } else {
                Err(IoUringError::InvalidRegistration)
            }
        } else if self.opcode() == IORING_REGISTER_FILES {
            if argument == 0 || count == 0 {
                Err(IoUringError::InvalidRegistration)
            } else if count > IORING_MAX_FIXED_FILES {
                Err(IoUringError::InvalidFileTableCapacity)
            } else {
                Ok(RegistrationOperation::RegisterFiles { argument, count })
            }
        } else if self.opcode() == IORING_UNREGISTER_FILES {
            if argument == 0 && count == 0 {
                Ok(RegistrationOperation::UnregisterFiles)
            } else {
                Err(IoUringError::InvalidRegistration)
            }
        } else if self.opcode() == IORING_REGISTER_PROBE {
            if argument != 0 && count <= IORING_MAX_PROBE_OPERATIONS {
                Ok(RegistrationOperation::Probe { argument, operations: count })
            } else {
                Err(IoUringError::InvalidRegistration)
            }
        } else if self.opcode() < PINNED_IORING_REGISTER_LAST {
            Err(IoUringError::UnsupportedRegistration)
        } else {
            Err(IoUringError::UnknownRegistration)
        }
    }

    /// Validates the header and classifies supported versus unsupported work.
    pub fn decode(self) -> (result: Result<RegistrationOperation, IoUringError>)
        ensures
            self.opcode() < IORING_REGISTER_USE_REGISTERED_RING ==> result == self.decoded(),
            self.opcode() >= IORING_REGISTER_USE_REGISTERED_RING ==> {
                let base = self.opcode() - IORING_REGISTER_USE_REGISTERED_RING;
                result == Err::<RegistrationOperation, IoUringError>(
                    if base == IORING_REGISTER_BUFFERS || base == IORING_UNREGISTER_BUFFERS {
                        IoUringError::InvalidRegistration
                    } else {
                        IoUringError::UnsupportedRegistration
                    },
                )
            },
    {
        let opcode = self.opcode;
        proof {
            assert((opcode & 0x8000_0000u32 != 0) == (opcode >= 0x8000_0000u32) && (opcode
                >= 0x8000_0000u32 ==> opcode & !0x8000_0000u32 == opcode - 0x8000_0000u32))
                by (bit_vector);
        }
        if opcode & IORING_REGISTER_USE_REGISTERED_RING != 0 {
            let base = opcode & !IORING_REGISTER_USE_REGISTERED_RING;
            return if base == IORING_REGISTER_BUFFERS || base == IORING_UNREGISTER_BUFFERS {
                Err(IoUringError::InvalidRegistration)
            } else {
                Err(IoUringError::UnsupportedRegistration)
            };
        }
        if opcode == IORING_REGISTER_BUFFERS {
            if self.argument != 0 && (self.count == 0 || self.count
                > IORING_MAX_REGISTERED_BUFFERS) {
                Err(IoUringError::InvalidRegistration)
            } else {
                Ok(
                    RegistrationOperation::RegisterBuffers {
                        argument: self.argument,
                        count: self.count,
                    },
                )
            }
        } else if opcode == IORING_UNREGISTER_BUFFERS {
            if self.argument != 0 || self.count != 0 {
                Err(IoUringError::InvalidRegistration)
            } else {
                Ok(RegistrationOperation::UnregisterBuffers)
            }
        } else if opcode == IORING_REGISTER_FILES {
            if self.argument == 0 || self.count == 0 {
                return Err(IoUringError::InvalidRegistration);
            }
            if self.count > IORING_MAX_FIXED_FILES {
                return Err(IoUringError::InvalidFileTableCapacity);
            }
            Ok(
                RegistrationOperation::RegisterFiles {
                    argument: self.argument,
                    count: self.count,
                },
            )
        } else if opcode == IORING_UNREGISTER_FILES {
            if self.argument != 0 || self.count != 0 {
                Err(IoUringError::InvalidRegistration)
            } else {
                Ok(RegistrationOperation::UnregisterFiles)
            }
        } else if opcode == IORING_REGISTER_PROBE {
            if self.argument == 0 || self.count > IORING_MAX_PROBE_OPERATIONS {
                Err(IoUringError::InvalidRegistration)
            } else {
                Ok(
                    RegistrationOperation::Probe {
                        argument: self.argument,
                        operations: self.count,
                    },
                )
            }
        } else if opcode < PINNED_IORING_REGISTER_LAST {
            Err(IoUringError::UnsupportedRegistration)
        } else {
            Err(IoUringError::UnknownRegistration)
        }
    }
}

} // verus!
