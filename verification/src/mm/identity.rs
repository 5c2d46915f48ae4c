use crate::mm::error::MmError;
use vstd::prelude::*;

verus! {

/// Stable identity of one consumer-owned address space.
#[derive(Clone, Copy, Debug, Eq, Hash, Ord, PartialEq, PartialOrd, Structural)]
pub struct AddressSpaceId(pub(crate) u64);

impl AddressSpaceId {
    #[verifier::type_invariant]
    pub(crate) open spec fn nonzero(self) -> bool {
        self.0 != 0
    }

    /// Builds the value, rejecting the reserved zero.
    pub fn new(raw: u64) -> (result: Result<Self, MmError>)
        ensures
            match result {
                Ok(value) => raw != 0 && value.get() == raw,
                Err(error) => raw == 0 && error == MmError::InvalidIdentity,
            },
    {
        if raw == 0 {
            return Err(MmError::InvalidIdentity);
        }
        Ok(Self(raw))
    }

    /// Returns the integer representation.
    #[verifier::when_used_as_spec(spec_get)]
    pub fn get(self) -> (result: u64)
        ensures
            result == self.spec_get(),
            result != 0,
    {
        proof {
            use_type_invariant(&self);
        }
        self.0
    }

    /// Specification counterpart of [`Self::get`].
    pub open(crate) spec fn spec_get(self) -> u64 {
        self.0
    }
}

/// Stable identity of one logical mapping.
#[derive(Clone, Copy, Debug, Eq, Hash, Ord, PartialEq, PartialOrd, Structural)]
pub struct MappingId(pub(crate) u64);

impl MappingId {
    #[verifier::type_invariant]
    pub(crate) open spec fn nonzero(self) -> bool {
        self.0 != 0
    }

    /// Builds the value, rejecting the reserved zero.
    pub fn new(raw: u64) -> (result: Result<Self, MmError>)
        ensures
            match result {
                Ok(value) => raw != 0 && value.get() == raw,
                Err(error) => raw == 0 && error == MmError::InvalidIdentity,
            },
    {
        if raw == 0 {
            return Err(MmError::InvalidIdentity);
        }
        Ok(Self(raw))
    }

    /// Returns the integer representation.
    #[verifier::when_used_as_spec(spec_get)]
    pub fn get(self) -> (result: u64)
        ensures
            result == self.spec_get(),
            result != 0,
    {
        proof {
            use_type_invariant(&self);
        }
        self.0
    }

    /// Specification counterpart of [`Self::get`].
    pub open(crate) spec fn spec_get(self) -> u64 {
        self.0
    }
}

/// Stable accounting owner for pin resources.
#[derive(Clone, Copy, Debug, Eq, Hash, Ord, PartialEq, PartialOrd, Structural)]
pub struct PinOwner(pub(crate) u64);

impl PinOwner {
    #[verifier::type_invariant]
    pub(crate) open spec fn nonzero(self) -> bool {
        self.0 != 0
    }

    /// Builds the value, rejecting the reserved zero.
    pub fn new(raw: u64) -> (result: Result<Self, MmError>)
        ensures
            match result {
                Ok(value) => raw != 0 && value.get() == raw,
                Err(error) => raw == 0 && error == MmError::InvalidIdentity,
            },
    {
        if raw == 0 {
            return Err(MmError::InvalidIdentity);
        }
        Ok(Self(raw))
    }

    /// Returns the integer representation.
    #[verifier::when_used_as_spec(spec_get)]
    pub fn get(self) -> (result: u64)
        ensures
            result == self.spec_get(),
            result != 0,
    {
        proof {
            use_type_invariant(&self);
        }
        self.0
    }

    /// Specification counterpart of [`Self::get`].
    pub open(crate) spec fn spec_get(self) -> u64 {
        self.0
    }
}

/// Nonzero generation of one logical mapping.
#[derive(Clone, Copy, Debug, Eq, Hash, Ord, PartialEq, PartialOrd, Structural)]
pub struct MappingGeneration(pub(crate) u64);

impl MappingGeneration {
    #[verifier::type_invariant]
    pub(crate) open spec fn nonzero(self) -> bool {
        self.0 != 0
    }

    /// Builds the value, rejecting the reserved zero.
    pub fn new(raw: u64) -> (result: Result<Self, MmError>)
        ensures
            match result {
                Ok(value) => raw != 0 && value.get() == raw,
                Err(error) => raw == 0 && error == MmError::InvalidIdentity,
            },
    {
        if raw == 0 {
            return Err(MmError::InvalidIdentity);
        }
        Ok(Self(raw))
    }

    /// Returns the integer representation.
    #[verifier::when_used_as_spec(spec_get)]
    pub fn get(self) -> (result: u64)
        ensures
            result == self.spec_get(),
            result != 0,
    {
        proof {
            use_type_invariant(&self);
        }
        self.0
    }

    /// Specification counterpart of [`Self::get`].
    pub open(crate) spec fn spec_get(self) -> u64 {
        self.0
    }

    /// Returns the next generation without wrapping into an earlier one.
    pub fn next(self) -> (result: Result<Self, MmError>)
        ensures
            match result {
                Ok(generation) => generation.get() == self.get() + 1,
                Err(error) => self.get() == u64::MAX && error == MmError::IdExhausted,
            },
    {
        match self.get().checked_add(1) {
            Some(raw) => Self::new(raw),
            None => Err(MmError::IdExhausted),
        }
    }
}

} // verus!
