use crate::fd::types::OfdId;
use vstd::prelude::*;

verus! {

/// Shared open-file-description state which must be protected by the
/// consumer's sleepable OFD lock while an offset-dependent I/O is in flight.
///
/// Keeping this type separate from descriptor entries makes `dup`/fork sharing
/// and descriptor-local close-on-exec state explicit.
#[derive(Debug, Clone, PartialEq, Eq)]
pub struct OpenFileDescriptionState<A = ()> {
    pub(crate) id: OfdId,
    pub(crate) status_flags: u32,
    pub(crate) offset: u64,
    pub(crate) async_owner: A,
}

impl<A> OpenFileDescriptionState<A> {
    /// Creates unpublished OFD state with a caller-allocated identity.
    pub fn new(id: OfdId, status_flags: u32, offset: u64, async_owner: A) -> (result: Self)
        ensures
            result.id() == id,
            result.status_flags() == status_flags,
            result.offset() == offset,
            result.async_owner() == async_owner,
    {
        Self { id, status_flags, offset, async_owner }
    }

    /// Returns the stable OFD identity.
    #[verifier::when_used_as_spec(spec_id)]
    pub fn id(&self) -> (result: OfdId)
        ensures
            result == self.spec_id(),
    {
        self.id
    }

    /// Specification counterpart of [`Self::id`].
    pub open(crate) spec fn spec_id(&self) -> OfdId {
        self.id
    }

    /// Returns file status flags shared by all duplicated descriptors.
    #[verifier::when_used_as_spec(spec_status_flags)]
    pub fn status_flags(&self) -> (result: u32)
        ensures
            result == self.spec_status_flags(),
    {
        self.status_flags
    }

    /// Specification counterpart of [`Self::status_flags`].
    pub open(crate) spec fn spec_status_flags(&self) -> u32 {
        self.status_flags
    }

    /// Replaces status flags after the file adapter has accepted every change.
    pub fn commit_status_flags(&mut self, status_flags: u32)
        ensures
            final(self).status_flags() == status_flags,
            final(self).id() == old(self).id(),
            final(self).offset() == old(self).offset(),
            final(self).async_owner() == old(self).async_owner(),
    {
        self.status_flags = status_flags;
    }

    /// Returns the current shared file offset.
    #[verifier::when_used_as_spec(spec_offset)]
    pub fn offset(&self) -> (result: u64)
        ensures
            result == self.spec_offset(),
    {
        self.offset
    }

    /// Specification counterpart of [`Self::offset`].
    pub open(crate) spec fn spec_offset(&self) -> u64 {
        self.offset
    }

    /// Moves the offset for an explicit seek after adapter validation.
    pub fn commit_seek(&mut self, offset: u64)
        ensures
            final(self).offset() == offset,
            final(self).id() == old(self).id(),
            final(self).status_flags() == old(self).status_flags(),
            final(self).async_owner() == old(self).async_owner(),
    {
        self.offset = offset;
    }

    /// Commits a short or complete sequential I/O result.
    ///
    /// `start` must be the offset retained while the consumer held its
    /// sleepable OFD lock across the underlying operation. A mismatch is an
    /// adapter serialization bug and is reported rather than silently
    /// overwriting a newer offset.
    pub fn commit_io(&mut self, start: u64, transferred: usize) -> (result: Result<
        u64,
        OfdOffsetError,
    >)
        ensures
            result == if old(self).offset() != start {
                Err::<u64, OfdOffsetError>(
                    OfdOffsetError::StaleStart { expected: old(self).offset(), supplied: start },
                )
            } else if start + transferred > u64::MAX {
                Err(OfdOffsetError::Overflow)
            } else {
                Ok((start + transferred) as u64)
            },
            final(self).offset() == (match result {
                Ok(next) => next,
                Err(_) => old(self).offset(),
            }),
            final(self).id() == old(self).id(),
            final(self).status_flags() == old(self).status_flags(),
            final(self).async_owner() == old(self).async_owner(),
    {
        if self.offset != start {
            return Err(OfdOffsetError::StaleStart { expected: self.offset, supplied: start });
        }
        match start.checked_add(transferred as u64) {
            Some(next) => {
                self.offset = next;
                Ok(next)
            },
            None => Err(OfdOffsetError::Overflow),
        }
    }

    /// Returns the async-owner state retained by the OFD.
    #[verifier::when_used_as_spec(spec_async_owner)]
    pub fn async_owner(&self) -> (result: &A)
        ensures
            result == self.spec_async_owner(),
    {
        &self.async_owner
    }

    /// Specification counterpart of [`Self::async_owner`].
    pub open(crate) spec fn spec_async_owner(&self) -> &A {
        &self.async_owner
    }

    /// Mutates async-owner state while the consumer holds its OFD state lock.
    pub fn async_owner_mut(&mut self) -> (result: &mut A)
        ensures
            *result == *old(self).async_owner(),
            *final(self).async_owner() == *final(result),
            final(self).id() == old(self).id(),
            final(self).status_flags() == old(self).status_flags(),
            final(self).offset() == old(self).offset(),
    {
        &mut self.async_owner
    }
}

/// Invalid shared-offset publication.
#[derive(Debug, Clone, Copy, PartialEq, Eq, Structural)]
#[non_exhaustive]
pub enum OfdOffsetError {
    /// The resulting offset would overflow `u64`.
    Overflow,
    /// The adapter did not retain serialization across an offset-based I/O.
    StaleStart {
        /// Offset currently stored by the OFD.
        expected: u64,
        /// Start offset supplied by the completing operation.
        supplied: u64,
    },
}

} // verus!
