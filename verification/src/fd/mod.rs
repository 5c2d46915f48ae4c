//! Bounded Linux file-descriptor, open-file-description, and readiness state.
//!
//! The module owns no current task and performs no syscall usercopy. A kernel
//! supplies stable object handles and external synchronization. Descriptor
//! tables require exclusive access for mutation, making the lock and sleep
//! policy explicit in the consumer instead of hiding it in a global singleton.

pub mod epoll;
pub mod epoll_laws;
pub mod graph;
pub mod graph_laws;
pub mod laws;
pub mod ofd;
pub mod subscription;
pub mod table;
pub mod table_laws;
pub mod types;

pub use epoll::{
    DeliveryCommitError, DeliveryOutcome, DeliveryPreparation, DeliveryToken, EpollCore,
    EpollError, EpollInterest, EpollKey, EpollPublishError, EpollToken, NotifyOutcome, ReadyEvent,
    RescanProgress, RescanToken,
};
pub use graph::{EpollGraph, EpollGraphLimits, GraphEdgeToken, GraphError, GraphNodeToken};
pub use ofd::{OfdOffsetError, OpenFileDescriptionState};
pub use subscription::{
    AggregateError, ArmError, CancelState, CommitSubscriptionError, PrepareSubscriptionError,
    PreparedSubscription, RetainedRegistration, Subscription, WatchAccount, WatchCharge,
    WatchChargeError,
};
pub use table::{
    CancelPreparedError, CloseBatch, CommittedCloseOnExec, DescriptorEntry, DescriptorToken,
    FdTable, FdTableError, PreparePublicationError, PreparedCloseOnExec, PreparedPublication,
    PublishError, ReservationToken,
};
pub use types::{
    DescriptorFlags, EpollGraphId, EpollId, FdNumber, FdTableId, InterestMask, InterestMode, OfdId,
    ReadyMask,
};
