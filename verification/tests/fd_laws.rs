use std::sync::atomic::{AtomicUsize, Ordering};
use std::sync::Arc;
use std::task::Waker;
use thekernel_linux_abi::fd::subscription::keep_first;
use thekernel_linux_abi::fd::{
    AggregateError, ArmError, CancelState, CloseBatch, DeliveryOutcome,
    DescriptorFlags, EpollCore, EpollError, EpollGraph,
    EpollGraphId, EpollGraphLimits, EpollId, EpollInterest, EpollKey, FdNumber, FdTable,
    FdTableError, FdTableId, GraphError, InterestMask, InterestMode, OfdId, PreparedSubscription,
    PrepareSubscriptionError, ReadyMask, RetainedRegistration, WatchAccount,
};

fn table(raw: u64) -> FdTable<Arc<u32>, 4> {
    FdTable::try_new(FdTableId::new(raw).unwrap()).unwrap()
}

fn open(table: &mut FdTable<Arc<u32>, 4>, value: u32, flags: DescriptorFlags) -> FdNumber {
    let reservation = table.reserve(0, 4, flags).unwrap();
    table.publish(reservation, Arc::new(value)).unwrap().fd()
}

#[test]
fn closed_descriptors_never_answer_to_their_old_token() {
    let mut table = table(1);
    let fd = open(&mut table, 1, DescriptorFlags::EMPTY());
    let old = table.token(fd).unwrap();
    table.close(fd).unwrap();
    assert_eq!(open(&mut table, 2, DescriptorFlags::EMPTY()), fd);
    let new = table.token(fd).unwrap();
    assert_ne!(old, new);
    assert_eq!(table.get_token(old), Err(FdTableError::StaleToken));
    assert_eq!(table.close_token(old), Err(FdTableError::StaleToken));
    assert_eq!(**table.get_token(new).unwrap().description(), 2);
}

#[test]
fn reservations_take_the_lowest_free_number() {
    let mut table = table(1);
    for expected in 0..4 {
        assert_eq!(open(&mut table, 0, DescriptorFlags::EMPTY()), FdNumber::new(expected));
    }
    assert!(matches!(
        table.reserve(0, 4, DescriptorFlags::EMPTY()),
        Err(FdTableError::TableFull)
    ));
    table.close(FdNumber::new(2)).unwrap();
    table.close(FdNumber::new(1)).unwrap();
    assert_eq!(open(&mut table, 9, DescriptorFlags::EMPTY()), FdNumber::new(1));
}

#[test]
fn forked_tables_share_descriptions_not_identities() {
    let mut parent = table(1);
    let fd = open(&mut parent, 5, DescriptorFlags::CLOSE_ON_EXEC());
    let mut child = parent.fork_copy(FdTableId::new(2).unwrap()).unwrap();
    assert!(Arc::ptr_eq(
        parent.get(fd).unwrap().description(),
        child.get(fd).unwrap().description()
    ));
    assert_eq!(child.get(fd).unwrap().flags(), DescriptorFlags::CLOSE_ON_EXEC());
    assert_eq!(child.get_token(parent.token(fd).unwrap()), Err(FdTableError::StaleToken));
    let mut batch = CloseBatch::try_with_capacity(4).unwrap();
    child.close_on_exec(&mut batch).unwrap();
    assert_eq!(batch.entries().len(), 1);
    assert!(child.is_empty());
    assert_eq!(parent.len(), 1);
}

#[test]
fn close_range_returns_the_closed_entries_in_order() {
    let mut table = table(1);
    for value in 0..4 {
        open(&mut table, value, DescriptorFlags::EMPTY());
    }
    let mut batch = CloseBatch::try_with_capacity(4).unwrap();
    table.close_range(FdNumber::new(1), FdNumber::new(2), &mut batch).unwrap();
    let closed: Vec<u32> = batch.entries().iter().map(|e| **e.description()).collect();
    assert_eq!(closed, vec![1, 2]);
    let left: Vec<u32> = table.iter().iter().map(|(fd, _)| fd.get()).collect();
    assert_eq!(left, vec![0, 3]);
    table.close_all(&mut batch).unwrap();
    assert_eq!(batch.into_entries().len(), 4);
    assert!(table.is_empty());
}

fn graph(nodes: usize) -> EpollGraph {
    let limits = EpollGraphLimits::try_new(nodes, 8, 2, 4, 512).unwrap();
    EpollGraph::try_new(EpollGraphId::new(1).unwrap(), limits).unwrap()
}

#[test]
fn graph_tokens_go_stale_for_good() {
    let mut graph = graph(2);
    let epoll = EpollId::new(1).unwrap();
    let first = graph.register(epoll).unwrap();
    assert_eq!(graph.register(epoll), Err(GraphError::DuplicateNode));
    assert_eq!(graph.add_interest(first, Some(first)), Err(GraphError::SelfCycle));
    let edge = graph.add_interest(first, None).unwrap();
    graph.remove_interest(edge).unwrap();
    assert_eq!(graph.remove_interest(edge), Err(GraphError::StaleToken));
    graph.unregister(first).unwrap();
    let second = graph.register(epoll).unwrap();
    assert_ne!(first, second);
    assert_eq!(graph.unregister(first), Err(GraphError::StaleToken));
    assert_eq!(graph.parent_count(second), Ok(0));
    assert_eq!((graph.node_count(), graph.edge_count()), (1, 0));
}

#[test]
fn every_long_way_round_is_still_a_cycle() {
    let mut graph = graph(4);
    let nodes: Vec<_> =
        (1..5).map(|raw| graph.register(EpollId::new(raw).unwrap()).unwrap()).collect();
    for pair in nodes.windows(2) {
        graph.add_interest(pair[0], Some(pair[1])).unwrap();
    }
    for (i, above) in nodes.iter().enumerate() {
        for below in &nodes[i + 1..] {
            assert_eq!(graph.add_interest(*below, Some(*above)), Err(GraphError::Cycle));
        }
    }
    assert_eq!(graph.edge_count(), 3);
}

#[test]
fn removed_interests_never_answer_again() {
    let key = EpollKey { ofd: OfdId::new(1).unwrap(), fd: FdNumber::new(3) };
    let interest = || EpollInterest::new(key, InterestMask::IN(), InterestMode::default(), 7u32, ());
    let mut core = EpollCore::try_new(EpollId::new(1).unwrap(), 1).unwrap();
    let first = core.add(interest()).unwrap();
    core.notify(first, ReadyMask::IN()).unwrap();
    assert!(core.is_queued(first).unwrap());
    core.remove(first).unwrap();
    assert!(matches!(core.notify(first, ReadyMask::IN()), Err(EpollError::StaleToken)));
    let second = core.add(interest()).unwrap();
    assert_eq!(first.slot(), second.slot());
    assert!(second.generation() > first.generation());
    assert!(matches!(core.remove(first), Err(EpollError::StaleToken)));
    assert_eq!(core.len(), 1);
}

struct Source(Arc<AtomicUsize>);

impl RetainedRegistration for Source {
    type UpdateError = ();
    type CancelError = ();

    fn update(&mut self, _waker: &Waker) -> Result<(), ()> {
        Ok(())
    }

    fn cancel(&mut self) -> Result<CancelState, ()> {
        self.0.fetch_add(1, Ordering::SeqCst);
        Ok(CancelState::Cancelled)
    }
}

#[test]
fn watch_credits_are_bounded_and_given_back() {
    let cancels = Arc::new(AtomicUsize::new(0));
    let account = WatchAccount::try_new(3).unwrap();
    assert_eq!(account.limit(), 3);
    {
        let mut prepared = PreparedSubscription::<Source>::try_new(&account, 2).unwrap();
        assert_eq!(account.used(), 2);
        assert!(matches!(
            PreparedSubscription::<Source>::try_new(&account, 2),
            Err(PrepareSubscriptionError::Quota)
        ));
        for _ in 0..2 {
            prepared.arm_with::<()>(|| Ok(Source(cancels.clone()))).unwrap();
        }
        assert!(matches!(
            prepared.arm_with::<()>(|| Ok(Source(cancels.clone()))),
            Err(ArmError::Capacity { maximum: 2 })
        ));
        let subscription = prepared.commit().unwrap();
        assert_eq!((subscription.source_count(), account.used()), (2, 2));
        subscription.cancel().unwrap();
    }
    assert_eq!(account.used(), 0);
    assert_eq!(cancels.load(Ordering::SeqCst), 2);
}

struct Picky {
    updates: Arc<AtomicUsize>,
    cancels: Arc<AtomicUsize>,
    expected: Waker,
    fails: Option<u32>,
}

impl RetainedRegistration for Picky {
    type UpdateError = u32;
    type CancelError = u32;

    fn update(&mut self, waker: &Waker) -> Result<(), u32> {
        assert!(waker.will_wake(&self.expected));
        self.updates.fetch_add(1, Ordering::SeqCst);
        self.fails.map_or(Ok(()), Err)
    }

    fn cancel(&mut self) -> Result<CancelState, u32> {
        self.cancels.fetch_add(1, Ordering::SeqCst);
        self.fails.map_or(Ok(CancelState::AlreadyInactive), Err)
    }
}

struct Quiet;

impl std::task::Wake for Quiet {
    fn wake(self: Arc<Self>) {}
}

#[test]
fn every_source_is_called_and_the_first_failure_reported() {
    let account = WatchAccount::try_new(4).unwrap();
    let updates = Arc::new(AtomicUsize::new(0));
    let cancels = Arc::new(AtomicUsize::new(0));
    let waker = Waker::from(Arc::new(Quiet));
    let mut prepared = PreparedSubscription::<Picky>::try_new(&account, 4).unwrap();
    for fails in [None, Some(7), None, Some(9)] {
        let source = Picky {
            updates: updates.clone(),
            cancels: cancels.clone(),
            expected: waker.clone(),
            fails,
        };
        prepared.arm_with::<()>(|| Ok(source)).unwrap();
    }
    let mut subscription = prepared.commit().unwrap();
    let failure = AggregateError { index: 1, error: 7 };
    assert_eq!(subscription.update_all(&waker), Err(failure));
    assert_eq!(updates.load(Ordering::SeqCst), 4);
    assert_eq!(cancels.load(Ordering::SeqCst), 0);
    assert_eq!(subscription.cancel(), Err(AggregateError { index: 1, error: 7 }));
    assert_eq!(cancels.load(Ordering::SeqCst), 4);
    assert_eq!(account.used(), 0);
}

#[test]
fn an_empty_subscription_updates_and_cancels() {
    let account = WatchAccount::try_new(1).unwrap();
    let waker = Waker::from(Arc::new(Quiet));
    let mut subscription =
        PreparedSubscription::<Picky>::try_new(&account, 1).unwrap().commit().unwrap();
    assert_eq!(subscription.update_all(&waker), Ok(()));
    assert_eq!(subscription.cancel(), Ok(()));
}

#[test]
fn keeping_the_first_failure() {
    let first = keep_first(None, 2, Err("late"));
    assert_eq!(first, Some(AggregateError { index: 2, error: "late" }));
    assert_eq!(keep_first(first, 3, Err("later")).unwrap().index, 2);
    assert_eq!(keep_first::<u32>(None, 0, Ok(())), None);
}

#[test]
fn committed_exec_closes_in_order_and_keeps_the_rest() {
    let mut table = table(1);
    for value in 0..4 {
        let flags = if value % 2 == 0 {
            DescriptorFlags::CLOSE_ON_EXEC()
        } else {
            DescriptorFlags::EMPTY()
        };
        open(&mut table, value, flags);
    }
    let prepared = table.prepare_close_on_exec().unwrap();
    table.set_close_on_exec(FdNumber::new(3), true).unwrap();
    let committed = table.commit_close_on_exec(prepared);
    let closed: Vec<u32> = committed.entries().iter().map(|e| **e.description()).collect();
    assert_eq!(closed, vec![0, 2, 3]);
    assert_eq!(table.len(), 1);
    assert_eq!(**table.get(FdNumber::new(1)).unwrap().description(), 1);
}

fn key(raw: u64) -> EpollKey {
    EpollKey { ofd: OfdId::new(raw).unwrap(), fd: FdNumber::new(raw as u32) }
}

fn watched(raw: u64) -> EpollInterest<u64, ()> {
    EpollInterest::new(key(raw), InterestMask::IN(), InterestMode::default(), raw, ())
}

#[test]
fn a_delivery_is_accepted_at_most_once() {
    let mut core = EpollCore::try_new(EpollId::new(1).unwrap(), 2).unwrap();
    let first = core.add(watched(1)).unwrap();
    core.notify(first, ReadyMask::IN()).unwrap();
    let event = core.begin_delivery().unwrap().unwrap();
    core.finish_delivery(event.delivery, DeliveryOutcome::Fault).unwrap();
    let again = core.begin_delivery().unwrap().unwrap();
    assert!(matches!(
        core.finish_delivery(event.delivery, DeliveryOutcome::Fault),
        Err(EpollError::StaleToken)
    ));
    let (renewed, _) = core.modify(first, watched(1)).unwrap();
    assert!(matches!(
        core.finish_delivery(again.delivery, DeliveryOutcome::Suppressed),
        Err(EpollError::StaleToken)
    ));
    core.notify(renewed, ReadyMask::IN()).unwrap();
    let last = core.begin_delivery().unwrap().unwrap();
    core.remove(renewed).unwrap();
    core.add(watched(1)).unwrap();
    assert!(matches!(
        core.finish_delivery(last.delivery, DeliveryOutcome::Fault),
        Err(EpollError::StaleToken)
    ));
    assert_eq!(core.ready_len(), 0);
}

#[test]
fn a_rescan_examines_every_slot_once_and_queues_what_is_pending() {
    let mut core = EpollCore::try_new(EpollId::new(1).unwrap(), 3).unwrap();
    let tokens: Vec<_> = (1..4).map(|raw| core.add(watched(raw)).unwrap()).collect();
    let mut other = EpollCore::try_new(EpollId::new(2).unwrap(), 1).unwrap();
    let stray = other.add(watched(1)).unwrap();
    for _ in 0..3 {
        core.restore_ready_record(stray).unwrap();
    }
    assert!(matches!(
        core.notify(tokens[0], ReadyMask::IN()),
        Err(EpollError::ReadyQueueFull)
    ));
    assert!(matches!(
        core.notify(tokens[2], ReadyMask::IN()),
        Err(EpollError::ReadyQueueFull)
    ));
    assert!(matches!(core.prepare_delivery(), Err(EpollError::RescanRequired)));
    let rescan = core.rescan_token().unwrap();
    let nothing = core.rescan_ready(rescan, 0).unwrap();
    assert_eq!((nothing.scanned, nothing.enqueued, nothing.complete), (0, 0, false));
    let mut scanned = 0;
    loop {
        let progress = core.rescan_ready(rescan, 2).unwrap();
        scanned += progress.scanned;
        assert_eq!(progress.complete, !core.needs_rescan());
        if progress.complete {
            break;
        }
    }
    assert_eq!(scanned, core.capacity());
    assert!(core.is_queued(tokens[0]).unwrap() && core.is_queued(tokens[2]).unwrap());
    assert!(!core.is_queued(tokens[1]).unwrap());
    assert!(matches!(core.rescan_ready(rescan, 1), Err(EpollError::StaleToken)));
}

#[test]
fn closing_counts_before_it_detaches() {
    let mut table = table(1);
    for value in 0..3 {
        open(&mut table, value, DescriptorFlags::EMPTY());
    }
    let reservation = table.reserve(0, 4, DescriptorFlags::EMPTY()).unwrap();
    let publication = table.prepare_publication(reservation, Arc::new(9)).unwrap();
    let mut small = CloseBatch::try_with_capacity(2).unwrap();
    assert_eq!(table.close_all(&mut small), Err(FdTableError::InsufficientCloseStorage));
    assert_eq!(table.len(), 3);
    assert!(small.entries().is_empty());
    let mut batch = CloseBatch::try_with_capacity(3).unwrap();
    assert_eq!(table.close_all(&mut batch), Ok(()));
    assert_eq!(batch.entries().len(), 3);
    assert_eq!(table.len(), 0);
    publication.commit();
    assert_eq!(table.len(), 1);
    assert_eq!(table.close_all(&mut batch), Err(FdTableError::InsufficientCloseStorage));
    assert_eq!(table.close_all(&mut small), Ok(()));
    assert_eq!(**small.entries()[0].description(), 9);
}

#[test]
fn storage_beyond_the_address_space_is_refused() {
    let id = EpollId::new(1).unwrap();
    assert!(matches!(
        EpollCore::<u64, ()>::try_new(id, usize::MAX),
        Err(EpollError::Capacity)
    ));
    assert!(matches!(
        EpollCore::<u64, ()>::try_new(id, usize::MAX - 1),
        Err(EpollError::NoMemory)
    ));
    assert!(matches!(
        CloseBatch::<Arc<u32>>::try_with_capacity(usize::MAX - 1),
        Err(FdTableError::NoMemory)
    ));
    let limits = EpollGraphLimits::try_new(usize::MAX - 1, 1, 1, 1, 1).unwrap();
    assert!(matches!(
        EpollGraph::try_new(EpollGraphId::new(1).unwrap(), limits),
        Err(GraphError::NoMemory)
    ));
}
