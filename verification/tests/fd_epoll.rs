use std::sync::atomic::{AtomicUsize, Ordering};
use std::sync::Arc;
use thekernel_linux_abi::fd::{
    DeliveryOutcome, EpollCore, EpollError, EpollId, EpollInterest, EpollKey, EpollToken, FdNumber,
    InterestMask, InterestMode, NotifyOutcome, OfdId, ReadyMask, RescanProgress,
};

#[derive(Debug)]
struct Subscription(Arc<AtomicUsize>);

impl Drop for Subscription {
    fn drop(&mut self) {
        self.0.fetch_add(1, Ordering::SeqCst);
    }
}

#[derive(Debug, PartialEq, Eq)]
struct OwnedPayload(u64);

fn id(raw: u64) -> EpollId {
    EpollId::new(raw).unwrap()
}

fn ofd(raw: u64) -> OfdId {
    OfdId::new(raw).unwrap()
}

fn interest(
    key: EpollKey,
    mode: InterestMode,
    drops: &Arc<AtomicUsize>,
) -> EpollInterest<u64, Subscription> {
    EpollInterest::new(key, InterestMask::IN(), mode, 99, Subscription(drops.clone()))
}

/// A token that another core issued: epoll 99, slot 0, generation 1.
fn foreign_token() -> EpollToken {
    let drops = Arc::new(AtomicUsize::new(0));
    let key = EpollKey {
        ofd: ofd(1),
        fd: FdNumber::new(3),
    };
    let mut core = EpollCore::try_new(id(99), 1).unwrap();
    let token = core
        .add(interest(key, InterestMode::default(), &drops))
        .unwrap();
    assert_eq!((token.epoll(), token.slot(), token.generation()), (id(99), 0, 1));
    token
}

#[test]
fn duplicate_and_capacity_failures_return_subscription_ownership() {
    let drops = Arc::new(AtomicUsize::new(0));
    let key = EpollKey {
        ofd: ofd(1),
        fd: FdNumber::new(3),
    };
    let mut core = EpollCore::try_new(id(1), 1).unwrap();
    core.add(interest(key, InterestMode::default(), &drops))
        .unwrap();
    let duplicate = core
        .add(interest(key, InterestMode::default(), &drops))
        .unwrap_err();
    assert_eq!(duplicate.error, EpollError::Duplicate);
    drop(duplicate.interest);
    assert_eq!(drops.load(Ordering::SeqCst), 1);
}

#[test]
fn exclusive_mode_is_rejected_until_a_cross_epoll_selector_is_supplied() {
    let drops = Arc::new(AtomicUsize::new(0));
    let key = EpollKey {
        ofd: ofd(1),
        fd: FdNumber::new(3),
    };
    let mut core = EpollCore::try_new(id(1), 1).unwrap();
    let error = core
        .add(interest(
            key,
            InterestMode {
                exclusive: true,
                ..InterestMode::default()
            },
            &drops,
        ))
        .unwrap_err();
    assert_eq!(error.error, EpollError::UnsupportedMode);
    drop(error.interest);
    assert!(core.is_empty());
}

#[test]
fn level_delivery_requeues_only_after_post_copy_recheck() {
    let drops = Arc::new(AtomicUsize::new(0));
    let key = EpollKey {
        ofd: ofd(1),
        fd: FdNumber::new(3),
    };
    let mut core = EpollCore::try_new(id(1), 1).unwrap();
    let token = core
        .add(interest(key, InterestMode::default(), &drops))
        .unwrap();
    assert_eq!(
        core.notify(token, ReadyMask::IN()),
        Ok(NotifyOutcome::Enqueued)
    );
    let event = core.begin_delivery().unwrap().unwrap();
    assert_eq!(event.events, ReadyMask::IN());
    assert_eq!(event.delivery.interest(), token);
    core.finish_delivery(
        event.delivery,
        DeliveryOutcome::Copied {
            still_ready: ReadyMask::IN(),
        },
    )
    .unwrap();
    assert!(core.begin_delivery().unwrap().is_some());
}

#[test]
fn suppressed_delivery_preserves_racing_wake_without_consuming_one_shot() {
    let drops = Arc::new(AtomicUsize::new(0));
    let key = EpollKey {
        ofd: ofd(1),
        fd: FdNumber::new(3),
    };
    let mut core = EpollCore::try_new(id(1), 1).unwrap();
    let token = core
        .add(interest(
            key,
            InterestMode {
                one_shot: true,
                ..InterestMode::default()
            },
            &drops,
        ))
        .unwrap();

    core.notify(token, ReadyMask::IN()).unwrap();
    let stale = core.begin_delivery().unwrap().unwrap();
    core.finish_delivery(stale.delivery, DeliveryOutcome::Suppressed)
        .unwrap();
    assert!(core.begin_delivery().unwrap().is_none());
    assert_eq!(
        core.notify(token, ReadyMask::IN()),
        Ok(NotifyOutcome::Enqueued)
    );

    let racing = core.begin_delivery().unwrap().unwrap();
    assert_eq!(
        core.notify(token, ReadyMask::IN()),
        Ok(NotifyOutcome::Coalesced)
    );
    core.finish_delivery(racing.delivery, DeliveryOutcome::Suppressed)
        .unwrap();
    assert_eq!(
        core.begin_delivery().unwrap().unwrap().events,
        ReadyMask::IN()
    );
}

#[test]
fn wake_during_edge_copyout_is_not_lost() {
    let drops = Arc::new(AtomicUsize::new(0));
    let key = EpollKey {
        ofd: ofd(1),
        fd: FdNumber::new(3),
    };
    let mut core = EpollCore::try_new(id(1), 1).unwrap();
    let token = core
        .add(interest(
            key,
            InterestMode {
                edge: true,
                ..InterestMode::default()
            },
            &drops,
        ))
        .unwrap();
    core.notify(token, ReadyMask::IN()).unwrap();
    let event = core.begin_delivery().unwrap().unwrap();
    assert_eq!(
        core.notify(token, ReadyMask::IN()),
        Ok(NotifyOutcome::Coalesced)
    );
    core.finish_delivery(
        event.delivery,
        DeliveryOutcome::Copied {
            still_ready: ReadyMask::EMPTY(),
        },
    )
    .unwrap();
    assert!(core.begin_delivery().unwrap().is_some());
}

#[test]
fn copyout_fault_requeues_the_same_event() {
    let drops = Arc::new(AtomicUsize::new(0));
    let key = EpollKey {
        ofd: ofd(1),
        fd: FdNumber::new(3),
    };
    let mut core = EpollCore::try_new(id(1), 1).unwrap();
    let token = core
        .add(interest(key, InterestMode::default(), &drops))
        .unwrap();

    core.notify(token, ReadyMask::IN()).unwrap();
    let event = core.begin_delivery().unwrap().unwrap();
    assert_eq!(event.events, ReadyMask::IN());
    core.finish_delivery(event.delivery, DeliveryOutcome::Fault)
        .unwrap();

    let retried = core.begin_delivery().unwrap().unwrap();
    assert_eq!(retried.events, ReadyMask::IN());
}

#[test]
fn copyout_fault_merges_a_concurrent_wake() {
    let drops = Arc::new(AtomicUsize::new(0));
    let key = EpollKey {
        ofd: ofd(1),
        fd: FdNumber::new(3),
    };
    let mut core = EpollCore::try_new(id(1), 1).unwrap();
    let token = core
        .add(EpollInterest::new(
            key,
            InterestMask::IN() | InterestMask::OUT(),
            InterestMode::default(),
            99,
            Subscription(drops.clone()),
        ))
        .unwrap();

    core.notify(token, ReadyMask::IN()).unwrap();
    let event = core.begin_delivery().unwrap().unwrap();
    assert_eq!(
        core.notify(token, ReadyMask::OUT()),
        Ok(NotifyOutcome::Coalesced)
    );
    core.finish_delivery(event.delivery, DeliveryOutcome::Fault)
        .unwrap();

    let retried = core.begin_delivery().unwrap().unwrap();
    assert_eq!(retried.events, ReadyMask::IN() | ReadyMask::OUT());
}

#[test]
fn remove_and_modify_invalidate_in_flight_delivery_tokens() {
    let drops = Arc::new(AtomicUsize::new(0));
    let key = EpollKey {
        ofd: ofd(1),
        fd: FdNumber::new(3),
    };
    let mut removed = EpollCore::try_new(id(1), 1).unwrap();
    let removed_token = removed
        .add(interest(key, InterestMode::default(), &drops))
        .unwrap();
    removed.notify(removed_token, ReadyMask::IN()).unwrap();
    let old_delivery = removed.begin_delivery().unwrap().unwrap().delivery;
    drop(removed.remove(removed_token).unwrap());
    assert_eq!(
        removed.finish_delivery(old_delivery, DeliveryOutcome::Fault),
        Err(EpollError::StaleToken)
    );

    let mut modified = EpollCore::try_new(id(2), 1).unwrap();
    let modified_token = modified
        .add(interest(key, InterestMode::default(), &drops))
        .unwrap();
    modified.notify(modified_token, ReadyMask::IN()).unwrap();
    let old_delivery = modified.begin_delivery().unwrap().unwrap().delivery;
    let (_new_token, old) = modified
        .modify(
            modified_token,
            interest(key, InterestMode::default(), &drops),
        )
        .unwrap();
    drop(old);
    assert_eq!(
        modified.finish_delivery(old_delivery, DeliveryOutcome::Fault),
        Err(EpollError::StaleToken)
    );
}

#[test]
fn ready_queue_holds_at_most_one_item_per_interest() {
    let drops = Arc::new(AtomicUsize::new(0));
    let mut core = EpollCore::try_new(id(1), 2).unwrap();
    let first = core
        .add(interest(
            EpollKey {
                ofd: ofd(1),
                fd: FdNumber::new(3),
            },
            InterestMode::default(),
            &drops,
        ))
        .unwrap();
    let second = core
        .add(interest(
            EpollKey {
                ofd: ofd(2),
                fd: FdNumber::new(4),
            },
            InterestMode::default(),
            &drops,
        ))
        .unwrap();

    assert_eq!(
        core.notify(first, ReadyMask::IN()),
        Ok(NotifyOutcome::Enqueued)
    );
    assert_eq!(
        core.notify(first, ReadyMask::IN()),
        Ok(NotifyOutcome::Coalesced)
    );
    assert_eq!(
        core.notify(second, ReadyMask::IN()),
        Ok(NotifyOutcome::Enqueued)
    );
    assert_eq!(core.ready_len(), 2);
}

#[test]
fn zero_capacity_is_finite_and_rejects_publication() {
    let drops = Arc::new(AtomicUsize::new(0));
    let key = EpollKey {
        ofd: ofd(1),
        fd: FdNumber::new(3),
    };
    let mut core = EpollCore::try_new(id(1), 0).unwrap();
    assert_eq!(core.capacity(), 0);
    let error = core
        .add(interest(key, InterestMode::default(), &drops))
        .unwrap_err();
    assert_eq!(error.error, EpollError::Capacity);
    drop(error.interest);
}

#[test]
fn delivery_generation_exhaustion_leaves_the_ready_item_queued() {
    let drops = Arc::new(AtomicUsize::new(0));
    let key = EpollKey {
        ofd: ofd(1),
        fd: FdNumber::new(3),
    };
    let mut core = EpollCore::try_new(id(1), 1).unwrap();
    let token = core
        .add(interest(key, InterestMode::default(), &drops))
        .unwrap();
    core.notify(token, ReadyMask::IN()).unwrap();
    core.skip_deliveries_to(u64::MAX);

    assert_eq!(core.begin_delivery(), Err(EpollError::GenerationExhausted));
    assert_eq!(core.ready_len(), 1);
    assert!(core.is_queued(token).unwrap());
}

#[test]
fn externally_prepared_non_clone_payload_commits_without_core_cloning() {
    let drops = Arc::new(AtomicUsize::new(0));
    let key = EpollKey {
        ofd: ofd(1),
        fd: FdNumber::new(3),
    };
    let mut core = EpollCore::try_new(id(1), 1).unwrap();
    let token = core
        .add(interest(key, InterestMode::default(), &drops))
        .unwrap();
    core.notify(token, ReadyMask::IN()).unwrap();

    let preparation = core.prepare_delivery().unwrap().unwrap();
    assert_eq!(preparation.interest(), token);
    let event = core.commit_delivery(preparation, OwnedPayload(7)).unwrap();

    assert_eq!(event.events, ReadyMask::IN());
    assert_eq!(event.user_data, OwnedPayload(7));
}

#[test]
fn stale_preparations_return_unpublished_payload_ownership() {
    let drops = Arc::new(AtomicUsize::new(0));
    let key = EpollKey {
        ofd: ofd(1),
        fd: FdNumber::new(3),
    };

    let mut removed = EpollCore::try_new(id(1), 1).unwrap();
    let removed_token = removed
        .add(interest(key, InterestMode::default(), &drops))
        .unwrap();
    removed.notify(removed_token, ReadyMask::IN()).unwrap();
    let removed_preparation = removed.prepare_delivery().unwrap().unwrap();
    drop(removed.remove(removed_token).unwrap());
    let error = removed
        .commit_delivery(removed_preparation, OwnedPayload(11))
        .unwrap_err();
    assert_eq!(error.error, EpollError::StaleToken);
    assert_eq!(error.user_data, OwnedPayload(11));

    let mut modified = EpollCore::try_new(id(2), 1).unwrap();
    let modified_token = modified
        .add(interest(key, InterestMode::default(), &drops))
        .unwrap();
    modified.notify(modified_token, ReadyMask::IN()).unwrap();
    let modified_preparation = modified.prepare_delivery().unwrap().unwrap();
    let (_, old) = modified
        .modify(
            modified_token,
            interest(key, InterestMode::default(), &drops),
        )
        .unwrap();
    drop(old);
    let error = modified
        .commit_delivery(modified_preparation, OwnedPayload(13))
        .unwrap_err();
    assert_eq!(error.error, EpollError::StaleToken);
    assert_eq!(error.user_data, OwnedPayload(13));
}

#[test]
fn delivery_exhaustion_returns_payload_and_preserves_queue_item() {
    let drops = Arc::new(AtomicUsize::new(0));
    let key = EpollKey {
        ofd: ofd(1),
        fd: FdNumber::new(3),
    };
    let mut core = EpollCore::try_new(id(1), 1).unwrap();
    let token = core
        .add(interest(key, InterestMode::default(), &drops))
        .unwrap();
    core.notify(token, ReadyMask::IN()).unwrap();
    let preparation = core.prepare_delivery().unwrap().unwrap();
    core.skip_deliveries_to(u64::MAX);

    let error = core
        .commit_delivery(preparation, OwnedPayload(17))
        .unwrap_err();
    assert_eq!(error.error, EpollError::GenerationExhausted);
    assert_eq!(error.user_data, OwnedPayload(17));
    assert_eq!(core.ready_len(), 1);
    assert!(core.is_queued(token).unwrap());
}

#[test]
fn unexpected_queue_overflow_requests_only_an_explicit_bounded_rescan() {
    let drops = Arc::new(AtomicUsize::new(0));
    let key = EpollKey {
        ofd: ofd(1),
        fd: FdNumber::new(3),
    };
    let mut core = EpollCore::try_new(id(1), 1).unwrap();
    let token = core
        .add(interest(key, InterestMode::default(), &drops))
        .unwrap();
    let stale = foreign_token();
    core.restore_ready_record(stale).unwrap();

    assert_eq!(
        core.notify(token, ReadyMask::IN()),
        Err(EpollError::ReadyQueueFull)
    );
    assert!(core.needs_rescan());
    assert_eq!(core.begin_delivery(), Err(EpollError::RescanRequired));
    let rescan = core.rescan_token().unwrap();
    assert_eq!(
        core.rescan_ready(rescan, 0).unwrap(),
        RescanProgress {
            scanned: 0,
            enqueued: 0,
            complete: false,
        }
    );
    assert_eq!(
        core.rescan_ready(rescan, 1).unwrap(),
        RescanProgress {
            scanned: 1,
            enqueued: 1,
            complete: true,
        }
    );
    assert_eq!(
        core.begin_delivery().unwrap().unwrap().events,
        ReadyMask::IN()
    );
}

#[test]
fn bounded_rescan_persists_progress_until_every_slot_is_examined() {
    let drops = Arc::new(AtomicUsize::new(0));
    let mut core = EpollCore::try_new(id(1), 3).unwrap();
    let tokens = [
        core.add(interest(
            EpollKey {
                ofd: ofd(1),
                fd: FdNumber::new(3),
            },
            InterestMode::default(),
            &drops,
        ))
        .unwrap(),
        core.add(interest(
            EpollKey {
                ofd: ofd(2),
                fd: FdNumber::new(4),
            },
            InterestMode::default(),
            &drops,
        ))
        .unwrap(),
        core.add(interest(
            EpollKey {
                ofd: ofd(3),
                fd: FdNumber::new(5),
            },
            InterestMode::default(),
            &drops,
        ))
        .unwrap(),
    ];
    let stale = foreign_token();
    for _ in 0..3 {
        core.restore_ready_record(stale).unwrap();
    }
    for token in tokens {
        assert_eq!(
            core.notify(token, ReadyMask::IN()),
            Err(EpollError::ReadyQueueFull)
        );
    }
    assert_eq!(core.prepare_delivery(), Err(EpollError::RescanRequired));
    let rescan = core.rescan_token().unwrap();

    assert_eq!(
        core.rescan_ready(rescan, 1).unwrap(),
        RescanProgress {
            scanned: 1,
            enqueued: 1,
            complete: false,
        }
    );
    assert_eq!(
        core.rescan_ready(rescan, 1).unwrap(),
        RescanProgress {
            scanned: 1,
            enqueued: 1,
            complete: false,
        }
    );
    assert_eq!(
        core.rescan_ready(rescan, 1).unwrap(),
        RescanProgress {
            scanned: 1,
            enqueued: 1,
            complete: true,
        }
    );
    assert!(!core.needs_rescan());
    assert_eq!(core.ready_len(), 3);
}

#[test]
fn rescan_zero_budget_does_not_advance_and_queue_full_retries_same_slot() {
    let drops = Arc::new(AtomicUsize::new(0));
    let key = EpollKey {
        ofd: ofd(1),
        fd: FdNumber::new(3),
    };
    let mut core = EpollCore::try_new(id(1), 1).unwrap();
    let token = core
        .add(interest(key, InterestMode::default(), &drops))
        .unwrap();
    let stale = foreign_token();
    core.restore_ready_record(stale).unwrap();
    assert_eq!(
        core.notify(token, ReadyMask::IN()),
        Err(EpollError::ReadyQueueFull)
    );
    let rescan = core.rescan_token().unwrap();

    assert_eq!(
        core.rescan_ready(rescan, 0).unwrap(),
        RescanProgress {
            scanned: 0,
            enqueued: 0,
            complete: false,
        }
    );
    assert_eq!(
        core.rescan_ready(rescan, 1),
        Err(EpollError::ReadyQueueFull)
    );
    assert_eq!(core.prepare_delivery(), Err(EpollError::RescanRequired));
    assert_eq!(
        core.rescan_ready(rescan, 1).unwrap(),
        RescanProgress {
            scanned: 1,
            enqueued: 1,
            complete: true,
        }
    );
}

#[test]
fn new_overflow_restarts_rescan_and_stales_the_old_token() {
    let drops = Arc::new(AtomicUsize::new(0));
    let mut core = EpollCore::try_new(id(1), 2).unwrap();
    let first = core
        .add(interest(
            EpollKey {
                ofd: ofd(1),
                fd: FdNumber::new(3),
            },
            InterestMode::default(),
            &drops,
        ))
        .unwrap();
    let second = core
        .add(interest(
            EpollKey {
                ofd: ofd(2),
                fd: FdNumber::new(4),
            },
            InterestMode::default(),
            &drops,
        ))
        .unwrap();
    let stale = foreign_token();
    core.restore_ready_record(stale).unwrap();
    core.restore_ready_record(stale).unwrap();

    assert_eq!(
        core.notify(first, ReadyMask::IN()),
        Err(EpollError::ReadyQueueFull)
    );
    let old = core.rescan_token().unwrap();
    assert_eq!(
        core.notify(second, ReadyMask::IN()),
        Err(EpollError::ReadyQueueFull)
    );
    let current = core.rescan_token().unwrap();
    assert_ne!(old, current);
    assert_eq!(core.rescan_ready(old, 1), Err(EpollError::StaleToken));

    assert_eq!(core.prepare_delivery(), Err(EpollError::RescanRequired));
    assert_eq!(
        core.rescan_ready(current, 2).unwrap(),
        RescanProgress {
            scanned: 2,
            enqueued: 2,
            complete: true,
        }
    );
}

#[test]
fn one_shot_disables_until_modify_and_old_tokens_go_stale() {
    let drops = Arc::new(AtomicUsize::new(0));
    let key = EpollKey {
        ofd: ofd(1),
        fd: FdNumber::new(3),
    };
    let mut core = EpollCore::try_new(id(1), 1).unwrap();
    let token = core
        .add(interest(
            key,
            InterestMode {
                one_shot: true,
                ..InterestMode::default()
            },
            &drops,
        ))
        .unwrap();
    core.notify(token, ReadyMask::IN()).unwrap();
    let event = core.begin_delivery().unwrap().unwrap();
    core.finish_delivery(
        event.delivery,
        DeliveryOutcome::Copied {
            still_ready: ReadyMask::IN(),
        },
    )
    .unwrap();
    assert_eq!(
        core.notify(token, ReadyMask::IN()),
        Ok(NotifyOutcome::Ignored)
    );

    let (rearmed, old) = core
        .modify(token, interest(key, InterestMode::default(), &drops))
        .unwrap();
    drop(old);
    assert_eq!(
        core.notify(token, ReadyMask::IN()),
        Err(EpollError::StaleToken)
    );
    assert_eq!(
        core.notify(rearmed, ReadyMask::IN()),
        Ok(NotifyOutcome::Enqueued)
    );
}
