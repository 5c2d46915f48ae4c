use std::sync::atomic::{AtomicUsize, Ordering};
use std::sync::Arc;
use std::task::{Wake, Waker};
use thekernel_linux_abi::fd::{
    AggregateError, ArmError, CancelState, PreparedSubscription, RetainedRegistration,
    WatchAccount, WatchChargeError,
};

struct Registration {
    cancels: Arc<AtomicUsize>,
    updates: Arc<AtomicUsize>,
    cancel_error: bool,
}

impl RetainedRegistration for Registration {
    type UpdateError = ();
    type CancelError = ();

    fn update(&mut self, _waker: &Waker) -> Result<(), Self::UpdateError> {
        self.updates.fetch_add(1, Ordering::SeqCst);
        Ok(())
    }

    fn cancel(&mut self) -> Result<CancelState, Self::CancelError> {
        self.cancels.fetch_add(1, Ordering::SeqCst);
        if self.cancel_error {
            Err(())
        } else {
            Ok(CancelState::Cancelled)
        }
    }
}

fn registration(cancels: &Arc<AtomicUsize>, updates: &Arc<AtomicUsize>) -> Registration {
    Registration {
        cancels: cancels.clone(),
        updates: updates.clone(),
        cancel_error: false,
    }
}

struct NoopWake;

impl Wake for NoopWake {
    fn wake(self: Arc<Self>) {}
}

fn noop_waker() -> Waker {
    Waker::from(Arc::new(NoopWake))
}

#[test]
fn partial_arm_failure_rolls_back_every_prior_source_and_charge() {
    let account = WatchAccount::try_new(4).unwrap();
    let cancels = Arc::new(AtomicUsize::new(0));
    let updates = Arc::new(AtomicUsize::new(0));
    let result: Result<(), ArmError<&str>> = (|| {
        let mut prepared = PreparedSubscription::try_new(&account, 3).unwrap();
        prepared.arm_with(|| Ok(registration(&cancels, &updates)))?;
        prepared.arm_with(|| Ok(registration(&cancels, &updates)))?;
        prepared.arm_with(|| Err("closed"))?;
        Ok(())
    })();
    assert_eq!(
        result,
        Err(ArmError::Source(AggregateError {
            index: 2,
            error: "closed",
        }))
    );
    assert_eq!(cancels.load(Ordering::SeqCst), 2);
    assert_eq!(account.used(), 0);
}

#[test]
fn commit_refunds_unused_plan_and_drop_cancels_all() {
    let account = WatchAccount::try_new(8).unwrap();
    let cancels = Arc::new(AtomicUsize::new(0));
    let updates = Arc::new(AtomicUsize::new(0));
    {
        let mut prepared = PreparedSubscription::try_new(&account, 6).unwrap();
        prepared
            .arm_with::<()>(|| Ok(registration(&cancels, &updates)))
            .unwrap();
        prepared
            .arm_with::<()>(|| Ok(registration(&cancels, &updates)))
            .unwrap();
        let mut subscription = prepared.commit().unwrap();
        assert_eq!(account.used(), 2);
        subscription.update_all(&noop_waker()).unwrap();
        assert_eq!(updates.load(Ordering::SeqCst), 2);
    }
    assert_eq!(cancels.load(Ordering::SeqCst), 2);
    assert_eq!(account.used(), 0);
}

#[test]
fn account_rejects_an_effectively_unbounded_limit() {
    assert!(matches!(
        WatchAccount::try_new(usize::MAX),
        Err(WatchChargeError::Unbounded)
    ));
}
