use softbuffer_cg::wait::{
    BackBufferWait, WaitAction, WaitEvent, WaitStage, BACK_BUFFER_WAIT_TIMEOUT,
};

#[test]
fn free_buffer_is_not_waited_for() {
    let mut wait = BackBufferWait::new();
    assert_eq!(wait.step(WaitEvent::InUse(false)), WaitAction::Lock);
    assert_eq!(wait.stage(), WaitStage::Over { timed_out: false });
}

#[test]
fn release_ends_the_wait() {
    let mut wait = BackBufferWait::new();
    assert_eq!(wait.step(WaitEvent::InUse(true)), WaitAction::StartClock);
    assert_eq!(wait.step(WaitEvent::InUse(true)), WaitAction::ReadClock);
    assert_eq!(wait.step(WaitEvent::Elapsed(5)), WaitAction::Yield);
    assert_eq!(wait.step(WaitEvent::InUse(true)), WaitAction::ReadClock);
    assert_eq!(wait.step(WaitEvent::Elapsed(9_999_999)), WaitAction::Yield);
    assert_eq!(wait.step(WaitEvent::InUse(false)), WaitAction::Lock);
    assert_eq!(wait.stage(), WaitStage::Over { timed_out: false });
}

#[test]
fn release_right_after_the_start_is_noticed() {
    let mut wait = BackBufferWait::new();
    wait.step(WaitEvent::InUse(true));
    assert_eq!(wait.stage(), WaitStage::Polling);
    assert_eq!(wait.step(WaitEvent::InUse(false)), WaitAction::Lock);
}

#[test]
fn wait_is_bounded() {
    assert_eq!(BACK_BUFFER_WAIT_TIMEOUT, 10_000_000);
    let mut wait = BackBufferWait::new();
    wait.step(WaitEvent::InUse(true));
    wait.step(WaitEvent::InUse(true));
    assert_eq!(wait.step(WaitEvent::Elapsed(10_000_001)), WaitAction::ReportAndLock);
    assert_eq!(wait.stage(), WaitStage::Over { timed_out: true });
}

#[test]
fn exactly_the_timeout_is_still_waited() {
    let mut wait = BackBufferWait::new();
    wait.step(WaitEvent::InUse(true));
    wait.step(WaitEvent::InUse(true));
    assert_eq!(wait.stage(), WaitStage::Timing);
    assert_eq!(wait.step(WaitEvent::Elapsed(10_000_000)), WaitAction::Yield);
    assert_eq!(wait.stage(), WaitStage::Polling);
}
