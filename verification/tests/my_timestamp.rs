use lib::frame::{DispatchError, Origin};
use lib::my_timestamp::{Call, InherentError, MyCustomTime, Pallet};

fn timestamp() -> Pallet {
    Pallet::new(5)
}

#[test]
fn timestamp_works() {
    let mut ts = timestamp();
    ts.set_timestamp(42);
    assert_eq!(ts.set(Origin::none(), 69), Ok(69));
    assert_eq!(ts.now(), 69);
}

#[test]
fn double_timestamp_should_fail() {
    let mut ts = timestamp();
    ts.set_timestamp(42);
    assert_eq!(ts.set(Origin::none(), 69), Ok(69));
    assert!(!ts.can_set(70));
}

#[test]
fn block_period_minimum_enforced() {
    let mut ts = timestamp();
    ts.set_timestamp(42);
    assert!(!ts.can_set(46));
    assert!(ts.can_set(47));
}

#[test]
fn genesis_time_accepts_any_first_time() {
    let ts = timestamp();
    assert_eq!(ts.get(), 0);
    assert!(ts.can_set(0));
    assert!(ts.can_set(3));
}

#[test]
fn set_from_signed_origin_is_refused() {
    let mut ts = timestamp();
    assert_eq!(ts.set(Origin::signed(1), 69), Err(DispatchError::BadOrigin));
    assert_eq!(ts.set(Origin::root(), 69), Err(DispatchError::BadOrigin));
    assert_eq!(ts.get(), 0);
    assert!(!ts.did_update());
}

#[test]
fn finalize_opens_the_next_block() {
    let mut ts = timestamp();
    ts.set(Origin::none(), 100).unwrap();
    assert!(ts.did_update());
    ts.on_finalize();
    assert!(!ts.did_update());
    assert!(!ts.can_set(104));
    assert!(ts.can_set(105));
    ts.set(Origin::none(), 105).unwrap();
    assert_eq!(MyCustomTime::now(&ts), 105);
}

#[test]
fn create_inherent_takes_the_later_time() {
    let mut ts = timestamp();
    ts.set_timestamp(100);
    assert_eq!(ts.create_inherent(200), Some(Call::SetTime { now: 200 }));
    assert_eq!(ts.create_inherent(101), Some(Call::SetTime { now: 105 }));
    assert_eq!(ts.create_inherent(105), Some(Call::SetTime { now: 105 }));
}

#[test]
fn check_inherent_verdicts() {
    let mut ts = timestamp();
    ts.set_timestamp(100);
    assert_eq!(ts.check_inherent(&Call::SetTime { now: 105 }, 105), Ok(()));
    assert_eq!(ts.check_inherent(&Call::SetTime { now: 30_105 }, 105), Ok(()));
    assert_eq!(
        ts.check_inherent(&Call::SetTime { now: 30_106 }, 105),
        Err(InherentError::TooFarInFuture)
    );
    assert_eq!(
        ts.check_inherent(&Call::SetTime { now: 104 }, 105),
        Err(InherentError::ValidAtTimestamp(105))
    );
    assert_eq!(ts.check_inherent(&Call::SetTime { now: u64::MAX }, u64::MAX - 1), Ok(()));
}

#[test]
fn proposed_time_passes_its_own_check_on_concrete_values() {
    let mut ts = timestamp();
    ts.set_timestamp(100);
    let call = ts.create_inherent(90).unwrap();
    assert_eq!(ts.check_inherent(&call, 90), Ok(()));
    ts.set_timestamp(50_000);
    let call = ts.create_inherent(90).unwrap();
    assert_eq!(ts.check_inherent(&call, 90), Err(InherentError::TooFarInFuture));
    assert!(Pallet::is_inherent(&call));
}

#[test]
fn set_reports_the_time_to_notify() {
    let mut ts = timestamp();
    ts.set_timestamp(42);
    assert_eq!(ts.set(Origin::none(), 47), Ok(47));
    ts.on_finalize();
    assert_eq!(ts.set(Origin::none(), 1_000), Ok(1_000));
    assert_eq!(ts.get(), 1_000);
}

#[test]
fn set_times_move_forward_over_blocks() {
    let mut ts = timestamp();
    let mut last = 0;
    for t in [10u64, 15, 40, 45] {
        assert!(ts.can_set(t));
        assert_eq!(ts.set(Origin::none(), t), Ok(t));
        assert!(last == 0 || t >= last + 5);
        last = t;
        ts.on_finalize();
    }
    assert!(!ts.can_set(49));
    assert!(ts.can_set(50));
}
