use lib::frame::{ensure_none, ensure_signed, rocks_db_weight, DispatchError, Origin, RuntimeDbWeight};
use lib::kitties_weights::{KittiesWeightInfo, WeightInfo};
use lib::loosely_coupling::{self, Config};
use lib::template::{self, DoSomeActivity};
use lib::tightly_coupling;

struct TestRuntime;

impl Config for TestRuntime {
    type DoSome = template::Pallet;
}

#[test]
fn origins_are_checked() {
    assert_eq!(ensure_signed(Origin::signed(7)), Ok(7));
    assert_eq!(ensure_signed(Origin::none()), Err(DispatchError::BadOrigin));
    assert_eq!(ensure_signed(Origin::root()), Err(DispatchError::BadOrigin));
    assert_eq!(ensure_none(Origin::none()), Ok(()));
    assert_eq!(ensure_none(Origin::signed(7)), Err(DispatchError::BadOrigin));
    assert_eq!(ensure_none(Origin::root()), Err(DispatchError::BadOrigin));
}

#[test]
fn set_something_stores_and_reports() {
    let mut p = template::Pallet::new();
    assert_eq!(p.something1(), None);
    assert_eq!(
        p.set_something_1(Origin::signed(3), 10),
        Ok(template::Event::SomethingStored(10, 3))
    );
    assert_eq!(
        p.set_something_2(Origin::signed(4), 32),
        Ok(template::Event::SomethingStored(32, 4))
    );
    assert_eq!(p.something1(), Some(10));
    assert_eq!(p.something2(), Some(32));
    assert_eq!(p.sum_storage(), 42);
}

#[test]
fn set_something_from_unsigned_origin_is_refused() {
    let mut p = template::Pallet::new();
    assert_eq!(p.set_something_1(Origin::none(), 10), Err(DispatchError::BadOrigin));
    assert_eq!(p.set_something_2(Origin::root(), 10), Err(DispatchError::BadOrigin));
    assert_eq!(p.something1(), None);
    assert_eq!(p.something2(), None);
}

#[test]
fn update_storage_overwrites() {
    let mut p = template::Pallet::new();
    assert_eq!(p.update_storage1(1), Ok(()));
    assert_eq!(p.update_storage2(2), Ok(()));
    assert_eq!(p.update_storage1(5), Ok(()));
    assert_eq!(p.sum_storage(), 7);
    assert_eq!(p.update_storage2(u32::MAX - 5), Ok(()));
    assert_eq!(p.sum_storage(), u32::MAX);
}

#[test]
fn increase_value_adds_five_and_saturates() {
    assert_eq!(<template::Pallet as DoSomeActivity>::increase_value(10), 15);
    assert_eq!(<template::Pallet as DoSomeActivity>::increase_value(u32::MAX - 5), u32::MAX);
    assert_eq!(<template::Pallet as DoSomeActivity>::increase_value(u32::MAX - 2), u32::MAX);
}

#[test]
fn loosely_coupled_increase_reports_the_result() {
    assert_eq!(
        loosely_coupling::Pallet::<TestRuntime>::increase_value(Origin::signed(1), 37),
        Ok(loosely_coupling::Event::IncreaseSuccess(42))
    );
    assert_eq!(
        loosely_coupling::Pallet::<TestRuntime>::increase_value(Origin::none(), 37),
        Err(DispatchError::BadOrigin)
    );
}

#[test]
fn tightly_coupled_access_reports_the_stored_value() {
    let mut template = template::Pallet::new();
    template.update_storage1(21).unwrap();
    assert_eq!(
        tightly_coupling::Pallet::access_storage_template_pallet(
            Origin::signed(1),
            template.something1()
        ),
        Ok(tightly_coupling::Event::AccessStore(21))
    );
    assert_eq!(
        tightly_coupling::Pallet::access_storage_template_pallet(Origin::root(), None),
        Err(DispatchError::BadOrigin)
    );
}

#[test]
fn db_weights_multiply_and_saturate() {
    let db = RuntimeDbWeight { read: 7, write: 11 };
    assert_eq!(db.reads(3), 21);
    assert_eq!(db.writes(3), 33);
    let big = RuntimeDbWeight { read: u64::MAX / 2, write: u64::MAX };
    assert_eq!(big.reads(3), u64::MAX);
    assert_eq!(big.writes(2), u64::MAX);
    assert_eq!(rocks_db_weight(), RuntimeDbWeight { read: 25_000_000, write: 100_000_000 });
}

#[test]
fn create_kitty_weight_on_rocks_db() {
    assert_eq!(().create_kitty(), 35_901_000 + 21_000 + 3 * 25_000_000 + 3 * 100_000_000);
    assert_eq!(().create_kitty(), 410_922_000);
}

#[test]
fn create_kitty_weight_follows_the_runtime() {
    let free = WeightInfo { db_weight: RuntimeDbWeight { read: 0, write: 0 } };
    assert_eq!(free.create_kitty(), 35_922_000);
    let custom = WeightInfo { db_weight: RuntimeDbWeight { read: 1_000, write: 2_000 } };
    assert_eq!(custom.create_kitty(), 35_922_000 + 3_000 + 6_000);
    let huge = WeightInfo { db_weight: RuntimeDbWeight { read: u64::MAX, write: 1 } };
    assert_eq!(huge.create_kitty(), u64::MAX);
}
