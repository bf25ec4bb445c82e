//! The weight charged for creating a kitty: a fixed cost plus three storage
//! reads and three storage writes.
use vstd::prelude::*;

use crate::frame::{rocks_db_weight, saturating_add_spec, saturating_mul_spec, RuntimeDbWeight, Weight};

verus! {

/// The fixed part of the cost of creating a kitty.
pub const CREATE_KITTY_BASE: Weight = 35_901_000;

/// The measured spread added to the fixed part.
pub const CREATE_KITTY_EXTRA: Weight = 21_000;

/// The weight of creating a kitty where a read weighs `db.read` and a write
/// `db.write`; every sum and product stops at `u64::MAX`.
pub open spec fn create_kitty_weight(db: RuntimeDbWeight) -> Weight {
    saturating_add_spec(
        saturating_add_spec(
            saturating_add_spec(CREATE_KITTY_BASE, CREATE_KITTY_EXTRA),
            saturating_mul_spec(db.read, 3),
        ),
        saturating_mul_spec(db.write, 3),
    )
}

/// The weights of the kitties module's calls.
pub trait KittiesWeightInfo {
    /// The weight that `create_kitty` reports.
    spec fn create_kitty_spec(&self) -> Weight;

    /// The weight of creating a kitty.
    fn create_kitty(&self) -> (w: Weight)
        ensures
            w == self.create_kitty_spec(),
    ;
}

/// The weights for a runtime whose storage costs `db_weight`.
pub struct WeightInfo {
    pub db_weight: RuntimeDbWeight,
}

fn create_kitty_with(db: &RuntimeDbWeight) -> (w: Weight)
    ensures
        w == create_kitty_weight(*db),
{
    CREATE_KITTY_BASE.saturating_add(CREATE_KITTY_EXTRA).saturating_add(db.reads(3)).saturating_add(
        db.writes(3),
    )
}

impl KittiesWeightInfo for WeightInfo {
    open spec fn create_kitty_spec(&self) -> Weight {
        create_kitty_weight(self.db_weight)
    }

    fn create_kitty(&self) -> (w: Weight) {
        create_kitty_with(&self.db_weight)
    }
}

/// Without a runtime, storage costs what it costs on RocksDB.
impl KittiesWeightInfo for () {
    open spec fn create_kitty_spec(&self) -> Weight {
        create_kitty_weight(RuntimeDbWeight { read: 25_000_000, write: 100_000_000 })
    }

    fn create_kitty(&self) -> (w: Weight) {
        let db = rocks_db_weight();
        create_kitty_with(&db)
    }
}

/// `x` where it fits in a weight, `u64::MAX` where it does not.
pub open spec fn capped(x: int) -> int {
    if x > u64::MAX {
        u64::MAX as int
    } else {
        x
    }
}

/// Creating a kitty weighs 35_901_000 + 21_000, plus three reads and three
/// writes at the runtime's own costs (each product capped at `u64::MAX`), the
/// whole capped at `u64::MAX`.
pub proof fn create_kitty_weighs_three_reads_and_three_writes(info: WeightInfo)
    ensures
        info.create_kitty_spec() == capped(
            35_922_000 + capped(3 * info.db_weight.read) + capped(3 * info.db_weight.write),
        ),
{
}

/// Without a runtime the weight is that of a runtime on RocksDB costs:
/// 410_922_000.
pub proof fn unit_weights_are_rocks_db_weights()
    ensures
        ().create_kitty_spec() == (WeightInfo {
            db_weight: RuntimeDbWeight { read: 25_000_000, write: 100_000_000 },
        }).create_kitty_spec(),
        ().create_kitty_spec() == 410_922_000,
{
}

} // verus!
