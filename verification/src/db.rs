//! Schema versioning of the local database.

use vstd::prelude::*;

verus! {

/// The versions of the schema migrations, in the order they are applied.
pub open spec fn schema_migration_versions() -> Seq<i64> {
    seq![1i64, 2i64]
}

/// The migrations still to apply to a database at schema version
/// `current`: those with a higher version, in order.
pub fn pending_migrations(current: i64) -> (vs: Vec<i64>)
    ensures
        vs@ == schema_migration_versions().filter(|v: i64| v > current),
{
    let mut vs: Vec<i64> = Vec::new();
    if 1 > current {
        vs.push(1);
    }
    if 2 > current {
        vs.push(2);
    }
    proof {
        reveal_with_fuel(Seq::filter, 3);
        assert(schema_migration_versions().drop_last() =~= seq![1i64]);
        assert(seq![1i64].drop_last() =~= Seq::<i64>::empty());
    }
    assert(vs@ =~= schema_migration_versions().filter(|v: i64| v > current));
    vs
}

} // verus!
