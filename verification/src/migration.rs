//! Schema migration planning: which numbered migrations a database at a
//! given schema version still needs.
use vstd::prelude::*;

verus! {

/// The current schema version.
pub const SCHEMA_VERSION: u32 = 22;

/// The migrations to run, in order, for a database at `current`: every
/// version above `current` up to `SCHEMA_VERSION`.
pub open spec fn pending_spec(current: u32) -> Seq<u32> {
    if current < SCHEMA_VERSION {
        Seq::new((SCHEMA_VERSION - current) as nat, |i: int| (current + 1 + i) as u32)
    } else {
        Seq::empty()
    }
}

/// The migrations that bring a database at schema version `current` up to
/// date, in the order they must run. After they run, the version is set to
/// `SCHEMA_VERSION`.
pub fn pending_migrations(current: u32) -> (r: Vec<u32>)
    ensures
        r@ == pending_spec(current),
{
    let mut out: Vec<u32> = Vec::new();
    let mut v: u32 = 1;
    while v <= SCHEMA_VERSION
        invariant
            1 <= v <= SCHEMA_VERSION + 1,
            out@ == (if current < v {
                Seq::new((v - 1 - current) as nat, |i: int| (current + 1 + i) as u32)
            } else {
                Seq::<u32>::empty()
            }),
        decreases SCHEMA_VERSION + 1 - v,
    {
        if current < v {
            out.push(v);
            assert(out@ =~= Seq::new((v - current) as nat, |i: int| (current + 1 + i) as u32));
        } else {
            assert(Seq::new(0nat, |i: int| (current + 1 + i) as u32) =~= Seq::<u32>::empty());
        }
        v = v + 1;
    }
    proof {
        if current < SCHEMA_VERSION {
            assert(out@ =~= pending_spec(current));
        }
    }
    out
}

} // verus!
