use vstd::prelude::*;

verus! {

/// Text reported as the allocator's memory usage: none is gathered.
pub fn memory_usage() -> (r: String)
    ensures
        r@ == Seq::<char>::empty(),
{
    String::new()
}

/// Text reported as the allocator's extended statistics, which this allocator does not
/// offer.
pub fn memory_stats() -> (r: String)
    ensures
        r@ == "Extended statistics are not available from hardened_malloc."@,
{
    "Extended statistics are not available from hardened_malloc.".to_owned()
}

} // verus!
