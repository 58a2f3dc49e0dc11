//! Laws of device ids: they count up, so that no two are the same.
use crate::ids::{first_id, next_id};
use vstd::prelude::*;

verus! {

/// The id that is given out after `calls` ids, where `first` was given out first.
pub open spec fn id_after(first: u64, calls: nat) -> u64
    decreases calls,
{
    if calls == 0 {
        first
    } else {
        next_id(id_after(first, (calls - 1) as nat))
    }
}

/// As long as the ids have not started over, the id after `calls` others is that many larger than
/// the first. A process starts at 1, so that its first id is 1, its second 2, and so on.
pub proof fn law_ids_count_calls(first: u64, calls: nat)
    requires
        first + calls <= u64::MAX,
    ensures
        id_after(first, calls) == first + calls,
        first == 1 ==> id_after(first, calls) == 1 + calls && id_after(first, calls) >= 1,
    decreases calls,
{
    if calls > 0 {
        law_ids_count_calls(first, (calls - 1) as nat);
    }
}

/// As long as the ids have not started over, the id that a process gives out after `calls` others
/// is one more than that: its first is 1, and none is 0.
pub proof fn law_ids_start_at_one(calls: nat)
    requires
        calls < u64::MAX,
    ensures
        id_after(first_id(), calls) == calls + 1,
{
    law_ids_count_calls(first_id(), calls);
}

/// As long as the ids have not started over, every id is larger than all that were given out
/// before it, so that no two are the same, whoever asked for them.
pub proof fn law_ids_are_unique(first: u64, earlier: nat, later: nat)
    requires
        earlier < later,
        first + later <= u64::MAX,
    ensures
        id_after(first, earlier) < id_after(first, later),
{
    law_ids_count_calls(first, earlier);
    law_ids_count_calls(first, later);
}

} // verus!
