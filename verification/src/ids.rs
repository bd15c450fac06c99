//! Ids that are made from the time and a running number.
use vstd::prelude::*;

use crate::numbers::{hex, hex_of, law_hex_distinct};
use crate::text::joined;

verus! {

/// The id of something made by a command.
pub open spec fn command_id(prefix: Seq<char>, nanos: nat, count: nat) -> Seq<char> {
    prefix + "_"@ + hex_of(nanos) + hex_of(count)
}

/// The id of something made from the sidebar.
pub open spec fn sidebar_id(prefix: Seq<char>, nanos: nat, process: nat, count: nat) -> Seq<char> {
    prefix + "_"@ + hex_of(nanos) + hex_of(process) + hex_of(count)
}

/// The id of something made by a command: the prefix, the time since the epoch in nanoseconds and
/// how many ids the process made before.
pub fn generate_id(prefix: &str, nanos: u128, count: u64) -> (r: String)
    ensures
        r@ == command_id(prefix@, nanos as nat, count as nat),
{
    let mut id = joined(prefix, "_");
    id.append(hex(nanos).as_str());
    id.append(hex(count as u128).as_str());
    id
}

/// The id of something made from the sidebar: as [`generate_id`], with the process before the
/// count.
pub fn generate_sidebar_id(prefix: &str, nanos: u128, process: u32, count: u64) -> (r: String)
    ensures
        r@ == sidebar_id(prefix@, nanos as nat, process as nat, count as nat),
{
    let mut id = joined(prefix, "_");
    id.append(hex(nanos).as_str());
    id.append(hex(process as u128).as_str());
    id.append(hex(count as u128).as_str());
    id
}

proof fn lemma_tails_differ(head: Seq<char>, a: Seq<char>, b: Seq<char>)
    requires
        a != b,
    ensures
        head + a != head + b,
{
    if head + a == head + b {
        assert((head + a).skip(head.len() as int) =~= a);
        assert((head + b).skip(head.len() as int) =~= b);
    }
}

proof fn lemma_pairs_differ(
    head: Seq<char>,
    a: Seq<char>,
    b: Seq<char>,
    rest_a: Seq<char>,
    rest_b: Seq<char>,
)
    requires
        a.len() == b.len(),
        a != b || rest_a != rest_b,
    ensures
        head + a + rest_a != head + b + rest_b,
{
    let x = head + a + rest_a;
    let y = head + b + rest_b;
    let from = head.len() as int;
    let mid = from + a.len();
    assert(x.subrange(from, mid) =~= a);
    assert(y.subrange(from, mid) =~= b);
    assert(x.skip(mid) =~= rest_a);
    assert(y.skip(mid) =~= rest_b);
}

/// One process does not make the same id twice: its counts differ, and as long as the times have as
/// many digits so do the ids.
pub proof fn law_ids_differ(
    prefix: Seq<char>,
    nanos: nat,
    later: nat,
    process: nat,
    count: nat,
    other: nat,
)
    requires
        count != other,
        hex_of(nanos).len() == hex_of(later).len(),
    ensures
        command_id(prefix, nanos, count) != command_id(prefix, later, other),
        sidebar_id(prefix, nanos, process, count) != sidebar_id(prefix, later, process, other),
{
    law_hex_distinct(count, other);
    lemma_pairs_differ(prefix + "_"@, hex_of(nanos), hex_of(later), hex_of(count), hex_of(other));
    lemma_tails_differ(hex_of(process), hex_of(count), hex_of(other));
    let a = hex_of(process) + hex_of(count);
    let b = hex_of(process) + hex_of(other);
    lemma_pairs_differ(prefix + "_"@, hex_of(nanos), hex_of(later), a, b);
    assert(sidebar_id(prefix, nanos, process, count) =~= prefix + "_"@ + hex_of(nanos) + a);
    assert(sidebar_id(prefix, later, process, other) =~= prefix + "_"@ + hex_of(later) + b);
}

} // verus!
