//! SQL the library builds at run time.
use vstd::prelude::*;
use crate::text::{owned, push_str};

verus! {

/// `n` placeholders separated by commas: `?, ?, ..., ?`.
pub open spec fn placeholders(n: nat) -> Seq<char>
    decreases n,
{
    if n == 0 {
        Seq::empty()
    } else if n == 1 {
        seq!['?']
    } else {
        placeholders((n - 1) as nat) + seq![',', ' ', '?']
    }
}

/// The query fetching the file records whose id is among `n` bound ids.
pub open spec fn files_by_ids_query(n: nat) -> Seq<char> {
    "SELECT id, path, filename, extension, size_bytes, modified_at, created_at, blake3_hash, index_status, drive\n         FROM files WHERE id IN ("@
        + placeholders(n) + ")"@
}

/// Builds the query fetching the file records of `n` ids (`n > 0`), one
/// `?` placeholder per id.
pub fn files_by_ids_sql(n: usize) -> (r: String)
    requires
        n > 0,
    ensures
        r@ == files_by_ids_query(n as nat),
{
    let mut list = owned("?");
    proof {
        reveal_strlit("?");
        assert(list@ =~= seq!['?']);
    }
    let mut i: usize = 1;
    while i < n
        invariant
            1 <= i <= n,
            list@ == placeholders(i as nat),
        decreases n - i,
    {
        proof {
            reveal_strlit(", ?");
            assert(", ?"@ =~= seq![',', ' ', '?']);
        }
        push_str(&mut list, ", ?");
        i = i + 1;
    }
    let mut sql = owned(
        "SELECT id, path, filename, extension, size_bytes, modified_at, created_at, blake3_hash, index_status, drive\n         FROM files WHERE id IN (",
    );
    push_str(&mut sql, list.as_str());
    push_str(&mut sql, ")");
    sql
}

} // verus!
