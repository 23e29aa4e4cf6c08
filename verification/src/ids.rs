//! Transaction ids: a 16-bit counter that hands out each value once per lap.

use vstd::prelude::*;

verus! {

/// The id handed out by call number `k` (counted from zero) of an allocator
/// whose counter stood at `start` before the first of those calls.
pub open spec fn id_at(start: u16, k: nat) -> u16 {
    ((start as nat + k) % 65536) as u16
}

/// The shared source of transaction ids.
///
/// The counter is advanced through `&mut self`, so a caller that shares one
/// allocator between workers has to give each call exclusive access (a mutex
/// around the allocator does): no two calls can then see the same counter.
#[derive(Debug)]
pub struct TxIdAllocator {
    counter: u16,
}

impl View for TxIdAllocator {
    type V = u16;

    /// The value of the counter: the id that the next call hands out.
    closed spec fn view(&self) -> u16 {
        self.counter
    }
}

impl TxIdAllocator {
    /// An allocator whose first id is zero.
    pub fn new() -> (a: TxIdAllocator)
        ensures
            a@ == 0,
    {
        TxIdAllocator { counter: 0 }
    }

    /// Hands out the current counter value and advances the counter by one,
    /// wrapping from 65535 to 0.
    pub fn next(&mut self) -> (id: u16)
        ensures
            id == old(self)@,
            final(self)@ == id_at(old(self)@, 1),
    {
        let id: u16 = self.counter;
        self.counter = id.wrapping_add(1);
        id
    }
}

/// The ids of `n` calls in a row, from an allocator whose counter stands at
/// `start`.
pub open spec fn ids_from(start: u16, n: nat) -> Seq<u16> {
    Seq::new(n, |k: int| id_at(start, k as nat))
}

/// The first call returns the counter as it stands.
pub proof fn lemma_id_at_zero(start: u16)
    ensures
        id_at(start, 0) == start,
{
}

/// Ids follow each other: the id of call `i + k` is the id of call `k` of an
/// allocator that starts where call `i` stood.
pub proof fn lemma_id_at_add(start: u16, i: nat, k: nat)
    ensures
        id_at(id_at(start, i), k) == id_at(start, i + k),
{
    assert(((start as nat + i) % 65536 + k) % 65536 == (start as nat + i + k) % 65536) by {
        vstd::arithmetic::div_mod::lemma_add_mod_noop((start as nat + i) as int, k as int, 65536);
        vstd::arithmetic::div_mod::lemma_mod_twice((start as nat + i) as int, 65536);
        vstd::arithmetic::div_mod::lemma_add_mod_noop(
            ((start as nat + i) % 65536) as int,
            k as int,
            65536,
        );
    }
}

/// Two calls return the same id exactly when their positions differ by a
/// multiple of 65536.
pub proof fn lemma_ids_equal_iff(start: u16, i: nat, j: nat)
    ensures
        id_at(start, i) == id_at(start, j) <==> (i as int - j as int) % 65536 == 0,
{
    let a = start as int + i as int;
    let b = start as int + j as int;
    vstd::arithmetic::div_mod::lemma_mod_equivalence(a, b, 65536);
    assert(a - b == i as int - j as int);
}

/// Any 65536 consecutive calls, or fewer, return pairwise distinct ids.
pub proof fn lemma_ids_distinct(start: u16, i: nat, j: nat)
    requires
        i < j,
        j - i < 65536,
    ensures
        id_at(start, i) != id_at(start, j),
{
    lemma_ids_equal_iff(start, i, j);
    let d = j as int - i as int;
    assert((i as int - j as int) % 65536 != 0) by {
        vstd::arithmetic::div_mod::lemma_mod_equivalence(i as int, j as int, 65536);
        vstd::arithmetic::div_mod::lemma_mod_equivalence(d, 0, 65536);
        vstd::arithmetic::div_mod::lemma_small_mod(d as nat, 65536);
    }
}

/// Up to 65536 calls in a row return as many distinct ids, whatever the
/// counter stood at.
pub proof fn lemma_ids_no_duplicates(start: u16, n: nat)
    requires
        n <= 65536,
    ensures
        ids_from(start, n).no_duplicates(),
{
    assert forall|i: int, j: int|
        0 <= i < ids_from(start, n).len() && 0 <= j < ids_from(start, n).len() && i
            != j implies ids_from(start, n)[i] != ids_from(start, n)[j] by {
        if i < j {
            lemma_ids_distinct(start, i as nat, j as nat);
        } else {
            lemma_ids_distinct(start, j as nat, i as nat);
        }
    }
}

/// With more than 65536 calls in a row an id comes back: the counter has
/// gone round.
pub proof fn lemma_ids_repeat(start: u16, n: nat)
    requires
        n > 65536,
    ensures
        !ids_from(start, n).no_duplicates(),
{
    lemma_ids_equal_iff(start, 0, 65536);
    assert(ids_from(start, n)[0] == ids_from(start, n)[65536]);
}

} // verus!
