//! The packed word that says how a scope is shared.
//!
//! The three low bits are flags, the rest counts the live tasks.

use vstd::prelude::*;

verus! {

/// The waker is set.
pub const WAKER: usize = 0b0001;

/// The scope owner has parked the thread.
pub const PARKED: usize = 0b0010;

/// The scope is closed and all tasks should stop.
pub const CLOSED: usize = 0b0100;

/// The value of one task sharing the state.
pub const SHARED: usize = 0b1000;

/// The bits that count the tasks sharing the state.
pub const SHARED_MASK: usize = !0b0111;

/// Whether the flag `bit` is set in `word`.
pub open spec fn flag(word: usize, bit: usize) -> bool {
    word & bit == bit
}

/// The number of tasks that `word` counts.
pub open spec fn count(word: usize) -> nat {
    (word / 8) as nat
}

/// A word without flags and tasks.
pub(crate) proof fn lemma_zero()
    ensures
        count(0) == 0,
        !flag(0, WAKER),
        !flag(0, PARKED),
        !flag(0, CLOSED),
{
    assert(0usize & WAKER == 0 && 0usize & PARKED == 0 && 0usize & CLOSED == 0) by (bit_vector);
}

/// The masked word is zero exactly when no task is counted.
pub(crate) proof fn lemma_masked(word: usize)
    ensures
        (word & SHARED_MASK == 0) == (count(word) == 0),
{
    assert((word & SHARED_MASK == 0) == (word / 8 == 0)) by (bit_vector);
}

/// Setting the closed flag.
pub(crate) proof fn lemma_set_closed(word: usize)
    ensures
        count(word | CLOSED) == count(word),
        flag(word | CLOSED, WAKER) == flag(word, WAKER),
        flag(word | CLOSED, PARKED) == flag(word, PARKED),
        flag(word | CLOSED, CLOSED),
{
    assert((word | CLOSED) / 8 == word / 8 && (word | CLOSED) & WAKER == word & WAKER && (word
        | CLOSED) & PARKED == word & PARKED && (word | CLOSED) & CLOSED == CLOSED) by (bit_vector);
}

/// Setting the parked flag.
pub(crate) proof fn lemma_set_parked(word: usize)
    ensures
        count(word | PARKED) == count(word),
        flag(word | PARKED, WAKER) == flag(word, WAKER),
        flag(word | PARKED, PARKED),
        flag(word | PARKED, CLOSED) == flag(word, CLOSED),
{
    assert((word | PARKED) / 8 == word / 8 && (word | PARKED) & WAKER == word & WAKER && (word
        | PARKED) & PARKED == PARKED && (word | PARKED) & CLOSED == word & CLOSED) by (bit_vector);
}

/// Clearing the parked flag.
pub(crate) proof fn lemma_clear_parked(word: usize)
    ensures
        count(word & !PARKED) == count(word),
        flag(word & !PARKED, WAKER) == flag(word, WAKER),
        !flag(word & !PARKED, PARKED),
        flag(word & !PARKED, CLOSED) == flag(word, CLOSED),
{
    assert((word & !PARKED) / 8 == word / 8 && (word & !PARKED) & WAKER == word & WAKER && (word
        & !PARKED) & PARKED == 0 && (word & !PARKED) & CLOSED == word & CLOSED) by (bit_vector);
}

/// Setting the waker flag.
pub(crate) proof fn lemma_set_waker(word: usize)
    ensures
        count(word | WAKER) == count(word),
        flag(word | WAKER, WAKER),
        flag(word | WAKER, PARKED) == flag(word, PARKED),
        flag(word | WAKER, CLOSED) == flag(word, CLOSED),
{
    assert((word | WAKER) / 8 == word / 8 && (word | WAKER) & WAKER == WAKER && (word | WAKER)
        & PARKED == word & PARKED && (word | WAKER) & CLOSED == word & CLOSED) by (bit_vector);
}

/// Clearing the waker flag.
pub(crate) proof fn lemma_clear_waker(word: usize)
    ensures
        count(word & !WAKER) == count(word),
        !flag(word & !WAKER, WAKER),
        flag(word & !WAKER, PARKED) == flag(word, PARKED),
        flag(word & !WAKER, CLOSED) == flag(word, CLOSED),
{
    assert((word & !WAKER) / 8 == word / 8 && (word & !WAKER) & WAKER == 0 && (word & !WAKER)
        & PARKED == word & PARKED && (word & !WAKER) & CLOSED == word & CLOSED) by (bit_vector);
}

/// Counting one task more.
pub(crate) proof fn lemma_add_task(word: usize)
    requires
        word + SHARED <= usize::MAX,
    ensures
        count((word + SHARED) as usize) == count(word) + 1,
        flag((word + SHARED) as usize, WAKER) == flag(word, WAKER),
        flag((word + SHARED) as usize, PARKED) == flag(word, PARKED),
        flag((word + SHARED) as usize, CLOSED) == flag(word, CLOSED),
{
    let next = (word + SHARED) as usize;
    assert(next & WAKER == word & WAKER && next & PARKED == word & PARKED && next & CLOSED == word
        & CLOSED) by (bit_vector)
        requires
            next == word + SHARED,
    ;
}

/// Counting one task less.
pub(crate) proof fn lemma_sub_task(word: usize)
    requires
        count(word) >= 1,
    ensures
        count((word - SHARED) as usize) == count(word) - 1,
        flag((word - SHARED) as usize, WAKER) == flag(word, WAKER),
        flag((word - SHARED) as usize, PARKED) == flag(word, PARKED),
        flag((word - SHARED) as usize, CLOSED) == flag(word, CLOSED),
{
    lemma_add_task((word - SHARED) as usize);
}

} // verus!
