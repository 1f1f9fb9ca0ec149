//! What the reader-writer lock does, told by the bits and the numbers of its word.
//!
//! A word counts readers in units of eight. Four is the writer bit, two says that the
//! writer is parked, and one says that other threads are parked.

use crate::send_rwlock::{
    decode, lemma_decode_flags, lemma_decode_readers, lemma_decode_zero, unlocked, Goal, Reply,
    SharedStep, Step, WaiterView, ONE_READER, PARKED_BIT, READERS_MASK, TOKEN_EXCLUSIVE,
    TOKEN_HANDOFF, TOKEN_NORMAL, WRITER_BIT, WRITER_PARKED_BIT,
};
use vstd::prelude::*;

verus! {

/// One if `bit`, else zero.
pub open spec fn unit(bit: bool) -> int {
    if bit {
        1
    } else {
        0
    }
}

/// A word is the sum of its parts.
pub proof fn law_word_is_the_sum_of_its_parts(state: usize)
    ensures
        state == 8 * decode(state).readers + 4 * unit(decode(state).writer) + 2 * unit(
            decode(state).writer_parked,
        ) + unit(decode(state).parked),
        decode(state) == unlocked() <==> state == 0,
        WRITER_BIT == 4 && WRITER_PARKED_BIT == 2 && PARKED_BIT == 1 && ONE_READER == 8,
        TOKEN_EXCLUSIVE == 4 && TOKEN_NORMAL == 0 && TOKEN_HANDOFF == 1,
        state & READERS_MASK != 0 <==> state >= 8,
{
    lemma_decode_zero(state);
    let w = state & 4;
    let q = state & 2;
    let p = state & 1;
    assert(state == 8 * (state / 8) + w + q + p && (w == 0 || w == 4) && (q == 0 || q == 2) && (p
        == 0 || p == 1)) by (bit_vector)
        requires
            w == state & 4,
            q == state & 2,
            p == state & 1,
    ;
}

/// Readers are counted up to the last word: one more can be counted exactly if eight
/// can be added to the word.
pub proof fn law_room_ends_at_the_last_word(state: usize)
    ensures
        decode(state).room() <==> state + 8 <= usize::MAX,
{
}

/// A reader that comes adds eight to the word, and one that leaves takes eight away.
/// The reader that leaves wakes the writer exactly if the writer is parked and only
/// flags stay behind.
pub proof fn law_readers_come_and_go_by_eight(state: usize)
    ensures
        state + 8 <= usize::MAX ==> decode(state).with_reader() == decode((state + 8) as usize),
        state >= 8 ==> decode(state).without_reader() == decode((state - 8) as usize),
        state >= 8 ==> (decode(state).last_reader_wakes() <==> decode(state).writer_parked && state
            - 8 < 8),
        decode(state).readers > 0 <==> state >= 8,
{
    if state + 8 <= usize::MAX {
        lemma_decode_readers(state);
    }
    if state >= 8 {
        lemma_decode_readers((state - 8) as usize);
    }
}

/// A reader that finds a word waits exactly if that has the writer bit; else it gives
/// up exactly if eight cannot be added to it; and else it tries to put the word plus
/// eight in its place, however many readers there are.
pub proof fn law_reader_gives_up_only_at_the_last_word(state: usize)
    ensures
        SharedStep::after(state) is Blocked <==> decode(state).writer,
        SharedStep::after(state) is Full <==> !decode(state).writer && state + 8 > usize::MAX,
        !decode(state).writer && state + 8 <= usize::MAX ==> SharedStep::after(state)
            == (SharedStep::Exchange { current: state, new: (state + 8) as usize }),
{
}

/// Taking the writer bit of a word without it adds four to the word, and taking the
/// writer out of its queue takes two away if it was there, and else nothing.
pub proof fn law_writer_comes_by_four(state: usize)
    ensures
        decode(state).with_writer() == decode(state | 4),
        !decode(state).writer ==> (state | 4) == state + 4,
        decode(state).writer ==> (state | 4) == state,
        decode(state).without_parked_writer() == decode(state & !2),
        decode(state).writer_parked ==> (state & !2) == state - 2,
        !decode(state).writer_parked ==> (state & !2) == state,
{
    lemma_decode_flags(state);
    assert(state & 4 == 0 ==> (state | 4) == state + 4) by (bit_vector);
    assert(state & 4 != 0 ==> (state | 4) == state) by (bit_vector);
    assert(state & 2 != 0 ==> (state & !2) == state - 2) by (bit_vector);
    assert(state & 2 == 0 ==> (state & !2) == state) by (bit_vector);
}

/// The reply tells the word.
pub open spec fn tells(reply: Reply, state: usize) -> bool {
    reply == Reply::Loaded(state) || reply == Reply::Changed(state)
}

/// A thread that wants the lock for itself begins by loading the word, with all its
/// spins to come.
pub proof fn law_waiter_begins_by_loading()
    ensures
        WaiterView::start().goal == Goal::WriterBit,
        WaiterView::start().spins == 0,
        WaiterView::start().step == Step::Load,
{
}

/// Each step has the replies that go with it, and no other.
pub proof fn law_steps_have_their_replies(waiter: WaiterView, reply: Reply)
    ensures
        waiter.step is Load ==> (waiter.expects(reply) <==> reply is Loaded),
        waiter.step is Exchange ==> (waiter.expects(reply) <==> reply is Exchanged
            || reply is Changed),
        waiter.step is Park || waiter.step is ParkWriter ==> (waiter.expects(reply) <==> reply
            is Unparked || reply is Invalid || reply is TimedOut),
        waiter.step is Acquired || waiter.step is Abort ==> !waiter.expects(reply),
{
}

/// A thread that wants the lock for itself and finds a word without the writer bit
/// next tries to put that very word with the bit in its place, however many readers
/// there are and whoever is parked.
pub proof fn law_free_writer_bit_is_claimed(waiter: WaiterView, state: usize, reply: Reply)
    requires
        waiter.goal is WriterBit,
        tells(reply, state),
        !decode(state).writer,
    ensures
        ({
            let next = waiter.next(reply);
            &&& next.step == (Step::Exchange { current: state, new: (state + 4) as usize })
            &&& decode((state + 4) as usize).readers == decode(state).readers
            &&& decode((state + 4) as usize).writer
            &&& decode((state + 4) as usize).writer_parked == decode(state).writer_parked
            &&& decode((state + 4) as usize).parked == decode(state).parked
            &&& next.goal == waiter.goal
            &&& next.spins == waiter.spins
        }),
{
    lemma_decode_flags(state);
    law_writer_comes_by_four(state);
}

/// A thread that wants the lock for itself and finds the writer bit taken spins while
/// nobody is parked, ten times at most, then says that it is parked if the word does
/// not say so yet, and then parks.
pub proof fn law_taken_writer_bit_is_waited_for(waiter: WaiterView, state: usize, reply: Reply)
    requires
        waiter.goal is WriterBit,
        tells(reply, state),
        decode(state).writer,
    ensures
        ({
            let word = decode(state);
            let next = waiter.next(reply);
            let spins = !word.parked && !word.writer_parked && waiter.spins < 10;
            &&& next.goal == waiter.goal
            &&& spins ==> next.step == Step::Load && next.spins == waiter.spins + 1
            &&& !spins ==> next.spins == waiter.spins
            &&& !spins && !word.parked ==> next.step == (Step::Exchange {
                current: state,
                new: (state + 1) as usize,
            })
            &&& word.parked ==> next.step == Step::Park
        }),
{
    assert(state & 1 == 0 ==> (state | 1) == state + 1) by (bit_vector);
}

/// A thread that has put a word in place of another has the writer bit if the other did
/// not have it, and then waits for the readers, with all its spins to come; else it
/// has said that it is parked, and parks. A thread that waits for the readers parks
/// too.
pub proof fn law_exchange_takes_the_bit_or_parks(waiter: WaiterView, current: usize, new: usize)
    requires
        waiter.step == (Step::Exchange { current, new }),
    ensures
        ({
            let next = waiter.next(Reply::Exchanged);
            let takes_bit = waiter.goal is WriterBit && !decode(current).writer;
            &&& takes_bit ==> next.goal == Goal::Readers && next.spins == 0 && next.step
                == Step::Load
            &&& !takes_bit ==> next.goal == waiter.goal && next.spins == waiter.spins
            &&& !takes_bit && waiter.goal is WriterBit ==> next.step == Step::Park
            &&& waiter.goal is Readers ==> next.step == Step::ParkWriter
        }),
{
}

/// A thread with the writer bit has the lock exactly when it finds a word without
/// readers. Else it spins, ten times at most, then says that the writer is parked if
/// the word does not say so yet, and then parks.
pub proof fn law_lock_is_acquired_without_readers(
    waiter: WaiterView,
    state: usize,
    reply: Reply,
)
    requires
        waiter.goal is Readers,
        tells(reply, state),
    ensures
        ({
            let next = waiter.next(reply);
            let spins = state >= 8 && waiter.spins < 10;
            let parks = state >= 8 && waiter.spins >= 10;
            &&& next.goal == waiter.goal
            &&& next.step == Step::Acquired <==> state < 8
            &&& spins ==> next.step == Step::Load && next.spins == waiter.spins + 1
            &&& !spins ==> next.spins == waiter.spins
            &&& parks && !decode(state).writer_parked ==> next.step == (Step::Exchange {
                current: state,
                new: (state + 2) as usize,
            })
            &&& parks && decode(state).writer_parked ==> next.step == Step::ParkWriter
        }),
{
    assert(state & 2 == 0 ==> (state | 2) == state + 2) by (bit_vector);
}

/// A thread that is unparked, or was not parked after all, looks at the word again. One
/// that has not taken the writer bit has all its spins to come again, unless it was
/// handed the bit: then it waits for the readers. A thread whose parking has timed out
/// aborts.
pub proof fn law_unparked_thread_looks_again(waiter: WaiterView, token: usize)
    ensures
        waiter.goal is WriterBit ==> {
            let unparked = waiter.next(Reply::Unparked(token));
            let invalid = waiter.next(Reply::Invalid);
            &&& unparked.step == Step::Load && invalid.step == Step::Load
            &&& unparked.spins == 0 && invalid.spins == 0
            &&& unparked.goal == Goal::Readers <==> token == 1
            &&& invalid.goal == Goal::WriterBit
        },
        waiter.goal is Readers ==> {
            let unparked = waiter.next(Reply::Unparked(token));
            let invalid = waiter.next(Reply::Invalid);
            &&& unparked.step == Step::Load && invalid.step == Step::Load
            &&& unparked.spins == waiter.spins && invalid.spins == waiter.spins
            &&& unparked.goal == Goal::Readers && invalid.goal == Goal::Readers
        },
        waiter.next(Reply::TimedOut).step == Step::Abort,
        waiter.next(Reply::TimedOut).goal == waiter.goal,
        waiter.next(Reply::TimedOut).spins == waiter.spins,
{
}

} // verus!
