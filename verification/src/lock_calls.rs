//! What the calls of the reader-writer lock's functions give, in words as integers.
//!
//! `before` and `after` are the words of the lock before and after a call. A word
//! counts readers in units of eight; four is the writer bit, two says that the writer
//! is parked, and one says that other threads are parked.

use crate::send_rwlock::{
    decode, law_words_differ_in_meaning, ExclusiveWaiter, Goal, RawRwLock, Reply,
    SharedStep, Step,
};
use crate::waiter_laws::{
    law_exchange_takes_the_bit_or_parks, law_free_writer_bit_is_claimed,
    law_lock_is_acquired_without_readers, law_readers_come_and_go_by_eight,
    law_taken_writer_bit_is_waited_for, law_word_is_the_sum_of_its_parts,
    law_writer_comes_by_four, tells,
};
use vstd::prelude::*;

verus! {

/// `word` is the word of the lock.
pub open spec fn is_word(lock: RawRwLock, word: usize) -> bool {
    lock@ == decode(word)
}

/// A new lock has the word zero, a lock is made from any word, and its word can be had
/// back.
pub proof fn law_lock_is_its_word(
    fresh: RawRwLock,
    zero: usize,
    word: usize,
    made: RawRwLock,
    bits: usize,
)
    requires
        call_ensures(RawRwLock::new, (), fresh),
        is_word(fresh, zero),
        call_ensures(RawRwLock::from_bits, (word,), made),
        call_ensures(RawRwLock::bits, (&made,), bits),
    ensures
        zero == 0,
        is_word(made, word),
        bits == word,
{
    law_word_is_the_sum_of_its_parts(zero);
    law_words_differ_in_meaning(bits, word);
}

/// A reader takes the lock exactly if the word does not have the writer bit, however many
/// readers there are, and adds eight to the word. Else nothing changes.
pub proof fn law_lock_shared(lock: &mut RawRwLock, locked: bool, before: usize, after: usize)
    requires
        is_word(*old(lock), before),
        is_word(*final(lock), after),
        before & 4 != 0 || before + 8 <= usize::MAX,
        call_ensures(RawRwLock::lock_shared, (lock,), locked),
    ensures
        locked <==> before & 4 == 0,
        after == before + (if locked {
            8int
        } else {
            0
        }),
{
    law_readers_come_and_go_by_eight(before);
    if locked {
        law_words_differ_in_meaning(after, (before + 8) as usize);
    } else {
        law_words_differ_in_meaning(after, before);
    }
}

/// A reader can try to take the lock unless the word is the last one that counts and has
/// no writer bit, and can give it back whenever a reader holds it.
pub proof fn law_readers_can_call(lock: &mut RawRwLock, before: usize)
    requires
        is_word(*old(lock), before),
    ensures
        before & 4 != 0 || before + 8 <= usize::MAX ==> call_requires(
            RawRwLock::lock_shared,
            (lock,),
        ),
        before >= 8 ==> call_requires(RawRwLock::unlock_shared, (lock,)),
        call_requires(RawRwLock::unlock_shared_slow, (lock,)),
        call_requires(RawRwLock::try_lock_exclusive, (lock,)),
        call_requires(RawRwLock::lock_exclusive, (lock,)),
{
}

/// A reader that finds a word waits exactly if that has the writer bit, gives up exactly
/// if it has not and eight cannot be added, and else exchanges the word for the word
/// plus eight.
pub proof fn law_lock_shared_step(state: usize, step: SharedStep)
    requires
        call_ensures(RawRwLock::lock_shared_step, (state,), step),
    ensures
        step is Blocked <==> state & 4 != 0,
        step is Full <==> state & 4 == 0 && state + 8 > usize::MAX,
        state & 4 == 0 && state + 8 <= usize::MAX ==> step == (SharedStep::Exchange {
            current: state,
            new: (state + 8) as usize,
        }),
{
}

/// A reader that gives the lock back takes eight off the word, and is told to wake the
/// writer exactly if no reader is left and the word says that the writer is parked.
pub proof fn law_unlock_shared(lock: &mut RawRwLock, wake: bool, before: usize, after: usize)
    requires
        is_word(*old(lock), before),
        is_word(*final(lock), after),
        before >= 8,
        call_ensures(RawRwLock::unlock_shared, (lock,), wake),
    ensures
        after == before - 8,
        wake <==> after < 8 && before & 2 != 0,
{
    law_readers_come_and_go_by_eight(before);
    law_words_differ_in_meaning(after, (before - 8) as usize);
}

/// Waking the parked writer takes two off a word that says that it is parked, and leaves
/// any other word as it is. The writer is told to look again.
pub proof fn law_unlock_shared_slow(
    lock: &mut RawRwLock,
    token: usize,
    before: usize,
    after: usize,
)
    requires
        is_word(*old(lock), before),
        is_word(*final(lock), after),
        call_ensures(RawRwLock::unlock_shared_slow, (lock,), token),
    ensures
        token == 0,
        after == before - (if before & 2 != 0 {
            2int
        } else {
            0
        }),
{
    law_writer_comes_by_four(before);
    law_words_differ_in_meaning(after, before & !2);
}

/// A reader that takes the lock and gives it back leaves the word as it was.
pub proof fn law_unlock_shared_undoes_lock_shared(
    taking: &mut RawRwLock,
    giving: &mut RawRwLock,
    wake: bool,
    before: usize,
    between: usize,
    after: usize,
)
    requires
        is_word(*old(taking), before),
        is_word(*final(taking), between),
        before + 8 <= usize::MAX,
        call_ensures(RawRwLock::lock_shared, (taking,), true),
        *old(giving) == *final(taking),
        is_word(*final(giving), after),
        call_ensures(RawRwLock::unlock_shared, (giving,), wake),
    ensures
        after == before,
{
    law_lock_shared(taking, true, before, between);
    law_unlock_shared(giving, wake, between, after);
}

/// A writer gets the lock at once exactly if its word is zero, which then becomes four.
/// Else nothing changes, and the thread that insists begins by loading the word.
pub proof fn law_lock_exclusive(
    trying: &mut RawRwLock,
    locked: bool,
    insisting: &mut RawRwLock,
    waiter: Option<ExclusiveWaiter>,
    before: usize,
    tried: usize,
    insisted: usize,
)
    requires
        is_word(*old(trying), before),
        is_word(*final(trying), tried),
        call_ensures(RawRwLock::try_lock_exclusive, (trying,), locked),
        is_word(*old(insisting), before),
        is_word(*final(insisting), insisted),
        call_ensures(RawRwLock::lock_exclusive, (insisting,), waiter),
    ensures
        locked <==> before == 0,
        waiter is None <==> before == 0,
        tried == (if before == 0 {
            4
        } else {
            before
        }),
        insisted == tried,
        waiter matches Some(slow) ==> slow@.goal == Goal::WriterBit && slow@.spins == 0
            && slow@.step == Step::Load,
{
    law_word_is_the_sum_of_its_parts(before);
    law_writer_comes_by_four(before);
    if before == 0 {
        law_words_differ_in_meaning(tried, before | 4);
        law_words_differ_in_meaning(insisted, before | 4);
    } else {
        law_words_differ_in_meaning(tried, before);
        law_words_differ_in_meaning(insisted, before);
    }
}

/// What a word says of the writer, of room and of parking is answered by its bits.
pub proof fn law_answers_of_a_word(
    lock: &RawRwLock,
    word: usize,
    writer: bool,
    room: bool,
    may_park: bool,
    may_park_writer: bool,
)
    requires
        is_word(*lock, word),
        call_ensures(RawRwLock::has_writer, (lock,), writer),
        call_ensures(RawRwLock::has_room, (lock,), room),
        call_ensures(RawRwLock::may_park, (lock,), may_park),
        call_ensures(RawRwLock::may_park_writer, (lock,), may_park_writer),
    ensures
        writer <==> word & 4 != 0,
        room <==> word + 8 <= usize::MAX,
        may_park <==> word & 1 != 0 && word & 4 != 0,
        may_park_writer <==> word >= 8 && word & 2 != 0,
{
}

/// A thread that wants the lock for itself begins by loading the word, and its step can be
/// asked for. Any reply that goes with the step can be handed in.
pub proof fn law_waiter_goes_on(
    fresh: ExclusiveWaiter,
    waiter: &mut ExclusiveWaiter,
    step: Step,
    reply: Reply,
)
    requires
        call_ensures(ExclusiveWaiter::new, (), fresh),
        call_ensures(ExclusiveWaiter::step, (&*old(waiter),), step),
    ensures
        fresh@.goal == Goal::WriterBit,
        fresh@.spins == 0,
        fresh@.step == Step::Load,
        step == old(waiter)@.step,
        step is Load && reply is Loaded ==> call_requires(
            ExclusiveWaiter::resume,
            (waiter, reply),
        ),
        step is Exchange && (reply is Exchanged || reply is Changed) ==> call_requires(
            ExclusiveWaiter::resume,
            (waiter, reply),
        ),
        (step is Park || step is ParkWriter) && (reply is Unparked || reply is Invalid || reply
            is TimedOut) ==> call_requires(ExclusiveWaiter::resume, (waiter, reply)),
{
}

/// A thread without the writer bit that is told a word: if the word does not have the
/// bit, it tries to exchange that very word for the word plus four, however many readers
/// it counts. Else it spins, ten times at most and only while nobody is parked; then it
/// tries to say that it is parked, by adding one, unless the word says so; then it parks.
pub proof fn law_resume_for_the_writer_bit(
    waiter: &mut ExclusiveWaiter,
    state: usize,
    reply: Reply,
)
    requires
        old(waiter)@.goal is WriterBit,
        tells(reply, state),
        call_ensures(ExclusiveWaiter::resume, (waiter, reply), ()),
    ensures
        ({
            let before = old(waiter)@;
            let after = final(waiter)@;
            let spins = state & 4 != 0 && state & 2 == 0 && state & 1 == 0 && before.spins < 10;
            &&& after.goal == Goal::WriterBit
            &&& after.spins == before.spins + (if spins {
                1int
            } else {
                0
            })
            &&& after.step == (if state & 4 == 0 {
                Step::Exchange { current: state, new: (state + 4) as usize }
            } else if spins {
                Step::Load
            } else if state & 1 == 0 {
                Step::Exchange { current: state, new: (state + 1) as usize }
            } else {
                Step::Park
            })
        }),
{
    if decode(state).writer {
        law_taken_writer_bit_is_waited_for(old(waiter)@, state, reply);
    } else {
        law_free_writer_bit_is_claimed(old(waiter)@, state, reply);
    }
}

/// A thread with the writer bit that is told a word: it has the lock exactly if the word
/// counts no reader. Else it spins, ten times at most; then it tries to say that the
/// writer is parked, by adding two, unless the word says so; then it parks.
pub proof fn law_resume_for_the_readers(
    waiter: &mut ExclusiveWaiter,
    state: usize,
    reply: Reply,
)
    requires
        old(waiter)@.goal is Readers,
        tells(reply, state),
        call_ensures(ExclusiveWaiter::resume, (waiter, reply), ()),
    ensures
        ({
            let before = old(waiter)@;
            let after = final(waiter)@;
            let spins = state >= 8 && before.spins < 10;
            &&& after.goal == Goal::Readers
            &&& after.spins == before.spins + (if spins {
                1int
            } else {
                0
            })
            &&& after.step == (if state < 8 {
                Step::Acquired
            } else if spins {
                Step::Load
            } else if state & 2 == 0 {
                Step::Exchange { current: state, new: (state + 2) as usize }
            } else {
                Step::ParkWriter
            })
        }),
{
    law_lock_is_acquired_without_readers(old(waiter)@, state, reply);
}

/// A thread whose exchange was done has taken the writer bit if it was free, and then
/// loads the word again to wait for the readers; else it parks, in the queue of those
/// without the bit or in that of the writer.
pub proof fn law_resume_after_exchange(
    waiter: &mut ExclusiveWaiter,
    current: usize,
    new: usize,
)
    requires
        old(waiter)@.step == (Step::Exchange { current, new }),
        call_ensures(ExclusiveWaiter::resume, (waiter, Reply::Exchanged), ()),
    ensures
        ({
            let before = old(waiter)@;
            let after = final(waiter)@;
            let takes_bit = before.goal is WriterBit && current & 4 == 0;
            &&& takes_bit ==> after.goal == Goal::Readers && after.spins == 0 && after.step
                == Step::Load
            &&& !takes_bit ==> after.goal == before.goal && after.spins == before.spins
                && after.step == (if before.goal is WriterBit {
                Step::Park
            } else {
                Step::ParkWriter
            })
        }),
{
    law_exchange_takes_the_bit_or_parks(old(waiter)@, current, new);
}

/// A thread that is unparked or was not parked loads the word again. It waits for the
/// readers if it did so before or if it was handed the writer bit; else it has all its
/// spins to come again. A thread whose parking has timed out aborts.
pub proof fn law_resume_after_parking(
    unparked: &mut ExclusiveWaiter,
    token: usize,
    refused: &mut ExclusiveWaiter,
    late: &mut ExclusiveWaiter,
)
    requires
        call_ensures(ExclusiveWaiter::resume, (unparked, Reply::Unparked(token)), ()),
        call_ensures(ExclusiveWaiter::resume, (refused, Reply::Invalid), ()),
        call_ensures(ExclusiveWaiter::resume, (late, Reply::TimedOut), ()),
    ensures
        final(unparked)@.step == Step::Load,
        final(unparked)@.goal is Readers <==> old(unparked)@.goal is Readers || token == 1,
        final(unparked)@.spins == (if old(unparked)@.goal is Readers {
            old(unparked)@.spins
        } else {
            0
        }),
        final(refused)@.step == Step::Load,
        final(refused)@.goal == old(refused)@.goal,
        final(refused)@.spins == (if old(refused)@.goal is Readers {
            old(refused)@.spins
        } else {
            0
        }),
        final(late)@.step == Step::Abort,
        final(late)@.goal == old(late)@.goal,
{
}

} // verus!
