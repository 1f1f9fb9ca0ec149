//! The reader-writer lock, step by step.

use pin_scoped::send_rwlock::{
    ExclusiveWaiter, RawRwLock, Reply, SharedStep, Step, ONE_READER, PARKED_BIT, TOKEN_EXCLUSIVE,
    TOKEN_HANDOFF, TOKEN_NORMAL, WRITER_BIT, WRITER_PARKED_BIT,
};

/// Does what the waiter says on a word of its own, until it wants to park or has
/// the lock. Gives back how often it has loaded the word.
fn advance(waiter: &mut ExclusiveWaiter, word: &mut usize) -> usize {
    let mut loads = 0;
    loop {
        match waiter.step() {
            Step::Load => {
                loads += 1;
                waiter.resume(Reply::Loaded(*word));
            }
            Step::Exchange { current, new } => {
                assert_eq!(current, *word);
                *word = new;
                waiter.resume(Reply::Exchanged);
            }
            Step::Park | Step::ParkWriter | Step::Acquired | Step::Abort => return loads,
        }
    }
}

#[test]
fn the_words_are_packed() {
    assert_eq!(RawRwLock::new().bits(), 0);
    let mut lock = RawRwLock::new();
    assert!(lock.lock_shared());
    assert_eq!(lock.bits(), 8);
    assert!(lock.lock_shared());
    assert_eq!(lock.bits(), 16);
    assert!(!lock.unlock_shared());
    assert_eq!(lock.bits(), 8);
    assert!(!lock.unlock_shared());
    assert_eq!(lock.bits(), 0);
    assert_eq!(TOKEN_EXCLUSIVE, 4);
}

#[test]
fn a_writer_locks_an_unlocked_lock_only() {
    let mut lock = RawRwLock::new();
    assert!(lock.try_lock_exclusive());
    assert_eq!(lock.bits(), 4);
    assert!(lock.has_writer());
    assert!(!lock.try_lock_exclusive());
    assert!(lock.lock_exclusive().is_some());

    let mut lock = RawRwLock::from_bits(ONE_READER);
    assert!(!lock.try_lock_exclusive());
    assert_eq!(lock.bits(), ONE_READER);
    let mut lock = RawRwLock::new();
    assert!(lock.lock_exclusive().is_none());
    assert_eq!(lock.bits(), WRITER_BIT);
}

#[test]
fn readers_are_counted_up_to_the_limit() {
    assert!(RawRwLock::from_bits(usize::MAX - 15).has_room());
    assert!(!RawRwLock::from_bits(usize::MAX - 7).has_room());
    assert!(!RawRwLock::from_bits(ONE_READER).has_writer());
}

#[test]
fn a_reader_waits_behind_a_writer() {
    for word in [WRITER_BIT, 2 * ONE_READER | WRITER_BIT | WRITER_PARKED_BIT] {
        let mut lock = RawRwLock::from_bits(word);
        assert!(!lock.lock_shared());
        assert_eq!(lock.bits(), word);
        assert_eq!(RawRwLock::lock_shared_step(word), SharedStep::Blocked);
    }
}

#[test]
fn a_reader_goes_by_the_word_that_it_finds() {
    assert_eq!(
        RawRwLock::lock_shared_step(0),
        SharedStep::Exchange { current: 0, new: 8 }
    );
    assert_eq!(
        RawRwLock::lock_shared_step(ONE_READER),
        SharedStep::Exchange {
            current: 8,
            new: 16
        }
    );
    assert_eq!(RawRwLock::lock_shared_step(!0b111), SharedStep::Full);
    assert_eq!(RawRwLock::lock_shared_step(!0), SharedStep::Blocked);
}

#[test]
fn the_last_reader_wakes_a_parked_writer() {
    let mut lock = RawRwLock::from_bits(2 * ONE_READER | WRITER_BIT | WRITER_PARKED_BIT | PARKED_BIT);
    assert!(!lock.unlock_shared());
    assert!(lock.unlock_shared());
    assert_eq!(lock.unlock_shared_slow(), TOKEN_NORMAL);
    assert_eq!(lock.bits(), WRITER_BIT | PARKED_BIT);
    let mut lock = RawRwLock::from_bits(ONE_READER | WRITER_BIT);
    assert!(!lock.unlock_shared());
}

#[test]
fn parking_is_validated() {
    assert!(RawRwLock::from_bits(PARKED_BIT | WRITER_BIT).may_park());
    assert!(!RawRwLock::from_bits(PARKED_BIT).may_park());
    assert!(!RawRwLock::from_bits(WRITER_BIT).may_park());
    assert!(RawRwLock::from_bits(ONE_READER | WRITER_PARKED_BIT).may_park_writer());
    assert!(!RawRwLock::from_bits(WRITER_PARKED_BIT).may_park_writer());
    assert!(!RawRwLock::from_bits(ONE_READER).may_park_writer());
}

#[test]
fn a_waiter_takes_a_free_lock() {
    let mut word = 0;
    let mut waiter = ExclusiveWaiter::new();
    assert_eq!(waiter.step(), Step::Load);
    assert_eq!(advance(&mut waiter, &mut word), 2);
    assert_eq!(waiter.step(), Step::Acquired);
    assert_eq!(word, WRITER_BIT);
}

#[test]
fn a_waiter_waits_for_the_readers() {
    let mut word = 2 * ONE_READER;
    let mut waiter = ExclusiveWaiter::new();
    // One load finds the writer bit free, one begins to wait, ten are spins.
    assert_eq!(advance(&mut waiter, &mut word), 12);
    assert_eq!(waiter.step(), Step::ParkWriter);
    assert_eq!(word, 2 * ONE_READER | WRITER_BIT | WRITER_PARKED_BIT);

    let mut lock = RawRwLock::from_bits(word);
    assert!(lock.may_park_writer());
    assert!(!lock.unlock_shared());
    assert!(lock.unlock_shared());
    let token = lock.unlock_shared_slow();
    word = lock.bits();
    waiter.resume(Reply::Unparked(token));
    assert_eq!(advance(&mut waiter, &mut word), 1);
    assert_eq!(waiter.step(), Step::Acquired);
    assert_eq!(word, WRITER_BIT);
}

#[test]
fn a_waiter_that_has_spun_out_does_not_spin_for_readers_again() {
    let mut word = ONE_READER;
    let mut waiter = ExclusiveWaiter::new();
    advance(&mut waiter, &mut word);
    assert_eq!(waiter.step(), Step::ParkWriter);
    waiter.resume(Reply::Invalid);
    assert_eq!(advance(&mut waiter, &mut word), 1);
    assert_eq!(waiter.step(), Step::ParkWriter);
}

#[test]
fn a_waiter_parks_behind_a_writer() {
    let mut word = WRITER_BIT;
    let mut waiter = ExclusiveWaiter::new();
    // One load, and ten spins.
    assert_eq!(advance(&mut waiter, &mut word), 11);
    assert_eq!(waiter.step(), Step::Park);
    assert_eq!(word, WRITER_BIT | PARKED_BIT);

    // Unparked to try again: the parked bit stops it from spinning.
    waiter.resume(Reply::Unparked(TOKEN_NORMAL));
    assert_eq!(advance(&mut waiter, &mut word), 1);
    assert_eq!(waiter.step(), Step::Park);

    // Not parked after all: it may spin again, once nobody is parked.
    waiter.resume(Reply::Invalid);
    word = WRITER_BIT;
    assert_eq!(advance(&mut waiter, &mut word), 11);
    assert_eq!(waiter.step(), Step::Park);

    // The lock is handed over.
    waiter.resume(Reply::Unparked(TOKEN_HANDOFF));
    assert_eq!(advance(&mut waiter, &mut word), 1);
    assert_eq!(waiter.step(), Step::Acquired);
}

#[test]
fn a_waiter_goes_by_the_word_that_it_finds() {
    let mut waiter = ExclusiveWaiter::new();
    waiter.resume(Reply::Loaded(0));
    assert_eq!(
        waiter.step(),
        Step::Exchange {
            current: 0,
            new: WRITER_BIT
        }
    );
    waiter.resume(Reply::Changed(ONE_READER));
    assert_eq!(
        waiter.step(),
        Step::Exchange {
            current: ONE_READER,
            new: ONE_READER | WRITER_BIT
        }
    );
    waiter.resume(Reply::Changed(WRITER_BIT | WRITER_PARKED_BIT));
    assert_eq!(
        waiter.step(),
        Step::Exchange {
            current: WRITER_BIT | WRITER_PARKED_BIT,
            new: WRITER_BIT | WRITER_PARKED_BIT | PARKED_BIT
        }
    );
    waiter.resume(Reply::Exchanged);
    assert_eq!(waiter.step(), Step::Park);
    waiter.resume(Reply::TimedOut);
    assert_eq!(waiter.step(), Step::Abort);
}

#[test]
fn a_waiter_for_readers_aborts_on_a_timeout() {
    let mut word = ONE_READER;
    let mut waiter = ExclusiveWaiter::new();
    advance(&mut waiter, &mut word);
    assert_eq!(waiter.step(), Step::ParkWriter);
    waiter.resume(Reply::TimedOut);
    assert_eq!(waiter.step(), Step::Abort);
}
