//! What holds of a reader-writer lock that many threads use at once.
//!
//! The threads share one word. Every change of it is atomic, and a change goes
//! by the newest word; a load may still find an older word, but never one that
//! is older than what the same thread has found or written before. The events
//! are the calls of [`crate::send_rwlock`]'s functions: their contracts say what
//! each of them does to the word and to the thread.

use crate::send_rwlock::{
    decode, lemma_decode_flags, lemma_decode_zero, unlocked, Goal, Reply, RwWord,
    SharedStep, Step, WaiterView, PARKED_BIT, SPIN_LIMIT, TOKEN_NORMAL, WRITER_BIT, WRITER_PARKED_BIT,
};
use vstd::prelude::*;

verus! {

/// A lock and the threads that use it.
pub struct World {
    /// The words that the lock has had, the newest one last.
    pub words: Seq<usize>,
    /// The number of readers that hold the lock.
    pub shared: nat,
    /// The threads that want the lock for themselves, or have it.
    pub writers: Map<int, WaiterView>,
    /// The newest word, by its place among the words, that each of these threads
    /// has found or written.
    pub seen: Map<int, int>,
    /// The thread that has taken the writer bit, and the place of the word in
    /// which it did.
    pub owner: Option<(int, int)>,
}

/// One thing that happens to a lock.
pub enum RwEvent {
    /// A reader takes the lock.
    LockShared,
    /// A reader gives the lock back.
    UnlockShared,
    /// The parked writer is taken out of the secondary queue.
    UnparkWriter,
    /// A thread begins to take the lock for itself: it gets an unlocked lock at
    /// once, or else begins to wait, which may also happen without a reason.
    LockExclusive(int),
    /// A thread that wants the lock for itself gets a reply to its step.
    Resume(int, Reply),
}

impl World {
    /// An unlocked lock that nobody uses.
    pub open spec fn init() -> Self {
        World {
            words: seq![0usize],
            shared: 0,
            writers: Map::empty(),
            seen: Map::empty(),
            owner: None,
        }
    }

    /// The newest word.
    pub open spec fn word(self) -> usize {
        self.words.last()
    }

    /// The thread holds the lock for itself.
    pub open spec fn holds(self, thread: int) -> bool {
        self.writers.contains_key(thread) && self.writers[thread].step is Acquired
    }

    /// The word is one that the thread can find by a load.
    pub open spec fn can_find(self, thread: int, place: int) -> bool {
        self.seen[thread] <= place < self.words.len()
    }

    /// The event can happen now.
    pub open spec fn admits(self, event: RwEvent) -> bool {
        match event {
            RwEvent::LockShared => !decode(self.word()).writer && decode(self.word()).room(),
            RwEvent::UnlockShared => self.shared > 0,
            RwEvent::UnparkWriter => true,
            RwEvent::LockExclusive(thread) => !self.writers.contains_key(thread),
            RwEvent::Resume(thread, reply) => {
                &&& self.writers.contains_key(thread)
                &&& self.writers[thread].expects(reply)
                &&& match reply {
                    Reply::Loaded(state) => exists|place: int| #[trigger]
                        self.can_find(thread, place) && self.words[place] == state,
                    Reply::Changed(state) => exists|place: int| #[trigger]
                        self.can_find(thread, place) && self.words[place] == state,
                    Reply::Exchanged => self.writers[thread].step matches Step::Exchange {
                        current,
                        ..
                    } && current == self.word(),
                    Reply::Unparked(token) => token == TOKEN_NORMAL,
                    Reply::Invalid => true,
                    Reply::TimedOut => false,
                }
            },
        }
    }

    /// The same with one word more.
    pub open spec fn with_word(self, word: usize) -> Self {
        World { words: self.words.push(word), ..self }
    }

    /// The same with the thread as far as `writer`, having found or written the
    /// word at `place`.
    pub open spec fn with_writer(self, thread: int, writer: WaiterView, place: int) -> Self {
        World {
            writers: self.writers.insert(thread, writer),
            seen: self.seen.insert(thread, place),
            ..self
        }
    }

    /// `next` can be the world after the event.
    pub open spec fn leads_to(self, event: RwEvent, next: Self) -> bool {
        match event {
            RwEvent::LockShared => {
                &&& decode(next.word()) == decode(self.word()).with_reader()
                &&& next == (World { shared: self.shared + 1, ..self.with_word(next.word()) })
            },
            RwEvent::UnlockShared => {
                &&& decode(next.word()) == decode(self.word()).without_reader()
                &&& next == (World {
                    shared: (self.shared - 1) as nat,
                    ..self.with_word(next.word())
                })
            },
            RwEvent::UnparkWriter => {
                &&& decode(next.word()) == decode(self.word()).without_parked_writer()
                &&& next == self.with_word(next.word())
            },
            RwEvent::LockExclusive(thread) => {
                let place = self.words.len() as int;
                let done = WaiterView { goal: Goal::Readers, spins: 0, step: Step::Acquired };
                ||| {
                    &&& decode(self.word()) == unlocked()
                    &&& decode(next.word()) == decode(self.word()).with_writer()
                    &&& next == (World {
                        owner: Some((thread, place)),
                        ..self.with_word(next.word()).with_writer(thread, done, place)
                    })
                }
                ||| next == self.with_writer(thread, WaiterView::start(), 0)
            },
            RwEvent::Resume(thread, reply) => {
                let before = self.writers[thread];
                let after = before.next(reply);
                match (reply, before.step) {
                    (Reply::Exchanged, Step::Exchange { new, .. }) => {
                        let place = self.words.len() as int;
                        next == (World {
                            owner: if before.goal is WriterBit && after.goal is Readers {
                                Some((thread, place))
                            } else {
                                self.owner
                            },
                            ..self.with_word(new).with_writer(thread, after, place)
                        })
                    },
                    (Reply::Loaded(state), _) => exists|place: int| #[trigger]
                        self.can_find(thread, place) && self.words[place] == state && next
                            == self.with_writer(thread, after, place),
                    (Reply::Changed(state), _) => exists|place: int| #[trigger]
                        self.can_find(thread, place) && self.words[place] == state && next
                            == self.with_writer(thread, after, place),
                    _ => next == self.with_writer(thread, after, self.seen[thread]),
                }
            },
        }
    }

    /// The thread waits for the readers exactly if it has taken the writer bit, it
    /// holds the lock only when no reader does, it spins no more than it may, it does
    /// not abort, and what it is about to write sets one flag: the writer bit only in
    /// a word without it, and the flag of its queue.
    pub open spec fn writer_ok(self, thread: int) -> bool {
        let writer = self.writers[thread];
        &&& self.seen.contains_key(thread)
        &&& 0 <= self.seen[thread] < self.words.len()
        &&& writer.goal is Readers <==> (self.owner matches Some(owner) && owner.0 == thread)
        &&& writer.spins <= SPIN_LIMIT
        &&& !(writer.step is Abort)
        &&& writer.step is Acquired ==> writer.goal is Readers && self.shared == 0
        &&& writer.step matches Step::Exchange { current, new } ==> match writer.goal {
            Goal::WriterBit => if decode(current).writer {
                new == current | PARKED_BIT
            } else {
                new == current | WRITER_BIT
            },
            Goal::Readers => new == current | WRITER_PARKED_BIT,
        }
    }

    /// No word has had the writer bit before it was taken; since then it has
    /// stayed, and no reader has come.
    pub open spec fn owner_ok(self) -> bool {
        match self.owner {
            None => forall|i: int|
                0 <= i < self.words.len() ==> !(#[trigger] decode(self.words[i])).writer,
            Some((thread, place)) => {
                &&& self.writers.contains_key(thread)
                &&& 0 <= place <= self.seen[thread]
                &&& forall|i: int|
                    place <= i < self.words.len() ==> (#[trigger] decode(self.words[i])).writer
                &&& forall|i: int, j: int|
                    place <= i <= j < self.words.len() ==> (#[trigger] decode(
                        self.words[j],
                    )).readers <= (#[trigger] decode(self.words[i])).readers
            },
        }
    }

    /// What holds of a lock at all times: the word counts the readers, threads
    /// are parked only once there is a writer, and what holds of the owner and of
    /// each thread that wants the lock for itself.
    pub open spec fn valid(self) -> bool {
        &&& self.words.len() > 0
        &&& decode(self.word()).readers == self.shared
        &&& decode(self.word()).parked ==> decode(self.word()).writer
        &&& decode(self.word()).writer_parked ==> decode(self.word()).writer
        &&& self.owner_ok()
        &&& forall|thread: int| #[trigger]
            self.writers.contains_key(thread) ==> self.writer_ok(thread)
    }
}

/// `worlds` is a history of a lock, with the events between.
pub open spec fn is_history(worlds: Seq<World>, events: Seq<RwEvent>) -> bool {
    &&& worlds.len() == events.len() + 1
    &&& worlds[0] == World::init()
    &&& forall|i: int|
        0 <= i < events.len() ==> (#[trigger] worlds[i]).admits(events[i]) && worlds[i].leads_to(
            events[i],
            worlds[i + 1],
        )
}

/// A lock that nobody uses is valid.
proof fn lemma_init_valid()
    ensures
        World::init().valid(),
{
    lemma_decode_zero(0);
}

/// A change of the newest word that keeps the writer bit and adds no reader
/// keeps what holds of the owner.
proof fn lemma_owner_kept(world: World, next: World)
    requires
        world.words.len() > 0,
        world.owner_ok(),
        next.words == world.words.push(next.word()),
        next.owner == world.owner,
        next.writers.dom() =~= world.writers.dom(),
        forall|thread: int| #[trigger]
            world.seen.contains_key(thread) ==> next.seen.contains_key(thread) && next.seen[thread]
                >= world.seen[thread],
        decode(next.word()).writer == decode(world.word()).writer,
        world.owner is Some ==> decode(next.word()).readers <= decode(world.word()).readers,
        world.owner matches Some(owner) ==> world.seen.contains_key(owner.0)
            && world.seen[owner.0] < world.words.len(),
    ensures
        next.owner_ok(),
{
    let n = world.words.len() as int;
    assert(forall|i: int| 0 <= i < n ==> next.words[i] == world.words[i]);
    assert(next.words[n] == next.word());
    if let Some((thread, place)) = world.owner {
        assert(next.writers.dom().contains(thread));
        assert forall|i: int, j: int| place <= i <= j < next.words.len() implies (#[trigger] decode(
            next.words[j],
        )).readers <= (#[trigger] decode(next.words[i])).readers by {
            if j == n && i < n {
                assert(decode(world.words[n - 1]).readers <= decode(world.words[i]).readers);
            }
        }
    }
}

/// A reader keeps a valid lock valid.
proof fn lemma_reader_step(world: World, event: RwEvent, next: World)
    requires
        world.valid(),
        world.admits(event),
        world.leads_to(event, next),
        event is LockShared || event is UnlockShared || event is UnparkWriter,
    ensures
        next.valid(),
{
    let n = world.words.len() as int;
    if let Some((thread, place)) = world.owner {
        assert(world.writer_ok(thread));
        assert(decode(world.words[n - 1]).writer);
    }
    if event is LockShared {
        assert(world.owner is None);
    } else {
        lemma_owner_kept(world, next);
    }
    assert forall|thread: int| #[trigger] next.writers.contains_key(thread) implies next.writer_ok(
        thread,
    ) by {
        assert(world.writers.contains_key(thread));
        assert(world.writer_ok(thread));
    }
}

/// Beginning to take the lock keeps a valid lock valid.
proof fn lemma_lock_exclusive_step(world: World, thread: int, next: World)
    requires
        world.valid(),
        world.admits(RwEvent::LockExclusive(thread)),
        world.leads_to(RwEvent::LockExclusive(thread), next),
    ensures
        next.valid(),
{
    let n = world.words.len() as int;
    if let Some((owner, place)) = world.owner {
        assert(world.writer_ok(owner));
        assert(decode(world.words[n - 1]).writer);
    }
    assert forall|other: int| #[trigger] next.writers.contains_key(other) implies next.writer_ok(
        other,
    ) by {
        if other != thread {
            assert(world.writers.contains_key(other));
            assert(world.writer_ok(other));
        }
    }
}

/// A reply that leaves the word as it is keeps a valid lock valid.
proof fn lemma_look_step(world: World, thread: int, reply: Reply, next: World)
    requires
        world.valid(),
        world.admits(RwEvent::Resume(thread, reply)),
        world.leads_to(RwEvent::Resume(thread, reply), next),
        !(reply is Exchanged),
    ensures
        next.valid(),
{
    assert(world.writer_ok(thread));
    let after = world.writers[thread].next(reply);
    let place: int = next.seen[thread];
    assert(next == world.with_writer(thread, after, place));
    assert(world.seen[thread] <= place < world.words.len());
    assert(next.owner_ok());
    assert forall|other: int| #[trigger] next.writers.contains_key(other) implies next.writer_ok(
        other,
    ) by {
        if other != thread {
            assert(world.writers.contains_key(other));
            assert(world.writer_ok(other));
        } else {
            assert(after.goal == world.writers[thread].goal);
            if after.step is Acquired {
                assert(decode(world.words[place]).readers == 0);
                let n = world.words.len() as int;
                assert(decode(world.words[n - 1]).readers <= decode(world.words[place]).readers);
            }
        }
    }
}

/// An exchange of the word keeps a valid lock valid.
proof fn lemma_exchange_step(world: World, thread: int, next: World)
    requires
        world.valid(),
        world.admits(RwEvent::Resume(thread, Reply::Exchanged)),
        world.leads_to(RwEvent::Resume(thread, Reply::Exchanged), next),
    ensures
        next.valid(),
{
    assert(world.writer_ok(thread));
    let n = world.words.len() as int;
    let before = world.writers[thread];
    let after = before.next(Reply::Exchanged);
    let current = world.word();
    lemma_decode_flags(current);
    if let Some((owner, place)) = world.owner {
        assert(world.writers.contains_key(owner));
        assert(world.writer_ok(owner));
        assert(decode(world.words[n - 1]).writer);
    }
    if before.goal is WriterBit && after.goal is Readers {
        assert(world.owner is None);
        assert(next.words[n] == next.word());
    } else {
        lemma_owner_kept(world, next);
    }
    assert forall|other: int| #[trigger] next.writers.contains_key(other) implies next.writer_ok(
        other,
    ) by {
        if other != thread {
            assert(world.writers.contains_key(other));
            assert(world.writer_ok(other));
        }
    }
}

/// A lock is valid at all times.
pub proof fn law_lock_stays_valid(worlds: Seq<World>, events: Seq<RwEvent>, i: int)
    requires
        is_history(worlds, events),
        0 <= i < worlds.len(),
    ensures
        worlds[i].valid(),
    decreases i,
{
    if i == 0 {
        lemma_init_valid();
    } else {
        law_lock_stays_valid(worlds, events, i - 1);
        let world = worlds[i - 1];
        assert(world.admits(events[i - 1]) && world.leads_to(events[i - 1], worlds[i]));
        match events[i - 1] {
            RwEvent::LockExclusive(thread) => lemma_lock_exclusive_step(world, thread, worlds[i]),
            RwEvent::Resume(thread, Reply::Exchanged) => lemma_exchange_step(
                world,
                thread,
                worlds[i],
            ),
            RwEvent::Resume(thread, reply) => lemma_look_step(world, thread, reply, worlds[i]),
            _ => lemma_reader_step(world, events[i - 1], worlds[i]),
        }
    }
}

/// Whoever holds the lock for itself holds it alone: there is no other such
/// thread, no reader holds the lock, and none can take it. The word has the writer
/// bit and counts no reader.
pub proof fn law_exclusion(
    worlds: Seq<World>,
    events: Seq<RwEvent>,
    i: int,
    one: int,
    other: int,
)
    requires
        is_history(worlds, events),
        0 <= i < worlds.len(),
        worlds[i].holds(one),
    ensures
        worlds[i].holds(other) ==> one == other,
        worlds[i].shared == 0,
        !worlds[i].admits(RwEvent::LockShared),
        decode(worlds[i].word()).writer,
        decode(worlds[i].word()).readers == 0,
{
    law_lock_stays_valid(worlds, events, i);
    let world = worlds[i];
    assert(world.writer_ok(one));
    if world.holds(other) {
        assert(world.writer_ok(other));
    }
    let n = world.words.len() as int;
    assert(decode(world.words[n - 1]).writer);
}

/// A reader that takes the lock and gives it back leaves the word as it was.
pub proof fn law_unlock_undoes_lock(word: RwWord)
    ensures
        word.with_reader().without_reader() == word,
        word.with_reader().last_reader_wakes() == (word.readers == 0 && word.writer_parked),
{
}

/// Whoever holds the lock for itself holds it for good.
pub proof fn law_held_for_good(
    worlds: Seq<World>,
    events: Seq<RwEvent>,
    i: int,
    j: int,
    thread: int,
)
    requires
        is_history(worlds, events),
        0 <= i <= j < worlds.len(),
        worlds[i].holds(thread),
    ensures
        worlds[j].holds(thread),
    decreases j - i,
{
    if i < j {
        law_held_for_good(worlds, events, i, j - 1, thread);
        assert(worlds[j - 1].admits(events[j - 1]) && worlds[j - 1].leads_to(
            events[j - 1],
            worlds[j],
        ));
    }
}

/// The event makes a reader wake the writer that is parked in the secondary
/// queue.
pub open spec fn wakes_writer(world: World, event: RwEvent) -> bool {
    event is UnlockShared && decode(world.word()).last_reader_wakes()
}

/// A writer that is parked until the readers leave is woken by the last one: if
/// the word says that the writer is parked while there are readers, and nobody
/// takes the writer out of its queue, then a reader has been told to wake the
/// writer by the time that no reader is left.
pub proof fn law_last_reader_wakes_writer(
    worlds: Seq<World>,
    events: Seq<RwEvent>,
    i: int,
    j: int,
)
    requires
        is_history(worlds, events),
        0 <= i <= j < worlds.len(),
        decode(worlds[i].word()).writer_parked,
        worlds[i].shared > 0,
        forall|k: int| i <= k < j ==> !(#[trigger] events[k] is UnparkWriter),
    ensures
        decode(worlds[j].word()).writer_parked,
        worlds[j].shared == 0 ==> exists|k: int|
            i <= k < j && wakes_writer(worlds[k], #[trigger] events[k]),
    decreases j - i,
{
    if i < j {
        law_last_reader_wakes_writer(worlds, events, i, j - 1);
        let world = worlds[j - 1];
        let event = events[j - 1];
        law_lock_stays_valid(worlds, events, j - 1);
        assert(world.admits(event) && world.leads_to(event, worlds[j]));
        match event {
            RwEvent::Resume(thread, Reply::Exchanged) => {
                assert(world.writer_ok(thread));
                lemma_decode_flags(world.word());
            },
            _ => {},
        }
        if worlds[j].shared == 0 {
            if world.shared == 0 {
                let k = choose|k: int|
                    i <= k < j - 1 && wakes_writer(worlds[k], #[trigger] events[k]);
                assert(wakes_writer(worlds[k], events[k]));
            } else {
                assert(wakes_writer(world, events[j - 1]));
            }
        }
    }
}

/// Readers wait behind a writer: once the writer bit is set, it stays set, no reader
/// can take the lock, and the readers only get fewer.
pub proof fn law_readers_wait_for_writer(
    worlds: Seq<World>,
    events: Seq<RwEvent>,
    i: int,
    j: int,
)
    requires
        is_history(worlds, events),
        0 <= i <= j < worlds.len(),
        decode(worlds[i].word()).writer,
    ensures
        decode(worlds[j].word()).writer,
        !worlds[j].admits(RwEvent::LockShared),
        worlds[j].shared <= worlds[i].shared,
        SharedStep::after(worlds[j].word()) is Blocked,
    decreases j - i,
{
    if i < j {
        law_readers_wait_for_writer(worlds, events, i, j - 1);
        let world = worlds[j - 1];
        law_lock_stays_valid(worlds, events, j - 1);
        assert(world.admits(events[j - 1]) && world.leads_to(events[j - 1], worlds[j]));
        match events[j - 1] {
            RwEvent::Resume(thread, Reply::Exchanged) => {
                assert(world.writer_ok(thread));
                lemma_decode_flags(world.word());
            },
            _ => {},
        }
    }
}

/// No thread but this one wants the lock for itself, or has it.
pub open spec fn alone(world: World, thread: int) -> bool {
    forall|other: int| #[trigger] world.writers.contains_key(other) ==> other == thread
}

/// A thread that takes the lock for itself while no other thread wants that leaves
/// the parked bit as it found it.
pub proof fn law_alone_keeps_parked_bit(
    worlds: Seq<World>,
    events: Seq<RwEvent>,
    i: int,
    j: int,
    thread: int,
)
    requires
        is_history(worlds, events),
        0 <= i <= j < worlds.len(),
        forall|k: int| i <= k <= j ==> alone(#[trigger] worlds[k], thread),
    ensures
        decode(worlds[j].word()).parked == decode(worlds[i].word()).parked,
    decreases j - i,
{
    if i < j {
        law_alone_keeps_parked_bit(worlds, events, i, j - 1, thread);
        let world = worlds[j - 1];
        law_lock_stays_valid(worlds, events, j - 1);
        assert(alone(worlds[j - 1], thread));
        assert(world.admits(events[j - 1]) && world.leads_to(events[j - 1], worlds[j]));
        match events[j - 1] {
            RwEvent::Resume(other, Reply::Exchanged) => {
                assert(world.writer_ok(other));
                lemma_decode_flags(world.word());
                let n = world.words.len() as int;
                if world.owner is None {
                    assert(!decode(world.words[n - 1]).writer);
                } else {
                    assert(world.writers.contains_key((world.owner->0).0));
                }
            },
            _ => {},
        }
    }
}

/// The reply tells of the newest word, and an exchange is refused only for a
/// reason.
pub open spec fn is_fresh(world: World, thread: int, reply: Reply) -> bool {
    match reply {
        Reply::Loaded(state) => state == world.word(),
        Reply::Changed(state) => state == world.word()
            && (world.writers[thread].step matches Step::Exchange { current, .. } && current
            != world.word()),
        _ => true,
    }
}

/// How many fresh replies the thread needs at most until it holds the lock, when no
/// reader is left and no other thread wants the lock for itself.
pub open spec fn replies_needed(world: World, thread: int) -> nat {
    let writer = world.writers[thread];
    match (writer.goal, writer.step) {
        (_, Step::Acquired) => 0,
        (Goal::Readers, Step::Load) => 1,
        (Goal::Readers, Step::Exchange { .. }) => 3,
        (Goal::Readers, _) => 2,
        (Goal::WriterBit, Step::Exchange { current, .. }) => if current == world.word() {
            4
        } else {
            5
        },
        (Goal::WriterBit, Step::Load) => 6,
        (Goal::WriterBit, _) => 7,
    }
}

/// How often the parked writer is taken out of the secondary queue.
pub open spec fn unparks(events: Seq<RwEvent>, i: int, j: int) -> nat
    decreases j - i,
{
    if i >= j {
        0
    } else {
        unparks(events, i, j - 1) + (if events[j - 1] is UnparkWriter {
            1nat
        } else {
            0
        })
    }
}

/// A thread that takes the lock for itself gets it once the readers have left: from
/// when no reader is left and no other thread wants the lock for itself, each fresh
/// reply brings the thread nearer, it needs no more than seven of them and one for
/// each time that the writer is taken out of the secondary queue, and until it holds
/// the lock there is one that it can get.
pub proof fn law_alone_acquires(
    worlds: Seq<World>,
    events: Seq<RwEvent>,
    i: int,
    j: int,
    thread: int,
)
    requires
        is_history(worlds, events),
        0 <= i <= j < worlds.len(),
        worlds[i].writers.contains_key(thread),
        alone(worlds[i], thread),
        worlds[i].shared == 0,
        forall|k: int|
            i <= k < j ==> (#[trigger] events[k] is UnparkWriter || (
            events[k] matches RwEvent::Resume(_, reply) && is_fresh(worlds[k], thread, reply))),
    ensures
        ({
            let unparks = unparks(events, i, j);
            let replies = j - i - unparks;
            replies_needed(worlds[j], thread) + replies <= 7 + unparks
        }),
        worlds[j].holds(thread) == (replies_needed(worlds[j], thread) == 0),
        worlds[j].holds(thread) || exists|reply: Reply|
            #![trigger is_fresh(worlds[j], thread, reply)]
            is_fresh(worlds[j], thread, reply) && worlds[j].admits(RwEvent::Resume(thread, reply)),
        worlds[j].writers.contains_key(thread),
        alone(worlds[j], thread),
        worlds[j].shared == 0,
    decreases j - i,
{
    law_lock_stays_valid(worlds, events, j);
    if i < j {
        law_alone_acquires(worlds, events, i, j - 1, thread);
        law_lock_stays_valid(worlds, events, j - 1);
        assert(worlds[j - 1].admits(events[j - 1]) && worlds[j - 1].leads_to(
            events[j - 1],
            worlds[j],
        ));
        if !(events[j - 1] is UnparkWriter) {
            assert(events[j - 1] matches RwEvent::Resume(_, reply) && is_fresh(
                worlds[j - 1],
                thread,
                reply,
            ));
            lemma_fresh_reply_helps(worlds[j - 1], events[j - 1]->Resume_1, worlds[j], thread);
        }
    }
    lemma_fresh_reply_exists(worlds[j], thread);
}

proof fn lemma_fresh_reply_helps(world: World, reply: Reply, next: World, thread: int)
    requires
        world.valid(),
        world.writers.contains_key(thread),
        alone(world, thread),
        world.shared == 0,
        world.admits(RwEvent::Resume(thread, reply)),
        world.leads_to(RwEvent::Resume(thread, reply), next),
        is_fresh(world, thread, reply),
    ensures
        replies_needed(next, thread) < replies_needed(world, thread),
        next.writers.contains_key(thread),
        alone(next, thread),
        next.shared == 0,
{
    let n = world.words.len() as int;
    assert(world.writer_ok(thread));
    if world.owner is None {
        assert(!decode(world.words[n - 1]).writer);
    } else {
        assert(world.writers.contains_key((world.owner->0).0));
    }
    assert(next.writers[thread] == world.writers[thread].next(reply));
}

proof fn lemma_fresh_reply_exists(world: World, thread: int)
    requires
        world.valid(),
        world.writers.contains_key(thread),
    ensures
        world.holds(thread) || exists|reply: Reply|
            #![trigger is_fresh(world, thread, reply)]
            is_fresh(world, thread, reply) && world.admits(RwEvent::Resume(thread, reply)),
{
    assert(world.writer_ok(thread));
    let place = world.words.len() - 1;
    assert(world.can_find(thread, place));
    match world.writers[thread].step {
        Step::Load => {
            let reply = Reply::Loaded(world.word());
            assert(is_fresh(world, thread, reply) && world.admits(RwEvent::Resume(thread, reply)));
        },
        Step::Exchange { current, .. } => {
            let reply = if current == world.word() {
                Reply::Exchanged
            } else {
                Reply::Changed(world.word())
            };
            assert(is_fresh(world, thread, reply) && world.admits(RwEvent::Resume(thread, reply)));
        },
        Step::Park | Step::ParkWriter => {
            let reply = Reply::Unparked(TOKEN_NORMAL);
            assert(is_fresh(world, thread, reply) && world.admits(RwEvent::Resume(thread, reply)));
        },
        _ => {},
    }
}

} // verus!
