//! A reader-writer lock without a writer's unlock, packed into one word.
//!
//! The lock uses two wait queues. The primary queue is for all new waiting
//! threads, and the secondary queue is for the thread that has taken the writer
//! bit but waits for the remaining readers to leave.
//!
//! Readers wait while a writer holds the lock or waits for it, so that a writer is
//! not starved.
//!
//! [`RawRwLock`] is the word: each of its functions is what one atomic operation
//! does to it. [`ExclusiveWaiter`] decides what a thread that wants the lock for
//! itself does next; loads and exchanges of the word and the queues are left to
//! the caller, who hands their outcomes back.

use parking_lot_core::SpinWait;
use vstd::prelude::*;

verus! {

/// Unpark token: try to lock again.
pub const TOKEN_NORMAL: usize = 0;

/// Unpark token: the lock is handed over without being unlocked.
pub const TOKEN_HANDOFF: usize = 1;

/// There is at least one thread in the primary queue.
pub const PARKED_BIT: usize = 0b0001;

/// There is a parked thread holding `WRITER_BIT`. `WRITER_BIT` must be set.
pub const WRITER_PARKED_BIT: usize = 0b0010;

/// If the reader count is zero: a writer is currently holding an exclusive lock.
/// Otherwise: a writer is waiting for the remaining readers to leave.
pub const WRITER_BIT: usize = 0b100;

/// Mask of bits used to count readers.
pub const READERS_MASK: usize = !0b111;

/// Base unit for counting readers.
pub const ONE_READER: usize = 0b1000;

/// Park token: the thread wants the lock for itself.
pub const TOKEN_EXCLUSIVE: usize = WRITER_BIT;

/// The spins that a [`SpinWait`] grants before it asks to park.
pub const SPIN_LIMIT: u32 = 10;

/// The word of a lock, as the contracts speak of it.
pub struct RwWord {
    /// The number of readers that hold the lock.
    pub readers: nat,
    /// A writer holds the lock, or waits for the readers to leave.
    pub writer: bool,
    /// The writer is parked in the secondary queue.
    pub writer_parked: bool,
    /// Threads are parked in the primary queue.
    pub parked: bool,
}

impl RwWord {
    /// One reader more can be counted.
    pub open spec fn room(self) -> bool {
        self.readers < usize::MAX / 8
    }

    /// One reader more.
    pub open spec fn with_reader(self) -> Self {
        RwWord { readers: self.readers + 1, ..self }
    }

    /// One reader less.
    pub open spec fn without_reader(self) -> Self {
        RwWord { readers: (self.readers - 1) as nat, ..self }
    }

    /// The reader that leaves is the last one, and a writer sleeps until then.
    pub open spec fn last_reader_wakes(self) -> bool {
        self.readers == 1 && self.writer_parked
    }

    /// The writer bit taken.
    pub open spec fn with_writer(self) -> Self {
        RwWord { writer: true, ..self }
    }

    /// No writer in the secondary queue.
    pub open spec fn without_parked_writer(self) -> Self {
        RwWord { writer_parked: false, ..self }
    }
}

/// What a word means.
pub open spec fn decode(state: usize) -> RwWord {
    RwWord {
        readers: (state / 8) as nat,
        writer: state & WRITER_BIT != 0,
        writer_parked: state & WRITER_PARKED_BIT != 0,
        parked: state & PARKED_BIT != 0,
    }
}

/// A word without readers and flags.
pub open spec fn unlocked() -> RwWord {
    RwWord { readers: 0, writer: false, writer_parked: false, parked: false }
}

/// The zero word is the unlocked one, and no other is.
pub(crate) proof fn lemma_decode_zero(state: usize)
    ensures
        decode(state) == unlocked() <==> state == 0,
        (state & READERS_MASK != 0) == (decode(state).readers != 0),
{
    assert(state / 8 == 0 && state & WRITER_BIT == 0 && state & WRITER_PARKED_BIT == 0 && state
        & PARKED_BIT == 0 <==> state == 0) by (bit_vector);
    assert((state & READERS_MASK != 0) == (state / 8 != 0)) by (bit_vector);
}

/// Setting or clearing one flag leaves the rest of the word as it is.
pub(crate) proof fn lemma_decode_flags(state: usize)
    ensures
        decode(state | WRITER_BIT) == decode(state).with_writer(),
        decode(state | PARKED_BIT) == (RwWord { parked: true, ..decode(state) }),
        decode(state | WRITER_PARKED_BIT) == (RwWord { writer_parked: true, ..decode(state) }),
        decode(state & !WRITER_PARKED_BIT) == decode(state).without_parked_writer(),
{
    let w = state | WRITER_BIT;
    assert(w / 8 == state / 8 && w & WRITER_BIT != 0 && w & WRITER_PARKED_BIT == state
        & WRITER_PARKED_BIT && w & PARKED_BIT == state & PARKED_BIT) by (bit_vector)
        requires
            w == state | WRITER_BIT,
    ;
    let p = state | PARKED_BIT;
    assert(p / 8 == state / 8 && p & WRITER_BIT == state & WRITER_BIT && p & WRITER_PARKED_BIT
        == state & WRITER_PARKED_BIT && p & PARKED_BIT != 0) by (bit_vector)
        requires
            p == state | PARKED_BIT,
    ;
    let q = state | WRITER_PARKED_BIT;
    assert(q / 8 == state / 8 && q & WRITER_BIT == state & WRITER_BIT && q & WRITER_PARKED_BIT != 0
        && q & PARKED_BIT == state & PARKED_BIT) by (bit_vector)
        requires
            q == state | WRITER_PARKED_BIT,
    ;
    let c = state & !WRITER_PARKED_BIT;
    assert(c / 8 == state / 8 && c & WRITER_BIT == state & WRITER_BIT && c & WRITER_PARKED_BIT == 0
        && c & PARKED_BIT == state & PARKED_BIT) by (bit_vector)
        requires
            c == state & !WRITER_PARKED_BIT,
    ;
}

/// Adding a reader leaves the flags as they are.
pub(crate) proof fn lemma_decode_readers(state: usize)
    requires
        state + ONE_READER <= usize::MAX,
    ensures
        decode((state + ONE_READER) as usize) == decode(state).with_reader(),
{
    let next = (state + ONE_READER) as usize;
    assert(next & WRITER_BIT == state & WRITER_BIT && next & WRITER_PARKED_BIT == state
        & WRITER_PARKED_BIT && next & PARKED_BIT == state & PARKED_BIT) by (bit_vector)
        requires
            next == state + ONE_READER,
    ;
}

/// A word is known by what it means.
pub proof fn law_words_differ_in_meaning(one: usize, other: usize)
    requires
        decode(one) == decode(other),
    ensures
        one == other,
{
    assert(one / 8 == other / 8 && (one & WRITER_BIT != 0) == (other & WRITER_BIT != 0) && (one
        & WRITER_PARKED_BIT != 0) == (other & WRITER_PARKED_BIT != 0) && (one & PARKED_BIT != 0)
        == (other & PARKED_BIT != 0) ==> one == other) by (bit_vector);
}

/// Raw reader-writer lock type: the word that it is packed into.
pub struct RawRwLock {
    state: usize,
}

impl View for RawRwLock {
    type V = RwWord;

    closed spec fn view(&self) -> RwWord {
        decode(self.state)
    }
}

impl RawRwLock {
    /// An unlocked lock.
    pub fn new() -> (lock: Self)
        ensures
            lock@ == unlocked(),
    {
        proof {
            lemma_decode_zero(0);
        }
        RawRwLock { state: 0 }
    }

    /// The lock whose word is `state`.
    pub fn from_bits(state: usize) -> (lock: Self)
        ensures
            lock@ == decode(state),
    {
        RawRwLock { state }
    }

    /// The word of the lock.
    pub fn bits(&self) -> (state: usize)
        ensures
            decode(state) == self@,
    {
        self.state
    }

    /// Takes the lock for a writer at once, if nobody uses or awaits it.
    /// Otherwise nothing changes, and the thread gets the lock by doing what the
    /// waiter that comes back says, until it says that the lock is acquired.
    pub fn lock_exclusive(&mut self) -> (waiter: Option<ExclusiveWaiter>)
        ensures
            waiter is None == (old(self)@ == unlocked()),
            waiter matches Some(slow) ==> slow@ == WaiterView::start(),
            final(self)@ == (if waiter is None {
                old(self)@.with_writer()
            } else {
                old(self)@
            }),
    {
        if self.try_lock_exclusive() {
            None
        } else {
            Some(ExclusiveWaiter::new())
        }
    }

    /// Takes the lock for a writer, if nobody uses or awaits it.
    pub fn try_lock_exclusive(&mut self) -> (locked: bool)
        ensures
            locked == (old(self)@ == unlocked()),
            final(self)@ == (if locked {
                old(self)@.with_writer()
            } else {
                old(self)@
            }),
    {
        proof {
            lemma_decode_zero(self.state);
            lemma_decode_flags(self.state);
            assert(0usize | WRITER_BIT == WRITER_BIT) by (bit_vector);
        }
        if self.state == 0 {
            self.state = WRITER_BIT;
            true
        } else {
            false
        }
    }

    /// Whether a writer holds the lock or waits for the readers to leave.
    pub fn has_writer(&self) -> (writer: bool)
        ensures
            writer == self@.writer,
    {
        self.state & WRITER_BIT != 0
    }

    /// Whether one reader more can be counted.
    pub fn has_room(&self) -> (room: bool)
        ensures
            room == self@.room(),
            room == (8 * (self@.readers + 1) <= usize::MAX),
    {
        self.state.checked_add(ONE_READER).is_some()
    }

    /// Takes the lock for one reader more, unless a writer holds the lock or waits
    /// for it. In that case nothing changes, and the reader waits and tries again,
    /// so that readers do not starve a writer.
    pub fn lock_shared(&mut self) -> (locked: bool)
        requires
            old(self)@.writer || old(self)@.room(),
        ensures
            locked == !old(self)@.writer,
            final(self)@ == (if locked {
                old(self)@.with_reader()
            } else {
                old(self)@
            }),
    {
        if self.has_writer() {
            return false;
        }
        proof {
            lemma_decode_readers(self.state);
        }
        self.state = self.state + ONE_READER;
        true
    }

    /// What a thread that wants the lock as a reader does once it has found the
    /// word `state`.
    pub fn lock_shared_step(state: usize) -> (step: SharedStep)
        ensures
            step == SharedStep::after(state),
            step is Blocked == (state & WRITER_BIT != 0),
            step is Full == (state & WRITER_BIT == 0 && state + ONE_READER > usize::MAX),
            step matches SharedStep::Exchange { current, new } ==> current == state && new == state
                + ONE_READER,
    {
        if state & WRITER_BIT != 0 {
            return SharedStep::Blocked;
        }
        match state.checked_add(ONE_READER) {
            Some(new) => SharedStep::Exchange { current: state, new },
            None => SharedStep::Full,
        }
    }

    /// Gives the lock back for one reader. Says whether this was the last one
    /// and a writer sleeps until then, so that
    /// [`unlock_shared_slow`](Self::unlock_shared_slow) has to follow.
    pub fn unlock_shared(&mut self) -> (wake_writer: bool)
        requires
            old(self)@.readers > 0,
        ensures
            final(self)@ == old(self)@.without_reader(),
            wake_writer == old(self)@.last_reader_wakes(),
    {
        let state: usize = self.state;
        proof {
            lemma_decode_readers((state - ONE_READER) as usize);
            assert((state & (READERS_MASK | WRITER_PARKED_BIT) == (ONE_READER | WRITER_PARKED_BIT))
                == (state / 8 == 1 && state & WRITER_PARKED_BIT != 0)) by (bit_vector);
        }
        self.state = state - ONE_READER;
        state & (READERS_MASK | WRITER_PARKED_BIT) == (ONE_READER | WRITER_PARKED_BIT)
    }

    /// What happens to the word when the writer is taken out of the secondary
    /// queue: its flag is cleared, since there can only be one parked writer.
    /// The writer is handed the token that comes back.
    pub fn unlock_shared_slow(&mut self) -> (token: usize)
        ensures
            final(self)@ == old(self)@.without_parked_writer(),
            token == TOKEN_NORMAL,
    {
        proof {
            lemma_decode_flags(self.state);
        }
        self.state = self.state & !WRITER_PARKED_BIT;
        TOKEN_NORMAL
    }

    /// Whether a thread that wants the lock for itself may still park in the
    /// primary queue: the word says that somebody is parked there, and the
    /// writer bit is taken.
    pub fn may_park(&self) -> (may: bool)
        ensures
            may == (self@.parked && self@.writer),
    {
        self.state & PARKED_BIT != 0 && self.state & WRITER_BIT != 0
    }

    /// Whether the writer may still park in the secondary queue: readers are
    /// left, and the word says that the writer is parked.
    pub fn may_park_writer(&self) -> (may: bool)
        ensures
            may == (self@.readers > 0 && self@.writer_parked),
    {
        proof {
            lemma_decode_zero(self.state);
        }
        self.state & READERS_MASK != 0 && self.state & WRITER_PARKED_BIT != 0
    }
}

/// Declares `parking_lot_core::SpinWait`, a counter that is seen through `spins`.
#[verifier::external_type_specification]
#[verifier::external_body]
pub struct ExSpinWait(SpinWait);

/// The count of a `SpinWait`: the spins that it has granted since it was made or
/// reset.
pub uninterp spec fn spins(spinwait: SpinWait) -> nat;

/// Calls `SpinWait::new`, which starts at zero.
#[verifier::external_body]
fn spin_new() -> (spinwait: SpinWait)
    ensures
        spins(spinwait) == 0,
{
    SpinWait::new()
}

/// Calls `SpinWait::reset`, which goes back to zero.
#[verifier::external_body]
fn spin_reset(spinwait: &mut SpinWait)
    ensures
        spins(*final(spinwait)) == 0,
{
    spinwait.reset()
}

/// Calls `SpinWait::spin`, which wastes some time and counts the spin, until
/// `SPIN_LIMIT` spins have been granted; then it refuses and does nothing.
#[verifier::external_body]
fn spin(spinwait: &mut SpinWait) -> (spun: bool)
    ensures
        spun == (spins(*old(spinwait)) < SPIN_LIMIT),
        spins(*final(spinwait)) == spins(*old(spinwait)) + (if spun {
            1nat
        } else {
            0
        }),
{
    spinwait.spin()
}

/// What a thread that wants the lock as a reader does next.
#[derive(Clone, Copy, Debug, PartialEq, Eq, Structural)]
pub enum SharedStep {
    /// Wait, since a writer holds the lock or waits for it, and load the word
    /// again.
    Blocked,
    /// Give up: no more readers can be counted.
    Full,
    /// Replace the word by `new` if it is `current`, which takes the lock. If it is
    /// not, go by the word that it is.
    Exchange {
        /// The word that is expected.
        current: usize,
        /// The word to put in its place.
        new: usize,
    },
}

impl SharedStep {
    /// What a reader does once it has found the word `state`.
    pub open spec fn after(state: usize) -> Self {
        if decode(state).writer {
            SharedStep::Blocked
        } else if !decode(state).room() {
            SharedStep::Full
        } else {
            SharedStep::Exchange { current: state, new: (state + ONE_READER) as usize }
        }
    }
}

/// A reader goes by what the word means: it waits exactly if the writer bit is set,
/// gives up exactly if the bit is not set and no reader more can be counted, and
/// otherwise puts a word in place of the one that it has found that means the same
/// with one reader more.
pub proof fn law_shared_step_adds_reader(state: usize)
    ensures
        match SharedStep::after(state) {
            SharedStep::Blocked => decode(state).writer,
            SharedStep::Full => !decode(state).writer && !decode(state).room(),
            SharedStep::Exchange { current, new } => {
                &&& !decode(state).writer
                &&& decode(state).room()
                &&& current == state
                &&& decode(new) == decode(state).with_reader()
            },
        },
{
    if decode(state).room() {
        lemma_decode_readers(state);
    }
}

/// What a thread that wants the lock for itself does next.
#[derive(Clone, Copy, Debug, PartialEq, Eq, Structural)]
pub enum Step {
    /// Load the word, and reply [`Reply::Loaded`].
    Load,
    /// Replace the word by `new` if it is `current`. Reply [`Reply::Exchanged`]
    /// if that was done, and [`Reply::Changed`] if not, which may also happen
    /// without a reason.
    Exchange {
        /// The word that is expected.
        current: usize,
        /// The word to put in its place.
        new: usize,
    },
    /// Park in the primary queue with [`TOKEN_EXCLUSIVE`], provided that
    /// [`RawRwLock::may_park`] still holds of the word. Reply
    /// [`Reply::Unparked`], [`Reply::Invalid`] or [`Reply::TimedOut`].
    Park,
    /// Park in the secondary queue with [`TOKEN_EXCLUSIVE`], provided that
    /// [`RawRwLock::may_park_writer`] still holds of the word. Reply as for the
    /// primary queue.
    ParkWriter,
    /// Nothing: the lock is held.
    Acquired,
    /// Abort the process: there is no timeout that could have expired.
    Abort,
}

/// What came of a [`Step`].
#[derive(Clone, Copy, Debug, PartialEq, Eq, Structural)]
pub enum Reply {
    /// The word that was loaded.
    Loaded(usize),
    /// The word was exchanged.
    Exchanged,
    /// The word was not exchanged; this is what it was.
    Changed(usize),
    /// The thread was unparked with this token.
    Unparked(usize),
    /// The thread was not parked, since the word had changed.
    Invalid,
    /// The thread was parked until a timeout.
    TimedOut,
}

/// How far a thread that wants the lock for itself has come.
#[derive(Clone, Copy, Debug, PartialEq, Eq, Structural)]
pub enum Goal {
    /// It tries to take the writer bit.
    WriterBit,
    /// It has taken the writer bit and waits for the readers to leave.
    Readers,
}

/// A thread that wants the lock for itself, as the contracts speak of it.
pub struct WaiterView {
    /// How far it has come.
    pub goal: Goal,
    /// The spins that it has been granted since it last began to spin.
    pub spins: nat,
    /// What it does next.
    pub step: Step,
}

impl WaiterView {
    /// A thread that has not looked at the word yet.
    pub open spec fn start() -> Self {
        WaiterView { goal: Goal::WriterBit, spins: 0, step: Step::Load }
    }

    /// The thread has taken the writer bit.
    pub open spec fn waits_for_readers() -> Self {
        WaiterView { goal: Goal::Readers, spins: 0, step: Step::Load }
    }

    /// The reply is one that the step can have.
    pub open spec fn expects(self, reply: Reply) -> bool {
        match self.step {
            Step::Load => reply is Loaded,
            Step::Exchange { .. } => reply is Exchanged || reply is Changed,
            Step::Park | Step::ParkWriter => reply is Unparked || reply is Invalid
                || reply is TimedOut,
            Step::Acquired | Step::Abort => false,
        }
    }

    /// The thread may spin once more.
    pub open spec fn may_spin(self) -> bool {
        self.spins < SPIN_LIMIT
    }

    /// The thread spins once and looks again.
    pub open spec fn spun(self) -> Self {
        WaiterView { spins: self.spins + 1, step: Step::Load, ..self }
    }

    /// The same thread with something else to do.
    pub open spec fn does(self, step: Step) -> Self {
        WaiterView { step, ..self }
    }

    /// A thread without the writer bit has seen `state`: it takes the bit if
    /// that is free, else spins while nobody is parked, and else parks, once the
    /// word says that somebody is parked.
    pub open spec fn saw(self, state: usize) -> Self {
        let word = decode(state);
        if !word.writer {
            self.does(Step::Exchange { current: state, new: state | WRITER_BIT })
        } else if !word.parked && !word.writer_parked && self.may_spin() {
            self.spun()
        } else if !word.parked {
            self.does(Step::Exchange { current: state, new: state | PARKED_BIT })
        } else {
            self.does(Step::Park)
        }
    }

    /// A thread with the writer bit has seen `state`: it has the lock once no
    /// reader is left, else spins, and else parks, once the word says that the
    /// writer is parked.
    pub open spec fn saw_readers(self, state: usize) -> Self {
        let word = decode(state);
        if word.readers == 0 {
            self.does(Step::Acquired)
        } else if self.may_spin() {
            self.spun()
        } else if !word.writer_parked {
            self.does(Step::Exchange { current: state, new: state | WRITER_PARKED_BIT })
        } else {
            self.does(Step::ParkWriter)
        }
    }

    /// The thread after the reply to its step.
    pub open spec fn next(self, reply: Reply) -> Self {
        match (self.goal, reply) {
            (Goal::WriterBit, Reply::Loaded(state)) => self.saw(state),
            (Goal::WriterBit, Reply::Changed(state)) => self.saw(state),
            (Goal::WriterBit, Reply::Exchanged) => if self.step matches Step::Exchange {
                current,
                ..
            } && !decode(current).writer {
                Self::waits_for_readers()
            } else {
                self.does(Step::Park)
            },
            (Goal::WriterBit, Reply::Unparked(token)) => if token == TOKEN_HANDOFF {
                Self::waits_for_readers()
            } else {
                Self::start()
            },
            (Goal::WriterBit, Reply::Invalid) => Self::start(),
            (Goal::Readers, Reply::Loaded(state)) => self.saw_readers(state),
            (Goal::Readers, Reply::Changed(state)) => self.saw_readers(state),
            (Goal::Readers, Reply::Exchanged) => self.does(Step::ParkWriter),
            (Goal::Readers, Reply::Unparked(_)) => self.does(Step::Load),
            (Goal::Readers, Reply::Invalid) => self.does(Step::Load),
            (_, Reply::TimedOut) => self.does(Step::Abort),
        }
    }
}

/// Decides what a thread that wants the lock for itself does next.
pub struct ExclusiveWaiter {
    goal: Goal,
    spinwait: SpinWait,
    step: Step,
}

impl View for ExclusiveWaiter {
    type V = WaiterView;

    closed spec fn view(&self) -> WaiterView {
        WaiterView { goal: self.goal, spins: spins(self.spinwait), step: self.step }
    }
}

impl ExclusiveWaiter {
    /// A thread that has not looked at the word yet.
    pub fn new() -> (waiter: Self)
        ensures
            waiter@ == WaiterView::start(),
    {
        ExclusiveWaiter { goal: Goal::WriterBit, spinwait: spin_new(), step: Step::Load }
    }

    /// What the thread does next.
    pub fn step(&self) -> (step: Step)
        ensures
            step == self@.step,
    {
        self.step
    }

    /// Goes on after the step has been done.
    pub fn resume(&mut self, reply: Reply)
        requires
            old(self)@.expects(reply),
        ensures
            final(self)@ == old(self)@.next(reply),
    {
        match self.goal {
            Goal::WriterBit => self.lock_exclusive_slow(reply),
            Goal::Readers => self.wait_for_readers(reply),
        }
    }

    /// Grabs exclusive ownership of the writer bit.
    fn lock_exclusive_slow(&mut self, reply: Reply)
        requires
            old(self)@.goal is WriterBit,
            old(self)@.expects(reply),
        ensures
            final(self)@ == old(self)@.next(reply),
    {
        let state: usize = match reply {
            Reply::Loaded(state) => state,
            Reply::Changed(state) => state,
            Reply::Exchanged => {
                let grabbed = match self.step {
                    Step::Exchange { current, .. } => current & WRITER_BIT == 0,
                    _ => false,
                };
                if grabbed {
                    self.start_waiting_for_readers();
                } else {
                    self.step = Step::Park;
                }
                return;
            },
            // The thread that unparked us passed the lock on to us directly
            // without unlocking it.
            Reply::Unparked(TOKEN_HANDOFF) => {
                self.start_waiting_for_readers();
                return;
            },
            // Loop back and try locking again.
            Reply::Unparked(_) | Reply::Invalid => {
                spin_reset(&mut self.spinwait);
                self.step = Step::Load;
                return;
            },
            Reply::TimedOut => {
                self.step = Step::Abort;
                return;
            },
        };
        proof {
            assert((state & (PARKED_BIT | WRITER_PARKED_BIT) == 0) == (state & PARKED_BIT == 0
                && state & WRITER_PARKED_BIT == 0)) by (bit_vector);
        }
        // Grab the writer bit if it isn't set, even if there are parked threads.
        if state & WRITER_BIT == 0 {
            self.step = Step::Exchange { current: state, new: state | WRITER_BIT };
            return;
        }
        // If there are no parked threads, try spinning a few times.
        if state & (PARKED_BIT | WRITER_PARKED_BIT) == 0 && spin(&mut self.spinwait) {
            self.step = Step::Load;
            return;
        }
        // Set the parked bit, and park until woken up by an unlock.
        if state & PARKED_BIT == 0 {
            self.step = Step::Exchange { current: state, new: state | PARKED_BIT };
        } else {
            self.step = Step::Park;
        }
    }

    /// The writer bit has been taken, and the readers have to leave.
    fn start_waiting_for_readers(&mut self)
        ensures
            final(self)@ == WaiterView::waits_for_readers(),
    {
        self.goal = Goal::Readers;
        self.spinwait = spin_new();
        self.step = Step::Load;
    }

    /// Waits for readers to leave after the writer bit has been taken.
    fn wait_for_readers(&mut self, reply: Reply)
        requires
            old(self)@.goal is Readers,
            old(self)@.expects(reply),
        ensures
            final(self)@ == old(self)@.next(reply),
    {
        let state: usize = match reply {
            Reply::Loaded(state) => state,
            Reply::Changed(state) => state,
            Reply::Exchanged => {
                self.step = Step::ParkWriter;
                return;
            },
            // The word has to be checked again even so.
            Reply::Unparked(_) | Reply::Invalid => {
                self.step = Step::Load;
                return;
            },
            Reply::TimedOut => {
                self.step = Step::Abort;
                return;
            },
        };
        proof {
            lemma_decode_zero(state);
        }
        if state & READERS_MASK == 0 {
            self.step = Step::Acquired;
            return;
        }
        // Spin a few times to wait for readers to leave.
        if spin(&mut self.spinwait) {
            self.step = Step::Load;
            return;
        }
        // Set the parked bit, and park until woken up by an unlock.
        if state & WRITER_PARKED_BIT == 0 {
            self.step = Step::Exchange { current: state, new: state | WRITER_PARKED_BIT };
        } else {
            self.step = Step::ParkWriter;
        }
    }
}

} // verus!
