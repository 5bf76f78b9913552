//! What an operation comes to when it is run one access at a time.
//!
//! In an interleaved run, the other half may make any of its steps between two
//! accesses, and the wakers that are due may be handed out. In a run that
//! nothing interrupts, the accesses add up to the whole operation.

use crate::atomic_waker::Registration;
use crate::atomic_waker::WakerState;
use crate::atomic_waker::Waking;
use crate::consumer::TryRecvError;
use crate::parking::Leave;
use crate::parking::Readiness;
use crate::producer::TrySendError;
use crate::read_steps::HandBack;
use crate::read_steps::Pop;
use crate::read_steps::ReadPoll;
use crate::state::consumer_step;
use crate::state::producer_step;
use crate::state::State;
use crate::write_steps::Publish;
use crate::write_steps::Push;
use crate::write_steps::WritePoll;
use std::task::Waker;
use vstd::prelude::*;

verus! {

/// The other half of the producer, or whoever hands out wakers, does something.
pub open spec fn consumer_side<T>(pre: State<T>, post: State<T>) -> bool {
    consumer_step(pre, post) || post == pre.due_taken()
}

/// The other half of the consumer, or whoever hands out wakers, does something.
pub open spec fn producer_side<T>(pre: State<T>, post: State<T>) -> bool {
    producer_step(pre, post) || post == pre.due_taken()
}

/// The states of a channel during a push, and where the push stands in each.
/// `known` is what the producer takes to be free at each time.
pub struct PushRun<T> {
    pub states: Seq<State<T>>,
    pub ats: Seq<Push<T>>,
    pub known: Seq<int>,
}

impl<T> PushRun<T> {
    /// The push makes its access number `i` of the run.
    pub open spec fn moves(self, i: int) -> bool {
        &&& self.states[i].push_access(self.ats[i], self.states[i + 1])
        &&& self.ats[i + 1] == self.states[i].next_push(self.known[i], self.ats[i])
    }

    pub open spec fn goes_on(self, i: int) -> bool {
        ||| self.moves(i)
        ||| consumer_side(self.states[i], self.states[i + 1]) && self.ats[i + 1] == self.ats[i]
    }

    /// A push of `value` that has just begun, and what became of it.
    pub open spec fn is_run(self, value: T) -> bool {
        &&& self.states.len() > 0
        &&& self.ats.len() == self.states.len()
        &&& self.known.len() == self.states.len()
        &&& self.ats[0] == Push::Alive(value)
        &&& forall|i: int| 0 <= i < self.states.len() ==> (#[trigger] self.states[i]).valid()
        &&& forall|i: int|
            0 <= i < self.states.len() ==> 0 <= #[trigger] self.known[i] <= self.states[i].free()
        &&& forall|i: int| 0 <= i < self.states.len() - 1 ==> #[trigger] self.goes_on(i)
    }

    /// Nobody else does anything meanwhile.
    pub open spec fn is_alone(self) -> bool {
        forall|i: int| 0 <= i < self.states.len() - 1 ==> #[trigger] self.moves(i)
    }

    spec fn inv(self, value: T, i: int) -> bool {
        let start = self.states[0];
        let now = self.states[i];
        &&& start.freed <= now.freed
        &&& now.capacity == start.capacity
        &&& now.consumer_alive ==> start.consumer_alive
        &&& match self.ats[i] {
            Push::Alive(v) => v == value && now.sent == start.sent,
            Push::Read(v) => v == value && now.sent == start.sent && start.consumer_alive,
            Push::AliveAgain(v) => {
                &&& v == value
                &&& now.sent == start.sent
                &&& start.consumer_alive
                &&& start.free() == 0
            },
            Push::Stage(v) => {
                &&& v == value
                &&& now.sent == start.sent
                &&& start.consumer_alive
                &&& now.free() > 0
            },
            Push::Publish(Publish::Store(n)) => {
                &&& n == 1
                &&& now.sent == start.sent
                &&& start.consumer_alive
                &&& now.free() > 0
                &&& now.slot(now.sent.len() as int).staged() == Some(value)
            },
            Push::Publish(Publish::Signal(_)) => {
                &&& start.consumer_alive
                &&& now.sent == start.sent.push(value)
            },
            Push::Publish(Publish::Done) => false,
            Push::Done(Ok(())) => start.consumer_alive && now.sent == start.sent.push(value),
            Push::Done(Err(TrySendError::Full(v))) => {
                &&& v == value
                &&& now.sent == start.sent
                &&& start.consumer_alive
                &&& start.free() == 0
            },
            Push::Done(Err(TrySendError::Closed(v))) => {
                &&& v == value
                &&& now.sent == start.sent
                &&& !now.consumer_alive
            },
        }
    }

    proof fn lemma_inv(self, value: T, i: int)
        requires
            self.is_run(value),
            0 <= i < self.states.len(),
        ensures
            self.inv(value, i),
        decreases i,
    {
        if i > 0 {
            self.lemma_inv(value, i - 1);
            assert(self.goes_on(i - 1));
            let pre = self.states[i - 1];
            let post = self.states[i];
            assert(pre.valid() && post.valid());
            assert(0 <= self.known[i - 1] <= pre.free());
            if self.moves(i - 1) {
                if self.ats[i - 1] matches Push::Publish(Publish::Store(n)) {
                    assert(pre.staged(1) =~= seq![value]);
                    assert(post.sent =~= self.states[0].sent.push(value));
                }
            } else if consumer_step(pre, post) {
                if self.ats[i - 1] matches Push::Publish(Publish::Store(n)) {
                    assert(post.slot(pre.sent.len() as int) == pre.slot(pre.sent.len() as int));
                }
            }
        }
    }
}

/// Whatever the consumer does meanwhile, a push that succeeds has appended its
/// value to what was sent, once, and one that fails has appended nothing and
/// hands the value back. It fails as full only if there was no free slot when it
/// began, and as closed only if the consumer is gone. It does not succeed, nor
/// fail as full, if the consumer was gone when it began.
pub proof fn law_push_run<T>(run: PushRun<T>, value: T, i: int)
    requires
        run.is_run(value),
        0 <= i < run.states.len(),
    ensures
        ({
            let start = run.states[0];
            let now = run.states[i];
            match run.ats[i] {
                Push::Done(Ok(())) => start.consumer_alive && now.sent == start.sent.push(value),
                Push::Done(Err(TrySendError::Full(v))) => {
                    &&& v == value
                    &&& now.sent == start.sent
                    &&& start.consumer_alive
                    &&& start.sent.len() - start.freed == start.capacity
                },
                Push::Done(Err(TrySendError::Closed(v))) => {
                    &&& v == value
                    &&& now.sent == start.sent
                    &&& !now.consumer_alive
                },
                _ => now.sent == start.sent || now.sent == start.sent.push(value),
            }
        }),
{
    run.lemma_inv(value, i);
}

proof fn lemma_push_alone<T>(run: PushRun<T>, value: T, i: int)
    requires
        run.is_run(value),
        run.is_alone(),
        0 <= i < run.states.len(),
    ensures
        run.states[0].push_alone(value, run.ats[i], run.states[i]),
    decreases i,
{
    if i > 0 {
        lemma_push_alone(run, value, i - 1);
        assert(run.moves(i - 1));
        let pre = run.states[i - 1];
        assert(pre.valid());
        assert(run.states[i].valid());
        assert(0 <= run.known[i - 1] <= pre.free());
        if run.ats[i - 1] matches Push::Publish(Publish::Store(n)) {
            assert(pre.staged(1) =~= seq![value]);
        }
    }
}

/// The accesses of a push that nothing interrupts add up to this: it succeeds
/// exactly if the consumer is there and a slot is free, and then it has
/// published its value; otherwise nothing has changed.
pub proof fn law_push_adds_up<T>(run: PushRun<T>, value: T, i: int)
    requires
        run.is_run(value),
        run.is_alone(),
        0 <= i < run.states.len(),
        run.ats[i] is Done,
    ensures
        ({
            let start = run.states[0];
            let full = start.sent.len() - start.freed == start.capacity;
            let now = run.states[i];
            match run.ats[i]->Done_0 {
                Ok(()) => {
                    &&& start.consumer_alive
                    &&& !full
                    &&& start.published(seq![value], now)
                },
                Err(TrySendError::Full(v)) => {
                    &&& start.consumer_alive
                    &&& full
                    &&& v == value
                    &&& now == start
                },
                Err(TrySendError::Closed(v)) => {
                    &&& !start.consumer_alive
                    &&& v == value
                    &&& now == start
                },
            }
        }),
{
    lemma_push_alone(run, value, i);
}

/// The states of a channel during a publication, and where it stands in each.
pub struct PublishRun<T> {
    pub states: Seq<State<T>>,
    pub ats: Seq<Publish>,
}

impl<T> PublishRun<T> {
    pub open spec fn moves(self, i: int) -> bool {
        &&& self.states[i].publish_access(self.ats[i], self.states[i + 1])
        &&& self.ats[i + 1] == self.states[i].next_publish(self.ats[i])
    }

    pub open spec fn goes_on(self, i: int) -> bool {
        ||| self.moves(i)
        ||| consumer_side(self.states[i], self.states[i + 1]) && self.ats[i + 1] == self.ats[i]
    }

    /// A publication of `n` staged values that has just begun, and what became
    /// of it.
    pub open spec fn is_run(self, n: usize) -> bool {
        &&& self.states.len() > 0
        &&& self.ats.len() == self.states.len()
        &&& self.ats[0] == Publish::Store(n)
        &&& n <= self.states[0].free()
        &&& self.states[0].is_staged(n as int)
        &&& forall|i: int| 0 <= i < self.states.len() ==> (#[trigger] self.states[i]).valid()
        &&& forall|i: int| 0 <= i < self.states.len() - 1 ==> #[trigger] self.goes_on(i)
    }

    pub open spec fn is_alone(self) -> bool {
        forall|i: int| 0 <= i < self.states.len() - 1 ==> #[trigger] self.moves(i)
    }

    spec fn inv(self, n: usize, i: int) -> bool {
        let start = self.states[0];
        let now = self.states[i];
        match self.ats[i] {
            Publish::Store(m) => {
                &&& m == n
                &&& n <= now.free()
                &&& now.sent == start.sent
                &&& now.is_staged(n as int)
                &&& now.staged(n as int) == start.staged(n as int)
            },
            _ => now.sent == start.sent + start.staged(n as int),
        }
    }

    proof fn lemma_inv(self, n: usize, i: int)
        requires
            self.is_run(n),
            0 <= i < self.states.len(),
        ensures
            self.inv(n, i),
        decreases i,
    {
        if i > 0 {
            self.lemma_inv(n, i - 1);
            assert(self.goes_on(i - 1));
            let pre = self.states[i - 1];
            let post = self.states[i];
            assert(pre.valid() && post.valid());
            if !self.moves(i - 1) {
                if consumer_step(pre, post) {
                    if self.ats[i - 1] is Store {
                        crate::laws::law_consumer_keeps_staged(pre, post, n as int);
                    }
                } else {
                    assert forall|k: int| post.slot(k) == #[trigger] pre.slot(k) by {}
                    assert(post.staged(n as int) =~= pre.staged(n as int));
                }
            }
        }
    }
}

/// Whatever the consumer does meanwhile, a publication appends just the values
/// that were staged when it began, in order.
pub proof fn law_publish_run<T>(run: PublishRun<T>, n: usize, i: int)
    requires
        run.is_run(n),
        0 <= i < run.states.len(),
    ensures
        run.ats[i] is Store ==> run.states[i].sent == run.states[0].sent,
        !(run.ats[i] is Store) ==> run.states[i].sent == run.states[0].sent
            + run.states[0].staged(n as int),
{
    run.lemma_inv(n, i);
}

proof fn lemma_publish_alone<T>(run: PublishRun<T>, n: usize, i: int)
    requires
        run.is_run(n),
        run.is_alone(),
        0 <= i < run.states.len(),
    ensures
        run.states[0].publish_alone(n as int, run.ats[i], run.states[i]),
    decreases i,
{
    if i > 0 {
        lemma_publish_alone(run, n, i - 1);
        assert(run.moves(i - 1));
    }
}

/// The accesses of a publication that nothing interrupts, from the first to the
/// last, add up to the whole publication, however many values there are.
pub proof fn law_publish_adds_up<T>(run: PublishRun<T>, n: usize, i: int)
    requires
        run.is_run(n),
        run.is_alone(),
        0 <= i < run.states.len(),
        run.ats[i] is Done,
    ensures
        run.states[0].published(run.states[0].staged(n as int), run.states[i]),
{
    lemma_publish_alone(run, n, i);
}

/// The states of a channel during a return of emptied slots, and where it stands
/// in each.
pub struct HandBackRun<T> {
    pub states: Seq<State<T>>,
    pub ats: Seq<HandBack>,
}

impl<T> HandBackRun<T> {
    pub open spec fn moves(self, i: int) -> bool {
        &&& self.states[i + 1] == self.states[i].after_hand_back(self.ats[i])
        &&& self.ats[i + 1] == self.states[i].next_hand_back(self.ats[i])
    }

    pub open spec fn goes_on(self, i: int) -> bool {
        ||| self.moves(i)
        ||| producer_side(self.states[i], self.states[i + 1]) && self.ats[i + 1] == self.ats[i]
    }

    pub open spec fn is_run(self) -> bool {
        &&& self.states.len() > 0
        &&& self.ats.len() == self.states.len()
        &&& self.ats[0] is Store
        &&& forall|i: int| 0 <= i < self.states.len() - 1 ==> #[trigger] self.goes_on(i)
    }

    pub open spec fn is_alone(self) -> bool {
        forall|i: int| 0 <= i < self.states.len() - 1 ==> #[trigger] self.moves(i)
    }
}

/// Whatever the producer does meanwhile, handing slots back frees just those
/// that had been emptied when it began, and takes nothing more.
pub proof fn law_hand_back_run<T>(run: HandBackRun<T>, i: int)
    requires
        run.is_run(),
        0 <= i < run.states.len(),
    ensures
        run.states[i].taken == run.states[0].taken,
        run.ats[i] is Store ==> run.states[i].freed == run.states[0].freed,
        !(run.ats[i] is Store) ==> run.states[i].freed == run.states[0].taken,
    decreases i,
{
    if i > 0 {
        law_hand_back_run(run, i - 1);
        assert(run.goes_on(i - 1));
    }
}

proof fn lemma_hand_back_alone<T>(run: HandBackRun<T>, i: int)
    requires
        run.is_run(),
        run.is_alone(),
        0 <= i < run.states.len(),
    ensures
        run.states[0].hand_back_alone(run.ats[i], run.states[i]),
    decreases i,
{
    if i > 0 {
        lemma_hand_back_alone(run, i - 1);
        assert(run.moves(i - 1));
    }
}

/// The accesses of a return of emptied slots that nothing interrupts add up to
/// the whole return. After `n` elements have been taken, that is a commit of
/// them.
pub proof fn law_hand_back_adds_up<T>(pre: State<T>, n: int, run: HandBackRun<T>, i: int)
    requires
        run.is_run(),
        run.is_alone(),
        0 <= i < run.states.len(),
        run.ats[i] is Done,
        0 < n,
        pre.emptied(n, run.states[0]),
    ensures
        run.states[i] == run.states[0].handed_back(),
        pre.consumed(n, run.states[i]),
        pre.committed(n, run.states[i]),
{
    lemma_hand_back_alone(run, i);
}

/// The states of a channel during a pop, and where it stands in each.
pub struct PopRun<T> {
    pub states: Seq<State<T>>,
    pub ats: Seq<Pop<T>>,
}

impl<T> PopRun<T> {
    pub open spec fn moves(self, i: int) -> bool {
        &&& self.states[i].pop_access(self.ats[i], self.states[i + 1])
        &&& self.ats[i + 1] == self.states[i].next_pop(self.ats[i])
    }

    pub open spec fn goes_on(self, i: int) -> bool {
        ||| self.moves(i)
        ||| producer_side(self.states[i], self.states[i + 1]) && self.ats[i + 1] == self.ats[i]
    }

    /// A pop that has just begun, and what became of it. If the consumer knows
    /// of an element, the pop begins by taking it.
    pub open spec fn is_run(self) -> bool {
        &&& self.states.len() > 0
        &&& self.ats.len() == self.states.len()
        &&& self.ats[0] is Alive || (self.ats[0] is Take && self.states[0].sent.len()
            > self.states[0].taken)
        &&& forall|i: int| 0 <= i < self.states.len() ==> (#[trigger] self.states[i]).valid()
        &&& forall|i: int| 0 <= i < self.states.len() - 1 ==> #[trigger] self.goes_on(i)
    }

    pub open spec fn is_alone(self) -> bool {
        forall|i: int| 0 <= i < self.states.len() - 1 ==> #[trigger] self.moves(i)
    }

    spec fn inv(self, i: int) -> bool {
        let start = self.states[0];
        let now = self.states[i];
        &&& start.sent.is_prefix_of(now.sent)
        &&& !start.producer_alive ==> !now.producer_alive && now.sent == start.sent
        &&& match self.ats[i] {
            Pop::Alive => now.taken == start.taken && now.freed == start.freed,
            Pop::Write(alive) => {
                &&& now.taken == start.taken
                &&& now.freed == start.freed
                &&& alive ==> start.producer_alive
                &&& !alive ==> !now.producer_alive
            },
            Pop::Take => {
                &&& now.taken == start.taken
                &&& now.freed == start.freed
                &&& now.sent.len() > now.taken
            },
            Pop::HandBack(v, HandBack::Store) => {
                &&& now.taken == start.taken + 1
                &&& now.sent.len() >= now.taken
                &&& v == now.sent[start.taken]
            },
            Pop::HandBack(v, _) => {
                &&& now.taken == start.taken + 1
                &&& now.freed == start.taken + 1
                &&& now.sent.len() >= now.taken
                &&& v == now.sent[start.taken]
            },
            Pop::Done(Ok(v)) => {
                &&& now.taken == start.taken + 1
                &&& now.freed == start.taken + 1
                &&& now.sent.len() >= now.taken
                &&& v == now.sent[start.taken]
            },
            Pop::Done(Err(TryRecvError::Empty)) => {
                &&& now.taken == start.taken
                &&& now.freed == start.freed
                &&& start.sent.len() == start.taken
                &&& start.producer_alive
            },
            Pop::Done(Err(TryRecvError::Closed)) => {
                &&& now.taken == start.taken
                &&& now.freed == start.freed
                &&& now.sent.len() == now.taken
                &&& !now.producer_alive
            },
        }
    }

    proof fn lemma_inv(self, i: int)
        requires
            self.is_run(),
            0 <= i < self.states.len(),
        ensures
            self.inv(i),
        decreases i,
    {
        if i > 0 {
            self.lemma_inv(i - 1);
            assert(self.goes_on(i - 1));
            let pre = self.states[i - 1];
            let post = self.states[i];
            assert(self.states[0].valid() && pre.valid() && post.valid());
            assert(self.states[0].sent.is_prefix_of(post.sent)) by {
                assert(self.states[0].sent =~= post.sent.subrange(
                    0,
                    self.states[0].sent.len() as int,
                ));
            }
        }
    }
}

/// Whatever the producer does meanwhile, a pop that succeeds has taken the
/// oldest element and no other, and has handed its slot back. One that fails has
/// taken nothing; it fails as empty only if nothing was queued and the producer
/// was there when it began, and as closed only if nothing is queued and the
/// producer is gone.
pub proof fn law_pop_run<T>(run: PopRun<T>, i: int)
    requires
        run.is_run(),
        0 <= i < run.states.len(),
    ensures
        ({
            let start = run.states[0];
            let now = run.states[i];
            match run.ats[i] {
                Pop::Done(Ok(v)) => {
                    &&& now.taken == start.taken + 1
                    &&& now.freed == start.taken + 1
                    &&& start.taken < now.sent.len()
                    &&& v == now.sent[start.taken]
                    &&& start.taken < start.sent.len() ==> v == start.sent[start.taken]
                },
                Pop::Done(Err(TryRecvError::Empty)) => {
                    &&& now.taken == start.taken
                    &&& now.freed == start.freed
                    &&& start.sent.len() == start.taken
                    &&& start.producer_alive
                },
                Pop::Done(Err(TryRecvError::Closed)) => {
                    &&& now.taken == start.taken
                    &&& now.freed == start.freed
                    &&& now.sent.len() == now.taken
                    &&& !now.producer_alive
                },
                _ => start.taken <= now.taken <= start.taken + 1,
            }
        }),
{
    run.lemma_inv(i);
    assert(run.states[0].valid());
    let start = run.states[0];
    let now = run.states[i];
    if start.taken < start.sent.len() {
        assert(now.sent.subrange(0, start.sent.len() as int)[start.taken] == now.sent[start.taken]);
    }
}

proof fn lemma_pop_alone<T>(run: PopRun<T>, i: int)
    requires
        run.is_run(),
        run.is_alone(),
        0 <= i < run.states.len(),
    ensures
        run.states[0].pop_alone(run.ats[i], run.states[i]),
    decreases i,
{
    if i > 0 {
        lemma_pop_alone(run, i - 1);
        assert(run.moves(i - 1));
        assert(run.states[0].valid());
    }
}

/// The accesses of a pop that nothing interrupts add up to this: it succeeds
/// exactly if an element is queued, and then it has consumed the oldest;
/// otherwise nothing has changed.
pub proof fn law_pop_adds_up<T>(run: PopRun<T>, i: int)
    requires
        run.is_run(),
        run.is_alone(),
        0 <= i < run.states.len(),
        run.ats[i] is Done,
    ensures
        ({
            let start = run.states[0];
            let now = run.states[i];
            match run.ats[i]->Done_0 {
                Ok(v) => {
                    &&& start.taken < start.sent.len()
                    &&& v == start.sent[start.taken]
                    &&& start.consumed(1, now)
                },
                Err(TryRecvError::Empty) => {
                    &&& start.sent.len() == start.taken
                    &&& start.producer_alive
                    &&& now == start
                },
                Err(TryRecvError::Closed) => {
                    &&& start.sent.len() == start.taken
                    &&& !start.producer_alive
                    &&& now == start
                },
            }
        }),
{
    lemma_pop_alone(run, i);
    assert(run.states[0].valid());
}

/// The states of a channel during a look for elements, and where it stands in
/// each.
pub struct ReadPollRun<T> {
    pub states: Seq<State<T>>,
    pub ats: Seq<ReadPoll>,
}

impl<T> ReadPollRun<T> {
    pub open spec fn moves(self, min: int, i: int) -> bool {
        &&& self.states[i + 1] == self.states[i].after_read_poll(self.ats[i])
        &&& self.ats[i + 1] == self.states[i].next_read_poll(min, self.ats[i])
    }

    pub open spec fn goes_on(self, min: int, i: int) -> bool {
        ||| self.moves(min, i)
        ||| producer_side(self.states[i], self.states[i + 1]) && self.ats[i + 1] == self.ats[i]
    }

    pub open spec fn is_run(self, waker: Waker, min: int) -> bool {
        &&& self.states.len() > 0
        &&& self.ats.len() == self.states.len()
        &&& self.ats[0] == ReadPoll::Alive(waker)
        &&& self.states[0].taken <= self.states[0].sent.len()
        &&& forall|i: int| 0 <= i < self.states.len() - 1 ==> #[trigger] self.goes_on(min, i)
    }

    pub open spec fn is_alone(self, min: int) -> bool {
        forall|i: int| 0 <= i < self.states.len() - 1 ==> #[trigger] self.moves(min, i)
    }

    spec fn inv(self, waker: Waker, min: int, i: int) -> bool {
        let start = self.states[0];
        let now = self.states[i];
        let few = start.sent.len() - start.taken < min && start.producer_alive;
        &&& now.taken == start.taken
        &&& start.sent.len() <= now.sent.len()
        &&& now.producer_alive ==> start.producer_alive
        &&& match self.ats[i] {
            ReadPoll::Alive(w) => w == waker,
            ReadPoll::Write(w, alive) => {
                &&& w == waker
                &&& alive ==> start.producer_alive
                &&& !alive ==> !now.producer_alive
            },
            ReadPoll::Park(_) => few,
            ReadPoll::Raise => few,
            ReadPoll::AliveAgain => few,
            ReadPoll::WriteAgain(alive) => few && (!alive ==> !now.producer_alive),
            ReadPoll::Lower(readiness) => !(readiness is Pending) && self.told(readiness, min, i),
            ReadPoll::Done(readiness) => self.told(readiness, min, i),
        }
    }

    /// What the consumer has been told is so.
    pub open spec fn told(self, readiness: Readiness, min: int, i: int) -> bool {
        let start = self.states[0];
        let now = self.states[i];
        match readiness {
            Readiness::Ready => {
                ||| now.sent.len() - now.taken >= min
                ||| !now.producer_alive && now.sent.len() > now.taken
            },
            Readiness::Closed => !now.producer_alive && now.sent.len() == now.taken,
            Readiness::Pending => start.producer_alive && start.sent.len() - start.taken < min,
        }
    }

    proof fn lemma_inv(self, waker: Waker, min: int, i: int)
        requires
            self.is_run(waker, min),
            0 <= i < self.states.len(),
        ensures
            self.inv(waker, min, i),
        decreases i,
    {
        if i > 0 {
            self.lemma_inv(waker, min, i - 1);
            assert(self.goes_on(min, i - 1));
        }
    }
}

/// Whatever the producer does meanwhile, a consumer that is told to go on finds
/// as many elements as it asked for, or any at all and no producer. One that is
/// told to give up finds nothing queued and no producer. One that is told to
/// wait began with fewer elements than it asked for, and with a producer.
/// Nothing has been taken.
pub proof fn law_read_poll_run<T>(run: ReadPollRun<T>, waker: Waker, min: int, i: int)
    requires
        run.is_run(waker, min),
        0 <= i < run.states.len(),
    ensures
        ({
            let start = run.states[0];
            let now = run.states[i];
            &&& now.taken == start.taken
            &&& run.ats[i] == ReadPoll::Done(Readiness::Ready) ==> now.sent.len() - now.taken >= min
                || (!now.producer_alive && now.sent.len() > now.taken)
            &&& run.ats[i] == ReadPoll::Done(Readiness::Closed) ==> !now.producer_alive
                && now.sent.len() == now.taken
            &&& run.ats[i] == ReadPoll::Done(Readiness::Pending) ==> start.producer_alive
                && start.sent.len() - start.taken < min
        }),
{
    run.lemma_inv(waker, min, i);
}

proof fn lemma_read_poll_alone<T>(run: ReadPollRun<T>, waker: Waker, min: int, i: int)
    requires
        run.is_run(waker, min),
        run.is_alone(min),
        0 <= i < run.states.len(),
    ensures
        run.states[0].read_poll_alone(waker, min, run.ats[i], run.states[i]),
    decreases i,
{
    if i > 0 {
        lemma_read_poll_alone(run, waker, min, i - 1);
        assert(run.moves(min, i - 1));
    }
}

/// The accesses of a look for elements that nothing interrupts add up to this:
/// the consumer is told how things stand, and it has gone to sleep exactly if it
/// is told to wait.
pub proof fn law_read_poll_adds_up<T>(run: ReadPollRun<T>, waker: Waker, min: int, i: int)
    requires
        run.is_run(waker, min),
        run.is_alone(min),
        0 <= i < run.states.len(),
        run.ats[i] is Done,
    ensures
        ({
            let start = run.states[0];
            let readiness = run.ats[i]->Done_0;
            &&& readiness == start.readable(min)
            &&& readiness is Pending ==> run.states[i] == start.consumer_parked(waker)
            &&& !(readiness is Pending) ==> run.states[i] == start
        }),
{
    lemma_read_poll_alone(run, waker, min, i);
}

/// The states of a channel during a look for free slots, and where it stands in
/// each.
pub struct WritePollRun<T> {
    pub states: Seq<State<T>>,
    pub ats: Seq<WritePoll>,
}

impl<T> WritePollRun<T> {
    pub open spec fn moves(self, min: int, i: int) -> bool {
        &&& self.states[i + 1] == self.states[i].after_write_poll(self.ats[i])
        &&& self.ats[i + 1] == self.states[i].next_write_poll(min, self.ats[i])
    }

    pub open spec fn goes_on(self, min: int, i: int) -> bool {
        ||| self.moves(min, i)
        ||| consumer_side(self.states[i], self.states[i + 1]) && self.ats[i + 1] == self.ats[i]
    }

    pub open spec fn is_run(self, waker: Waker, min: int) -> bool {
        &&& self.states.len() > 0
        &&& self.ats.len() == self.states.len()
        &&& self.ats[0] == WritePoll::Read(waker)
        &&& forall|i: int| 0 <= i < self.states.len() - 1 ==> #[trigger] self.goes_on(min, i)
    }

    pub open spec fn is_alone(self, min: int) -> bool {
        forall|i: int| 0 <= i < self.states.len() - 1 ==> #[trigger] self.moves(min, i)
    }

    spec fn inv(self, waker: Waker, min: int, i: int) -> bool {
        let start = self.states[0];
        let now = self.states[i];
        let few = start.capacity - (start.sent.len() - start.freed) < min;
        &&& now.sent == start.sent
        &&& now.capacity == start.capacity
        &&& start.freed <= now.freed
        &&& now.consumer_alive ==> start.consumer_alive
        &&& match self.ats[i] {
            WritePoll::Read(w) => w == waker,
            WritePoll::Alive(w) => w == waker && few,
            WritePoll::Park(_) => few && start.consumer_alive,
            WritePoll::Raise => few && start.consumer_alive,
            WritePoll::ReadAgain => few && start.consumer_alive,
            WritePoll::AliveAgain => few && start.consumer_alive,
            WritePoll::Lower(readiness) => !(readiness is Pending) && self.told(readiness, min, i),
            WritePoll::Done(readiness) => self.told(readiness, min, i),
        }
    }

    /// What the producer has been told is so.
    pub open spec fn told(self, readiness: Readiness, min: int, i: int) -> bool {
        let start = self.states[0];
        let now = self.states[i];
        let few = start.capacity - (start.sent.len() - start.freed) < min;
        match readiness {
            Readiness::Ready => now.capacity - (now.sent.len() - now.freed) >= min,
            Readiness::Closed => few && !now.consumer_alive,
            Readiness::Pending => few && start.consumer_alive,
        }
    }

    proof fn lemma_inv(self, waker: Waker, min: int, i: int)
        requires
            self.is_run(waker, min),
            0 <= i < self.states.len(),
        ensures
            self.inv(waker, min, i),
        decreases i,
    {
        if i > 0 {
            self.lemma_inv(waker, min, i - 1);
            assert(self.goes_on(min, i - 1));
        }
    }
}

/// Whatever the consumer does meanwhile, a producer that is told to go on finds
/// as many free slots as it asked for. One that is told to give up, or to wait,
/// began with fewer; in the one case the consumer is gone, in the other it was
/// there. Nothing has been sent.
pub proof fn law_write_poll_run<T>(run: WritePollRun<T>, waker: Waker, min: int, i: int)
    requires
        run.is_run(waker, min),
        0 <= i < run.states.len(),
    ensures
        ({
            let start = run.states[0];
            let now = run.states[i];
            let few = start.capacity - (start.sent.len() - start.freed) < min;
            &&& now.sent == start.sent
            &&& run.ats[i] == WritePoll::Done(Readiness::Ready) ==> now.capacity - (now.sent.len()
                - now.freed) >= min
            &&& run.ats[i] == WritePoll::Done(Readiness::Closed) ==> few && !now.consumer_alive
            &&& run.ats[i] == WritePoll::Done(Readiness::Pending) ==> few && start.consumer_alive
        }),
{
    run.lemma_inv(waker, min, i);
}

proof fn lemma_write_poll_alone<T>(run: WritePollRun<T>, waker: Waker, min: int, i: int)
    requires
        run.is_run(waker, min),
        run.is_alone(min),
        0 <= i < run.states.len(),
    ensures
        run.states[0].write_poll_alone(waker, min, run.ats[i], run.states[i]),
    decreases i,
{
    if i > 0 {
        lemma_write_poll_alone(run, waker, min, i - 1);
        assert(run.moves(min, i - 1));
    }
}

/// The accesses of a look for free slots that nothing interrupts add up to this:
/// the producer is told how things stand, and it has gone to sleep exactly if it
/// is told to wait.
pub proof fn law_write_poll_adds_up<T>(run: WritePollRun<T>, waker: Waker, min: int, i: int)
    requires
        run.is_run(waker, min),
        run.is_alone(min),
        0 <= i < run.states.len(),
        run.ats[i] is Done,
    ensures
        ({
            let start = run.states[0];
            let readiness = run.ats[i]->Done_0;
            &&& readiness == start.writable(min)
            &&& readiness is Pending ==> run.states[i] == start.producer_parked(waker)
            &&& !(readiness is Pending) ==> run.states[i] == start
        }),
{
    lemma_write_poll_alone(run, waker, min, i);
}

/// The states of a channel while a half leaves, and how far it has come in each.
pub struct LeaveRun<T> {
    pub states: Seq<State<T>>,
    pub ats: Seq<Leave>,
}

impl<T> LeaveRun<T> {
    pub open spec fn producer_moves(self, i: int) -> bool {
        &&& self.states[i + 1] == self.states[i].after_producer_leave(self.ats[i])
        &&& self.ats[i + 1] == self.states[i].next_producer_leave(self.ats[i])
    }

    pub open spec fn consumer_moves(self, i: int) -> bool {
        &&& self.states[i + 1] == self.states[i].after_consumer_leave(self.ats[i])
        &&& self.ats[i + 1] == self.states[i].next_consumer_leave(self.ats[i])
    }

    pub open spec fn producer_goes_on(self, i: int) -> bool {
        ||| self.producer_moves(i)
        ||| consumer_side(self.states[i], self.states[i + 1]) && self.ats[i + 1] == self.ats[i]
    }

    pub open spec fn consumer_goes_on(self, i: int) -> bool {
        ||| self.consumer_moves(i)
        ||| producer_side(self.states[i], self.states[i + 1]) && self.ats[i + 1] == self.ats[i]
    }

    pub open spec fn begins(self) -> bool {
        &&& self.states.len() > 0
        &&& self.ats.len() == self.states.len()
        &&& self.ats[0] is Clear
    }

    /// The producer leaves.
    pub open spec fn is_producer_run(self) -> bool {
        &&& self.begins()
        &&& forall|i: int| 0 <= i < self.states.len() - 1 ==> #[trigger] self.producer_goes_on(i)
    }

    /// The consumer leaves.
    pub open spec fn is_consumer_run(self) -> bool {
        &&& self.begins()
        &&& forall|i: int| 0 <= i < self.states.len() - 1 ==> #[trigger] self.consumer_goes_on(i)
    }

    /// The producer leaves, and nothing interrupts it.
    pub open spec fn is_producer_alone(self) -> bool {
        &&& self.begins()
        &&& forall|i: int| 0 <= i < self.states.len() - 1 ==> #[trigger] self.producer_moves(i)
    }

    /// The consumer leaves, and nothing interrupts it.
    pub open spec fn is_consumer_alone(self) -> bool {
        &&& self.begins()
        &&& forall|i: int| 0 <= i < self.states.len() - 1 ==> #[trigger] self.consumer_moves(i)
    }
}

/// Whatever the consumer does meanwhile, a producer that leaves is gone from its
/// first access on, and sends nothing.
pub proof fn law_producer_leave_run<T>(run: LeaveRun<T>, i: int)
    requires
        run.is_producer_run(),
        0 <= i < run.states.len(),
    ensures
        run.states[i].sent == run.states[0].sent,
        !(run.ats[i] is Clear) ==> !run.states[i].producer_alive,
        run.ats[i] is Clear ==> run.states[i].producer_alive == run.states[0].producer_alive,
    decreases i,
{
    if i > 0 {
        law_producer_leave_run(run, i - 1);
        assert(run.producer_goes_on(i - 1));
    }
}

/// Whatever the producer does meanwhile, a consumer that leaves is gone from its
/// first access on, and takes nothing.
pub proof fn law_consumer_leave_run<T>(run: LeaveRun<T>, i: int)
    requires
        run.is_consumer_run(),
        0 <= i < run.states.len(),
    ensures
        run.states[i].taken == run.states[0].taken,
        run.states[i].freed == run.states[0].freed,
        !(run.ats[i] is Clear) ==> !run.states[i].consumer_alive,
        run.ats[i] is Clear ==> run.states[i].consumer_alive == run.states[0].consumer_alive,
    decreases i,
{
    if i > 0 {
        law_consumer_leave_run(run, i - 1);
        assert(run.consumer_goes_on(i - 1));
    }
}

proof fn lemma_producer_leave_alone<T>(run: LeaveRun<T>, i: int)
    requires
        run.is_producer_alone(),
        0 <= i < run.states.len(),
    ensures
        run.states[0].producer_leave_alone(run.ats[i], run.states[i]),
    decreases i,
{
    if i > 0 {
        lemma_producer_leave_alone(run, i - 1);
        assert(run.producer_moves(i - 1));
    }
}

proof fn lemma_consumer_leave_alone<T>(run: LeaveRun<T>, i: int)
    requires
        run.is_consumer_alone(),
        0 <= i < run.states.len(),
    ensures
        run.states[0].consumer_leave_alone(run.ats[i], run.states[i]),
    decreases i,
{
    if i > 0 {
        lemma_consumer_leave_alone(run, i - 1);
        assert(run.consumer_moves(i - 1));
    }
}

/// The accesses of a producer that leaves without interruption, from the first
/// to the last, add up to its departure, whatever is queued.
pub proof fn law_producer_leave_adds_up<T>(run: LeaveRun<T>, i: int)
    requires
        run.is_producer_alone(),
        0 <= i < run.states.len(),
        run.ats[i] is Done,
    ensures
        run.states[i] == run.states[0].producer_left(),
{
    lemma_producer_leave_alone(run, i);
}

/// The same of a consumer that leaves.
pub proof fn law_consumer_leave_adds_up<T>(run: LeaveRun<T>, i: int)
    requires
        run.is_consumer_alone(),
        0 <= i < run.states.len(),
        run.ats[i] is Done,
    ensures
        run.states[i] == run.states[0].consumer_left(),
{
    lemma_consumer_leave_alone(run, i);
}

/// The contents of a cell during a registration, and where it stands in each.
pub struct RegistrationRun {
    pub cells: Seq<WakerState>,
    pub ats: Seq<Registration>,
}

impl RegistrationRun {
    pub open spec fn moves(self, i: int) -> bool {
        &&& self.cells[i + 1] == self.cells[i].after_registration(self.ats[i])
        &&& self.ats[i + 1] == self.cells[i].next_registration(self.ats[i])
    }

    /// A registration of `waker` that nothing interrupts.
    pub open spec fn is_alone(self, waker: Waker) -> bool {
        &&& self.cells.len() > 0
        &&& self.ats.len() == self.cells.len()
        &&& self.ats[0] == Registration::Claim(waker)
        &&& forall|i: int| 0 <= i < self.cells.len() - 1 ==> #[trigger] self.moves(i)
    }
}

proof fn lemma_registration_alone(run: RegistrationRun, waker: Waker, i: int)
    requires
        run.is_alone(waker),
        0 <= i < run.cells.len(),
    ensures
        run.cells[0].registration_alone(waker, run.ats[i], run.cells[i]),
    decreases i,
{
    if i > 0 {
        lemma_registration_alone(run, waker, i - 1);
        assert(run.moves(i - 1));
    }
}

/// The accesses of a registration that nothing interrupts add up to the whole
/// registration.
pub proof fn law_registration_adds_up(run: RegistrationRun, waker: Waker, i: int)
    requires
        run.is_alone(waker),
        0 <= i < run.cells.len(),
        run.ats[i] is Deliver,
    ensures
        run.cells[i] == run.cells[0].registered(waker),
        run.ats[i] == Registration::Deliver(run.cells[0].due_on_register(waker)),
{
    lemma_registration_alone(run, waker, i);
}

/// The contents of a cell during a wake, and where it stands in each.
pub struct WakingRun {
    pub cells: Seq<WakerState>,
    pub ats: Seq<Waking>,
}

impl WakingRun {
    pub open spec fn moves(self, i: int) -> bool {
        &&& self.cells[i + 1] == self.cells[i].after_waking(self.ats[i])
        &&& self.ats[i + 1] == self.cells[i].next_waking(self.ats[i])
    }

    /// A wake that nothing interrupts.
    pub open spec fn is_alone(self) -> bool {
        &&& self.cells.len() > 0
        &&& self.ats.len() == self.cells.len()
        &&& self.ats[0] is Claim
        &&& forall|i: int| 0 <= i < self.cells.len() - 1 ==> #[trigger] self.moves(i)
    }
}

proof fn lemma_waking_alone(run: WakingRun, i: int)
    requires
        run.is_alone(),
        0 <= i < run.cells.len(),
    ensures
        run.cells[0].waking_alone(run.ats[i], run.cells[i]),
    decreases i,
{
    if i > 0 {
        lemma_waking_alone(run, i - 1);
        assert(run.moves(i - 1));
    }
}

/// The accesses of a wake that nothing interrupts add up to the whole wake.
pub proof fn law_waking_adds_up(run: WakingRun, i: int)
    requires
        run.is_alone(),
        0 <= i < run.cells.len(),
        run.ats[i] is Deliver,
    ensures
        run.cells[i] == run.cells[0].woken(),
        run.ats[i] == Waking::Deliver(run.cells[0].due_on_wake()),
{
    lemma_waking_alone(run, i);
}

} // verus!
