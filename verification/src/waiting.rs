//! Neither side of the channel sleeps through what it waits for.
//!
//! The two transition systems here interleave the accesses of a side that waits
//! with those of the other side, in any order. At any time, the wakers that are
//! due may be handed out.

use crate::atomic_waker::delivered;
use crate::atomic_waker::Waking;
use crate::handshake::law_depart_keeps;
use crate::handshake::law_no_lost_wake;
use crate::handshake::law_park_keeps;
use crate::handshake::law_publish_keeps;
use crate::handshake::law_raise_keeps;
use crate::handshake::law_register_keeps;
use crate::handshake::law_signal_keeps;
use crate::handshake::Handshake;
use crate::handshake::Wait;
use crate::parking::Leave;
use crate::parking::Readiness;
use crate::parking::Signal;
use crate::read_steps::HandBack;
use crate::read_steps::ReadPoll;
use crate::state::consumer_step;
use crate::state::producer_step;
use crate::state::State;
use crate::write_steps::Publish;
use crate::write_steps::WritePoll;
use std::task::Waker;
use vstd::prelude::*;

verus! {

/// Where the producer stands, as far as the consumer waits for it.
pub enum ProducerAt {
    /// Doing something else.
    Elsewhere,
    Publish(Publish),
    Leave(Leave),
}

/// Where the consumer stands, as far as the producer waits for it.
pub enum ConsumerAt {
    /// Doing something else.
    Elsewhere,
    HandBack(HandBack),
    Leave(Leave),
}

/// A consumer that waits for elements, and the producer.
pub struct ConsumerWait<T> {
    pub shared: State<T>,
    /// How many elements the consumer waits for.
    pub min: int,
    /// Where its look for elements stands, if it is looking.
    pub consumer_at: Option<ReadPoll>,
    pub producer_at: ProducerAt,
    /// The waker of the consumer's last look that got so far as to store it.
    pub waker: Waker,
    /// The wakers that have been handed out, oldest first.
    pub handed_out: Seq<Waker>,
    /// How many wakers had become due when that look began to store its own.
    pub mark: int,
}

/// A producer that waits for free slots, and the consumer.
pub struct ProducerWait<T> {
    pub shared: State<T>,
    /// How many slots the producer waits for.
    pub min: int,
    /// Where its look for free slots stands, if it is looking.
    pub producer_at: Option<WritePoll>,
    pub consumer_at: ConsumerAt,
    /// The waker of the producer's last look that got so far as to store it.
    pub waker: Waker,
    /// The wakers that have been handed out, oldest first.
    pub handed_out: Seq<Waker>,
    /// How many wakers had become due when that look began to store its own.
    pub mark: int,
}

impl ProducerAt {
    /// Where the signal to the consumer stands.
    pub open spec fn signal(self) -> Option<Signal> {
        match self {
            ProducerAt::Publish(Publish::Signal(signal)) => Some(signal),
            ProducerAt::Leave(Leave::Wake(w)) => Some(Signal::Wake(w)),
            _ => None,
        }
    }
}

impl ConsumerAt {
    /// Where the signal to the producer stands.
    pub open spec fn signal(self) -> Option<Signal> {
        match self {
            ConsumerAt::HandBack(HandBack::Signal(signal)) => Some(signal),
            ConsumerAt::Leave(Leave::Wake(w)) => Some(Signal::Wake(w)),
            _ => None,
        }
    }
}

impl ReadPoll {
    pub open spec fn wait(self) -> Wait {
        match self {
            ReadPoll::Alive(_) => Wait::Away,
            ReadPoll::Write(_, _) => Wait::Away,
            ReadPoll::Park(r) => Wait::Park(r),
            ReadPoll::Raise => Wait::Raise,
            ReadPoll::AliveAgain => Wait::Look { data: false, peer: false },
            ReadPoll::WriteAgain(alive) => if alive {
                Wait::Look { data: false, peer: true }
            } else {
                Wait::Lower
            },
            ReadPoll::Lower(_) => Wait::Lower,
            ReadPoll::Done(readiness) => if readiness is Pending {
                Wait::Look { data: true, peer: true }
            } else {
                Wait::Away
            },
        }
    }
}

impl WritePoll {
    pub open spec fn wait(self) -> Wait {
        match self {
            WritePoll::Read(_) => Wait::Away,
            WritePoll::Alive(_) => Wait::Away,
            WritePoll::Park(r) => Wait::Park(r),
            WritePoll::Raise => Wait::Raise,
            WritePoll::ReadAgain => Wait::Look { data: false, peer: false },
            WritePoll::AliveAgain => Wait::Look { data: true, peer: false },
            WritePoll::Lower(_) => Wait::Lower,
            WritePoll::Done(readiness) => if readiness is Pending {
                Wait::Look { data: true, peer: true }
            } else {
                Wait::Away
            },
        }
    }
}

impl<T> ConsumerWait<T> {
    /// The consumer's waker has become due since it began to store it.
    pub open spec fn woken(self) -> bool {
        self.became_due().skip(self.mark).contains(self.waker)
    }

    /// Every waker that has become due, oldest first, whether it has been handed
    /// out or not.
    pub open spec fn became_due(self) -> Seq<Waker> {
        self.handed_out + self.shared.due
    }

    /// The consumer sleeps.
    pub open spec fn asleep(self) -> bool {
        self.consumer_at == Some(ReadPoll::Done(Readiness::Pending))
    }

    /// A fresh channel in which the consumer does not wait.
    pub open spec fn starts(self) -> bool {
        &&& self.shared == State::<T>::fresh(self.shared.capacity)
        &&& self.consumer_at is None
        &&& self.producer_at is Elsewhere
        &&& self.handed_out == Seq::<Waker>::empty()
        &&& self.mark == 0
    }

    /// The consumer makes one access, or goes from one operation to the next.
    pub open spec fn consumer_moves(self, post: ConsumerWait<T>) -> bool {
        &&& post.producer_at == self.producer_at
        &&& post.handed_out == self.handed_out
        &&& match self.consumer_at {
            None => {
                &&& consumer_step(self.shared, post.shared)
                &&& post.shared.consumer == self.shared.consumer
                &&& post.waker == self.waker
                &&& post.mark == self.mark
                &&& post.consumer_at is None || post.consumer_at->0 is Alive
            },
            Some(ReadPoll::Done(_)) => {
                &&& post.shared == self.shared
                &&& post.waker == self.waker
                &&& post.mark == self.mark
                &&& post.consumer_at is None || post.consumer_at->0 is Alive
            },
            Some(at) => {
                let next = self.shared.next_read_poll(self.min, at);
                &&& post.min == self.min
                &&& post.shared == self.shared.after_read_poll(at)
                &&& post.consumer_at == Some(next)
                &&& if at is Write && next is Park {
                    post.waker == at->Write_0 && post.mark == self.became_due().len()
                } else {
                    post.waker == self.waker && post.mark == self.mark
                }
            },
        }
    }

    /// The producer makes one access, or goes from one operation to the next.
    pub open spec fn producer_moves(self, post: ConsumerWait<T>) -> bool {
        &&& post.min == self.min
        &&& post.handed_out == self.handed_out
        &&& post.consumer_at == self.consumer_at
        &&& post.waker == self.waker
        &&& post.mark == self.mark
        &&& match self.producer_at {
            ProducerAt::Elsewhere => {
                &&& producer_step(self.shared, post.shared)
                &&& post.shared.sent == self.shared.sent
                &&& post.shared.producer_alive == self.shared.producer_alive
                &&& post.shared.consumer == self.shared.consumer
                &&& match post.producer_at {
                    ProducerAt::Elsewhere => true,
                    ProducerAt::Publish(at) => at is Store,
                    ProducerAt::Leave(at) => at is Clear,
                }
            },
            ProducerAt::Publish(Publish::Done) => {
                &&& post.shared == self.shared
                &&& post.producer_at is Elsewhere
            },
            ProducerAt::Publish(at) => {
                &&& self.shared.publish_access(at, post.shared)
                &&& post.producer_at == ProducerAt::Publish(self.shared.next_publish(at))
            },
            ProducerAt::Leave(at) => {
                &&& post.shared == self.shared.after_producer_leave(at)
                &&& post.producer_at == ProducerAt::Leave(self.shared.next_producer_leave(at))
            },
        }
    }

    /// The wakers that are due are handed out.
    pub open spec fn due_taken(self) -> ConsumerWait<T> {
        ConsumerWait {
            shared: self.shared.due_taken(),
            handed_out: self.became_due(),
            ..self
        }
    }

    /// The part of the state on which the two sides' handshake depends.
    pub open spec fn handshake(self) -> Handshake {
        Handshake {
            parking: self.shared.consumer,
            wait: match self.consumer_at {
                None => Wait::Away,
                Some(at) => at.wait(),
            },
            waker: self.waker,
            signal: self.producer_at.signal(),
            ready: self.shared.available() >= self.min,
            gone: !self.shared.producer_alive,
            woken: self.woken(),
        }
    }

    pub open spec fn inv(self) -> bool {
        &&& 0 <= self.mark <= self.became_due().len()
        &&& self.consumer_at != Some(ReadPoll::Lower(Readiness::Pending))
        &&& self.handshake().inv()
    }
}

/// What has become due stays so.
proof fn lemma_due_grows(
    handed_out: Seq<Waker>,
    due: Seq<Waker>,
    post: Seq<Waker>,
    mark: int,
    waker: Waker,
)
    requires
        0 <= mark <= (handed_out + due).len(),
        due.is_prefix_of(post),
    ensures
        mark <= (handed_out + post).len(),
        (handed_out + due).skip(mark).contains(waker) ==> (handed_out + post).skip(mark).contains(
            waker,
        ),
{
    let all = handed_out + due;
    if all.skip(mark).contains(waker) {
        let i = choose|i: int| 0 <= i < all.skip(mark).len() && all.skip(mark)[i] == waker;
        assert((handed_out + post).skip(mark)[i] == waker);
    }
}

/// A delivery makes just the delivered waker due.
proof fn lemma_due_delivered(
    handed_out: Seq<Waker>,
    due: Seq<Waker>,
    w: Option<Waker>,
    mark: int,
    waker: Waker,
)
    requires
        0 <= mark <= (handed_out + due).len(),
    ensures
        due.is_prefix_of(delivered(due, w)),
        mark <= (handed_out + delivered(due, w)).len(),
        (handed_out + delivered(due, w)).skip(mark).contains(waker) <==> (handed_out + due).skip(
            mark,
        ).contains(waker) || w == Some(waker),
{
    let all = handed_out + due;
    let post = handed_out + delivered(due, w);
    lemma_due_grows(handed_out, due, delivered(due, w), mark, waker);
    if w == Some(waker) {
        assert(post.skip(mark)[all.len() - mark] == waker);
    }
    if post.skip(mark).contains(waker) && w != Some(waker) {
        let i = choose|i: int| 0 <= i < post.skip(mark).len() && post.skip(mark)[i] == waker;
        assert(all.skip(mark)[i] == waker);
    }
}

/// Whatever the consumer does keeps the invariant.
proof fn lemma_consumer_moves<T>(pre: ConsumerWait<T>, post: ConsumerWait<T>)
    requires
        pre.inv(),
        pre.consumer_moves(post),
    ensures
        post.inv(),
{
    let h = pre.handshake();
    match pre.consumer_at {
        None => {
            lemma_due_grows(
                pre.handed_out,
                pre.shared.due,
                post.shared.due,
                pre.mark,
                pre.waker,
            );
        },
        Some(ReadPoll::Done(_)) => {},
        Some(at) => {
            let next = pre.shared.next_read_poll(pre.min, at);
            if at is Write && next is Park {
                assert(post.became_due().skip(post.mark).len() == 0);
                law_park_keeps(h, at->Write_0);
                assert(post.handshake() == h.parks(at->Write_0));
            } else if let ReadPoll::Park(r) = at {
                if let crate::atomic_waker::Registration::Deliver(w) = r {
                    lemma_due_delivered(
                        pre.handed_out,
                        pre.shared.due,
                        w,
                        pre.mark,
                        pre.waker,
                    );
                }
                law_register_keeps(h);
                assert(post.handshake() == h.registers());
            } else if at is Raise {
                law_raise_keeps(h);
                assert(post.handshake() == h.raises());
            }
        },
    }
}

/// Whatever the producer does keeps the invariant.
proof fn lemma_producer_moves<T>(pre: ConsumerWait<T>, post: ConsumerWait<T>)
    requires
        pre.inv(),
        pre.producer_moves(post),
    ensures
        post.inv(),
{
    let h = pre.handshake();
    match pre.producer_at {
        ProducerAt::Elsewhere => {
            lemma_due_grows(
                pre.handed_out,
                pre.shared.due,
                post.shared.due,
                pre.mark,
                pre.waker,
            );
        },
        ProducerAt::Publish(Publish::Done) => {},
        ProducerAt::Publish(at) => {
            match at {
                Publish::Store(n) => {
                    law_publish_keeps(h, post.shared.available() >= post.min);
                    assert(post.handshake() == h.publishes(post.shared.available() >= post.min));
                },
                Publish::Signal(signal) => {
                    if let Signal::Wake(Waking::Deliver(w)) = signal {
                        lemma_due_delivered(
                            pre.handed_out,
                            pre.shared.due,
                            w,
                            pre.mark,
                            pre.waker,
                        );
                    }
                    law_signal_keeps(h);
                    assert(post.handshake() == h.signal_moves());
                },
                Publish::Done => {},
            }
        },
        ProducerAt::Leave(at) => {
            match at {
                Leave::Clear => {
                    law_depart_keeps(h);
                    assert(post.handshake() == h.departs());
                },
                Leave::Wake(w) => {
                    if let Waking::Deliver(w) = w {
                        lemma_due_delivered(
                            pre.handed_out,
                            pre.shared.due,
                            w,
                            pre.mark,
                            pre.waker,
                        );
                    }
                    law_signal_keeps(h);
                    assert(post.handshake() == h.signal_moves());
                },
                Leave::Done => {},
            }
        },
    }
}

/// A run of a channel from its beginning, in which the accesses of the two
/// sides interleave in any order, and the wakers that are due are handed out at
/// any time.
pub open spec fn is_consumer_run<T>(run: Seq<ConsumerWait<T>>) -> bool {
    &&& run.len() > 0
    &&& run[0].starts()
    &&& forall|i: int| 0 <= i < run.len() - 1 ==> #[trigger] consumer_run_goes_on(run, i)
}

/// The run goes on from its state number `i` to the next.
pub open spec fn consumer_run_goes_on<T>(run: Seq<ConsumerWait<T>>, i: int) -> bool {
    ||| run[i].consumer_moves(run[i + 1])
    ||| run[i].producer_moves(run[i + 1])
    ||| run[i + 1] == run[i].due_taken()
}

proof fn lemma_consumer_run<T>(run: Seq<ConsumerWait<T>>, i: int)
    requires
        is_consumer_run(run),
        0 <= i < run.len(),
    ensures
        run[i].inv(),
    decreases i,
{
    if i > 0 {
        lemma_consumer_run(run, i - 1);
        assert(consumer_run_goes_on(run, i - 1));
        let pre = run[i - 1];
        let post = run[i];
        if pre.consumer_moves(post) {
            lemma_consumer_moves(pre, post);
        } else if pre.producer_moves(post) {
            lemma_producer_moves(pre, post);
        } else {
            assert(post.became_due() =~= pre.became_due());
            assert(post.handshake() == pre.handshake());
        }
    }
}

/// No lost wake-up of the consumer: at any time in any run, if the consumer
/// sleeps although enough elements are there or the producer is gone, and the
/// producer is not in the middle of signalling, then the consumer's waker has
/// become due.
pub proof fn law_consumer_is_woken<T>(run: Seq<ConsumerWait<T>>, i: int)
    requires
        is_consumer_run(run),
        0 <= i < run.len(),
        run[i].asleep(),
        run[i].shared.available() >= run[i].min || !run[i].shared.producer_alive,
        run[i].producer_at.signal() is None,
    ensures
        run[i].woken(),
{
    lemma_consumer_run(run, i);
    law_no_lost_wake(run[i].handshake());
}

impl<T> ProducerWait<T> {
    /// The producer's waker has become due since it began to store it.
    pub open spec fn woken(self) -> bool {
        self.became_due().skip(self.mark).contains(self.waker)
    }

    /// Every waker that has become due, oldest first, whether it has been handed
    /// out or not.
    pub open spec fn became_due(self) -> Seq<Waker> {
        self.handed_out + self.shared.due
    }

    /// The producer sleeps.
    pub open spec fn asleep(self) -> bool {
        self.producer_at == Some(WritePoll::Done(Readiness::Pending))
    }

    /// A fresh channel in which the producer does not wait.
    pub open spec fn starts(self) -> bool {
        &&& self.shared == State::<T>::fresh(self.shared.capacity)
        &&& self.producer_at is None
        &&& self.consumer_at is Elsewhere
        &&& self.handed_out == Seq::<Waker>::empty()
        &&& self.mark == 0
    }

    /// The producer makes one access, or goes from one operation to the next.
    pub open spec fn producer_moves(self, post: ProducerWait<T>) -> bool {
        &&& post.consumer_at == self.consumer_at
        &&& post.handed_out == self.handed_out
        &&& match self.producer_at {
            None => {
                &&& producer_step(self.shared, post.shared)
                &&& post.shared.producer == self.shared.producer
                &&& post.waker == self.waker
                &&& post.mark == self.mark
                &&& post.producer_at is None || post.producer_at->0 is Read
            },
            Some(WritePoll::Done(_)) => {
                &&& post.shared == self.shared
                &&& post.waker == self.waker
                &&& post.mark == self.mark
                &&& post.producer_at is None || post.producer_at->0 is Read
            },
            Some(at) => {
                let next = self.shared.next_write_poll(self.min, at);
                &&& post.min == self.min
                &&& post.shared == self.shared.after_write_poll(at)
                &&& post.producer_at == Some(next)
                &&& if at is Alive && next is Park {
                    post.waker == at->Alive_0 && post.mark == self.became_due().len()
                } else {
                    post.waker == self.waker && post.mark == self.mark
                }
            },
        }
    }

    /// The consumer makes one access, or goes from one operation to the next.
    pub open spec fn consumer_moves(self, post: ProducerWait<T>) -> bool {
        &&& post.min == self.min
        &&& post.handed_out == self.handed_out
        &&& post.producer_at == self.producer_at
        &&& post.waker == self.waker
        &&& post.mark == self.mark
        &&& match self.consumer_at {
            ConsumerAt::Elsewhere => {
                &&& consumer_step(self.shared, post.shared)
                &&& post.shared.freed == self.shared.freed
                &&& post.shared.consumer_alive == self.shared.consumer_alive
                &&& post.shared.producer == self.shared.producer
                &&& match post.consumer_at {
                    ConsumerAt::Elsewhere => true,
                    ConsumerAt::HandBack(at) => at is Store,
                    ConsumerAt::Leave(at) => at is Clear,
                }
            },
            ConsumerAt::HandBack(HandBack::Done) => {
                &&& post.shared == self.shared
                &&& post.consumer_at is Elsewhere
            },
            ConsumerAt::HandBack(at) => {
                &&& post.shared == self.shared.after_hand_back(at)
                &&& post.consumer_at == ConsumerAt::HandBack(self.shared.next_hand_back(at))
            },
            ConsumerAt::Leave(at) => {
                &&& post.shared == self.shared.after_consumer_leave(at)
                &&& post.consumer_at == ConsumerAt::Leave(self.shared.next_consumer_leave(at))
            },
        }
    }

    /// The wakers that are due are handed out.
    pub open spec fn due_taken(self) -> ProducerWait<T> {
        ProducerWait {
            shared: self.shared.due_taken(),
            handed_out: self.became_due(),
            ..self
        }
    }

    /// The part of the state on which the two sides' handshake depends.
    pub open spec fn handshake(self) -> Handshake {
        Handshake {
            parking: self.shared.producer,
            wait: match self.producer_at {
                None => Wait::Away,
                Some(at) => at.wait(),
            },
            waker: self.waker,
            signal: self.consumer_at.signal(),
            ready: self.shared.free() >= self.min,
            gone: !self.shared.consumer_alive,
            woken: self.woken(),
        }
    }

    pub open spec fn inv(self) -> bool {
        &&& 0 <= self.mark <= self.became_due().len()
        &&& self.shared.freed <= self.shared.taken
        &&& self.producer_at != Some(WritePoll::Lower(Readiness::Pending))
        &&& self.handshake().inv()
    }
}

/// Whatever the producer does keeps the invariant.
proof fn lemma_waiting_producer_moves<T>(pre: ProducerWait<T>, post: ProducerWait<T>)
    requires
        pre.inv(),
        pre.producer_moves(post),
    ensures
        post.inv(),
{
    let h = pre.handshake();
    match pre.producer_at {
        None => {
            lemma_due_grows(
                pre.handed_out,
                pre.shared.due,
                post.shared.due,
                pre.mark,
                pre.waker,
            );
        },
        Some(WritePoll::Done(_)) => {},
        Some(at) => {
            let next = pre.shared.next_write_poll(pre.min, at);
            if at is Alive && next is Park {
                assert(post.became_due().skip(post.mark).len() == 0);
                law_park_keeps(h, at->Alive_0);
                assert(post.handshake() == h.parks(at->Alive_0));
            } else if let WritePoll::Park(r) = at {
                if let crate::atomic_waker::Registration::Deliver(w) = r {
                    lemma_due_delivered(
                        pre.handed_out,
                        pre.shared.due,
                        w,
                        pre.mark,
                        pre.waker,
                    );
                }
                law_register_keeps(h);
                assert(post.handshake() == h.registers());
            } else if at is Raise {
                law_raise_keeps(h);
                assert(post.handshake() == h.raises());
            }
        },
    }
}

/// Whatever the consumer does keeps the invariant.
proof fn lemma_signalling_consumer_moves<T>(pre: ProducerWait<T>, post: ProducerWait<T>)
    requires
        pre.inv(),
        pre.consumer_moves(post),
    ensures
        post.inv(),
{
    let h = pre.handshake();
    match pre.consumer_at {
        ConsumerAt::Elsewhere => {
            lemma_due_grows(
                pre.handed_out,
                pre.shared.due,
                post.shared.due,
                pre.mark,
                pre.waker,
            );
        },
        ConsumerAt::HandBack(HandBack::Done) => {},
        ConsumerAt::HandBack(at) => {
            match at {
                HandBack::Store => {
                    law_publish_keeps(h, post.shared.free() >= post.min);
                    assert(post.handshake() == h.publishes(post.shared.free() >= post.min));
                },
                HandBack::Signal(signal) => {
                    if let Signal::Wake(Waking::Deliver(w)) = signal {
                        lemma_due_delivered(
                            pre.handed_out,
                            pre.shared.due,
                            w,
                            pre.mark,
                            pre.waker,
                        );
                    }
                    law_signal_keeps(h);
                    assert(post.handshake() == h.signal_moves());
                },
                HandBack::Done => {},
            }
        },
        ConsumerAt::Leave(at) => {
            match at {
                Leave::Clear => {
                    law_depart_keeps(h);
                    assert(post.handshake() == h.departs());
                },
                Leave::Wake(w) => {
                    if let Waking::Deliver(w) = w {
                        lemma_due_delivered(
                            pre.handed_out,
                            pre.shared.due,
                            w,
                            pre.mark,
                            pre.waker,
                        );
                    }
                    law_signal_keeps(h);
                    assert(post.handshake() == h.signal_moves());
                },
                Leave::Done => {},
            }
        },
    }
}

/// A run of a channel from its beginning, in which the accesses of the two
/// sides interleave in any order, and the wakers that are due are handed out at
/// any time.
pub open spec fn is_producer_run<T>(run: Seq<ProducerWait<T>>) -> bool {
    &&& run.len() > 0
    &&& run[0].starts()
    &&& forall|i: int| 0 <= i < run.len() - 1 ==> #[trigger] producer_run_goes_on(run, i)
}

/// The run goes on from its state number `i` to the next.
pub open spec fn producer_run_goes_on<T>(run: Seq<ProducerWait<T>>, i: int) -> bool {
    ||| run[i].producer_moves(run[i + 1])
    ||| run[i].consumer_moves(run[i + 1])
    ||| run[i + 1] == run[i].due_taken()
}

proof fn lemma_producer_run<T>(run: Seq<ProducerWait<T>>, i: int)
    requires
        is_producer_run(run),
        0 <= i < run.len(),
    ensures
        run[i].inv(),
    decreases i,
{
    if i > 0 {
        lemma_producer_run(run, i - 1);
        assert(producer_run_goes_on(run, i - 1));
        let pre = run[i - 1];
        let post = run[i];
        if pre.producer_moves(post) {
            lemma_waiting_producer_moves(pre, post);
        } else if pre.consumer_moves(post) {
            lemma_signalling_consumer_moves(pre, post);
        } else {
            assert(post.became_due() =~= pre.became_due());
            assert(post.handshake() == pre.handshake());
        }
    }
}

/// No lost wake-up of the producer: at any time in any run, if the producer
/// sleeps although enough slots are free or the consumer is gone, and the
/// consumer is not in the middle of signalling, then the producer's waker has
/// become due.
pub proof fn law_producer_is_woken<T>(run: Seq<ProducerWait<T>>, i: int)
    requires
        is_producer_run(run),
        0 <= i < run.len(),
        run[i].asleep(),
        run[i].shared.free() >= run[i].min || !run[i].shared.consumer_alive,
        run[i].consumer_at.signal() is None,
    ensures
        run[i].woken(),
{
    lemma_producer_run(run, i);
    law_no_lost_wake(run[i].handshake());
}

} // verus!
