//! What holds of the channel as a whole.

use crate::consumer::Consumer;
use crate::consumer::ReadHandle;
use crate::inner::run_before_wrap;
use crate::parking::Leave;
use crate::producer::Producer;
use crate::read_steps::HandBack;
use crate::read_steps::Pop;
use crate::read_steps::ReadPoll;
use crate::slot::Slot;
use crate::state::consumer_step;
use crate::state::producer_step;
use crate::state::State;
use crate::write_steps::Publish;
use crate::write_steps::Push;
use crate::write_steps::WritePoll;
use vstd::arithmetic::div_mod::lemma_fundamental_div_mod;
use vstd::arithmetic::div_mod::lemma_fundamental_div_mod_converse;
use vstd::arithmetic::div_mod::lemma_mod_add_multiples_vanish;
use vstd::arithmetic::div_mod::lemma_mod_bound;
use vstd::prelude::*;

verus! {

/// The queue never holds more than the capacity, and there are never more free
/// slots than that. Once the emptied slots have been handed back, every slot is
/// either free or holds a queued element.
pub proof fn law_bounds<T>(s: State<T>)
    requires
        s.valid(),
    ensures
        0 <= s.available() <= s.capacity,
        0 <= s.free() <= s.capacity,
        s.queue().len() == s.available(),
        s.available() + s.free() <= s.capacity,
        s.freed == s.taken ==> s.available() + s.free() == s.capacity,
{
}

/// Publishing appends to the queue, in order, and uses up as many free slots.
pub proof fn law_publish_appends<T>(pre: State<T>, values: Seq<T>, post: State<T>)
    requires
        pre.valid(),
        pre.published(values, post),
    ensures
        post.queue() == pre.queue() + values,
        post.free() == pre.free() - values.len(),
{
    assert(post.queue() =~= pre.queue() + values);
}

/// Consuming removes from the head of the queue and frees as many slots. All
/// slots that hold no queued element are free then.
pub proof fn law_consume_removes<T>(pre: State<T>, n: int, post: State<T>)
    requires
        pre.valid(),
        0 <= n <= pre.available(),
        pre.consumed(n, post),
    ensures
        post.queue() == pre.queue().skip(n),
        post.free() == post.capacity - post.available(),
        pre.freed == pre.taken ==> post.free() == pre.free() + n,
{
    assert(post.queue() =~= pre.queue().skip(n));
}

/// One publication of many values leaves the same queue as publications of its
/// parts, one after the other, and wakes the same.
pub proof fn law_bulk_is_one_by_one<T>(
    pre: State<T>,
    first: Seq<T>,
    second: Seq<T>,
    mid: State<T>,
    stepwise: State<T>,
    at_once: State<T>,
)
    requires
        pre.valid(),
        mid.valid(),
        pre.published(first, mid),
        mid.published(second, stepwise),
        pre.published(first + second, at_once),
    ensures
        stepwise.queue() == at_once.queue(),
        stepwise.sent == at_once.sent,
        stepwise.free() == at_once.free(),
        stepwise.due == at_once.due,
        stepwise.consumer == at_once.consumer,
        stepwise.producer == at_once.producer,
{
    assert(pre.sent + first + second =~= pre.sent + (first + second));
}

/// A read handle that has committed `n` of its elements goes on with the others.
pub proof fn law_commit_moves_on<T>(pre: State<T>, len: int, n: int, post: State<T>)
    requires
        pre.valid(),
        0 <= n <= len <= pre.available(),
        pre.committed(n, post),
    ensures
        post.queue().take(len - n) == pre.queue().take(len).skip(n),
        post.available() == pre.available() - n,
{
    assert(post.queue().take(len - n) =~= pre.queue().take(len).skip(n));
}

/// Committing `m` elements and then `k` leaves just what committing `m + k`
/// leaves: the queue, the slots, the free ones among them, and the wakers that
/// are due.
pub proof fn law_commit_in_parts<T>(
    pre: State<T>,
    m: int,
    k: int,
    mid: State<T>,
    stepwise: State<T>,
    at_once: State<T>,
)
    requires
        pre.valid(),
        mid.valid(),
        stepwise.valid(),
        at_once.valid(),
        0 <= m,
        0 <= k,
        m + k <= pre.available(),
        pre.committed(m, mid),
        mid.committed(k, stepwise),
        pre.committed(m + k, at_once),
    ensures
        stepwise == at_once,
        stepwise.queue() == at_once.queue(),
        stepwise.taken == at_once.taken,
        stepwise.freed == at_once.freed,
        stepwise.free() == at_once.free(),
{
    if 0 < m + k {
        let r = pre.taken;
        let cap = pre.capacity;
        assert forall|i: int| r <= i < r + cap implies #[trigger] stepwise.slot(i)
            == at_once.slot(i) by {
            if i < r + m {
                lemma_mod_add_multiples_vanish(i, cap);
                assert(mid.slot(i) == Slot::<T>::Vacant);
                assert(stepwise.slot(i + cap) == mid.slot(i + cap));
                assert(at_once.slot(i) == Slot::<T>::Vacant);
            } else {
                assert(mid.slot(i) == pre.slot(i));
                assert(at_once.slot(i) == if i < r + m + k {
                    Slot::<T>::Vacant
                } else {
                    pre.slot(i)
                });
            }
        }
        assert forall|j: int| 0 <= j < cap implies #[trigger] stepwise.slots[j]
            == at_once.slots[j] by {
            let i = lemma_slot_in_round(r, cap, j);
            assert(stepwise.slot(i) == at_once.slot(i));
        }
        assert(stepwise.slots =~= at_once.slots);
    }
}

/// Of any `capacity` elements in a row, one passes through the slot `j`.
pub proof fn lemma_slot_in_round(r: int, capacity: int, j: int) -> (i: int)
    requires
        0 <= r,
        0 <= j < capacity,
    ensures
        r <= i < r + capacity,
        i % capacity == j,
{
    lemma_fundamental_div_mod(r, capacity);
    lemma_mod_bound(r, capacity);
    let q = r / capacity;
    let i = if j >= r % capacity {
        r - r % capacity + j
    } else {
        r - r % capacity + capacity + j
    };
    assert(r - r % capacity == q * capacity) by (nonlinear_arith)
        requires
            r == capacity * q + r % capacity,
    ;
    if j >= r % capacity {
        lemma_fundamental_div_mod_converse(i, capacity, q, j);
    } else {
        assert((q + 1) * capacity == q * capacity + capacity) by (nonlinear_arith);
        lemma_fundamental_div_mod_converse(i, capacity, q + 1, j);
    }
    i
}

/// What is pushed to an empty queue is what the next pop takes, and the queue is
/// empty again.
pub proof fn law_push_then_pop<T>(pre: State<T>, value: T, pushed: State<T>, popped: State<T>)
    requires
        pre.valid(),
        pushed.valid(),
        pre.available() == 0,
        pre.published(seq![value], pushed),
        pushed.consumed(1, popped),
    ensures
        pushed.queue() == seq![value],
        pushed.queue()[0] == value,
        popped.available() == 0,
{
    assert(pushed.queue() =~= seq![value]);
}

/// Two steps of the producer, one after the other, are one step.
pub proof fn law_producer_steps_compose<T>(a: State<T>, b: State<T>, c: State<T>)
    requires
        a.valid(),
        producer_step(a, b),
        producer_step(b, c),
    ensures
        producer_step(a, c),
{
    assert forall|k: int| a.taken <= k < a.sent.len() implies #[trigger] c.slot(k) == a.slot(k) by {
        assert(b.slot(k) == a.slot(k));
    }
    assert(a.sent.is_prefix_of(c.sent)) by {
        assert(a.sent =~= c.sent.subrange(0, a.sent.len() as int));
    }
    assert(a.due.is_prefix_of(c.due)) by {
        assert(a.due =~= c.due.subrange(0, a.due.len() as int));
    }
}

/// Two steps of the consumer, one after the other, are one step.
pub proof fn law_consumer_steps_compose<T>(a: State<T>, b: State<T>, c: State<T>)
    requires
        a.valid(),
        consumer_step(a, b),
        consumer_step(b, c),
    ensures
        consumer_step(a, c),
{
    assert forall|k: int|
        c.taken <= k < a.freed + a.capacity implies #[trigger] c.slot(k) == a.slot(k) by {
        assert(b.slot(k) == a.slot(k));
    }
    assert(a.due.is_prefix_of(c.due)) by {
        assert(a.due =~= c.due.subrange(0, a.due.len() as int));
    }
}

/// Whatever the consumer does in the middle of a push, the producer finds its
/// slot untouched: it can go on where it stands, and what it has written is
/// what it publishes.
pub proof fn law_consumer_keeps_push<T>(
    producer: Producer<T>,
    at: Push<T>,
    pre: State<T>,
    post: State<T>,
)
    requires
        pre.valid(),
        post.valid(),
        consumer_step(pre, post),
        producer.attached(pre),
        at.backed(producer.known_free(pre), pre),
    ensures
        producer.attached(post),
        producer.known_free(post) == producer.known_free(pre),
        at.backed(producer.known_free(post), post),
        at matches Push::Publish(Publish::Store(n)) ==> post.staged(n as int) == pre.staged(
            n as int,
        ),
{
    crate::producer::law_consumer_keeps_producer(pre, post);
    crate::producer::law_known_free(producer, pre);
    if let Push::Publish(Publish::Store(n)) = at {
        law_consumer_keeps_staged(pre, post, n as int);
    }
}

/// Whatever the consumer does, values staged in free slots stay there.
pub proof fn law_consumer_keeps_staged<T>(pre: State<T>, post: State<T>, n: int)
    requires
        pre.valid(),
        post.valid(),
        consumer_step(pre, post),
        0 <= n <= pre.free(),
    ensures
        post.is_staged(n) == pre.is_staged(n),
        post.staged(n) == pre.staged(n),
        pre.free() <= post.free(),
{
    assert forall|k: int|
        pre.sent.len() <= k < pre.sent.len() + n implies #[trigger] post.slot(k) == pre.slot(
        k,
    ) by {}
    assert forall|k: int|
        pre.sent.len() <= k < pre.sent.len() + n implies #[trigger] pre.slot(k) == post.slot(
        k,
    ) by {
        assert(post.slot(k) == pre.slot(k));
    }
    assert(post.staged(n) =~= pre.staged(n)) by {
        assert forall|i: int| 0 <= i < n implies post.staged(n)[i] == #[trigger] pre.staged(
            n,
        )[i] by {
            assert(post.slot(pre.sent.len() + i) == pre.slot(pre.sent.len() + i));
        }
    }
}

/// Whatever the producer does in the middle of a pop or of a bulk read, the
/// consumer finds the elements that it has seen in their places: the queue only
/// grows at its end.
pub proof fn law_producer_keeps_queue<T>(consumer: Consumer<T>, pre: State<T>, post: State<T>)
    requires
        pre.valid(),
        producer_step(pre, post),
        consumer.attached(pre),
    ensures
        consumer.attached(post),
        pre.queue().is_prefix_of(post.queue()),
        pre.available() <= post.available(),
{
    crate::consumer::law_producer_keeps_consumer(pre, post);
    assert(pre.queue() =~= post.queue().subrange(0, pre.queue().len() as int));
}

/// The slots that the producer takes to be free hold no queued element, and the
/// consumer takes none of them away.
pub proof fn law_known_free_is_free<T>(producer: Producer<T>, pre: State<T>, post: State<T>)
    requires
        pre.valid(),
        post.valid(),
        producer.attached(pre),
        consumer_step(pre, post),
    ensures
        0 <= producer.known_free(pre) <= pre.free() <= pre.capacity - pre.available(),
        producer.attached(post),
        producer.known_free(post) == producer.known_free(pre),
        producer.known_free(post) <= post.free(),
{
    crate::producer::law_known_free(producer, pre);
    crate::producer::law_consumer_keeps_producer(pre, post);
    crate::producer::law_known_free(producer, post);
}

/// The uncommitted elements of a read handle are the first of the queue, the
/// first run of their slots is empty only if there are none, and the second is
/// empty unless they go past the end of the buffer. Whatever the producer does,
/// the handle stays usable and stands for the same elements in the same slots.
pub proof fn law_producer_keeps_read_handle<T>(
    handle: ReadHandle<'_, T>,
    pre: State<T>,
    post: State<T>,
)
    requires
        pre.valid(),
        handle.usable(pre),
        producer_step(pre, post),
    ensures
        ({
            let n = handle.available - handle.committed;
            let first = run_before_wrap(pre.taken, n, pre.capacity);
            &&& 0 <= n <= pre.queue().len()
            &&& handle.usable(post)
            &&& post.queue().take(n) == pre.queue().take(n)
            &&& run_before_wrap(post.taken, n, post.capacity) == first
            &&& forall|i: int|
                0 <= i < n ==> #[trigger] post.slot(pre.taken + i) == pre.slot(pre.taken + i)
            &&& n > 0 ==> first > 0
            &&& first < n <==> pre.taken % pre.capacity + n > pre.capacity
        }),
{
    let n = handle.available - handle.committed;
    crate::consumer::law_known_len(*handle.consumer, pre);
    crate::consumer::law_producer_keeps_consumer(pre, post);
    lemma_mod_bound(pre.taken, pre.capacity);
    assert(post.queue().take(n) =~= pre.queue().take(n));
}

/// The states of a channel from its beginning, each reached from the one before
/// by a step of the producer or of the consumer, or by handing out the wakers
/// that are due.
pub open spec fn is_history<T>(run: Seq<State<T>>) -> bool {
    &&& run.len() > 0
    &&& run[0] == State::<T>::fresh(run[0].capacity)
    &&& forall|i: int| 0 <= i < run.len() - 1 ==> #[trigger] goes_on_at(run, i)
}

/// The run goes on from its state number `i` to the next.
pub open spec fn goes_on_at<T>(run: Seq<State<T>>, i: int) -> bool {
    goes_on(run[i], run[i + 1])
}

/// What can happen to a channel from one state to the next.
pub open spec fn goes_on<T>(pre: State<T>, post: State<T>) -> bool {
    ||| producer_step(pre, post)
    ||| consumer_step(pre, post)
    ||| post == pre.due_taken()
}

/// First in, first out: as a channel goes on, nothing that was sent is lost,
/// changed or reordered, and the consumer never goes back. So the element
/// number `k` to be taken is the element number `k` to be sent.
pub proof fn law_fifo<T>(run: Seq<State<T>>, i: int, j: int)
    requires
        is_history(run),
        0 <= i <= j < run.len(),
    ensures
        run[i].sent.is_prefix_of(run[j].sent),
        run[i].taken <= run[j].taken,
        run[i].freed <= run[j].freed,
        run[i].capacity == run[j].capacity,
        run[i].available() > 0 ==> run[i].queue()[0] == run[j].sent[run[i].taken],
    decreases j - i,
{
    if i < j {
        law_fifo(run, i, j - 1);
        let pre = run[j - 1];
        let post = run[j];
        assert(goes_on_at(run, j - 1));
        assert(run[i].sent =~= post.sent.subrange(0, run[i].sent.len() as int));
        if consumer_step(pre, post) && !producer_step(pre, post) {
            assert(post.sent == pre.sent);
        }
    }
    lemma_taken_nonnegative(run, i);
}

proof fn lemma_taken_nonnegative<T>(run: Seq<State<T>>, i: int)
    requires
        is_history(run),
        0 <= i < run.len(),
    ensures
        run[i].taken >= 0,
    decreases i,
{
    if i > 0 {
        lemma_taken_nonnegative(run, i - 1);
        assert(goes_on_at(run, i - 1));
    }
}

/// Once the producer is gone, it stays gone, and what was sent is final.
pub proof fn law_producer_gone_is_final<T>(run: Seq<State<T>>, i: int, j: int)
    requires
        is_history(run),
        0 <= i <= j < run.len(),
        !run[i].producer_alive,
    ensures
        !run[j].producer_alive,
        run[j].sent == run[i].sent,
    decreases j - i,
{
    if i < j {
        law_producer_gone_is_final(run, i, j - 1);
        assert(goes_on_at(run, j - 1));
    }
}

/// Once the consumer is gone, it stays gone, and it takes nothing any more.
pub proof fn law_consumer_gone_is_final<T>(run: Seq<State<T>>, i: int, j: int)
    requires
        is_history(run),
        0 <= i <= j < run.len(),
        !run[i].consumer_alive,
    ensures
        !run[j].consumer_alive,
        run[j].taken == run[i].taken,
        run[j].freed == run[i].freed,
    decreases j - i,
{
    if i < j {
        law_consumer_gone_is_final(run, i, j - 1);
        assert(goes_on_at(run, j - 1));
    }
}

/// A consumer that finds the producer gone, and after that finds the queue
/// empty, has missed nothing: everything that was ever sent has been taken, and
/// nothing will come.
pub proof fn law_closed_misses_nothing<T>(run: Seq<State<T>>, alive_at: int, write_at: int, j: int)
    requires
        is_history(run),
        0 <= alive_at <= write_at <= j < run.len(),
        run[j].valid(),
        !run[alive_at].producer_alive,
        run[write_at].available() == 0,
    ensures
        run[j].available() == 0,
        run[j].sent == run[write_at].sent,
        run[j].taken == run[j].sent.len(),
{
    law_producer_gone_is_final(run, alive_at, write_at);
    law_producer_gone_is_final(run, write_at, j);
    law_fifo(run, write_at, j);
}

/// A push is over after at most eleven accesses, whatever the consumer does in
/// between.
pub proof fn law_push_is_wait_free<T>(s: State<T>, known_free: int, at: Push<T>)
    ensures
        0 <= at.rank() <= 11,
        at.rank() == 0 <==> at is Done,
        !(at is Done) ==> s.next_push(known_free, at).rank() < at.rank(),
{
}

/// A publication is over after at most seven accesses, whatever the consumer
/// does in between.
pub proof fn law_publish_is_wait_free<T>(s: State<T>, at: Publish)
    ensures
        0 <= at.rank() <= 7,
        at.rank() == 0 <==> at is Done,
        !(at is Done) ==> s.next_publish(at).rank() < at.rank(),
{
}

/// A pop is over after at most eleven accesses, whatever the producer does in
/// between.
pub proof fn law_pop_is_wait_free<T>(s: State<T>, at: Pop<T>)
    ensures
        0 <= at.rank() <= 11,
        at.rank() == 0 <==> at is Done,
        !(at is Done) ==> s.next_pop(at).rank() < at.rank(),
{
}

/// Emptied slots are handed back with at most seven accesses, whatever the
/// producer does in between.
pub proof fn law_hand_back_is_wait_free<T>(s: State<T>, at: HandBack)
    ensures
        0 <= at.rank() <= 7,
        at.rank() == 0 <==> at is Done,
        !(at is Done) ==> s.next_hand_back(at).rank() < at.rank(),
{
}

/// A look for free slots is over after at most twelve accesses, whatever the
/// consumer does in between.
pub proof fn law_write_poll_is_wait_free<T>(s: State<T>, min: int, at: WritePoll)
    ensures
        0 <= at.rank() <= 12,
        at.rank() == 0 <==> at is Done,
        !(at is Done) ==> s.next_write_poll(min, at).rank() < at.rank(),
{
}

/// A look for elements is over after at most twelve accesses, whatever the
/// producer does in between.
pub proof fn law_read_poll_is_wait_free<T>(s: State<T>, min: int, at: ReadPoll)
    ensures
        0 <= at.rank() <= 12,
        at.rank() == 0 <==> at is Done,
        !(at is Done) ==> s.next_read_poll(min, at).rank() < at.rank(),
{
}

/// A half leaves with at most five accesses, whatever the other does in between.
pub proof fn law_leave_is_wait_free<T>(s: State<T>, at: Leave)
    ensures
        0 <= at.rank() <= 5,
        at.rank() == 0 <==> at is Done,
        !(at is Done) ==> s.next_producer_leave(at).rank() < at.rank(),
        !(at is Done) ==> s.next_consumer_leave(at).rank() < at.rank(),
{
}

} // verus!
