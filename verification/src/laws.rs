//! What holds of the pool whatever its workers and submitters do, stated over
//! the model and proved from its definition.

use vstd::prelude::*;
use crate::message::Message;
use crate::model::{stop_orders, PoolModel, PoolState, Step};
use crate::reply::ResultSlot;
use crate::worker::{lemma_counts_bounded, lemma_none_live, Outcome, Worker};

verus! {

/// The number of stop orders among the messages.
pub open spec fn stop_order_count<J, S>(queue: Seq<Message<J, S>>) -> nat
    decreases queue.len(),
{
    if queue.len() == 0 {
        0
    } else {
        stop_order_count(queue.drop_last()) + if queue.last() is Terminate { 1nat } else { 0nat }
    }
}

/// The pool after the operations in `steps`, one after the other.
pub open spec fn after_steps<J, S>(pool: PoolModel<J, S>, steps: Seq<Step<J, S>>) -> PoolModel<J, S>
    decreases steps.len(),
{
    if steps.len() == 0 {
        pool
    } else {
        after_steps(pool, steps.drop_last()).after(steps.last())
    }
}

/// Whether the pool allows each of the operations when its turn comes.
pub open spec fn allows_steps<J, S>(pool: PoolModel<J, S>, steps: Seq<Step<J, S>>) -> bool {
    forall|k: int|
        0 <= k < steps.len() ==> (#[trigger] after_steps(pool, steps.take(k))).allows(steps[k])
}

/// The pool after the workers named in `schedule` asked for their next
/// message, one after the other.
pub open spec fn after_turns<J, S>(pool: PoolModel<J, S>, schedule: Seq<int>) -> PoolModel<J, S>
    decreases schedule.len(),
{
    if schedule.len() == 0 {
        pool
    } else {
        after_turns(pool, schedule.drop_last()).receive(schedule.last())
    }
}

/// Whether every step of the schedule is taken by a worker of the pool.
pub open spec fn names_workers<J, S>(pool: PoolModel<J, S>, schedule: Seq<int>) -> bool {
    forall|k: int| 0 <= k < schedule.len() ==> 0 <= #[trigger] schedule[k] < pool.workers.len()
}

/// Whether every step of the schedule is taken by a worker of the pool that,
/// when its turn comes, has not left its loop.
pub open spec fn names_live_workers<J, S>(pool: PoolModel<J, S>, schedule: Seq<int>) -> bool {
    &&& names_workers(pool, schedule)
    &&& forall|k: int|
        0 <= k < schedule.len() ==> (#[trigger] after_turns(pool, schedule.take(k))).workers[schedule[k]].is_live()
}

/// The invariant holds in every state that a pool can reach: in a new pool,
/// and after any operations that were allowed when they were asked for, in
/// whatever order submitters, workers and shutdowns took their turns.
pub proof fn law_invariant_holds_in_every_reachable_state<J, S>(
    n: nat,
    debug: bool,
    steps: Seq<Step<J, S>>,
)
    requires
        1 <= n <= usize::MAX,
        allows_steps(PoolModel::<J, S>::init(n, debug), steps),
    ensures
        after_steps(PoolModel::<J, S>::init(n, debug), steps).inv(),
        after_steps(PoolModel::<J, S>::init(n, debug), steps).workers.len() == n,
{
    PoolModel::<J, S>::lemma_init_inv(n, debug);
    lemma_steps_keep_the_invariant(PoolModel::<J, S>::init(n, debug), steps);
}

/// Operations that are allowed when they are asked for keep the invariant.
proof fn lemma_steps_keep_the_invariant<J, S>(pool: PoolModel<J, S>, steps: Seq<Step<J, S>>)
    requires
        pool.inv(),
        allows_steps(pool, steps),
    ensures
        after_steps(pool, steps).inv(),
        after_steps(pool, steps).workers.len() == pool.workers.len(),
    decreases steps.len(),
{
    if steps.len() > 0 {
        let earlier = steps.drop_last();
        assert forall|k: int| 0 <= k < earlier.len() implies (#[trigger] after_steps(
            pool,
            earlier.take(k),
        )).allows(earlier[k]) by {
            assert(earlier.take(k) =~= steps.take(k));
            assert(earlier[k] == steps[k]);
        }
        lemma_steps_keep_the_invariant(pool, earlier);
        assert(steps.take(steps.len() - 1) =~= earlier);
        after_steps(pool, earlier).lemma_step_inv(steps.last());
    }
}

/// Whoever asks, the message handed out is the same: the oldest in the queue.
/// The worker's identity decides nothing about which job it runs.
pub proof fn law_any_worker_gets_the_oldest_message<J, S>(pool: PoolModel<J, S>, a: int, b: int)
    requires
        pool.inv(),
        0 <= a < pool.workers.len(),
        0 <= b < pool.workers.len(),
        pool.workers[a].is_live(),
        pool.workers[b].is_live(),
    ensures
        pool.next_message(a) == pool.next_message(b),
        pool.queue.len() > 0 ==> pool.next_message(a) == Some(pool.queue[0]),
        pool.receive(a).queue == pool.receive(b).queue,
{
}

/// Jobs leave the queue in the order in which they were submitted, and before
/// any stop order: while an accepted job waits, a worker that asks is handed
/// the oldest such job.
pub proof fn law_jobs_leave_in_submission_order<J, S>(pool: PoolModel<J, S>, w: int)
    requires
        pool.inv(),
        0 <= w < pool.workers.len(),
        pool.workers[w].is_live(),
        pool.dispatched < pool.accepted.len(),
    ensures
        pool.next_message(w) == Some(
            Message::NewJob(
                pool.accepted[pool.dispatched as int].0,
                pool.accepted[pool.dispatched as int].1,
            ),
        ),
        pool.receive(w).dispatched == pool.dispatched + 1,
        pool.receive(w).accepted == pool.accepted,
{
    assert(pool.queue[0] == pool.waiting_jobs()[0]);
}

/// A stop order reaches a worker only when every accepted job was handed out.
pub proof fn law_stop_order_comes_after_every_job<J, S>(pool: PoolModel<J, S>, w: int)
    requires
        pool.inv(),
        0 <= w < pool.workers.len(),
        pool.next_message(w) == Some(Message::<J, S>::Terminate),
    ensures
        !pool.running,
        pool.dispatched == pool.accepted.len(),
        !pool.receive(w).workers[w].is_live(),
{
    if pool.waiting_jobs().len() > 0 {
        assert(pool.queue[0] == pool.waiting_jobs()[0]);
    }
}

/// No job is lost: every accepted job was handed to a worker or waits in the
/// queue, and of those handed out each has finished or keeps one worker busy.
pub proof fn law_no_job_is_lost<J, S>(pool: PoolModel<J, S>)
    requires
        pool.inv(),
    ensures
        pool.accepted.len() == pool.dispatched + (pool.queue.len() - stop_order_count(pool.queue)),
        pool.dispatched == pool.finished + pool.busy(),
        forall|i: int|
            0 <= i < pool.accepted.len() - pool.dispatched ==> pool.queue[i] == Message::NewJob(
                pool.accepted[pool.dispatched + i].0,
                pool.accepted[pool.dispatched + i].1,
            ),
{
    lemma_stop_orders_counted(pool.waiting_jobs(), pool.waiting_stop_orders());
    assert forall|i: int| 0 <= i < pool.accepted.len() - pool.dispatched implies pool.queue[i]
        == Message::NewJob(
        pool.accepted[pool.dispatched + i].0,
        pool.accepted[pool.dispatched + i].1,
    ) by {
        assert(pool.queue[i] == pool.waiting_jobs()[i]);
    }
}

/// A pool of N workers is sent exactly N stop orders, and none while it runs.
/// Each is taken by one worker, which then leaves its loop: the stop orders
/// still queued and the workers that have left add up to N.
pub proof fn law_one_stop_order_per_worker<J, S>(pool: PoolModel<J, S>)
    requires
        pool.inv(),
    ensures
        pool.running ==> stop_order_count(pool.queue) == 0,
        !pool.running ==> stop_order_count(pool.queue) + (pool.workers.len() - pool.live())
            == pool.workers.len(),
        pool.running ==> stop_order_count(pool.shut_down().queue) == pool.workers.len(),
{
    lemma_stop_orders_counted(pool.waiting_jobs(), pool.waiting_stop_orders());
    if pool.running {
        pool.lemma_shut_down_inv();
        let next = pool.shut_down();
        lemma_stop_orders_counted(next.waiting_jobs(), next.waiting_stop_orders());
    }
}

/// A second shutdown does nothing: no stop order is sent again and no thread
/// is waited for again.
pub proof fn law_second_shutdown_changes_nothing<J, S>(pool: PoolModel<J, S>)
    ensures
        pool.shut_down().shut_down() == pool.shut_down(),
        pool.shut_down().threads_to_join() == Seq::<usize>::empty(),
        !pool.shut_down().running,
{
}

/// Once the pool is terminated, no worker is left running and no thread is
/// left to join; the queue is empty, and every job that was ever accepted has
/// run to completion.
pub proof fn law_terminated_pool_is_drained<J, S>(pool: PoolModel<J, S>)
    requires
        pool.inv(),
        pool.state() == PoolState::Terminated,
    ensures
        pool.live() == 0,
        forall|i: int| 0 <= i < pool.workers.len() ==> !(#[trigger] pool.workers[i]).is_live(),
        forall|i: int| 0 <= i < pool.workers.len() ==> (#[trigger] pool.workers[i]).thread is None,
        pool.queue.len() == 0,
        pool.dispatched == pool.accepted.len(),
        pool.finished == pool.accepted.len(),
{
    lemma_none_live(pool.workers);
    lemma_counts_bounded(pool.workers);
    pool.lemma_queue_length();
}

/// During shutdown no worker waits in vain: a worker that has not left its
/// loop finds a message whenever it asks, and while messages wait some worker
/// is there to take them.
pub proof fn law_shutdown_never_stalls<J, S>(pool: PoolModel<J, S>, w: int)
    requires
        pool.inv(),
        !pool.running,
        0 <= w < pool.workers.len(),
    ensures
        pool.workers[w].is_live() ==> pool.next_message(w) is Some && pool.receive(w).queue.len()
            == pool.queue.len() - 1,
        pool.queue.len() > 0 ==> pool.live() > 0,
{
    pool.lemma_queue_length();
    lemma_none_live(pool.workers);
}

/// Workers taking messages, in any order, keep the invariant, and change
/// neither what was accepted, nor whether the pool runs, nor how many workers
/// it has.
pub proof fn law_turns_keep_the_invariant<J, S>(
    pool: PoolModel<J, S>,
    schedule: Seq<int>,
)
    requires
        pool.inv(),
        names_workers(pool, schedule),
    ensures
        after_turns(pool, schedule).inv(),
        after_turns(pool, schedule).workers.len() == pool.workers.len(),
        after_turns(pool, schedule).accepted == pool.accepted,
        after_turns(pool, schedule).running == pool.running,
        after_turns(pool, schedule).debug == pool.debug,
    decreases schedule.len(),
{
    if schedule.len() > 0 {
        let earlier = schedule.drop_last();
        assert forall|k: int| 0 <= k < earlier.len() implies 0 <= #[trigger] earlier[k]
            < pool.workers.len() by {
            assert(earlier[k] == schedule[k]);
        }
        law_turns_keep_the_invariant(pool, earlier);
        after_turns(pool, earlier).lemma_receive_inv(schedule.last());
    }
}

/// A shutdown completes. After the pool was shut down, let the workers take
/// messages in any order, each turn going to a worker that has not left its
/// loop: when as many turns were taken as messages waited, the pool is
/// terminated, and every accepted job has run to completion.
pub proof fn law_shutdown_completes<J, S>(pool: PoolModel<J, S>, schedule: Seq<int>)
    requires
        pool.inv(),
        !pool.running,
        names_live_workers(pool, schedule),
        schedule.len() == pool.queue.len(),
    ensures
        after_turns(pool, schedule).state() == PoolState::Terminated,
        after_turns(pool, schedule).queue.len() == 0,
        after_turns(pool, schedule).finished == pool.accepted.len(),
{
    lemma_live_turns_shorten_the_queue(pool, schedule);
    law_turns_keep_the_invariant(pool, schedule);
    let end = after_turns(pool, schedule);
    end.lemma_queue_length();
    law_terminated_pool_is_drained(end);
}

/// A shutdown can always be completed: whatever state the pool was shut down
/// in, there is a schedule of as many turns as messages wait, each turn going
/// to a worker that has not left its loop. By `law_shutdown_completes` every
/// such schedule ends with the pool terminated.
pub proof fn law_shutdown_can_complete<J, S>(pool: PoolModel<J, S>) -> (schedule: Seq<int>)
    requires
        pool.inv(),
        !pool.running,
    ensures
        names_live_workers(pool, schedule),
        schedule.len() == pool.queue.len(),
    decreases pool.queue.len(),
{
    if pool.queue.len() == 0 {
        Seq::empty()
    } else {
        law_shutdown_never_stalls(pool, 0);
        lemma_none_live(pool.workers);
        let w = choose|i: int| 0 <= i < pool.workers.len() && pool.workers[i].is_live();
        let next = pool.receive(w);
        pool.lemma_receive_inv(w);
        law_shutdown_never_stalls(pool, w);
        let rest = law_shutdown_can_complete(next);
        let schedule = seq![w] + rest;
        assert(schedule.take(0) =~= Seq::<int>::empty());
        assert forall|k: int| 0 <= k < schedule.len() implies 0 <= #[trigger] schedule[k]
            < pool.workers.len() by {
            if k > 0 {
                assert(schedule[k] == rest[k - 1]);
            }
        }
        assert forall|k: int| 0 <= k < schedule.len() implies (#[trigger] after_turns(
            pool,
            schedule.take(k),
        )).workers[schedule[k]].is_live() by {
            if k > 0 {
                assert(schedule.take(k) =~= seq![w] + rest.take(k - 1));
                lemma_run_first_turn(pool, w, rest.take(k - 1));
                assert(schedule[k] == rest[k - 1]);
                assert(after_turns(next, rest.take(k - 1)).workers[rest[k - 1]].is_live());
            }
        }
        schedule
    }
}

/// A schedule is run turn by turn, from its first turn on.
proof fn lemma_run_first_turn<J, S>(pool: PoolModel<J, S>, w: int, rest: Seq<int>)
    ensures
        after_turns(pool, seq![w] + rest) == after_turns(pool.receive(w), rest),
    decreases rest.len(),
{
    let schedule = seq![w] + rest;
    if rest.len() == 0 {
        assert(schedule.drop_last() =~= Seq::<int>::empty());
        assert(after_turns(pool, schedule.drop_last()) == pool);
    } else {
        assert(schedule.drop_last() =~= seq![w] + rest.drop_last());
        lemma_run_first_turn(pool, w, rest.drop_last());
    }
}

/// Every turn of a live worker during shutdown takes one message off the
/// queue.
proof fn lemma_live_turns_shorten_the_queue<J, S>(pool: PoolModel<J, S>, schedule: Seq<int>)
    requires
        pool.inv(),
        !pool.running,
        names_live_workers(pool, schedule),
        schedule.len() <= pool.queue.len(),
    ensures
        after_turns(pool, schedule).queue.len() == pool.queue.len() - schedule.len(),
    decreases schedule.len(),
{
    if schedule.len() > 0 {
        let earlier = schedule.drop_last();
        let k = schedule.len() - 1;
        assert(schedule.take(k) =~= earlier);
        assert forall|i: int| 0 <= i < earlier.len() implies 0 <= #[trigger] earlier[i]
            < pool.workers.len() by {
            assert(earlier[i] == schedule[i]);
        }
        assert forall|i: int| 0 <= i < earlier.len() implies (#[trigger] after_turns(
            pool,
            earlier.take(i),
        )).workers[earlier[i]].is_live() by {
            assert(earlier.take(i) =~= schedule.take(i));
            assert(earlier[i] == schedule[i]);
        }
        lemma_live_turns_shorten_the_queue(pool, earlier);
        law_turns_keep_the_invariant(pool, earlier);
        let before = after_turns(pool, earlier);
        assert(after_turns(pool, schedule.take(k)).workers[schedule[k]].is_live());
        law_shutdown_never_stalls(before, schedule.last());
    }
}

/// Counting the stop orders in a queue made of jobs followed by stop orders.
proof fn lemma_stop_orders_counted<J, S>(jobs: Seq<Message<J, S>>, n: nat)
    requires
        forall|i: int| 0 <= i < jobs.len() ==> jobs[i] is NewJob,
    ensures
        stop_order_count(jobs + stop_orders::<J, S>(n)) == n,
    decreases jobs.len() + n,
{
    let queue = jobs + stop_orders::<J, S>(n);
    if n > 0 {
        assert(queue.drop_last() =~= jobs + stop_orders::<J, S>((n - 1) as nat));
        lemma_stop_orders_counted(jobs, (n - 1) as nat);
    } else if jobs.len() > 0 {
        assert(queue.drop_last() =~= jobs.drop_last() + stop_orders::<J, S>(0));
        lemma_stop_orders_counted(jobs.drop_last(), 0);
    }
}

/// Each result handle yields the value of its own job, once, whichever worker
/// ran the job. While a job waits, any worker that asks is handed the oldest
/// one; handling it gives a value that this job returns, owed to the handle
/// that was submitted with it; and the channel behind a handle yields what was
/// sent on it to the first receive, and nothing to a later one.
pub proof fn law_each_handle_yields_its_own_job<J, R, S>(
    pool: PoolModel<J, S>,
    w: int,
    outcome: Outcome<R, S>,
    channel: ResultSlot<R>,
) where J: FnOnce() -> R
    requires
        pool.inv(),
        0 <= w < pool.workers.len(),
        pool.workers[w].is_live(),
        pool.dispatched < pool.accepted.len(),
        pool.next_message(w) matches Some(message) && Worker::handled(message, outcome),
        channel.accepts(),
    ensures
        outcome matches Outcome::Finished(value, to) && call_ensures(
            pool.accepted[pool.dispatched as int].0,
            (),
            value,
        ) && to == pool.accepted[pool.dispatched as int].1 && channel.after_send(value).received()
            == Some(value) && channel.after_send(value).after_recv().received() == None::<R>,
{
    law_jobs_leave_in_submission_order(pool, w);
}

/// Logging decides nothing: two pools that differ in the debug flag alone take
/// the same steps and hand out the same messages.
pub proof fn law_debug_decides_nothing<J, S>(
    pool: PoolModel<J, S>,
    debug: bool,
    w: int,
    job: J,
    reply: Option<S>,
)
    ensures
        (PoolModel { debug, ..pool }).inv() == pool.inv(),
        (PoolModel { debug, ..pool }).state() == pool.state(),
        (PoolModel { debug, ..pool }).submit(job, reply) == (PoolModel {
            debug,
            ..pool.submit(job, reply)
        }),
        (PoolModel { debug, ..pool }).shut_down() == (PoolModel { debug, ..pool.shut_down() }),
        (PoolModel { debug, ..pool }).threads_to_join() == pool.threads_to_join(),
        (PoolModel { debug, ..pool }).next_message(w) == pool.next_message(w),
        (PoolModel { debug, ..pool }).receive(w) == (PoolModel { debug, ..pool.receive(w) }),
{
    let other = PoolModel { debug, ..pool };
    assert(other.waiting_jobs() =~= pool.waiting_jobs());
}

/// A value sent on a fresh channel is received exactly once, and it is the
/// value that was sent: the first receive yields it, every later one nothing.
pub proof fn law_value_is_received_exactly_once<R>(value: R)
    ensures
        ResultSlot::<R>::Empty.accepts(),
        ResultSlot::<R>::Empty.after_send(value).received() == Some(value),
        ResultSlot::<R>::Empty.after_send(value).after_recv().received() == None::<R>,
        ResultSlot::<R>::Empty.after_send(value).after_recv().after_recv().received() == None::<R>,
{
}

/// A channel takes one value at most: after a send that succeeded, no other
/// send does, before the value is received or after; and nothing is received
/// that was not sent.
pub proof fn law_channel_carries_one_value<R>(slot: ResultSlot<R>, first: R, second: R)
    requires
        slot.accepts(),
    ensures
        !slot.after_send(first).accepts(),
        slot.after_send(first).after_send(second) == slot.after_send(first),
        !slot.after_send(first).after_recv().accepts(),
        slot.received() == None::<R>,
        slot.after_send(first).received() == Some(first),
{
}

/// A sender that goes away takes nothing back: what it had sent is still
/// received. Where it had sent nothing the channel is closed for good, and
/// neither a send nor a receive gets anything through it.
pub proof fn law_hanging_up_loses_nothing_sent<R>(slot: ResultSlot<R>, value: R)
    requires
        slot.accepts(),
    ensures
        slot.after_send(value).after_abandon() == slot.after_send(value),
        slot.after_send(value).after_abandon().received() == Some(value),
        slot.after_abandon() == ResultSlot::<R>::Closed,
        !slot.after_abandon().accepts(),
        slot.after_abandon().after_send(value) == ResultSlot::<R>::Closed,
        slot.after_abandon().received() == None::<R>,
{
}

} // verus!
