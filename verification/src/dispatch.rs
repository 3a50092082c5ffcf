//! The spreading of requests over the workers.

use vstd::arithmetic::div_mod::{
    lemma_add_mod_noop, lemma_fundamental_div_mod, lemma_fundamental_div_mod_converse,
    lemma_mod_add_multiples_vanish, lemma_mod_mod, lemma_mod_self_0, lemma_mod_twice, lemma_small_mod,
};
use vstd::prelude::*;

verus! {

/// How many workers answer requests for single features.
pub const NUM_WORKERS: i32 = 4;

/// The worker that gets the request with this number.
pub fn worker_for(ticket: usize, workers: usize) -> (worker: usize)
    requires
        workers > 0,
    ensures
        worker == ticket % workers,
        worker < workers,
{
    ticket % workers
}

/// The number of the request that comes `later` requests after the one with
/// number `first`. Numbers start again at zero when they run out.
pub open spec fn ticket_after(first: usize, later: nat) -> int {
    (first + later) % (usize::MAX + 1)
}

/// Spreads requests over the workers, one after the other.
pub struct Dispatcher {
    worker_index: usize,
}

impl View for Dispatcher {
    type V = usize;

    /// The number of the next request.
    closed spec fn view(&self) -> usize {
        self.worker_index
    }
}

impl Dispatcher {
    /// A dispatcher that starts with the first worker.
    pub fn new() -> (dispatcher: Dispatcher)
        ensures
            dispatcher@ == 0,
    {
        Dispatcher { worker_index: 0 }
    }

    /// The worker for the next request. Each request gets the number after
    /// that of the request before it.
    pub fn next_worker(&mut self, workers: usize) -> (worker: usize)
        requires
            workers > 0,
        ensures
            worker == old(self)@ % workers,
            worker < workers,
            final(self)@ == ticket_after(old(self)@, 1),
            old(self)@ < usize::MAX ==> final(self)@ == old(self)@ + 1,
            old(self)@ == usize::MAX ==> final(self)@ == 0,
    {
        let ticket: usize = self.worker_index;
        self.worker_index = ticket.wrapping_add(1);
        proof {
            if ticket == usize::MAX {
                lemma_mod_self_0(usize::MAX + 1);
            } else {
                lemma_small_mod((ticket + 1) as nat, (usize::MAX + 1) as nat);
            }
        }
        worker_for(ticket, workers)
    }
}

/// Counting on from a later request is counting on from an earlier one.
pub proof fn tickets_follow_each_other(first: usize, middle: usize, before: nat, after: nat)
    requires
        middle == ticket_after(first, before),
    ensures
        ticket_after(middle, after) == ticket_after(first, before + after),
{
    lemma_add_mod_noop((first + before) as int, after as int, usize::MAX + 1);
    lemma_mod_twice((first + before) as int, usize::MAX + 1);
    lemma_add_mod_noop(middle as int, after as int, usize::MAX + 1);
}

/// The request itself has its own number, the next one has the number after it,
/// and after the greatest number comes zero.
pub proof fn tickets_count_up_and_start_again(first: usize, later: nat)
    ensures
        ticket_after(first, 0) == first,
        0 <= ticket_after(first, later) <= usize::MAX,
        ticket_after(first, later) < usize::MAX ==> ticket_after(first, later + 1) == ticket_after(
            first,
            later,
        ) + 1,
        ticket_after(first, later) == usize::MAX ==> ticket_after(first, later + 1) == 0,
{
    let size = usize::MAX + 1;
    lemma_small_mod(first as nat, size as nat);
    lemma_add_mod_noop((first + later) as int, 1, size);
    lemma_small_mod(1, size as nat);
    let ticket = ticket_after(first, later);
    if ticket < usize::MAX {
        lemma_small_mod((ticket + 1) as nat, size as nat);
    } else {
        lemma_mod_self_0(size);
    }
}

/// Every run of as many requests as there are workers gives each worker
/// exactly one request. Where the numbers run out within the run, this holds if
/// they are a multiple of the workers.
pub proof fn requests_are_spread_evenly(first: usize, workers: usize, worker: usize)
    requires
        worker < workers,
        first + workers <= usize::MAX + 1 || (usize::MAX + 1) % (workers as int) == 0,
    ensures
        exists|later: nat|
            later < workers && #[trigger] ticket_after(first, later) % (workers as int) == worker,
        forall|one: nat, other: nat|
            one < workers && other < workers && #[trigger] ticket_after(first, one) % (
            workers as int) == worker && #[trigger] ticket_after(first, other) % (workers as int)
                == worker ==> one == other,
{
    let d = workers as int;
    let q = first as int / d;
    let r = first as int % d;
    lemma_fundamental_div_mod(first as int, d);
    let later = if worker >= r {
        worker - r
    } else {
        worker - r + d
    };
    lemma_ticket_worker(first, workers, later as nat);
    assert((first + later) % d == worker) by {
        if worker >= r {
            lemma_fundamental_div_mod_converse(first + later, d, q, worker as int);
        } else {
            assert(first + later == (q + 1) * d + worker) by (nonlinear_arith)
                requires
                    first == d * q + r,
                    later == worker - r + d,
            ;
            lemma_fundamental_div_mod_converse(first + later, d, q + 1, worker as int);
        }
    }
    assert(ticket_after(first, later as nat) % d == worker);
    assert forall|one: nat, other: nat|
        one < workers && other < workers && #[trigger] ticket_after(first, one) % d == worker
            && #[trigger] ticket_after(first, other) % d == worker implies one == other by {
        lemma_ticket_worker(first, workers, one);
        lemma_ticket_worker(first, workers, other);
        let a = (first + one) / d;
        let b = (first + other) / d;
        lemma_fundamental_div_mod(first + one, d);
        lemma_fundamental_div_mod(first + other, d);
        assert(a == b) by (nonlinear_arith)
            requires
                d * a + worker == first + one,
                d * b + worker == first + other,
                0 <= one < d,
                0 <= other < d,
        ;
    }
}

/// How often the request with number `ticket` goes to `worker`: once or not at
/// all.
pub open spec fn turns(ticket: int, workers: usize, worker: usize) -> nat {
    if ticket % (workers as int) == worker {
        1
    } else {
        0
    }
}

/// How many of `requests` requests, counted from the one with number `first`,
/// go to `worker`.
pub open spec fn requests_for(
    first: usize,
    requests: nat,
    workers: usize,
    worker: usize,
) -> nat
    decreases requests,
{
    if requests == 0 {
        0
    } else {
        requests_for(first, (requests - 1) as nat, workers, worker) + turns(
            ticket_after(first, (requests - 1) as nat),
            workers,
            worker,
        )
    }
}

/// Over any number of rounds of requests each worker gets exactly one request
/// a round. Where the numbers run out on the way, this holds if they are a
/// multiple of the workers.
pub proof fn every_round_serves_every_worker(
    first: usize,
    rounds: nat,
    workers: usize,
    worker: usize,
)
    requires
        worker < workers,
        first + rounds * workers <= usize::MAX + 1 || (usize::MAX + 1) % (workers as int) == 0,
    ensures
        requests_for(first, (rounds * workers) as nat, workers, worker) == rounds,
{
    let requests = (rounds * workers) as nat;
    assert(requests == rounds * workers) by (nonlinear_arith)
        requires
            requests == (rounds * workers) as nat,
            rounds >= 0,
            workers >= 0,
    ;
    lemma_requests_are_numbers(first, requests, workers, worker);
    lemma_rounds(first as int, rounds, workers, worker);
}

/// How many of the `len` numbers from `start` on fall to `worker`.
spec fn numbers_for(start: int, len: nat, workers: usize, worker: usize) -> nat
    decreases len,
{
    if len == 0 {
        0
    } else {
        numbers_for(start, (len - 1) as nat, workers, worker) + turns(
            start + len - 1,
            workers,
            worker,
        )
    }
}

/// Counting requests is counting numbers.
proof fn lemma_requests_are_numbers(
    first: usize,
    requests: nat,
    workers: usize,
    worker: usize,
)
    requires
        worker < workers,
        first + requests <= usize::MAX + 1 || (usize::MAX + 1) % (workers as int) == 0,
    ensures
        requests_for(first, requests, workers, worker) == numbers_for(
            first as int,
            requests,
            workers,
            worker,
        ),
    decreases requests,
{
    if requests > 0 {
        let last = (requests - 1) as nat;
        lemma_requests_are_numbers(first, last, workers, worker);
        lemma_ticket_worker(first, workers, last);
    }
}

/// A run of numbers is its first number and the rest.
proof fn lemma_numbers_first(start: int, len: nat, workers: usize, worker: usize)
    requires
        len > 0,
    ensures
        numbers_for(start, len, workers, worker) == turns(start, workers, worker) + numbers_for(
            start + 1,
            (len - 1) as nat,
            workers,
            worker,
        ),
    decreases len,
{
    reveal_with_fuel(numbers_for, 2);
    if len > 1 {
        lemma_numbers_first(start, (len - 1) as nat, workers, worker);
    }
}

/// A run of numbers is a shorter run and the run after it.
proof fn lemma_numbers_split(start: int, a: nat, b: nat, workers: usize, worker: usize)
    ensures
        numbers_for(start, a + b, workers, worker) == numbers_for(start, a, workers, worker)
            + numbers_for(start + a, b, workers, worker),
    decreases b,
{
    if b > 0 {
        lemma_numbers_split(start, a, (b - 1) as nat, workers, worker);
    }
}

/// The first numbers fall to the workers in turn.
proof fn lemma_numbers_from_zero(len: nat, workers: usize, worker: usize)
    requires
        worker < workers,
        len <= workers,
    ensures
        numbers_for(0, len, workers, worker) == if worker < len {
            1nat
        } else {
            0nat
        },
    decreases len,
{
    if len > 0 {
        lemma_numbers_from_zero((len - 1) as nat, workers, worker);
        lemma_small_mod((len - 1) as nat, workers as nat);
    }
}

/// Of as many numbers as there are workers, one falls to each worker.
proof fn lemma_one_round(start: nat, workers: usize, worker: usize)
    requires
        worker < workers,
    ensures
        numbers_for(start as int, workers as nat, workers, worker) == 1,
    decreases start,
{
    if start == 0 {
        lemma_numbers_from_zero(workers as nat, workers, worker);
    } else {
        let before = start - 1;
        lemma_one_round(before as nat, workers, worker);
        lemma_numbers_first(before, workers as nat, workers, worker);
        lemma_mod_add_multiples_vanish(before, workers as int);
    }
}

/// Of any number of rounds, one number of each falls to each worker.
proof fn lemma_rounds(start: int, rounds: nat, workers: usize, worker: usize)
    requires
        start >= 0,
        worker < workers,
    ensures
        numbers_for(start, rounds * (workers as nat), workers, worker) == rounds,
    decreases rounds,
{
    let d = workers as nat;
    if rounds > 0 {
        let earlier = (rounds - 1) as nat;
        lemma_rounds(start, earlier, workers, worker);
        assert(rounds * d == earlier * d + d) by (nonlinear_arith)
            requires
                rounds == earlier + 1,
        ;
        assert(earlier * d >= 0) by (nonlinear_arith)
            requires
                earlier >= 0,
                d >= 0,
        ;
        lemma_numbers_split(start, earlier * d, d, workers, worker);
        lemma_one_round((start + earlier * d) as nat, workers, worker);
    } else {
        assert(rounds * d == 0) by (nonlinear_arith)
            requires
                rounds == 0,
        ;
    }
}

/// Numbers that start again do not change whose turn it is.
proof fn lemma_ticket_worker(first: usize, workers: usize, later: nat)
    requires
        workers > 0,
        first + later <= usize::MAX || (usize::MAX + 1) % (workers as int) == 0,
    ensures
        ticket_after(first, later) % (workers as int) == (first + later) % (workers as int),
{
    let size = usize::MAX + 1;
    let d = workers as int;
    if first + later < size {
        lemma_small_mod((first + later) as nat, size as nat);
    } else {
        lemma_fundamental_div_mod(size, d);
        assert(size / d > 0) by (nonlinear_arith)
            requires
                size == d * (size / d),
                size > 0,
                d > 0,
        ;
        lemma_mod_mod(first + later, d, size / d);
    }
}

/// The request numbers are a multiple of the service's own number of workers,
/// which is four.
pub proof fn own_workers_share_all_requests()
    ensures
        (usize::MAX + 1) % (NUM_WORKERS as int) == 0,
        NUM_WORKERS == 4,
{
    vstd::layout::unsigned_int_max_values();
}

} // verus!
