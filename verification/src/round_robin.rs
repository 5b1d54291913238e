//! How futures are spread over the workers.
//!
//! Each spawn draws a ticket from a counter that the handles of a pool share, and the ticket
//! decides which worker gets the future. Tickets are numbered without a gap until the counter
//! wraps around.

use vstd::arithmetic::div_mod::{
    lemma_fundamental_div_mod, lemma_fundamental_div_mod_converse, lemma_mod_mod, lemma_small_mod,
};
use vstd::prelude::*;

verus! {

/// The worker whose turn it is with `ticket`, of `nworkers` workers.
pub open spec fn turn_of(ticket: int, nworkers: int) -> int {
    ticket % nworkers
}

/// The worker that gets the future holding `ticket`, of `nworkers` workers.
pub fn worker_for(ticket: usize, nworkers: usize) -> (worker: usize)
    requires
        nworkers > 0,
    ensures
        worker == turn_of(ticket as int, nworkers as int),
        worker < nworkers,
{
    ticket % nworkers
}

/// The `k`-th ticket drawn from a counter that stands at `base`: the counter counts up by one and
/// wraps around.
pub open spec fn ticket(base: usize, k: int) -> int {
    (base + k) % (usize::MAX + 1)
}

/// The worker that gets the `k`-th future spawned while the counter stands at `base`.
pub open spec fn assigned(base: usize, k: int, nworkers: usize) -> int {
    turn_of(ticket(base, k), nworkers as int)
}

/// Whether the first `count` tickets keep the workers in turn: either the counter does not wrap
/// around among them, or the number of workers divides the number of values it takes.
pub open spec fn in_turn(base: usize, count: int, nworkers: usize) -> bool {
    base + count <= usize::MAX + 1 || (usize::MAX + 1) % nworkers as int == 0
}

/// How many of the first `count` futures worker `worker` gets.
pub open spec fn load(base: usize, count: nat, nworkers: usize, worker: int) -> nat
    decreases count,
{
    if count == 0 {
        0
    } else {
        let before = load(base, (count - 1) as nat, nworkers, worker);
        if assigned(base, count - 1, nworkers) == worker {
            before + 1
        } else {
            before
        }
    }
}

/// While the workers stay in turn, the wrap-around of the counter does not show: the `k`-th future
/// goes to the worker `k` places after the one whose turn it is.
pub proof fn law_kth_worker(base: usize, k: int, nworkers: usize)
    requires
        nworkers > 0,
        k >= 0,
        in_turn(base, k + 1, nworkers),
    ensures
        assigned(base, k, nworkers) == (base + k) % nworkers as int,
        0 <= assigned(base, k, nworkers) < nworkers,
{
    let m = usize::MAX + 1;
    let n = nworkers as int;
    let x = base + k;
    if x < m {
        lemma_small_mod(x as nat, m as nat);
    } else {
        let q = m / n;
        assert(m == n * q) by {
            lemma_fundamental_div_mod(m, n);
        }
        assert(q > 0) by (nonlinear_arith)
            requires
                m == n * q,
                m > 0,
                n > 0,
        ;
        lemma_mod_mod(x, n, q);
    }
}

/// The difference of two numbers with the same remainder is no smaller than the divisor, unless
/// they are equal.
proof fn lemma_same_remainder(x: int, y: int, n: int)
    requires
        n > 0,
        x < y,
        x % n == y % n,
    ensures
        y - x >= n,
{
    lemma_fundamental_div_mod(x, n);
    lemma_fundamental_div_mod(y, n);
    let a = x / n;
    let b = y / n;
    assert(n * b - n * a >= n) by (nonlinear_arith)
        requires
            n * b - n * a > 0,
            n > 0,
    ;
}

/// No ticket is drawn twice before the counter has been all the way around.
pub proof fn law_tickets_differ(base: usize, j: int, k: int)
    requires
        0 <= j < k <= j + usize::MAX,
    ensures
        ticket(base, j) != ticket(base, k),
{
    if ticket(base, j) == ticket(base, k) {
        lemma_same_remainder(base + j, base + k, usize::MAX + 1);
    }
}

/// Futures are spawned onto the workers round-robin: the next future goes to the next worker, and
/// after the last worker it is the first one's turn.
pub proof fn law_next_worker(base: usize, k: int, nworkers: usize)
    requires
        nworkers > 0,
        k >= 0,
        in_turn(base, k + 2, nworkers),
    ensures
        assigned(base, k + 1, nworkers) == (if assigned(base, k, nworkers) == nworkers - 1 {
            0
        } else {
            assigned(base, k, nworkers) + 1
        }),
{
    let n = nworkers as int;
    law_kth_worker(base, k, nworkers);
    law_kth_worker(base, k + 1, nworkers);
    let x = base + k;
    lemma_fundamental_div_mod(x, n);
    if x % n == n - 1 {
        assert(x + 1 == (x / n + 1) * n + 0) by (nonlinear_arith)
            requires
                x == n * (x / n) + x % n,
                x % n == n - 1,
        ;
        lemma_fundamental_div_mod_converse(x + 1, n, x / n + 1, 0);
    } else {
        assert(x + 1 == (x / n) * n + (x % n + 1)) by (nonlinear_arith)
            requires
                x == n * (x / n) + x % n,
        ;
        lemma_fundamental_div_mod_converse(x + 1, n, x / n, x % n + 1);
    }
}

/// A counter that stands at zero starts with the first worker.
pub proof fn law_first_worker(nworkers: usize)
    requires
        nworkers > 0,
    ensures
        assigned(0, 0, nworkers) == 0,
{
    law_kth_worker(0, 0, nworkers);
    lemma_small_mod(0, nworkers as nat);
}

/// A worker does not get a second future before every other worker has had one.
pub proof fn law_no_worker_twice(base: usize, j: int, k: int, nworkers: usize)
    requires
        nworkers > 0,
        0 <= j < k < j + nworkers,
        in_turn(base, k + 1, nworkers),
    ensures
        assigned(base, j, nworkers) != assigned(base, k, nworkers),
{
    law_kth_worker(base, j, nworkers);
    law_kth_worker(base, k, nworkers);
    if assigned(base, j, nworkers) == assigned(base, k, nworkers) {
        lemma_same_remainder(base + j, base + k, nworkers as int);
    }
}

/// The turn of `worker` among as many futures in a row, from the `from`-th on, as there are
/// workers.
proof fn lemma_turn_of(base: usize, from: int, nworkers: usize, worker: int) -> (k: int)
    requires
        nworkers > 0,
        from >= 0,
        in_turn(base, from + nworkers, nworkers),
        0 <= worker < nworkers,
    ensures
        from <= k < from + nworkers,
        assigned(base, k, nworkers) == worker,
{
    let n = nworkers as int;
    let x = base + from;
    let r = x % n;
    let q = x / n;
    let k = if worker >= r {
        from + worker - r
    } else {
        from + worker - r + n
    };
    law_kth_worker(base, k, nworkers);
    lemma_fundamental_div_mod(x, n);
    if worker >= r {
        assert(base + k == q * n + worker) by (nonlinear_arith)
            requires
                base + from == n * q + r,
                k == from + worker - r,
        ;
        lemma_fundamental_div_mod_converse(base + k, n, q, worker);
    } else {
        assert(base + k == (q + 1) * n + worker) by (nonlinear_arith)
            requires
                base + from == n * q + r,
                k == from + worker - r + n,
        ;
        lemma_fundamental_div_mod_converse(base + k, n, q + 1, worker);
    }
    k
}

/// Of as many futures in a row as there are workers, every worker gets one.
pub proof fn law_every_worker(base: usize, from: int, nworkers: usize, worker: int)
    requires
        nworkers > 0,
        from >= 0,
        in_turn(base, from + nworkers, nworkers),
        0 <= worker < nworkers,
    ensures
        exists|k: int|
            from <= k < from + nworkers && #[trigger] assigned(base, k, nworkers) == worker,
{
    let k = lemma_turn_of(base, from, nworkers, worker);
    assert(assigned(base, k, nworkers) == worker);
}

/// Within one round a worker's load grows at its turn and stays the same otherwise.
proof fn lemma_load_in_round(base: usize, from: nat, len: nat, nworkers: usize, worker: int)
    requires
        nworkers > 0,
        len <= nworkers,
        in_turn(base, (from + len) as int, nworkers),
    ensures
        load(base, from + len, nworkers, worker) == load(base, from, nworkers, worker) + (if exists|
            k: int,
        |
            from <= k < from + len && #[trigger] assigned(base, k, nworkers) == worker {
            1nat
        } else {
            0nat
        }),
    decreases len,
{
    if len > 0 {
        let last = from + len - 1;
        lemma_load_in_round(base, from, (len - 1) as nat, nworkers, worker);
        if assigned(base, last, nworkers) == worker {
            assert forall|k: int| from <= k < last implies #[trigger] assigned(base, k, nworkers)
                != worker by {
                law_no_worker_twice(base, k, last, nworkers);
            }
        }
    }
}

/// After whole rounds every worker has had one future per round.
proof fn lemma_load_after_rounds(base: usize, rounds: nat, nworkers: usize, worker: int)
    requires
        nworkers > 0,
        in_turn(base, (rounds * nworkers) as int, nworkers),
        0 <= worker < nworkers,
    ensures
        load(base, (rounds * nworkers) as nat, nworkers, worker) == rounds,
    decreases rounds,
{
    if rounds > 0 {
        let from = ((rounds - 1) * nworkers) as nat;
        assert(rounds * nworkers == from + nworkers && from <= rounds * nworkers)
            by (nonlinear_arith)
            requires
                from == (rounds - 1) * nworkers,
                rounds > 0,
        ;
        lemma_load_after_rounds(base, (rounds - 1) as nat, nworkers, worker);
        law_every_worker(base, from as int, nworkers, worker);
        lemma_load_in_round(base, from, nworkers as nat, nworkers, worker);
    } else {
        assert(rounds * nworkers == 0) by (nonlinear_arith)
            requires
                rounds == 0,
        ;
    }
}

/// The load is balanced: of `count` futures every worker gets its share, rounded down or rounded
/// up.
pub proof fn law_balanced(base: usize, count: nat, nworkers: usize, worker: int)
    requires
        nworkers > 0,
        in_turn(base, count as int, nworkers),
        0 <= worker < nworkers,
    ensures
        count / nworkers as nat <= load(base, count, nworkers, worker),
        load(base, count, nworkers, worker) <= (count + nworkers - 1) / nworkers as int,
{
    let n = nworkers as int;
    let rounds = count / nworkers as nat;
    let rest = count % nworkers as nat;
    lemma_fundamental_div_mod(count as int, n);
    assert(n * rounds == rounds * nworkers) by (nonlinear_arith)
        requires
            n == nworkers,
    ;
    let whole = (rounds * nworkers) as nat;
    assert(whole + rest == count);
    lemma_load_after_rounds(base, rounds, nworkers, worker);
    lemma_load_in_round(base, whole, rest, nworkers, worker);
    if rest == 0 {
        lemma_fundamental_div_mod_converse(count + n - 1, n, rounds as int, n - 1);
    } else {
        assert(count + n - 1 == (rounds + 1) * n + (rest - 1)) by (nonlinear_arith)
            requires
                count == rounds * n + rest,
        ;
        lemma_fundamental_div_mod_converse(count + n - 1, n, (rounds + 1) as int, rest - 1);
    }
}

/// No worker is ever more than one future ahead of another.
pub proof fn law_loads_differ_by_one(base: usize, count: nat, nworkers: usize, a: int, b: int)
    requires
        nworkers > 0,
        in_turn(base, count as int, nworkers),
        0 <= a < nworkers,
        0 <= b < nworkers,
    ensures
        load(base, count, nworkers, a) <= load(base, count, nworkers, b) + 1,
{
    let n = nworkers as int;
    let rounds = count / nworkers as nat;
    law_balanced(base, count, nworkers, a);
    law_balanced(base, count, nworkers, b);
    assert((count + n - 1) / n <= count as int / n + 1) by (nonlinear_arith)
        requires
            n > 0,
    ;
}

/// The worker of a ticket is what is left of the ticket once whole rounds are taken off.
pub proof fn law_worker_for(ticket: usize, nworkers: usize, worker: usize)
    requires
        nworkers > 0,
        call_ensures(worker_for, (ticket, nworkers), worker),
    ensures
        worker < nworkers,
        exists|rounds: int| rounds >= 0 && ticket == #[trigger] (rounds * nworkers) + worker,
{
    let n = nworkers as int;
    let rounds = ticket as int / n;
    lemma_fundamental_div_mod(ticket as int, n);
    assert(rounds >= 0 && n * rounds == rounds * nworkers) by (nonlinear_arith)
        requires
            rounds == ticket as int / n,
            n == nworkers,
            n > 0,
    ;
    assert(ticket == rounds * nworkers + worker);
}

/// The first ticket is what the counter stands at, and each ticket is one more than the one before,
/// with zero after the largest.
pub proof fn law_tickets_count_up(base: usize, k: int)
    requires
        k >= 0,
    ensures
        ticket(base, 0) == base,
        0 <= ticket(base, k) <= usize::MAX,
        ticket(base, k + 1) == if ticket(base, k) == usize::MAX {
            0
        } else {
            ticket(base, k) + 1
        },
{
    let m = usize::MAX + 1;
    let x = base + k;
    lemma_small_mod(base as nat, m as nat);
    lemma_fundamental_div_mod(x, m);
    if x % m == m - 1 {
        assert(x + 1 == (x / m + 1) * m + 0) by (nonlinear_arith)
            requires
                x == m * (x / m) + x % m,
                x % m == m - 1,
        ;
        lemma_fundamental_div_mod_converse(x + 1, m, x / m + 1, 0);
    } else {
        assert(x + 1 == (x / m) * m + (x % m + 1)) by (nonlinear_arith)
            requires
                x == m * (x / m) + x % m,
        ;
        lemma_fundamental_div_mod_converse(x + 1, m, x / m, x % m + 1);
    }
}

} // verus!
