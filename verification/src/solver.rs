//! The offline solver for the teleporter check.
//!
//! The hosted program validates register 7 with a two-argument,
//! Ackermann-like recurrence over the words modulo 32768, parameterized
//! by that register. The sought value is the unique `p` with
//! `A(4, 1, p) = 6`. Evaluating the recurrence literally is infeasible;
//! the solver walks closed forms for the low levels, proved equal to the
//! recurrence, and a row-by-row table evaluation stands beside them as a
//! direct, memoized path.

use vstd::arithmetic::div_mod::lemma_add_mod_noop_right;
use vstd::prelude::*;

verus! {

/// The recurrence itself:
/// `A(0, n) = (n + 1) mod 32768`; `A(m, 0) = A(m-1, p)`;
/// `A(m, n) = A(m-1, A(m, n-1))`, with `p` threaded through.
pub open spec fn ack(m: nat, n: nat, p: nat) -> nat
    decreases m, n,
{
    if m == 0 {
        ((n + 1) % 32768) as nat
    } else if n == 0 {
        ack((m - 1) as nat, p, p)
    } else {
        ack((m - 1) as nat, ack(m, (n - 1) as nat, p), p)
    }
}

/// Every value of the recurrence is a word.
pub proof fn lemma_ack_range(m: nat, n: nat, p: nat)
    requires
        p < 32768,
    ensures
        ack(m, n, p) < 32768,
    decreases m, n,
{
    if m == 0 {
    } else if n == 0 {
        lemma_ack_range((m - 1) as nat, p, p);
    } else {
        lemma_ack_range(m, (n - 1) as nat, p);
        lemma_ack_range((m - 1) as nat, ack(m, (n - 1) as nat, p), p);
    }
}

/// Law: the first level is affine, `A(1, n, p) = p + n + 1` modulo 32768.
pub proof fn lemma_ack1(n: nat, p: nat)
    requires
        p < 32768,
    ensures
        ack(1, n, p) == (p + n + 1) % 32768,
    decreases n,
{
    if n == 0 {
        assert(ack(1, 0, p) == ack(0, p, p));
        assert(ack(0, p, p) == (p + 1) % 32768);
    } else {
        lemma_ack1((n - 1) as nat, p);
        assert(ack(1, n, p) == ack(0, ack(1, (n - 1) as nat, p), p));
        assert(ack(0, ack(1, (n - 1) as nat, p), p) == (ack(1, (n - 1) as nat, p) + 1) % 32768);
        lemma_add_mod_noop_right(1, (p + n) as int, 32768);
    }
}

/// Law: the second level is `A(2, n, p) = p*(n + 2) + n + 1` modulo
/// 32768.
pub proof fn lemma_ack2(n: nat, p: nat)
    requires
        p < 32768,
    ensures
        ack(2, n, p) == (p * (n + 2) + n + 1) % 32768,
    decreases n,
{
    if n == 0 {
        assert(ack(2, 0, p) == ack(1, p, p));
        lemma_ack1(p, p);
    } else {
        lemma_ack2((n - 1) as nat, p);
        let x = ack(2, (n - 1) as nat, p);
        assert(ack(2, n, p) == ack(1, x, p));
        lemma_ack1(x, p);
        lemma_add_mod_noop_right((p + 1) as int, (p * (n + 1) + n) as int, 32768);
        assert(p * (n + 2) == p * (n + 1) + p) by (nonlinear_arith);
    }
}

/// Law: the third level's base case is `A(3, 0, p) = p^2 + 3p + 1`
/// modulo 32768.
pub proof fn lemma_ack3_base(p: nat)
    requires
        p < 32768,
    ensures
        ack(3, 0, p) == (p * p + 3 * p + 1) % 32768,
{
    lemma_ack2(p, p);
    assert(p * (p + 2) + p + 1 == p * p + 3 * p + 1) by (nonlinear_arith);
}

/// Law: the third level satisfies the affine recurrence
/// `A(3, n+1, p) = (p+1) * A(3, n, p) + 2p + 1` modulo 32768.
pub proof fn lemma_ack3_step(n: nat, p: nat)
    requires
        p < 32768,
    ensures
        ack(3, n + 1, p) == ((p + 1) * ack(3, n, p) + 2 * p + 1) % 32768,
{
    let x = ack(3, n, p);
    lemma_ack_range(3, n, p);
    assert(ack(3, n + 1, p) == ack(2, x, p));
    lemma_ack2(x, p);
    assert(p * (x + 2) + x + 1 == (p + 1) * x + 2 * p + 1) by (nonlinear_arith);
}

/// `A(3, n, p)`, by iterating the proved affine recurrence `n` times.
pub fn ack3(n: u16, p: u16) -> (r: u16)
    requires
        p < 32768,
    ensures
        r as nat == ack(3, n as nat, p as nat),
        r < 32768,
{
    proof {
        lemma_ack3_base(p as nat);
        assert((p as u32) * (p as u32) <= 32767 * 32767) by (nonlinear_arith)
            requires
                p < 32768,
        ;
    }
    let mut acc: u16 = (((p as u32) * (p as u32) + 3 * (p as u32) + 1) % 32768) as u16;
    let mut i: u16 = 0;
    while i < n
        invariant
            i <= n,
            p < 32768,
            acc < 32768,
            acc as nat == ack(3, i as nat, p as nat),
        decreases n - i,
    {
        proof {
            lemma_ack3_step(i as nat, p as nat);
            assert(((p as u32) + 1) * (acc as u32) <= 32768 * 32767) by (nonlinear_arith)
                requires
                    p < 32768,
                    acc < 32768,
            ;
        }
        acc = ((((p as u32) + 1) * (acc as u32) + 2 * (p as u32) + 1) % 32768) as u16;
        i = i + 1;
    }
    acc
}

/// `A(4, 1, p)`: what the hosted program's validation computes for a
/// candidate `p`, through the closed forms.
pub fn teleporter_check(p: u16) -> (r: u16)
    requires
        p < 32768,
    ensures
        r as nat == ack(4, 1, p as nat),
        r < 32768,
{
    let x = ack3(p, p);
    let r = ack3(x, p);
    proof {
        assert(ack(4, 0, p as nat) == ack(3, p as nat, p as nat));
        assert(ack(4, 1, p as nat) == ack(3, ack(4, 0, p as nat), p as nat));
    }
    r
}

/// `A(m, n, p)` by direct, memoized evaluation: each level's whole row
/// of 32768 values is tabulated from the level below.
pub fn ack_by_table(m: u16, n: u16, p: u16) -> (r: u16)
    requires
        m <= 4,
        n < 32768,
        p < 32768,
    ensures
        r as nat == ack(m as nat, n as nat, p as nat),
{
    let mut row: Vec<u16> = Vec::new();
    let mut j: usize = 0;
    while j < 32768
        invariant
            j <= 32768,
            row@.len() == j,
            forall|k: int|
                0 <= k < j ==> row@[k] as nat == ack(0, k as nat, p as nat) && row@[k] < 32768,
        decreases 32768 - j,
    {
        let v: u16 = if j == 32767 {
            0
        } else {
            (j as u16) + 1
        };
        row.push(v);
        j = j + 1;
    }
    let mut mm: u16 = 0;
    while mm < m
        invariant
            mm <= m,
            p < 32768,
            row@.len() == 32768,
            forall|k: int|
                0 <= k < 32768 ==> row@[k] as nat == ack(mm as nat, k as nat, p as nat)
                    && row@[k] < 32768,
        decreases m - mm,
    {
        let mut new_row: Vec<u16> = Vec::new();
        new_row.push(row[p as usize]);
        proof {
            assert(ack(mm as nat + 1, 0, p as nat) == ack(mm as nat, p as nat, p as nat));
        }
        let mut jj: usize = 1;
        while jj < 32768
            invariant
                1 <= jj <= 32768,
                p < 32768,
                row@.len() == 32768,
                forall|k: int|
                    0 <= k < 32768 ==> row@[k] as nat == ack(mm as nat, k as nat, p as nat)
                        && row@[k] < 32768,
                new_row@.len() == jj,
                forall|k: int|
                    0 <= k < jj ==> new_row@[k] as nat == ack(mm as nat + 1, k as nat, p as nat)
                        && new_row@[k] < 32768,
            decreases 32768 - jj,
        {
            let prev = new_row[jj - 1];
            new_row.push(row[prev as usize]);
            proof {
                assert(ack(mm as nat + 1, jj as nat, p as nat) == ack(
                    mm as nat,
                    ack(mm as nat + 1, (jj - 1) as nat, p as nat),
                    p as nat,
                ));
            }
            jj = jj + 1;
        }
        row = new_row;
        mm = mm + 1;
    }
    row[n as usize]
}

/// Finds the unique parameter the hosted program accepts: the first
/// `p` in `1..=32767` with `A(4, 1, p) = 6`, and `None` when no
/// parameter at all passes the check.
pub fn solve_teleporter() -> (r: Option<u16>)
    ensures
        match r {
            Some(p) => {
                &&& 1 <= p < 32768
                &&& ack(4, 1, p as nat) == 6
                &&& forall|q: u16| 1 <= q < p ==> ack(4, 1, q as nat) != 6
            },
            None => forall|q: u16| 1 <= q < 32768 ==> ack(4, 1, q as nat) != 6,
        },
{
    let mut p: u16 = 1;
    while p < 32768
        invariant
            1 <= p <= 32768,
            forall|q: u16| 1 <= q < p ==> ack(4, 1, q as nat) != 6,
        decreases 32768 - p,
    {
        if teleporter_check(p) == 6 {
            return Some(p);
        }
        p = p + 1;
    }
    None
}

} // verus!
