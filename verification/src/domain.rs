//! Evaluation-domain sizing: the trace length is rounded up to a power of
//! two, and the two larger domains are fixed multiples of it.

use vstd::prelude::*;

verus! {

/// Largest supported trace length. The bound keeps the eight-fold domain size
/// within a 64-bit machine word.
pub const MAX_CIRCUIT_ROWS: u64 = 0x1000_0000_0000_0000;

/// Whether `n` is a power of two.
pub open spec fn is_pow2(n: nat) -> bool
    decreases n,
{
    if n == 1 {
        true
    } else if n < 1 || n % 2 != 0 {
        false
    } else {
        is_pow2(n / 2)
    }
}

/// The least power of two that is at least `n` (and at least 1).
pub open spec fn next_pow2_spec(n: nat) -> nat
    decreases n,
{
    if n <= 1 {
        1
    } else {
        2 * next_pow2_spec((n + 1) / 2)
    }
}

/// A power of two doubled is a power of two.
pub proof fn lemma_pow2_double(n: nat)
    requires
        is_pow2(n),
    ensures
        is_pow2(2 * n),
{
    assert(2 * n >= 2);
    assert((2 * n) % 2 == 0);
    assert((2 * n) / 2 == n);
}

/// `next_pow2_spec` returns a power of two no smaller than its argument and,
/// for a nonzero argument, smaller than its double.
pub proof fn lemma_next_pow2_props(n: nat)
    ensures
        is_pow2(next_pow2_spec(n)),
        next_pow2_spec(n) >= n,
        next_pow2_spec(n) >= 1,
        n >= 1 ==> next_pow2_spec(n) < 2 * n,
    decreases n,
{
    if n <= 1 {
    } else {
        let m = ((n + 1) / 2) as nat;
        assert(1 <= m < n);
        lemma_next_pow2_props(m);
        lemma_pow2_double(next_pow2_spec(m));
        assert(2 * m >= n);
        assert(next_pow2_spec(n) == 2 * next_pow2_spec(m));
        assert(2 * next_pow2_spec(m) >= 2 * m);
        assert(next_pow2_spec(n) < 2 * n) by {
            assert(2 * m == n || 2 * m == n + 1);
            if 2 * m == n {
                assert(next_pow2_spec(m) < 2 * m);
            } else {
                assert(n % 2 == 1);
                assert(next_pow2_spec(m) < 2 * m);
                assert(next_pow2_spec(m) <= n);
                if next_pow2_spec(m) == n {
                    assert(is_pow2(n));
                    assert(false);
                }
                assert(next_pow2_spec(m) < n);
            }
        }
    }
}

/// There is exactly one power of two in `[n, 2 n)`: any such power equals
/// `next_pow2_spec(n)`.
pub proof fn lemma_next_pow2_unique(n: nat, r: nat)
    requires
        n >= 1,
        is_pow2(r),
        r >= n,
        r < 2 * n,
    ensures
        r == next_pow2_spec(n),
    decreases n,
{
    if n == 1 {
        assert(r < 2);
        assert(r == 1);
    } else {
        let m = ((n + 1) / 2) as nat;
        assert(1 <= m < n);
        assert(r >= 2);
        assert(r % 2 == 0);
        let r2 = r / 2;
        assert(is_pow2(r2));
        assert(r == 2 * r2);
        assert(2 * m == n || 2 * m == n + 1);
        assert(r2 >= m) by {
            if 2 * m == n + 1 {
                assert(r >= n);
                assert(r % 2 == 0);
                assert(n % 2 != 0);
                assert(r != n);
                assert(r >= n + 1);
            }
        }
        assert(r2 < 2 * m) by {
            assert(r < 2 * n);
            assert(n <= 2 * m);
        }
        lemma_next_pow2_unique(m, r2);
        assert(next_pow2_spec(n) == 2 * next_pow2_spec(m));
    }
}

/// Computes the least power of two that is at least `n` (and at least 1).
pub fn next_pow2(n: u64) -> (r: u64)
    requires
        n <= MAX_CIRCUIT_ROWS,
    ensures
        r as nat == next_pow2_spec(n as nat),
        is_pow2(r as nat),
        r >= n,
        r >= 1,
        n >= 1 ==> r < 2 * n,
    decreases n,
{
    let mut p: u64 = 1;
    while p < n
        invariant
            n <= MAX_CIRCUIT_ROWS,
            1 <= p,
            is_pow2(p as nat),
            n >= 1 ==> (p as nat) < 2 * (n as nat),
            n == 0 ==> p == 1,
        decreases 2 * n - p,
    {
        proof {
            lemma_pow2_double(p as nat);
        }
        p = p * 2;
    }
    proof {
        if n >= 1 {
            lemma_next_pow2_unique(n as nat, p as nat);
        } else {
            assert(p == 1);
        }
    }
    p
}

/// The three evaluation-domain sizes of a constraint system: the padded trace
/// length `d1`, and its four-fold and eight-fold enlargements.
#[derive(Clone, Copy, PartialEq, Eq, Structural, Debug)]
pub struct Domains {
    pub d1: u64,
    pub d4: u64,
    pub d8: u64,
}

impl Domains {
    /// The domain sizes are consistent: `d1` is the padded trace length of a
    /// circuit with `rows` gate rows, and the larger domains are its fixed
    /// multiples.
    pub open spec fn wf(self, rows: nat) -> bool {
        &&& self.d1 as nat == next_pow2_spec(if rows >= 1 {
            rows
        } else {
            1
        })
        &&& self.d4 as nat == 4 * self.d1 as nat
        &&& self.d8 as nat == 8 * self.d1 as nat
    }
}

/// Builds the three domain sizes for a circuit with `rows` gate rows.
pub fn domains_for(rows: u64) -> (r: Domains)
    requires
        rows <= MAX_CIRCUIT_ROWS,
    ensures
        r.wf(rows as nat),
        is_pow2(r.d1 as nat),
{
    let base: u64 = if rows >= 1 {
        rows
    } else {
        1
    };
    let d1 = next_pow2(base);
    proof {
        lemma_next_pow2_props(base as nat);
        assert(d1 as nat <= 2 * base as nat);
    }
    Domains { d1, d4: 4 * d1, d8: 8 * d1 }
}

} // verus!
