//! Ring polynomials over Z_q with cyclic convolution.

use vstd::prelude::*;
use crate::dilithium::params::DilithiumParams;

verus! {

/// A polynomial of the ring, as its coefficient vector.
#[derive(Clone, Debug)]
pub struct Polynomial {
    pub coeff: Vec<i64>,
}

/// The contribution of row `i`, columns below `upto_j`, to cell `k` of the
/// cyclic convolution of `a` and `b` in a ring of size `n`.
pub open spec fn conv_row(a: Seq<i64>, b: Seq<i64>, n: int, k: int, i: int, upto_j: int) -> int
    decreases upto_j,
{
    if upto_j <= 0 {
        0
    } else {
        conv_row(a, b, n, k, i, upto_j - 1) + if (i + (upto_j - 1)) % n == k {
            a[i] * b[upto_j - 1]
        } else {
            0
        }
    }
}

/// The contribution of the rows below `upto_i` to cell `k`.
pub open spec fn conv_sum_upto(a: Seq<i64>, b: Seq<i64>, n: int, k: int, upto_i: int) -> int
    decreases upto_i,
{
    if upto_i <= 0 {
        0
    } else {
        conv_sum_upto(a, b, n, k, upto_i - 1) + conv_row(a, b, n, k, upto_i - 1, n)
    }
}

/// Cell `k` of the cyclic convolution of `a` and `b`: the sum of
/// `a[i] * b[j]` over all pairs with `(i + j) % n == k`.
pub open spec fn conv_sum(a: Seq<i64>, b: Seq<i64>, n: int, k: int) -> int {
    conv_sum_upto(a, b, n, k, n)
}

/// The least non-negative residue of `x` modulo `q`.
pub(crate) fn mod_q(x: i64, q: i64) -> (r: i64)
    requires
        1 <= q <= 0x8000_0000,
        -0x7000_0000_0000_0000 <= x <= 0x7000_0000_0000_0000,
    ensures
        r as int == (x as int) % (q as int),
        0 <= r < q,
{
    proof {
        vstd::arithmetic::div_mod::lemma_mod_bound(x as int, q as int);
    }
    if x >= 0 {
        x % q
    } else {
        let y = -x;
        let t = y % q;
        proof {
            let qi = q as int;
            let yi = y as int;
            vstd::arithmetic::div_mod::lemma_fundamental_div_mod(yi, qi);
            vstd::arithmetic::div_mod::lemma_mod_bound(yi, qi);
            if t == 0 {
                assert(x as int == qi * (-(yi / qi)) + 0) by (nonlinear_arith)
                    requires yi == qi * (yi / qi) + 0, x as int == -yi;
                vstd::arithmetic::div_mod::lemma_fundamental_div_mod_converse(
                    x as int,
                    qi,
                    -(yi / qi),
                    0,
                );
            } else {
                assert(x as int == qi * (-(yi / qi) - 1) + (qi - t)) by (nonlinear_arith)
                    requires yi == qi * (yi / qi) + t, x as int == -yi;
                vstd::arithmetic::div_mod::lemma_fundamental_div_mod_converse(
                    x as int,
                    qi,
                    -(yi / qi) - 1,
                    qi - t,
                );
            }
        }
        if t == 0 {
            0
        } else {
            q - t
        }
    }
}

impl Polynomial {
    /// The zero polynomial of `n` coefficients.
    pub fn new(n: usize) -> (r: Self)
        ensures
            r.coeff@.len() == n,
            forall|i: int| 0 <= i < n ==> r.coeff@[i] == 0,
    {
        let mut coeff: Vec<i64> = Vec::new();
        while coeff.len() < n
            invariant
                coeff@.len() <= n,
                forall|i: int| 0 <= i < coeff@.len() ==> coeff@[i] == 0,
            decreases n - coeff@.len(),
        {
            coeff.push(0);
        }
        Polynomial { coeff }
    }

    /// The cyclic convolution of two polynomials, with every cell reduced
    /// to its least non-negative residue modulo `q`.
    pub fn mul(&self, other: &Self, params: &DilithiumParams) -> (r: Self)
        requires
            params.wf(),
            self.coeff@.len() == params.n,
            other.coeff@.len() == params.n,
            forall|i: int| 0 <= i < params.n ==> -params.q < #[trigger] self.coeff@[i] < params.q,
            forall|i: int| 0 <= i < params.n ==> -params.q < #[trigger] other.coeff@[i] < params.q,
        ensures
            r.coeff@.len() == params.n,
            forall|k: int|
                0 <= k < params.n ==> #[trigger] r.coeff@[k] as int == conv_sum(
                    self.coeff@,
                    other.coeff@,
                    params.n as int,
                    k,
                ) % (params.q as int),
            forall|k: int| 0 <= k < params.n ==> 0 <= #[trigger] r.coeff@[k] < params.q,
    {
        let n = params.n;
        let q = params.q;
        let ghost a = self.coeff@;
        let ghost b = other.coeff@;
        let ghost ni = n as int;
        let ghost qi = q as int;

        let mut result: Vec<i64> = Vec::new();
        while result.len() < n
            invariant
                result@.len() <= n,
                forall|k: int| 0 <= k < result@.len() ==> result@[k] == 0,
            decreases n - result@.len(),
        {
            result.push(0);
        }
        proof {
            assert forall|k: int| 0 <= k < ni implies result@[k] as int == conv_sum_upto(
                a,
                b,
                ni,
                k,
                0,
            ) % qi by {
                assert(conv_sum_upto(a, b, ni, k, 0) == 0);
                vstd::arithmetic::div_mod::lemma_small_mod(0, qi as nat);
            }
        }

        let mut i: usize = 0;
        while i < n
            invariant
                params.wf(),
                n == params.n,
                q == params.q,
                a == self.coeff@,
                b == other.coeff@,
                ni == n as int,
                qi == q as int,
                self.coeff@.len() == n,
                other.coeff@.len() == n,
                forall|t: int| 0 <= t < n ==> -q < #[trigger] a[t] < q,
                forall|t: int| 0 <= t < n ==> -q < #[trigger] b[t] < q,
                i <= n,
                result@.len() == n,
                forall|k: int|
                    0 <= k < n ==> #[trigger] result@[k] as int == conv_sum_upto(a, b, ni, k, i as int)
                        % qi && 0 <= result@[k] < q,
            decreases n - i,
        {
            let mut j: usize = 0;
            while j < n
                invariant
                    params.wf(),
                    n == params.n,
                    q == params.q,
                    a == self.coeff@,
                    b == other.coeff@,
                    ni == n as int,
                    qi == q as int,
                    self.coeff@.len() == n,
                    other.coeff@.len() == n,
                    forall|t: int| 0 <= t < n ==> -q < #[trigger] a[t] < q,
                    forall|t: int| 0 <= t < n ==> -q < #[trigger] b[t] < q,
                    i < n,
                    j <= n,
                    result@.len() == n,
                    forall|k: int|
                        0 <= k < n ==> #[trigger] result@[k] as int == (conv_sum_upto(a, b, ni, k, i as int)
                            + conv_row(a, b, ni, k, i as int, j as int)) % qi && 0 <= result@[k]
                            < q,
                decreases n - j,
            {
                let idx = (i + j) % n;
                let ghost prev = result@;
                let cur = result[idx];
                proof {
                    assert(a == self.coeff@ && b == other.coeff@);
                    assert(-0x8000_0000 <= a[i as int] <= 0x8000_0000);
                    assert(-0x8000_0000 <= b[j as int] <= 0x8000_0000);
                    assert(-0x4000_0000_0000_0000 <= (a[i as int] as int) * (b[j as int] as int)
                        <= 0x4000_0000_0000_0000) by (nonlinear_arith)
                        requires
                            -0x8000_0000 <= a[i as int] <= 0x8000_0000,
                            -0x8000_0000 <= b[j as int] <= 0x8000_0000;
                }
                let term = self.coeff[i] * other.coeff[j];
                let reduced = mod_q(cur + term, q);
                result.set(idx, reduced);
                proof {
                    let ki = idx as int;
                    let s = conv_sum_upto(a, b, ni, ki, i as int) + conv_row(
                        a,
                        b,
                        ni,
                        ki,
                        i as int,
                        j as int,
                    );
                    vstd::arithmetic::div_mod::lemma_add_mod_noop_right(
                        term as int,
                        s,
                        qi,
                    );
                    assert(result@[ki] as int == (s + term) % qi);
                    assert forall|k: int| 0 <= k < n implies #[trigger] result@[k] as int == (
                    conv_sum_upto(a, b, ni, k, i as int) + conv_row(
                        a,
                        b,
                        ni,
                        k,
                        i as int,
                        j + 1,
                    )) % qi && 0 <= result@[k] < q by {
                        assert(conv_row(a, b, ni, k, i as int, j + 1) == conv_row(
                            a,
                            b,
                            ni,
                            k,
                            i as int,
                            j as int,
                        ) + if (i as int + j as int) % ni == k {
                            a[i as int] * b[j as int]
                        } else {
                            0int
                        });
                        if k != ki {
                            assert(result@[k] == prev[k]);
                        }
                    }
                }
                j = j + 1;
            }
            proof {
                assert forall|k: int| 0 <= k < n implies #[trigger] result@[k] as int
                    == conv_sum_upto(a, b, ni, k, i + 1) % qi by {
                    assert(conv_sum_upto(a, b, ni, k, i + 1) == conv_sum_upto(a, b, ni, k, i as int)
                        + conv_row(a, b, ni, k, i as int, ni));
                }
            }
            i = i + 1;
        }
        Polynomial { coeff: result }
    }
}

} // verus!
