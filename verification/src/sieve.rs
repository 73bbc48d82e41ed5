//! The numeric sieve: computes every prime up to a limit, in increasing
//! order, by striking out multiples of each prime found.
use vstd::prelude::*;

verus! {

pub open spec fn divides(d: int, n: int) -> bool {
    exists|q: int| n == #[trigger] (d * q)
}

/// A prime: at least 2, with no divisor strictly between 1 and itself.
pub open spec fn is_prime(n: int) -> bool {
    n >= 2 && forall|d: int| 2 <= d < n ==> !(#[trigger] divides(d, n))
}

/// n has a divisor d with 2 <= d < bound whose square is at most n.
pub open spec fn has_small_factor(n: int, bound: int) -> bool {
    exists|d: int| 2 <= d < bound && #[trigger] divides(d, n) && d * d <= n
}

proof fn lemma_divides_transitive(a: int, b: int, c: int)
    requires
        divides(a, b),
        divides(b, c),
    ensures
        divides(a, c),
{
    let q1 = choose|q1: int| b == #[trigger] (a * q1);
    let q2 = choose|q2: int| c == #[trigger] (b * q2);
    assert((a * q1) * q2 == a * (q1 * q2)) by (nonlinear_arith);
    assert(c == a * (q1 * q2));
}

/// A number with a proper divisor has one whose square is at most itself.
proof fn lemma_factor_pair(n: int, d: int)
    requires
        2 <= d < n,
        divides(d, n),
    ensures
        exists|e: int| 2 <= e < n && #[trigger] divides(e, n) && e * e <= n,
{
    let q = choose|q: int| n == #[trigger] (d * q);
    assert(q >= 2 && q < n) by (nonlinear_arith)
        requires
            n == d * q,
            2 <= d < n,
    ;
    assert(n == q * d) by (nonlinear_arith)
        requires
            n == d * q,
    ;
    assert(divides(q, n));
    if d * d <= n {
        assert(2 <= d < n && divides(d, n) && d * d <= n);
    } else {
        assert(q * q <= n) by (nonlinear_arith)
            requires
                n == d * q,
                d * d > n,
                2 <= d,
                2 <= q,
        ;
        assert(2 <= q < n && divides(q, n) && q * q <= n);
    }
}

/// No multiple of i lies strictly between i*m and i*(m+1).
proof fn lemma_no_multiple_between(i: int, m: int, k: int)
    requires
        i >= 1,
        i * m < k < i * (m + 1),
    ensures
        !divides(i, k),
{
    if divides(i, k) {
        let q = choose|q: int| k == #[trigger] (i * q);
        assert(m < q < m + 1) by (nonlinear_arith)
            requires
                i >= 1,
                k == i * q,
                i * m < k < i * (m + 1),
        ;
    }
}

/// Computes all primes up to and including the limit, in increasing order.
pub fn sieve_of_eratosthenes(limit: usize) -> (primes: Vec<usize>)
    requires
        limit < usize::MAX,
    ensures
        forall|j: int|
            0 <= j < primes@.len() ==> is_prime(#[trigger] primes@[j] as int) && primes@[j]
                <= limit,
        forall|p: int|
            2 <= p <= limit && is_prime(p) ==> exists|j: int|
                0 <= j < primes@.len() && #[trigger] primes@[j] as int == p,
        forall|j1: int, j2: int| 0 <= j1 < j2 < primes@.len() ==> primes@[j1] < primes@[j2],
{
    if limit < 2 {
        return Vec::new();
    }
    let mut flags: Vec<bool> = Vec::new();
    let mut t: usize = 0;
    while t < limit + 1
        invariant
            limit < usize::MAX,
            t <= limit + 1,
            flags@.len() == t,
            forall|k: int| 0 <= k < t ==> flags@[k],
        decreases limit + 1 - t,
    {
        flags.push(true);
        t = t + 1;
    }
    flags.set(0, false);
    flags.set(1, false);
    assert(forall|k: int| 0 <= k <= limit ==> (#[trigger] flags@[k] <==> (k >= 2 && !has_small_factor(k, 2))))
        by {
        assert forall|k: int| has_small_factor(k, 2) implies false by {
            let d = choose|d: int| 2 <= d < 2 && #[trigger] divides(d, k) && d * d <= k;
        }
    }
    let mut i: usize = 2;
    while i <= limit / i
        invariant
            2 <= i <= limit,
            2 <= limit < usize::MAX,
            flags@.len() == limit + 1,
            forall|k: int|
                0 <= k <= limit ==> (#[trigger] flags@[k] <==> (k >= 2 && !has_small_factor(k, i as int))),
        decreases limit - i,
    {
        proof {
            vstd::arithmetic::div_mod::lemma_fundamental_div_mod(limit as int, i as int);
            assert(i as int * i as int <= i as int * (limit / i) as int) by (nonlinear_arith)
                requires
                    i as int <= (limit / i) as int,
                    i as int >= 1,
            ;
            assert(i * i <= limit);
            assert(i as int <= i as int * i as int) by (nonlinear_arith)
                requires
                    i as int >= 1,
            ;
        }
        if flags[i] {
            let mut j: usize = i * i;
            let ghost mut m: int = i as int;
            proof {
                assert(j as int == i as int * m) by (nonlinear_arith)
                    requires
                        j == i * i,
                        m == i as int,
                ;
                assert forall|k: int|
                    0 <= k <= limit implies (#[trigger] flags@[k] <==> (k >= 2 && !has_small_factor(
                    k,
                    i as int,
                ) && !(divides(i as int, k) && i as int * i as int <= k < i as int * m))) by {
                    assert(!(i as int * i as int <= k < i as int * m));
                }
            }
            while j <= limit
                invariant
                    2 <= i <= limit,
                    2 <= limit < usize::MAX,
                    i * i <= limit,
                    m >= i,
                    j <= limit ==> j as int == i as int * m,
                    j > limit ==> j == limit + 1 && i as int * m > limit,
                    flags@.len() == limit + 1,
                    forall|k: int|
                        0 <= k <= limit ==> (#[trigger] flags@[k] <==> (k >= 2 && !has_small_factor(
                            k,
                            i as int,
                        ) && !(divides(i as int, k) && i as int * i as int <= k < i as int * m))),
                decreases limit + 1 - j,
            {
                flags.set(j, false);
                proof {
                    assert(divides(i as int, j as int)) by {
                        assert(j as int == #[trigger] (i as int * m));
                    }
                    assert(i as int * i as int <= i as int * m) by (nonlinear_arith)
                        requires
                            i as int >= 1,
                            m >= i as int,
                    ;
                    assert(i as int * (m + 1) == i as int * m + i as int) by (nonlinear_arith);
                    assert forall|k: int|
                        0 <= k <= limit implies (#[trigger] flags@[k] <==> (k >= 2 && !has_small_factor(
                        k,
                        i as int,
                    ) && !(divides(i as int, k) && i as int * i as int <= k < i as int * (m
                        + 1)))) by {
                        if k == j as int {
                            assert(!flags@[k]);
                            assert(divides(i as int, k));
                            assert(i as int * i as int <= k);
                            assert(k < i as int * (m + 1));
                        } else {
                            if i as int * m < k < i as int * (m + 1) {
                                lemma_no_multiple_between(i as int, m, k);
                                assert(!divides(i as int, k));
                            }
                            assert((divides(i as int, k) && i as int * i as int <= k < i as int * (m
                                + 1)) == (divides(i as int, k) && i as int * i as int <= k < i as int
                                * m));
                        }
                    }
                }
                if j <= limit - i {
                    j = j + i;
                    proof {
                        m = m + 1;
                    }
                } else {
                    j = limit + 1;
                    proof {
                        m = m + 1;
                    }
                }
            }
            proof {
                assert forall|k: int|
                    0 <= k <= limit implies (#[trigger] flags@[k] <==> (k >= 2 && !has_small_factor(
                    k,
                    i as int + 1,
                ))) by {
                    assert(#[trigger] flags@[k] <==> (k >= 2 && !has_small_factor(k, i as int) && !(divides(
                        i as int,
                        k,
                    ) && i as int * i as int <= k)));
                    if has_small_factor(k, i as int + 1) {
                        let d = choose|d: int|
                            2 <= d < i as int + 1 && #[trigger] divides(d, k) && d * d <= k;
                        if d < i as int {
                            assert(has_small_factor(k, i as int));
                        } else {
                            assert(d == i as int);
                            assert(divides(i as int, k) && i as int * i as int <= k);
                        }
                    }
                    if has_small_factor(k, i as int) {
                        let d = choose|d: int| 2 <= d < i as int && #[trigger] divides(d, k) && d
                            * d <= k;
                        assert(has_small_factor(k, i as int + 1));
                    }
                    if divides(i as int, k) && i as int * i as int <= k {
                        assert(has_small_factor(k, i as int + 1));
                    }
                }
            }
        } else {
            proof {
                assert(has_small_factor(i as int, i as int));
                let e = choose|e: int| 2 <= e < i as int && #[trigger] divides(e, i as int) && e * e
                    <= i as int;
                assert forall|k: int|
                    0 <= k <= limit implies (#[trigger] flags@[k] <==> (k >= 2 && !has_small_factor(
                    k,
                    i as int + 1,
                ))) by {
                    if has_small_factor(k, i as int + 1) {
                        let d = choose|d: int|
                            2 <= d < i as int + 1 && #[trigger] divides(d, k) && d * d <= k;
                        if d < i as int {
                            assert(has_small_factor(k, i as int));
                        } else {
                            assert(d == i as int);
                            lemma_divides_transitive(e, i as int, k);
                            assert(e * e <= (i as int) && (i as int) <= (i as int) * (i as int) && (i as int) * (i as int) <= k);
                            assert(has_small_factor(k, i as int));
                        }
                    }
                    if has_small_factor(k, i as int) {
                        let d = choose|d: int| 2 <= d < i as int && #[trigger] divides(d, k) && d
                            * d <= k;
                        assert(has_small_factor(k, i as int + 1));
                    }
                }
            }
        }
        proof {
            assert(2 * (i as int) <= (i as int) * (i as int)) by (nonlinear_arith)
                requires
                    i as int >= 2,
            ;
        }
        i = i + 1;
    }
    proof {
        vstd::arithmetic::div_mod::lemma_fundamental_div_mod(limit as int, i as int);
        assert((limit as int) < (i as int) * (i as int)) by (nonlinear_arith)
            requires
                (limit / i) as int <= (i as int) - 1,
                limit as int == (i as int) * ((limit / i) as int) + ((limit as int) % (i as int)),
                0 <= (limit as int) % (i as int) && (limit as int) % (i as int) < (i as int),
                i as int >= 2,
        ;
        assert forall|k: int| 0 <= k <= limit implies (#[trigger] flags@[k] <==> is_prime(k)) by {
            if flags@[k] {
                assert(k >= 2 && !has_small_factor(k, i as int));
                assert forall|d: int| 2 <= d < k implies !(#[trigger] divides(d, k)) by {
                    if divides(d, k) {
                        lemma_factor_pair(k, d);
                        let e = choose|e: int| 2 <= e < k && #[trigger] divides(e, k) && e * e
                            <= k;
                        assert(e < i as int) by (nonlinear_arith)
                            requires
                                e * e <= k,
                                k < i as int * i as int,
                                e >= 2,
                                i as int >= 2,
                        ;
                        assert(has_small_factor(k, i as int));
                    }
                }
            } else {
                if k >= 2 {
                    assert(has_small_factor(k, i as int));
                    let d = choose|d: int| 2 <= d < i as int && #[trigger] divides(d, k) && d * d
                        <= k;
                    assert(d < k) by (nonlinear_arith)
                        requires
                            2 <= d,
                            d * d <= k,
                    ;
                    assert(!is_prime(k));
                }
            }
        }
    }
    let mut primes: Vec<usize> = Vec::new();
    let mut num: usize = 0;
    while num <= limit
        invariant
            num <= limit + 1,
            limit < usize::MAX,
            flags@.len() == limit + 1,
            forall|k: int| 0 <= k <= limit ==> (#[trigger] flags@[k] <==> is_prime(k)),
            forall|j: int|
                0 <= j < primes@.len() ==> is_prime(#[trigger] primes@[j] as int) && primes@[j]
                    < num,
            forall|p: int|
                0 <= p < num && is_prime(p) ==> exists|j: int|
                    0 <= j < primes@.len() && #[trigger] primes@[j] as int == p,
            forall|j1: int, j2: int| 0 <= j1 < j2 < primes@.len() ==> primes@[j1] < primes@[j2],
        decreases limit + 1 - num,
    {
        let ghost ps0 = primes@;
        if flags[num] {
            primes.push(num);
        }
        proof {
            assert forall|p: int| 0 <= p < num + 1 && is_prime(p) implies exists|j: int|
                0 <= j < primes@.len() && #[trigger] primes@[j] as int == p by {
                if p == num as int {
                    assert(flags@[p]);
                    assert(primes@[primes@.len() - 1] as int == p);
                } else {
                    let j = choose|j: int| 0 <= j < ps0.len() && #[trigger] ps0[j] as int == p;
                    assert(primes@[j] as int == p);
                }
            }
        }
        num = num + 1;
    }
    primes
}

} // verus!
