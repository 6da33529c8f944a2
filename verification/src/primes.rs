use vstd::prelude::*;
use vstd::arithmetic::div_mod::{lemma_fundamental_div_mod, lemma_mod_multiples_basic};

verus! {

/// `n` is a prime: at least 2 and divisible by no number strictly between 1 and `n`.
pub open spec fn is_prime(n: int) -> bool {
    &&& n >= 2
    &&& forall|d: int| 2 <= d < n ==> #[trigger] (n % d) != 0
}

/// The number of primes `p` with `2 <= p <= limit`.
pub open spec fn prime_count(limit: int) -> nat
    decreases limit,
{
    if limit < 2 {
        0
    } else {
        prime_count(limit - 1) + if is_prime(limit) { 1nat } else { 0nat }
    }
}

/// `x` has a factor `d` with `2 <= d < k` and `d * d <= x`: the sieve has
/// crossed `x` out once every base below `k` has been processed.
pub open spec fn has_small_factor(x: int, k: int) -> bool {
    exists|d: int| 2 <= d < k && d * d <= x && #[trigger] (x % d) == 0
}

/// Divisibility is transitive: `d | k` and `k | x` give `d | x`.
proof fn lemma_divides_transitive(d: int, k: int, x: int)
    requires
        2 <= d,
        2 <= k,
        0 <= x,
        k % d == 0,
        x % k == 0,
    ensures
        x % d == 0,
{
    lemma_fundamental_div_mod(k, d);
    lemma_fundamental_div_mod(x, k);
    let a = k / d;
    let b = x / k;
    assert(x == (a * b) * d) by (nonlinear_arith)
        requires
            k == d * a,
            x == k * b,
    ;
    lemma_mod_multiples_basic(a * b, d);
}

/// Processing base `k` adds exactly the multiples of `k` from `k * k` on.
proof fn lemma_small_factor_step(x: int, k: int)
    requires
        2 <= k,
    ensures
        has_small_factor(x, k + 1) == (has_small_factor(x, k) || (x % k == 0 && k * k <= x)),
{
    if has_small_factor(x, k + 1) {
        let d = choose|d: int| 2 <= d < k + 1 && d * d <= x && #[trigger] (x % d) == 0;
        if d < k {
            assert(has_small_factor(x, k));
        }
    }
    if has_small_factor(x, k) {
        let d = choose|d: int| 2 <= d < k && d * d <= x && #[trigger] (x % d) == 0;
        assert(2 <= d < k + 1 && d * d <= x && x % d == 0);
    }
    if x % k == 0 && k * k <= x {
        assert(2 <= k < k + 1 && k * k <= x && x % k == 0);
    }
}

/// When `k` itself is already crossed out, its multiples from `k * k` on are too.
proof fn lemma_multiple_of_crossed(x: int, k: int)
    requires
        2 <= k,
        has_small_factor(k, k),
        x % k == 0,
        k * k <= x,
    ensures
        has_small_factor(x, k),
{
    let d = choose|d: int| 2 <= d < k && d * d <= k && #[trigger] (k % d) == 0;
    assert(k <= k * k) by (nonlinear_arith)
        requires
            2 <= k,
    ;
    lemma_divides_transitive(d, k, x);
    assert(2 <= d < k && d * d <= x && x % d == 0);
}

/// A number with a small factor is not prime.
proof fn lemma_small_factor_not_prime(x: int, k: int)
    requires
        has_small_factor(x, k),
    ensures
        !is_prime(x),
{
    let d = choose|d: int| 2 <= d < k && d * d <= x && #[trigger] (x % d) == 0;
    assert(d < d * d) by (nonlinear_arith)
        requires
            2 <= d,
    ;
    assert(2 <= d < x && x % d == 0);
}

/// A composite `x` below `k * k` has a factor `d` with `d < k` and `d * d <= x`.
proof fn lemma_composite_has_small_factor(x: int, k: int)
    requires
        2 <= x,
        2 <= k,
        x < k * k,
        !is_prime(x),
    ensures
        has_small_factor(x, k),
{
    assert(exists|d: int| 2 <= d < x && #[trigger] (x % d) == 0);
    let d = choose|d: int| 2 <= d < x && #[trigger] (x % d) == 0;
    assert(2 <= d < x && x % d == 0);
    lemma_fundamental_div_mod(x, d);
    let e = x / d;
    assert(x == d * e);
    assert(e >= 2) by (nonlinear_arith)
        requires
            x == d * e,
            2 <= d < x,
    ;
    if d <= e {
        assert(d * d <= x) by (nonlinear_arith)
            requires
                x == d * e,
                2 <= d <= e,
        ;
        assert(d < k) by (nonlinear_arith)
            requires
                d * d <= x,
                x < k * k,
                2 <= d,
                2 <= k,
        ;
        assert(2 <= d < k && d * d <= x && x % d == 0);
    } else {
        assert(e * e <= x) by (nonlinear_arith)
            requires
                x == d * e,
                2 <= e < d,
        ;
        assert(e < k) by (nonlinear_arith)
            requires
                e * e <= x,
                x < k * k,
                2 <= e,
                2 <= k,
        ;
        assert(x == e * d) by (nonlinear_arith)
            requires
                x == d * e,
        ;
        lemma_mod_multiples_basic(d, e);
        assert(2 <= e < k && e * e <= x && x % e == 0);
    }
}

/// Counts the primes `p` with `2 <= p <= limit` with the sieve of Eratosthenes:
/// every base `i` with `i * i <= limit` that is still marked crosses out its
/// multiples from `i * i` on, and the numbers from 2 on that stay marked are counted.
pub fn count_primes(limit: usize) -> (count: usize)
    requires
        limit < usize::MAX,
    ensures
        count == prime_count(limit as int),
{
    let mut is_prime_flags: Vec<bool> = vec![true; limit + 1];
    assert forall|x: int| 2 <= x <= limit implies is_prime_flags@[x] == !has_small_factor(x, 2) by {
        assert(is_prime_flags@[x]);
    }
    let mut i: usize = 2;
    while i <= limit / i
        invariant
            2 <= i,
            limit < usize::MAX,
            is_prime_flags@.len() == limit + 1,
            forall|x: int| 2 <= x <= limit ==> #[trigger] is_prime_flags@[x] == !has_small_factor(x, i as int),
        decreases limit + 1 - i,
    {
        assert(i * i <= limit) by (nonlinear_arith)
            requires
                i <= limit / i,
                2 <= i,
        ;
        if is_prime_flags[i] {
            let mut j: usize = i * i;
            proof {
                lemma_mod_multiples_basic(i as int, i as int);
            }
            while j <= limit
                invariant
                    2 <= i,
                    i * i <= limit,
                    limit < usize::MAX,
                    is_prime_flags@.len() == limit + 1,
                    i * i <= j,
                    j <= limit ==> j % i == 0,
                    forall|x: int|
                        2 <= x <= limit ==> #[trigger] is_prime_flags@[x] == !(has_small_factor(x, i as int) || (x % (i as int) == 0 && i * i <= x && x < j)),
                decreases limit + 1 - j,
            {
                is_prime_flags.set(j, false);
                if limit - j < i {
                    assert forall|x: int| 2 <= x <= limit implies #[trigger] is_prime_flags@[x] == !(has_small_factor(x, i as int) || (x % (i as int) == 0 && i * i <= x && x < limit + 1)) by {
                        if j < x && x % (i as int) == 0 {
                            lemma_fundamental_div_mod(x as int, i as int);
                            lemma_fundamental_div_mod(j as int, i as int);
                            assert(false) by (nonlinear_arith)
                                requires
                                    x == i * (x / (i as int)),
                                    j == i * (j / i),
                                    j < x,
                                    x < j + i,
                                    i >= 2,
                            ;
                        }
                    }
                    j = limit + 1;
                } else {
                    let ghost old_j = j;
                    j = j + i;
                    assert(j % i == 0) by {
                        lemma_fundamental_div_mod(old_j as int, i as int);
                        lemma_mod_multiples_basic(old_j as int / i as int + 1, i as int);
                        assert(j == (old_j as int / i as int + 1) * i) by (nonlinear_arith)
                            requires
                                old_j == i * (old_j / i),
                                j == old_j + i,
                        ;
                    }
                    assert forall|x: int| 2 <= x <= limit implies #[trigger] is_prime_flags@[x] == !(has_small_factor(x, i as int) || (x % (i as int) == 0 && i * i <= x && x < j)) by {
                        if old_j < x && x < j && x % (i as int) == 0 {
                            lemma_fundamental_div_mod(x as int, i as int);
                            lemma_fundamental_div_mod(old_j as int, i as int);
                            assert(false) by (nonlinear_arith)
                                requires
                                    x == i * (x / (i as int)),
                                    old_j == i * (old_j / i),
                                    old_j < x,
                                    x < old_j + i,
                                    i >= 2,
                            ;
                        }
                    }
                }
            }
            assert forall|x: int| 2 <= x <= limit implies #[trigger] is_prime_flags@[x] == !has_small_factor(x, i + 1) by {
                lemma_small_factor_step(x, i as int);
            }
        } else {
            assert(has_small_factor(i as int, i as int));
            assert forall|x: int| 2 <= x <= limit implies #[trigger] is_prime_flags@[x] == !has_small_factor(x, i + 1) by {
                lemma_small_factor_step(x, i as int);
                if x % (i as int) == 0 && i * i <= x {
                    lemma_multiple_of_crossed(x, i as int);
                }
            }
        }
        i = i + 1;
    }
    assert(limit < i * i) by (nonlinear_arith)
        requires
            limit / i < i,
            2 <= i,
    ;
    assert forall|x: int| 2 <= x <= limit implies #[trigger] is_prime_flags@[x] == is_prime(x) by {
        if has_small_factor(x, i as int) {
            lemma_small_factor_not_prime(x, i as int);
        }
        if !is_prime(x) {
            lemma_composite_has_small_factor(x, i as int);
        }
    }
    let mut count: usize = 0;
    let mut n: usize = 2;
    while n <= limit
        invariant
            2 <= n,
            n <= limit + 1 || n == 2,
            limit < usize::MAX,
            is_prime_flags@.len() == limit + 1,
            forall|x: int| 2 <= x <= limit ==> #[trigger] is_prime_flags@[x] == is_prime(x),
            count == prime_count(n - 1),
            count <= n,
        decreases limit + 1 - n,
    {
        if is_prime_flags[n] {
            count = count + 1;
        }
        n = n + 1;
    }
    assert(prime_count(1) == 0 && prime_count(0) == 0);
    count
}

} // verus!
