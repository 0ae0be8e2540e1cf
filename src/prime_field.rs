use vstd::arithmetic::div_mod::*;
use vstd::arithmetic::mul::*;
use vstd::arithmetic::power::*;
use vstd::prelude::*;
use vstd::set_lib::*;

verus! {

/// `x^e mod q`.
pub open spec fn mpow(x: int, e: nat, q: int) -> int {
    pow(x, e) % q
}

proof fn lemma_mpow_add(x: int, a: nat, b: nat, q: int)
    requires
        q > 0,
    ensures
        mpow(x, a + b, q) == (mpow(x, a, q) * mpow(x, b, q)) % q,
{
    lemma_pow_adds(x, a, b);
    lemma_mul_mod_noop(pow(x, a), pow(x, b), q);
}

proof fn lemma_mpow_mul(x: int, a: nat, b: nat, q: int)
    requires
        q > 0,
    ensures
        mpow(x, a * b, q) == mpow(mpow(x, a, q), b, q),
{
    lemma_pow_multiplies(x, a, b);
    lemma_pow_mod_noop(pow(x, a), b, q);
}

proof fn lemma_mpow_one(e: nat, q: int)
    requires
        q > 1,
    ensures
        mpow(1, e, q) == 1,
{
    lemma1_pow(e);
    lemma_small_mod(1, q as nat);
}

proof fn lemma_mpow_bound(x: int, e: nat, q: int)
    requires
        q > 0,
    ensures
        0 <= mpow(x, e, q) < q,
{
    lemma_mod_bound(pow(x, e), q);
}

/// `x^(2e + b)` from `x^e`.
pub proof fn lemma_mpow_step(x: int, e: nat, b: nat, q: int)
    requires
        q > 0,
        b <= 1,
    ensures
        mpow(x, 2 * e + b, q) == if b == 1 {
            ((((mpow(x, e, q) * mpow(x, e, q)) % q) * (x % q)) % q)
        } else {
            (mpow(x, e, q) * mpow(x, e, q)) % q
        },
{
    lemma_mpow_add(x, e, e, q);
    if b == 1 {
        lemma_mpow_add(x, 2 * e, 1, q);
        lemma_pow1(x);
    }
}

/// If `g^a` and `g^b` are one, so is `g^(a mod b)`.
proof fn lemma_mpow_mod_exponent(g: int, a: nat, b: nat, q: int)
    requires
        q > 1,
        b > 0,
        mpow(g, a, q) == 1,
        mpow(g, b, q) == 1,
    ensures
        mpow(g, a % b, q) == 1,
{
    let k = a / b;
    let r = a % b;
    lemma_fundamental_div_mod(a as int, b as int);
    assert(a == b * (k as nat) + (r as nat)) by {
        lemma_div_pos_is_pos(a as int, b as int);
        lemma_mod_pos_bound(a as int, b as int);
    }
    lemma_div_pos_is_pos(a as int, b as int);
    lemma_mpow_add(g, b * (k as nat), r as nat, q);
    lemma_mpow_mul(g, b, k as nat, q);
    lemma_mpow_one(k as nat, q);
    lemma_mpow_bound(g, r as nat, q);
    lemma_small_mod(mpow(g, r as nat, q) as nat, q as nat);
}

/// Euclid's algorithm.
pub open spec fn gcd(a: nat, b: nat) -> nat
    decreases b,
{
    if b == 0 {
        a
    } else {
        gcd(b, a % b)
    }
}

proof fn lemma_gcd(g: int, a: nat, b: nat, q: int)
    requires
        q > 1,
        a > 0 || b > 0,
        mpow(g, a, q) == 1,
        mpow(g, b, q) == 1,
    ensures
        gcd(a, b) > 0,
        a % gcd(a, b) == 0,
        b % gcd(a, b) == 0,
        mpow(g, gcd(a, b), q) == 1,
    decreases b,
{
    if b == 0 {
        lemma_mod_self_0(a as int);
    } else {
        lemma_mpow_mod_exponent(g, a, b, q);
        lemma_mod_pos_bound(a as int, b as int);
        lemma_gcd(g, b, a % b, q);
        let d = gcd(b, a % b);
        lemma_fundamental_div_mod(a as int, b as int);
        lemma_div_pos_is_pos(a as int, b as int);
        let k = (a / b) as int;
        assert(a as int == b * k + (a % b) as int);
        lemma_mul_mod_noop_left(b as int, k, d as int);
        assert((b as int % d as int) * k == 0);
        assert((b * k) % (d as int) == 0);
        lemma_add_mod_noop(b * k, (a % b) as int, d as int);
        assert(((b * k) % (d as int) + ((a % b) as int) % (d as int)) % (d as int) == 0);
    }
}

proof fn lemma_mod_self_0(a: int)
    requires
        a > 0,
    ensures
        a % a == 0,
{
    lemma_fundamental_div_mod_converse(a, a, 1, 0);
}

/// Every divisor of `n` that is at least 2 is a multiple of one of `fs`.
pub open spec fn covers_divisors(n: nat, fs: Seq<nat>) -> bool {
    forall|k: nat|
        2 <= k && #[trigger] (n % k) == 0 ==> exists|i: int| 0 <= i < fs.len() && k % fs[i] == 0
}

/// `g` has order exactly `n` modulo `q`, as certified by the factor list `fs`.
pub open spec fn order_certificate(g: int, q: int, n: nat, fs: Seq<nat>) -> bool {
    &&& q > 1
    &&& n > 0
    &&& mpow(g, n, q) == 1
    &&& forall|i: int|
        0 <= i < fs.len() ==> fs[i] > 1 && n % #[trigger] fs[i] == 0 && mpow(g, n / fs[i], q) != 1
    &&& covers_divisors(n, fs)
}

proof fn lemma_divisor_le(d: nat, e: nat)
    requires
        d > 0,
        e > 0,
        d % e == 0,
    ensures
        e <= d,
{
    lemma_fundamental_div_mod(d as int, e as int);
    if d / e == 0 {
    } else {
        lemma_div_pos_is_pos(d as int, e as int);
        lemma_mul_increases((d / e) as int, e as int);
        lemma_mul_is_commutative((d / e) as int, e as int);
    }
}

/// Below `n`, no positive power of a certified element is one.
pub proof fn lemma_order(g: int, q: int, n: nat, fs: Seq<nat>, d: nat)
    requires
        order_certificate(g, q, n, fs),
        0 < d < n,
    ensures
        mpow(g, d, q) != 1,
{
    if mpow(g, d, q) == 1 {
        lemma_gcd(g, n, d, q);
        let e = gcd(n, d);
        lemma_divisor_le(d, e);
        lemma_fundamental_div_mod(n as int, e as int);
        let k = (n / e) as nat;
        lemma_div_pos_is_pos(n as int, e as int);
        assert(n == e * k);
        assert(k >= 2) by {
            if k <= 1 {
                lemma_mul_upper_bound(e as int, e as int, k as int, 1);
            }
        }
        assert(n % k == 0) by {
            lemma_mul_is_commutative(e as int, k as int);
            lemma_mod_multiples_basic(e as int, k as int);
        }
        let i = choose|i: int| 0 <= i < fs.len() && k % fs[i] == 0;
        let f = fs[i];
        lemma_fundamental_div_mod(k as int, f as int);
        let m = (k / f) as nat;
        lemma_div_pos_is_pos(k as int, f as int);
        assert(k == f * m);
        assert(n == f * (e * m)) by {
            lemma_mul_is_associative(e as int, f as int, m as int);
            lemma_mul_is_commutative(e as int, f as int);
            lemma_mul_is_associative(f as int, e as int, m as int);
        }
        assert(n / f == e * m) by {
            lemma_mul_is_commutative(f as int, (e * m) as int);
            lemma_fundamental_div_mod_converse(n as int, f as int, (e * m) as int, 0);
        }
        lemma_mpow_mul(g, e, m, q);
        lemma_mpow_one(m, q);
    }
}

proof fn lemma_power_nonzero(g: int, q: int, n: nat, fs: Seq<nat>, i: nat)
    requires
        order_certificate(g, q, n, fs),
        i < n,
    ensures
        1 <= mpow(g, i, q) < q,
{
    lemma_mpow_bound(g, i, q);
    lemma_mpow_add(g, (n - i) as nat, i, q);
    assert((n - i) as nat + i == n);
    if mpow(g, i, q) == 0 {
        assert(mpow(g, (n - i) as nat, q) * 0 == 0);
        lemma_small_mod(0, q as nat);
        assert(mpow(g, n, q) == 0);
    }
}

proof fn lemma_power_cancel(g: int, q: int, n: nat, fs: Seq<nat>, i: nat, j: nat)
    requires
        order_certificate(g, q, n, fs),
        i < j < n,
    ensures
        mpow(g, i, q) != mpow(g, j, q),
{
    if mpow(g, i, q) == mpow(g, j, q) {
        let d = (j - i) as nat;
        lemma_mpow_add(g, n, d, q);
        lemma_mpow_bound(g, d, q);
        lemma_small_mod(mpow(g, d, q) as nat, q as nat);
        lemma_mpow_add(g, (n - i) as nat, j, q);
        lemma_mpow_add(g, (n - i) as nat, i, q);
        assert((n - i) as nat + j == n + d);
        assert((n - i) as nat + i == n);
        lemma_order(g, q, n, fs, d);
    }
}

/// With an element of certified order `q - 1`, every non-zero residue `a` satisfies
/// `a^(q-1) = 1`: the powers of the element run through all of them.
pub proof fn lemma_fermat_from_certificate(g: int, q: int, fs: Seq<nat>, a: int)
    requires
        order_certificate(g, q, (q - 1) as nat, fs),
        0 < a < q,
    ensures
        mpow(a, (q - 1) as nat, q) == 1,
{
    let n = (q - 1) as nat;
    let f = |i: int| mpow(g, i as nat, q);
    let dom = set_int_range(0, n as int);
    let img = dom.map(f);
    assert(vstd::relations::injective_on(f, dom)) by {
        assert forall|i: int, j: int| dom.contains(i) && dom.contains(j) && #[trigger] f(i) == #[trigger] f(j) implies i == j by {
            if i < j {
                lemma_power_cancel(g, q, n, fs, i as nat, j as nat);
            } else if j < i {
                lemma_power_cancel(g, q, n, fs, j as nat, i as nat);
            }
        }
    }
    lemma_int_range(0, n as int);
    lemma_map_size(dom, img, f);
    let target = set_int_range(1, q);
    assert(img.subset_of(target)) by {
        assert forall|y: int| img.contains(y) implies target.contains(y) by {
            let i = choose|i: int| dom.contains(i) && f(i) == y;
            lemma_power_nonzero(g, q, n, fs, i as nat);
        }
    }
    lemma_int_range(1, q);
    lemma_subset_equality(img, target);
    assert(target.contains(a));
    assert(img.contains(a));
    let i = choose|i: int| dom.contains(i) && f(i) == a;
    lemma_mpow_mul(g, i as nat, n, q);
    lemma_mul_is_commutative(i, n as int);
    lemma_mpow_mul(g, n, i as nat, q);
    lemma_mpow_one(i as nat, q);
}

/// Where every non-zero residue has `a^(q-1) = 1`, a product is zero modulo `q` only if
/// a factor is.
pub proof fn lemma_euclid(q: int, x: int, y: int)
    requires
        q > 1,
        forall|a: int| 0 < a < q ==> #[trigger] mpow(a, (q - 1) as nat, q) == 1,
        (x * y) % q == 0,
    ensures
        x % q == 0 || y % q == 0,
{
    let a = x % q;
    let b = y % q;
    lemma_mod_bound(x, q);
    lemma_mod_bound(y, q);
    if a != 0 {
        assert(mpow(a, (q - 1) as nat, q) == 1);
        let e = (q - 2) as nat;
        lemma_pow_adds(a, 1, e);
        lemma_pow1(a);
        assert(pow(a, (q - 1) as nat) == a * pow(a, e));
        lemma_mul_mod_noop(x, y, q);
        assert((a * b) % q == 0);
        lemma_small_mod(b as nat, q as nat);
        lemma_small_mod(0, q as nat);
        lemma_mul_mod_noop_right(b, pow(a, (q - 1) as nat), q);
        assert((b * pow(a, (q - 1) as nat)) % q == b);
        lemma_mul_is_associative(b, a, pow(a, e));
        lemma_mul_is_commutative(b, a);
        assert(b * pow(a, (q - 1) as nat) == (a * b) * pow(a, e));
        lemma_mul_mod_noop_left(a * b, pow(a, e), q);
        assert(((a * b) * pow(a, e)) % q == 0);
    }
}

proof fn lemma_parity(k: int, t: int)
    requires
        k % 2 == 1,
        (k * t) % 2 == 0,
    ensures
        t % 2 == 0,
{
    lemma_mul_mod_noop(k, t, 2);
    lemma_mod_bound(t, 2);
}

/// An odd number that divides `2^s * x` divides `x`.
proof fn lemma_odd_divides(k: int, s: nat, x: int)
    requires
        k > 0,
        k % 2 == 1,
        x >= 0,
        (pow(2, s) * x) % k == 0,
    ensures
        x % k == 0,
    decreases s,
{
    if s == 0 {
        lemma_pow0(2);
    } else {
        lemma_pow_adds(2, 1, (s - 1) as nat);
        lemma_pow1(2);
        lemma_pow_positive(2, (s - 1) as nat);
        let y = pow(2, (s - 1) as nat) * x;
        lemma_mul_nonnegative(pow(2, (s - 1) as nat), x);
        assert(pow(2, s) * x == 2 * y) by {
            lemma_mul_is_associative(2, pow(2, (s - 1) as nat), x);
        }
        lemma_fundamental_div_mod(2 * y, k);
        let t = (2 * y) / k;
        assert(2 * y == k * t);
        assert((k * t) % 2 == 0) by {
            lemma_mod_multiples_basic(y, 2);
            lemma_mul_is_commutative(y, 2);
        }
        lemma_parity(k, t);
        lemma_fundamental_div_mod(t, 2);
        let h = t / 2;
        assert(y == k * h) by {
            lemma_mul_is_associative(k, 2, h);
            lemma_mul_is_commutative(k, 2);
            lemma_mul_is_associative(2, k, h);
        }
        assert(y % k == 0) by {
            lemma_mul_is_commutative(k, h);
            lemma_mod_multiples_basic(h, k);
        }
        lemma_odd_divides(k, (s - 1) as nat, x);
    }
}

/// If `k` divides `q * y` but `q` does not divide `k`, where `q` satisfies Euclid's
/// lemma, then `k` divides `y`.
proof fn lemma_peel(q: int, k: int, y: int)
    requires
        q > 1,
        k > 0,
        y >= 0,
        forall|a: int| 0 < a < q ==> #[trigger] mpow(a, (q - 1) as nat, q) == 1,
        k % q != 0,
        (q * y) % k == 0,
    ensures
        y % k == 0,
{
    lemma_fundamental_div_mod(q * y, k);
    let t = (q * y) / k;
    assert(q * y == k * t);
    assert((k * t) % q == 0) by {
        lemma_mul_is_commutative(q, y);
        lemma_mod_multiples_basic(y, q);
    }
    lemma_euclid(q, k, t);
    lemma_fundamental_div_mod(t, q);
    let u = t / q;
    assert(q * y == q * (k * u)) by {
        lemma_mul_is_associative(k, q, u);
        lemma_mul_is_commutative(k, q);
        lemma_mul_is_associative(q, k, u);
    }
    lemma_mul_equality_converse(q, y, k * u);
    lemma_mul_is_commutative(k, u);
    lemma_mod_multiples_basic(u, k);
}

proof fn lemma_mul_equality_converse(q: int, a: int, b: int)
    requires
        q > 0,
        q * a == q * b,
    ensures
        a == b,
{
    if a < b {
        lemma_mul_strict_inequality(a, b, q);
        lemma_mul_is_commutative(q, a);
        lemma_mul_is_commutative(q, b);
    } else if b < a {
        lemma_mul_strict_inequality(b, a, q);
        lemma_mul_is_commutative(q, a);
        lemma_mul_is_commutative(q, b);
    }
}

/// Every divisor of `2^s` that is at least 2 is even.
pub proof fn lemma_covers_power_of_two(s: nat)
    ensures
        covers_divisors(pow(2, s) as nat, seq![2nat]),
{
    lemma_pow_positive(2, s);
    assert forall|k: nat| 2 <= k && #[trigger] ((pow(2, s) as nat) % k) == 0 implies exists|i: int|
        0 <= i < seq![2nat].len() && k % seq![2nat][i] == 0 by {
        if k % 2 != 0 {
            lemma_mod_bound(k as int, 2);
            lemma_odd_divides(k as int, s, 1);
            lemma_small_mod(1, k);
        }
        assert(seq![2nat][0] == 2);
        assert(k % seq![2nat][0] == 0);
    }
}

/// Fermat's little theorem modulo `q`: every non-zero residue `a` has `a^(q-1) = 1`.
pub open spec fn fermat_holds(q: int) -> bool {
    forall|a: int| 0 < a < q ==> #[trigger] mpow(a, (q - 1) as nat, q) == 1
}

/// `3` is prime: `2` has order `2` modulo it.
pub proof fn lemma_fermat_3()
    ensures
        fermat_holds(3),
{
    lemma_pow1(2);
    lemma_small_mod(2, 3);
    assert(mpow(2, 1, 3) == 2);
    assert(mpow(2, 2, 3) == 1) by {
        lemma_mpow_add(2, 1, 1, 3);
        lemma_fundamental_div_mod_converse(4, 3, 1, 1);
    }
    vstd::arithmetic::power2::lemma_pow2(1);
    vstd::arithmetic::power2::lemma2_to64();
    lemma_covers_power_of_two(1);
    let fs = seq![2nat];
    assert(order_certificate(2, 3, 2, fs));
    assert forall|a: int| 0 < a < 3 implies #[trigger] mpow(a, (3 - 1) as nat, 3) == 1 by {
        lemma_fermat_from_certificate(2, 3, fs, a);
    }
}

/// `5` is prime: `3` has order `4` modulo it.
pub proof fn lemma_fermat_5()
    ensures
        fermat_holds(5),
{
    lemma_pow1(3);
    lemma_small_mod(3, 5);
    assert(mpow(3, 1, 5) == 3);
    assert(mpow(3, 2, 5) == 4) by {
        lemma_mpow_add(3, 1, 1, 5);
        lemma_fundamental_div_mod_converse(9, 5, 1, 4);
    }
    assert(mpow(3, 4, 5) == 1) by {
        lemma_mpow_add(3, 2, 2, 5);
        lemma_fundamental_div_mod_converse(16, 5, 3, 1);
    }
    vstd::arithmetic::power2::lemma_pow2(2);
    vstd::arithmetic::power2::lemma2_to64();
    lemma_covers_power_of_two(2);
    let fs = seq![2nat];
    assert(order_certificate(3, 5, 4, fs));
    assert forall|a: int| 0 < a < 5 implies #[trigger] mpow(a, (5 - 1) as nat, 5) == 1 by {
        lemma_fermat_from_certificate(3, 5, fs, a);
    }
}

/// `17` is prime: `3` has order `16` modulo it.
pub proof fn lemma_fermat_17()
    ensures
        fermat_holds(17),
{
    lemma_pow1(3);
    lemma_small_mod(3, 17);
    assert(mpow(3, 1, 17) == 3);
    assert(mpow(3, 2, 17) == 9) by {
        lemma_mpow_add(3, 1, 1, 17);
        lemma_fundamental_div_mod_converse(9, 17, 0, 9);
    }
    assert(mpow(3, 4, 17) == 13) by {
        lemma_mpow_add(3, 2, 2, 17);
        lemma_fundamental_div_mod_converse(81, 17, 4, 13);
    }
    assert(mpow(3, 8, 17) == 16) by {
        lemma_mpow_add(3, 4, 4, 17);
        lemma_fundamental_div_mod_converse(169, 17, 9, 16);
    }
    assert(mpow(3, 16, 17) == 1) by {
        lemma_mpow_add(3, 8, 8, 17);
        lemma_fundamental_div_mod_converse(256, 17, 15, 1);
    }
    vstd::arithmetic::power2::lemma_pow2(4);
    vstd::arithmetic::power2::lemma2_to64();
    lemma_covers_power_of_two(4);
    let fs = seq![2nat];
    assert(order_certificate(3, 17, 16, fs));
    assert forall|a: int| 0 < a < 17 implies #[trigger] mpow(a, (17 - 1) as nat, 17) == 1 by {
        lemma_fermat_from_certificate(3, 17, fs, a);
    }
}

/// `257` is prime: `3` has order `256` modulo it.
pub proof fn lemma_fermat_257()
    ensures
        fermat_holds(257),
{
    lemma_pow1(3);
    lemma_small_mod(3, 257);
    assert(mpow(3, 1, 257) == 3);
    assert(mpow(3, 2, 257) == 9) by {
        lemma_mpow_add(3, 1, 1, 257);
        lemma_fundamental_div_mod_converse(9, 257, 0, 9);
    }
    assert(mpow(3, 4, 257) == 81) by {
        lemma_mpow_add(3, 2, 2, 257);
        lemma_fundamental_div_mod_converse(81, 257, 0, 81);
    }
    assert(mpow(3, 8, 257) == 136) by {
        lemma_mpow_add(3, 4, 4, 257);
        lemma_fundamental_div_mod_converse(6561, 257, 25, 136);
    }
    assert(mpow(3, 16, 257) == 249) by {
        lemma_mpow_add(3, 8, 8, 257);
        lemma_fundamental_div_mod_converse(18496, 257, 71, 249);
    }
    assert(mpow(3, 32, 257) == 64) by {
        lemma_mpow_add(3, 16, 16, 257);
        lemma_fundamental_div_mod_converse(62001, 257, 241, 64);
    }
    assert(mpow(3, 64, 257) == 241) by {
        lemma_mpow_add(3, 32, 32, 257);
        lemma_fundamental_div_mod_converse(4096, 257, 15, 241);
    }
    assert(mpow(3, 128, 257) == 256) by {
        lemma_mpow_add(3, 64, 64, 257);
        lemma_fundamental_div_mod_converse(58081, 257, 225, 256);
    }
    assert(mpow(3, 256, 257) == 1) by {
        lemma_mpow_add(3, 128, 128, 257);
        lemma_fundamental_div_mod_converse(65536, 257, 255, 1);
    }
    vstd::arithmetic::power2::lemma_pow2(8);
    vstd::arithmetic::power2::lemma2_to64();
    lemma_covers_power_of_two(8);
    let fs = seq![2nat];
    assert(order_certificate(3, 257, 256, fs));
    assert forall|a: int| 0 < a < 257 implies #[trigger] mpow(a, (257 - 1) as nat, 257) == 1 by {
        lemma_fermat_from_certificate(3, 257, fs, a);
    }
}

/// `65537` is prime: `3` has order `65536` modulo it.
pub proof fn lemma_fermat_65537()
    ensures
        fermat_holds(65537),
{
    lemma_pow1(3);
    lemma_small_mod(3, 65537);
    assert(mpow(3, 1, 65537) == 3);
    assert(mpow(3, 2, 65537) == 9) by {
        lemma_mpow_add(3, 1, 1, 65537);
        lemma_fundamental_div_mod_converse(9, 65537, 0, 9);
    }
    assert(mpow(3, 4, 65537) == 81) by {
        lemma_mpow_add(3, 2, 2, 65537);
        lemma_fundamental_div_mod_converse(81, 65537, 0, 81);
    }
    assert(mpow(3, 8, 65537) == 6561) by {
        lemma_mpow_add(3, 4, 4, 65537);
        lemma_fundamental_div_mod_converse(6561, 65537, 0, 6561);
    }
    assert(mpow(3, 16, 65537) == 54449) by {
        lemma_mpow_add(3, 8, 8, 65537);
        lemma_fundamental_div_mod_converse(43046721, 65537, 656, 54449);
    }
    assert(mpow(3, 32, 65537) == 61869) by {
        lemma_mpow_add(3, 16, 16, 65537);
        lemma_fundamental_div_mod_converse(2964693601, 65537, 45236, 61869);
    }
    assert(mpow(3, 64, 65537) == 19139) by {
        lemma_mpow_add(3, 32, 32, 65537);
        lemma_fundamental_div_mod_converse(3827773161, 65537, 58406, 19139);
    }
    assert(mpow(3, 128, 65537) == 15028) by {
        lemma_mpow_add(3, 64, 64, 65537);
        lemma_fundamental_div_mod_converse(366301321, 65537, 5589, 15028);
    }
    assert(mpow(3, 256, 65537) == 282) by {
        lemma_mpow_add(3, 128, 128, 65537);
        lemma_fundamental_div_mod_converse(225840784, 65537, 3446, 282);
    }
    assert(mpow(3, 512, 65537) == 13987) by {
        lemma_mpow_add(3, 256, 256, 65537);
        lemma_fundamental_div_mod_converse(79524, 65537, 1, 13987);
    }
    assert(mpow(3, 1024, 65537) == 8224) by {
        lemma_mpow_add(3, 512, 512, 65537);
        lemma_fundamental_div_mod_converse(195636169, 65537, 2985, 8224);
    }
    assert(mpow(3, 2048, 65537) == 65529) by {
        lemma_mpow_add(3, 1024, 1024, 65537);
        lemma_fundamental_div_mod_converse(67634176, 65537, 1031, 65529);
    }
    assert(mpow(3, 4096, 65537) == 64) by {
        lemma_mpow_add(3, 2048, 2048, 65537);
        lemma_fundamental_div_mod_converse(4294049841, 65537, 65521, 64);
    }
    assert(mpow(3, 8192, 65537) == 4096) by {
        lemma_mpow_add(3, 4096, 4096, 65537);
        lemma_fundamental_div_mod_converse(4096, 65537, 0, 4096);
    }
    assert(mpow(3, 16384, 65537) == 65281) by {
        lemma_mpow_add(3, 8192, 8192, 65537);
        lemma_fundamental_div_mod_converse(16777216, 65537, 255, 65281);
    }
    assert(mpow(3, 32768, 65537) == 65536) by {
        lemma_mpow_add(3, 16384, 16384, 65537);
        lemma_fundamental_div_mod_converse(4261608961, 65537, 65025, 65536);
    }
    assert(mpow(3, 65536, 65537) == 1) by {
        lemma_mpow_add(3, 32768, 32768, 65537);
        lemma_fundamental_div_mod_converse(4294967296, 65537, 65535, 1);
    }
    vstd::arithmetic::power2::lemma_pow2(16);
    vstd::arithmetic::power2::lemma2_to64();
    lemma_covers_power_of_two(16);
    let fs = seq![2nat];
    assert(order_certificate(3, 65537, 65536, fs));
    assert forall|a: int| 0 < a < 65537 implies #[trigger] mpow(a, (65537 - 1) as nat, 65537) == 1 by {
        lemma_fermat_from_certificate(3, 65537, fs, a);
    }
}

/// The field modulus `2^64 - 2^32 + 1`, as an integer.
pub open spec fn modulus() -> int {
    18446744069414584321
}

/// Every divisor of `p - 1 = 2^32 * 3 * 5 * 17 * 257 * 65537` that is at least 2 is a
/// multiple of one of its prime factors.
proof fn lemma_covers_p_minus_one()
    ensures
        covers_divisors(18446744069414584320, seq![2nat, 3nat, 5nat, 17nat, 257nat, 65537nat]),
{
    let fs = seq![2nat, 3nat, 5nat, 17nat, 257nat, 65537nat];
    lemma_fermat_3();
    lemma_fermat_5();
    lemma_fermat_17();
    lemma_fermat_257();
    lemma_fermat_65537();
    vstd::arithmetic::power2::lemma_pow2(32);
    vstd::arithmetic::power2::lemma2_to64();
    assert(pow(2, 32) == 4294967296);
    assert forall|k: nat| 2 <= k && #[trigger] (18446744069414584320nat % k) == 0 implies exists|i: int|
        0 <= i < fs.len() && k % fs[i] == 0 by {
        if k % 2 == 0 {
            assert(k % fs[0] == 0);
        } else if k % 3 == 0 {
            assert(k % fs[1] == 0);
        } else if k % 5 == 0 {
            assert(k % fs[2] == 0);
        } else if k % 17 == 0 {
            assert(k % fs[3] == 0);
        } else if k % 257 == 0 {
            assert(k % fs[4] == 0);
        } else if k % 65537 == 0 {
            assert(k % fs[5] == 0);
        } else {
            lemma_mod_bound(k as int, 2);
            assert(pow(2, 32) * 4294967295 == 18446744069414584320);
            lemma_odd_divides(k as int, 32, 4294967295);
            assert(3 * 1431655765 == 4294967295);
            lemma_peel(3, k as int, 1431655765);
            assert(5 * 286331153 == 1431655765);
            lemma_peel(5, k as int, 286331153);
            assert(17 * 16843009 == 286331153);
            lemma_peel(17, k as int, 16843009);
            assert(257 * 65537 == 16843009);
            lemma_peel(257, k as int, 65537);
            assert(65537 * 1 == 65537);
            lemma_peel(65537, k as int, 1);
            lemma_small_mod(1, k);
        }
    }
}

/// `7^(p-1) = 1` modulo `p`.
proof fn lemma_seven_power_full()
    ensures
        mpow(7, 18446744069414584320, 18446744069414584321) == 1,
{
    lemma_pow1(7);
    lemma_small_mod(7, 18446744069414584321);
    assert(mpow(7, 1, 18446744069414584321) == 7);
    assert(mpow(7, 3, 18446744069414584321) == 343) by {
        lemma_mpow_step(7, 1, 1, 18446744069414584321);
        lemma_fundamental_div_mod_converse(49, 18446744069414584321, 0, 49);
        lemma_fundamental_div_mod_converse(343, 18446744069414584321, 0, 343);
    }
    assert(mpow(7, 7, 18446744069414584321) == 823543) by {
        lemma_mpow_step(7, 3, 1, 18446744069414584321);
        lemma_fundamental_div_mod_converse(117649, 18446744069414584321, 0, 117649);
        lemma_fundamental_div_mod_converse(823543, 18446744069414584321, 0, 823543);
    }
    assert(mpow(7, 15, 18446744069414584321) == 4747561509943) by {
        lemma_mpow_step(7, 7, 1, 18446744069414584321);
        lemma_fundamental_div_mod_converse(678223072849, 18446744069414584321, 0, 678223072849);
        lemma_fundamental_div_mod_converse(4747561509943, 18446744069414584321, 0, 4747561509943);
    }
    assert(mpow(7, 31, 18446744069414584321) == 11074261478625843323) by {
        lemma_mpow_step(7, 15, 1, 18446744069414584321);
        lemma_fundamental_div_mod_converse(22539340290692258087863249, 18446744069414584321, 1221860, 1582037354089406189);
        lemma_fundamental_div_mod_converse(11074261478625843323, 18446744069414584321, 0, 11074261478625843323);
    }
    assert(mpow(7, 63, 18446744069414584321) == 12148266161370408270) by {
        lemma_mpow_step(7, 31, 1, 18446744069414584321);
        lemma_fundamental_div_mod_converse(122639267296976249690716502652943682329, 18446744069414584321, 6648288003318531524, 14911712358349047125);
        lemma_fundamental_div_mod_converse(104381986508443329875, 18446744069414584321, 5, 12148266161370408270);
    }
    assert(mpow(7, 127, 18446744069414584321) == 7007601668316978083) by {
        lemma_mpow_step(7, 63, 1, 18446744069414584321);
        lemma_fundamental_div_mod_converse(147580370727497314425528305226484392900, 18446744069414584321, 8000347929811162796, 14177331716484271384);
        lemma_fundamental_div_mod_converse(99241322015389899688, 18446744069414584321, 5, 7007601668316978083);
    }
    assert(mpow(7, 255, 18446744069414584321) == 8125271997680889877) by {
        lemma_mpow_step(7, 127, 1, 18446744069414584321);
        lemma_fundamental_div_mod_converse(49106481141798894510400959993102354889, 18446744069414584321, 2662067677472651718, 1160753142525841411);
        lemma_fundamental_div_mod_converse(8125271997680889877, 18446744069414584321, 0, 8125271997680889877);
    }
    assert(mpow(7, 511, 18446744069414584321) == 2624486902016877951) by {
        lemma_mpow_step(7, 255, 1, 18446744069414584321);
        lemma_fundamental_div_mod_converse(66020045036297198910721359762601075129, 18446744069414584321, 3578953813630503444, 10915923311382173605);
        lemma_fundamental_div_mod_converse(76411463179675215235, 18446744069414584321, 4, 2624486902016877951);
    }
    assert(mpow(7, 1023, 18446744069414584321) == 8253119735826302939) by {
        lemma_mpow_step(7, 511, 1, 18446744069414584321);
        lemma_fundamental_div_mod_converse(6887931498858149526664480469229958401, 18446744069414584321, 373395514836605044, 1179017105118043277);
        lemma_fundamental_div_mod_converse(8253119735826302939, 18446744069414584321, 0, 8253119735826302939);
    }
    assert(mpow(7, 2047, 18446744069414584321) == 3543566522599720475) by {
        lemma_mpow_step(7, 1023, 1, 18446744069414584321);
        lemma_fundamental_div_mod_converse(68113985373885624411581578877000037721, 18446744069414584321, 3692466546810352761, 13682469552810377440);
        lemma_fundamental_div_mod_converse(95777286869672642080, 18446744069414584321, 5, 3543566522599720475);
    }
    assert(mpow(7, 4095, 18446744069414584321) == 11981551684735969599) by {
        lemma_mpow_step(7, 2047, 1, 18446744069414584321);
        lemma_fundamental_div_mod_converse(12556863700089475279895540548134225625, 18446744069414584321, 680708945320558836, 12252646851770615269);
        lemma_fundamental_div_mod_converse(85768527962394306883, 18446744069414584321, 4, 11981551684735969599);
    }
    assert(mpow(7, 8191, 18446744069414584321) == 10062120588441922115) by {
        lemma_mpow_step(7, 4095, 1, 18446744069414584321);
        lemma_fundamental_div_mod_converse(143557580773999351433084160682652220801, 18446744069414584321, 7782272049408620407, 9343193256669382154);
        lemma_fundamental_div_mod_converse(65402352796685675078, 18446744069414584321, 3, 10062120588441922115);
    }
    assert(mpow(7, 16383, 18446744069414584321) == 10485806445487905393) by {
        lemma_mpow_step(7, 8191, 1, 18446744069414584321);
        lemma_fundamental_div_mod_converse(101246270736346812967463302395726073225, 18446744069414584321, 5488571335698045963, 4133221502128927102);
        lemma_fundamental_div_mod_converse(28932550514902489714, 18446744069414584321, 1, 10485806445487905393);
    }
    assert(mpow(7, 32767, 18446744069414584321) == 4139485063330164956) by {
        lemma_mpow_step(7, 16383, 1, 18446744069414584321);
        lemma_fundamental_div_mod_converse(109952136812235701054177367442518484449, 18446744069414584321, 5960517281450258735, 5861853314594190514);
        lemma_fundamental_div_mod_converse(41032973202159333598, 18446744069414584321, 2, 4139485063330164956);
    }
    assert(mpow(7, 65535, 18446744069414584321) == 12134830135347446949) by {
        lemma_mpow_step(7, 32767, 1, 18446744069414584321);
        lemma_fundamental_div_mod_converse(17135336589533539776485113354170481936, 18446744069414584321, 928908458048409263, 7004045467739516513);
        lemma_fundamental_div_mod_converse(49028318274176615591, 18446744069414584321, 2, 12134830135347446949);
    }
    assert(mpow(7, 131071, 18446744069414584321) == 4326791766630348883) by {
        lemma_mpow_step(7, 65535, 1, 18446744069414584321);
        lemma_fundamental_div_mod_converse(147254102413736537639198735612369408601, 18446744069414584321, 7982660889077413892, 618113109518621269);
        lemma_fundamental_div_mod_converse(4326791766630348883, 18446744069414584321, 0, 4326791766630348883);
    }
    assert(mpow(7, 262143, 18446744069414584321) == 206761543466863628) by {
        lemma_mpow_step(7, 131071, 1, 18446744069414584321);
        lemma_fundamental_div_mod_converse(18721126991780175469740734470299347689, 18446744069414584321, 1014874328029547970, 13205783127219969319);
        lemma_fundamental_div_mod_converse(92440481890539785233, 18446744069414584321, 5, 206761543466863628);
    }
    assert(mpow(7, 524287, 18446744069414584321) == 10086585273483141421) by {
        lemma_mpow_step(7, 262143, 1, 18446744069414584321);
        lemma_fundamental_div_mod_converse(42750335856799737409677655149322384, 18446744069414584321, 2317500351060946, 14617186517222294718);
        lemma_fundamental_div_mod_converse(102320305620556063026, 18446744069414584321, 5, 10086585273483141421);
    }
    assert(mpow(7, 1048575, 18446744069414584321) == 1855730417186139594) by {
        lemma_mpow_step(7, 524287, 1, 18446744069414584321);
        lemma_fundamental_div_mod_converse(101739202479246978812903211498685899241, 18446744069414584321, 5515293219031238933, 5535602650859329748);
        lemma_fundamental_div_mod_converse(38749218556015308236, 18446744069414584321, 2, 1855730417186139594);
    }
    assert(mpow(7, 2097151, 18446744069414584321) == 7626447102712710903) by {
        lemma_mpow_step(7, 1048575, 1, 18446744069414584321);
        lemma_fundamental_div_mod_converse(3443735381269843701822309344454484836, 18446744069414584321, 186685269135364124, 3724741596018185032);
        lemma_fundamental_div_mod_converse(26073191172127295224, 18446744069414584321, 1, 7626447102712710903);
    }
    assert(mpow(7, 4194303, 18446744069414584321) == 7790920094560990216) by {
        lemma_mpow_step(7, 2097151, 1, 18446744069414584321);
        lemma_fundamental_div_mod_converse(58162695410475102406004263043255075409, 18446744069414584321, 3153006036816605629, 11653985196031332500);
        lemma_fundamental_div_mod_converse(81577896372219327500, 18446744069414584321, 4, 7790920094560990216);
    }
    assert(mpow(7, 8388607, 18446744069414584321) == 5901922255895126089) by {
        lemma_mpow_step(7, 4194303, 1, 18446744069414584321);
        lemma_fundamental_div_mod_converse(60698435919834228729058310630447726656, 18446744069414584321, 3290468805303944391, 16654626667483233145);
        lemma_fundamental_div_mod_converse(116582386672382632015, 18446744069414584321, 6, 5901922255895126089);
    }
    assert(mpow(7, 16777215, 18446744069414584321) == 8935258787870022506) by {
        lemma_mpow_step(7, 8388607, 1, 18446744069414584321);
        lemma_fundamental_div_mod_converse(34832686314630214197201672105208435921, 18446744069414584321, 1888283709231059174, 9182212999444825067);
        lemma_fundamental_div_mod_converse(64275490996113775469, 18446744069414584321, 3, 8935258787870022506);
    }
    assert(mpow(7, 33554431, 18446744069414584321) == 13093775858033092690) by {
        lemma_mpow_step(7, 16777215, 1, 18446744069414584321);
        lemma_fundamental_div_mod_converse(79838849606208463853005459604946520036, 18446744069414584321, 4328072710597441788, 17682034324931514088);
        lemma_fundamental_div_mod_converse(123774240274520598616, 18446744069414584321, 6, 13093775858033092690);
    }
    assert(mpow(7, 67108863, 18446744069414584321) == 11243737384857129666) by {
        lemma_mpow_step(7, 33554431, 1, 18446744069414584321);
        lemma_fundamental_div_mod_converse(171446966220410252694797651166131436100, 18446744069414584321, 9294158664274849393, 9511995656157268947);
        lemma_fundamental_div_mod_converse(66583969593100882629, 18446744069414584321, 3, 11243737384857129666);
    }
    assert(mpow(7, 134217727, 18446744069414584321) == 2063617152444052883) by {
        lemma_mpow_step(7, 67108863, 1, 18446744069414584321);
        lemma_fundamental_div_mod_converse(126421630379633845193813938752337271556, 18446744069414584321, 6853330316933588389, 16106297366990222687);
        lemma_fundamental_div_mod_converse(112744081568931558809, 18446744069414584321, 6, 2063617152444052883);
    }
    assert(mpow(7, 268435455, 18446744069414584321) == 13064848991504552222) by {
        lemma_mpow_step(7, 134217727, 1, 18446744069414584321);
        lemma_fundamental_div_mod_converse(4258515751861301395704881394900611689, 18446744069414584321, 230854601540338240, 4501656151559876649);
        lemma_fundamental_div_mod_converse(31511593060919136543, 18446744069414584321, 1, 13064848991504552222);
    }
    assert(mpow(7, 536870911, 18446744069414584321) == 16593403251012455084) by {
        lemma_mpow_step(7, 268435455, 1, 18446744069414584321);
        lemma_fundamental_div_mod_converse(170690279170817515258261588948725137284, 18446744069414584321, 9253138577112294032, 2370486178716065012);
        lemma_fundamental_div_mod_converse(16593403251012455084, 18446744069414584321, 0, 16593403251012455084);
    }
    assert(mpow(7, 1073741823, 18446744069414584321) == 5859133952941131217) by {
        lemma_mpow_step(7, 536870911, 1, 18446744069414584321);
        lemma_fundamental_div_mod_converse(275341031450710713463674311297117447056, 18446744069414584321, 14926267227138300310, 14013264900002007546);
        lemma_fundamental_div_mod_converse(98092854300014052822, 18446744069414584321, 5, 5859133952941131217);
    }
    assert(mpow(7, 2147483647, 18446744069414584321) == 15659105665374529263) by {
        lemma_mpow_step(7, 1073741823, 1, 18446744069414584321);
        lemma_fundamental_div_mod_converse(34329450678507566038509287135611901089, 18446744069414584321, 1861003250726892451, 10142762553374040318);
        lemma_fundamental_div_mod_converse(70999337873618282226, 18446744069414584321, 3, 15659105665374529263);
    }
    assert(mpow(7, 4294967295, 18446744069414584321) == 1753635133440165772) by {
        lemma_mpow_step(7, 2147483647, 1, 18446744069414584321);
        lemma_fundamental_div_mod_converse(245207590239364678833043421958843323169, 18446744069414584321, 13292730105467682755, 16062014221418238814);
        lemma_fundamental_div_mod_converse(112434099549927671698, 18446744069414584321, 6, 1753635133440165772);
    }
    assert(mpow(7, 8589934590, 18446744069414584321) == 4614640910117430873) by {
        lemma_mpow_step(7, 4294967295, 0, 18446744069414584321);
        lemma_fundamental_div_mod_converse(3075236181235708013440281258840355984, 18446744069414584321, 166708887468903991, 4614640910117430873);
    }
    assert(mpow(7, 17179869180, 18446744069414584321) == 9123114210336311365) by {
        lemma_mpow_step(7, 8589934590, 0, 18446744069414584321);
        lemma_fundamental_div_mod_converse(21294910729329430721299418869933542129, 18446744069414584321, 1154399424049971884, 9123114210336311365);
    }
    assert(mpow(7, 34359738360, 18446744069414584321) == 16116352524544190054) by {
        lemma_mpow_step(7, 17179869180, 0, 18446744069414584321);
        lemma_fundamental_div_mod_converse(83231212894840338086145098634228163225, 18446744069414584321, 4511973093009996851, 16116352524544190054);
    }
    assert(mpow(7, 68719476720, 18446744069414584321) == 6414415596519834757) by {
        lemma_mpow_step(7, 34359738360, 0, 18446744069414584321);
        lemma_fundamental_div_mod_converse(259736818695381888076933335406872522916, 18446744069414584321, 14080361158478670879, 6414415596519834757);
    }
    assert(mpow(7, 137438953440, 18446744069414584321) == 1213594585890690845) by {
        lemma_mpow_step(7, 68719476720, 0, 18446744069414584321);
        lemma_fundamental_div_mod_converse(41144727444876907561557568518585249049, 18446744069414584321, 2230460144622294524, 1213594585890690845);
    }
    assert(mpow(7, 274877906880, 18446744069414584321) == 17096174751763063430) by {
        lemma_mpow_step(7, 137438953440, 0, 18446744069414584321);
        lemma_fundamental_div_mod_converse(1472811818903197398595478831366814025, 18446744069414584321, 79841288704448195, 17096174751763063430);
    }
    assert(mpow(7, 549755813760, 18446744069414584321) == 5456943929260765144) by {
        lemma_mpow_step(7, 274877906880, 0, 18446744069414584321);
        lemma_fundamental_div_mod_converse(292279191142820843492337177658203364900, 18446744069414584321, 15844486704156700236, 5456943929260765144);
    }
    assert(mpow(7, 1099511627520, 18446744069414584321) == 9713644485405565297) by {
        lemma_mpow_step(7, 549755813760, 0, 18446744069414584321);
        lemma_fundamental_div_mod_converse(29778237047095918579959220012325340736, 18446744069414584321, 1614281465338340559, 9713644485405565297);
    }
    assert(mpow(7, 2199023255040, 18446744069414584321) == 16905767614792059275) by {
        lemma_mpow_step(7, 1099511627520, 0, 18446744069414584321);
        lemma_fundamental_div_mod_converse(94354889188849949446187357300130698209, 18446744069414584321, 5114988793349933654, 16905767614792059275);
    }
    assert(mpow(7, 4398046510080, 18446744069414584321) == 5416168637041100469) by {
        lemma_mpow_step(7, 2199023255040, 0, 18446744069414584321);
        lemma_fundamental_div_mod_converse(285804978645351993075953997595113525625, 18446744069414584321, 15493518941330557636, 5416168637041100469);
    }
    assert(mpow(7, 8796093020160, 18446744069414584321) == 17654865857378133588) by {
        lemma_mpow_step(7, 4398046510080, 0, 18446744069414584321);
        lemma_fundamental_div_mod_converse(29334882704867651911329270754552019961, 18446744069414584321, 1590247178281506213, 17654865857378133588);
    }
    assert(mpow(7, 17592186040320, 18446744069414584321) == 3511170319078647661) by {
        lemma_mpow_step(7, 8796093020160, 0, 18446744069414584321);
        lemma_fundamental_div_mod_converse(311694288442016139993475194842373753744, 18446744069414584321, 16896981237942002723, 3511170319078647661);
    }
    assert(mpow(7, 35184372080640, 18446744069414584321) == 18146160046829613826) by {
        lemma_mpow_step(7, 17592186040320, 0, 18446744069414584321);
        lemma_fundamental_div_mod_converse(12328317009578852426930133172580770921, 18446744069414584321, 668319404399374695, 18146160046829613826);
    }
    assert(mpow(7, 70368744161280, 18446744069414584321) == 9306717745644682924) by {
        lemma_mpow_step(7, 35184372080640, 0, 18446744069414584321);
        lemma_fundamental_div_mod_converse(329283124445155332642629051092290358276, 18446744069414584321, 17850473948468743512, 9306717745644682924);
    }
    assert(mpow(7, 140737488322560, 18446744069414584321) == 12380578893860276750) by {
        lemma_mpow_step(7, 70368744161280, 0, 18446744069414584321);
        lemma_fundamental_div_mod_converse(86614995197097649042794188832497189776, 18446744069414584321, 4695408299218975106, 12380578893860276750);
    }
    assert(mpow(7, 281474976645120, 18446744069414584321) == 6115771955107415310) by {
        lemma_mpow_step(7, 140737488322560, 0, 18446744069414584321);
        lemma_fundamental_div_mod_converse(153278733747098553796117351586590562500, 18446744069414584321, 8309256808156222390, 6115771955107415310);
    }
    assert(mpow(7, 562949953290240, 18446744069414584321) == 17776499369601055404) by {
        lemma_mpow_step(7, 281474976645120, 0, 18446744069414584321);
        lemma_fundamental_div_mod_converse(37402666606878377105882800148822396100, 18446744069414584321, 2027602620068516376, 17776499369601055404);
    }
    assert(mpow(7, 1125899906580480, 18446744069414584321) == 16207902636198568418) by {
        lemma_mpow_step(7, 562949953290240, 0, 18446744069414584321);
        lemma_fundamental_div_mod_converse(316003929837426720181241347750677603216, 18446744069414584321, 17130607366173278638, 16207902636198568418);
    }
    assert(mpow(7, 2251799813160960, 18446744069414584321) == 1532612707718625687) by {
        lemma_mpow_step(7, 1125899906580480, 0, 18446744069414584321);
        lemma_fundamental_div_mod_converse(262696107864492503667096529112627022724, 18446744069414584321, 14240784545824149997, 1532612707718625687);
    }
    assert(mpow(7, 4503599626321920, 18446744069414584321) == 17492915097719143606) by {
        lemma_mpow_step(7, 2251799813160960, 0, 18446744069414584321);
        lemma_fundamental_div_mod_converse(2348901711860617568462032296016221969, 18446744069414584321, 127334216977357403, 17492915097719143606);
    }
    assert(mpow(7, 9007199252643840, 18446744069414584321) == 455906449640507599) by {
        lemma_mpow_step(7, 4503599626321920, 0, 18446744069414584321);
        lemma_fundamental_div_mod_converse(306002078616010355494134007090050683236, 18446744069414584321, 16588405924890216597, 455906449640507599);
    }
    assert(mpow(7, 18014398505287680, 18446744069414584321) == 11353340290879379826) by {
        lemma_mpow_step(7, 9007199252643840, 0, 18446744069414584321);
        lemma_fundamental_div_mod_converse(207850690823812691445461886376744801, 18446744069414584321, 11267608529812975, 11353340290879379826);
    }
    assert(mpow(7, 36028797010575360, 18446744069414584321) == 1803076106186727246) by {
        lemma_mpow_step(7, 18014398505287680, 0, 18446744069414584321);
        lemma_fundamental_div_mod_converse(128898335760505080918251287958375790276, 18446744069414584321, 6987592784692205430, 1803076106186727246);
    }
    assert(mpow(7, 72057594021150720, 18446744069414584321) == 13797081185216407910) by {
        lemma_mpow_step(7, 36028797010575360, 0, 18446744069414584321);
        lemma_fundamental_div_mod_converse(3251083444701490107238435216398744516, 18446744069414584321, 176241586724885086, 13797081185216407910);
    }
    assert(mpow(7, 144115188042301440, 18446744069414584321) == 17870292113338400769) by {
        lemma_mpow_step(7, 72057594021150720, 0, 18446744069414584321);
        lemma_fundamental_div_mod_converse(190359449231452599231739179083510568100, 18446744069414584321, 10319406422896923811, 17870292113338400769);
    }
    assert(mpow(7, 288230376084602880, 18446744069414584321) == 549755813888) by {
        lemma_mpow_step(7, 144115188042301440, 0, 18446744069414584321);
        lemma_fundamental_div_mod_converse(319347340216044645955702184874459791361, 18446744069414584321, 17311854006015885313, 549755813888);
    }
    assert(mpow(7, 576460752169205760, 18446744069414584321) == 70368744161280) by {
        lemma_mpow_step(7, 288230376084602880, 0, 18446744069414584321);
        lemma_fundamental_div_mod_converse(302231454903657293676544, 18446744069414584321, 16384, 70368744161280);
    }
    assert(mpow(7, 1152921504338411520, 18446744069414584321) == 17293822564807737345) by {
        lemma_mpow_step(7, 576460752169205760, 0, 18446744069414584321);
        lemma_fundamental_div_mod_converse(4951760154835678090651238400, 18446744069414584321, 268435455, 17293822564807737345);
    }
    assert(mpow(7, 2305843008676823040, 18446744069414584321) == 18446744069397807105) by {
        lemma_mpow_step(7, 1152921504338411520, 0, 18446744069414584321);
        lemma_fundamental_div_mod_converse(299076298903053266742145344778507649025, 18446744069414584321, 16212958654255595520, 18446744069397807105);
    }
    assert(mpow(7, 4611686017353646080, 18446744069414584321) == 281474976710656) by {
        lemma_mpow_step(7, 2305843008676823040, 0, 18446744069414584321);
        lemma_fundamental_div_mod_converse(340282366761863168470687870982788481025, 18446744069414584321, 18446744069381029889, 281474976710656);
    }
    assert(mpow(7, 9223372034707292160, 18446744069414584321) == 18446744069414584320) by {
        lemma_mpow_step(7, 4611686017353646080, 0, 18446744069414584321);
        lemma_fundamental_div_mod_converse(79228162514264337593543950336, 18446744069414584321, 4294967296, 18446744069414584320);
    }
    assert(mpow(7, 18446744069414584320, 18446744069414584321) == 1) by {
        lemma_mpow_step(7, 9223372034707292160, 0, 18446744069414584321);
        lemma_fundamental_div_mod_converse(340282366762482138453292676318389862400, 18446744069414584321, 18446744069414584319, 1);
    }
}

/// `7^((p-1)/2)` modulo `p`, which is not one.
proof fn lemma_seven_power_2()
    ensures
        mpow(7, 9223372034707292160, 18446744069414584321) == 18446744069414584320,
{
    lemma_pow1(7);
    lemma_small_mod(7, 18446744069414584321);
    assert(mpow(7, 1, 18446744069414584321) == 7);
    assert(mpow(7, 3, 18446744069414584321) == 343) by {
        lemma_mpow_step(7, 1, 1, 18446744069414584321);
        lemma_fundamental_div_mod_converse(49, 18446744069414584321, 0, 49);
        lemma_fundamental_div_mod_converse(343, 18446744069414584321, 0, 343);
    }
    assert(mpow(7, 7, 18446744069414584321) == 823543) by {
        lemma_mpow_step(7, 3, 1, 18446744069414584321);
        lemma_fundamental_div_mod_converse(117649, 18446744069414584321, 0, 117649);
        lemma_fundamental_div_mod_converse(823543, 18446744069414584321, 0, 823543);
    }
    assert(mpow(7, 15, 18446744069414584321) == 4747561509943) by {
        lemma_mpow_step(7, 7, 1, 18446744069414584321);
        lemma_fundamental_div_mod_converse(678223072849, 18446744069414584321, 0, 678223072849);
        lemma_fundamental_div_mod_converse(4747561509943, 18446744069414584321, 0, 4747561509943);
    }
    assert(mpow(7, 31, 18446744069414584321) == 11074261478625843323) by {
        lemma_mpow_step(7, 15, 1, 18446744069414584321);
        lemma_fundamental_div_mod_converse(22539340290692258087863249, 18446744069414584321, 1221860, 1582037354089406189);
        lemma_fundamental_div_mod_converse(11074261478625843323, 18446744069414584321, 0, 11074261478625843323);
    }
    assert(mpow(7, 63, 18446744069414584321) == 12148266161370408270) by {
        lemma_mpow_step(7, 31, 1, 18446744069414584321);
        lemma_fundamental_div_mod_converse(122639267296976249690716502652943682329, 18446744069414584321, 6648288003318531524, 14911712358349047125);
        lemma_fundamental_div_mod_converse(104381986508443329875, 18446744069414584321, 5, 12148266161370408270);
    }
    assert(mpow(7, 127, 18446744069414584321) == 7007601668316978083) by {
        lemma_mpow_step(7, 63, 1, 18446744069414584321);
        lemma_fundamental_div_mod_converse(147580370727497314425528305226484392900, 18446744069414584321, 8000347929811162796, 14177331716484271384);
        lemma_fundamental_div_mod_converse(99241322015389899688, 18446744069414584321, 5, 7007601668316978083);
    }
    assert(mpow(7, 255, 18446744069414584321) == 8125271997680889877) by {
        lemma_mpow_step(7, 127, 1, 18446744069414584321);
        lemma_fundamental_div_mod_converse(49106481141798894510400959993102354889, 18446744069414584321, 2662067677472651718, 1160753142525841411);
        lemma_fundamental_div_mod_converse(8125271997680889877, 18446744069414584321, 0, 8125271997680889877);
    }
    assert(mpow(7, 511, 18446744069414584321) == 2624486902016877951) by {
        lemma_mpow_step(7, 255, 1, 18446744069414584321);
        lemma_fundamental_div_mod_converse(66020045036297198910721359762601075129, 18446744069414584321, 3578953813630503444, 10915923311382173605);
        lemma_fundamental_div_mod_converse(76411463179675215235, 18446744069414584321, 4, 2624486902016877951);
    }
    assert(mpow(7, 1023, 18446744069414584321) == 8253119735826302939) by {
        lemma_mpow_step(7, 511, 1, 18446744069414584321);
        lemma_fundamental_div_mod_converse(6887931498858149526664480469229958401, 18446744069414584321, 373395514836605044, 1179017105118043277);
        lemma_fundamental_div_mod_converse(8253119735826302939, 18446744069414584321, 0, 8253119735826302939);
    }
    assert(mpow(7, 2047, 18446744069414584321) == 3543566522599720475) by {
        lemma_mpow_step(7, 1023, 1, 18446744069414584321);
        lemma_fundamental_div_mod_converse(68113985373885624411581578877000037721, 18446744069414584321, 3692466546810352761, 13682469552810377440);
        lemma_fundamental_div_mod_converse(95777286869672642080, 18446744069414584321, 5, 3543566522599720475);
    }
    assert(mpow(7, 4095, 18446744069414584321) == 11981551684735969599) by {
        lemma_mpow_step(7, 2047, 1, 18446744069414584321);
        lemma_fundamental_div_mod_converse(12556863700089475279895540548134225625, 18446744069414584321, 680708945320558836, 12252646851770615269);
        lemma_fundamental_div_mod_converse(85768527962394306883, 18446744069414584321, 4, 11981551684735969599);
    }
    assert(mpow(7, 8191, 18446744069414584321) == 10062120588441922115) by {
        lemma_mpow_step(7, 4095, 1, 18446744069414584321);
        lemma_fundamental_div_mod_converse(143557580773999351433084160682652220801, 18446744069414584321, 7782272049408620407, 9343193256669382154);
        lemma_fundamental_div_mod_converse(65402352796685675078, 18446744069414584321, 3, 10062120588441922115);
    }
    assert(mpow(7, 16383, 18446744069414584321) == 10485806445487905393) by {
        lemma_mpow_step(7, 8191, 1, 18446744069414584321);
        lemma_fundamental_div_mod_converse(101246270736346812967463302395726073225, 18446744069414584321, 5488571335698045963, 4133221502128927102);
        lemma_fundamental_div_mod_converse(28932550514902489714, 18446744069414584321, 1, 10485806445487905393);
    }
    assert(mpow(7, 32767, 18446744069414584321) == 4139485063330164956) by {
        lemma_mpow_step(7, 16383, 1, 18446744069414584321);
        lemma_fundamental_div_mod_converse(109952136812235701054177367442518484449, 18446744069414584321, 5960517281450258735, 5861853314594190514);
        lemma_fundamental_div_mod_converse(41032973202159333598, 18446744069414584321, 2, 4139485063330164956);
    }
    assert(mpow(7, 65535, 18446744069414584321) == 12134830135347446949) by {
        lemma_mpow_step(7, 32767, 1, 18446744069414584321);
        lemma_fundamental_div_mod_converse(17135336589533539776485113354170481936, 18446744069414584321, 928908458048409263, 7004045467739516513);
        lemma_fundamental_div_mod_converse(49028318274176615591, 18446744069414584321, 2, 12134830135347446949);
    }
    assert(mpow(7, 131071, 18446744069414584321) == 4326791766630348883) by {
        lemma_mpow_step(7, 65535, 1, 18446744069414584321);
        lemma_fundamental_div_mod_converse(147254102413736537639198735612369408601, 18446744069414584321, 7982660889077413892, 618113109518621269);
        lemma_fundamental_div_mod_converse(4326791766630348883, 18446744069414584321, 0, 4326791766630348883);
    }
    assert(mpow(7, 262143, 18446744069414584321) == 206761543466863628) by {
        lemma_mpow_step(7, 131071, 1, 18446744069414584321);
        lemma_fundamental_div_mod_converse(18721126991780175469740734470299347689, 18446744069414584321, 1014874328029547970, 13205783127219969319);
        lemma_fundamental_div_mod_converse(92440481890539785233, 18446744069414584321, 5, 206761543466863628);
    }
    assert(mpow(7, 524287, 18446744069414584321) == 10086585273483141421) by {
        lemma_mpow_step(7, 262143, 1, 18446744069414584321);
        lemma_fundamental_div_mod_converse(42750335856799737409677655149322384, 18446744069414584321, 2317500351060946, 14617186517222294718);
        lemma_fundamental_div_mod_converse(102320305620556063026, 18446744069414584321, 5, 10086585273483141421);
    }
    assert(mpow(7, 1048575, 18446744069414584321) == 1855730417186139594) by {
        lemma_mpow_step(7, 524287, 1, 18446744069414584321);
        lemma_fundamental_div_mod_converse(101739202479246978812903211498685899241, 18446744069414584321, 5515293219031238933, 5535602650859329748);
        lemma_fundamental_div_mod_converse(38749218556015308236, 18446744069414584321, 2, 1855730417186139594);
    }
    assert(mpow(7, 2097151, 18446744069414584321) == 7626447102712710903) by {
        lemma_mpow_step(7, 1048575, 1, 18446744069414584321);
        lemma_fundamental_div_mod_converse(3443735381269843701822309344454484836, 18446744069414584321, 186685269135364124, 3724741596018185032);
        lemma_fundamental_div_mod_converse(26073191172127295224, 18446744069414584321, 1, 7626447102712710903);
    }
    assert(mpow(7, 4194303, 18446744069414584321) == 7790920094560990216) by {
        lemma_mpow_step(7, 2097151, 1, 18446744069414584321);
        lemma_fundamental_div_mod_converse(58162695410475102406004263043255075409, 18446744069414584321, 3153006036816605629, 11653985196031332500);
        lemma_fundamental_div_mod_converse(81577896372219327500, 18446744069414584321, 4, 7790920094560990216);
    }
    assert(mpow(7, 8388607, 18446744069414584321) == 5901922255895126089) by {
        lemma_mpow_step(7, 4194303, 1, 18446744069414584321);
        lemma_fundamental_div_mod_converse(60698435919834228729058310630447726656, 18446744069414584321, 3290468805303944391, 16654626667483233145);
        lemma_fundamental_div_mod_converse(116582386672382632015, 18446744069414584321, 6, 5901922255895126089);
    }
    assert(mpow(7, 16777215, 18446744069414584321) == 8935258787870022506) by {
        lemma_mpow_step(7, 8388607, 1, 18446744069414584321);
        lemma_fundamental_div_mod_converse(34832686314630214197201672105208435921, 18446744069414584321, 1888283709231059174, 9182212999444825067);
        lemma_fundamental_div_mod_converse(64275490996113775469, 18446744069414584321, 3, 8935258787870022506);
    }
    assert(mpow(7, 33554431, 18446744069414584321) == 13093775858033092690) by {
        lemma_mpow_step(7, 16777215, 1, 18446744069414584321);
        lemma_fundamental_div_mod_converse(79838849606208463853005459604946520036, 18446744069414584321, 4328072710597441788, 17682034324931514088);
        lemma_fundamental_div_mod_converse(123774240274520598616, 18446744069414584321, 6, 13093775858033092690);
    }
    assert(mpow(7, 67108863, 18446744069414584321) == 11243737384857129666) by {
        lemma_mpow_step(7, 33554431, 1, 18446744069414584321);
        lemma_fundamental_div_mod_converse(171446966220410252694797651166131436100, 18446744069414584321, 9294158664274849393, 9511995656157268947);
        lemma_fundamental_div_mod_converse(66583969593100882629, 18446744069414584321, 3, 11243737384857129666);
    }
    assert(mpow(7, 134217727, 18446744069414584321) == 2063617152444052883) by {
        lemma_mpow_step(7, 67108863, 1, 18446744069414584321);
        lemma_fundamental_div_mod_converse(126421630379633845193813938752337271556, 18446744069414584321, 6853330316933588389, 16106297366990222687);
        lemma_fundamental_div_mod_converse(112744081568931558809, 18446744069414584321, 6, 2063617152444052883);
    }
    assert(mpow(7, 268435455, 18446744069414584321) == 13064848991504552222) by {
        lemma_mpow_step(7, 134217727, 1, 18446744069414584321);
        lemma_fundamental_div_mod_converse(4258515751861301395704881394900611689, 18446744069414584321, 230854601540338240, 4501656151559876649);
        lemma_fundamental_div_mod_converse(31511593060919136543, 18446744069414584321, 1, 13064848991504552222);
    }
    assert(mpow(7, 536870911, 18446744069414584321) == 16593403251012455084) by {
        lemma_mpow_step(7, 268435455, 1, 18446744069414584321);
        lemma_fundamental_div_mod_converse(170690279170817515258261588948725137284, 18446744069414584321, 9253138577112294032, 2370486178716065012);
        lemma_fundamental_div_mod_converse(16593403251012455084, 18446744069414584321, 0, 16593403251012455084);
    }
    assert(mpow(7, 1073741823, 18446744069414584321) == 5859133952941131217) by {
        lemma_mpow_step(7, 536870911, 1, 18446744069414584321);
        lemma_fundamental_div_mod_converse(275341031450710713463674311297117447056, 18446744069414584321, 14926267227138300310, 14013264900002007546);
        lemma_fundamental_div_mod_converse(98092854300014052822, 18446744069414584321, 5, 5859133952941131217);
    }
    assert(mpow(7, 2147483647, 18446744069414584321) == 15659105665374529263) by {
        lemma_mpow_step(7, 1073741823, 1, 18446744069414584321);
        lemma_fundamental_div_mod_converse(34329450678507566038509287135611901089, 18446744069414584321, 1861003250726892451, 10142762553374040318);
        lemma_fundamental_div_mod_converse(70999337873618282226, 18446744069414584321, 3, 15659105665374529263);
    }
    assert(mpow(7, 4294967295, 18446744069414584321) == 1753635133440165772) by {
        lemma_mpow_step(7, 2147483647, 1, 18446744069414584321);
        lemma_fundamental_div_mod_converse(245207590239364678833043421958843323169, 18446744069414584321, 13292730105467682755, 16062014221418238814);
        lemma_fundamental_div_mod_converse(112434099549927671698, 18446744069414584321, 6, 1753635133440165772);
    }
    assert(mpow(7, 8589934590, 18446744069414584321) == 4614640910117430873) by {
        lemma_mpow_step(7, 4294967295, 0, 18446744069414584321);
        lemma_fundamental_div_mod_converse(3075236181235708013440281258840355984, 18446744069414584321, 166708887468903991, 4614640910117430873);
    }
    assert(mpow(7, 17179869180, 18446744069414584321) == 9123114210336311365) by {
        lemma_mpow_step(7, 8589934590, 0, 18446744069414584321);
        lemma_fundamental_div_mod_converse(21294910729329430721299418869933542129, 18446744069414584321, 1154399424049971884, 9123114210336311365);
    }
    assert(mpow(7, 34359738360, 18446744069414584321) == 16116352524544190054) by {
        lemma_mpow_step(7, 17179869180, 0, 18446744069414584321);
        lemma_fundamental_div_mod_converse(83231212894840338086145098634228163225, 18446744069414584321, 4511973093009996851, 16116352524544190054);
    }
    assert(mpow(7, 68719476720, 18446744069414584321) == 6414415596519834757) by {
        lemma_mpow_step(7, 34359738360, 0, 18446744069414584321);
        lemma_fundamental_div_mod_converse(259736818695381888076933335406872522916, 18446744069414584321, 14080361158478670879, 6414415596519834757);
    }
    assert(mpow(7, 137438953440, 18446744069414584321) == 1213594585890690845) by {
        lemma_mpow_step(7, 68719476720, 0, 18446744069414584321);
        lemma_fundamental_div_mod_converse(41144727444876907561557568518585249049, 18446744069414584321, 2230460144622294524, 1213594585890690845);
    }
    assert(mpow(7, 274877906880, 18446744069414584321) == 17096174751763063430) by {
        lemma_mpow_step(7, 137438953440, 0, 18446744069414584321);
        lemma_fundamental_div_mod_converse(1472811818903197398595478831366814025, 18446744069414584321, 79841288704448195, 17096174751763063430);
    }
    assert(mpow(7, 549755813760, 18446744069414584321) == 5456943929260765144) by {
        lemma_mpow_step(7, 274877906880, 0, 18446744069414584321);
        lemma_fundamental_div_mod_converse(292279191142820843492337177658203364900, 18446744069414584321, 15844486704156700236, 5456943929260765144);
    }
    assert(mpow(7, 1099511627520, 18446744069414584321) == 9713644485405565297) by {
        lemma_mpow_step(7, 549755813760, 0, 18446744069414584321);
        lemma_fundamental_div_mod_converse(29778237047095918579959220012325340736, 18446744069414584321, 1614281465338340559, 9713644485405565297);
    }
    assert(mpow(7, 2199023255040, 18446744069414584321) == 16905767614792059275) by {
        lemma_mpow_step(7, 1099511627520, 0, 18446744069414584321);
        lemma_fundamental_div_mod_converse(94354889188849949446187357300130698209, 18446744069414584321, 5114988793349933654, 16905767614792059275);
    }
    assert(mpow(7, 4398046510080, 18446744069414584321) == 5416168637041100469) by {
        lemma_mpow_step(7, 2199023255040, 0, 18446744069414584321);
        lemma_fundamental_div_mod_converse(285804978645351993075953997595113525625, 18446744069414584321, 15493518941330557636, 5416168637041100469);
    }
    assert(mpow(7, 8796093020160, 18446744069414584321) == 17654865857378133588) by {
        lemma_mpow_step(7, 4398046510080, 0, 18446744069414584321);
        lemma_fundamental_div_mod_converse(29334882704867651911329270754552019961, 18446744069414584321, 1590247178281506213, 17654865857378133588);
    }
    assert(mpow(7, 17592186040320, 18446744069414584321) == 3511170319078647661) by {
        lemma_mpow_step(7, 8796093020160, 0, 18446744069414584321);
        lemma_fundamental_div_mod_converse(311694288442016139993475194842373753744, 18446744069414584321, 16896981237942002723, 3511170319078647661);
    }
    assert(mpow(7, 35184372080640, 18446744069414584321) == 18146160046829613826) by {
        lemma_mpow_step(7, 17592186040320, 0, 18446744069414584321);
        lemma_fundamental_div_mod_converse(12328317009578852426930133172580770921, 18446744069414584321, 668319404399374695, 18146160046829613826);
    }
    assert(mpow(7, 70368744161280, 18446744069414584321) == 9306717745644682924) by {
        lemma_mpow_step(7, 35184372080640, 0, 18446744069414584321);
        lemma_fundamental_div_mod_converse(329283124445155332642629051092290358276, 18446744069414584321, 17850473948468743512, 9306717745644682924);
    }
    assert(mpow(7, 140737488322560, 18446744069414584321) == 12380578893860276750) by {
        lemma_mpow_step(7, 70368744161280, 0, 18446744069414584321);
        lemma_fundamental_div_mod_converse(86614995197097649042794188832497189776, 18446744069414584321, 4695408299218975106, 12380578893860276750);
    }
    assert(mpow(7, 281474976645120, 18446744069414584321) == 6115771955107415310) by {
        lemma_mpow_step(7, 140737488322560, 0, 18446744069414584321);
        lemma_fundamental_div_mod_converse(153278733747098553796117351586590562500, 18446744069414584321, 8309256808156222390, 6115771955107415310);
    }
    assert(mpow(7, 562949953290240, 18446744069414584321) == 17776499369601055404) by {
        lemma_mpow_step(7, 281474976645120, 0, 18446744069414584321);
        lemma_fundamental_div_mod_converse(37402666606878377105882800148822396100, 18446744069414584321, 2027602620068516376, 17776499369601055404);
    }
    assert(mpow(7, 1125899906580480, 18446744069414584321) == 16207902636198568418) by {
        lemma_mpow_step(7, 562949953290240, 0, 18446744069414584321);
        lemma_fundamental_div_mod_converse(316003929837426720181241347750677603216, 18446744069414584321, 17130607366173278638, 16207902636198568418);
    }
    assert(mpow(7, 2251799813160960, 18446744069414584321) == 1532612707718625687) by {
        lemma_mpow_step(7, 1125899906580480, 0, 18446744069414584321);
        lemma_fundamental_div_mod_converse(262696107864492503667096529112627022724, 18446744069414584321, 14240784545824149997, 1532612707718625687);
    }
    assert(mpow(7, 4503599626321920, 18446744069414584321) == 17492915097719143606) by {
        lemma_mpow_step(7, 2251799813160960, 0, 18446744069414584321);
        lemma_fundamental_div_mod_converse(2348901711860617568462032296016221969, 18446744069414584321, 127334216977357403, 17492915097719143606);
    }
    assert(mpow(7, 9007199252643840, 18446744069414584321) == 455906449640507599) by {
        lemma_mpow_step(7, 4503599626321920, 0, 18446744069414584321);
        lemma_fundamental_div_mod_converse(306002078616010355494134007090050683236, 18446744069414584321, 16588405924890216597, 455906449640507599);
    }
    assert(mpow(7, 18014398505287680, 18446744069414584321) == 11353340290879379826) by {
        lemma_mpow_step(7, 9007199252643840, 0, 18446744069414584321);
        lemma_fundamental_div_mod_converse(207850690823812691445461886376744801, 18446744069414584321, 11267608529812975, 11353340290879379826);
    }
    assert(mpow(7, 36028797010575360, 18446744069414584321) == 1803076106186727246) by {
        lemma_mpow_step(7, 18014398505287680, 0, 18446744069414584321);
        lemma_fundamental_div_mod_converse(128898335760505080918251287958375790276, 18446744069414584321, 6987592784692205430, 1803076106186727246);
    }
    assert(mpow(7, 72057594021150720, 18446744069414584321) == 13797081185216407910) by {
        lemma_mpow_step(7, 36028797010575360, 0, 18446744069414584321);
        lemma_fundamental_div_mod_converse(3251083444701490107238435216398744516, 18446744069414584321, 176241586724885086, 13797081185216407910);
    }
    assert(mpow(7, 144115188042301440, 18446744069414584321) == 17870292113338400769) by {
        lemma_mpow_step(7, 72057594021150720, 0, 18446744069414584321);
        lemma_fundamental_div_mod_converse(190359449231452599231739179083510568100, 18446744069414584321, 10319406422896923811, 17870292113338400769);
    }
    assert(mpow(7, 288230376084602880, 18446744069414584321) == 549755813888) by {
        lemma_mpow_step(7, 144115188042301440, 0, 18446744069414584321);
        lemma_fundamental_div_mod_converse(319347340216044645955702184874459791361, 18446744069414584321, 17311854006015885313, 549755813888);
    }
    assert(mpow(7, 576460752169205760, 18446744069414584321) == 70368744161280) by {
        lemma_mpow_step(7, 288230376084602880, 0, 18446744069414584321);
        lemma_fundamental_div_mod_converse(302231454903657293676544, 18446744069414584321, 16384, 70368744161280);
    }
    assert(mpow(7, 1152921504338411520, 18446744069414584321) == 17293822564807737345) by {
        lemma_mpow_step(7, 576460752169205760, 0, 18446744069414584321);
        lemma_fundamental_div_mod_converse(4951760154835678090651238400, 18446744069414584321, 268435455, 17293822564807737345);
    }
    assert(mpow(7, 2305843008676823040, 18446744069414584321) == 18446744069397807105) by {
        lemma_mpow_step(7, 1152921504338411520, 0, 18446744069414584321);
        lemma_fundamental_div_mod_converse(299076298903053266742145344778507649025, 18446744069414584321, 16212958654255595520, 18446744069397807105);
    }
    assert(mpow(7, 4611686017353646080, 18446744069414584321) == 281474976710656) by {
        lemma_mpow_step(7, 2305843008676823040, 0, 18446744069414584321);
        lemma_fundamental_div_mod_converse(340282366761863168470687870982788481025, 18446744069414584321, 18446744069381029889, 281474976710656);
    }
    assert(mpow(7, 9223372034707292160, 18446744069414584321) == 18446744069414584320) by {
        lemma_mpow_step(7, 4611686017353646080, 0, 18446744069414584321);
        lemma_fundamental_div_mod_converse(79228162514264337593543950336, 18446744069414584321, 4294967296, 18446744069414584320);
    }
}

/// `7^((p-1)/3)` modulo `p`, which is not one.
proof fn lemma_seven_power_3()
    ensures
        mpow(7, 6148914689804861440, 18446744069414584321) == 18446744065119617025,
{
    lemma_pow1(7);
    lemma_small_mod(7, 18446744069414584321);
    assert(mpow(7, 1, 18446744069414584321) == 7);
    assert(mpow(7, 2, 18446744069414584321) == 49) by {
        lemma_mpow_step(7, 1, 0, 18446744069414584321);
        lemma_fundamental_div_mod_converse(49, 18446744069414584321, 0, 49);
    }
    assert(mpow(7, 5, 18446744069414584321) == 16807) by {
        lemma_mpow_step(7, 2, 1, 18446744069414584321);
        lemma_fundamental_div_mod_converse(2401, 18446744069414584321, 0, 2401);
        lemma_fundamental_div_mod_converse(16807, 18446744069414584321, 0, 16807);
    }
    assert(mpow(7, 10, 18446744069414584321) == 282475249) by {
        lemma_mpow_step(7, 5, 0, 18446744069414584321);
        lemma_fundamental_div_mod_converse(282475249, 18446744069414584321, 0, 282475249);
    }
    assert(mpow(7, 21, 18446744069414584321) == 558545864083284007) by {
        lemma_mpow_step(7, 10, 1, 18446744069414584321);
        lemma_fundamental_div_mod_converse(79792266297612001, 18446744069414584321, 0, 79792266297612001);
        lemma_fundamental_div_mod_converse(558545864083284007, 18446744069414584321, 0, 558545864083284007);
    }
    assert(mpow(7, 42, 18446744069414584321) == 8022122801911579307) by {
        lemma_mpow_step(7, 21, 0, 18446744069414584321);
        lemma_fundamental_div_mod_converse(311973482284542371301330321821976049, 18446744069414584321, 16912116366476102, 8022122801911579307);
    }
    assert(mpow(7, 85, 18446744069414584321) == 12800950874161730379) by {
        lemma_mpow_step(7, 42, 1, 18446744069414584321);
        lemma_fundamental_div_mod_converse(64354454248949687889039934646950600249, 18446744069414584321, 3488661956103780069, 4463956420510902100);
        lemma_fundamental_div_mod_converse(31247694943576314700, 18446744069414584321, 1, 12800950874161730379);
    }
    assert(mpow(7, 170, 18446744069414584321) == 14271156885488964304) by {
        lemma_mpow_step(7, 85, 0, 18446744069414584321);
        lemma_fundamental_div_mod_converse(163864343282701969148850959207491483641, 18446744069414584321, 8883103851069056297, 14271156885488964304);
    }
    assert(mpow(7, 341, 18446744069414584321) == 9587782661304029968) by {
        lemma_mpow_step(7, 170, 1, 18446744069414584321);
        lemma_fundamental_div_mod_converse(203665918850239075812336752170586204416, 18446744069414584321, 11040751586504908066, 6640181542876171230);
        lemma_fundamental_div_mod_converse(46481270800133198610, 18446744069414584321, 2, 9587782661304029968);
    }
    assert(mpow(7, 682, 18446744069414584321) == 10276868313419320864) by {
        lemma_mpow_step(7, 341, 0, 18446744069414584321);
        lemma_fundamental_div_mod_converse(91925576360402187432322003917442081024, 18446744069414584321, 4983295481006772960, 10276868313419320864);
    }
    assert(mpow(7, 1365, 18446744069414584321) == 15061306595140985043) by {
        lemma_mpow_step(7, 682, 1, 18446744069414584321);
        lemma_fundamental_div_mod_converse(105614022331362076569618594850985706496, 18446744069414584321, 5725347624162803535, 12692611838971331761);
        lemma_fundamental_div_mod_converse(88848282872799322327, 18446744069414584321, 4, 15061306595140985043);
    }
    assert(mpow(7, 2730, 18446744069414584321) == 10087193495066827832) by {
        lemma_mpow_step(7, 1365, 0, 18446744069414584321);
        lemma_fundamental_div_mod_converse(226842956352837331940884393952349711849, 18446744069414584321, 12297181307402195377, 10087193495066827832);
    }
    assert(mpow(7, 5461, 18446744069414584321) == 12984983231508602376) by {
        lemma_mpow_step(7, 2730, 1, 18446744069414584321);
        lemma_fundamental_div_mod_converse(101751472606918525569475171639129820224, 18446744069414584321, 5515958383985302078, 17666492521142301186);
        lemma_fundamental_div_mod_converse(123665447647996108302, 18446744069414584321, 6, 12984983231508602376);
    }
    assert(mpow(7, 10922, 18446744069414584321) == 1362657970957379548) by {
        lemma_mpow_step(7, 5461, 0, 18446744069414584321);
        lemma_fundamental_div_mod_converse(168609789522559586008472190088872845376, 18446744069414584321, 9140355007262292068, 1362657970957379548);
    }
    assert(mpow(7, 21845, 18446744069414584321) == 11834541208736377360) by {
        lemma_mpow_step(7, 10922, 1, 18446744069414584321);
        lemma_fundamental_div_mod_converse(1856836745813682643710970718928684304, 18446744069414584321, 100659321711542029, 14866894507972756995);
        lemma_fundamental_div_mod_converse(104068261555809298965, 18446744069414584321, 5, 11834541208736377360);
    }
    assert(mpow(7, 43690, 18446744069414584321) == 15486580570079272365) by {
        lemma_mpow_step(7, 21845, 0, 18446744069414584321);
        lemma_fundamental_div_mod_converse(140056365621279475687658753376320569600, 18446744069414584321, 7592470795618526035, 15486580570079272365);
    }
    assert(mpow(7, 87381, 18446744069414584321) == 2195267778297645936) by {
        lemma_mpow_step(7, 43690, 1, 18446744069414584321);
        lemma_fundamental_div_mod_converse(239834177753556840635100180207852693225, 18446744069414584321, 13001436830861181108, 8219357140934485557);
        lemma_fundamental_div_mod_converse(57535499986541398899, 18446744069414584321, 3, 2195267778297645936);
    }
    assert(mpow(7, 174762, 18446744069414584321) == 12545318111885672966) by {
        lemma_mpow_step(7, 87381, 0, 18446744069414584321);
        lemma_fundamental_div_mod_converse(4819200618431882349195493519217316096, 18446744069414584321, 261249389068193530, 12545318111885672966);
    }
    assert(mpow(7, 349525, 18446744069414584321) == 3239519442280833256) by {
        lemma_mpow_step(7, 174762, 1, 18446744069414584321);
        lemma_fundamental_div_mod_converse(157385006528406706523350191054703237156, 18446744069414584321, 8531858301723670530, 16274283408395477026);
        lemma_fundamental_div_mod_converse(113919983858768339182, 18446744069414584321, 6, 3239519442280833256);
    }
    assert(mpow(7, 699050, 18446744069414584321) == 11109814195885452171) by {
        lemma_mpow_step(7, 349525, 0, 18446744069414584321);
        lemma_fundamental_div_mod_converse(10494486216915520949623193621675561536, 18446744069414584321, 568907237907408565, 11109814195885452171);
    }
    assert(mpow(7, 1398101, 18446744069414584321) == 4804669246163822745) by {
        lemma_mpow_step(7, 699050, 1, 18446744069414584321);
        lemma_fundamental_div_mod_converse(123427971467097916222522760237128613241, 18446744069414584321, 6691043742063200757, 8592128779201082244);
        lemma_fundamental_div_mod_converse(60144901454407575708, 18446744069414584321, 3, 4804669246163822745);
    }
    assert(mpow(7, 2796202, 18446744069414584321) == 438903447396483212) by {
        lemma_mpow_step(7, 1398101, 0, 18446744069414584321);
        lemma_fundamental_div_mod_converse(23084846565032436725420438431779335025, 18446744069414584321, 1251432040156506853, 438903447396483212);
    }
    assert(mpow(7, 5592405, 18446744069414584321) == 5017700972839514350) by {
        lemma_mpow_step(7, 2796202, 1, 18446744069414584321);
        lemma_fundamental_div_mod_converse(192636236136517506006062465397836944, 18446744069414584321, 10442831288363556, 16528309341332431468);
        lemma_fundamental_div_mod_converse(115698165389327020276, 18446744069414584321, 6, 5017700972839514350);
    }
    assert(mpow(7, 11184810, 18446744069414584321) == 7499557959359525151) by {
        lemma_mpow_step(7, 5592405, 0, 18446744069414584321);
        lemma_fundamental_div_mod_converse(25177323052834608724710680743855922500, 18446744069414584321, 1364865417880415269, 7499557959359525151);
    }
    assert(mpow(7, 22369621, 18446744069414584321) == 8616883547669016587) by {
        lemma_mpow_step(7, 11184810, 1, 18446744069414584321);
        lemma_fundamental_div_mod_converse(56243369585792805096414711952201572801, 18446744069414584321, 3048959175350976374, 6501481669499740747);
        lemma_fundamental_div_mod_converse(45510371686498185229, 18446744069414584321, 2, 8616883547669016587);
    }
    assert(mpow(7, 44739242, 18446744069414584321) == 458110968676413213) by {
        lemma_mpow_step(7, 22369621, 0, 18446744069414584321);
        lemma_fundamental_div_mod_converse(74250682074088977251828371371681128569, 18446744069414584321, 4025137541600063836, 458110968676413213);
    }
    assert(mpow(7, 89478485, 18446744069414584321) == 11751894947584113056) by {
        lemma_mpow_step(7, 44739242, 1, 18446744069414584321);
        lemma_fundamental_div_mod_converse(209865659621641648008375202720983369, 18446744069414584321, 11376840207243241, 1678842135369159008);
        lemma_fundamental_div_mod_converse(11751894947584113056, 18446744069414584321, 0, 11751894947584113056);
    }
    assert(mpow(7, 178956970, 18446744069414584321) == 525895266577965633) by {
        lemma_mpow_step(7, 89478485, 0, 18446744069414584321);
        lemma_fundamental_div_mod_converse(138107034859053003351907444126189659136, 18446744069414584321, 7486797363228983743, 525895266577965633);
    }
    assert(mpow(7, 357913941, 18446744069414584321) == 3177182820897284811) by {
        lemma_mpow_step(7, 178956970, 1, 18446744069414584321);
        lemma_fundamental_div_mod_converse(276565831409109536944831028929090689, 18446744069414584321, 14992663765941567, 8359630718448719682);
        lemma_fundamental_div_mod_converse(58517415029141037774, 18446744069414584321, 3, 3177182820897284811);
    }
    assert(mpow(7, 715827882, 18446744069414584321) == 7964267603545906836) by {
        lemma_mpow_step(7, 357913941, 0, 18446744069414584321);
        lemma_fundamental_div_mod_converse(10094490677404828173117414072051305721, 18446744069414584321, 547223436256259685, 7964267603545906836);
    }
    assert(mpow(7, 1431655765, 18446744069414584321) == 14159254819154955796) by {
        lemma_mpow_step(7, 715827882, 1, 18446744069414584321);
        lemma_fundamental_div_mod_converse(63429558460890861865720082489591530896, 18446744069414584321, 3438523254955302650, 17834245605091780246);
        lemma_fundamental_div_mod_converse(124839719235642461722, 18446744069414584321, 6, 14159254819154955796);
    }
    assert(mpow(7, 2863311530, 18446744069414584321) == 998724450546658713) by {
        lemma_mpow_step(7, 1431655765, 0, 18446744069414584321);
        lemma_fundamental_div_mod_converse(200484497033762839963513973146713993616, 18446744069414584321, 10868286364213937143, 998724450546658713);
    }
    assert(mpow(7, 5726623060, 18446744069414584321) == 1811047956385014016) by {
        lemma_mpow_step(7, 2863311530, 0, 18446744069414584321);
        lemma_fundamental_div_mod_converse(997450528119725345256101448498816369, 18446744069414584321, 54071901489300593, 1811047956385014016);
    }
    assert(mpow(7, 11453246120, 18446744069414584321) == 2957134717709447844) by {
        lemma_mpow_step(7, 5726623060, 0, 18446744069414584321);
        lemma_fundamental_div_mod_converse(3279894700326335629564538384516448256, 18446744069414584321, 177803448022273372, 2957134717709447844);
    }
    assert(mpow(7, 22906492240, 18446744069414584321) == 8418656202527058970) by {
        lemma_mpow_step(7, 11453246120, 0, 18446744069414584321);
        lemma_fundamental_div_mod_converse(8744645738682535788289716539356248336, 18446744069414584321, 474048195485158646, 8418656202527058970);
    }
    assert(mpow(7, 45812984480, 18446744069414584321) == 9344165103595421707) by {
        lemma_mpow_step(7, 22906492240, 0, 18446744069414584321);
        lemma_fundamental_div_mod_converse(70873772256347321337498255037857460900, 18446744069414584321, 3842074893523284633, 9344165103595421707);
    }
    assert(mpow(7, 91625968960, 18446744069414584321) == 12398472707942400981) by {
        lemma_mpow_step(7, 45812984480, 0, 18446744069414584321);
        lemma_fundamental_div_mod_converse(87313421483250438081590708651166793849, 18446744069414584321, 4733270064066182308, 12398472707942400981);
    }
    assert(mpow(7, 183251937920, 18446744069414584321) == 10977358340789161543) by {
        lemma_mpow_step(7, 91625968960, 0, 18446744069414584321);
        lemma_fundamental_div_mod_converse(153722125489592573533845170742989762361, 18446744069414584321, 8333293122685526258, 10977358340789161543);
    }
    assert(mpow(7, 366503875840, 18446744069414584321) == 14519574879452399500) by {
        lemma_mpow_step(7, 183251937920, 0, 18446744069414584321);
        lemma_fundamental_div_mod_converse(120502396142093373691939413180950140849, 18446744069414584321, 6532447985869279269, 14519574879452399500);
    }
    assert(mpow(7, 733007751680, 18446744069414584321) == 3056692624244734627) by {
        lemma_mpow_step(7, 366503875840, 0, 18446744069414584321);
        lemma_fundamental_div_mod_converse(210818054680025161472148986307600250000, 18446744069414584321, 11428469646823455213, 3056692624244734627);
    }
    assert(mpow(7, 1466015503360, 18446744069414584321) == 17973258314804772181) by {
        lemma_mpow_step(7, 733007751680, 0, 18446744069414584321);
        lemma_fundamental_div_mod_converse(9343369799112162434436477533652829129, 18446744069414584321, 506505091844572788, 17973258314804772181);
    }
    assert(mpow(7, 2932031006720, 18446744069414584321) == 15462695660743809749) by {
        lemma_mpow_step(7, 1466015503360, 0, 18446744069414584321);
        lemma_fundamental_div_mod_converse(323038014450698879182715983931311496761, 18446744069414584321, 17511925857219887972, 15462695660743809749);
    }
    assert(mpow(7, 5864062013440, 18446744069414584321) == 18046908317468628738) by {
        lemma_mpow_step(7, 2932031006720, 0, 18446744069414584321);
        lemma_fundamental_div_mod_converse(239094957096785443156009231622707443001, 18446744069414584321, 12961363598750965303, 18046908317468628738);
    }
    assert(mpow(7, 11728124026880, 18446744069414584321) == 9144605907772536802) by {
        lemma_mpow_step(7, 5864062013440, 0, 18446744069414584321);
        lemma_fundamental_div_mod_converse(325690899819118372228014440786079472644, 18446744069414584321, 17655739061243143202, 9144605907772536802);
    }
    assert(mpow(7, 23456248053760, 18446744069414584321) == 8796482344486648840) by {
        lemma_mpow_step(7, 11728124026880, 0, 18446744069414584321);
        lemma_fundamental_div_mod_converse(83623817208468381855484991938444387204, 18446744069414584321, 4533256215503087484, 8796482344486648840);
    }
    assert(mpow(7, 46912496107520, 18446744069414584321) == 3596945015050375886) by {
        lemma_mpow_step(7, 23456248053760, 0, 18446744069414584321);
        lemma_fundamental_div_mod_converse(77378101636865330193812989013473345600, 18446744069414584321, 4194675295851326834, 3596945015050375886);
    }
    assert(mpow(7, 93824992215040, 18446744069414584321) == 4201997653601256896) by {
        lemma_mpow_step(7, 46912496107520, 0, 18446744069414584321);
        lemma_fundamental_div_mod_converse(12938013441295748809050354309890284996, 18446744069414584321, 701371114198276100, 4201997653601256896);
    }
    assert(mpow(7, 187649984430080, 18446744069414584321) == 6905479200839918232) by {
        lemma_mpow_step(7, 93824992215040, 0, 18446744069414584321);
        lemma_fundamental_div_mod_converse(17656784280870468541045640030987554816, 18446744069414584321, 957176194044243304, 6905479200839918232);
    }
    assert(mpow(7, 375299968860160, 18446744069414584321) == 1725491680989254570) by {
        lemma_mpow_step(7, 187649984430080, 0, 18446744069414584321);
        lemma_fundamental_div_mod_converse(47685642993232715762259011436446005824, 18446744069414584321, 2585043887083431574, 1725491680989254570);
    }
    assert(mpow(7, 750599937720320, 18446744069414584321) == 12370230134295797906) by {
        lemma_mpow_step(7, 375299968860160, 0, 18446744069414584321);
        lemma_fundamental_div_mod_converse(2977321541163123460852579804265884900, 18446744069414584321, 161400924193426514, 12370230134295797906);
    }
    assert(mpow(7, 1501199875440640, 18446744069414584321) == 3734230229149707555) by {
        lemma_mpow_step(7, 750599937720320, 0, 18446744069414584321);
        lemma_fundamental_div_mod_converse(153022593575439834296838095209193984836, 18446744069414584321, 8295371421624329761, 3734230229149707555);
    }
    assert(mpow(7, 3002399750881280, 18446744069414584321) == 16496341184493220914) by {
        lemma_mpow_step(7, 1501199875440640, 0, 18446744069414584321);
        lemma_fundamental_div_mod_converse(13944475404295477395803772542024078025, 18446744069414584321, 755931526551395991, 16496341184493220914);
    }
    assert(mpow(7, 6004799501762560, 18446744069414584321) == 15331777707844533717) by {
        lemma_mpow_step(7, 3002399750881280, 0, 18446744069414584321);
        lemma_fundamental_div_mod_converse(272129272475207202809099911222006995396, 18446744069414584321, 14752157424160725999, 15331777707844533717);
    }
    assert(mpow(7, 12009599003525120, 18446744069414584321) == 11895029263313522992) by {
        lemma_mpow_step(7, 6004799501762560, 0, 18446744069414584321);
        lemma_fundamental_div_mod_converse(235063407682758584279934131037149836089, 18446744069414584321, 12742812867041550857, 11895029263313522992);
    }
    assert(mpow(7, 24019198007050240, 18446744069414584321) == 11373273867503537004) by {
        lemma_mpow_step(7, 12009599003525120, 0, 18446744069414584321);
        lemma_fundamental_div_mod_converse(141491721175085053498024926458512632064, 18446744069414584321, 7670281576122899860, 11373273867503537004);
    }
    assert(mpow(7, 48038396014100480, 18446744069414584321) == 13835058050987180033) by {
        lemma_mpow_step(7, 24019198007050240, 0, 18446744069414584321);
        lemma_fundamental_div_mod_converse(129351358465238862186574898450397296016, 18446744069414584321, 7012151194730804623, 13835058050987180033);
    }
    assert(mpow(7, 96076792028200960, 18446744069414584321) == 35184372080640) by {
        lemma_mpow_step(7, 48038396014100480, 0, 18446744069414584321);
        lemma_fundamental_div_mod_converse(191408831274185188625686355717553881089, 18446744069414584321, 10376293537435066369, 35184372080640);
    }
    assert(mpow(7, 192153584056401920, 18446744069414584321) == 18158513693262872577) by {
        lemma_mpow_step(7, 96076792028200960, 0, 18446744069414584321);
        lemma_fundamental_div_mod_converse(1237940038708919522662809600, 18446744069414584321, 67108863, 18158513693262872577);
    }
    assert(mpow(7, 384307168112803840, 18446744069414584321) == 18446744069413535745) by {
        lemma_mpow_step(7, 192153584056401920, 0, 18446744069414584321);
        lemma_fundamental_div_mod_converse(329731619548415248827006495713738620929, 18446744069414584321, 17874786916739579904, 18446744069413535745);
    }
    assert(mpow(7, 768614336225607680, 18446744069414584321) == 1099511627776) by {
        lemma_mpow_step(7, 384307168112803840, 0, 18446744069414584321);
        lemma_fundamental_div_mod_converse(340282366762443452863967504622392705025, 18446744069414584321, 18446744069412487169, 1099511627776);
    }
    assert(mpow(7, 1537228672451215360, 18446744069414584321) == 281474976645120) by {
        lemma_mpow_step(7, 768614336225607680, 0, 18446744069414584321);
        lemma_fundamental_div_mod_converse(1208925819614629174706176, 18446744069414584321, 65536, 281474976645120);
    }
    assert(mpow(7, 3074457344902430720, 18446744069414584321) == 18446744065119617026) by {
        lemma_mpow_step(7, 1537228672451215360, 0, 18446744069414584321);
        lemma_fundamental_div_mod_converse(79228162477370849450419814400, 18446744069414584321, 4294967294, 18446744065119617026);
    }
    assert(mpow(7, 6148914689804861440, 18446744069414584321) == 18446744065119617025) by {
        lemma_mpow_step(7, 3074457344902430720, 0, 18446744069414584321);
        lemma_fundamental_div_mod_converse(340282366604025813553891209612909084676, 18446744069414584321, 18446744060824649731, 18446744065119617025);
    }
}

/// `7^((p-1)/5)` modulo `p`, which is not one.
proof fn lemma_seven_power_5()
    ensures
        mpow(7, 3689348813882916864, 18446744069414584321) == 1373043270956696022,
{
    lemma_pow1(7);
    lemma_small_mod(7, 18446744069414584321);
    assert(mpow(7, 1, 18446744069414584321) == 7);
    assert(mpow(7, 3, 18446744069414584321) == 343) by {
        lemma_mpow_step(7, 1, 1, 18446744069414584321);
        lemma_fundamental_div_mod_converse(49, 18446744069414584321, 0, 49);
        lemma_fundamental_div_mod_converse(343, 18446744069414584321, 0, 343);
    }
    assert(mpow(7, 6, 18446744069414584321) == 117649) by {
        lemma_mpow_step(7, 3, 0, 18446744069414584321);
        lemma_fundamental_div_mod_converse(117649, 18446744069414584321, 0, 117649);
    }
    assert(mpow(7, 12, 18446744069414584321) == 13841287201) by {
        lemma_mpow_step(7, 6, 0, 18446744069414584321);
        lemma_fundamental_div_mod_converse(13841287201, 18446744069414584321, 0, 13841287201);
    }
    assert(mpow(7, 25, 18446744069414584321) == 12903046666114829695) by {
        lemma_mpow_step(7, 12, 1, 18446744069414584321);
        lemma_fundamental_div_mod_converse(191581231380566414401, 18446744069414584321, 10, 7113790686420571191);
        lemma_fundamental_div_mod_converse(49796534804943998337, 18446744069414584321, 2, 12903046666114829695);
    }
    assert(mpow(7, 51, 18446744069414584321) == 11221315429317299127) by {
        lemma_mpow_step(7, 25, 1, 18446744069414584321);
        lemma_fundamental_div_mod_converse(166488613267937021382468279598853793025, 18446744069414584321, 9025365812061196555, 9508792519651578870);
        lemma_fundamental_div_mod_converse(66561547637561052090, 18446744069414584321, 3, 11221315429317299127);
    }
    assert(mpow(7, 102, 18446744069414584321) == 3745031562215636174) by {
        lemma_mpow_step(7, 51, 0, 18446744069414584321);
        lemma_fundamental_div_mod_converse(125917919964234481219927339701994962129, 18446744069414584321, 6826024120593252355, 3745031562215636174);
    }
    assert(mpow(7, 204, 18446744069414584321) == 14721374862152863140) by {
        lemma_mpow_step(7, 102, 0, 18446744069414584321);
        lemma_fundamental_div_mod_converse(14025261401991288399124346535537358276, 18446744069414584321, 760310944262826016, 14721374862152863140);
    }
    assert(mpow(7, 409, 18446744069414584321) == 4722125031313448055) by {
        lemma_mpow_step(7, 204, 1, 18446744069414584321);
        lemma_fundamental_div_mod_converse(216718877832026230217068140499570659600, 18446744069414584321, 11748353910940550106, 8580336748508171574);
        lemma_fundamental_div_mod_converse(60062357239557201018, 18446744069414584321, 3, 4722125031313448055);
    }
    assert(mpow(7, 819, 18446744069414584321) == 13185163832710852318) by {
        lemma_mpow_step(7, 409, 1, 18446744069414584321);
        lemma_fundamental_div_mod_converse(22298464811357032773965779093183283025, 18446744069414584321, 1208802199859689631, 1883594833244407474);
        lemma_fundamental_div_mod_converse(13185163832710852318, 18446744069414584321, 0, 13185163832710852318);
    }
    assert(mpow(7, 1638, 18446744069414584321) == 2814030611640221029) by {
        lemma_mpow_step(7, 819, 0, 18446744069414584321);
        lemma_fundamental_div_mod_converse(173848545295426332770879236170005973124, 18446744069414584321, 9424348526831569695, 2814030611640221029);
    }
    assert(mpow(7, 3276, 18446744069414584321) == 15305242945550478579) by {
        lemma_mpow_step(7, 1638, 0, 18446744069414584321);
        lemma_fundamental_div_mod_converse(7918768283248236468233720403973818841, 18446744069414584321, 429277288905301222, 15305242945550478579);
    }
    assert(mpow(7, 6553, 18446744069414584321) == 4055957887005023019) by {
        lemma_mpow_step(7, 3276, 1, 18446744069414584321);
        lemma_fundamental_div_mod_converse(234250461622322689800529776975937859241, 18446744069414584321, 12698742972789383586, 16390917471927504135);
        lemma_fundamental_div_mod_converse(114736422303492528945, 18446744069414584321, 6, 4055957887005023019);
    }
    assert(mpow(7, 13107, 18446744069414584321) == 15895862450598400473) by {
        lemma_mpow_step(7, 6553, 1, 18446744069414584321);
        lemma_fundamental_div_mod_converse(16450794381158251076059226936719874361, 18446744069414584321, 891799350565843482, 2270837492942628639);
        lemma_fundamental_div_mod_converse(15895862450598400473, 18446744069414584321, 0, 15895862450598400473);
    }
    assert(mpow(7, 26214, 18446744069414584321) == 15907429390595540903) by {
        lemma_mpow_step(7, 13107, 0, 18446744069414584321);
        lemma_fundamental_div_mod_converse(252678443048344185718003960826086623729, 18446744069414584321, 13697725847852728906, 15907429390595540903);
    }
    assert(mpow(7, 52428, 18446744069414584321) == 9571849187322067488) by {
        lemma_mpow_step(7, 26214, 0, 18446744069414584321);
        lemma_fundamental_div_mod_converse(253046309816782821827013347307146055409, 18446744069414584321, 13717667945333691601, 9571849187322067488);
    }
    assert(mpow(7, 104857, 18446744069414584321) == 13342646475897591308) by {
        lemma_mpow_step(7, 52428, 1, 18446744069414584321);
        lemma_fundamental_div_mod_converse(91620296864838123815447591978826630144, 18446744069414584321, 4966746246387627957, 4541341506473167947);
        lemma_fundamental_div_mod_converse(31789390545312175629, 18446744069414584321, 1, 13342646475897591308);
    }
    assert(mpow(7, 209715, 18446744069414584321) == 11968414678554910634) by {
        lemma_mpow_step(7, 104857, 1, 18446744069414584321);
        lemma_fundamental_div_mod_converse(178026214980782412629159348756197150864, 18446744069414584321, 9650820454323794076, 6980271831054868468);
        lemma_fundamental_div_mod_converse(48861902817384079276, 18446744069414584321, 2, 11968414678554910634);
    }
    assert(mpow(7, 419430, 18446744069414584321) == 9815939365277946145) by {
        lemma_mpow_step(7, 209715, 0, 18446744069414584321);
        lemma_fundamental_div_mod_converse(143242949917848644838195697515726281956, 18446744069414584321, 7765215876516170691, 9815939365277946145);
    }
    assert(mpow(7, 838860, 18446744069414584321) == 15620185229717233314) by {
        lemma_mpow_step(7, 419430, 0, 18446744069414584321);
        lemma_fundamental_div_mod_converse(96352665622813208237188249909520361025, 18446744069414584321, 5223288470867314591, 15620185229717233314);
    }
    assert(mpow(7, 1677721, 18446744069414584321) == 531677932165793774) by {
        lemma_mpow_step(7, 838860, 1, 18446744069414584321);
        lemma_fundamental_div_mod_converse(243990186610676416875693461438711422596, 18446744069414584321, 13226734522501539462, 10616950601403447294);
        lemma_fundamental_div_mod_converse(74318654209824131058, 18446744069414584321, 4, 531677932165793774);
    }
    assert(mpow(7, 3355443, 18446744069414584321) == 5959305040220178296) by {
        lemma_mpow_step(7, 1677721, 1, 18446744069414584321);
        lemma_fundamental_div_mod_converse(282681423552094405825078311497163076, 18446744069414584321, 15324190680391730, 16662824208101097746);
        lemma_fundamental_div_mod_converse(116639769456707684222, 18446744069414584321, 6, 5959305040220178296);
    }
    assert(mpow(7, 6710886, 18446744069414584321) == 6422988881738978288) by {
        lemma_mpow_step(7, 3355443, 0, 18446744069414584321);
        lemma_fundamental_div_mod_converse(35513316562393620858151302162029463616, 18446744069414584321, 1925180748903871568, 6422988881738978288);
    }
    assert(mpow(7, 13421772, 18446744069414584321) == 6417963550187649822) by {
        lemma_mpow_step(7, 6710886, 0, 18446744069414584321);
        lemma_fundamental_div_mod_converse(41254786174942530815794920366135410944, 18446744069414584321, 2236426440335590882, 6417963550187649822);
    }
    assert(mpow(7, 26843545, 18446744069414584321) == 7536491442022418664) by {
        lemma_mpow_step(7, 13421772, 1, 18446744069414584321);
        lemma_fundamental_div_mod_converse(41190256131537261935555188655696631684, 18446744069414584321, 2232928259672247577, 14252887398442191467);
        lemma_fundamental_div_mod_converse(99770211789095340269, 18446744069414584321, 5, 7536491442022418664);
    }
    assert(mpow(7, 53687091, 18446744069414584321) == 6156600053163182347) by {
        lemma_mpow_step(7, 26843545, 1, 18446744069414584321);
        lemma_fundamental_div_mod_converse(56798703255677155502754649572495544896, 18446744069414584321, 3079063873925133703, 11420510904403074233);
        lemma_fundamental_div_mod_converse(79943576330821519631, 18446744069414584321, 4, 6156600053163182347);
    }
    assert(mpow(7, 107374182, 18446744069414584321) == 774671493430776042) by {
        lemma_mpow_step(7, 53687091, 0, 18446744069414584321);
        lemma_fundamental_div_mod_converse(37903724214608899701404357260372428409, 18446744069414584321, 2054765007416931727, 774671493430776042);
    }
    assert(mpow(7, 214748364, 18446744069414584321) == 5396215078887381364) by {
        lemma_mpow_step(7, 107374182, 0, 18446744069414584321);
        lemma_fundamental_div_mod_converse(600115922734268888395109410361185764, 18446744069414584321, 32532349366156400, 5396215078887381364);
    }
    assert(mpow(7, 429496729, 18446744069414584321) == 15314337471363908198) by {
        lemma_mpow_step(7, 214748364, 1, 18446744069414584321);
        lemma_fundamental_div_mod_converse(29119137177611547477493458469174500496, 18446744069414584321, 1578551589811028170, 12728759107003177926);
        lemma_fundamental_div_mod_converse(89101313749022245482, 18446744069414584321, 4, 15314337471363908198);
    }
    assert(mpow(7, 858993459, 18446744069414584321) == 3662027161463226824) by {
        lemma_mpow_step(7, 429496729, 1, 18446744069414584321);
        lemma_fundamental_div_mod_converse(234528932186820701746403403692571607204, 18446744069414584321, 12713838892342998846, 5793645042898913638);
        lemma_fundamental_div_mod_converse(40555515300292395466, 18446744069414584321, 2, 3662027161463226824);
    }
    assert(mpow(7, 1717986918, 18446744069414584321) == 11820361339200135398) by {
        lemma_mpow_step(7, 858993459, 0, 18446744069414584321);
        lemma_fundamental_div_mod_converse(13410442931294418343598112418473126976, 18446744069414584321, 726981568174377818, 11820361339200135398);
    }
    assert(mpow(7, 3435973836, 18446744069414584321) == 10563623981652513853) by {
        lemma_mpow_step(7, 1717986918, 0, 18446744069414584321);
        lemma_fundamental_div_mod_converse(139720942189257218363209210021532618404, 18446744069414584321, 7574287454929238631, 10563623981652513853);
    }
    assert(mpow(7, 6871947672, 18446744069414584321) == 11556889392494533434) by {
        lemma_mpow_step(7, 3435973836, 0, 18446744069414584321);
        lemma_fundamental_div_mod_converse(111590151625744110332396791914356905609, 18446744069414584321, 6049314242439396175, 11556889392494533434);
    }
    assert(mpow(7, 13743895344, 18446744069414584321) == 5123117391711505057) by {
        lemma_mpow_step(7, 6871947672, 0, 18446744069414584321);
        lemma_fundamental_div_mod_converse(133561692430352666059012427573343832356, 18446744069414584321, 7240393856377241219, 5123117391711505057);
    }
    assert(mpow(7, 27487790688, 18446744069414584321) == 18163573378392062736) by {
        lemma_mpow_step(7, 13743895344, 0, 18446744069414584321);
        lemma_fundamental_div_mod_converse(26246331809256894744108532020136573249, 18446744069414584321, 1422816498699861553, 18163573378392062736);
    }
    assert(mpow(7, 54975581376, 18446744069414584321) == 17372647198866510400) by {
        lemma_mpow_step(7, 27487790688, 0, 18446744069414584321);
        lemma_fundamental_div_mod_converse(329915397872232851432384597604959805696, 18446744069414584321, 17884749559638838976, 17372647198866510400);
    }
    assert(mpow(7, 109951162752, 18446744069414584321) == 1220884775256242639) by {
        lemma_mpow_step(7, 54975581376, 0, 18446744069414584321);
        lemma_fundamental_div_mod_converse(301808870696284410149946558673308160000, 18446744069414584321, 16361091668024776241, 1220884775256242639);
    }
    assert(mpow(7, 219902325504, 18446744069414584321) == 1436240010618898855) by {
        lemma_mpow_step(7, 109951162752, 0, 18446744069414584321);
        lemma_fundamental_div_mod_converse(1490559634452486098387502740041684321, 18446744069414584321, 80803399713442746, 1436240010618898855);
    }
    assert(mpow(7, 439804651008, 18446744069414584321) == 968157462317130011) by {
        lemma_mpow_step(7, 219902325504, 0, 18446744069414584321);
        lemma_fundamental_div_mod_converse(2062785368102574695771412892720311025, 18446744069414584321, 111823818899442134, 968157462317130011);
    }
    assert(mpow(7, 879609302016, 18446744069414584321) == 993397133647309316) by {
        lemma_mpow_step(7, 439804651008, 0, 18446744069414584321);
        lemma_fundamental_div_mod_converse(937328871840345017248155607876860121, 18446744069414584321, 50812699970965205, 993397133647309316);
    }
    assert(mpow(7, 1759218604032, 18446744069414584321) == 14359758886168776598) by {
        lemma_mpow_step(7, 879609302016, 0, 18446744069414584321);
        lemma_fundamental_div_mod_converse(986837865138690126776191406580387856, 18446744069414584321, 53496587876171898, 14359758886168776598);
    }
    assert(mpow(7, 3518437208064, 18446744069414584321) == 11469785989846425790) by {
        lemma_mpow_step(7, 1759218604032, 0, 18446744069414584321);
        lemma_fundamental_div_mod_converse(206202675268903143501787185196032453604, 18446744069414584321, 11178269427546032934, 11469785989846425790);
    }
    assert(mpow(7, 7036874416128, 18446744069414584321) == 7202858824453247222) by {
        lemma_mpow_step(7, 3518437208064, 0, 18446744069414584321);
        lemma_fundamental_div_mod_converse(131555990652877353455456949237977124100, 18446744069414584321, 7131664545127087118, 7202858824453247222);
    }
    assert(mpow(7, 14073748832256, 18446744069414584321) == 8980223327998268287) by {
        lemma_mpow_step(7, 7036874416128, 0, 18446744069414584321);
        lemma_fundamental_div_mod_converse(51881175245004014481077806900250717284, 18446744069414584321, 2812484146241558757, 8980223327998268287);
    }
    assert(mpow(7, 28147497664512, 18446744069414584321) == 2898061628613144896) by {
        lemma_mpow_step(7, 14073748832256, 0, 18446744069414584321);
        lemma_fundamental_div_mod_converse(80644411020724293245040001270829914369, 18446744069414584321, 4371742282392037313, 2898061628613144896);
    }
    assert(mpow(7, 56294995329024, 18446744069414584321) == 5148563552100513047) by {
        lemma_mpow_step(7, 28147497664512, 0, 18446744069414584321);
        lemma_fundamental_div_mod_converse(8398761203239873775379248039490850816, 18446744069414584321, 455297757242989289, 5148563552100513047);
    }
    assert(mpow(7, 112589990658048, 18446744069414584321) == 10405746850183322052) by {
        lemma_mpow_step(7, 56294995329024, 0, 18446744069414584321);
        lemma_fundamental_div_mod_converse(26507706650017852324579428760617224209, 18446744069414584321, 1436985657212464717, 10405746850183322052);
    }
    assert(mpow(7, 225179981316096, 18446744069414584321) == 8376609452955824527) by {
        lemma_mpow_step(7, 112589990658048, 0, 18446744069414584321);
        lemma_fundamental_div_mod_converse(108279567510100128230302679374749490704, 18446744069414584321, 5869847117878750337, 8376609452955824527);
    }
    assert(mpow(7, 450359962632192, 18446744069414584321) == 17819501121686609562) by {
        lemma_mpow_step(7, 225179981316096, 0, 18446744069414584321);
        lemma_fundamental_div_mod_converse(70167585927348877839556858934414773729, 18446744069414584321, 3803792455910387527, 17819501121686609562);
    }
    assert(mpow(7, 900719925264384, 18446744069414584321) == 12701195747762323519) by {
        lemma_mpow_step(7, 450359962632192, 0, 18446744069414584321);
        lemma_fundamental_div_mod_converse(317534620225790336360968070694629831844, 18446744069414584321, 17213586258415924325, 12701195747762323519);
    }
    assert(mpow(7, 1801439850528768, 18446744069414584321) == 16093963071722629223) by {
        lemma_mpow_step(7, 900719925264384, 0, 18446744069414584321);
        lemma_fundamental_div_mod_converse(161320373422975728484302884533620543361, 18446744069414584321, 8745194968604305178, 16093963071722629223);
    }
    assert(mpow(7, 3602879701057536, 18446744069414584321) == 18098504255140688579) by {
        lemma_mpow_step(7, 1801439850528768, 0, 18446744069414584321);
        lemma_fundamental_div_mod_converse(259015647353971687099497040659933583729, 18446744069414584321, 14041266381715007150, 18098504255140688579);
    }
    assert(mpow(7, 7205759402115072, 18446744069414584321) == 3705545293506004500) by {
        lemma_mpow_step(7, 3602879701057536, 0, 18446744069414584321);
        lemma_fundamental_div_mod_converse(327555856273345610716342600566261039241, 18446744069414584321, 17756838553229884021, 3705545293506004500);
    }
    assert(mpow(7, 14411518804230144, 18446744069414584321) == 12143967077249500439) by {
        lemma_mpow_step(7, 7205759402115072, 0, 18446744069414584321);
        lemma_fundamental_div_mod_converse(13731065922224501035679677554020250000, 18446744069414584321, 744362575344184441, 12143967077249500439);
    }
    assert(mpow(7, 28823037608460288, 18446744069414584321) == 8898934198923663040) by {
        lemma_mpow_step(7, 14411518804230144, 0, 18446744069414584321);
        lemma_fundamental_div_mod_converse(147475936373319774162888344075061192721, 18446744069414584321, 7994686532125774161, 8898934198923663040);
    }
    assert(mpow(7, 57646075216920576, 18446744069414584321) == 14017153681711143730) by {
        lemma_mpow_step(7, 28823037608460288, 0, 18446744069414584321);
        lemma_fundamental_div_mod_converse(79191029876773136433022437251462041600, 18446744069414584321, 4292954332687627470, 14017153681711143730);
    }
    assert(mpow(7, 115292150433841152, 18446744069414584321) == 13369903252519103517) by {
        lemma_mpow_step(7, 57646075216920576, 0, 18446744069414584321);
        lemma_fundamental_div_mod_converse(196480597336708271666884865664718312900, 18446744069414584321, 10651234526665370023, 13369903252519103517);
    }
    assert(mpow(7, 230584300867682304, 18446744069414584321) == 2271703332821311793) by {
        lemma_mpow_step(7, 115292150433841152, 0, 18446744069414584321);
        lemma_fundamental_div_mod_converse(178754312981720903104395343029361769289, 18446744069414584321, 9690290726052977176, 2271703332821311793);
    }
    assert(mpow(7, 461168601735364608, 18446744069414584321) == 14026992134716723275) by {
        lemma_mpow_step(7, 230584300867682304, 0, 18446744069414584321);
        lemma_fundamental_div_mod_converse(5160636032351455698212541613320874849, 18446744069414584321, 279758639949257494, 14026992134716723275);
    }
    assert(mpow(7, 922337203470729216, 18446744069414584321) == 2281812832982421726) by {
        lemma_mpow_step(7, 461168601735364608, 0, 18446744069414584321);
        lemma_fundamental_div_mod_converse(196756508347404817437873129952926725625, 18446744069414584321, 10666191692529345819, 2281812832982421726);
    }
    assert(mpow(7, 1844674406941458432, 18446744069414584321) == 2625919085333925275) by {
        lemma_mpow_step(7, 922337203470729216, 0, 18446744069414584321);
        lemma_fundamental_div_mod_converse(5206669804763265226609928511716819076, 18446744069414584321, 282254135752667881, 2625919085333925275);
    }
    assert(mpow(7, 3689348813882916864, 18446744069414584321) == 1373043270956696022) by {
        lemma_mpow_step(7, 1844674406941458432, 0, 18446744069414584321);
        lemma_fundamental_div_mod_converse(6895451042720958730284252839283825625, 18446744069414584321, 373803150126307843, 1373043270956696022);
    }
}

/// `7^((p-1)/17)` modulo `p`, which is not one.
proof fn lemma_seven_power_17()
    ensures
        mpow(7, 1085102592318504960, 18446744069414584321) == 16301593560560007290,
{
    lemma_pow1(7);
    lemma_small_mod(7, 18446744069414584321);
    assert(mpow(7, 1, 18446744069414584321) == 7);
    assert(mpow(7, 3, 18446744069414584321) == 343) by {
        lemma_mpow_step(7, 1, 1, 18446744069414584321);
        lemma_fundamental_div_mod_converse(49, 18446744069414584321, 0, 49);
        lemma_fundamental_div_mod_converse(343, 18446744069414584321, 0, 343);
    }
    assert(mpow(7, 7, 18446744069414584321) == 823543) by {
        lemma_mpow_step(7, 3, 1, 18446744069414584321);
        lemma_fundamental_div_mod_converse(117649, 18446744069414584321, 0, 117649);
        lemma_fundamental_div_mod_converse(823543, 18446744069414584321, 0, 823543);
    }
    assert(mpow(7, 15, 18446744069414584321) == 4747561509943) by {
        lemma_mpow_step(7, 7, 1, 18446744069414584321);
        lemma_fundamental_div_mod_converse(678223072849, 18446744069414584321, 0, 678223072849);
        lemma_fundamental_div_mod_converse(4747561509943, 18446744069414584321, 0, 4747561509943);
    }
    assert(mpow(7, 30, 18446744069414584321) == 1582037354089406189) by {
        lemma_mpow_step(7, 15, 0, 18446744069414584321);
        lemma_fundamental_div_mod_converse(22539340290692258087863249, 18446744069414584321, 1221860, 1582037354089406189);
    }
    assert(mpow(7, 60, 18446744069414584321) == 6704211459967285318) by {
        lemma_mpow_step(7, 30, 0, 18446744069414584321);
        lemma_fundamental_div_mod_converse(2502842189734209177361561278631503721, 18446744069414584321, 135679347006500643, 6704211459967285318);
    }
    assert(mpow(7, 120, 18446744069414584321) == 12536486945555764682) by {
        lemma_mpow_step(7, 60, 0, 18446744069414584321);
        lemma_fundamental_div_mod_converse(44946451299956679308051758810418361124, 18446744069414584321, 2436552007813651802, 12536486945555764682);
    }
    assert(mpow(7, 240, 18446744069414584321) == 8329639379454877396) by {
        lemma_mpow_step(7, 120, 0, 18446744069414584321);
        lemma_fundamental_div_mod_converse(157163504936090106386079027361758561124, 18446744069414584321, 8519850676340941968, 8329639379454877396);
    }
    assert(mpow(7, 481, 18446744069414584321) == 12103073565623681441) by {
        lemma_mpow_step(7, 240, 1, 18446744069414584321);
        lemma_fundamental_div_mod_converse(69382892191765434981884067613391740816, 18446744069414584321, 3761254123257716564, 9634757967695347772);
        lemma_fundamental_div_mod_converse(67443305773867434404, 18446744069414584321, 3, 12103073565623681441);
    }
    assert(mpow(7, 963, 18446744069414584321) == 14844191010664918863) by {
        lemma_mpow_step(7, 481, 1, 18446744069414584321);
        lemma_fundamental_div_mod_converse(146484389734898733948485392869847836481, 18446744069414584321, 7940934681138419546, 7391097021356298215);
        lemma_fundamental_div_mod_converse(51737679149494087505, 18446744069414584321, 2, 14844191010664918863);
    }
    assert(mpow(7, 1927, 18446744069414584321) == 13122058918416823729) by {
        lemma_mpow_step(7, 963, 1, 18446744069414584321);
        lemma_fundamental_div_mod_converse(220350006761105185317490160354373212769, 18446744069414584321, 11945197804660499710, 12415576456582165859);
        lemma_fundamental_div_mod_converse(86909035196075161013, 18446744069414584321, 4, 13122058918416823729);
    }
    assert(mpow(7, 3855, 18446744069414584321) == 18391788000542569559) by {
        lemma_mpow_step(7, 1927, 1, 18446744069414584321);
        lemma_fundamental_div_mod_converse(172188430258402501784890672465057465441, 18446744069414584321, 9334353510324761538, 7897896591338819743);
        lemma_fundamental_div_mod_converse(55285276139371738201, 18446744069414584321, 2, 18391788000542569559);
    }
    assert(mpow(7, 7710, 18446744069414584321) == 5815952681263863745) by {
        lemma_mpow_step(7, 3855, 0, 18446744069414584321);
        lemma_fundamental_div_mod_converse(338257865856901648609057365726353454481, 18446744069414584321, 18336995655387569616, 5815952681263863745);
    }
    assert(mpow(7, 15420, 18446744069414584321) == 15534263258852221519) by {
        lemma_mpow_step(7, 7710, 0, 18446744069414584321);
        lemma_fundamental_div_mod_converse(33825305590700325871372524765925425025, 18446744069414584321, 1833673490748103986, 15534263258852221519);
    }
    assert(mpow(7, 30840, 18446744069414584321) == 9621442331152125603) by {
        lemma_mpow_step(7, 15420, 0, 18446744069414584321);
        lemma_fundamental_div_mod_converse(241313334995326041425283579321446667361, 18446744069414584321, 13081622105628542398, 9621442331152125603);
    }
    assert(mpow(7, 61680, 18446744069414584321) == 13847347385863248794) by {
        lemma_mpow_step(7, 30840, 0, 18446744069414584321);
        lemma_fundamental_div_mod_converse(92572152531686048993689343385088113609, 18446744069414584321, 5018346445494100015, 13847347385863248794);
    }
    assert(mpow(7, 123361, 18446744069414584321) == 9759263770000967494) by {
        lemma_mpow_step(7, 61680, 1, 18446744069414584321);
        lemma_fundamental_div_mod_converse(191749029624773750086145805860342454436, 18446744069414584321, 10394735726978565456, 17205675455212639060);
        lemma_fundamental_div_mod_converse(120439728186488473420, 18446744069414584321, 6, 9759263770000967494);
    }
    assert(mpow(7, 246723, 18446744069414584321) == 8617703953199623826) by {
        lemma_mpow_step(7, 123361, 1, 18446744069414584321);
        lemma_fundamental_div_mod_converse(95243229332453496958283785696044640036, 18446744069414584321, 5163145809041198643, 14407346328610363633);
        lemma_fundamental_div_mod_converse(100851424300272545431, 18446744069414584321, 5, 8617703953199623826);
    }
    assert(mpow(7, 493447, 18446744069414584321) == 18341993165004160224) by {
        lemma_mpow_step(7, 246723, 1, 18446744069414584321);
        lemma_fundamental_div_mod_converse(74264821424992424277906218027906878276, 18446744069414584321, 4025904037348594906, 18431779654498809450);
        lemma_fundamental_div_mod_converse(129022457581491666150, 18446744069414584321, 6, 18341993165004160224);
    }
    assert(mpow(7, 986895, 18446744069414584321) == 16325541388042428380) by {
        lemma_mpow_step(7, 493447, 1, 18446744069414584321);
        lemma_fundamental_div_mod_converse(336428713265059330825345755227463730176, 18446744069414584321, 18237837094670335858, 18143715114932847758);
        lemma_fundamental_div_mod_converse(127006005804529934306, 18446744069414584321, 6, 16325541388042428380);
    }
    assert(mpow(7, 1973790, 18446744069414584321) == 87681681590930466) by {
        lemma_mpow_step(7, 986895, 0, 18446744069414584321);
        lemma_fundamental_div_mod_converse(266523301612686299091433383047429424400, 18446744069414584321, 14448257134688188654, 87681681590930466);
    }
    assert(mpow(7, 3947580, 18446744069414584321) == 1247600097974775228) by {
        lemma_mpow_step(7, 1973790, 0, 18446744069414584321);
        lemma_fundamental_div_mod_converse(7688077286613314575185507646977156, 18446744069414584321, 416771504916168, 1247600097974775228);
    }
    assert(mpow(7, 7895160, 18446744069414584321) == 263672500424845310) by {
        lemma_mpow_step(7, 3947580, 0, 18446744069414584321);
        lemma_fundamental_div_mod_converse(1556506004466668747962180977122451984, 18446744069414584321, 84378359596120594, 263672500424845310);
    }
    assert(mpow(7, 15790320, 18446744069414584321) == 14075661776324224620) by {
        lemma_mpow_step(7, 7895160, 0, 18446744069414584321);
        lemma_fundamental_div_mod_converse(69523187480290050182443537428996100, 18446744069414584321, 3768859546089880, 14075661776324224620);
    }
    assert(mpow(7, 31580641, 18446744069414584321) == 7684278052474903173) by {
        lemma_mpow_step(7, 15790320, 1, 18446744069414584321);
        lemma_fundamental_div_mod_converse(198124254441474826357249371844214144400, 18446744069414584321, 10740337356876572541, 1097754007496414739);
        lemma_fundamental_div_mod_converse(7684278052474903173, 18446744069414584321, 0, 7684278052474903173);
    }
    assert(mpow(7, 63161283, 18446744069414584321) == 7708761456973364157) by {
        lemma_mpow_step(7, 31580641, 1, 18446744069414584321);
        lemma_fundamental_div_mod_converse(59048129187747490762443651015725467929, 18446744069414584321, 3201005498073319860, 16912746553351552869);
        lemma_fundamental_div_mod_converse(118389225873460870083, 18446744069414584321, 6, 7708761456973364157);
    }
    assert(mpow(7, 126322567, 18446744069414584321) == 69940930452546681) by {
        lemma_mpow_step(7, 63161283, 1, 18446744069414584321);
        lemma_fundamental_div_mod_converse(59425003200518104129214502966132320649, 18446744069414584321, 3221435879248038117, 7915739019813757092);
        lemma_fundamental_div_mod_converse(55410173138696299644, 18446744069414584321, 3, 69940930452546681);
    }
    assert(mpow(7, 252645135, 18446744069414584321) == 16357725396938484569) by {
        lemma_mpow_step(7, 126322567, 1, 18446744069414584321);
        lemma_fundamental_div_mod_converse(4891733752567971679905158484115761, 18446744069414584321, 265181418149485, 10242565372168891076);
        lemma_fundamental_div_mod_converse(71697957605182237532, 18446744069414584321, 3, 16357725396938484569);
    }
    assert(mpow(7, 505290270, 18446744069414584321) == 9635924811972810304) by {
        lemma_mpow_step(7, 252645135, 0, 18446744069414584321);
        lemma_fundamental_div_mod_converse(267575180161646302553051581934251115761, 18446744069414584321, 14505279585100132017, 9635924811972810304);
    }
    assert(mpow(7, 1010580540, 18446744069414584321) == 17792655913659759447) by {
        lemma_mpow_step(7, 505290270, 0, 18446744069414584321);
        lemma_fundamental_div_mod_converse(92851046981993239611366464975568572416, 18446744069414584321, 5033465343943480489, 17792655913659759447);
    }
    assert(mpow(7, 2021161080, 18446744069414584321) == 757864979510442991) by {
        lemma_mpow_step(7, 1010580540, 0, 18446744069414584321);
        lemma_fundamental_div_mod_converse(316578604461891609221079602749905745809, 18446744069414584321, 17161760539996388258, 757864979510442991);
    }
    assert(mpow(7, 4042322160, 18446744069414584321) == 5359388630104522475) by {
        lemma_mpow_step(7, 2021161080, 0, 18446744069414584321);
        lemma_fundamental_div_mod_converse(574359327168364174570376425061026081, 18446744069414584321, 31136081522412086, 5359388630104522475);
    }
    assert(mpow(7, 8084644320, 18446744069414584321) == 16844089689671372755) by {
        lemma_mpow_step(7, 4042322160, 0, 18446744069414584321);
        lemma_fundamental_div_mod_converse(28723046488493630028199843447780125625, 18446744069414584321, 1557079470523882470, 16844089689671372755);
    }
    assert(mpow(7, 16169288640, 18446744069414584321) == 3416859319420511225) by {
        lemma_mpow_step(7, 8084644320, 0, 18446744069414584321);
        lemma_fundamental_div_mod_converse(283723357473693442521392787766156290025, 18446744069414584321, 15380674031474082800, 3416859319420511225);
    }
    assert(mpow(7, 32338577280, 18446744069414584321) == 13225002848613916298) by {
        lemma_mpow_step(7, 16169288640, 0, 18446744069414584321);
        lemma_fundamental_div_mod_converse(11674927608710799156947541240351000625, 18446744069414584321, 632899093996120487, 13225002848613916298);
    }
    assert(mpow(7, 64677154560, 18446744069414584321) == 3046446182183887513) by {
        lemma_mpow_step(7, 32338577280, 0, 18446744069414584321);
        lemma_fundamental_div_mod_converse(174900700345846200683344126628950024804, 18446744069414584321, 9481385966417690571, 3046446182183887513);
    }
    assert(mpow(7, 129354309120, 18446744069414584321) == 8471950025145571556) by {
        lemma_mpow_step(7, 64677154560, 0, 18446744069414584321);
        lemma_fundamental_div_mod_converse(9280834340942783947826465349437325169, 18446744069414584321, 503115037863552653, 8471950025145571556);
    }
    assert(mpow(7, 258708618240, 18446744069414584321) == 14240312891968862088) by {
        lemma_mpow_step(7, 129354309120, 0, 18446744069414584321);
        lemma_fundamental_div_mod_converse(71773937228564050520008168877916261136, 18446744069414584321, 3890872934458282888, 14240312891968862088);
    }
    assert(mpow(7, 517417236480, 18446744069414584321) == 14284159170854690980) by {
        lemma_mpow_step(7, 258708618240, 0, 18446744069414584321);
        lemma_fundamental_div_mod_converse(202786511261174576444633846561563719744, 18446744069414584321, 10993078805565609884, 14284159170854690980);
    }
    assert(mpow(7, 1034834472960, 18446744069414584321) == 2140736107784648890) by {
        lemma_mpow_step(7, 517417236480, 0, 18446744069414584321);
        lemma_fundamental_div_mod_converse(204037203218312172899697069871293360400, 18446744069414584321, 11060878952433332310, 2140736107784648890);
    }
    assert(mpow(7, 2069668945920, 18446744069414584321) == 720221585272617730) by {
        lemma_mpow_step(7, 1034834472960, 0, 18446744069414584321);
        lemma_fundamental_div_mod_converse(4582751083172967869896616340578232100, 18446744069414584321, 248431434074663970, 720221585272617730);
    }
    assert(mpow(7, 4139337891840, 18446744069414584321) == 14933742682021830494) by {
        lemma_mpow_step(7, 2069668945920, 0, 18446744069414584321);
        lemma_fundamental_div_mod_converse(518719131892602572273724526710352900, 18446744069414584321, 28119820491934886, 14933742682021830494);
    }
    assert(mpow(7, 8278675783680, 18446744069414584321) == 16866753830962059859) by {
        lemma_mpow_step(7, 4139337891840, 0, 18446744069414584321);
        lemma_fundamental_div_mod_converse(223016670492840575084034366386468284036, 18446744069414584321, 12089757935255948337, 16866753830962059859);
    }
    assert(mpow(7, 16557351567360, 18446744069414584321) == 4185523320037657098) by {
        lemma_mpow_step(7, 8278675783680, 0, 18446744069414584321);
        lemma_fundamental_div_mod_converse(284487384794273322523880579112299099881, 18446744069414584321, 15422092035524275423, 4185523320037657098);
    }
    assert(mpow(7, 33114703134720, 18446744069414584321) == 17086191566025186696) by {
        lemma_mpow_step(7, 16557351567360, 0, 18446744069414584321);
        lemma_fundamental_div_mod_converse(17518605462579051723686468777029781604, 18446744069414584321, 949685505293347548, 17086191566025186696);
    }
    assert(mpow(7, 66229406269440, 18446744069414584321) == 1098680059505421076) by {
        lemma_mpow_step(7, 33114703134720, 0, 18446744069414584321);
        lemma_fundamental_div_mod_converse(291937942230910221781541846241655396416, 18446744069414584321, 15825987563569802540, 1098680059505421076);
    }
    assert(mpow(7, 132458812538880, 18446744069414584321) == 16940429312545755789) by {
        lemma_mpow_step(7, 66229406269440, 0, 18446744069414584321);
        lemma_fundamental_div_mod_converse(1207097873154835596454497432064997776, 18446744069414584321, 65436906839090947, 16940429312545755789);
    }
    assert(mpow(7, 264917625077760, 18446744069414584321) == 16945016486212160087) by {
        lemma_mpow_step(7, 132458812538880, 0, 18446744069414584321);
        lemma_fundamental_div_mod_converse(286978145293359468074636423717227012521, 18446744069414584321, 15557116432768227154, 16945016486212160087);
    }
    assert(mpow(7, 529835250155520, 18446744069414584321) == 18171560771947831624) by {
        lemma_mpow_step(7, 264917625077760, 0, 18446744069414584321);
        lemma_fundamental_div_mod_converse(287133583718001900539817400466515847569, 18446744069414584321, 15565542766654441545, 18171560771947831624);
    }
    assert(mpow(7, 1059670500311040, 18446744069414584321) == 14884189242943664099) by {
        lemma_mpow_step(7, 529835250155520, 0, 18446744069414584321);
        lemma_fundamental_div_mod_converse(330205620888593274354281628995454477376, 18446744069414584321, 17900482580884665437, 14884189242943664099);
    }
    assert(mpow(7, 2119341000622080, 18446744069414584321) == 7182983899389742773) by {
        lemma_mpow_step(7, 1059670500311040, 0, 18446744069414584321);
        lemma_fundamental_div_mod_converse(221539089419759884625685347847741481801, 18446744069414584321, 12009658104764421268, 7182983899389742773);
    }
    assert(mpow(7, 4238682001244160, 18446744069414584321) == 7794706010606133772) by {
        lemma_mpow_step(7, 2119341000622080, 0, 18446744069414584321);
        lemma_fundamental_div_mod_converse(51595257698892274327573123283105729529, 18446744069414584321, 2796984525005646317, 7794706010606133772);
    }
    assert(mpow(7, 8477364002488320, 18446744069414584321) == 5944394147430185930) by {
        lemma_mpow_step(7, 4238682001244160, 0, 18446744069414584321);
        lemma_fundamental_div_mod_converse(60757441791779389211312137589558947984, 18446744069414584321, 3293667520032306374, 5944394147430185930);
    }
    assert(mpow(7, 16954728004976640, 18446744069414584321) == 11638363544692747458) by {
        lemma_mpow_step(7, 8477364002488320, 0, 18446744069414584321);
        lemma_fundamental_div_mod_converse(35335821780002247058012563354369964900, 18446744069414584321, 1915558737467952802, 11638363544692747458);
    }
    assert(mpow(7, 33909456009953280, 18446744069414584321) == 8942909788274506390) by {
        lemma_mpow_step(7, 16954728004976640, 0, 18446744069414584321);
        lemma_fundamental_div_mod_converse(135451505998433133457251641344565461764, 18446744069414584321, 7342840855206365294, 8942909788274506390);
    }
    assert(mpow(7, 67818912019906560, 18446744069414584321) == 10254463118692560346) by {
        lemma_mpow_step(7, 33909456009953280, 0, 18446744069414584321);
        lemma_fundamental_div_mod_converse(79975635481215976708074444398150832100, 18446744069414584321, 4335487887741592074, 10254463118692560346);
    }
    assert(mpow(7, 135637824039813120, 18446744069414584321) == 6509392022269312871) by {
        lemma_mpow_step(7, 67818912019906560, 0, 18446744069414584321);
        lemma_fundamental_div_mod_converse(105154013852625950974572277488851639716, 18446744069414584321, 5700410514556624445, 6509392022269312871);
    }
    assert(mpow(7, 271275648079626240, 18446744069414584321) == 3060481852759670200) by {
        lemma_mpow_step(7, 135637824039813120, 0, 18446744069414584321);
        lemma_fundamental_div_mod_converse(42372184499583374591891159746486262641, 18446744069414584321, 2297000724905057721, 3060481852759670200);
    }
    assert(mpow(7, 542551296159252480, 18446744069414584321) == 9492362781570530732) by {
        lemma_mpow_step(7, 271275648079626240, 0, 18446744069414584321);
        lemma_fundamental_div_mod_converse(9366549171071263625787519612768040000, 18446744069414584321, 507761648116610708, 9492362781570530732);
    }
    assert(mpow(7, 1085102592318504960, 18446744069414584321) == 16301593560560007290) by {
        lemma_mpow_step(7, 542551296159252480, 0, 18446744069414584321);
        lemma_fundamental_div_mod_converse(90104951176945423333032476700156455824, 18446744069414584321, 4884599192024511254, 16301593560560007290);
    }
}

/// `7^((p-1)/257)` modulo `p`, which is not one.
proof fn lemma_seven_power_257()
    ensures
        mpow(7, 71777214277877760, 18446744069414584321) == 995085315851368103,
{
    lemma_pow1(7);
    lemma_small_mod(7, 18446744069414584321);
    assert(mpow(7, 1, 18446744069414584321) == 7);
    assert(mpow(7, 3, 18446744069414584321) == 343) by {
        lemma_mpow_step(7, 1, 1, 18446744069414584321);
        lemma_fundamental_div_mod_converse(49, 18446744069414584321, 0, 49);
        lemma_fundamental_div_mod_converse(343, 18446744069414584321, 0, 343);
    }
    assert(mpow(7, 7, 18446744069414584321) == 823543) by {
        lemma_mpow_step(7, 3, 1, 18446744069414584321);
        lemma_fundamental_div_mod_converse(117649, 18446744069414584321, 0, 117649);
        lemma_fundamental_div_mod_converse(823543, 18446744069414584321, 0, 823543);
    }
    assert(mpow(7, 15, 18446744069414584321) == 4747561509943) by {
        lemma_mpow_step(7, 7, 1, 18446744069414584321);
        lemma_fundamental_div_mod_converse(678223072849, 18446744069414584321, 0, 678223072849);
        lemma_fundamental_div_mod_converse(4747561509943, 18446744069414584321, 0, 4747561509943);
    }
    assert(mpow(7, 31, 18446744069414584321) == 11074261478625843323) by {
        lemma_mpow_step(7, 15, 1, 18446744069414584321);
        lemma_fundamental_div_mod_converse(22539340290692258087863249, 18446744069414584321, 1221860, 1582037354089406189);
        lemma_fundamental_div_mod_converse(11074261478625843323, 18446744069414584321, 0, 11074261478625843323);
    }
    assert(mpow(7, 63, 18446744069414584321) == 12148266161370408270) by {
        lemma_mpow_step(7, 31, 1, 18446744069414584321);
        lemma_fundamental_div_mod_converse(122639267296976249690716502652943682329, 18446744069414584321, 6648288003318531524, 14911712358349047125);
        lemma_fundamental_div_mod_converse(104381986508443329875, 18446744069414584321, 5, 12148266161370408270);
    }
    assert(mpow(7, 127, 18446744069414584321) == 7007601668316978083) by {
        lemma_mpow_step(7, 63, 1, 18446744069414584321);
        lemma_fundamental_div_mod_converse(147580370727497314425528305226484392900, 18446744069414584321, 8000347929811162796, 14177331716484271384);
        lemma_fundamental_div_mod_converse(99241322015389899688, 18446744069414584321, 5, 7007601668316978083);
    }
    assert(mpow(7, 255, 18446744069414584321) == 8125271997680889877) by {
        lemma_mpow_step(7, 127, 1, 18446744069414584321);
        lemma_fundamental_div_mod_converse(49106481141798894510400959993102354889, 18446744069414584321, 2662067677472651718, 1160753142525841411);
        lemma_fundamental_div_mod_converse(8125271997680889877, 18446744069414584321, 0, 8125271997680889877);
    }
    assert(mpow(7, 510, 18446744069414584321) == 10915923311382173605) by {
        lemma_mpow_step(7, 255, 0, 18446744069414584321);
        lemma_fundamental_div_mod_converse(66020045036297198910721359762601075129, 18446744069414584321, 3578953813630503444, 10915923311382173605);
    }
    assert(mpow(7, 1020, 18446744069414584321) == 8682737361258234340) by {
        lemma_mpow_step(7, 510, 0, 18446744069414584321);
        lemma_fundamental_div_mod_converse(119157381739976758248482868974358696025, 18446744069414584321, 6459534609012346485, 8682737361258234340);
    }
    assert(mpow(7, 2040, 18446744069414584321) == 13168992710278412212) by {
        lemma_mpow_step(7, 1020, 0, 18446744069414584321);
        lemma_fundamental_div_mod_converse(75389928084589606224689038454355235600, 18446744069414584321, 4086896191593454428, 13168992710278412212);
    }
    assert(mpow(7, 4080, 18446744069414584321) == 3615243740316660512) by {
        lemma_mpow_step(7, 2040, 0, 18446744069414584321);
        lemma_fundamental_div_mod_converse(173422369003365960880483462399790732944, 18446744069414584321, 9401245463740506992, 3615243740316660512);
    }
    assert(mpow(7, 8160, 18446744069414584321) == 9701552052102210316) by {
        lemma_mpow_step(7, 4080, 0, 18446744069414584321);
        lemma_fundamental_div_mod_converse(13069987301898797467526663639860102144, 18446744069414584321, 708525431518798068, 9701552052102210316);
    }
    assert(mpow(7, 16320, 18446744069414584321) == 12082995573853045936) by {
        lemma_mpow_step(7, 8160, 0, 18446744069414584321);
        lemma_fundamental_div_mod_converse(94120112219648608105861183812696819856, 18446744069414584321, 5102261508344087520, 12082995573853045936);
    }
    assert(mpow(7, 32640, 18446744069414584321) == 2592469405483382171) by {
        lemma_mpow_step(7, 16320, 0, 18446744069414584321);
        lemma_fundamental_div_mod_converse(145998782037752298866234970024926116096, 18446744069414584321, 7914609835121197925, 2592469405483382171);
    }
    assert(mpow(7, 65280, 18446744069414584321) == 8929377406043347353) by {
        lemma_mpow_step(7, 32640, 0, 18446744069414584321);
        lemma_fundamental_div_mod_converse(6720897618367361003713614833240673241, 18446744069414584321, 364340590029156928, 8929377406043347353);
    }
    assert(mpow(7, 130561, 18446744069414584321) == 13230650959860397101) by {
        lemma_mpow_step(7, 65280, 1, 18446744069414584321);
        lemma_fundamental_div_mod_converse(79733780859557418584978091629012106609, 18446744069414584321, 4322376922427146017, 9795840452586307152);
        lemma_fundamental_div_mod_converse(68570883168104150064, 18446744069414584321, 3, 13230650959860397101);
    }
    assert(mpow(7, 261123, 18446744069414584321) == 4567519111026823348) by {
        lemma_mpow_step(7, 130561, 1, 18446744069414584321);
        lemma_fundamental_div_mod_converse(175050124821654847140673222889409204201, 18446744069414584321, 9489486283484288682, 13828748494014249279);
        lemma_fundamental_div_mod_converse(96801239458099744953, 18446744069414584321, 5, 4567519111026823348);
    }
    assert(mpow(7, 522247, 18446744069414584321) == 14039453651739780561) by {
        lemma_mpow_step(7, 261123, 1, 18446744069414584321);
        lemma_fundamental_div_mod_converse(20862230829595262630222726747997929104, 18446744069414584321, 1130943799680380932, 9911383694283361932);
        lemma_fundamental_div_mod_converse(69379685859983533524, 18446744069414584321, 3, 14039453651739780561);
    }
    assert(mpow(7, 1044495, 18446744069414584321) == 9849600182067894019) by {
        lemma_mpow_step(7, 522247, 1, 18446744069414584321);
        lemma_fundamental_div_mod_converse(197106258839349459597687831700433474721, 18446744069414584321, 10685151704693473038, 6677584045842437523);
        lemma_fundamental_div_mod_converse(46743088320897062661, 18446744069414584321, 2, 9849600182067894019);
    }
    assert(mpow(7, 2088991, 18446744069414584321) == 294188574756026472) by {
        lemma_mpow_step(7, 1044495, 1, 18446744069414584321);
        lemma_fundamental_div_mod_converse(97014623746591891007802832513815972361, 18446744069414584321, 5259173292670433493, 10583023550344909108);
        lemma_fundamental_div_mod_converse(74081164852414363756, 18446744069414584321, 4, 294188574756026472);
    }
    assert(mpow(7, 4177983, 18446744069414584321) == 13396756356721479597) by {
        lemma_mpow_step(7, 2088991, 1, 18446744069414584321);
        lemma_fundamental_div_mod_converse(86546917516982175979437882364766784, 18446744069414584321, 4691717800784167, 7184320642221521177);
        lemma_fundamental_div_mod_converse(50290244495550648239, 18446744069414584321, 2, 13396756356721479597);
    }
    assert(mpow(7, 8355967, 18446744069414584321) == 227377812062300433) by {
        lemma_mpow_step(7, 4177983, 1, 18446744069414584321);
        lemma_fundamental_div_mod_converse(179473080881357371490188669872887282409, 18446744069414584321, 9729255211976984404, 5302980850127352725);
        lemma_fundamental_div_mod_converse(37120865950891469075, 18446744069414584321, 2, 227377812062300433);
    }
    assert(mpow(7, 16711935, 18446744069414584321) == 3277408507376532532) by {
        lemma_mpow_step(7, 8355967, 1, 18446744069414584321);
        lemma_fundamental_div_mod_converse(51700669418238816288266535951987489, 18446744069414584321, 2802698905763024, 8373948673660040785);
        lemma_fundamental_div_mod_converse(58617640715620285495, 18446744069414584321, 3, 3277408507376532532);
    }
    assert(mpow(7, 33423870, 18446744069414584321) == 10187910960120918295) by {
        lemma_mpow_step(7, 16711935, 0, 18446744069414584321);
        lemma_fundamental_div_mod_converse(10741406524224070896219876195654331024, 18446744069414584321, 582292814591261049, 10187910960120918295);
    }
    assert(mpow(7, 66847740, 18446744069414584321) == 1234511965033452377) by {
        lemma_mpow_step(7, 33423870, 0, 18446744069414584321);
        lemma_fundamental_div_mod_converse(103793529731351931245804647634065707025, 18446744069414584321, 5626658522543586488, 1234511965033452377);
    }
    assert(mpow(7, 133695480, 18446744069414584321) == 15363200638052948867) by {
        lemma_mpow_step(7, 66847740, 0, 18446744069414584321);
        lemma_fundamental_div_mod_converse(1524019791810755944329500671526950129, 18446744069414584321, 82617278478842222, 15363200638052948867);
    }
    assert(mpow(7, 267390960, 18446744069414584321) == 1236027695563809108) by {
        lemma_mpow_step(7, 133695480, 0, 18446744069414584321);
        lemma_fundamental_div_mod_converse(236027933845070535178554357874516583689, 18446744069414584321, 12795099935083611061, 1236027695563809108);
    }
    assert(mpow(7, 534781920, 18446744069414584321) == 12002353154524589429) by {
        lemma_mpow_step(7, 267390960, 0, 18446744069414584321);
        lemma_fundamental_div_mod_converse(1527764464200780369680372830263755664, 18446744069414584321, 82820277575915035, 12002353154524589429);
    }
    assert(mpow(7, 1069563840, 18446744069414584321) == 14027517171084490203) by {
        lemma_mpow_step(7, 534781920, 0, 18446744069414584321);
        lemma_fundamental_div_mod_converse(144056481245926362891701612201018546041, 18446744069414584321, 7809317498190782878, 14027517171084490203);
    }
    assert(mpow(7, 2139127680, 18446744069414584321) == 2711851439569513933) by {
        lemma_mpow_step(7, 1069563840, 0, 18446744069414584321);
        lemma_fundamental_div_mod_converse(196771237985070218787734690020402981209, 18446744069414584321, 10666990187787369356, 2711851439569513933);
    }
    assert(mpow(7, 4278255360, 18446744069414584321) == 80652374890911913) by {
        lemma_mpow_step(7, 2139127680, 0, 18446744069414584321);
        lemma_fundamental_div_mod_converse(7354138230295245078797545293881128489, 18446744069414584321, 398668632395062656, 80652374890911913);
    }
    assert(mpow(7, 8556510720, 18446744069414584321) == 5283607704788425345) by {
        lemma_mpow_step(7, 4278255360, 0, 18446744069414584321);
        lemma_fundamental_div_mod_converse(6504805575544198410386960725319569, 18446744069414584321, 352626216912144, 5283607704788425345);
    }
    assert(mpow(7, 17113021440, 18446744069414584321) == 15514810852250684057) by {
        lemma_mpow_step(7, 8556510720, 0, 18446744069414584321);
        lemma_fundamental_div_mod_converse(27916510378099612070363330284638369025, 18446744069414584321, 1513357060359842408, 15514810852250684057);
    }
    assert(mpow(7, 34226042880, 18446744069414584321) == 13397417830393806946) by {
        lemma_mpow_step(7, 17113021440, 0, 18446744069414584321);
        lemma_fundamental_div_mod_converse(240709355781115597359996815624433979249, 18446744069414584321, 13048880326811766543, 13397417830393806946);
    }
    assert(mpow(7, 68452085760, 18446744069414584321) == 16359729400225625612) by {
        lemma_mpow_step(7, 34226042880, 0, 18446744069414584321);
        lemma_fundamental_div_mod_converse(179490804522153901299991578270717846916, 18446744069414584321, 9730216012470005624, 16359729400225625612);
    }
    assert(mpow(7, 136904171520, 18446744069414584321) == 8019533974815212444) by {
        lemma_mpow_step(7, 68452085760, 0, 18446744069414584321);
        lemma_fundamental_div_mod_converse(267640746048606707916109692516790374544, 18446744069414584321, 14508833918955130100, 8019533974815212444);
    }
    assert(mpow(7, 273808343040, 18446744069414584321) == 9655755660440986855) by {
        lemma_mpow_step(7, 136904171520, 0, 18446744069414584321);
        lemma_fundamental_div_mod_converse(64312925173215480458035716240852453136, 18446744069414584321, 3486410660396638761, 9655755660440986855);
    }
    assert(mpow(7, 547616686080, 18446744069414584321) == 3604536941271117731) by {
        lemma_mpow_step(7, 273808343040, 0, 18446744069414584321);
        lemma_fundamental_div_mod_converse(93233617374138158242498168006282791025, 18446744069414584321, 5054204526462916814, 3604536941271117731);
    }
    assert(mpow(7, 1095233372160, 18446744069414584321) == 17307879323250707139) by {
        lemma_mpow_step(7, 547616686080, 0, 18446744069414584321);
        lemma_fundamental_div_mod_converse(12992686560988145234572706566062588361, 18446744069414584321, 704334949956318982, 17307879323250707139);
    }
    assert(mpow(7, 2190466744320, 18446744069414584321) == 16869139653157226251) by {
        lemma_mpow_step(7, 1095233372160, 0, 18446744069414584321);
        lemma_fundamental_div_mod_converse(299562686668209356143516027863545565321, 18446744069414584321, 16239325787844364670, 16869139653157226251);
    }
    assert(mpow(7, 4380933488640, 18446744069414584321) == 6953284473670099805) by {
        lemma_mpow_step(7, 2190466744320, 0, 18446744069414584321);
        lemma_fundamental_div_mod_converse(284567872637721503579497981900003515001, 18446744069414584321, 15426455290261550876, 6953284473670099805);
    }
    assert(mpow(7, 8761866977280, 18446744069414584321) == 18224581395058808609) by {
        lemma_mpow_step(7, 4380933488640, 0, 18446744069414584321);
        lemma_fundamental_div_mod_converse(48348164971781676868382689278661038025, 18446744069414584321, 2620959275514902696, 18224581395058808609);
    }
    assert(mpow(7, 17523733954560, 18446744069414584321) == 12317229062629230801) by {
        lemma_mpow_step(7, 8761866977280, 0, 18446744069414584321);
        lemma_fundamental_div_mod_converse(332135367025123670587897917562492514881, 18446744069414584321, 18005094328587610480, 12317229062629230801);
    }
    assert(mpow(7, 35047467909120, 18446744069414584321) == 8521080430804482018) by {
        lemma_mpow_step(7, 17523733954560, 0, 18446744069414584321);
        lemma_fundamental_div_mod_converse(151714131781278159661961408724927101601, 18446744069414584321, 8224439565615596223, 8521080430804482018);
    }
    assert(mpow(7, 70094935818240, 18446744069414584321) == 1553296775282575040) by {
        lemma_mpow_step(7, 35047467909120, 0, 18446744069414584321);
        lemma_fundamental_div_mod_converse(72608811708239096860380606797285352324, 18446744069414584321, 3936131570699640004, 1553296775282575040);
    }
    assert(mpow(7, 140189871636480, 18446744069414584321) == 13200482976866298980) by {
        lemma_mpow_step(7, 70094935818240, 0, 18446744069414584321);
        lemma_fundamental_div_mod_converse(2412730872103246421734840653231001600, 18446744069414584321, 130794402688312220, 13200482976866298980);
    }
    assert(mpow(7, 280379743272960, 18446744069414584321) == 14925891398157497804) by {
        lemma_mpow_step(7, 140189871636480, 0, 18446744069414584321);
        lemma_fundamental_div_mod_converse(174252750822536946451982802882749040400, 18446744069414584321, 9446260552367870276, 14925891398157497804);
    }
    assert(mpow(7, 560759486545920, 18446744069414584321) == 15678887058344505597) by {
        lemma_mpow_step(7, 280379743272960, 0, 18446744069414584321);
        lemma_fundamental_div_mod_converse(222782234029591984639879785542264822416, 18446744069414584321, 12077049109114792339, 15678887058344505597);
    }
    assert(mpow(7, 1121518973091840, 18446744069414584321) == 14658776698600081839) by {
        lemma_mpow_step(7, 560759486545920, 0, 18446744069414584321);
        lemma_fundamental_div_mod_converse(245827499388322824056542411358364326409, 18446744069414584321, 13326335447777710170, 14658776698600081839);
    }
    assert(mpow(7, 2243037946183680, 18446744069414584321) == 16565152875265738852) by {
        lemma_mpow_step(7, 1121518973091840, 0, 18446744069414584321);
        lemma_fundamental_div_mod_converse(214879734299420714561212473457497621921, 18446744069414584321, 11648653740239158589, 16565152875265738852);
    }
    assert(mpow(7, 4486075892367360, 18446744069414584321) == 5984943436188102888) by {
        lemma_mpow_step(7, 2243037946183680, 0, 18446744069414584321);
        lemma_fundamental_div_mod_converse(274404289780924775041484616137462277904, 18446744069414584321, 14875486359454496296, 5984943436188102888);
    }
    assert(mpow(7, 8972151784734720, 18446744069414584321) == 14921717924877542342) by {
        lemma_mpow_step(7, 4486075892367360, 0, 18446744069414584321);
        lemma_fundamental_div_mod_converse(35819547934371056385691869032473940544, 18446744069414584321, 1941781584846794362, 14921717924877542342);
    }
    assert(mpow(7, 17944303569469440, 18446744069414584321) == 1654982787239893223) by {
        lemma_mpow_step(7, 8972151784734720, 0, 18446744069414584321);
        lemma_fundamental_div_mod_converse(222657665829611748364150756578002844964, 18446744069414584321, 12070296253461161021, 1654982787239893223);
    }
    assert(mpow(7, 35888607138938880, 18446744069414584321) == 18353445258623017512) by {
        lemma_mpow_step(7, 17944303569469440, 0, 18446744069414584321);
        lemma_fundamental_div_mod_converse(2738968026060325678623453760441327729, 18446744069414584321, 148479754245717577, 18353445258623017512);
    }
    assert(mpow(7, 71777214277877760, 18446744069414584321) == 995085315851368103) by {
        lemma_mpow_step(7, 35888607138938880, 0, 18446744069414584321);
        lemma_fundamental_div_mod_converse(336848952861271722166922867012258670144, 18446744069414584321, 18260618328834535321, 995085315851368103);
    }
}

/// `7^((p-1)/65537)` modulo `p`, which is not one.
proof fn lemma_seven_power_65537()
    ensures
        mpow(7, 281470681743360, 18446744069414584321) == 8478886009461009681,
{
    lemma_pow1(7);
    lemma_small_mod(7, 18446744069414584321);
    assert(mpow(7, 1, 18446744069414584321) == 7);
    assert(mpow(7, 3, 18446744069414584321) == 343) by {
        lemma_mpow_step(7, 1, 1, 18446744069414584321);
        lemma_fundamental_div_mod_converse(49, 18446744069414584321, 0, 49);
        lemma_fundamental_div_mod_converse(343, 18446744069414584321, 0, 343);
    }
    assert(mpow(7, 7, 18446744069414584321) == 823543) by {
        lemma_mpow_step(7, 3, 1, 18446744069414584321);
        lemma_fundamental_div_mod_converse(117649, 18446744069414584321, 0, 117649);
        lemma_fundamental_div_mod_converse(823543, 18446744069414584321, 0, 823543);
    }
    assert(mpow(7, 15, 18446744069414584321) == 4747561509943) by {
        lemma_mpow_step(7, 7, 1, 18446744069414584321);
        lemma_fundamental_div_mod_converse(678223072849, 18446744069414584321, 0, 678223072849);
        lemma_fundamental_div_mod_converse(4747561509943, 18446744069414584321, 0, 4747561509943);
    }
    assert(mpow(7, 31, 18446744069414584321) == 11074261478625843323) by {
        lemma_mpow_step(7, 15, 1, 18446744069414584321);
        lemma_fundamental_div_mod_converse(22539340290692258087863249, 18446744069414584321, 1221860, 1582037354089406189);
        lemma_fundamental_div_mod_converse(11074261478625843323, 18446744069414584321, 0, 11074261478625843323);
    }
    assert(mpow(7, 63, 18446744069414584321) == 12148266161370408270) by {
        lemma_mpow_step(7, 31, 1, 18446744069414584321);
        lemma_fundamental_div_mod_converse(122639267296976249690716502652943682329, 18446744069414584321, 6648288003318531524, 14911712358349047125);
        lemma_fundamental_div_mod_converse(104381986508443329875, 18446744069414584321, 5, 12148266161370408270);
    }
    assert(mpow(7, 127, 18446744069414584321) == 7007601668316978083) by {
        lemma_mpow_step(7, 63, 1, 18446744069414584321);
        lemma_fundamental_div_mod_converse(147580370727497314425528305226484392900, 18446744069414584321, 8000347929811162796, 14177331716484271384);
        lemma_fundamental_div_mod_converse(99241322015389899688, 18446744069414584321, 5, 7007601668316978083);
    }
    assert(mpow(7, 255, 18446744069414584321) == 8125271997680889877) by {
        lemma_mpow_step(7, 127, 1, 18446744069414584321);
        lemma_fundamental_div_mod_converse(49106481141798894510400959993102354889, 18446744069414584321, 2662067677472651718, 1160753142525841411);
        lemma_fundamental_div_mod_converse(8125271997680889877, 18446744069414584321, 0, 8125271997680889877);
    }
    assert(mpow(7, 511, 18446744069414584321) == 2624486902016877951) by {
        lemma_mpow_step(7, 255, 1, 18446744069414584321);
        lemma_fundamental_div_mod_converse(66020045036297198910721359762601075129, 18446744069414584321, 3578953813630503444, 10915923311382173605);
        lemma_fundamental_div_mod_converse(76411463179675215235, 18446744069414584321, 4, 2624486902016877951);
    }
    assert(mpow(7, 1023, 18446744069414584321) == 8253119735826302939) by {
        lemma_mpow_step(7, 511, 1, 18446744069414584321);
        lemma_fundamental_div_mod_converse(6887931498858149526664480469229958401, 18446744069414584321, 373395514836605044, 1179017105118043277);
        lemma_fundamental_div_mod_converse(8253119735826302939, 18446744069414584321, 0, 8253119735826302939);
    }
    assert(mpow(7, 2047, 18446744069414584321) == 3543566522599720475) by {
        lemma_mpow_step(7, 1023, 1, 18446744069414584321);
        lemma_fundamental_div_mod_converse(68113985373885624411581578877000037721, 18446744069414584321, 3692466546810352761, 13682469552810377440);
        lemma_fundamental_div_mod_converse(95777286869672642080, 18446744069414584321, 5, 3543566522599720475);
    }
    assert(mpow(7, 4095, 18446744069414584321) == 11981551684735969599) by {
        lemma_mpow_step(7, 2047, 1, 18446744069414584321);
        lemma_fundamental_div_mod_converse(12556863700089475279895540548134225625, 18446744069414584321, 680708945320558836, 12252646851770615269);
        lemma_fundamental_div_mod_converse(85768527962394306883, 18446744069414584321, 4, 11981551684735969599);
    }
    assert(mpow(7, 8191, 18446744069414584321) == 10062120588441922115) by {
        lemma_mpow_step(7, 4095, 1, 18446744069414584321);
        lemma_fundamental_div_mod_converse(143557580773999351433084160682652220801, 18446744069414584321, 7782272049408620407, 9343193256669382154);
        lemma_fundamental_div_mod_converse(65402352796685675078, 18446744069414584321, 3, 10062120588441922115);
    }
    assert(mpow(7, 16383, 18446744069414584321) == 10485806445487905393) by {
        lemma_mpow_step(7, 8191, 1, 18446744069414584321);
        lemma_fundamental_div_mod_converse(101246270736346812967463302395726073225, 18446744069414584321, 5488571335698045963, 4133221502128927102);
        lemma_fundamental_div_mod_converse(28932550514902489714, 18446744069414584321, 1, 10485806445487905393);
    }
    assert(mpow(7, 32767, 18446744069414584321) == 4139485063330164956) by {
        lemma_mpow_step(7, 16383, 1, 18446744069414584321);
        lemma_fundamental_div_mod_converse(109952136812235701054177367442518484449, 18446744069414584321, 5960517281450258735, 5861853314594190514);
        lemma_fundamental_div_mod_converse(41032973202159333598, 18446744069414584321, 2, 4139485063330164956);
    }
    assert(mpow(7, 65535, 18446744069414584321) == 12134830135347446949) by {
        lemma_mpow_step(7, 32767, 1, 18446744069414584321);
        lemma_fundamental_div_mod_converse(17135336589533539776485113354170481936, 18446744069414584321, 928908458048409263, 7004045467739516513);
        lemma_fundamental_div_mod_converse(49028318274176615591, 18446744069414584321, 2, 12134830135347446949);
    }
    assert(mpow(7, 131070, 18446744069414584321) == 618113109518621269) by {
        lemma_mpow_step(7, 65535, 0, 18446744069414584321);
        lemma_fundamental_div_mod_converse(147254102413736537639198735612369408601, 18446744069414584321, 7982660889077413892, 618113109518621269);
    }
    assert(mpow(7, 262140, 18446744069414584321) == 10057574059836717585) by {
        lemma_mpow_step(7, 131070, 0, 18446744069414584321);
        lemma_fundamental_div_mod_converse(382063816158779091219198662659170361, 18446744069414584321, 20711720980194856, 10057574059836717585);
    }
    assert(mpow(7, 524280, 18446744069414584321) == 11436575600859740313) by {
        lemma_mpow_step(7, 262140, 0, 18446744069414584321);
        lemma_fundamental_div_mod_converse(101154795969100433636910351347048232225, 18446744069414584321, 5483612478628084872, 11436575600859740313);
    }
    assert(mpow(7, 1048560, 18446744069414584321) == 2460531272136303351) by {
        lemma_mpow_step(7, 524280, 0, 18446744069414584321);
        lemma_fundamental_div_mod_converse(130795261474180330172723479005797337969, 18446744069414584321, 7090425333706664058, 2460531272136303351);
    }
    assert(mpow(7, 2097120, 18446744069414584321) == 5287351674330089703) by {
        lemma_mpow_step(7, 1048560, 0, 18446744069414584321);
        lemma_fundamental_div_mod_converse(6054214141160695299246363547493829201, 18446744069414584321, 328199606303359338, 5287351674330089703);
    }
    assert(mpow(7, 4194240, 18446744069414584321) == 2729558173611838869) by {
        lemma_mpow_step(7, 2097120, 0, 18446744069414584321);
        lemma_fundamental_div_mod_converse(27956087728041202963563384856026628209, 18446744069414584321, 1515502552799736540, 2729558173611838869);
    }
    assert(mpow(7, 8388480, 18446744069414584321) == 5809869834850305452) by {
        lemma_mpow_step(7, 4194240, 0, 18446744069414584321);
        lemma_fundamental_div_mod_converse(7450487823131197500250399475619199161, 18446744069414584321, 403891754289820429, 5809869834850305452);
    }
    assert(mpow(7, 16776960, 18446744069414584321) == 4380238239217790048) by {
        lemma_mpow_step(7, 8388480, 0, 18446744069414584321);
        lemma_fundamental_div_mod_converse(33754587497903515547244089297700924304, 18446744069414584321, 1829839855254994736, 4380238239217790048);
    }
    assert(mpow(7, 33553920, 18446744069414584321) == 10313688370767105378) by {
        lemma_mpow_step(7, 16776960, 0, 18446744069414584321);
        lemma_fundamental_div_mod_converse(19186487032305765713693923449007842304, 18446744069414584321, 1040101546381711006, 10313688370767105378);
    }
    assert(mpow(7, 67107840, 18446744069414584321) == 1116132233887293652) by {
        lemma_mpow_step(7, 33553920, 0, 18446744069414584321);
        lemma_fundamental_div_mod_converse(106372167809296628531874558380956522884, 18446744069414584321, 5766446772884207792, 1116132233887293652);
    }
    assert(mpow(7, 134215680, 18446744069414584321) == 8201916556687100419) by {
        lemma_mpow_step(7, 67107840, 0, 18446744069414584321);
        lemma_fundamental_div_mod_converse(1245751163522240380054259856879497104, 18446744069414584321, 67532305909081485, 8201916556687100419);
    }
    assert(mpow(7, 268431360, 18446744069414584321) == 9569002298025400893) by {
        lemma_mpow_step(7, 134215680, 0, 18446744069414584321);
        lemma_fundamental_div_mod_converse(67271435202857981740933380913789975561, 18446744069414584321, 3646791810506908108, 9569002298025400893);
    }
    assert(mpow(7, 536862720, 18446744069414584321) == 3860342023949954178) by {
        lemma_mpow_step(7, 268431360, 0, 18446744069414584321);
        lemma_fundamental_div_mod_converse(91565804979615403210977149433365197449, 18446744069414584321, 4963792235369874951, 3860342023949954178);
    }
    assert(mpow(7, 1073725440, 18446744069414584321) == 2518827640559301834) by {
        lemma_mpow_step(7, 536862720, 0, 18446744069414584321);
        lemma_fundamental_div_mod_converse(14902240541874028596418057128299655684, 18446744069414584321, 807852078708161850, 2518827640559301834);
    }
    assert(mpow(7, 2147450880, 18446744069414584321) == 4408381949760333744) by {
        lemma_mpow_step(7, 1073725440, 0, 18446744069414584321);
        lemma_fundamental_div_mod_converse(6344492682845539437476602061515763556, 18446744069414584321, 343935637583054772, 4408381949760333744);
    }
    assert(mpow(7, 4294901760, 18446744069414584321) == 5214785644524920463) by {
        lemma_mpow_step(7, 2147450880, 0, 18446744069414584321);
        lemma_fundamental_div_mod_converse(19433831414972721706108481514265057536, 18446744069414584321, 1053510112236812913, 5214785644524920463);
    }
    assert(mpow(7, 8589803520, 18446744069414584321) == 16359673064222316581) by {
        lemma_mpow_step(7, 4294901760, 0, 18446744069414584321);
        lemma_fundamental_div_mod_converse(27193989318343190125664007836476134369, 18446744069414584321, 1474189115218000828, 16359673064222316581);
    }
    assert(mpow(7, 17179607040, 18446744069414584321) == 7241809583754189836) by {
        lemma_mpow_step(7, 8589803520, 0, 18446744069414584321);
        lemma_fundamental_div_mod_converse(267638902768241201259781973030187529561, 18446744069414584321, 14508733994526267725, 7241809583754189836);
    }
    assert(mpow(7, 34359214080, 18446744069414584321) == 12639803007403283714) by {
        lemma_mpow_step(7, 17179607040, 0, 18446744069414584321);
        lemma_fundamental_div_mod_converse(52443806047354032253060799084725706896, 18446744069414584321, 2842984423159417742, 12639803007403283714);
    }
    assert(mpow(7, 68718428160, 18446744069414584321) == 12324653451830581392) by {
        lemma_mpow_step(7, 34359214080, 0, 18446744069414584321);
        lemma_fundamental_div_mod_converse(159764620065961095450945293749977633796, 18446744069414584321, 8660857410108324724, 12324653451830581392);
    }
    assert(mpow(7, 137436856320, 18446744069414584321) == 3248773168955372845) by {
        lemma_mpow_step(7, 68718428160, 0, 18446744069414584321);
        lemma_fundamental_div_mod_converse(151897082707719465040188233032736657664, 18446744069414584321, 8234357355213200339, 3248773168955372845);
    }
    assert(mpow(7, 274873712640, 18446744069414584321) == 11622038198969340988) by {
        lemma_mpow_step(7, 137436856320, 0, 18446744069414584321);
        lemma_fundamental_div_mod_converse(10554527103324335553456383192963394025, 18446744069414584321, 572162060882285997, 11622038198969340988);
    }
    assert(mpow(7, 549747425280, 18446744069414584321) == 13512512774593501075) by {
        lemma_mpow_step(7, 274873712640, 0, 18446744069414584321);
        lemma_fundamental_div_mod_converse(135071771898302523183785741199016816144, 18446744069414584321, 7322255428385150589, 13512512774593501075);
    }
    assert(mpow(7, 1099494850560, 18446744069414584321) == 7628844061018354094) by {
        lemma_mpow_step(7, 549747425280, 0, 18446744069414584321);
        lemma_fundamental_div_mod_converse(182588001483552556790992707626026155625, 18446744069414584321, 9898115396217294011, 7628844061018354094);
    }
    assert(mpow(7, 2198989701120, 18446744069414584321) == 10832619856158324041) by {
        lemma_mpow_step(7, 1099494850560, 0, 18446744069414584321);
        lemma_fundamental_div_mod_converse(58199261707335012763014208340766560836, 18446744069414584321, 3154988299741830395, 10832619856158324041);
    }
    assert(mpow(7, 4397979402240, 18446744069414584321) == 6522121551337605094) by {
        lemma_mpow_step(7, 2198989701120, 0, 18446744069414584321);
        lemma_fundamental_div_mod_converse(117345652948035589036462582693958569681, 18446744069414584321, 6361320594380621547, 6522121551337605094);
    }
    assert(mpow(7, 8795958804480, 18446744069414584321) == 4924686556790045269) by {
        lemma_mpow_step(7, 4397979402240, 0, 18446744069414584321);
        lemma_fundamental_div_mod_converse(42538069530422448519723538787494748836, 18446744069414584321, 2305993370448078927, 4924686556790045269);
    }
    assert(mpow(7, 17591917608960, 18446744069414584321) == 8233486007872169718) by {
        lemma_mpow_step(7, 8795958804480, 0, 18446744069414584321);
        lemma_fundamental_div_mod_converse(24252537682628591766375578655069282361, 18446744069414584321, 1314732702495734083, 8233486007872169718);
    }
    assert(mpow(7, 35183835217920, 18446744069414584321) == 6861851865518519982) by {
        lemma_mpow_step(7, 17591917608960, 0, 18446744069414584321);
        lemma_fundamental_div_mod_converse(67790291841826798387524952068996199524, 18446744069414584321, 3674919085272382902, 6861851865518519982);
    }
    assert(mpow(7, 70367670435840, 18446744069414584321) == 16452032933035937120) by {
        lemma_mpow_step(7, 35183835217920, 0, 18446744069414584321);
        lemma_fundamental_div_mod_converse(47085011024319992836321795831733280324, 18446744069414584321, 2552483562797879524, 16452032933035937120);
    }
    assert(mpow(7, 140735340871680, 18446744069414584321) == 7318164361609642178) by {
        lemma_mpow_step(7, 70367670435840, 0, 18446744069414584321);
        lemma_fundamental_div_mod_converse(270669387629699059852515637396593894400, 18446744069414584321, 14673016908088369982, 7318164361609642178);
    }
    assert(mpow(7, 281470681743360, 18446744069414584321) == 8478886009461009681) by {
        lemma_mpow_step(7, 140735340871680, 0, 18446744069414584321);
        lemma_fundamental_div_mod_converse(53555529623533461641375700101196583684, 18446744069414584321, 2903251078998304243, 8478886009461009681);
    }
}

/// `p = 2^64 - 2^32 + 1` is prime: `7` has order `p - 1` modulo `p`. Hence every
/// non-zero residue `a` has `a^(p-1) = 1`.
pub proof fn lemma_fermat_modulus()
    ensures
        fermat_holds(modulus()),
{
    let fs = seq![2nat, 3nat, 5nat, 17nat, 257nat, 65537nat];
    lemma_covers_p_minus_one();
    lemma_seven_power_full();
    lemma_seven_power_2();
    lemma_seven_power_3();
    lemma_seven_power_5();
    lemma_seven_power_17();
    lemma_seven_power_257();
    lemma_seven_power_65537();
    lemma_fundamental_div_mod_converse(18446744069414584320, 2, 9223372034707292160, 0);
    assert(fs[0] == 2);
    lemma_fundamental_div_mod_converse(18446744069414584320, 3, 6148914689804861440, 0);
    assert(fs[1] == 3);
    lemma_fundamental_div_mod_converse(18446744069414584320, 5, 3689348813882916864, 0);
    assert(fs[2] == 5);
    lemma_fundamental_div_mod_converse(18446744069414584320, 17, 1085102592318504960, 0);
    assert(fs[3] == 17);
    lemma_fundamental_div_mod_converse(18446744069414584320, 257, 71777214277877760, 0);
    assert(fs[4] == 257);
    lemma_fundamental_div_mod_converse(18446744069414584320, 65537, 281470681743360, 0);
    assert(fs[5] == 65537);
    assert forall|i: int| 0 <= i < fs.len() implies fs[i] > 1 && 18446744069414584320nat % #[trigger] fs[i] == 0 && mpow(
        7,
        18446744069414584320nat / fs[i],
        18446744069414584321,
    ) != 1 by {
        if i == 0 {
        } else if i == 1 {
        } else if i == 2 {
        } else if i == 3 {
        } else if i == 4 {
        } else {
        }
    }
    assert(order_certificate(7, 18446744069414584321, 18446744069414584320, fs));
    assert forall|a: int| 0 < a < 18446744069414584321 implies #[trigger] mpow(a, (18446744069414584321 - 1) as nat, 18446744069414584321) == 1 by {
        lemma_fermat_from_certificate(7, 18446744069414584321, fs, a);
    }
}

/// `q` is prime: it has no divisor strictly between 1 and itself.
pub open spec fn is_prime(q: nat) -> bool {
    q > 1 && forall|d: nat| 1 < d < q ==> #[trigger] (q % d) != 0
}

proof fn lemma_prime_from_fermat(q: nat)
    requires
        q > 1,
        fermat_holds(q as int),
    ensures
        is_prime(q),
{
    assert forall|d: nat| 1 < d < q implies #[trigger] (q % d) != 0 by {
        if q % d == 0 {
            lemma_fundamental_div_mod(q as int, d as int);
            let e = q / d;
            assert(q == d * e);
            assert(1 < e < q) by (nonlinear_arith)
                requires
                    q == d * e,
                    1 < d < q,
            ;
            lemma_mod_self_0(q as int);
            lemma_euclid(q as int, d as int, e as int);
            lemma_small_mod(d, q);
            lemma_small_mod(e, q);
        }
    }
}

/// The distinct prime factors of `p - 1 = 2^32 * 3 * 5 * 17 * 257 * 65537`.
pub open spec fn p_minus_one_primes() -> Seq<nat> {
    seq![2nat, 3nat, 5nat, 17nat, 257nat, 65537nat]
}

/// The factors listed are prime, and every prime dividing `p - 1` is among them.
pub proof fn lemma_p_minus_one_primes()
    ensures
        forall|i: int| 0 <= i < 6 ==> #[trigger] is_prime(p_minus_one_primes()[i]),
        forall|q: nat| is_prime(q) && #[trigger] (18446744069414584320nat % q) == 0 ==> p_minus_one_primes().contains(q),
{
    let fs = p_minus_one_primes();
    lemma_fermat_3();
    lemma_fermat_5();
    lemma_fermat_17();
    lemma_fermat_257();
    lemma_fermat_65537();
    lemma_prime_from_fermat(3);
    lemma_prime_from_fermat(5);
    lemma_prime_from_fermat(17);
    lemma_prime_from_fermat(257);
    lemma_prime_from_fermat(65537);
    assert(is_prime(2));
    assert forall|i: int| 0 <= i < 6 implies #[trigger] is_prime(fs[i]) by {
        assert(fs[0] == 2 && fs[1] == 3 && fs[2] == 5 && fs[3] == 17 && fs[4] == 257 && fs[5] == 65537);
    }
    lemma_covers_p_minus_one();
    assert forall|q: nat| is_prime(q) && #[trigger] (18446744069414584320nat % q) == 0 implies fs.contains(q) by {
        let i = choose|i: int| 0 <= i < fs.len() && q % fs[i] == 0;
        assert(fs[i] > 1);
        lemma_divisor_le(q, fs[i]);
        assert(fs[i] == q);
    }
}

/// `7` passes every test for a generator: it is not a square, and its `(p-1)/q`-th power
/// is not one for any prime `q` dividing `p - 1`.
pub proof fn lemma_seven_generator(q: nat)
    requires
        p_minus_one_primes().contains(q),
    ensures
        mpow(7, 9223372034707292160, 18446744069414584321) == 18446744069414584320,
        mpow(7, (18446744069414584320nat / q) as nat, 18446744069414584321) != 1,
{
    lemma_seven_power_2();
    let i = choose|i: int| 0 <= i < 6 && p_minus_one_primes()[i] == q;
    assert(q == 2 || q == 3 || q == 5 || q == 17 || q == 257 || q == 65537);
    if q == 2 {
        lemma_fundamental_div_mod_converse(18446744069414584320, 2, 9223372034707292160, 0);
        lemma_seven_power_2();
    } else if q == 3 {
        lemma_fundamental_div_mod_converse(18446744069414584320, 3, 6148914689804861440, 0);
        lemma_seven_power_3();
    } else if q == 5 {
        lemma_fundamental_div_mod_converse(18446744069414584320, 5, 3689348813882916864, 0);
        lemma_seven_power_5();
    } else if q == 17 {
        lemma_fundamental_div_mod_converse(18446744069414584320, 17, 1085102592318504960, 0);
        lemma_seven_power_17();
    } else if q == 257 {
        lemma_fundamental_div_mod_converse(18446744069414584320, 257, 71777214277877760, 0);
        lemma_seven_power_257();
    } else if q == 65537 {
        lemma_fundamental_div_mod_converse(18446744069414584320, 65537, 281470681743360, 0);
        lemma_seven_power_65537();
    }
}

} // verus!
