//! That the spreading hash leaves no value out.
//!
//! Hashing walks a 64-bit state: a byte `b` takes `h` to `(h ^ b) * p`, modulo
//! 2^64. The bytes 0 and 1 are enough to get from the basis to every state. A
//! run of zeros multiplies by any power of `p`, and so by its inverse; two ones
//! and the inverse twice move an even state by a fixed step that is twice an
//! odd number, and so to every even state in the end; one more byte reaches the
//! odd ones.

use vstd::arithmetic::{div_mod, power2};
use vstd::prelude::*;

use crate::scheduler::retry;
use crate::scheduler::retry::{FNV_OFFSET_BASIS, FNV_PRIME};

verus! {

/// How many states there are.
spec fn modulus() -> int {
    0x1_0000_0000_0000_0000
}

/// The state that stands for `x`.
#[verifier::opaque]
spec fn at(x: int) -> u64 {
    (x % modulus()) as u64
}

/// Where `bytes` lead from `from`.
spec fn walk(from: u64, bytes: Seq<u8>) -> u64
    decreases bytes.len(),
{
    if bytes.len() == 0 {
        from
    } else {
        (walk(from, bytes.drop_last()) ^ (bytes.last() as u64)).wrapping_mul(FNV_PRIME)
    }
}

/// What undoes the multiplication by an odd `b`.
#[verifier::opaque]
spec fn inverse(b: int) -> int {
    product(b, 62)
}

/// `bytes` are zeros and ones, and lead from `from` to `to`.
spec fn leads(from: u64, bytes: Seq<u8>, to: u64) -> bool {
    &&& forall|i: int| 0 <= i < bytes.len() ==> #[trigger] bytes[i] < 2
    &&& walk(from, bytes) == to
}

/// Some zeros and ones lead from `from` to `to`.
spec fn reaches(from: u64, to: u64) -> bool {
    exists|bytes: Seq<u8>| leads(from, bytes, to)
}

/// `b`, squared `k` times.
spec fn squared(b: int, k: nat) -> int
    decreases k,
{
    if k == 0 {
        b
    } else {
        squared(b, (k - 1) as nat) * squared(b, (k - 1) as nat)
    }
}

/// The product of the first `k` of those: `b` to the power of 2^k - 1.
spec fn product(b: int, k: nat) -> int
    decreases k,
{
    if k == 0 {
        1
    } else {
        product(b, (k - 1) as nat) * squared(b, (k - 1) as nat)
    }
}

proof fn lemma_at(x: int, y: int, q: int)
    requires
        x == y + q * modulus(),
    ensures
        at(x) == at(y),
{
    reveal(at);
    assert(modulus() * q + y == x) by (nonlinear_arith)
        requires
            x == y + q * modulus(),
    ;
    div_mod::lemma_mod_multiples_vanish(q, y, modulus());
}

proof fn lemma_walk_on(from: u64, first: Seq<u8>, second: Seq<u8>)
    ensures
        walk(from, first + second) == walk(walk(from, first), second),
    decreases second.len(),
{
    let all = first + second;
    if second.len() == 0 {
        assert(all =~= first);
    } else {
        assert(all.drop_last() =~= first + second.drop_last());
        assert(all.last() == second.last());
        lemma_walk_on(from, first, second.drop_last());
    }
}

proof fn lemma_reaches_on(a: u64, b: u64, c: u64)
    requires
        reaches(a, b),
        reaches(b, c),
    ensures
        reaches(a, c),
{
    let first = choose|bytes: Seq<u8>| leads(a, bytes, b);
    let second = choose|bytes: Seq<u8>| leads(b, bytes, c);
    lemma_walk_on(a, first, second);
    assert(leads(a, first + second, c));
}

proof fn lemma_one_byte(from: u64, byte: u8)
    requires
        byte < 2,
    ensures
        reaches(from, (from ^ (byte as u64)).wrapping_mul(FNV_PRIME)),
{
    let bytes = seq![byte];
    assert(bytes.drop_last() =~= Seq::<u8>::empty());
    assert(walk(from, bytes.drop_last()) == from);
    assert(leads(from, bytes, (from ^ (byte as u64)).wrapping_mul(FNV_PRIME)));
}

/// A zero multiplies.
proof fn lemma_zero(x: int)
    ensures
        reaches(at(x), at(x * FNV_PRIME)),
{
    reveal(at);
    let h = at(x);
    assert(h ^ 0u64 == h) by (bit_vector);
    lemma_one_byte(h, 0);
    div_mod::lemma_mul_mod_noop_left(x, FNV_PRIME as int, modulus());
    assert(h.wrapping_mul(FNV_PRIME) == at(x * FNV_PRIME));
}

/// A one moves to the other of a pair, and multiplies.
proof fn lemma_one(x: int)
    ensures
        reaches(
            at(x),
            at(
                (if x % 2 == 0 {
                    x + 1
                } else {
                    x - 1
                }) * FNV_PRIME,
            ),
        ),
{
    reveal(at);
    let h = at(x);
    let y = if x % 2 == 0 {
        x + 1
    } else {
        x - 1
    };
    assert(h % 2 == 0 ==> h ^ 1u64 == h + 1) by (bit_vector);
    assert(h % 2 == 1 ==> h ^ 1u64 == h - 1) by (bit_vector);
    assert(h % 2 == x % 2);
    assert(h ^ 1u64 == y % modulus());
    lemma_one_byte(h, 1);
    div_mod::lemma_mul_mod_noop_left(y, FNV_PRIME as int, modulus());
    assert((h ^ 1u64).wrapping_mul(FNV_PRIME) == at(y * FNV_PRIME));
}

proof fn lemma_reaches_squared(x: int, k: nat)
    ensures
        reaches(at(x), at(x * squared(FNV_PRIME as int, k))),
    decreases k,
{
    if k == 0 {
        lemma_zero(x);
    } else {
        let s = squared(FNV_PRIME as int, (k - 1) as nat);
        lemma_reaches_squared(x, (k - 1) as nat);
        lemma_reaches_squared(x * s, (k - 1) as nat);
        assert((x * s) * s == x * (s * s)) by (nonlinear_arith);
        lemma_reaches_on(at(x), at(x * s), at((x * s) * s));
    }
}

proof fn lemma_reaches_product(x: int, k: nat)
    requires
        k > 0,
    ensures
        reaches(at(x), at(x * product(FNV_PRIME as int, k))),
    decreases k,
{
    let b = FNV_PRIME as int;
    let p = product(b, (k - 1) as nat);
    let s = squared(b, (k - 1) as nat);
    if k == 1 {
        lemma_reaches_squared(x, 0);
        assert(p * s == s) by (nonlinear_arith)
            requires
                p == 1,
        ;
    } else {
        lemma_reaches_product(x, (k - 1) as nat);
        lemma_reaches_squared(x * p, (k - 1) as nat);
        assert((x * p) * s == x * (p * s)) by (nonlinear_arith);
        lemma_reaches_on(at(x), at(x * p), at((x * p) * s));
    }
}

proof fn lemma_product(b: int, k: nat)
    ensures
        product(b, k) * b == squared(b, k),
    decreases k,
{
    if k > 0 {
        let p = product(b, (k - 1) as nat);
        let s = squared(b, (k - 1) as nat);
        lemma_product(b, (k - 1) as nat);
        assert((p * s) * b == s * s) by (nonlinear_arith)
            requires
                p * b == s,
        ;
    }
}

/// Each squaring of an odd number makes one more of its low bits those of 1.
proof fn lemma_squared(b: int, k: nat) -> (q: int)
    requires
        b % 2 == 1,
        k > 0,
    ensures
        squared(b, k) == 1 + q * power2::pow2(k + 2),
    decreases k,
{
    power2::lemma2_to64();
    if k == 1 {
        let c = b / 2;
        let e = (c * (c + 1)) / 2;
        assert((c * (c + 1)) % 2 == 0) by {
            let d = c / 2;
            if c % 2 == 0 {
                assert(c * (c + 1) == 2 * (d * (c + 1))) by (nonlinear_arith)
                    requires
                        c == 2 * d,
                ;
            } else {
                assert(c * (c + 1) == 2 * (c * (d + 1))) by (nonlinear_arith)
                    requires
                        c == 2 * d + 1,
                ;
            }
        }
        assert(b * b == 1 + 4 * (c * (c + 1))) by (nonlinear_arith)
            requires
                b == 2 * c + 1,
        ;
        assert(squared(b, 0) == b);
        assert(squared(b, 1) == b * b);
        assert(power2::pow2(k + 2) == 8);
        e
    } else {
        let q = lemma_squared(b, (k - 1) as nat);
        let y = power2::pow2(k) as int;
        let x = power2::pow2(k + 1) as int;
        let s = squared(b, (k - 1) as nat);
        power2::lemma_pow2_unfold(k + 1);
        power2::lemma_pow2_unfold(k + 2);
        let next = q + q * q * y;
        assert(s * s == 1 + next * (2 * x)) by (nonlinear_arith)
            requires
                s == 1 + q * x,
                x == 2 * y,
                next == q + q * q * y,
        ;
        assert(power2::pow2(k + 2) == 2 * x);
        next
    }
}

/// An odd number has an inverse.
proof fn lemma_inverse(b: int) -> (q: int)
    requires
        b % 2 == 1,
    ensures
        inverse(b) * b == 1 + q * modulus(),
{
    reveal(inverse);
    power2::lemma2_to64();
    lemma_product(b, 62);
    lemma_squared(b, 62)
}

/// Zeros undo the multiplication.
proof fn lemma_undo(x: int)
    ensures
        reaches(at(x), at(x * inverse(FNV_PRIME as int))),
{
    reveal(inverse);
    lemma_reaches_product(x, 62);
}

/// An even state moves by a fixed step.
proof fn lemma_step(x: int)
    requires
        x % 2 == 0,
    ensures
        reaches(at(x), at(x + (1 - inverse(FNV_PRIME as int)))),
{
    let p = FNV_PRIME as int;
    let i = inverse(p);
    let q = lemma_inverse(p);
    let a = (x + 1) * p;
    let b = (a - 1) * p;
    lemma_one(x);
    lemma_one(a);
    lemma_reaches_on(at(x), at(a), at(b));
    lemma_undo(b);
    assert(b * i == (a - 1) + ((a - 1) * q) * modulus()) by (nonlinear_arith)
        requires
            b == (a - 1) * p,
            i * p == 1 + q * modulus(),
    ;
    lemma_at(b * i, a - 1, (a - 1) * q);
    lemma_reaches_on(at(x), at(b), at(a - 1));
    lemma_undo(a - 1);
    assert((a - 1) * i == (x + (1 - i)) + ((x + 1) * q) * modulus()) by (nonlinear_arith)
        requires
            a == (x + 1) * p,
            i * p == 1 + q * modulus(),
    ;
    lemma_at((a - 1) * i, x + (1 - i), (x + 1) * q);
    lemma_reaches_on(at(x), at(a - 1), at((a - 1) * i));
}

proof fn lemma_steps(x: int, n: nat)
    requires
        x % 2 == 0,
        inverse(FNV_PRIME as int) % 2 == 1,
    ensures
        reaches(at(x), at(x + n * (1 - inverse(FNV_PRIME as int)))),
    decreases n,
{
    let d = 1 - inverse(FNV_PRIME as int);
    if n == 0 {
        assert(leads(at(x), Seq::empty(), at(x)));
        assert(x + n * d == x) by (nonlinear_arith)
            requires
                n == 0,
        ;
    } else {
        lemma_step(x);
        lemma_steps(x + d, (n - 1) as nat);
        assert((x + d) + (n - 1) * d == x + n * d) by (nonlinear_arith);
        lemma_reaches_on(at(x), at(x + d), at(x + n * d));
    }
}

proof fn lemma_thrice_inverse() -> (e: int)
    ensures
        3 * inverse(FNV_PRIME as int) == 1 + 4 * e,
{
    let i = inverse(FNV_PRIME as int);
    let q = lemma_inverse(FNV_PRIME as int);
    let e = q * 0x4000_0000_0000_0000 - i * 0x40_0000_006c;
    assert(3 * i == 1 + 4 * e) by (nonlinear_arith)
        requires
            i * 0x100_0000_01b3 == 1 + q * 0x1_0000_0000_0000_0000,
            e == q * 0x4000_0000_0000_0000 - i * 0x40_0000_006c,
    ;
    e
}

/// The step of an even state is twice an odd number.
proof fn lemma_step_form() -> (u: int)
    ensures
        1 - inverse(FNV_PRIME as int) == 2 * u,
        u % 2 == 1,
{
    let e = lemma_thrice_inverse();
    (1 - inverse(FNV_PRIME as int)) / 2
}

/// An even state reaches every even state.
proof fn lemma_even(x: int, y: int)
    requires
        x % 2 == 0,
        y % 2 == 0,
    ensures
        reaches(at(x), at(y)),
{
    let u = lemma_step_form();
    lemma_even_by(x, y, u, (y - x) / 2);
}

proof fn lemma_even_by(x: int, y: int, u: int, t: int)
    requires
        x % 2 == 0,
        y - x == 2 * t,
        1 - inverse(FNV_PRIME as int) == 2 * u,
        u % 2 == 1,
    ensures
        reaches(at(x), at(y)),
{
    let v = inverse(u);
    let w = lemma_inverse(u);
    let (n, z) = lemma_remainder(t * v);
    lemma_steps(x, n);
    lemma_landing(x, y, u, t, v, w, n as int, z);
    lemma_at(x + n * (2 * u), y, 2 * (t * w) - 2 * (u * z));
}

proof fn lemma_remainder(x: int) -> (r: (nat, int))
    ensures
        x == modulus() * r.1 + r.0,
{
    div_mod::lemma_fundamental_div_mod(x, modulus());
    ((x % modulus()) as nat, x / modulus())
}

proof fn lemma_landing(x: int, y: int, u: int, t: int, v: int, w: int, n: int, z: int)
    requires
        y - x == 2 * t,
        v * u == 1 + w * modulus(),
        t * v == modulus() * z + n,
    ensures
        x + n * (2 * u) == y + (2 * (t * w) - 2 * (u * z)) * modulus(),
{
    let m = modulus();
    assert(n * u == (t * v) * u - (m * z) * u) by (nonlinear_arith)
        requires
            t * v == m * z + n,
    ;
    assert((t * v) * u == t * (v * u)) by (nonlinear_arith);
    assert(t * (v * u) == t + (t * w) * m) by (nonlinear_arith)
        requires
            v * u == 1 + w * m,
    ;
    assert((m * z) * u == (u * z) * m) by (nonlinear_arith);
    assert(n * (2 * u) == 2 * (n * u)) by (nonlinear_arith);
}

/// An odd state is one byte after an even one.
proof fn lemma_before_odd(hash: int) -> (y: int)
    requires
        hash % 2 == 1,
    ensures
        y % 2 == 0,
        reaches(at(y), at(hash)),
{
    let p = FNV_PRIME as int;
    let i = inverse(p);
    let u = lemma_step_form();
    let y = hash * i - 1;
    assert(y == (hash - 1) - 2 * (hash * u)) by (nonlinear_arith)
        requires
            y == hash * i - 1,
            1 - i == 2 * u,
    ;
    lemma_one(y);
    lemma_undone(hash, y);
    y
}

proof fn lemma_undone(hash: int, y: int)
    requires
        y + 1 == hash * inverse(FNV_PRIME as int),
    ensures
        at((y + 1) * FNV_PRIME) == at(hash),
{
    let p = FNV_PRIME as int;
    let i = inverse(p);
    let q = lemma_inverse(p);
    assert((y + 1) * p == hash + (hash * q) * modulus()) by (nonlinear_arith)
        requires
            y + 1 == hash * i,
            i * p == 1 + q * modulus(),
    ;
    lemma_at((y + 1) * p, hash, hash * q);
}

/// Every state is reached from the basis.
proof fn lemma_every_state(hash: u64)
    ensures
        reaches(FNV_OFFSET_BASIS, hash),
{
    let start = FNV_OFFSET_BASIS as int;
    let even = (start - 1) * FNV_PRIME;
    assert(at(start) == FNV_OFFSET_BASIS && at(hash as int) == hash) by {
        reveal(at);
    }
    lemma_one(start);
    if hash % 2 == 0 {
        lemma_even(even, hash as int);
        lemma_reaches_on(at(start), at(even), hash);
    } else {
        let y = lemma_before_odd(hash as int);
        lemma_even(even, y);
        lemma_reaches_on(at(start), at(even), at(y));
        lemma_reaches_on(at(start), at(y), hash);
    }
}

proof fn lemma_walk_is_fnv(bytes: Seq<u8>)
    ensures
        walk(FNV_OFFSET_BASIS, bytes) == retry::fnv(bytes),
    decreases bytes.len(),
{
    if bytes.len() > 0 {
        lemma_walk_is_fnv(bytes.drop_last());
    }
}

/// No hash is left out: every 64-bit value is the hash of some text. The text
/// may be a very long one.
pub proof fn law_every_hash_has_a_text(hash: u64)
    ensures
        exists|text: Seq<char>|
            retry::fnv(#[trigger] vstd::utf8::encode_utf8(text)) == hash,
{
    lemma_every_state(hash);
    let bytes = choose|bytes: Seq<u8>| leads(FNV_OFFSET_BASIS, bytes, hash);
    let text = Seq::new(bytes.len(), |i: int| bytes[i] as char);
    assert(vstd::utf8::is_ascii_chars(text));
    vstd::utf8::is_ascii_chars_encode_utf8(text);
    assert(vstd::utf8::encode_utf8(text) =~= bytes);
    lemma_walk_is_fnv(bytes);
}

} // verus!
