//! Metric histories for the graphs: appending to a kept history, and the
//! deterministic histories used before there is one (and in mock mode).
use vstd::prelude::*;
use vstd::utf8::encode_utf8;

verus! {

/// Samples kept per history.
pub const HISTORY_LEN: usize = 96;

/// A history of zeros.
pub fn blank_history() -> (r: Vec<u16>)
    ensures
        r@ == Seq::new(HISTORY_LEN as nat, |i: int| 0u16),
{
    let mut v: Vec<u16> = Vec::new();
    let mut i: usize = 0;
    while i < HISTORY_LEN
        invariant
            i <= HISTORY_LEN,
            v@ == Seq::new(i as nat, |j: int| 0u16),
        decreases HISTORY_LEN - i,
    {
        v.push(0);
        i = i + 1;
        assert(v@ =~= Seq::new(i as nat, |j: int| 0u16));
    }
    v
}

/// The sum of the bytes.
pub open spec fn byte_sum(b: Seq<u8>) -> nat
    decreases b.len(),
{
    if b.len() == 0 {
        0
    } else {
        (byte_sum(b.drop_last()) + b.last()) as nat
    }
}

/// A prefix's byte sum is at most the whole sum.
proof fn lemma_byte_sum_prefix(b: Seq<u8>, k: int)
    requires
        0 <= k <= b.len(),
    ensures
        byte_sum(b.take(k)) <= byte_sum(b),
    decreases b.len() - k,
{
    if k < b.len() {
        lemma_byte_sum_prefix(b, k + 1);
        assert(b.take(k + 1).drop_last() =~= b.take(k));
    } else {
        assert(b.take(k) =~= b);
    }
}

/// The sum of a string's UTF-8 bytes, for the loops that add them up.
fn utf8_byte_sum(s: &str) -> (r: u64)
    requires
        byte_sum(encode_utf8(s@)) <= u32::MAX,
    ensures
        r == byte_sum(encode_utf8(s@)),
{
    let bytes = s.as_bytes();
    let ghost b = encode_utf8(s@);
    assert(bytes@ == b);
    let mut sum: u64 = 0;
    let mut k: usize = 0;
    assert(b.take(0) =~= Seq::<u8>::empty());
    while k < bytes.len()
        invariant
            k <= bytes@.len(),
            bytes@ == b,
            byte_sum(b) <= u32::MAX,
            sum == byte_sum(b.take(k as int)),
        decreases bytes.len() - k,
    {
        assert(b.take(k + 1).drop_last() =~= b.take(k as int));
        proof {
            lemma_byte_sum_prefix(b, k + 1);
        }
        sum = sum + bytes[k] as u64;
        k = k + 1;
    }
    assert(b.take(bytes@.len() as int) =~= b);
    sum
}

/// The linear congruential step: `seed * 1664525 + 1013904223`, wrapping
/// at 2^32.
pub open spec fn lcg(seed: u32) -> u32 {
    ((seed as int * 1664525 + 1013904223) % 4294967296) as u32
}

/// Division that rounds toward zero, as Rust's `/` on integers.
pub open spec fn trunc_div(a: int, b: int) -> int {
    if a >= 0 {
        a / b
    } else {
        -((-a) / b)
    }
}

/// One step of the walk: a jitter of -4..=4 from the new seed and a drift
/// of -3..=2 from the position, then a fifth of the way back to the target.
pub open spec fn walk_value(value: int, seed: u32, target: int, idx: int, salt: int) -> int {
    let jitter = ((seed / 65536) % 9) as int - 4;
    let drift = trunc_div((idx + salt) % 18 - 9, 3);
    let v = value + jitter + drift;
    v + trunc_div(target - v, 5)
}

pub open spec fn clamp_99(v: int) -> u16 {
    if v < 0 {
        0
    } else if v > 99 {
        99
    } else {
        v as u16
    }
}

/// The samples of the walk from position `idx` on, `n` of them, each
/// kept to 0..=99.
pub open spec fn walk(seed: u32, value: int, target: int, idx: int, salt: int, n: nat) -> Seq<u16>
    decreases n,
{
    if n == 0 {
        Seq::empty()
    } else {
        let s2 = lcg(seed);
        let v2 = walk_value(value, s2, target, idx, salt);
        seq![clamp_99(v2)] + walk(s2, v2, target, idx + 1, salt, (n - 1) as nat)
    }
}

/// The walk's start: the seed is the sum of the id's UTF-8 bytes plus 97
/// times the salt; the target is the current value (0 when it does not fit
/// an `i16`).
pub open spec fn pseudo_spec(current: u16, id: Seq<char>, salt: usize, len: nat) -> Seq<u16> {
    let target: int = if current <= 32767 {
        current as int
    } else {
        0
    };
    walk((byte_sum(encode_utf8(id)) + salt * 97) as u32, target, target, 0, salt as int, len)
}

proof fn lemma_walk_step_bounds(value: int, seed: u32, target: int, idx: int, salt: int)
    requires
        -35 <= value - target <= 35,
        idx >= 0,
        salt >= 0,
    ensures
        -35 <= walk_value(value, seed, target, idx, salt) - target <= 35,
        -42 <= (value + ((seed / 65536) % 9) as int - 4 + trunc_div((idx + salt) % 18 - 9, 3)) - target <= 42,
{
    let j = ((seed / 65536) % 9) as int - 4;
    let x = (idx + salt) % 18 - 9;
    assert(-9 <= x <= 8);
    let d = trunc_div(x, 3);
    assert(-3 <= d <= 2);
    let v = value + j + d;
    let e = target - v;
    assert(-42 <= e <= 42);
    let t = trunc_div(e, 5);
    if e >= 0 {
        assert(e / 5 * 5 <= e) by (nonlinear_arith)
            requires
                e >= 0,
        ;
        assert(e - e / 5 >= 0) by (nonlinear_arith)
            requires
                e >= 0,
        ;
        assert(e - e / 5 <= 35) by (nonlinear_arith)
            requires
                0 <= e <= 42,
        ;
    } else {
        assert((-e) - (-e) / 5 <= 35) by (nonlinear_arith)
            requires
                0 < -e <= 42,
        ;
        assert((-e) - (-e) / 5 >= 0) by (nonlinear_arith)
            requires
                0 < -e,
        ;
    }
}

/// The inputs on which the walk stays inside the integers it is computed
/// in: the seed (the byte sum plus 97 times the salt) fits a `u32`, each
/// position plus the salt fits an `i16`, and the walk around the target
/// (at most 41 above it) does too.
pub open spec fn history_fits(current: u16, id: Seq<char>, salt: usize, len: nat) -> bool {
    &&& byte_sum(encode_utf8(id)) + salt * 97 <= u32::MAX
    &&& salt + len <= 32768
    &&& (current <= 32726 || current > 32767)
}

/// The deterministic history for an id: a walk around the current value.
pub fn pseudo_history(current: u16, id: &str, salt: usize, len: usize) -> (r: Vec<u16>)
    requires
        history_fits(current, id@, salt, len as nat),
    ensures
        r@ == pseudo_spec(current, id@, salt, len as nat),
{
    let sum = utf8_byte_sum(id);
    let mut seed: u32 = (sum + (salt as u64) * 97) as u32;
    let target: i32 = if current <= 32767 {
        current as i32
    } else {
        0
    };
    let mut value: i32 = target;
    let mut out: Vec<u16> = Vec::new();
    let mut idx: usize = 0;
    let ghost whole = pseudo_spec(current, id@, salt, len as nat);
    assert(out@ + walk(seed, value as int, target as int, 0, salt as int, len as nat) =~= whole);
    while idx < len
        invariant
            idx <= len,
            salt + len <= 32768,
            0 <= target <= 32726,
            -35 <= value - target <= 35,
            out@ + walk(seed, value as int, target as int, idx as int, salt as int, (len - idx) as nat)
                == whole,
        decreases len - idx,
    {
        let next: u64 = ((seed as u64) * 1664525 + 1013904223) % 4294967296;
        let s2 = next as u32;
        assert(s2 == lcg(seed));
        let jitter: i32 = ((s2 / 65536) % 9) as i32 - 4;
        let x: i32 = ((idx + salt) % 18) as i32 - 9;
        let drift: i32 = if x >= 0 {
            x / 3
        } else {
            -((-x) / 3)
        };
        proof {
            lemma_walk_step_bounds(value as int, s2, target as int, idx as int, salt as int);
        }
        let v1 = value + jitter + drift;
        let e = target - v1;
        let pull: i32 = if e >= 0 {
            e / 5
        } else {
            -((-e) / 5)
        };
        let v2 = v1 + pull;
        assert(v2 as int == walk_value(value as int, s2, target as int, idx as int, salt as int));
        let sample: u16 = if v2 < 0 {
            0
        } else if v2 > 99 {
            99
        } else {
            v2 as u16
        };
        let ghost rest = walk(s2, v2 as int, target as int, idx + 1, salt as int, (len - idx - 1) as nat);
        assert(walk(seed, value as int, target as int, idx as int, salt as int, (len - idx) as nat)
            == seq![sample] + rest);
        out.push(sample);
        assert(out@ + rest =~= whole);
        seed = s2;
        value = v2;
        idx = idx + 1;
    }
    assert(out@ =~= whole);
    out
}

/// A kept history with the current sample appended, keeping the last 96.
pub open spec fn appended_history(previous: Seq<u16>, current: u16) -> Seq<u16> {
    let h = previous.push(current);
    if h.len() > HISTORY_LEN {
        h.skip(h.len() - HISTORY_LEN)
    } else {
        h
    }
}

/// The history after a refresh: the kept one with the current sample, or a
/// deterministic one (see `pseudo_spec`) when none is kept.
pub fn percent_history(previous: Option<&Vec<u16>>, current: u16, id: &str, salt: usize) -> (r: Vec<u16>)
    requires
        previous is None ==> history_fits(current, id@, salt, HISTORY_LEN as nat),
    ensures
        r@ == match previous {
            Some(p) => appended_history(p@, current),
            None => pseudo_spec(current, id@, salt, HISTORY_LEN as nat),
        },
{
    match previous {
        Some(p) => {
            let ghost h = p@.push(current);
            let n = p.len();
            let mut out: Vec<u16> = Vec::new();
            let start: usize = if n >= HISTORY_LEN {
                n - (HISTORY_LEN - 1)
            } else {
                0
            };
            let mut i = start;
            while i < n
                invariant
                    start <= i <= n,
                    n == p@.len(),
                    h == p@.push(current),
                    out@ == h.subrange(start as int, i as int),
                decreases n - i,
            {
                out.push(p[i]);
                i = i + 1;
                assert(out@ =~= h.subrange(start as int, i as int));
            }
            out.push(current);
            assert(out@ =~= h.subrange(start as int, n + 1));
            assert(h.skip(start as int) =~= h.subrange(start as int, n + 1));
            out
        },
        None => pseudo_history(current, id, salt, HISTORY_LEN),
    }
}

/// A made-up network figure for a name: `base` plus its byte sum modulo
/// `spread`.
pub fn deterministic_net(name: &str, base: u32, spread: u32) -> (r: u32)
    requires
        spread > 0,
        byte_sum(encode_utf8(name@)) <= u32::MAX,
        base + byte_sum(encode_utf8(name@)) % (spread as nat) <= u32::MAX,
    ensures
        r == base + byte_sum(encode_utf8(name@)) % (spread as nat),
{
    let sum = utf8_byte_sum(name);
    base + (sum % (spread as u64)) as u32
}

} // verus!
