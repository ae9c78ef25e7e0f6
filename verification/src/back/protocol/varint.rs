//! Numbers of variable length, as envelopes hold them: seven bits to a byte,
//! the least significant first, and the top bit of a byte set where another
//! byte follows.

use vstd::prelude::*;

verus! {

/// The bytes of `n`.
pub open spec fn varint(n: nat) -> Seq<u8>
    decreases n,
{
    if n < 128 {
        seq![n as u8]
    } else {
        seq![(n % 128 + 128) as u8] + varint(n / 128)
    }
}

/// The number that `bytes` begins with and the count of bytes that spell it,
/// whatever its size; `None` where the bytes end before the number does.
pub open spec fn varint_raw(bytes: Seq<u8>) -> Option<(nat, nat)>
    decreases bytes.len(),
{
    if bytes.len() == 0 {
        None
    } else if bytes[0] < 128 {
        Some((bytes[0] as nat, 1nat))
    } else {
        match varint_raw(bytes.skip(1)) {
            Some((high, count)) => Some(((bytes[0] - 128 + 128 * high) as nat, count + 1)),
            None => None,
        }
    }
}

/// The number that `bytes` begins with and the count of bytes that spell it.
/// A number is at most ten bytes long and fits in 64 bits; anything else is
/// malformed.
///
/// This is stricter, on purpose, than the coded streams of the `protobuf`
/// crate, which drop the bits of the tenth byte that lie beyond 64.
pub open spec fn varint_at(bytes: Seq<u8>) -> Option<(u64, nat)> {
    match varint_raw(bytes) {
        Some((value, count)) => if count <= 10 && value <= u64::MAX {
            Some((value as u64, count))
        } else {
            None
        },
        None => None,
    }
}

/// 128 to the power `i`.
pub open spec fn scale_of(i: nat) -> nat
    decreases i,
{
    if i == 0 {
        1
    } else {
        128 * scale_of((i - 1) as nat)
    }
}

/// The first powers of 128.
pub proof fn lemma_scales()
    ensures
        scale_of(0) == 1,
        scale_of(1) == 0x80,
        scale_of(2) == 0x4000,
        scale_of(3) == 0x20_0000,
        scale_of(4) == 0x1000_0000,
        scale_of(5) == 0x8_0000_0000,
        scale_of(6) == 0x400_0000_0000,
        scale_of(7) == 0x2_0000_0000_0000,
        scale_of(8) == 0x100_0000_0000_0000,
        scale_of(9) == 0x8000_0000_0000_0000,
        scale_of(10) == 0x40_0000_0000_0000_0000,
{
    reveal_with_fuel(scale_of, 11);
}

/// A number below 128 to the power `k` takes at most `k` bytes.
pub proof fn lemma_varint_len(n: nat, k: nat)
    requires
        k >= 1,
        n < scale_of(k),
    ensures
        1 <= varint(n).len() <= k,
    decreases n,
{
    if n >= 128 {
        reveal_with_fuel(scale_of, 2);
        assert(k >= 2);
        lemma_varint_len(n / 128, (k - 1) as nat);
    }
}

/// The bytes of a number, followed by anything, spell that number.
pub proof fn lemma_varint_round_trip(n: nat, rest: Seq<u8>)
    ensures
        varint_raw(varint(n) + rest) == Some((n, varint(n).len())),
    decreases n,
{
    let bytes = varint(n) + rest;
    if n < 128 {
        assert(bytes[0] == n as u8);
    } else {
        assert(bytes[0] == (n % 128 + 128) as u8);
        assert(bytes.skip(1) == varint(n / 128) + rest);
        lemma_varint_round_trip(n / 128, rest);
    }
}

/// The bytes of a number of 64 bits, followed by anything, are well formed
/// and spell that number.
pub proof fn lemma_varint_at_round_trip(n: u64, rest: Seq<u8>)
    ensures
        varint_at(varint(n as nat) + rest) == Some((n, varint(n as nat).len())),
        1 <= varint(n as nat).len() <= 10,
{
    lemma_scales();
    lemma_varint_len(n as nat, 10);
    lemma_varint_round_trip(n as nat, rest);
}

/// What a number is once `seen` stands before it, where `scale` is the weight
/// of its lowest digit and `count` digits came before.
pub open spec fn behind(inner: Option<(nat, nat)>, seen: nat, scale: nat, count: nat) -> Option<
    (nat, nat),
> {
    match inner {
        Some((high, more)) => Some((seen + scale * high, more + count)),
        None => None,
    }
}

/// One more digit with its top bit set moves from the number that is left to
/// the part that was seen.
proof fn lemma_behind_step(bytes: Seq<u8>, seen: nat, scale: nat, count: nat)
    requires
        bytes.len() > 0,
        bytes[0] >= 128,
    ensures
        behind(varint_raw(bytes), seen, scale, count) == behind(
            varint_raw(bytes.skip(1)),
            seen + scale * (bytes[0] - 128) as nat,
            scale * 128,
            count + 1,
        ),
{
    match varint_raw(bytes.skip(1)) {
        Some((high, more)) => {
            let digit = (bytes[0] - 128) as nat;
            assert(seen + scale * (digit + 128 * high) == seen + scale * digit + scale * 128
                * high) by (nonlinear_arith);
        },
        None => {},
    }
}

/// A number is at least its lowest digit.
proof fn lemma_raw_at_least_digit(bytes: Seq<u8>)
    requires
        bytes.len() > 0,
    ensures
        varint_raw(bytes) matches Some(found) ==> found.0 >= bytes[0] % 128 && found.1 >= 1,
{
}

/// Appends the bytes of `n` to `out`.
pub fn write_varint(out: &mut Vec<u8>, n: u64)
    ensures
        final(out)@ == old(out)@ + varint(n as nat),
{
    let mut left = n;
    while left >= 128
        invariant
            out@ + varint(left as nat) == old(out)@ + varint(n as nat),
        decreases left,
    {
        let ghost before = out@;
        out.push((left % 128) as u8 + 128);
        assert(before + varint(left as nat) == out@ + varint((left / 128) as nat));
        left = left / 128;
    }
    let ghost before = out@;
    out.push(left as u8);
    assert(before + varint(left as nat) == out@);
}

/// Reads the number that begins at `start`: the number and the place where it
/// ends, or `None` where it is malformed.
pub fn read_varint(bytes: &[u8], start: usize) -> (r: Option<(u64, usize)>)
    requires
        start <= bytes@.len(),
    ensures
        match r {
            Some((value, end)) => start < end <= bytes@.len() && varint_at(bytes@.skip(start as int))
                == Some((value, (end - start) as nat)),
            None => varint_at(bytes@.skip(start as int)) is None,
        },
{
    let ghost all = bytes@.skip(start as int);
    let mut value: u64 = 0;
    let mut scale: u64 = 1;
    let mut i: usize = 0;
    proof {
        lemma_scales();
        assert(all.skip(0) == all);
    }
    while i < 10
        invariant
            i <= 10,
            start + i <= bytes@.len(),
            all == bytes@.skip(start as int),
            i < 10 ==> scale == scale_of(i as nat),
            i < 10 ==> value < scale,
            varint_raw(all) == behind(
                varint_raw(all.skip(i as int)),
                value as nat,
                scale_of(i as nat),
                i as nat,
            ),
        decreases 10 - i,
    {
        if i >= bytes.len() - start {
            return None;
        }
        let byte = bytes[start + i];
        let digit = (byte % 128) as u64;
        let ghost left = all.skip(i as int);
        proof {
            lemma_scales();
            reveal_with_fuel(scale_of, 2);
            assert(left[0] == byte);
            assert(left.skip(1) == all.skip(i + 1));
            lemma_raw_at_least_digit(left);
        }
        if i == 9 && digit > 1 {
            proof {
                if let Some(found) = varint_raw(left) {
                    assert(scale_of(9) * found.0 >= scale_of(9) * 2) by (nonlinear_arith)
                        requires
                            found.0 >= 2,
                    ;
                }
            }
            return None;
        }
        assert(digit * scale <= 127 * scale) by (nonlinear_arith)
            requires
                digit <= 127,
        ;
        if i == 9 {
            assert(digit * scale <= scale) by (nonlinear_arith)
                requires
                    digit <= 1,
            ;
        }
        let total = value + digit * scale;
        if byte < 128 {
            assert(scale * digit == digit * scale) by (nonlinear_arith);
            return Some((total, start + i + 1));
        }
        proof {
            lemma_behind_step(left, value as nat, scale_of(i as nat), i as nat);
            assert(scale * digit == digit * scale) by (nonlinear_arith);
            assert(scale_of(i as nat) * 128 == scale_of((i + 1) as nat));
        }
        value = total;
        if i < 9 {
            scale = scale * 128;
        }
        i += 1;
    }
    proof {
        match varint_raw(all.skip(10)) {
            Some(found) => {
                if all.skip(10).len() > 0 {
                    lemma_raw_at_least_digit(all.skip(10));
                }
            },
            None => {},
        }
    }
    None
}

} // verus!
