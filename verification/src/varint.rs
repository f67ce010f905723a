//! Unsigned variable-length integers: seven bits per byte, least significant
//! group first, the high bit set on every byte but the last.
//!
//! Only the shortest encoding of a number is accepted, so that reading and
//! writing are inverse to each other.

use vstd::prelude::*;

verus! {

/// The longest encoding that is read: enough for every `u64`.
pub const MAX_LEN: usize = 10;

/// The encoding of `n`.
pub open spec fn encode(n: nat) -> Seq<u8>
    decreases n,
{
    if n < 128 {
        seq![n as u8]
    } else {
        seq![(n % 128 + 128) as u8] + encode(n / 128)
    }
}

/// The number at the start of `bytes` and the length of its encoding, looking
/// at no more than `budget` bytes. `None` if the bytes end early, if the
/// encoding is longer than `budget`, or if it is not the shortest one.
pub open spec fn decode_within(bytes: Seq<u8>, budget: nat) -> Option<(nat, nat)>
    decreases budget,
{
    if budget == 0 || bytes.len() == 0 {
        None
    } else if bytes[0] < 128 {
        Some((bytes[0] as nat, 1nat))
    } else {
        match decode_within(bytes.skip(1), (budget - 1) as nat) {
            Some((high, len)) => if high == 0 {
                None
            } else {
                Some(((bytes[0] - 128) as nat + 128 * high, len + 1))
            },
            None => None,
        }
    }
}

/// The number at the start of `bytes` and the length of its encoding, where
/// the encoding is at most [`MAX_LEN`] bytes long and the number fits a `u64`.
pub open spec fn decode(bytes: Seq<u8>) -> Option<(nat, nat)> {
    match decode_within(bytes, MAX_LEN as nat) {
        Some((value, len)) => if value <= u64::MAX {
            Some((value, len))
        } else {
            None
        },
        None => None,
    }
}

/// `128` to the power of `k`: the numbers below it have encodings of at most
/// `k` bytes.
pub open spec fn limit(k: nat) -> nat
    decreases k,
{
    if k == 0 {
        1
    } else {
        128 * limit((k - 1) as nat)
    }
}

/// Every encoding has at least one byte, and its last byte alone has the high
/// bit clear.
pub proof fn lemma_encode_shape(n: nat)
    ensures
        encode(n).len() >= 1,
        encode(n).last() < 128,
        n > 0 ==> encode(n).last() > 0,
        forall|i: int| 0 <= i < encode(n).len() - 1 ==> #[trigger] encode(n)[i] >= 128,
    decreases n,
{
    if n >= 128 {
        lemma_encode_shape(n / 128);
        let head = seq![(n % 128 + 128) as u8];
        let tail = encode(n / 128);
        assert(encode(n) == head + tail);
        assert(encode(n).last() == tail.last());
        assert forall|i: int| 0 <= i < encode(n).len() - 1 implies #[trigger] encode(n)[i]
            >= 128 by {
            if i > 0 {
                assert(encode(n)[i] == tail[i - 1]);
            }
        }
    }
}

/// A number below `128^k` has an encoding of at most `k` bytes.
pub proof fn lemma_encode_len(n: nat, k: nat)
    requires
        k >= 1,
        n < limit(k),
    ensures
        1 <= encode(n).len() <= k,
    decreases k,
{
    if n >= 128 {
        if k == 1 {
            assert(limit(1) == 128 * limit(0));
        } else {
            lemma_encode_len(n / 128, (k - 1) as nat);
        }
    }
}

/// Every `u64` is below `128^10`.
pub proof fn lemma_limit_u64()
    ensures
        limit(MAX_LEN as nat) > u64::MAX,
{
    reveal_with_fuel(limit, 11);
}

/// Reading what was written gives the number back, whatever follows it.
pub proof fn lemma_decode_within_encode(n: nat, rest: Seq<u8>, budget: nat)
    requires
        encode(n).len() <= budget,
    ensures
        decode_within(encode(n) + rest, budget) == Some((n, encode(n).len())),
    decreases n,
{
    let bytes = encode(n) + rest;
    lemma_encode_shape(n);
    if n >= 128 {
        let tail = encode(n / 128);
        assert(encode(n) == seq![(n % 128 + 128) as u8] + tail);
        assert(bytes[0] == (n % 128 + 128) as u8);
        assert(bytes.skip(1) =~= tail + rest);
        lemma_decode_within_encode(n / 128, rest, (budget - 1) as nat);
    } else {
        assert(bytes[0] == n as u8);
    }
}

/// Reading what was written gives the number back, whatever follows it.
pub proof fn lemma_decode_encode(n: nat, rest: Seq<u8>)
    requires
        n <= u64::MAX,
    ensures
        encode(n).len() <= MAX_LEN,
        decode(encode(n) + rest) == Some((n, encode(n).len())),
{
    lemma_limit_u64();
    lemma_encode_len(n, MAX_LEN as nat);
    lemma_decode_within_encode(n, rest, MAX_LEN as nat);
}

/// What is read is the encoding of the number that is read: writing it gives
/// the bytes back.
pub proof fn lemma_encode_decode_within(bytes: Seq<u8>, budget: nat)
    requires
        decode_within(bytes, budget) is Some,
    ensures
        ({
            let (value, len) = decode_within(bytes, budget).unwrap();
            &&& 1 <= len <= budget
            &&& len <= bytes.len()
            &&& bytes.take(len as int) == encode(value)
        }),
    decreases budget,
{
    let (value, len) = decode_within(bytes, budget).unwrap();
    if bytes[0] < 128 {
        assert(bytes.take(1) =~= seq![bytes[0]]);
    } else {
        let tail = bytes.skip(1);
        lemma_encode_decode_within(tail, (budget - 1) as nat);
        let (high, n) = decode_within(tail, (budget - 1) as nat).unwrap();
        assert(value == (bytes[0] - 128) + 128 * high);
        assert(value >= 128);
        assert(value / 128 == high);
        assert(value % 128 == bytes[0] - 128);
        assert(bytes.take(len as int) =~= seq![bytes[0]] + tail.take(n as int));
    }
}

/// What is read is the encoding of the number that is read: writing it gives
/// the bytes back.
pub proof fn lemma_encode_decode(bytes: Seq<u8>)
    requires
        decode(bytes) is Some,
    ensures
        ({
            let (value, len) = decode(bytes).unwrap();
            &&& value <= u64::MAX
            &&& 1 <= len <= MAX_LEN
            &&& len <= bytes.len()
            &&& bytes.take(len as int) == encode(value)
        }),
{
    lemma_encode_decode_within(bytes, MAX_LEN as nat);
}

/// Appends the encoding of `n` to `out`.
pub fn write(n: u64, out: &mut Vec<u8>)
    ensures
        final(out)@ == old(out)@ + encode(n as nat),
{
    let mut rest: u64 = n;
    let ghost written: Seq<u8> = Seq::empty();
    while rest >= 128
        invariant
            out@ == old(out)@ + written,
            written + encode(rest as nat) == encode(n as nat),
        decreases rest,
    {
        let byte: u8 = (rest % 128 + 128) as u8;
        out.push(byte);
        proof {
            assert(encode(rest as nat) == seq![byte] + encode((rest / 128) as nat));
            assert(written.push(byte) + encode((rest / 128) as nat) =~= written + encode(
                rest as nat,
            ));
            written = written.push(byte);
        }
        rest = rest / 128;
    }
    out.push(rest as u8);
    proof {
        assert(encode(rest as nat) == seq![rest as u8]);
        assert(out@ =~= old(out)@ + (written + encode(rest as nat)));
    }
}

fn read_within(buf: &[u8], pos: usize, budget: usize) -> (r: Option<(u64, usize)>)
    requires
        pos <= buf.len(),
    ensures
        match decode_within(buf@.skip(pos as int), budget as nat) {
            Some((value, len)) => if value <= u64::MAX {
                r == Some((value as u64, len as usize)) && pos + len <= buf.len()
            } else {
                r is None
            },
            None => r is None,
        },
    decreases budget,
{
    let ghost bytes = buf@.skip(pos as int);
    if budget == 0 || pos >= buf.len() {
        return None;
    }
    let first: u8 = buf[pos];
    assert(bytes[0] == first);
    if first < 128 {
        return Some((first as u64, 1));
    }
    assert(bytes.skip(1) =~= buf@.skip(pos + 1));
    proof {
        if decode_within(bytes.skip(1), (budget - 1) as nat) is Some {
            lemma_encode_decode_within(bytes.skip(1), (budget - 1) as nat);
        }
    }
    match read_within(buf, pos + 1, budget - 1) {
        Some((high, len)) => {
            if high == 0 || high > (u64::MAX - 127) / 128 {
                None
            } else {
                Some(((first - 128) as u64 + 128 * high, len + 1))
            }
        },
        None => None,
    }
}

/// Reads the number that starts at `pos` in `buf`, and tells how many bytes
/// its encoding takes.
pub fn read(buf: &[u8], pos: usize) -> (r: Option<(u64, usize)>)
    requires
        pos <= buf.len(),
    ensures
        match r {
            Some((value, len)) => {
                &&& decode(buf@.skip(pos as int)) == Some((value as nat, len as nat))
                &&& 1 <= len <= MAX_LEN
                &&& pos + len <= buf.len()
            },
            None => decode(buf@.skip(pos as int)) is None,
        },
{
    proof {
        if decode(buf@.skip(pos as int)) is Some {
            lemma_encode_decode(buf@.skip(pos as int));
        }
    }
    read_within(buf, pos, MAX_LEN)
}

} // verus!
