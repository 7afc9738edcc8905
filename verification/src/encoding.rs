//! Decoding of the two variable-length immediate encodings used by the
//! instruction stream: little-endian base-128 integers, and byte strings
//! carried behind such an integer as a length prefix.

use crate::AvmError;
use vstd::prelude::*;

verus! {

/// 128 raised to `n`; the weight of the `n`-th payload byte of a
/// variable-length integer.
pub open spec fn pow128(n: nat) -> nat
    decreases n,
{
    if n == 0 {
        1
    } else {
        128 * pow128((n - 1) as nat)
    }
}

/// The seven payload bits of one encoded byte.
pub open spec fn varuint_low7(b: u8) -> nat {
    (b % 128) as nat
}

/// Whether one encoded byte announces a continuation byte after it.
pub open spec fn varuint_more(b: u8) -> bool {
    b >= 128
}

/// The index of the first terminating byte (high bit clear) at or after
/// position `i`, if one occurs within the first 10 bytes of `s`.
pub open spec fn varuint_stop(s: Seq<u8>, i: nat) -> Option<nat>
    decreases 10 - i,
{
    if i >= s.len() || i >= 10 {
        None
    } else if !varuint_more(s[i as int]) {
        Some(i)
    } else {
        varuint_stop(s, i + 1)
    }
}

/// Whether `s` begins with a well-formed variable-length integer: a
/// terminating byte within the first 10, and, when it is the 10th, a payload
/// of at most one bit so the value fits 64 bits.
pub open spec fn varuint_valid(s: Seq<u8>) -> bool {
    match varuint_stop(s, 0) {
        Some(t) => t < 9 || s[t as int] <= 1,
        None => false,
    }
}

/// The value carried by the first `n` bytes of `s`, each contributing its
/// seven payload bits at weight `128^index`.
pub open spec fn varuint_partial(s: Seq<u8>, n: nat) -> nat
    decreases n,
{
    if n == 0 {
        0
    } else {
        varuint_partial(s, (n - 1) as nat) + varuint_low7(s[n - 1]) * pow128((n - 1) as nat)
    }
}

/// How many bytes the leading variable-length integer of `s` occupies.
pub open spec fn varuint_nbytes(s: Seq<u8>) -> nat {
    match varuint_stop(s, 0) {
        Some(t) => t + 1,
        None => 0,
    }
}

/// The value of the leading variable-length integer of `s`.
pub open spec fn varuint_value(s: Seq<u8>) -> nat {
    varuint_partial(s, varuint_nbytes(s))
}

/// A decoded unsigned 64-bit integer together with how many input bytes it
/// consumed.
#[derive(Debug, PartialEq, Eq)]
pub struct VarUint64 {
    /// The decoded value.
    pub value: u64,
    /// How many bytes of the input the encoding occupied.
    pub nbytes: usize,
}

/// `varuint_partial` grows by less than the weight of the next byte: the
/// first `n` bytes can never reach `128^n`.
proof fn lemma_varuint_partial_bound(s: Seq<u8>, n: nat)
    requires
        n <= s.len(),
    ensures
        varuint_partial(s, n) < pow128(n),
    decreases n,
{
    if n > 0 {
        lemma_varuint_partial_bound(s, (n - 1) as nat);
        let b = varuint_low7(s[n - 1]);
        let p = pow128((n - 1) as nat);
        assert(b * p <= 127 * p) by (nonlinear_arith)
            requires
                b <= 127,
                p >= 0,
        ;
    }
}

/// A terminator no earlier than `i` stays put when the scan starts anywhere
/// between `i` and it.
proof fn lemma_varuint_stop_skip(s: Seq<u8>, i: nat)
    requires
        i < s.len(),
        i < 10,
        varuint_more(s[i as int]),
    ensures
        varuint_stop(s, i) == varuint_stop(s, i + 1),
{
}

/// Spells out the powers of 128 that bound each partial value during
/// decoding; all of them fit in 64 bits.
proof fn lemma_pow128_values()
    ensures
        pow128(0) == 1,
        pow128(8) == 0x100000000000000,
        pow128(9) == 0x8000000000000000,
{
    reveal_with_fuel(pow128, 10);
}

/// `pow128` never shrinks as its argument grows.
proof fn lemma_pow128_increases(i: nat, j: nat)
    requires
        i <= j,
    ensures
        pow128(i) <= pow128(j),
    decreases j,
{
    if i < j {
        lemma_pow128_increases(i, (j - 1) as nat);
        lemma_pow128_positive((j - 1) as nat);
        let p = pow128((j - 1) as nat);
        assert(p <= 128 * p) by (nonlinear_arith)
            requires
                p >= 1,
        ;
    }
}

/// `pow128` is always at least one.
proof fn lemma_pow128_positive(n: nat)
    ensures
        pow128(n) >= 1,
    decreases n,
{
    if n > 0 {
        lemma_pow128_positive((n - 1) as nat);
    }
}

impl VarUint64 {
    /// Decodes the variable-length integer at the head of `data`: seven
    /// payload bits per byte in little-endian order, the high bit announcing
    /// a continuation.  Consumes at most 10 bytes; the 10th may carry only a
    /// single low bit.
    pub fn try_from(data: &[u8]) -> (r: Result<VarUint64, AvmError>)
        ensures
            varuint_valid(data@) ==> (r matches Ok(v)
                && v.value == varuint_value(data@)
                && v.nbytes == varuint_nbytes(data@)
                && 1 <= v.nbytes <= 10
                && v.nbytes <= data@.len()),
            !varuint_valid(data@) ==> r == Err::<VarUint64, AvmError>(AvmError::InvalidVarUint64),
    {
        let s = Ghost(data@);
        let n: usize = if data.len() < 10 {
            data.len()
        } else {
            10
        };
        let mut result: u64 = 0;
        let mut pow: u64 = 1;
        let mut i: usize = 0;
        proof {
            lemma_pow128_values();
        }
        while i < n
            invariant
                n == if s@.len() < 10 {
                    s@.len() as int
                } else {
                    10int
                },
                s@ == data@,
                i <= n,
                varuint_stop(s@, 0) == varuint_stop(s@, i as nat),
                result == varuint_partial(s@, i as nat),
                i <= 9 ==> result < pow,
                i <= 9 ==> pow == pow128(i as nat),
                pow128(9) == 0x8000000000000000,
                pow128(8) == 0x100000000000000,
            decreases n - i,
        {
            let b = data[i];
            let bits = b % 128;
            proof {
                lemma_varuint_partial_bound(s@, i as nat);
                lemma_pow128_increases(i as nat, if i <= 8 {
                    8nat
                } else {
                    9nat
                });
                assert((bits as nat) * (pow as nat) <= 127 * (pow as nat)) by (nonlinear_arith)
                    requires
                        bits <= 127,
                        pow >= 0,
                ;
            }
            if i == 9 && bits > 1 {
                proof {
                    if !varuint_more(s@[9]) {
                        assert(varuint_stop(s@, 9nat) == Some(9nat));
                        assert(s@[9] == bits);
                    } else {
                        assert(varuint_stop(s@, 9nat) == varuint_stop(s@, 10nat));
                        assert(varuint_stop(s@, 10nat) is None);
                    }
                }
                return Err(AvmError::InvalidVarUint64);
            }
            proof {
                if i == 9 {
                    assert((bits as nat) * (pow as nat) <= (pow as nat)) by (nonlinear_arith)
                        requires
                            bits <= 1,
                            pow >= 0,
                    ;
                }
            }
            result = result + (bits as u64) * pow;
            if b < 128 {
                assert(varuint_stop(s@, i as nat) == Some(i as nat));
                return Ok(VarUint64 { value: result, nbytes: i + 1 });
            }
            proof {
                lemma_varuint_stop_skip(s@, i as nat);
            }
            if i < 9 {
                pow = pow * 128;
            }
            i = i + 1;
        }
        assert(varuint_stop(s@, i as nat) is None);
        Err(AvmError::InvalidVarUint64)
    }
}

/// Whether `s` begins with a well-formed length-prefixed byte string: a
/// valid length whose announced payload fits in what follows it.
pub open spec fn varbytes_valid(s: Seq<u8>) -> bool {
    varuint_valid(s) && varuint_nbytes(s) + varuint_value(s) <= s.len()
}

/// The payload bytes of the leading length-prefixed byte string of `s`.
pub open spec fn varbytes_payload(s: Seq<u8>) -> Seq<u8> {
    s.subrange(varuint_nbytes(s) as int, (varuint_nbytes(s) + varuint_value(s)) as int)
}

/// How many bytes the whole encoding occupies: prefix plus payload.
pub open spec fn varbytes_nbytes(s: Seq<u8>) -> nat {
    varuint_nbytes(s) + varuint_value(s)
}

/// A decoded byte string together with how many input bytes it consumed,
/// prefix included.
#[derive(Debug, PartialEq, Eq)]
pub struct VarBytes {
    /// The payload, copied out of the input.
    pub value: Vec<u8>,
    /// How many bytes of the input the prefix and payload occupied together.
    pub nbytes: usize,
}

impl VarBytes {
    /// Decodes the length-prefixed byte string at the head of `data`: a
    /// variable-length integer giving the payload length, then that many
    /// payload bytes.
    pub fn try_from(data: &[u8]) -> (r: Result<VarBytes, AvmError>)
        ensures
            varbytes_valid(data@) ==> (r matches Ok(v)
                && v.value@ == varbytes_payload(data@)
                && v.nbytes == varbytes_nbytes(data@)
                && v.nbytes <= data@.len()),
            varuint_valid(data@) && !varbytes_valid(data@) ==> r == Err::<VarBytes, AvmError>(
                AvmError::InvalidVarBytes,
            ),
            !varuint_valid(data@) ==> r == Err::<VarBytes, AvmError>(AvmError::InvalidVarUint64),
    {
        let len = match VarUint64::try_from(data) {
            Ok(len) => len,
            Err(e) => {
                return Err(e);
            },
        };
        if len.value > (data.len() - len.nbytes) as u64 {
            Err(AvmError::InvalidVarBytes)
        } else {
            let end: usize = len.nbytes + (len.value as usize);
            let payload = slice_to_owned(data, len.nbytes, end);
            Ok(VarBytes { value: payload, nbytes: end })
        }
    }
}

/// Copies the bytes of `data[start..end]` into a fresh vector.
pub fn slice_to_owned(data: &[u8], start: usize, end: usize) -> (r: Vec<u8>)
    requires
        start <= end <= data@.len(),
    ensures
        r@ == data@.subrange(start as int, end as int),
{
    let mut out: Vec<u8> = Vec::new();
    let mut i: usize = start;
    while i < end
        invariant
            start <= i <= end <= data@.len(),
            out@ == data@.subrange(start as int, i as int),
        decreases end - i,
    {
        out.push(data[i]);
        proof {
            assert(out@ =~= data@.subrange(start as int, (i + 1) as int));
        }
        i = i + 1;
    }
    out
}

} // verus!
