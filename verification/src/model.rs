//! The mathematical model of the machine: an abstract state over sequences,
//! one step function per opcode, and the budgeted evaluation function.  The
//! executable interpreter is specified entirely against this module.

use crate::encoding::{
    varbytes_nbytes, varbytes_payload, varbytes_valid, varuint_nbytes, varuint_valid,
    varuint_value,
};
use crate::{
    AvmError, LABEL_BYTES, LABEL_PAIR_BYTES_UINT64, LABEL_PAIR_SAME_TAG, LABEL_PAIR_UINT64_BYTES,
    LABEL_UINT64,
};
use vstd::prelude::*;

verus! {

/// A stack value: either an unsigned 64-bit integer or a byte string.
#[verifier::ext_equal]
pub enum AvmValue {
    /// A byte string.
    Bytes(Seq<u8>),
    /// An unsigned 64-bit integer.
    Uint64(u64),
}

/// The abstract machine state.
#[verifier::ext_equal]
pub struct MachineModel {
    /// The full program, version byte included.
    pub program: Seq<u8>,
    /// The next position to read from `program`; equal to the program length
    /// once execution has terminated.
    pub pc: int,
    /// The declared language revision, from the program's first byte.
    pub version: int,
    /// The data stack, top at the end.
    pub stack: Seq<AvmValue>,
    /// The 256 scratch slots.
    pub scratch: Seq<AvmValue>,
    /// The integer-constant table.
    pub intc: Seq<u64>,
    /// The byte-constant table.
    pub bytec: Seq<Seq<u8>>,
}

/// The largest byte-string length the machine can produce: 4096, except that
/// an immediate loaded from a longer program may be as long as the program.
pub open spec fn byte_cap(m: MachineModel) -> nat {
    if m.program.len() > 4096 {
        m.program.len()
    } else {
        4096
    }
}

/// Whether a value's byte string, if it is one, is within `cap`.
pub open spec fn value_fits(v: AvmValue, cap: nat) -> bool {
    match v {
        AvmValue::Bytes(b) => b.len() <= cap,
        AvmValue::Uint64(_) => true,
    }
}

/// Well-formedness of a machine state: the counter stays inside the program,
/// the version is one of the ten known revisions, the scratch area has
/// exactly 256 slots, and every byte string held anywhere is within the cap.
pub open spec fn m_wf(m: MachineModel) -> bool {
    &&& 1 <= m.program.len()
    &&& 0 <= m.pc <= m.program.len()
    &&& 1 <= m.version <= 10
    &&& m.scratch.len() == 256
    &&& forall|i: int| 0 <= i < m.stack.len() ==> value_fits(#[trigger] m.stack[i], byte_cap(m))
    &&& forall|i: int|
        0 <= i < m.scratch.len() ==> value_fits(#[trigger] m.scratch[i], byte_cap(m))
    &&& forall|i: int| 0 <= i < m.bytec.len() ==> (#[trigger] m.bytec[i]).len() <= byte_cap(m)
}

/// The machine with one more value on top of the stack.
pub open spec fn pushed(m: MachineModel, v: AvmValue) -> MachineModel {
    MachineModel { stack: m.stack.push(v), ..m }
}

/// The coercion from booleans: one for true, zero for false.
pub open spec fn from_bool(b: bool) -> AvmValue {
    if b {
        AvmValue::Uint64(1)
    } else {
        AvmValue::Uint64(0)
    }
}

/// Pops any value.
pub open spec fn take_any(m: MachineModel) -> Result<(AvmValue, MachineModel), AvmError> {
    if m.stack.len() == 0 {
        Err(AvmError::StackUnderflow)
    } else {
        Ok((m.stack.last(), MachineModel { stack: m.stack.drop_last(), ..m }))
    }
}

/// Pops a value that must be an integer.
pub open spec fn take_u64(m: MachineModel) -> Result<(u64, MachineModel), AvmError> {
    if m.stack.len() == 0 {
        Err(AvmError::StackUnderflow)
    } else {
        match m.stack.last() {
            AvmValue::Uint64(v) => Ok((v, MachineModel { stack: m.stack.drop_last(), ..m })),
            AvmValue::Bytes(_) => Err(AvmError::IncompatibleTypes(LABEL_BYTES, LABEL_UINT64)),
        }
    }
}

/// Pops a value that must be a byte string.
pub open spec fn take_bytes(m: MachineModel) -> Result<(Seq<u8>, MachineModel), AvmError> {
    if m.stack.len() == 0 {
        Err(AvmError::StackUnderflow)
    } else {
        match m.stack.last() {
            AvmValue::Bytes(b) => Ok((b, MachineModel { stack: m.stack.drop_last(), ..m })),
            AvmValue::Uint64(_) => Err(AvmError::IncompatibleTypes(LABEL_UINT64, LABEL_BYTES)),
        }
    }
}

/// Reads the byte at the counter and advances past it.
pub open spec fn fetch_byte(m: MachineModel) -> Result<(u8, MachineModel), AvmError> {
    if m.pc < m.program.len() {
        Ok((m.program[m.pc], MachineModel { pc: m.pc + 1, ..m }))
    } else {
        Err(AvmError::PcOutOfBounds)
    }
}

/// Reads two bytes as a big-endian signed 16-bit branch offset.
pub open spec fn fetch_offset(m: MachineModel) -> Result<(int, MachineModel), AvmError> {
    if m.pc + 2 <= m.program.len() {
        let raw = m.program[m.pc] * 256 + m.program[m.pc + 1];
        let off = if raw >= 0x8000 {
            raw - 0x10000
        } else {
            raw
        };
        Ok((off, MachineModel { pc: m.pc + 2, ..m }))
    } else {
        Err(AvmError::PcOutOfBounds)
    }
}

/// The unread remainder of the program.
pub open spec fn rest(m: MachineModel) -> Seq<u8> {
    m.program.subrange(m.pc, m.program.len() as int)
}

/// Decodes a variable-length integer immediate at the counter.
pub open spec fn fetch_varint(m: MachineModel) -> Result<(u64, MachineModel), AvmError> {
    if varuint_valid(rest(m)) {
        Ok(
            (
                varuint_value(rest(m)) as u64,
                MachineModel { pc: m.pc + varuint_nbytes(rest(m)), ..m },
            ),
        )
    } else {
        Err(AvmError::InvalidVarUint64)
    }
}

/// Decodes a length-prefixed byte-string immediate at the counter.
pub open spec fn fetch_varbytes(m: MachineModel) -> Result<(Seq<u8>, MachineModel), AvmError> {
    if varbytes_valid(rest(m)) {
        Ok((varbytes_payload(rest(m)), MachineModel { pc: m.pc + varbytes_nbytes(rest(m)), ..m }))
    } else if varuint_valid(rest(m)) {
        Err(AvmError::InvalidVarBytes)
    } else {
        Err(AvmError::InvalidVarUint64)
    }
}

/// The `err` opcode: always fails.
pub open spec fn step_err(m: MachineModel) -> Result<MachineModel, AvmError> {
    Err(AvmError::ErrOpCode)
}

/// Checked addition: `lhs + rhs`, failing on 64-bit overflow.
pub open spec fn step_plus(m: MachineModel) -> Result<MachineModel, AvmError> {
    match take_u64(m) {
        Err(e) => Err(e),
        Ok((rhs, m1)) => match take_u64(m1) {
            Err(e) => Err(e),
            Ok((lhs, m2)) => if lhs + rhs > u64::MAX {
                Err(AvmError::IntegerOverflow)
            } else {
                Ok(pushed(m2, AvmValue::Uint64((lhs + rhs) as u64)))
            },
        },
    }
}

/// Checked subtraction: `lhs - rhs`, failing when the result would be
/// negative.
pub open spec fn step_minus(m: MachineModel) -> Result<MachineModel, AvmError> {
    match take_u64(m) {
        Err(e) => Err(e),
        Ok((rhs, m1)) => match take_u64(m1) {
            Err(e) => Err(e),
            Ok((lhs, m2)) => if lhs < rhs {
                Err(AvmError::IntegerUnderflow)
            } else {
                Ok(pushed(m2, AvmValue::Uint64((lhs - rhs) as u64)))
            },
        },
    }
}

/// Truncated division: `lhs / rhs`, failing on a zero divisor.
pub open spec fn step_div(m: MachineModel) -> Result<MachineModel, AvmError> {
    match take_u64(m) {
        Err(e) => Err(e),
        Ok((rhs, m1)) => match take_u64(m1) {
            Err(e) => Err(e),
            Ok((lhs, m2)) => if rhs == 0 {
                Err(AvmError::DivisionByZero)
            } else {
                Ok(pushed(m2, AvmValue::Uint64((lhs as int / rhs as int) as u64)))
            },
        },
    }
}

/// Checked multiplication: `lhs * rhs`, failing on 64-bit overflow.
pub open spec fn step_mul(m: MachineModel) -> Result<MachineModel, AvmError> {
    match take_u64(m) {
        Err(e) => Err(e),
        Ok((rhs, m1)) => match take_u64(m1) {
            Err(e) => Err(e),
            Ok((lhs, m2)) => if lhs * rhs > u64::MAX {
                Err(AvmError::IntegerOverflow)
            } else {
                Ok(pushed(m2, AvmValue::Uint64((lhs * rhs) as u64)))
            },
        },
    }
}

/// Remainder: `lhs % rhs`, failing on a zero divisor.
pub open spec fn step_mod(m: MachineModel) -> Result<MachineModel, AvmError> {
    match take_u64(m) {
        Err(e) => Err(e),
        Ok((rhs, m1)) => match take_u64(m1) {
            Err(e) => Err(e),
            Ok((lhs, m2)) => if rhs == 0 {
                Err(AvmError::DivisionByZero)
            } else {
                Ok(pushed(m2, AvmValue::Uint64((lhs as int % rhs as int) as u64)))
            },
        },
    }
}

/// A comparison or logic opcode over two integers, pushing one or zero.
pub open spec fn step_cmp(
    m: MachineModel,
    f: spec_fn(u64, u64) -> bool,
) -> Result<MachineModel, AvmError> {
    match take_u64(m) {
        Err(e) => Err(e),
        Ok((rhs, m1)) => match take_u64(m1) {
            Err(e) => Err(e),
            Ok((lhs, m2)) => Ok(pushed(m2, from_bool(f(lhs, rhs)))),
        },
    }
}

/// `lhs < rhs`.
pub open spec fn step_lt(m: MachineModel) -> Result<MachineModel, AvmError> {
    step_cmp(m, |l: u64, r: u64| l < r)
}

/// `lhs > rhs`.
pub open spec fn step_gt(m: MachineModel) -> Result<MachineModel, AvmError> {
    step_cmp(m, |l: u64, r: u64| l > r)
}

/// `lhs <= rhs`.
pub open spec fn step_leq(m: MachineModel) -> Result<MachineModel, AvmError> {
    step_cmp(m, |l: u64, r: u64| l <= r)
}

/// `lhs >= rhs`.
pub open spec fn step_geq(m: MachineModel) -> Result<MachineModel, AvmError> {
    step_cmp(m, |l: u64, r: u64| l >= r)
}

/// Logical conjunction: both operands nonzero.
pub open spec fn step_and(m: MachineModel) -> Result<MachineModel, AvmError> {
    step_cmp(m, |l: u64, r: u64| l != 0 && r != 0)
}

/// Logical disjunction: either operand nonzero.
pub open spec fn step_or(m: MachineModel) -> Result<MachineModel, AvmError> {
    step_cmp(m, |l: u64, r: u64| l != 0 || r != 0)
}

/// Equality of two values: defined for same-tag pairs only; a mixed pair is
/// a type error, not falsehood.
pub open spec fn check_eq_m(lhs: AvmValue, rhs: AvmValue) -> Result<bool, AvmError> {
    match (lhs, rhs) {
        (AvmValue::Uint64(l), AvmValue::Uint64(r)) => Ok(l == r),
        (AvmValue::Bytes(l), AvmValue::Bytes(r)) => Ok(l == r),
        (AvmValue::Uint64(_), AvmValue::Bytes(_)) => Err(
            AvmError::IncompatibleTypes(LABEL_PAIR_UINT64_BYTES, LABEL_PAIR_SAME_TAG),
        ),
        (AvmValue::Bytes(_), AvmValue::Uint64(_)) => Err(
            AvmError::IncompatibleTypes(LABEL_PAIR_BYTES_UINT64, LABEL_PAIR_SAME_TAG),
        ),
    }
}

/// `lhs == rhs` on same-tag values.
pub open spec fn step_eq(m: MachineModel) -> Result<MachineModel, AvmError> {
    match take_any(m) {
        Err(e) => Err(e),
        Ok((rhs, m1)) => match take_any(m1) {
            Err(e) => Err(e),
            Ok((lhs, m2)) => match check_eq_m(lhs, rhs) {
                Err(e) => Err(e),
                Ok(b) => Ok(pushed(m2, from_bool(b))),
            },
        },
    }
}

/// `lhs != rhs` on same-tag values.
pub open spec fn step_neq(m: MachineModel) -> Result<MachineModel, AvmError> {
    match take_any(m) {
        Err(e) => Err(e),
        Ok((rhs, m1)) => match take_any(m1) {
            Err(e) => Err(e),
            Ok((lhs, m2)) => match check_eq_m(lhs, rhs) {
                Err(e) => Err(e),
                Ok(b) => Ok(pushed(m2, from_bool(!b))),
            },
        },
    }
}

/// Logical negation: one for zero, zero for anything else.
pub open spec fn step_neg(m: MachineModel) -> Result<MachineModel, AvmError> {
    match take_u64(m) {
        Err(e) => Err(e),
        Ok((v, m1)) => Ok(pushed(m1, from_bool(v == 0))),
    }
}

/// The length of a byte string, pushed as an integer.
pub open spec fn step_len(m: MachineModel) -> Result<MachineModel, AvmError> {
    match take_bytes(m) {
        Err(e) => Err(e),
        Ok((b, m1)) => Ok(pushed(m1, AvmValue::Uint64(b.len() as u64))),
    }
}

/// 256 raised to `n`; the weight of a byte in a big-endian byte string.
pub open spec fn pow256(n: nat) -> nat
    decreases n,
{
    if n == 0 {
        1
    } else {
        256 * pow256((n - 1) as nat)
    }
}

/// The value of a byte string read as a big-endian integer.
pub open spec fn be_val(s: Seq<u8>) -> nat
    decreases s.len(),
{
    if s.len() == 0 {
        0
    } else {
        be_val(s.drop_last()) * 256 + s.last() as nat
    }
}

/// The `n`-byte big-endian encoding of `v % 256^n`.
pub open spec fn be_bytes(v: nat, n: nat) -> Seq<u8>
    decreases n,
{
    if n == 0 {
        Seq::empty()
    } else {
        be_bytes(v / 256, (n - 1) as nat).push((v % 256) as u8)
    }
}

/// The 8-byte big-endian encoding of an unsigned 64-bit integer.
pub open spec fn u64_be_bytes(v: u64) -> Seq<u8> {
    be_bytes(v as nat, 8)
}

/// `pow256` is always at least one.
pub proof fn lemma_pow256_positive(n: nat)
    ensures
        pow256(n) >= 1,
    decreases n,
{
    if n > 0 {
        lemma_pow256_positive((n - 1) as nat);
    }
}

/// `pow256` never shrinks as its argument grows.
pub proof fn lemma_pow256_increases(i: nat, j: nat)
    requires
        i <= j,
    ensures
        pow256(i) <= pow256(j),
    decreases j,
{
    if i < j {
        lemma_pow256_increases(i, (j - 1) as nat);
        lemma_pow256_positive((j - 1) as nat);
        let p = pow256((j - 1) as nat);
        assert(p <= 256 * p) by (nonlinear_arith)
            requires
                p >= 1,
        ;
    }
}

/// Spells out the small powers of 256 that byte-string conversions need.
pub proof fn lemma_pow256_values()
    ensures
        pow256(0) == 1,
        pow256(7) == 0x100000000000000,
        pow256(8) == 0x10000000000000000,
{
    reveal_with_fuel(pow256, 9);
}

/// The big-endian encoding of `v` into `n` bytes has exactly `n` bytes.
pub proof fn lemma_be_bytes_len(v: nat, n: nat)
    ensures
        be_bytes(v, n).len() == n,
    decreases n,
{
    if n > 0 {
        lemma_be_bytes_len(v / 256, (n - 1) as nat);
    }
}

/// Reading back an `n`-byte big-endian encoding yields the value modulo
/// `256^n`.
pub proof fn lemma_be_val_of_be_bytes(v: nat, n: nat)
    ensures
        be_val(be_bytes(v, n)) == v % pow256(n),
    decreases n,
{
    if n == 0 {
        assert(v % 1 == 0) by (nonlinear_arith);
    } else {
        lemma_be_val_of_be_bytes(v / 256, (n - 1) as nat);
        lemma_be_bytes_len(v / 256, (n - 1) as nat);
        let tail = be_bytes(v / 256, (n - 1) as nat);
        let b = be_bytes(v, n);
        assert(b.drop_last() =~= tail);
        lemma_pow256_positive((n - 1) as nat);
        vstd::arithmetic::div_mod::lemma_mod_breakdown(
            v as int,
            256,
            pow256((n - 1) as nat) as int,
        );
    }
}

/// `itob`: the 8-byte big-endian encoding of an integer.
pub open spec fn step_itob(m: MachineModel) -> Result<MachineModel, AvmError> {
    match take_u64(m) {
        Err(e) => Err(e),
        Ok((v, m1)) => Ok(pushed(m1, AvmValue::Bytes(u64_be_bytes(v)))),
    }
}

/// `btoi`: a byte string of at most 8 bytes read as a big-endian integer.
pub open spec fn step_btoi(m: MachineModel) -> Result<MachineModel, AvmError> {
    match take_bytes(m) {
        Err(e) => Err(e),
        Ok((b, m1)) => if b.len() > 8 {
            Err(AvmError::BtoiTooLong(b.len() as usize))
        } else {
            Ok(pushed(m1, AvmValue::Uint64(be_val(b) as u64)))
        },
    }
}

/// A bitwise opcode over two integers.
pub open spec fn step_bits(
    m: MachineModel,
    f: spec_fn(u64, u64) -> u64,
) -> Result<MachineModel, AvmError> {
    match take_u64(m) {
        Err(e) => Err(e),
        Ok((rhs, m1)) => match take_u64(m1) {
            Err(e) => Err(e),
            Ok((lhs, m2)) => Ok(pushed(m2, AvmValue::Uint64(f(lhs, rhs)))),
        },
    }
}

/// Bitwise or.
pub open spec fn step_bit_or(m: MachineModel) -> Result<MachineModel, AvmError> {
    step_bits(m, |l: u64, r: u64| l | r)
}

/// Bitwise and.
pub open spec fn step_bit_and(m: MachineModel) -> Result<MachineModel, AvmError> {
    step_bits(m, |l: u64, r: u64| l & r)
}

/// Bitwise exclusive or.
pub open spec fn step_bit_xor(m: MachineModel) -> Result<MachineModel, AvmError> {
    step_bits(m, |l: u64, r: u64| l ^ r)
}

/// Bitwise complement of one integer.
pub open spec fn step_bit_not(m: MachineModel) -> Result<MachineModel, AvmError> {
    match take_u64(m) {
        Err(e) => Err(e),
        Ok((v, m1)) => Ok(pushed(m1, AvmValue::Uint64(!v))),
    }
}

/// `mulw`: the 128-bit product of two integers, pushed as high then low.
pub open spec fn step_mulw(m: MachineModel) -> Result<MachineModel, AvmError> {
    match take_u64(m) {
        Err(e) => Err(e),
        Ok((b, m1)) => match take_u64(m1) {
            Err(e) => Err(e),
            Ok((a, m2)) => {
                let p = a * b;
                Ok(
                    pushed(
                        pushed(m2, AvmValue::Uint64((p / 0x10000000000000000) as u64)),
                        AvmValue::Uint64((p % 0x10000000000000000) as u64),
                    ),
                )
            },
        },
    }
}

/// `addw`: the 128-bit sum of two integers, pushed as high then low.
pub open spec fn step_addw(m: MachineModel) -> Result<MachineModel, AvmError> {
    match take_u64(m) {
        Err(e) => Err(e),
        Ok((b, m1)) => match take_u64(m1) {
            Err(e) => Err(e),
            Ok((a, m2)) => {
                let p = a + b;
                Ok(
                    pushed(
                        pushed(m2, AvmValue::Uint64((p / 0x10000000000000000) as u64)),
                        AvmValue::Uint64((p % 0x10000000000000000) as u64),
                    ),
                )
            },
        },
    }
}

/// `divmodw`: 128-bit division and remainder of `(a<<64)|b` by `(c<<64)|d`,
/// pushed as quotient high, quotient low, remainder high, remainder low.
pub open spec fn step_divmodw(m: MachineModel) -> Result<MachineModel, AvmError> {
    match take_u64(m) {
        Err(e) => Err(e),
        Ok((d, m1)) => match take_u64(m1) {
            Err(e) => Err(e),
            Ok((c, m2)) => match take_u64(m2) {
                Err(e) => Err(e),
                Ok((b, m3)) => match take_u64(m3) {
                    Err(e) => Err(e),
                    Ok((a, m4)) => {
                        let ab = a * 0x10000000000000000 + b;
                        let cd = c * 0x10000000000000000 + d;
                        if cd == 0 {
                            Err(AvmError::DivisionByZero)
                        } else {
                            let q = ab / cd;
                            let r = ab % cd;
                            Ok(
                                pushed(
                                    pushed(
                                        pushed(
                                            pushed(
                                                m4,
                                                AvmValue::Uint64(
                                                    (q / 0x10000000000000000) as u64,
                                                ),
                                            ),
                                            AvmValue::Uint64((q % 0x10000000000000000) as u64),
                                        ),
                                        AvmValue::Uint64((r / 0x10000000000000000) as u64),
                                    ),
                                    AvmValue::Uint64((r % 0x10000000000000000) as u64),
                                ),
                            )
                        }
                    },
                },
            },
        },
    }
}

/// Reads `k` more variable-length integers, extending `acc`.
pub open spec fn fetch_intc_list(m: MachineModel, k: nat, acc: Seq<u64>) -> Result<
    (Seq<u64>, MachineModel),
    AvmError,
>
    decreases k,
{
    if k == 0 {
        Ok((acc, m))
    } else {
        match fetch_varint(m) {
            Err(e) => Err(e),
            Ok((v, m1)) => fetch_intc_list(m1, (k - 1) as nat, acc.push(v)),
        }
    }
}

/// `intcblock`: decodes a count and that many integers, replacing the
/// integer-constant table wholesale.
pub open spec fn step_intcblock(m: MachineModel) -> Result<MachineModel, AvmError> {
    match fetch_varint(m) {
        Err(e) => Err(e),
        Ok((n, m1)) => match fetch_intc_list(m1, n as nat, Seq::empty()) {
            Err(e) => Err(e),
            Ok((table, m2)) => Ok(MachineModel { intc: table, ..m2 }),
        },
    }
}

/// Pushes the integer constant at `idx`, if the table reaches it.
pub open spec fn step_intc_n(m: MachineModel, idx: usize) -> Result<MachineModel, AvmError> {
    if idx < m.intc.len() {
        Ok(pushed(m, AvmValue::Uint64(m.intc[idx as int])))
    } else {
        Err(AvmError::IntcOutOfRange(idx, m.intc.len() as usize))
    }
}

/// `intc`: an integer-constant load whose index is a varint immediate.
pub open spec fn step_intc(m: MachineModel) -> Result<MachineModel, AvmError> {
    match fetch_varint(m) {
        Err(e) => Err(e),
        Ok((idx, m1)) => step_intc_n(m1, idx as usize),
    }
}

/// Reads `k` more length-prefixed byte strings, extending `acc`.
pub open spec fn fetch_bytec_list(m: MachineModel, k: nat, acc: Seq<Seq<u8>>) -> Result<
    (Seq<Seq<u8>>, MachineModel),
    AvmError,
>
    decreases k,
{
    if k == 0 {
        Ok((acc, m))
    } else {
        match fetch_varbytes(m) {
            Err(e) => Err(e),
            Ok((b, m1)) => fetch_bytec_list(m1, (k - 1) as nat, acc.push(b)),
        }
    }
}

/// `bytecblock`: decodes a count and that many byte strings, replacing the
/// byte-constant table wholesale.
pub open spec fn step_bytecblock(m: MachineModel) -> Result<MachineModel, AvmError> {
    match fetch_varint(m) {
        Err(e) => Err(e),
        Ok((n, m1)) => match fetch_bytec_list(m1, n as nat, Seq::empty()) {
            Err(e) => Err(e),
            Ok((table, m2)) => Ok(MachineModel { bytec: table, ..m2 }),
        },
    }
}

/// Pushes the byte constant at `idx`, if the table reaches it.
pub open spec fn step_bytec_n(m: MachineModel, idx: usize) -> Result<MachineModel, AvmError> {
    if idx < m.bytec.len() {
        Ok(pushed(m, AvmValue::Bytes(m.bytec[idx as int])))
    } else {
        Err(AvmError::BytecOutOfRange(idx, m.bytec.len() as usize))
    }
}

/// `bytec`: a byte-constant load whose index is a varint immediate.
pub open spec fn step_bytec(m: MachineModel) -> Result<MachineModel, AvmError> {
    match fetch_varint(m) {
        Err(e) => Err(e),
        Ok((idx, m1)) => step_bytec_n(m1, idx as usize),
    }
}

/// `load`: pushes the scratch slot named by a one-byte immediate.
pub open spec fn step_load(m: MachineModel) -> Result<MachineModel, AvmError> {
    match fetch_byte(m) {
        Err(e) => Err(e),
        Ok((pos, m1)) => Ok(pushed(m1, m1.scratch[pos as int])),
    }
}

/// `store`: pops a value into the scratch slot named by a one-byte
/// immediate.
pub open spec fn step_store(m: MachineModel) -> Result<MachineModel, AvmError> {
    match fetch_byte(m) {
        Err(e) => Err(e),
        Ok((pos, m1)) => match take_any(m1) {
            Err(e) => Err(e),
            Ok((v, m2)) => Ok(MachineModel { scratch: m2.scratch.update(pos as int, v), ..m2 }),
        },
    }
}

/// `loads`: pushes the scratch slot named by a popped integer, which must be
/// below 256.
pub open spec fn step_loads(m: MachineModel) -> Result<MachineModel, AvmError> {
    match take_u64(m) {
        Err(e) => Err(e),
        Ok((pos, m1)) => if pos >= 256 {
            Err(AvmError::ScratchAccessOutOfBounds(pos as usize))
        } else {
            Ok(pushed(m1, m1.scratch[pos as int]))
        },
    }
}

/// `stores`: pops a value, then a position below 256, and writes the value
/// into that scratch slot.
pub open spec fn step_stores(m: MachineModel) -> Result<MachineModel, AvmError> {
    match take_any(m) {
        Err(e) => Err(e),
        Ok((v, m1)) => match take_u64(m1) {
            Err(e) => Err(e),
            Ok((pos, m2)) => if pos >= 256 {
                Err(AvmError::ScratchAccessOutOfBounds(pos as usize))
            } else {
                Ok(MachineModel { scratch: m2.scratch.update(pos as int, v), ..m2 })
            },
        },
    }
}

/// Moves the counter by a signed offset, which must land inside the program
/// or exactly at its end.
pub open spec fn apply_branch(m: MachineModel, off: int) -> Result<MachineModel, AvmError> {
    let target = m.pc + off;
    if target < 0 || target > m.program.len() {
        Err(AvmError::PcOutOfBounds)
    } else {
        Ok(MachineModel { pc: target, ..m })
    }
}

/// `bnz`: reads the offset, pops a condition, and branches when it is
/// nonzero.  The offset is consumed even when the branch is not taken.
pub open spec fn step_bnz(m: MachineModel) -> Result<MachineModel, AvmError> {
    match fetch_offset(m) {
        Err(e) => Err(e),
        Ok((off, m1)) => match take_u64(m1) {
            Err(e) => Err(e),
            Ok((v, m2)) => if v != 0 {
                apply_branch(m2, off)
            } else {
                Ok(m2)
            },
        },
    }
}

/// `bz`: as `bnz`, but branches when the condition is zero.
pub open spec fn step_bz(m: MachineModel) -> Result<MachineModel, AvmError> {
    match fetch_offset(m) {
        Err(e) => Err(e),
        Ok((off, m1)) => match take_u64(m1) {
            Err(e) => Err(e),
            Ok((v, m2)) => if v == 0 {
                apply_branch(m2, off)
            } else {
                Ok(m2)
            },
        },
    }
}

/// `b`: an unconditional branch.
pub open spec fn step_b(m: MachineModel) -> Result<MachineModel, AvmError> {
    match fetch_offset(m) {
        Err(e) => Err(e),
        Ok((off, m1)) => apply_branch(m1, off),
    }
}

/// `return`: pops an integer, clears the stack down to that one value, and
/// terminates by moving the counter to the program end.
pub open spec fn step_return(m: MachineModel) -> Result<MachineModel, AvmError> {
    match take_u64(m) {
        Err(e) => Err(e),
        Ok((v, m1)) => Ok(
            MachineModel {
                stack: Seq::empty().push(AvmValue::Uint64(v)),
                pc: m1.program.len() as int,
                ..m1
            },
        ),
    }
}

/// `assert`: pops an integer and fails, naming the opcode's position, when
/// it is zero.
pub open spec fn step_assert(m: MachineModel) -> Result<MachineModel, AvmError> {
    match take_u64(m) {
        Err(e) => Err(e),
        Ok((v, m1)) => if v == 0 {
            Err(AvmError::AssertionFailed((m.pc - 1) as usize))
        } else {
            Ok(m1)
        },
    }
}

/// `bury`: pops the top and writes it `depth` positions down, counted on the
/// stack before the pop.
pub open spec fn step_bury(m: MachineModel) -> Result<MachineModel, AvmError> {
    match fetch_byte(m) {
        Err(e) => Err(e),
        Ok((depth, m1)) => if depth == 0 || depth > m1.stack.len() {
            Err(AvmError::InvalidStackAccess)
        } else {
            Ok(
                MachineModel {
                    stack: m1.stack.update(
                        m1.stack.len() - depth,
                        m1.stack.last(),
                    ).drop_last(),
                    ..m1
                },
            )
        },
    }
}

/// `popn`: discards the top `n` values.
pub open spec fn step_popn(m: MachineModel) -> Result<MachineModel, AvmError> {
    match fetch_byte(m) {
        Err(e) => Err(e),
        Ok((n, m1)) => if n > m1.stack.len() {
            Err(AvmError::StackUnderflow)
        } else {
            Ok(MachineModel { stack: m1.stack.take(m1.stack.len() - n), ..m1 })
        },
    }
}

/// `dupn`: pops the top and pushes `n + 1` copies of it.
pub open spec fn step_dupn(m: MachineModel) -> Result<MachineModel, AvmError> {
    match fetch_byte(m) {
        Err(e) => Err(e),
        Ok((n, m1)) => match take_any(m1) {
            Err(e) => Err(e),
            Ok((v, m2)) => Ok(
                MachineModel { stack: m2.stack + Seq::new(n as nat + 1, |i: int| v), ..m2 },
            ),
        },
    }
}

/// `pop`: discards the top value; an empty stack is its own error.
pub open spec fn step_pop(m: MachineModel) -> Result<MachineModel, AvmError> {
    if m.stack.len() == 0 {
        Err(AvmError::EmptyStack)
    } else {
        Ok(MachineModel { stack: m.stack.drop_last(), ..m })
    }
}

/// `dup`: pushes a copy of the top value.
pub open spec fn step_dup(m: MachineModel) -> Result<MachineModel, AvmError> {
    if m.stack.len() == 0 {
        Err(AvmError::StackUnderflow)
    } else {
        Ok(pushed(m, m.stack.last()))
    }
}

/// `dup2`: copies the top two values, turning `.. a b` into `.. a b a b`.
pub open spec fn step_dup2(m: MachineModel) -> Result<MachineModel, AvmError> {
    match take_any(m) {
        Err(e) => Err(e),
        Ok((b, m1)) => match take_any(m1) {
            Err(e) => Err(e),
            Ok((a, m2)) => Ok(pushed(pushed(pushed(pushed(m2, a), b), a), b)),
        },
    }
}

/// `dig`: pushes a copy of the value `n` below the top.
pub open spec fn step_dig(m: MachineModel) -> Result<MachineModel, AvmError> {
    match fetch_byte(m) {
        Err(e) => Err(e),
        Ok((n, m1)) => if n >= m1.stack.len() {
            Err(AvmError::InvalidStackAccess)
        } else {
            Ok(pushed(m1, m1.stack[m1.stack.len() - 1 - n]))
        },
    }
}

/// `swap`: exchanges the top two values.
pub open spec fn step_swap(m: MachineModel) -> Result<MachineModel, AvmError> {
    match take_any(m) {
        Err(e) => Err(e),
        Ok((b, m1)) => match take_any(m1) {
            Err(e) => Err(e),
            Ok((a, m2)) => Ok(pushed(pushed(m2, b), a)),
        },
    }
}

/// `select`: pops a condition and two values, pushing the first when the
/// condition is zero and the second otherwise.
pub open spec fn step_select(m: MachineModel) -> Result<MachineModel, AvmError> {
    match take_u64(m) {
        Err(e) => Err(e),
        Ok((c, m1)) => match take_any(m1) {
            Err(e) => Err(e),
            Ok((b, m2)) => match take_any(m2) {
                Err(e) => Err(e),
                Ok((a, m3)) => Ok(pushed(m3, if c == 0 {
                    a
                } else {
                    b
                })),
            },
        },
    }
}

/// `cover`: pops the top and reinserts it `depth` positions below the new
/// top.
pub open spec fn step_cover(m: MachineModel) -> Result<MachineModel, AvmError> {
    match fetch_byte(m) {
        Err(e) => Err(e),
        Ok((depth, m1)) => if depth < m1.stack.len() {
            Ok(
                MachineModel {
                    stack: m1.stack.drop_last().insert(
                        m1.stack.len() - 1 - depth,
                        m1.stack.last(),
                    ),
                    ..m1
                },
            )
        } else {
            Err(AvmError::InvalidStackAccess)
        },
    }
}

/// `uncover`: removes the value `depth` below the top and pushes it.
pub open spec fn step_uncover(m: MachineModel) -> Result<MachineModel, AvmError> {
    match fetch_byte(m) {
        Err(e) => Err(e),
        Ok((depth, m1)) => if depth < m1.stack.len() {
            let pos = m1.stack.len() - 1 - depth;
            Ok(MachineModel { stack: m1.stack.remove(pos).push(m1.stack[pos]), ..m1 })
        } else {
            Err(AvmError::InvalidStackAccess)
        },
    }
}

/// `concat`: joins two byte strings, rejecting a result longer than 4096
/// bytes.
pub open spec fn step_concat(m: MachineModel) -> Result<MachineModel, AvmError> {
    match take_bytes(m) {
        Err(e) => Err(e),
        Ok((rhs, m1)) => match take_bytes(m1) {
            Err(e) => Err(e),
            Ok((lhs, m2)) => if lhs.len() + rhs.len() > 4096 {
                Err(AvmError::BytesTooLong)
            } else {
                Ok(pushed(m2, AvmValue::Bytes(lhs + rhs)))
            },
        },
    }
}

/// The shared core of the substring opcodes: pushes `bytes[start..end]`,
/// rejecting a reversed or out-of-range window.
pub open spec fn substring_sem(
    m: MachineModel,
    bytes: Seq<u8>,
    start: usize,
    end: usize,
) -> Result<MachineModel, AvmError> {
    if end < start || end > bytes.len() {
        Err(AvmError::InvalidSubstringAccess(start, end, bytes.len() as usize))
    } else {
        Ok(pushed(m, AvmValue::Bytes(bytes.subrange(start as int, end as int))))
    }
}

/// `substring`: pops the byte string, then reads the window bounds as two
/// one-byte immediates.
pub open spec fn step_substring(m: MachineModel) -> Result<MachineModel, AvmError> {
    match take_bytes(m) {
        Err(e) => Err(e),
        Ok((bytes, m1)) => match fetch_byte(m1) {
            Err(e) => Err(e),
            Ok((start, m2)) => match fetch_byte(m2) {
                Err(e) => Err(e),
                Ok((end, m3)) => substring_sem(m3, bytes, start as usize, end as usize),
            },
        },
    }
}

/// `substring3`: pops the window end, the window start, and the byte string.
pub open spec fn step_substring3(m: MachineModel) -> Result<MachineModel, AvmError> {
    match take_u64(m) {
        Err(e) => Err(e),
        Ok((end, m1)) => match take_u64(m1) {
            Err(e) => Err(e),
            Ok((start, m2)) => match take_bytes(m2) {
                Err(e) => Err(e),
                Ok((bytes, m3)) => substring_sem(m3, bytes, start as usize, end as usize),
            },
        },
    }
}

/// `pushbytes`: pushes a length-prefixed byte-string immediate.
pub open spec fn step_pushbytes(m: MachineModel) -> Result<MachineModel, AvmError> {
    match fetch_varbytes(m) {
        Err(e) => Err(e),
        Ok((b, m1)) => Ok(pushed(m1, AvmValue::Bytes(b))),
    }
}

/// `pushint`: pushes a variable-length integer immediate.
pub open spec fn step_pushint(m: MachineModel) -> Result<MachineModel, AvmError> {
    match fetch_varint(m) {
        Err(e) => Err(e),
        Ok((v, m1)) => Ok(pushed(m1, AvmValue::Uint64(v))),
    }
}

/// Whether a byte names an opcode of the catalog, at any version.
pub open spec fn op_known(op: u8) -> bool {
    ||| op == 0x00
    ||| 0x08 <= op <= 0x2b
    ||| op == 0x34
    ||| op == 0x35
    ||| op == 0x3e
    ||| op == 0x3f
    ||| 0x40 <= op <= 0x52
    ||| op == 0x80
    ||| op == 0x81
}

/// The version in which an opcode entered the catalog.
pub open spec fn op_min_version(op: u8) -> int {
    if op == 0x1e || op == 0x41 || op == 0x42 || op == 0x43 || op == 0x4a || op == 0x50 || op
        == 0x51 || op == 0x52 {
        2
    } else if op == 0x44 || op == 0x4b || op == 0x4c || op == 0x4d || op == 0x80 || op == 0x81 {
        3
    } else if op == 0x1f {
        4
    } else if op == 0x3e || op == 0x3f || op == 0x4e || op == 0x4f {
        5
    } else if op == 0x45 || op == 0x46 || op == 0x47 {
        8
    } else {
        1
    }
}

/// The cost an opcode adds to the execution budget.
pub open spec fn op_cost(op: u8) -> nat {
    if op == 0x1f {
        20
    } else {
        1
    }
}

/// The effect of one opcode on a machine whose counter already points past
/// the opcode byte.
pub open spec fn step_op(op: u8, m: MachineModel) -> Result<MachineModel, AvmError> {
    if op == 0x00 {
        step_err(m)
    } else if op == 0x08 {
        step_plus(m)
    } else if op == 0x09 {
        step_minus(m)
    } else if op == 0x0a {
        step_div(m)
    } else if op == 0x0b {
        step_mul(m)
    } else if op == 0x0c {
        step_lt(m)
    } else if op == 0x0d {
        step_gt(m)
    } else if op == 0x0e {
        step_leq(m)
    } else if op == 0x0f {
        step_geq(m)
    } else if op == 0x10 {
        step_and(m)
    } else if op == 0x11 {
        step_or(m)
    } else if op == 0x12 {
        step_eq(m)
    } else if op == 0x13 {
        step_neq(m)
    } else if op == 0x14 {
        step_neg(m)
    } else if op == 0x15 {
        step_len(m)
    } else if op == 0x16 {
        step_itob(m)
    } else if op == 0x17 {
        step_btoi(m)
    } else if op == 0x18 {
        step_mod(m)
    } else if op == 0x19 {
        step_bit_or(m)
    } else if op == 0x1a {
        step_bit_and(m)
    } else if op == 0x1b {
        step_bit_xor(m)
    } else if op == 0x1c {
        step_bit_not(m)
    } else if op == 0x1d {
        step_mulw(m)
    } else if op == 0x1e {
        step_addw(m)
    } else if op == 0x1f {
        step_divmodw(m)
    } else if op == 0x20 {
        step_intcblock(m)
    } else if op == 0x21 {
        step_intc(m)
    } else if op == 0x22 {
        step_intc_n(m, 0)
    } else if op == 0x23 {
        step_intc_n(m, 1)
    } else if op == 0x24 {
        step_intc_n(m, 2)
    } else if op == 0x25 {
        step_intc_n(m, 3)
    } else if op == 0x26 {
        step_bytecblock(m)
    } else if op == 0x27 {
        step_bytec(m)
    } else if op == 0x28 {
        step_bytec_n(m, 0)
    } else if op == 0x29 {
        step_bytec_n(m, 1)
    } else if op == 0x2a {
        step_bytec_n(m, 2)
    } else if op == 0x2b {
        step_bytec_n(m, 3)
    } else if op == 0x34 {
        step_load(m)
    } else if op == 0x35 {
        step_store(m)
    } else if op == 0x3e {
        step_loads(m)
    } else if op == 0x3f {
        step_stores(m)
    } else if op == 0x40 {
        step_bnz(m)
    } else if op == 0x41 {
        step_bz(m)
    } else if op == 0x42 {
        step_b(m)
    } else if op == 0x43 {
        step_return(m)
    } else if op == 0x44 {
        step_assert(m)
    } else if op == 0x45 {
        step_bury(m)
    } else if op == 0x46 {
        step_popn(m)
    } else if op == 0x47 {
        step_dupn(m)
    } else if op == 0x48 {
        step_pop(m)
    } else if op == 0x49 {
        step_dup(m)
    } else if op == 0x4a {
        step_dup2(m)
    } else if op == 0x4b {
        step_dig(m)
    } else if op == 0x4c {
        step_swap(m)
    } else if op == 0x4d {
        step_select(m)
    } else if op == 0x4e {
        step_cover(m)
    } else if op == 0x4f {
        step_uncover(m)
    } else if op == 0x50 {
        step_concat(m)
    } else if op == 0x51 {
        step_substring(m)
    } else if op == 0x52 {
        step_substring3(m)
    } else if op == 0x80 {
        step_pushbytes(m)
    } else {
        step_pushint(m)
    }
}

/// The cost budget: an execution stops, without error, once its accumulated
/// cost reaches this bound.
pub const BUDGET: u64 = 700;

/// The evaluation loop from state `m` with `cost` already spent: while the
/// budget is open and the counter is inside the program, fetch one opcode,
/// gate it by version, take its step, and charge its cost.  Returns the
/// final state and total cost, or the first error.
pub open spec fn run_from(m: MachineModel, cost: nat) -> Result<(MachineModel, nat), AvmError>
    decreases (if cost < 700 {
        700 - cost
    } else {
        0int
    }),
{
    if cost >= BUDGET || m.pc >= m.program.len() {
        Ok((m, cost))
    } else {
        let op = m.program[m.pc];
        if !op_known(op) || op_min_version(op) > m.version {
            Err(AvmError::UnknownOpcode(op))
        } else {
            match step_op(op, MachineModel { pc: m.pc + 1, ..m }) {
                Err(e) => Err(e),
                Ok(m2) => run_from(m2, cost + op_cost(op)),
            }
        }
    }
}

/// The complete run of a machine, from a fresh state with nothing spent.
pub open spec fn run(m: MachineModel) -> Result<(MachineModel, nat), AvmError> {
    run_from(m, 0)
}

/// The machine state constructed for a program before anything has run: the
/// counter past the version byte, empty stack and constant tables, and every
/// scratch slot holding the integer zero.
pub open spec fn initial_model(program: Seq<u8>) -> MachineModel {
    MachineModel {
        program,
        pc: 1,
        version: program[0] as int,
        stack: Seq::empty(),
        scratch: Seq::new(256, |i: int| AvmValue::Uint64(0)),
        intc: Seq::empty(),
        bytec: Seq::empty(),
    }
}

/// Relates an executable step to its model: on a successful model step the
/// call succeeded and left the modelled state; on a failing one the call
/// returned exactly that error.
pub open spec fn steps_to(
    s: Result<MachineModel, AvmError>,
    m: MachineModel,
    r: Result<(), AvmError>,
) -> bool {
    match s {
        Ok(m2) => r == Ok::<(), AvmError>(()) && m == m2,
        Err(e) => r == Err::<(), AvmError>(e),
    }
}

} // verus!
