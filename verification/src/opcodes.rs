//! The opcode catalog and one handler per opcode, each verified against its
//! step function in the model.

use crate::avm::{Avm, AvmData, AvmVersion};
use crate::model::{
    be_bytes, be_val, check_eq_m, lemma_pow256_increases, lemma_pow256_values, op_cost, op_known, op_min_version, pow256,
    step_addw, step_assert, step_b, step_bit_and, step_bit_not, step_bit_or, step_bit_xor,
    step_bnz, step_btoi, step_bury, step_bytec, step_bytec_n, step_bytecblock, step_bz,
    step_concat, step_cover, step_dig, step_div, step_divmodw, step_dup, step_dup2, step_dupn,
    step_eq, step_err, step_geq, step_gt, step_intc, step_intc_n, step_intcblock, step_itob,
    step_len, step_leq, step_load, step_loads, step_lt, step_minus, step_mod, step_mul, step_mulw,
    step_neg, step_neq, step_or, step_plus, step_pop, step_popn, step_pushbytes, step_pushint,
    step_return, step_select, step_store, step_stores, step_substring, step_substring3, step_swap,
    step_uncover, steps_to, substring_sem, apply_branch, fetch_intc_list, fetch_bytec_list,
    step_and, AvmValue, MachineModel,
};
use crate::AvmError;
use vstd::prelude::*;

verus! {

broadcast use vstd::std_specs::control_flow::group_control_flow_axioms;

/// One entry of the opcode catalog: the opcode byte, its mnemonic, its cost,
/// and the revision that introduced it.
pub struct OpSpec {
    /// The opcode byte.
    pub opcode: u8,
    /// The mnemonic, as written in assembly listings.
    pub name: &'static str,
    /// What the opcode adds to the accumulated cost.
    pub cost: u64,
    /// The revision that introduced the opcode; earlier programs treat the
    /// byte as unknown.
    pub version: AvmVersion,
}

/// Looks an opcode byte up in the catalog, ignoring the version gate.
pub fn lookup_spec(opcode: u8) -> (r: Option<OpSpec>)
    ensures
        r is Some <==> op_known(opcode),
        r matches Some(s) ==> s.opcode == opcode && s.cost as nat == op_cost(opcode)
            && s.version.as_int() == op_min_version(opcode) && 1 <= s.cost <= 20,
{
    match opcode {
        0x00 => Some(OpSpec { opcode, name: "err", cost: 1, version: AvmVersion::V1 }),
        0x08 => Some(OpSpec { opcode, name: "+", cost: 1, version: AvmVersion::V1 }),
        0x09 => Some(OpSpec { opcode, name: "-", cost: 1, version: AvmVersion::V1 }),
        0x0a => Some(OpSpec { opcode, name: "/", cost: 1, version: AvmVersion::V1 }),
        0x0b => Some(OpSpec { opcode, name: "*", cost: 1, version: AvmVersion::V1 }),
        0x0c => Some(OpSpec { opcode, name: "<", cost: 1, version: AvmVersion::V1 }),
        0x0d => Some(OpSpec { opcode, name: ">", cost: 1, version: AvmVersion::V1 }),
        0x0e => Some(OpSpec { opcode, name: "<=", cost: 1, version: AvmVersion::V1 }),
        0x0f => Some(OpSpec { opcode, name: ">=", cost: 1, version: AvmVersion::V1 }),
        0x10 => Some(OpSpec { opcode, name: "&&", cost: 1, version: AvmVersion::V1 }),
        0x11 => Some(OpSpec { opcode, name: "||", cost: 1, version: AvmVersion::V1 }),
        0x12 => Some(OpSpec { opcode, name: "==", cost: 1, version: AvmVersion::V1 }),
        0x13 => Some(OpSpec { opcode, name: "!=", cost: 1, version: AvmVersion::V1 }),
        0x14 => Some(OpSpec { opcode, name: "!", cost: 1, version: AvmVersion::V1 }),
        0x15 => Some(OpSpec { opcode, name: "len", cost: 1, version: AvmVersion::V1 }),
        0x16 => Some(OpSpec { opcode, name: "itob", cost: 1, version: AvmVersion::V1 }),
        0x17 => Some(OpSpec { opcode, name: "btoi", cost: 1, version: AvmVersion::V1 }),
        0x18 => Some(OpSpec { opcode, name: "%", cost: 1, version: AvmVersion::V1 }),
        0x19 => Some(OpSpec { opcode, name: "|", cost: 1, version: AvmVersion::V1 }),
        0x1a => Some(OpSpec { opcode, name: "&", cost: 1, version: AvmVersion::V1 }),
        0x1b => Some(OpSpec { opcode, name: "^", cost: 1, version: AvmVersion::V1 }),
        0x1c => Some(OpSpec { opcode, name: "~", cost: 1, version: AvmVersion::V1 }),
        0x1d => Some(OpSpec { opcode, name: "mulw", cost: 1, version: AvmVersion::V1 }),
        0x1e => Some(OpSpec { opcode, name: "addw", cost: 1, version: AvmVersion::V2 }),
        0x1f => Some(OpSpec { opcode, name: "divmodw", cost: 20, version: AvmVersion::V4 }),
        0x20 => Some(OpSpec { opcode, name: "intcblock", cost: 1, version: AvmVersion::V1 }),
        0x21 => Some(OpSpec { opcode, name: "intc", cost: 1, version: AvmVersion::V1 }),
        0x22 => Some(OpSpec { opcode, name: "intc_0", cost: 1, version: AvmVersion::V1 }),
        0x23 => Some(OpSpec { opcode, name: "intc_1", cost: 1, version: AvmVersion::V1 }),
        0x24 => Some(OpSpec { opcode, name: "intc_2", cost: 1, version: AvmVersion::V1 }),
        0x25 => Some(OpSpec { opcode, name: "intc_3", cost: 1, version: AvmVersion::V1 }),
        0x26 => Some(OpSpec { opcode, name: "bytecblock", cost: 1, version: AvmVersion::V1 }),
        0x27 => Some(OpSpec { opcode, name: "bytec", cost: 1, version: AvmVersion::V1 }),
        0x28 => Some(OpSpec { opcode, name: "bytec_0", cost: 1, version: AvmVersion::V1 }),
        0x29 => Some(OpSpec { opcode, name: "bytec_1", cost: 1, version: AvmVersion::V1 }),
        0x2a => Some(OpSpec { opcode, name: "bytec_2", cost: 1, version: AvmVersion::V1 }),
        0x2b => Some(OpSpec { opcode, name: "bytec_3", cost: 1, version: AvmVersion::V1 }),
        0x34 => Some(OpSpec { opcode, name: "load", cost: 1, version: AvmVersion::V1 }),
        0x35 => Some(OpSpec { opcode, name: "store", cost: 1, version: AvmVersion::V1 }),
        0x3e => Some(OpSpec { opcode, name: "loads", cost: 1, version: AvmVersion::V5 }),
        0x3f => Some(OpSpec { opcode, name: "stores", cost: 1, version: AvmVersion::V5 }),
        0x40 => Some(OpSpec { opcode, name: "bnz", cost: 1, version: AvmVersion::V1 }),
        0x41 => Some(OpSpec { opcode, name: "bz", cost: 1, version: AvmVersion::V2 }),
        0x42 => Some(OpSpec { opcode, name: "b", cost: 1, version: AvmVersion::V2 }),
        0x43 => Some(OpSpec { opcode, name: "return", cost: 1, version: AvmVersion::V2 }),
        0x44 => Some(OpSpec { opcode, name: "assert", cost: 1, version: AvmVersion::V3 }),
        0x45 => Some(OpSpec { opcode, name: "bury", cost: 1, version: AvmVersion::V8 }),
        0x46 => Some(OpSpec { opcode, name: "popn", cost: 1, version: AvmVersion::V8 }),
        0x47 => Some(OpSpec { opcode, name: "dupn", cost: 1, version: AvmVersion::V8 }),
        0x48 => Some(OpSpec { opcode, name: "pop", cost: 1, version: AvmVersion::V1 }),
        0x49 => Some(OpSpec { opcode, name: "dup", cost: 1, version: AvmVersion::V1 }),
        0x4a => Some(OpSpec { opcode, name: "dup2", cost: 1, version: AvmVersion::V2 }),
        0x4b => Some(OpSpec { opcode, name: "dig", cost: 1, version: AvmVersion::V3 }),
        0x4c => Some(OpSpec { opcode, name: "swap", cost: 1, version: AvmVersion::V3 }),
        0x4d => Some(OpSpec { opcode, name: "select", cost: 1, version: AvmVersion::V3 }),
        0x4e => Some(OpSpec { opcode, name: "cover", cost: 1, version: AvmVersion::V5 }),
        0x4f => Some(OpSpec { opcode, name: "uncover", cost: 1, version: AvmVersion::V5 }),
        0x50 => Some(OpSpec { opcode, name: "concat", cost: 1, version: AvmVersion::V2 }),
        0x51 => Some(OpSpec { opcode, name: "substring", cost: 1, version: AvmVersion::V2 }),
        0x52 => Some(OpSpec { opcode, name: "substring3", cost: 1, version: AvmVersion::V2 }),
        0x80 => Some(OpSpec { opcode, name: "pushbytes", cost: 1, version: AvmVersion::V3 }),
        0x81 => Some(OpSpec { opcode, name: "pushint", cost: 1, version: AvmVersion::V3 }),
        _ => None,
    }
}

/// The `err` opcode: fails unconditionally.
pub(crate) fn op_err(avm: &mut Avm) -> (r: Result<(), AvmError>)
    requires
        old(avm).wf(),
    ensures
        final(avm).wf(),
        steps_to(step_err(old(avm)@), final(avm)@, r),
{
    Err(AvmError::ErrOpCode)
}

/// Checked addition.
pub(crate) fn op_plus(avm: &mut Avm) -> (r: Result<(), AvmError>)
    requires
        old(avm).wf(),
    ensures
        final(avm).wf(),
        steps_to(step_plus(old(avm)@), final(avm)@, r),
{
    let rhs = avm.pop_uint64()?;
    let lhs = avm.pop_uint64()?;
    match lhs.checked_add(rhs) {
        Some(res) => {
            avm.push_value(AvmData::Uint64(res));
            Ok(())
        },
        None => Err(AvmError::IntegerOverflow),
    }
}

/// Checked subtraction.
pub(crate) fn op_minus(avm: &mut Avm) -> (r: Result<(), AvmError>)
    requires
        old(avm).wf(),
    ensures
        final(avm).wf(),
        steps_to(step_minus(old(avm)@), final(avm)@, r),
{
    let rhs = avm.pop_uint64()?;
    let lhs = avm.pop_uint64()?;
    match lhs.checked_sub(rhs) {
        Some(res) => {
            avm.push_value(AvmData::Uint64(res));
            Ok(())
        },
        None => Err(AvmError::IntegerUnderflow),
    }
}

/// Truncated division.
pub(crate) fn op_div(avm: &mut Avm) -> (r: Result<(), AvmError>)
    requires
        old(avm).wf(),
    ensures
        final(avm).wf(),
        steps_to(step_div(old(avm)@), final(avm)@, r),
{
    let rhs = avm.pop_uint64()?;
    let lhs = avm.pop_uint64()?;
    match lhs.checked_div(rhs) {
        Some(res) => {
            avm.push_value(AvmData::Uint64(res));
            Ok(())
        },
        None => Err(AvmError::DivisionByZero),
    }
}

/// Checked multiplication.
pub(crate) fn op_mul(avm: &mut Avm) -> (r: Result<(), AvmError>)
    requires
        old(avm).wf(),
    ensures
        final(avm).wf(),
        steps_to(step_mul(old(avm)@), final(avm)@, r),
{
    let rhs = avm.pop_uint64()?;
    let lhs = avm.pop_uint64()?;
    match lhs.checked_mul(rhs) {
        Some(res) => {
            avm.push_value(AvmData::Uint64(res));
            Ok(())
        },
        None => Err(AvmError::IntegerOverflow),
    }
}

/// Remainder.
pub(crate) fn op_mod(avm: &mut Avm) -> (r: Result<(), AvmError>)
    requires
        old(avm).wf(),
    ensures
        final(avm).wf(),
        steps_to(step_mod(old(avm)@), final(avm)@, r),
{
    let rhs = avm.pop_uint64()?;
    let lhs = avm.pop_uint64()?;
    match lhs.checked_rem(rhs) {
        Some(res) => {
            avm.push_value(AvmData::Uint64(res));
            Ok(())
        },
        None => Err(AvmError::DivisionByZero),
    }
}

/// Pushes the machine's boolean coercion of `b`.
fn push_bool(avm: &mut Avm, b: bool)
    requires
        old(avm).wf(),
    ensures
        final(avm).wf(),
        final(avm)@ == crate::model::pushed(old(avm)@, crate::model::from_bool(b)),
{
    avm.push_value(AvmData::from(b));
}

/// `lhs < rhs`.
pub(crate) fn op_lt(avm: &mut Avm) -> (r: Result<(), AvmError>)
    requires
        old(avm).wf(),
    ensures
        final(avm).wf(),
        steps_to(step_lt(old(avm)@), final(avm)@, r),
{
    let rhs = avm.pop_uint64()?;
    let lhs = avm.pop_uint64()?;
    push_bool(avm, lhs < rhs);
    Ok(())
}

/// `lhs > rhs`.
pub(crate) fn op_gt(avm: &mut Avm) -> (r: Result<(), AvmError>)
    requires
        old(avm).wf(),
    ensures
        final(avm).wf(),
        steps_to(step_gt(old(avm)@), final(avm)@, r),
{
    let rhs = avm.pop_uint64()?;
    let lhs = avm.pop_uint64()?;
    push_bool(avm, lhs > rhs);
    Ok(())
}

/// `lhs <= rhs`.
pub(crate) fn op_leq(avm: &mut Avm) -> (r: Result<(), AvmError>)
    requires
        old(avm).wf(),
    ensures
        final(avm).wf(),
        steps_to(step_leq(old(avm)@), final(avm)@, r),
{
    let rhs = avm.pop_uint64()?;
    let lhs = avm.pop_uint64()?;
    push_bool(avm, lhs <= rhs);
    Ok(())
}

/// `lhs >= rhs`.
pub(crate) fn op_geq(avm: &mut Avm) -> (r: Result<(), AvmError>)
    requires
        old(avm).wf(),
    ensures
        final(avm).wf(),
        steps_to(step_geq(old(avm)@), final(avm)@, r),
{
    let rhs = avm.pop_uint64()?;
    let lhs = avm.pop_uint64()?;
    push_bool(avm, lhs >= rhs);
    Ok(())
}

/// Logical conjunction of two integers.
pub(crate) fn op_and(avm: &mut Avm) -> (r: Result<(), AvmError>)
    requires
        old(avm).wf(),
    ensures
        final(avm).wf(),
        steps_to(step_and(old(avm)@), final(avm)@, r),
{
    let rhs = avm.pop_uint64()?;
    let lhs = avm.pop_uint64()?;
    push_bool(avm, lhs != 0 && rhs != 0);
    Ok(())
}

/// Logical disjunction of two integers.
pub(crate) fn op_or(avm: &mut Avm) -> (r: Result<(), AvmError>)
    requires
        old(avm).wf(),
    ensures
        final(avm).wf(),
        steps_to(step_or(old(avm)@), final(avm)@, r),
{
    let rhs = avm.pop_uint64()?;
    let lhs = avm.pop_uint64()?;
    push_bool(avm, lhs != 0 || rhs != 0);
    Ok(())
}

/// Compares two byte vectors for equal contents.
fn bytes_equal(a: &Vec<u8>, b: &Vec<u8>) -> (r: bool)
    ensures
        r == (a@ == b@),
{
    if a.len() != b.len() {
        return false;
    }
    let mut i: usize = 0;
    while i < a.len()
        invariant
            i <= a.len(),
            a@.len() == b@.len(),
            forall|j: int| 0 <= j < i ==> a@[j] == b@[j],
        decreases a.len() - i,
    {
        if a[i] != b[i] {
            return false;
        }
        i = i + 1;
    }
    proof {
        assert(a@ =~= b@);
    }
    true
}

/// Same-tag equality of two values; a mixed pair is a type error.
pub(crate) fn check_eq(lhs: AvmData, rhs: AvmData) -> (r: Result<bool, AvmError>)
    ensures
        r == check_eq_m(lhs@, rhs@),
{
    match (lhs, rhs) {
        (AvmData::Uint64(l), AvmData::Uint64(r)) => Ok(l == r),
        (AvmData::Bytes(l), AvmData::Bytes(r)) => Ok(bytes_equal(&l, &r)),
        (AvmData::Uint64(_), AvmData::Bytes(_)) => Err(
            AvmError::IncompatibleTypes(
                crate::LABEL_PAIR_UINT64_BYTES,
                crate::LABEL_PAIR_SAME_TAG,
            ),
        ),
        (AvmData::Bytes(_), AvmData::Uint64(_)) => Err(
            AvmError::IncompatibleTypes(
                crate::LABEL_PAIR_BYTES_UINT64,
                crate::LABEL_PAIR_SAME_TAG,
            ),
        ),
    }
}

/// Same-tag equality.
pub(crate) fn op_eq(avm: &mut Avm) -> (r: Result<(), AvmError>)
    requires
        old(avm).wf(),
    ensures
        final(avm).wf(),
        steps_to(step_eq(old(avm)@), final(avm)@, r),
{
    let rhs = avm.pop_any()?;
    let lhs = avm.pop_any()?;
    let res = match check_eq(lhs, rhs) {
        Ok(b) => b,
        Err(e) => {
            return Err(e);
        },
    };
    push_bool(avm, res);
    Ok(())
}

/// Same-tag inequality.
pub(crate) fn op_neq(avm: &mut Avm) -> (r: Result<(), AvmError>)
    requires
        old(avm).wf(),
    ensures
        final(avm).wf(),
        steps_to(step_neq(old(avm)@), final(avm)@, r),
{
    let rhs = avm.pop_any()?;
    let lhs = avm.pop_any()?;
    let res = match check_eq(lhs, rhs) {
        Ok(b) => b,
        Err(e) => {
            return Err(e);
        },
    };
    push_bool(avm, !res);
    Ok(())
}

/// Logical negation of one integer.
pub(crate) fn op_neg(avm: &mut Avm) -> (r: Result<(), AvmError>)
    requires
        old(avm).wf(),
    ensures
        final(avm).wf(),
        steps_to(step_neg(old(avm)@), final(avm)@, r),
{
    let value = avm.pop_uint64()?;
    push_bool(avm, value == 0);
    Ok(())
}

/// The length of a byte string.
pub(crate) fn op_len(avm: &mut Avm) -> (r: Result<(), AvmError>)
    requires
        old(avm).wf(),
    ensures
        final(avm).wf(),
        steps_to(step_len(old(avm)@), final(avm)@, r),
{
    let value = avm.pop_bytes()?;
    avm.push_value(AvmData::Uint64(value.len() as u64));
    Ok(())
}

/// Builds the `n`-byte big-endian encoding of `v`, least-significant last.
fn itob_bytes(v: u64, n: usize) -> (r: Vec<u8>)
    ensures
        r@ == be_bytes(v as nat, n as nat),
    decreases n,
{
    if n == 0 {
        let r: Vec<u8> = Vec::new();
        proof {
            assert(r@ =~= be_bytes(v as nat, 0));
        }
        r
    } else {
        let mut r = itob_bytes(v / 256, n - 1);
        r.push((v % 256) as u8);
        r
    }
}

/// `itob`: the 8-byte big-endian encoding of an integer.
pub(crate) fn op_itob(avm: &mut Avm) -> (r: Result<(), AvmError>)
    requires
        old(avm).wf(),
    ensures
        final(avm).wf(),
        steps_to(step_itob(old(avm)@), final(avm)@, r),
{
    let value = avm.pop_uint64()?;
    let bytes = itob_bytes(value, 8);
    proof {
        crate::model::lemma_be_bytes_len(value as nat, 8);
    }
    avm.push_value(AvmData::Bytes(bytes));
    Ok(())
}

/// `btoi`: a byte string of at most 8 bytes read as a big-endian integer.
pub(crate) fn op_btoi(avm: &mut Avm) -> (r: Result<(), AvmError>)
    requires
        old(avm).wf(),
    ensures
        final(avm).wf(),
        steps_to(step_btoi(old(avm)@), final(avm)@, r),
{
    let value = avm.pop_bytes()?;
    if value.len() > 8 {
        return Err(AvmError::BtoiTooLong(value.len()));
    }
    let mut result: u64 = 0;
    let mut i: usize = 0;
    proof {
        lemma_pow256_values();
    }
    while i < value.len()
        invariant
            i <= value@.len() <= 8,
            result == be_val(value@.take(i as int)),
            result < pow256(i as nat),
            pow256(7) == 0x100000000000000,
            pow256(8) == 0x10000000000000000,
        decreases value@.len() - i,
    {
        proof {
            lemma_pow256_increases(i as nat, 7);
            assert(value@.take(i + 1).drop_last() =~= value@.take(i as int));
            assert(value@.take(i + 1).last() == value@[i as int]);
        }
        result = result * 256 + (value[i] as u64);
        i = i + 1;
    }
    proof {
        assert(value@.take(value@.len() as int) =~= value@);
    }
    avm.push_value(AvmData::Uint64(result));
    Ok(())
}

/// Bitwise or.
pub(crate) fn op_bit_or(avm: &mut Avm) -> (r: Result<(), AvmError>)
    requires
        old(avm).wf(),
    ensures
        final(avm).wf(),
        steps_to(step_bit_or(old(avm)@), final(avm)@, r),
{
    let rhs = avm.pop_uint64()?;
    let lhs = avm.pop_uint64()?;
    avm.push_value(AvmData::Uint64(lhs | rhs));
    Ok(())
}

/// Bitwise and.
pub(crate) fn op_bit_and(avm: &mut Avm) -> (r: Result<(), AvmError>)
    requires
        old(avm).wf(),
    ensures
        final(avm).wf(),
        steps_to(step_bit_and(old(avm)@), final(avm)@, r),
{
    let rhs = avm.pop_uint64()?;
    let lhs = avm.pop_uint64()?;
    avm.push_value(AvmData::Uint64(lhs & rhs));
    Ok(())
}

/// Bitwise exclusive or.
pub(crate) fn op_bit_xor(avm: &mut Avm) -> (r: Result<(), AvmError>)
    requires
        old(avm).wf(),
    ensures
        final(avm).wf(),
        steps_to(step_bit_xor(old(avm)@), final(avm)@, r),
{
    let rhs = avm.pop_uint64()?;
    let lhs = avm.pop_uint64()?;
    avm.push_value(AvmData::Uint64(lhs ^ rhs));
    Ok(())
}

/// Bitwise complement.
pub(crate) fn op_bit_not(avm: &mut Avm) -> (r: Result<(), AvmError>)
    requires
        old(avm).wf(),
    ensures
        final(avm).wf(),
        steps_to(step_bit_not(old(avm)@), final(avm)@, r),
{
    let value = avm.pop_uint64()?;
    avm.push_value(AvmData::Uint64(!value));
    Ok(())
}

/// `mulw`: the 128-bit product of two integers, high then low.
pub(crate) fn op_mulw(avm: &mut Avm) -> (r: Result<(), AvmError>)
    requires
        old(avm).wf(),
    ensures
        final(avm).wf(),
        steps_to(step_mulw(old(avm)@), final(avm)@, r),
{
    let b = avm.pop_uint64()?;
    let a = avm.pop_uint64()?;
    proof {
        assert((a as int) * (b as int) <= 0xffffffffffffffff * 0xffffffffffffffff)
            by (nonlinear_arith)
            requires
                a <= 0xffffffffffffffffu64,
                b <= 0xffffffffffffffffu64,
        ;
    }
    let p: u128 = (a as u128) * (b as u128);
    avm.push_value(AvmData::Uint64((p / 0x10000000000000000) as u64));
    avm.push_value(AvmData::Uint64((p % 0x10000000000000000) as u64));
    Ok(())
}

/// `addw`: the 128-bit sum of two integers, high then low.
pub(crate) fn op_addw(avm: &mut Avm) -> (r: Result<(), AvmError>)
    requires
        old(avm).wf(),
    ensures
        final(avm).wf(),
        steps_to(step_addw(old(avm)@), final(avm)@, r),
{
    let b = avm.pop_uint64()?;
    let a = avm.pop_uint64()?;
    let p: u128 = (a as u128) + (b as u128);
    avm.push_value(AvmData::Uint64((p / 0x10000000000000000) as u64));
    avm.push_value(AvmData::Uint64((p % 0x10000000000000000) as u64));
    Ok(())
}

/// `divmodw`: 128-bit division and remainder of `(a<<64)|b` by `(c<<64)|d`.
pub(crate) fn op_divmodw(avm: &mut Avm) -> (r: Result<(), AvmError>)
    requires
        old(avm).wf(),
    ensures
        final(avm).wf(),
        steps_to(step_divmodw(old(avm)@), final(avm)@, r),
{
    let d = avm.pop_uint64()?;
    let c = avm.pop_uint64()?;
    let b = avm.pop_uint64()?;
    let a = avm.pop_uint64()?;
    let ab: u128 = (a as u128) * 0x10000000000000000 + (b as u128);
    let cd: u128 = (c as u128) * 0x10000000000000000 + (d as u128);
    if cd == 0 {
        return Err(AvmError::DivisionByZero);
    }
    let q = ab / cd;
    let rem = ab % cd;
    avm.push_value(AvmData::Uint64((q / 0x10000000000000000) as u64));
    avm.push_value(AvmData::Uint64((q % 0x10000000000000000) as u64));
    avm.push_value(AvmData::Uint64((rem / 0x10000000000000000) as u64));
    avm.push_value(AvmData::Uint64((rem % 0x10000000000000000) as u64));
    Ok(())
}

/// `intcblock`: decodes a count and that many integers, replacing the
/// integer-constant table wholesale.
pub(crate) fn op_intcblock(avm: &mut Avm) -> (r: Result<(), AvmError>)
    requires
        old(avm).wf(),
    ensures
        final(avm).wf(),
        steps_to(step_intcblock(old(avm)@), final(avm)@, r),
{
    let nintegers = avm.read_varint()?;
    let ghost m1 = avm@;
    let mut table: Vec<u64> = Vec::new();
    let mut j: u64 = 0;
    while j < nintegers.value
        invariant
            avm.wf(),
            j <= nintegers.value,
            crate::model::fetch_varint(old(avm)@) == Ok::<(u64, MachineModel), AvmError>(
                (nintegers.value, m1),
            ),
            fetch_intc_list(m1, nintegers.value as nat, Seq::empty()) == fetch_intc_list(
                avm@,
                (nintegers.value - j) as nat,
                table@,
            ),
        decreases nintegers.value - j,
    {
        let number = match avm.read_varint() {
            Ok(n) => n,
            Err(e) => {
                return Err(e);
            },
        };
        table.push(number.value);
        j = j + 1;
    }
    let ghost m_end = avm@;
    avm.intc = table;
    proof {
        assert(avm@ =~= (MachineModel { intc: avm@.intc, ..m_end }));
    }
    Ok(())
}

/// Pushes the integer constant at `idx`, if the table reaches it.
pub(crate) fn op_intc_n(avm: &mut Avm, idx: usize) -> (r: Result<(), AvmError>)
    requires
        old(avm).wf(),
    ensures
        final(avm).wf(),
        steps_to(step_intc_n(old(avm)@, idx), final(avm)@, r),
{
    if idx < avm.intc.len() {
        let val = avm.intc[idx];
        avm.push_value(AvmData::Uint64(val));
        Ok(())
    } else {
        Err(AvmError::IntcOutOfRange(idx, avm.intc.len()))
    }
}

/// `intc`: an integer-constant load whose index is a varint immediate.
pub(crate) fn op_intc(avm: &mut Avm) -> (r: Result<(), AvmError>)
    requires
        old(avm).wf(),
    ensures
        final(avm).wf(),
        steps_to(step_intc(old(avm)@), final(avm)@, r),
{
    let idx = avm.read_varint()?;
    op_intc_n(avm, #[verifier::truncate] (idx.value as usize))
}

/// `intc_0`: pushes the first integer constant.
pub(crate) fn op_intc_0(avm: &mut Avm) -> (r: Result<(), AvmError>)
    requires
        old(avm).wf(),
    ensures
        final(avm).wf(),
        steps_to(step_intc_n(old(avm)@, 0), final(avm)@, r),
{
    op_intc_n(avm, 0)
}

/// `intc_1`: pushes the second integer constant.
pub(crate) fn op_intc_1(avm: &mut Avm) -> (r: Result<(), AvmError>)
    requires
        old(avm).wf(),
    ensures
        final(avm).wf(),
        steps_to(step_intc_n(old(avm)@, 1), final(avm)@, r),
{
    op_intc_n(avm, 1)
}

/// `intc_2`: pushes the third integer constant.
pub(crate) fn op_intc_2(avm: &mut Avm) -> (r: Result<(), AvmError>)
    requires
        old(avm).wf(),
    ensures
        final(avm).wf(),
        steps_to(step_intc_n(old(avm)@, 2), final(avm)@, r),
{
    op_intc_n(avm, 2)
}

/// `intc_3`: pushes the fourth integer constant.
pub(crate) fn op_intc_3(avm: &mut Avm) -> (r: Result<(), AvmError>)
    requires
        old(avm).wf(),
    ensures
        final(avm).wf(),
        steps_to(step_intc_n(old(avm)@, 3), final(avm)@, r),
{
    op_intc_n(avm, 3)
}

/// `bytecblock`: decodes a count and that many byte strings, replacing the
/// byte-constant table wholesale.
pub(crate) fn op_bytecblock(avm: &mut Avm) -> (r: Result<(), AvmError>)
    requires
        old(avm).wf(),
    ensures
        final(avm).wf(),
        steps_to(step_bytecblock(old(avm)@), final(avm)@, r),
{
    let nbytes = avm.read_varint()?;
    let ghost m1 = avm@;
    let mut table: Vec<Vec<u8>> = Vec::new();
    proof {
        assert(crate::avm::table_view(table@) =~= Seq::<Seq<u8>>::empty());
    }
    let mut j: u64 = 0;
    while j < nbytes.value
        invariant
            avm.wf(),
            avm@.program == m1.program,
            j <= nbytes.value,
            crate::model::fetch_varint(old(avm)@) == Ok::<(u64, MachineModel), AvmError>(
                (nbytes.value, m1),
            ),
            fetch_bytec_list(m1, nbytes.value as nat, Seq::empty()) == fetch_bytec_list(
                avm@,
                (nbytes.value - j) as nat,
                crate::avm::table_view(table@),
            ),
            forall|k: int|
                0 <= k < table@.len() ==> (#[trigger] table@[k])@.len() <= crate::model::byte_cap(
                    m1,
                ),
        decreases nbytes.value - j,
    {
        let bytes = match avm.read_varbytes() {
            Ok(b) => b,
            Err(e) => {
                return Err(e);
            },
        };
        proof {
            crate::avm::lemma_table_view_push(table@, bytes.value);
        }
        table.push(bytes.value);
        j = j + 1;
    }
    let ghost m_end = avm@;
    avm.bytec = table;
    proof {
        assert(avm@ =~= (MachineModel { bytec: avm@.bytec, ..m_end }));
    }
    Ok(())
}

/// Pushes the byte constant at `idx`, if the table reaches it.
pub(crate) fn op_bytec_n(avm: &mut Avm, idx: usize) -> (r: Result<(), AvmError>)
    requires
        old(avm).wf(),
    ensures
        final(avm).wf(),
        steps_to(step_bytec_n(old(avm)@, idx), final(avm)@, r),
{
    if idx < avm.bytec.len() {
        let val = crate::avm::clone_bytes(&avm.bytec[idx]);
        avm.push_value(AvmData::Bytes(val));
        Ok(())
    } else {
        Err(AvmError::BytecOutOfRange(idx, avm.bytec.len()))
    }
}

/// `bytec`: a byte-constant load whose index is a varint immediate.
pub(crate) fn op_bytec(avm: &mut Avm) -> (r: Result<(), AvmError>)
    requires
        old(avm).wf(),
    ensures
        final(avm).wf(),
        steps_to(step_bytec(old(avm)@), final(avm)@, r),
{
    let idx = avm.read_varint()?;
    op_bytec_n(avm, #[verifier::truncate] (idx.value as usize))
}

/// `bytec_0`: pushes the first byte constant.
pub(crate) fn op_bytec_0(avm: &mut Avm) -> (r: Result<(), AvmError>)
    requires
        old(avm).wf(),
    ensures
        final(avm).wf(),
        steps_to(step_bytec_n(old(avm)@, 0), final(avm)@, r),
{
    op_bytec_n(avm, 0)
}

/// `bytec_1`: pushes the second byte constant.
pub(crate) fn op_bytec_1(avm: &mut Avm) -> (r: Result<(), AvmError>)
    requires
        old(avm).wf(),
    ensures
        final(avm).wf(),
        steps_to(step_bytec_n(old(avm)@, 1), final(avm)@, r),
{
    op_bytec_n(avm, 1)
}

/// `bytec_2`: pushes the third byte constant.
pub(crate) fn op_bytec_2(avm: &mut Avm) -> (r: Result<(), AvmError>)
    requires
        old(avm).wf(),
    ensures
        final(avm).wf(),
        steps_to(step_bytec_n(old(avm)@, 2), final(avm)@, r),
{
    op_bytec_n(avm, 2)
}

/// `bytec_3`: pushes the fourth byte constant.
pub(crate) fn op_bytec_3(avm: &mut Avm) -> (r: Result<(), AvmError>)
    requires
        old(avm).wf(),
    ensures
        final(avm).wf(),
        steps_to(step_bytec_n(old(avm)@, 3), final(avm)@, r),
{
    op_bytec_n(avm, 3)
}

/// `load`: pushes the scratch slot named by a one-byte immediate.  The slot
/// index needs no range check: scratch has 256 slots and the index is one
/// byte.
pub(crate) fn op_load(avm: &mut Avm) -> (r: Result<(), AvmError>)
    requires
        old(avm).wf(),
    ensures
        final(avm).wf(),
        steps_to(step_load(old(avm)@), final(avm)@, r),
{
    let pos = avm.read_byte()?;
    let val = avm.scratch[pos as usize].clone();
    avm.push_value(val);
    Ok(())
}

/// `store`: pops a value into the scratch slot named by a one-byte
/// immediate.
pub(crate) fn op_store(avm: &mut Avm) -> (r: Result<(), AvmError>)
    requires
        old(avm).wf(),
    ensures
        final(avm).wf(),
        steps_to(step_store(old(avm)@), final(avm)@, r),
{
    let pos = avm.read_byte()?;
    let val = avm.pop_any()?;
    let ghost m2 = avm@;
    avm.scratch[pos as usize] = val;
    proof {
        crate::avm::lemma_values_view_update(old(avm).scratch@, pos as int, val);
        assert(avm@ =~= (MachineModel { scratch: m2.scratch.update(pos as int, val@), ..m2 }));
    }
    Ok(())
}

/// `loads`: pushes the scratch slot named by a popped integer, which must be
/// below 256.
pub(crate) fn op_loads(avm: &mut Avm) -> (r: Result<(), AvmError>)
    requires
        old(avm).wf(),
    ensures
        final(avm).wf(),
        steps_to(step_loads(old(avm)@), final(avm)@, r),
{
    let pos = avm.pop_uint64()?;
    if pos >= 256 {
        return Err(AvmError::ScratchAccessOutOfBounds(#[verifier::truncate] (pos as usize)));
    }
    let val = avm.scratch[pos as usize].clone();
    avm.push_value(val);
    Ok(())
}

/// `stores`: pops a value, then a position below 256, and writes the value
/// into that scratch slot.
pub(crate) fn op_stores(avm: &mut Avm) -> (r: Result<(), AvmError>)
    requires
        old(avm).wf(),
    ensures
        final(avm).wf(),
        steps_to(step_stores(old(avm)@), final(avm)@, r),
{
    let value = avm.pop_any()?;
    let pos = avm.pop_uint64()?;
    if pos >= 256 {
        return Err(AvmError::ScratchAccessOutOfBounds(#[verifier::truncate] (pos as usize)));
    }
    let ghost m2 = avm@;
    avm.scratch[pos as usize] = value;
    proof {
        crate::avm::lemma_values_view_update(old(avm).scratch@, pos as int, value);
        assert(avm@ =~= (MachineModel { scratch: m2.scratch.update(pos as int, value@), ..m2 }));
    }
    Ok(())
}

/// Moves the counter by a signed offset, rejecting a target outside the
/// program and its end position.
pub(crate) fn branch_to_offset(avm: &mut Avm, offset: i32) -> (r: Result<(), AvmError>)
    requires
        old(avm).wf(),
        -0x8000 <= offset <= 0x7fff,
    ensures
        final(avm).wf(),
        steps_to(apply_branch(old(avm)@, offset as int), final(avm)@, r),
{
    if offset < 0 {
        let magnitude = (-offset) as usize;
        if magnitude > avm.pc {
            Err(AvmError::PcOutOfBounds)
        } else {
            avm.pc = avm.pc - magnitude;
            proof {
                assert(avm@ =~= (MachineModel {
                    pc: old(avm)@.pc + offset as int,
                    ..old(avm)@
                }));
            }
            Ok(())
        }
    } else {
        let magnitude = offset as usize;
        if magnitude > avm.program.len() - avm.pc {
            Err(AvmError::PcOutOfBounds)
        } else {
            avm.pc = avm.pc + magnitude;
            proof {
                assert(avm@ =~= (MachineModel {
                    pc: old(avm)@.pc + offset as int,
                    ..old(avm)@
                }));
            }
            Ok(())
        }
    }
}

/// `bnz`: reads the offset, pops a condition, and branches when it is
/// nonzero.  The offset is read before the condition so the counter moves
/// past it even when the branch is not taken.
pub(crate) fn op_bnz(avm: &mut Avm) -> (r: Result<(), AvmError>)
    requires
        old(avm).wf(),
    ensures
        final(avm).wf(),
        steps_to(step_bnz(old(avm)@), final(avm)@, r),
{
    let offset = avm.read_i16()?;
    if avm.pop_uint64()? != 0 {
        branch_to_offset(avm, offset)
    } else {
        Ok(())
    }
}

/// `bz`: as `bnz`, but branches when the condition is zero.
pub(crate) fn op_bz(avm: &mut Avm) -> (r: Result<(), AvmError>)
    requires
        old(avm).wf(),
    ensures
        final(avm).wf(),
        steps_to(step_bz(old(avm)@), final(avm)@, r),
{
    let offset = avm.read_i16()?;
    if avm.pop_uint64()? == 0 {
        branch_to_offset(avm, offset)
    } else {
        Ok(())
    }
}

/// `b`: an unconditional branch.
pub(crate) fn op_b(avm: &mut Avm) -> (r: Result<(), AvmError>)
    requires
        old(avm).wf(),
    ensures
        final(avm).wf(),
        steps_to(step_b(old(avm)@), final(avm)@, r),
{
    let offset = avm.read_i16()?;
    branch_to_offset(avm, offset)
}

/// `return`: pops an integer, clears the stack down to that one value, and
/// terminates execution.
pub(crate) fn op_return(avm: &mut Avm) -> (r: Result<(), AvmError>)
    requires
        old(avm).wf(),
    ensures
        final(avm).wf(),
        steps_to(step_return(old(avm)@), final(avm)@, r),
{
    let value = avm.pop_uint64()?;
    avm.data_stack.clear();
    avm.data_stack.push(AvmData::Uint64(value));
    avm.pc = avm.program.len();
    proof {
        assert(crate::avm::values_view(avm.data_stack@) =~= Seq::empty().push(
            AvmValue::Uint64(value),
        ));
        assert(avm@ =~= (MachineModel {
            stack: Seq::empty().push(AvmValue::Uint64(value)),
            pc: old(avm)@.program.len() as int,
            ..old(avm)@
        }));
    }
    Ok(())
}

/// `assert`: pops an integer and fails, naming the opcode's position, when
/// it is zero.
pub(crate) fn op_assert(avm: &mut Avm) -> (r: Result<(), AvmError>)
    requires
        old(avm).wf(),
        old(avm)@.pc >= 1,
    ensures
        final(avm).wf(),
        steps_to(step_assert(old(avm)@), final(avm)@, r),
{
    if avm.pop_uint64()? == 0 {
        Err(AvmError::AssertionFailed(avm.pc - 1))
    } else {
        Ok(())
    }
}

/// `bury`: pops the top and writes it `depth` positions down, counted on the
/// stack before the pop.
pub(crate) fn op_bury(avm: &mut Avm) -> (r: Result<(), AvmError>)
    requires
        old(avm).wf(),
    ensures
        final(avm).wf(),
        steps_to(step_bury(old(avm)@), final(avm)@, r),
{
    let len = avm.data_stack.len();
    let offset = avm.read_byte()? as usize;
    if offset > len || offset == 0 {
        Err(AvmError::InvalidStackAccess)
    } else {
        let ghost m1 = avm@;
        let _ = avm.data_stack.swap_remove(len - offset);
        proof {
            crate::avm::lemma_values_view_update(
                old(avm).data_stack@,
                len - offset,
                old(avm).data_stack@.last(),
            );
            crate::avm::lemma_values_view_drop_last(
                old(avm).data_stack@.update(len - offset, old(avm).data_stack@.last()),
            );
            assert(avm@ =~= (MachineModel {
                stack: m1.stack.update(m1.stack.len() - offset, m1.stack.last()).drop_last(),
                ..m1
            }));
        }
        Ok(())
    }
}

/// `popn`: discards the top `n` values.
pub(crate) fn op_popn(avm: &mut Avm) -> (r: Result<(), AvmError>)
    requires
        old(avm).wf(),
    ensures
        final(avm).wf(),
        steps_to(step_popn(old(avm)@), final(avm)@, r),
{
    let n = avm.read_byte()? as usize;
    if n > avm.data_stack.len() {
        Err(AvmError::StackUnderflow)
    } else {
        let ghost m1 = avm@;
        let keep = avm.data_stack.len() - n;
        avm.data_stack.truncate(keep);
        proof {
            crate::avm::lemma_values_view_take(old(avm).data_stack@, keep as int);
            assert(old(avm).data_stack@.subrange(0, keep as int) =~= old(
                avm,
            ).data_stack@.take(keep as int));
            assert(avm@ =~= (MachineModel {
                stack: m1.stack.take(m1.stack.len() - n),
                ..m1
            }));
        }
        Ok(())
    }
}

/// `dupn`: pops the top and pushes `n + 1` copies of it.
pub(crate) fn op_dupn(avm: &mut Avm) -> (r: Result<(), AvmError>)
    requires
        old(avm).wf(),
    ensures
        final(avm).wf(),
        steps_to(step_dupn(old(avm)@), final(avm)@, r),
{
    let n = avm.read_byte()? as usize;
    let value = avm.pop_any()?;
    let ghost m2 = avm@;
    let mut j: usize = 0;
    while j < n + 1
        invariant
            old(avm).wf(),
            avm.wf(),
            j <= n + 1,
            n <= 255,
            crate::model::value_fits(value@, crate::model::byte_cap(m2)),
            avm@ == (MachineModel { stack: m2.stack + Seq::new(j as nat, |i: int| value@), ..m2 }),
        decreases n + 1 - j,
    {
        let ghost before = avm@;
        avm.push_value(value.clone());
        proof {
            assert(avm@.stack =~= m2.stack + Seq::new((j + 1) as nat, |i: int| value@));
            assert(avm@ =~= (MachineModel {
                stack: m2.stack + Seq::new((j + 1) as nat, |i: int| value@),
                ..m2
            }));
        }
        j = j + 1;
    }
    Ok(())
}

/// `pop`: discards the top value; an empty stack is its own error here.
pub(crate) fn op_pop(avm: &mut Avm) -> (r: Result<(), AvmError>)
    requires
        old(avm).wf(),
    ensures
        final(avm).wf(),
        steps_to(step_pop(old(avm)@), final(avm)@, r),
{
    match avm.pop_any() {
        Ok(_) => Ok(()),
        Err(_) => Err(AvmError::EmptyStack),
    }
}

/// `dup`: pushes a copy of the top value.
pub(crate) fn op_dup(avm: &mut Avm) -> (r: Result<(), AvmError>)
    requires
        old(avm).wf(),
    ensures
        final(avm).wf(),
        steps_to(step_dup(old(avm)@), final(avm)@, r),
{
    if avm.data_stack.len() == 0 {
        Err(AvmError::StackUnderflow)
    } else {
        let v = avm.data_stack[avm.data_stack.len() - 1].clone();
        avm.push_value(v);
        Ok(())
    }
}

/// `dup2`: copies the top two values, turning `.. a b` into `.. a b a b`.
pub(crate) fn op_dup2(avm: &mut Avm) -> (r: Result<(), AvmError>)
    requires
        old(avm).wf(),
    ensures
        final(avm).wf(),
        steps_to(step_dup2(old(avm)@), final(avm)@, r),
{
    let b = avm.pop_any()?;
    let a = avm.pop_any()?;
    avm.push_value(a.clone());
    avm.push_value(b.clone());
    avm.push_value(a);
    avm.push_value(b);
    Ok(())
}

/// `dig`: pushes a copy of the value `n` below the top.
pub(crate) fn op_dig(avm: &mut Avm) -> (r: Result<(), AvmError>)
    requires
        old(avm).wf(),
    ensures
        final(avm).wf(),
        steps_to(step_dig(old(avm)@), final(avm)@, r),
{
    let n = avm.read_byte()? as usize;
    if n >= avm.data_stack.len() {
        Err(AvmError::InvalidStackAccess)
    } else {
        let v = avm.data_stack[avm.data_stack.len() - 1 - n].clone();
        avm.push_value(v);
        Ok(())
    }
}

/// `swap`: exchanges the top two values.
pub(crate) fn op_swap(avm: &mut Avm) -> (r: Result<(), AvmError>)
    requires
        old(avm).wf(),
    ensures
        final(avm).wf(),
        steps_to(step_swap(old(avm)@), final(avm)@, r),
{
    let b = avm.pop_any()?;
    let a = avm.pop_any()?;
    avm.push_value(b);
    avm.push_value(a);
    Ok(())
}

/// `select`: pops a condition and two values, keeping the first on zero and
/// the second otherwise.
pub(crate) fn op_select(avm: &mut Avm) -> (r: Result<(), AvmError>)
    requires
        old(avm).wf(),
    ensures
        final(avm).wf(),
        steps_to(step_select(old(avm)@), final(avm)@, r),
{
    let c = avm.pop_uint64()?;
    let b = avm.pop_any()?;
    let a = avm.pop_any()?;
    if c == 0 {
        avm.push_value(a);
    } else {
        avm.push_value(b);
    }
    Ok(())
}

/// `cover`: pops the top and reinserts it `depth` positions below the new
/// top.
pub(crate) fn op_cover(avm: &mut Avm) -> (r: Result<(), AvmError>)
    requires
        old(avm).wf(),
    ensures
        final(avm).wf(),
        steps_to(step_cover(old(avm)@), final(avm)@, r),
{
    let depth = avm.read_byte()? as usize;
    if depth < avm.data_stack.len() {
        let ghost m1 = avm@;
        let pos = avm.data_stack.len() - 1 - depth;
        let value = match avm.pop_any() {
            Ok(v) => v,
            Err(e) => {
                return Err(e);
            },
        };
        avm.data_stack.insert(pos, value);
        proof {
            crate::avm::lemma_values_view_insert(
                old(avm).data_stack@.drop_last(),
                pos as int,
                old(avm).data_stack@.last(),
            );
            assert(avm@ =~= (MachineModel {
                stack: m1.stack.drop_last().insert(
                    m1.stack.len() - 1 - depth,
                    m1.stack.last(),
                ),
                ..m1
            }));
        }
        Ok(())
    } else {
        Err(AvmError::InvalidStackAccess)
    }
}

/// `uncover`: removes the value `depth` below the top and pushes it.
pub(crate) fn op_uncover(avm: &mut Avm) -> (r: Result<(), AvmError>)
    requires
        old(avm).wf(),
    ensures
        final(avm).wf(),
        steps_to(step_uncover(old(avm)@), final(avm)@, r),
{
    let depth = avm.read_byte()? as usize;
    if depth < avm.data_stack.len() {
        let ghost m1 = avm@;
        let pos = avm.data_stack.len() - 1 - depth;
        let value = avm.data_stack.remove(pos);
        proof {
            crate::avm::lemma_values_view_remove(old(avm).data_stack@, pos as int);
            crate::avm::lemma_values_view_push(old(avm).data_stack@.remove(pos as int), value);
        }
        avm.data_stack.push(value);
        proof {
            assert(avm@ =~= (MachineModel {
                stack: m1.stack.remove(pos as int).push(m1.stack[pos as int]),
                ..m1
            }));
        }
        Ok(())
    } else {
        Err(AvmError::InvalidStackAccess)
    }
}

/// Joins two byte vectors into a fresh one.
fn concat_bytes(a: &Vec<u8>, b: &Vec<u8>) -> (r: Vec<u8>)
    ensures
        r@ == a@ + b@,
{
    let mut out = crate::avm::clone_bytes(a);
    let mut i: usize = 0;
    while i < b.len()
        invariant
            i <= b@.len(),
            out@ == a@ + b@.take(i as int),
        decreases b@.len() - i,
    {
        out.push(b[i]);
        proof {
            assert(out@ =~= a@ + b@.take((i + 1) as int));
        }
        i = i + 1;
    }
    proof {
        assert(b@.take(b@.len() as int) =~= b@);
    }
    out
}

/// `concat`: joins two byte strings, rejecting a result longer than 4096
/// bytes.
pub(crate) fn op_concat(avm: &mut Avm) -> (r: Result<(), AvmError>)
    requires
        old(avm).wf(),
    ensures
        final(avm).wf(),
        steps_to(step_concat(old(avm)@), final(avm)@, r),
{
    let rhs = avm.pop_bytes()?;
    let lhs = avm.pop_bytes()?;
    if rhs.len() > 4096 || lhs.len() > 4096 - rhs.len() {
        Err(AvmError::BytesTooLong)
    } else {
        let joined = concat_bytes(&lhs, &rhs);
        avm.push_value(AvmData::Bytes(joined));
        Ok(())
    }
}

/// The shared core of the substring opcodes: pushes `bytes[start..end]`,
/// rejecting a reversed or out-of-range window.
pub(crate) fn substring(avm: &mut Avm, bytes: &[u8], start: usize, end: usize) -> (r: Result<
    (),
    AvmError,
>)
    requires
        old(avm).wf(),
        bytes@.len() <= crate::model::byte_cap(old(avm)@),
    ensures
        final(avm).wf(),
        steps_to(substring_sem(old(avm)@, bytes@, start, end), final(avm)@, r),
{
    if end < start || end > bytes.len() {
        Err(AvmError::InvalidSubstringAccess(start, end, bytes.len()))
    } else {
        let sub = crate::encoding::slice_to_owned(bytes, start, end);
        avm.push_value(AvmData::Bytes(sub));
        Ok(())
    }
}

/// `substring`: pops the byte string, then reads the window bounds as two
/// one-byte immediates.
pub(crate) fn op_substring(avm: &mut Avm) -> (r: Result<(), AvmError>)
    requires
        old(avm).wf(),
    ensures
        final(avm).wf(),
        steps_to(step_substring(old(avm)@), final(avm)@, r),
{
    let bytes = avm.pop_bytes()?;
    let start = avm.read_byte()? as usize;
    let end = avm.read_byte()? as usize;
    substring(avm, bytes.as_slice(), start, end)
}

/// `substring3`: pops the window end, the window start, and the byte string.
pub(crate) fn op_substring3(avm: &mut Avm) -> (r: Result<(), AvmError>)
    requires
        old(avm).wf(),
    ensures
        final(avm).wf(),
        steps_to(step_substring3(old(avm)@), final(avm)@, r),
{
    let end = avm.pop_uint64()?;
    let start = avm.pop_uint64()?;
    let bytes = avm.pop_bytes()?;
    substring(
        avm,
        bytes.as_slice(),
        #[verifier::truncate] (start as usize),
        #[verifier::truncate] (end as usize),
    )
}

/// `pushbytes`: pushes a length-prefixed byte-string immediate.
pub(crate) fn op_pushbytes(avm: &mut Avm) -> (r: Result<(), AvmError>)
    requires
        old(avm).wf(),
    ensures
        final(avm).wf(),
        steps_to(step_pushbytes(old(avm)@), final(avm)@, r),
{
    let val = avm.read_varbytes()?;
    avm.push_value(AvmData::Bytes(val.value));
    Ok(())
}

/// `pushint`: pushes a variable-length integer immediate.
pub(crate) fn op_pushint(avm: &mut Avm) -> (r: Result<(), AvmError>)
    requires
        old(avm).wf(),
    ensures
        final(avm).wf(),
        steps_to(step_pushint(old(avm)@), final(avm)@, r),
{
    let val = avm.read_varint()?;
    avm.push_value(AvmData::Uint64(val.value));
    Ok(())
}

} // verus!
