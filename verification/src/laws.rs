//! General properties of the machine, proved once and for all inputs from
//! the step functions of the model.

use crate::model::{
    be_val, byte_cap, check_eq_m, fetch_bytec_list, fetch_intc_list, fetch_varbytes, fetch_varint,
    from_bool, lemma_be_bytes_len, lemma_be_val_of_be_bytes,
    lemma_pow256_values, m_wf, op_cost, run_from, step_b, step_bnz, step_btoi,
    step_bytecblock, step_bz, step_concat, step_dup, step_dupn, step_eq, step_intcblock,
    step_itob, step_neq, step_popn, u64_be_bytes, value_fits, AvmValue, MachineModel,
};
use crate::AvmError;
use vstd::prelude::*;

verus! {

/// The counter of a well-formed machine lies between zero and the program
/// length, inclusive; with the evaluator's contract this holds of every
/// machine a successful execution leaves behind.
pub proof fn lemma_pc_in_bounds(m: MachineModel)
    requires
        m_wf(m),
    ensures
        0 <= m.pc <= m.program.len(),
{
}

/// A run that starts with at most the budget plus one opcode's worth of cost
/// spent ends the same way: the accumulated cost never passes the budget by
/// more than the costliest opcode, which charges 20.
pub proof fn lemma_run_cost_bound(m: MachineModel, cost: nat)
    requires
        cost <= 720,
    ensures
        run_from(m, cost) matches Ok((m2, c2)) ==> c2 <= 720,
    decreases (if cost < 700 {
        700 - cost
    } else {
        0int
    }),
{
    if cost >= 700 || m.pc >= m.program.len() {
    } else {
        let op = m.program[m.pc];
        if crate::model::op_known(op) && crate::model::op_min_version(op) <= m.version {
            match crate::model::step_op(op, MachineModel { pc: m.pc + 1, ..m }) {
                Ok(m2) => {
                    lemma_run_cost_bound(m2, cost + op_cost(op));
                },
                Err(_) => {},
            }
        }
    }
}

/// In a well-formed machine whose program is within the 4096-byte ceiling,
/// every byte string on the stack is at most 4096 bytes long.  (A program
/// longer than that can place one of its own immediates, which may be as
/// long as the program, on the stack.)
pub proof fn lemma_stack_bytes_bounded(m: MachineModel)
    requires
        m_wf(m),
        m.program.len() <= 4096,
    ensures
        forall|i: int|
            0 <= i < m.stack.len() ==> ((#[trigger] m.stack[i]) matches AvmValue::Bytes(b)
                ==> b.len() <= 4096),
{
    assert forall|i: int| 0 <= i < m.stack.len() implies ((#[trigger] m.stack[i])
        matches AvmValue::Bytes(b) ==> b.len() <= 4096) by {
        assert(value_fits(m.stack[i], byte_cap(m)));
    }
}

/// Reading back the 8-byte big-endian encoding of an integer yields the
/// integer.
pub proof fn lemma_itob_btoi_value_roundtrip(v: u64)
    ensures
        be_val(u64_be_bytes(v)) == v,
        u64_be_bytes(v).len() == 8,
{
    lemma_be_bytes_len(v as nat, 8);
    lemma_be_val_of_be_bytes(v as nat, 8);
    lemma_pow256_values();
}

/// `itob` followed by `btoi` is the identity on any machine whose top is an
/// integer: the second step returns exactly the machine the first one
/// started from.
pub proof fn lemma_itob_btoi_machine_roundtrip(m: MachineModel, v: u64)
    requires
        m.stack.len() > 0,
        m.stack.last() == AvmValue::Uint64(v),
    ensures
        step_itob(m) matches Ok(m1) && step_btoi(m1) == Ok::<MachineModel, AvmError>(m),
{
    lemma_itob_btoi_value_roundtrip(v);
    let m1 = step_itob(m)->Ok_0;
    assert(m1.stack.drop_last() =~= m.stack.drop_last());
    let m2 = step_btoi(m1)->Ok_0;
    assert(m2.stack =~= m.stack);
    assert(m2 =~= m);
}

/// On a machine whose top is the integer `n` — as it is just after
/// `pushint n` — `itob` pushes exactly 8 bytes, and they are the big-endian
/// encoding of `n`.
pub proof fn lemma_itob_pushes_be_bytes(m: MachineModel, n: u64)
    requires
        m.stack.len() > 0,
        m.stack.last() == AvmValue::Uint64(n),
    ensures
        step_itob(m) matches Ok(m1) && m1.stack.last() == AvmValue::Bytes(u64_be_bytes(n))
            && u64_be_bytes(n).len() == 8 && be_val(u64_be_bytes(n)) == n,
{
    lemma_itob_btoi_value_roundtrip(n);
}

/// For byte strings `x` and `y` with `|x| + |y| <= 4096`, `concat` succeeds
/// and pushes a byte string of length exactly `|x| + |y|`, namely `x`
/// followed by `y`.
pub proof fn lemma_concat_length(m: MachineModel, x: Seq<u8>, y: Seq<u8>)
    requires
        m.stack.len() >= 2,
        m.stack[m.stack.len() - 2] == AvmValue::Bytes(x),
        m.stack.last() == AvmValue::Bytes(y),
        x.len() + y.len() <= 4096,
    ensures
        step_concat(m) matches Ok(m1) && m1.stack.last() == AvmValue::Bytes(x + y) && (x
            + y).len() == x.len() + y.len(),
{
    assert(m.stack.drop_last().last() == m.stack[m.stack.len() - 2]);
}

/// Equality is reflexive on every value.
pub proof fn lemma_eq_reflexive(v: AvmValue)
    ensures
        check_eq_m(v, v) == Ok::<bool, AvmError>(true),
{
}

/// On any machine, `==` and `!=` succeed together, fail with the same
/// error, and when they succeed they leave the same stack below the result
/// and push complementary booleans.
pub proof fn lemma_eq_neq_complementary(m: MachineModel)
    ensures
        step_eq(m) is Ok <==> step_neq(m) is Ok,
        step_eq(m) is Err ==> step_eq(m) == step_neq(m),
        step_eq(m) matches Ok(m1) ==> (step_neq(m) matches Ok(m2) && m1.stack.drop_last()
            == m2.stack.drop_last() && m1.stack.last() == from_bool(
            check_eq_m(m.stack[m.stack.len() - 2], m.stack.last())->Ok_0,
        ) && m2.stack.last() == from_bool(
            !check_eq_m(m.stack[m.stack.len() - 2], m.stack.last())->Ok_0,
        )),
{
    if m.stack.len() >= 2 {
        assert(m.stack.drop_last().last() == m.stack[m.stack.len() - 2]);
    }
}

/// `dup` preserves the original top and adds one copy of it.
pub proof fn lemma_dup_preserves_top(m: MachineModel)
    requires
        m.stack.len() > 0,
    ensures
        step_dup(m) matches Ok(m1) && m1.stack.len() == m.stack.len() + 1 && m1.stack.last()
            == m.stack.last() && m1.stack[m1.stack.len() - 2] == m.stack.last()
            && m1.stack.take(m.stack.len() as int) == m.stack,
{
    let m1 = step_dup(m)->Ok_0;
    assert(m1.stack.take(m.stack.len() as int) =~= m.stack);
}

/// `dupn (n-1)` followed by `popn n` removes exactly one value: the net
/// effect on the stack is dropping the seed that `dupn` copied.  The two
/// immediates sit in the program at the counters the two steps read from.
pub proof fn lemma_dupn_popn_inverse(m: MachineModel, n: u8)
    requires
        m.stack.len() > 0,
        n >= 1,
        0 <= m.pc,
        m.pc + 3 <= m.program.len(),
        m.program[m.pc] == (n - 1) as u8,
        m.program[m.pc + 2] == n,
    ensures
        step_dupn(m) matches Ok(m1) && step_popn(
            MachineModel { pc: m.pc + 2, ..m1 },
        ) matches Ok(m2) && m2.stack == m.stack.drop_last() && m2.stack.len() == m.stack.len()
            - 1,
{
    let m1 = step_dupn(m)->Ok_0;
    assert(m1.stack.len() == m.stack.len() + n - 1);
    let mp = MachineModel { pc: m.pc + 2, ..m1 };
    let m2 = step_popn(mp)->Ok_0;
    assert(m2.stack =~= m.stack.drop_last());
}

/// A taken `bnz` behaves exactly as the unconditional `b` of the same
/// offset, run on the machine without the consumed condition.
pub proof fn lemma_taken_bnz_is_b(m: MachineModel, x: u64)
    requires
        m.stack.len() > 0,
        m.stack.last() == AvmValue::Uint64(x),
        x != 0,
    ensures
        step_bnz(m) == step_b(MachineModel { stack: m.stack.drop_last(), ..m }),
{
    let popped = MachineModel { stack: m.stack.drop_last(), ..m };
    match crate::model::fetch_offset(m) {
        Ok((off, m1)) => {
            assert(crate::model::fetch_offset(popped) == Ok::<(int, MachineModel), AvmError>(
                (off, MachineModel { stack: m.stack.drop_last(), ..m1 }),
            ));
        },
        Err(_) => {},
    }
}

/// A taken `bz` behaves exactly as the unconditional `b` of the same
/// offset, run on the machine without the consumed condition.
pub proof fn lemma_taken_bz_is_b(m: MachineModel, x: u64)
    requires
        m.stack.len() > 0,
        m.stack.last() == AvmValue::Uint64(x),
        x == 0,
    ensures
        step_bz(m) == step_b(MachineModel { stack: m.stack.drop_last(), ..m }),
{
    let popped = MachineModel { stack: m.stack.drop_last(), ..m };
    match crate::model::fetch_offset(m) {
        Ok((off, m1)) => {
            assert(crate::model::fetch_offset(popped) == Ok::<(int, MachineModel), AvmError>(
                (off, MachineModel { stack: m.stack.drop_last(), ..m1 }),
            ));
        },
        Err(_) => {},
    }
}

/// Reading an integer list is insensitive to the integer-constant table the
/// machine already holds.
proof fn lemma_fetch_intc_list_ignores_intc(m: MachineModel, t0: Seq<u64>, k: nat, acc: Seq<u64>)
    ensures
        fetch_intc_list(MachineModel { intc: t0, ..m }, k, acc) == (
        match fetch_intc_list(m, k, acc) {
            Ok((t, m2)) => Ok::<(Seq<u64>, MachineModel), AvmError>(
                (t, MachineModel { intc: t0, ..m2 }),
            ),
            Err(e) => Err::<(Seq<u64>, MachineModel), AvmError>(e),
        }),
    decreases k,
{
    let ma = MachineModel { intc: t0, ..m };
    assert(crate::model::rest(ma) == crate::model::rest(m));
    if k > 0 {
        match fetch_varint(m) {
            Ok((v, m1)) => {
                assert(fetch_varint(ma) == Ok::<(u64, MachineModel), AvmError>(
                    (v, MachineModel { intc: t0, ..m1 }),
                ));
                lemma_fetch_intc_list_ignores_intc(m1, t0, (k - 1) as nat, acc.push(v));
            },
            Err(_) => {},
        }
    }
}

/// `intcblock` overwrites the integer-constant table outright: whatever
/// table the machine held before, the outcome is the same.
pub proof fn lemma_intcblock_overwrites(m: MachineModel, t0: Seq<u64>)
    ensures
        step_intcblock(MachineModel { intc: t0, ..m }) == step_intcblock(m),
{
    let ma = MachineModel { intc: t0, ..m };
    assert(crate::model::rest(ma) == crate::model::rest(m));
    match fetch_varint(m) {
        Ok((n, m1)) => {
            assert(fetch_varint(ma) == Ok::<(u64, MachineModel), AvmError>(
                (n, MachineModel { intc: t0, ..m1 }),
            ));
            lemma_fetch_intc_list_ignores_intc(m1, t0, n as nat, Seq::empty());
            match fetch_intc_list(m1, n as nat, Seq::empty()) {
                Ok((table, m2)) => {
                    assert((MachineModel { intc: table, ..(MachineModel { intc: t0, ..m2 }) })
                        =~= (MachineModel { intc: table, ..m2 }));
                },
                Err(_) => {},
            }
        },
        Err(_) => {},
    }
}

/// Reading a byte-string list is insensitive to the byte-constant table the
/// machine already holds.
proof fn lemma_fetch_bytec_list_ignores_bytec(
    m: MachineModel,
    t0: Seq<Seq<u8>>,
    k: nat,
    acc: Seq<Seq<u8>>,
)
    ensures
        fetch_bytec_list(MachineModel { bytec: t0, ..m }, k, acc) == (
        match fetch_bytec_list(m, k, acc) {
            Ok((t, m2)) => Ok::<(Seq<Seq<u8>>, MachineModel), AvmError>(
                (t, MachineModel { bytec: t0, ..m2 }),
            ),
            Err(e) => Err::<(Seq<Seq<u8>>, MachineModel), AvmError>(e),
        }),
    decreases k,
{
    let ma = MachineModel { bytec: t0, ..m };
    assert(crate::model::rest(ma) == crate::model::rest(m));
    if k > 0 {
        match fetch_varbytes(m) {
            Ok((b, m1)) => {
                assert(fetch_varbytes(ma) == Ok::<(Seq<u8>, MachineModel), AvmError>(
                    (b, MachineModel { bytec: t0, ..m1 }),
                ));
                lemma_fetch_bytec_list_ignores_bytec(m1, t0, (k - 1) as nat, acc.push(b));
            },
            Err(_) => {},
        }
    }
}

/// `bytecblock` overwrites the byte-constant table outright: whatever table
/// the machine held before, the outcome is the same.
pub proof fn lemma_bytecblock_overwrites(m: MachineModel, t0: Seq<Seq<u8>>)
    ensures
        step_bytecblock(MachineModel { bytec: t0, ..m }) == step_bytecblock(m),
{
    let ma = MachineModel { bytec: t0, ..m };
    assert(crate::model::rest(ma) == crate::model::rest(m));
    match fetch_varint(m) {
        Ok((n, m1)) => {
            assert(fetch_varint(ma) == Ok::<(u64, MachineModel), AvmError>(
                (n, MachineModel { bytec: t0, ..m1 }),
            ));
            lemma_fetch_bytec_list_ignores_bytec(m1, t0, n as nat, Seq::empty());
            match fetch_bytec_list(m1, n as nat, Seq::empty()) {
                Ok((table, m2)) => {
                    assert((MachineModel { bytec: table, ..(MachineModel { bytec: t0, ..m2 }) })
                        =~= (MachineModel { bytec: table, ..m2 }));
                },
                Err(_) => {},
            }
        },
        Err(_) => {},
    }
}

} // verus!
