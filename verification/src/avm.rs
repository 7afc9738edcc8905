//! The executable machine: its state, its constructor, the primitive reads
//! and pops that the opcode handlers share, and the evaluation loop.

use crate::encoding::{VarBytes, VarUint64};
use crate::model::{
    fetch_byte, fetch_offset, fetch_varbytes, fetch_varint, initial_model, m_wf, run_from,
    take_any, take_bytes, take_u64, AvmValue, MachineModel,
};
use crate::AvmError;
use vstd::prelude::*;

verus! {

/// A value held by the machine: either an unsigned 64-bit integer or an
/// owned byte string.
#[derive(Debug, PartialEq, Eq)]
pub enum AvmData {
    /// A byte string.
    Bytes(Vec<u8>),
    /// An unsigned 64-bit integer.
    Uint64(u64),
}

impl View for AvmData {
    type V = AvmValue;

    open spec fn view(&self) -> AvmValue {
        match self {
            AvmData::Bytes(b) => AvmValue::Bytes(b@),
            AvmData::Uint64(v) => AvmValue::Uint64(*v),
        }
    }
}

/// Copies a byte vector.
pub(crate) fn clone_bytes(b: &Vec<u8>) -> (r: Vec<u8>)
    ensures
        r@ == b@,
{
    let r = crate::encoding::slice_to_owned(b.as_slice(), 0, b.len());
    proof {
        assert(r@ =~= b@);
    }
    r
}

impl Clone for AvmData {
    /// A clone carries the same abstract value.
    fn clone(&self) -> (r: Self)
        ensures
            r@ == self@,
    {
        match self {
            AvmData::Bytes(b) => AvmData::Bytes(clone_bytes(b)),
            AvmData::Uint64(v) => AvmData::Uint64(*v),
        }
    }
}

impl From<bool> for AvmData {
    /// The machine's boolean coercion: one for true, zero for false.
    fn from(value: bool) -> (r: Self) {
        if value {
            AvmData::Uint64(1)
        } else {
            AvmData::Uint64(0)
        }
    }
}

impl vstd::std_specs::convert::FromSpecImpl<bool> for AvmData {
    open spec fn obeys_from_spec() -> bool {
        true
    }

    open spec fn from_spec(v: bool) -> AvmData {
        if v {
            AvmData::Uint64(1)
        } else {
            AvmData::Uint64(0)
        }
    }
}

/// The declared language revision of a program, from its first byte.
#[derive(Debug, Clone, Copy, PartialEq, Eq, Structural)]
pub enum AvmVersion {
    /// Revision 1.
    V1,
    /// Revision 2.
    V2,
    /// Revision 3.
    V3,
    /// Revision 4.
    V4,
    /// Revision 5.
    V5,
    /// Revision 6.
    V6,
    /// Revision 7.
    V7,
    /// Revision 8.
    V8,
    /// Revision 9.
    V9,
    /// Revision 10.
    V10,
}

impl AvmVersion {
    /// The revision as a number, `1..=10`.
    pub open spec fn as_int(&self) -> int {
        match self {
            AvmVersion::V1 => 1,
            AvmVersion::V2 => 2,
            AvmVersion::V3 => 3,
            AvmVersion::V4 => 4,
            AvmVersion::V5 => 5,
            AvmVersion::V6 => 6,
            AvmVersion::V7 => 7,
            AvmVersion::V8 => 8,
            AvmVersion::V9 => 9,
            AvmVersion::V10 => 10,
        }
    }

    /// Returns the revision number, `1..=10`.
    pub fn number(&self) -> (n: u8)
        ensures
            n as int == self.as_int(),
    {
        match self {
            AvmVersion::V1 => 1,
            AvmVersion::V2 => 2,
            AvmVersion::V3 => 3,
            AvmVersion::V4 => 4,
            AvmVersion::V5 => 5,
            AvmVersion::V6 => 6,
            AvmVersion::V7 => 7,
            AvmVersion::V8 => 8,
            AvmVersion::V9 => 9,
            AvmVersion::V10 => 10,
        }
    }

    /// Reads a version byte, accepting exactly `1..=10`.
    pub fn try_from(value: u8) -> (r: Result<AvmVersion, AvmError>)
        ensures
            1 <= value <= 10 ==> (r matches Ok(v) && v.as_int() == value),
            !(1 <= value <= 10) ==> r == Err::<AvmVersion, AvmError>(
                AvmError::InvalidAvmVersion(value),
            ),
    {
        match value {
            1 => Ok(AvmVersion::V1),
            2 => Ok(AvmVersion::V2),
            3 => Ok(AvmVersion::V3),
            4 => Ok(AvmVersion::V4),
            5 => Ok(AvmVersion::V5),
            6 => Ok(AvmVersion::V6),
            7 => Ok(AvmVersion::V7),
            8 => Ok(AvmVersion::V8),
            9 => Ok(AvmVersion::V9),
            10 => Ok(AvmVersion::V10),
            _ => Err(AvmError::InvalidAvmVersion(value)),
        }
    }
}

/// The abstract values of a sequence of machine values.
pub open spec fn values_view(s: Seq<AvmData>) -> Seq<AvmValue> {
    s.map_values(|d: AvmData| d@)
}

/// The abstract contents of a sequence of byte vectors.
pub open spec fn table_view(s: Seq<Vec<u8>>) -> Seq<Seq<u8>> {
    s.map_values(|v: Vec<u8>| v@)
}

/// Appending a value appends its abstraction.
pub broadcast proof fn lemma_values_view_push(s: Seq<AvmData>, x: AvmData)
    ensures
        #[trigger] values_view(s.push(x)) == values_view(s).push(x@),
{
    assert(values_view(s.push(x)) =~= values_view(s).push(x@));
}

/// Dropping the last value drops the last abstraction.
pub broadcast proof fn lemma_values_view_drop_last(s: Seq<AvmData>)
    requires
        s.len() > 0,
    ensures
        #[trigger] values_view(s.drop_last()) == values_view(s).drop_last(),
{
    assert(values_view(s.drop_last()) =~= values_view(s).drop_last());
}

/// Updating one value updates one abstraction.
pub broadcast proof fn lemma_values_view_update(s: Seq<AvmData>, i: int, x: AvmData)
    requires
        0 <= i < s.len(),
    ensures
        #[trigger] values_view(s.update(i, x)) == values_view(s).update(i, x@),
{
    assert(values_view(s.update(i, x)) =~= values_view(s).update(i, x@));
}

/// Taking a prefix of the values takes the same prefix of abstractions.
pub broadcast proof fn lemma_values_view_take(s: Seq<AvmData>, k: int)
    requires
        0 <= k <= s.len(),
    ensures
        #[trigger] values_view(s.take(k)) == values_view(s).take(k),
{
    assert(values_view(s.take(k)) =~= values_view(s).take(k));
}

/// Inserting a value inserts its abstraction.
pub broadcast proof fn lemma_values_view_insert(s: Seq<AvmData>, i: int, x: AvmData)
    requires
        0 <= i <= s.len(),
    ensures
        #[trigger] values_view(s.insert(i, x)) == values_view(s).insert(i, x@),
{
    assert(values_view(s.insert(i, x)) =~= values_view(s).insert(i, x@));
}

/// Removing a value removes its abstraction.
pub broadcast proof fn lemma_values_view_remove(s: Seq<AvmData>, i: int)
    requires
        0 <= i < s.len(),
    ensures
        #[trigger] values_view(s.remove(i)) == values_view(s).remove(i),
{
    assert(values_view(s.remove(i)) =~= values_view(s).remove(i));
}

/// Appending a byte vector appends its contents.
pub broadcast proof fn lemma_table_view_push(s: Seq<Vec<u8>>, x: Vec<u8>)
    ensures
        #[trigger] table_view(s.push(x)) == table_view(s).push(x@),
{
    assert(table_view(s.push(x)) =~= table_view(s).push(x@));
}

/// The machine state: the program being run, the position of the next read,
/// the declared revision, the data stack, the scratch slots, and the two
/// constant tables.
#[derive(Debug)]
pub struct Avm {
    /// The data stack, top at the end.
    pub data_stack: Vec<AvmData>,
    /// The program bytes, version byte included.
    pub program: Vec<u8>,
    /// The position of the next read from `program`.
    pub pc: usize,
    /// The declared revision, set once at construction.
    pub version: AvmVersion,
    /// The 256 scratch slots.
    pub scratch: Vec<AvmData>,
    /// The integer-constant table.
    pub intc: Vec<u64>,
    /// The byte-constant table.
    pub bytec: Vec<Vec<u8>>,
}

impl View for Avm {
    type V = MachineModel;

    open spec fn view(&self) -> MachineModel {
        MachineModel {
            program: self.program@,
            pc: self.pc as int,
            version: self.version.as_int(),
            stack: values_view(self.data_stack@),
            scratch: values_view(self.scratch@),
            intc: self.intc@,
            bytec: table_view(self.bytec@),
        }
    }
}

impl Avm {
    /// Well-formedness of the machine, inherited from its model.
    pub open spec fn wf(&self) -> bool {
        m_wf(self@)
    }

    /// Builds a fresh machine for `program`: rejects an empty program and a
    /// version byte outside `1..=10`; otherwise starts with the counter past
    /// the version byte, an empty stack and constant tables, and all 256
    /// scratch slots holding the integer zero.
    pub fn for_program(program: &[u8]) -> (r: Result<Avm, AvmError>)
        ensures
            program@.len() == 0 ==> r == Err::<Avm, AvmError>(AvmError::EmptyProgram),
            program@.len() >= 1 && !(1 <= program@[0] <= 10) ==> r == Err::<Avm, AvmError>(
                AvmError::InvalidAvmVersion(program@[0]),
            ),
            program@.len() >= 1 && 1 <= program@[0] <= 10 ==> (r matches Ok(a) && a@
                == initial_model(program@) && a.wf()),
    {
        if program.len() == 0 {
            return Err(AvmError::EmptyProgram);
        }
        let version = match AvmVersion::try_from(program[0]) {
            Ok(v) => v,
            Err(e) => {
                return Err(e);
            },
        };
        let mut scratch: Vec<AvmData> = Vec::new();
        let mut i: usize = 0;
        while i < 256
            invariant
                i <= 256,
                scratch@.len() == i,
                forall|j: int| 0 <= j < i ==> scratch@[j] == AvmData::Uint64(0),
            decreases 256 - i,
        {
            scratch.push(AvmData::Uint64(0));
            i = i + 1;
        }
        let owned = crate::encoding::slice_to_owned(program, 0, program.len());
        let avm = Avm {
            data_stack: Vec::new(),
            program: owned,
            pc: 1,
            version,
            scratch,
            intc: Vec::new(),
            bytec: Vec::new(),
        };
        proof {
            assert(avm@.program =~= program@);
            assert(avm@.stack =~= Seq::<AvmValue>::empty());
            assert(avm@.scratch =~= Seq::new(256, |j: int| AvmValue::Uint64(0)));
            assert(avm@.intc =~= Seq::<u64>::empty());
            assert(avm@.bytec =~= Seq::<Seq<u8>>::empty());
            assert(avm@ =~= initial_model(program@));
        }
        Ok(avm)
    }

    /// Reads the byte at the counter and advances past it.
    pub(crate) fn read_byte(&mut self) -> (r: Result<u8, AvmError>)
        requires
            old(self).wf(),
        ensures
            final(self).wf(),
            match fetch_byte(old(self)@) {
                Ok((b, m)) => r == Ok::<u8, AvmError>(b) && final(self)@ == m,
                Err(e) => r == Err::<u8, AvmError>(e) && final(self)@ == old(self)@,
            },
    {
        if self.pc < self.program.len() {
            let byte = self.program[self.pc];
            self.pc = self.pc + 1;
            proof {
                assert(self@ =~= (MachineModel { pc: old(self)@.pc + 1, ..old(self)@ }));
            }
            Ok(byte)
        } else {
            Err(AvmError::PcOutOfBounds)
        }
    }

    /// Reads two bytes as a big-endian signed 16-bit branch offset.
    pub(crate) fn read_i16(&mut self) -> (r: Result<i32, AvmError>)
        requires
            old(self).wf(),
        ensures
            final(self).wf(),
            final(self)@.program == old(self)@.program,
            final(self)@.version == old(self)@.version,
            match fetch_offset(old(self)@) {
                Ok((off, m)) => r matches Ok(o) && o as int == off && -0x8000 <= o <= 0x7fff
                    && final(self)@ == m,
                Err(e) => r == Err::<i32, AvmError>(e),
            },
    {
        let hi = self.read_byte()?;
        let lo = self.read_byte()?;
        let raw: i32 = (hi as i32) * 256 + (lo as i32);
        let off: i32 = if raw >= 0x8000 {
            raw - 0x10000
        } else {
            raw
        };
        proof {
            assert(self@ =~= (MachineModel { pc: old(self)@.pc + 2, ..old(self)@ }));
        }
        Ok(off)
    }

    /// Decodes a variable-length integer immediate at the counter and
    /// advances past it.
    pub(crate) fn read_varint(&mut self) -> (r: Result<VarUint64, AvmError>)
        requires
            old(self).wf(),
        ensures
            final(self).wf(),
            match fetch_varint(old(self)@) {
                Ok((v, m)) => r matches Ok(vu) && vu.value == v && final(self)@ == m,
                Err(e) => r == Err::<VarUint64, AvmError>(e) && final(self)@ == old(self)@,
            },
    {
        let s = self.program.as_slice();
        let tail = &s[self.pc..s.len()];
        let number = match VarUint64::try_from(tail) {
            Ok(n) => n,
            Err(e) => {
                return Err(e);
            },
        };
        self.pc = self.pc + number.nbytes;
        proof {
            assert(self@ =~= (MachineModel {
                pc: old(self)@.pc + crate::encoding::varuint_nbytes(
                    crate::model::rest(old(self)@),
                ),
                ..old(self)@
            }));
        }
        Ok(number)
    }

    /// Decodes a length-prefixed byte-string immediate at the counter and
    /// advances past it.
    pub(crate) fn read_varbytes(&mut self) -> (r: Result<VarBytes, AvmError>)
        requires
            old(self).wf(),
        ensures
            final(self).wf(),
            match fetch_varbytes(old(self)@) {
                Ok((b, m)) => r matches Ok(vb) && vb.value@ == b && final(self)@ == m && b.len()
                    <= old(self)@.program.len(),
                Err(e) => r == Err::<VarBytes, AvmError>(e) && final(self)@ == old(self)@,
            },
    {
        let s = self.program.as_slice();
        let tail = &s[self.pc..s.len()];
        let bytes = match VarBytes::try_from(tail) {
            Ok(b) => b,
            Err(e) => {
                return Err(e);
            },
        };
        self.pc = self.pc + bytes.nbytes;
        proof {
            assert(self@ =~= (MachineModel {
                pc: old(self)@.pc + crate::encoding::varbytes_nbytes(
                    crate::model::rest(old(self)@),
                ),
                ..old(self)@
            }));
        }
        Ok(bytes)
    }

    /// Pops any value from the data stack.
    pub(crate) fn pop_any(&mut self) -> (r: Result<AvmData, AvmError>)
        requires
            old(self).wf(),
        ensures
            final(self).wf(),
            match take_any(old(self)@) {
                Ok((v, m)) => r matches Ok(d) && d@ == v && final(self)@ == m,
                Err(e) => r == Err::<AvmData, AvmError>(e) && final(self)@ == old(self)@,
            },
    {
        match self.data_stack.pop() {
            Some(v) => {
                proof {
                    lemma_values_view_drop_last(old(self).data_stack@);
                    assert(self@ =~= (MachineModel {
                        stack: old(self)@.stack.drop_last(),
                        ..old(self)@
                    }));
                }
                Ok(v)
            },
            None => Err(AvmError::StackUnderflow),
        }
    }

    /// Pops a value that must be an integer.
    pub(crate) fn pop_uint64(&mut self) -> (r: Result<u64, AvmError>)
        requires
            old(self).wf(),
        ensures
            final(self).wf(),
            match take_u64(old(self)@) {
                Ok((v, m)) => r == Ok::<u64, AvmError>(v) && final(self)@ == m,
                Err(e) => r == Err::<u64, AvmError>(e),
            },
    {
        match self.pop_any() {
            Ok(AvmData::Uint64(v)) => Ok(v),
            Ok(AvmData::Bytes(_)) => Err(
                AvmError::IncompatibleTypes(crate::LABEL_BYTES, crate::LABEL_UINT64),
            ),
            Err(e) => Err(e),
        }
    }

    /// Pops a value that must be a byte string.
    pub(crate) fn pop_bytes(&mut self) -> (r: Result<Vec<u8>, AvmError>)
        requires
            old(self).wf(),
        ensures
            final(self).wf(),
            match take_bytes(old(self)@) {
                Ok((b, m)) => r matches Ok(v) && v@ == b && final(self)@ == m && b.len() <= crate::model::byte_cap(
                    old(self)@,
                ),
                Err(e) => r == Err::<Vec<u8>, AvmError>(e),
            },
    {
        match self.pop_any() {
            Ok(AvmData::Bytes(v)) => Ok(v),
            Ok(AvmData::Uint64(_)) => Err(
                AvmError::IncompatibleTypes(crate::LABEL_UINT64, crate::LABEL_BYTES),
            ),
            Err(e) => Err(e),
        }
    }

    /// Pushes a value onto the data stack; the caller shows it is within the
    /// byte cap.
    pub(crate) fn push_value(&mut self, v: AvmData)
        requires
            old(self).wf(),
            crate::model::value_fits(v@, crate::model::byte_cap(old(self)@)),
        ensures
            final(self).wf(),
            final(self)@ == crate::model::pushed(old(self)@, v@),
    {
        self.data_stack.push(v);
        proof {
            lemma_values_view_push(old(self).data_stack@, v);
            assert(self@ =~= crate::model::pushed(old(self)@, v@));
        }
    }
}

/// Runs a machine to completion: while the cost budget is open and the
/// counter is inside the program, fetches one opcode byte, looks it up under
/// the declared revision, runs its handler, and charges its cost.  The
/// budget is checked before each fetch, so the last opcode may carry the
/// accumulated cost past the budget.  Reaching the budget is not an error:
/// the machine simply stops where it is.  Implements `run` of the model
/// exactly.
pub fn execute_program(avm: &mut Avm) -> (r: Result<(), AvmError>)
    requires
        old(avm).wf(),
    ensures
        final(avm).wf(),
        match crate::model::run(old(avm)@) {
            Ok((m2, c)) => r == Ok::<(), AvmError>(()) && final(avm)@ == m2 && c <= 720,
            Err(e) => r == Err::<(), AvmError>(e),
        },
{
    proof {
        crate::laws::lemma_run_cost_bound(old(avm)@, 0);
    }
    let mut cost: u64 = 0;
    while cost < 700 && avm.pc < avm.program.len()
        invariant
            avm.wf(),
            cost <= 719,
            run_from(old(avm)@, 0) == run_from(avm@, cost as nat),
        decreases (if cost < 700 {
            700 - cost
        } else {
            0int
        }),
    {
        let ghost m_pre = avm@;
        let ghost c_pre = cost as nat;
        let opcode = avm.read_byte()?;
        let spec = match crate::opcodes::lookup_spec(opcode) {
            Some(s) => s,
            None => {
                return Err(AvmError::UnknownOpcode(opcode));
            },
        };
        if avm.version.number() < spec.version.number() {
            return Err(AvmError::UnknownOpcode(opcode));
        }
        let res = match opcode {
            0x00 => crate::opcodes::op_err(avm),
            0x08 => crate::opcodes::op_plus(avm),
            0x09 => crate::opcodes::op_minus(avm),
            0x0a => crate::opcodes::op_div(avm),
            0x0b => crate::opcodes::op_mul(avm),
            0x0c => crate::opcodes::op_lt(avm),
            0x0d => crate::opcodes::op_gt(avm),
            0x0e => crate::opcodes::op_leq(avm),
            0x0f => crate::opcodes::op_geq(avm),
            0x10 => crate::opcodes::op_and(avm),
            0x11 => crate::opcodes::op_or(avm),
            0x12 => crate::opcodes::op_eq(avm),
            0x13 => crate::opcodes::op_neq(avm),
            0x14 => crate::opcodes::op_neg(avm),
            0x15 => crate::opcodes::op_len(avm),
            0x16 => crate::opcodes::op_itob(avm),
            0x17 => crate::opcodes::op_btoi(avm),
            0x18 => crate::opcodes::op_mod(avm),
            0x19 => crate::opcodes::op_bit_or(avm),
            0x1a => crate::opcodes::op_bit_and(avm),
            0x1b => crate::opcodes::op_bit_xor(avm),
            0x1c => crate::opcodes::op_bit_not(avm),
            0x1d => crate::opcodes::op_mulw(avm),
            0x1e => crate::opcodes::op_addw(avm),
            0x1f => crate::opcodes::op_divmodw(avm),
            0x20 => crate::opcodes::op_intcblock(avm),
            0x21 => crate::opcodes::op_intc(avm),
            0x22 => crate::opcodes::op_intc_0(avm),
            0x23 => crate::opcodes::op_intc_1(avm),
            0x24 => crate::opcodes::op_intc_2(avm),
            0x25 => crate::opcodes::op_intc_3(avm),
            0x26 => crate::opcodes::op_bytecblock(avm),
            0x27 => crate::opcodes::op_bytec(avm),
            0x28 => crate::opcodes::op_bytec_0(avm),
            0x29 => crate::opcodes::op_bytec_1(avm),
            0x2a => crate::opcodes::op_bytec_2(avm),
            0x2b => crate::opcodes::op_bytec_3(avm),
            0x34 => crate::opcodes::op_load(avm),
            0x35 => crate::opcodes::op_store(avm),
            0x3e => crate::opcodes::op_loads(avm),
            0x3f => crate::opcodes::op_stores(avm),
            0x40 => crate::opcodes::op_bnz(avm),
            0x41 => crate::opcodes::op_bz(avm),
            0x42 => crate::opcodes::op_b(avm),
            0x43 => crate::opcodes::op_return(avm),
            0x44 => crate::opcodes::op_assert(avm),
            0x45 => crate::opcodes::op_bury(avm),
            0x46 => crate::opcodes::op_popn(avm),
            0x47 => crate::opcodes::op_dupn(avm),
            0x48 => crate::opcodes::op_pop(avm),
            0x49 => crate::opcodes::op_dup(avm),
            0x4a => crate::opcodes::op_dup2(avm),
            0x4b => crate::opcodes::op_dig(avm),
            0x4c => crate::opcodes::op_swap(avm),
            0x4d => crate::opcodes::op_select(avm),
            0x4e => crate::opcodes::op_cover(avm),
            0x4f => crate::opcodes::op_uncover(avm),
            0x50 => crate::opcodes::op_concat(avm),
            0x51 => crate::opcodes::op_substring(avm),
            0x52 => crate::opcodes::op_substring3(avm),
            0x80 => crate::opcodes::op_pushbytes(avm),
            _ => crate::opcodes::op_pushint(avm),
        };
        match res {
            Ok(()) => {},
            Err(e) => {
                return Err(e);
            },
        }
        cost = cost + spec.cost;
    }
    proof {
        assert(run_from(avm@, cost as nat) == Ok::<(MachineModel, nat), AvmError>(
            (avm@, cost as nat),
        ));
    }
    Ok(())
}

} // verus!
