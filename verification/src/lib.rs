//! A verified interpreter for a small stack-based bytecode virtual machine.
//!
//! A program is a byte string: a version byte followed by an instruction
//! stream.  The machine executes it under a cost budget, manipulating a data
//! stack of tagged values (64-bit integers and byte strings), a 256-slot
//! scratch area, and two constant tables.  Every opcode's effect is stated as
//! a mathematical step function over an abstract machine model, and the
//! evaluator is proved to follow those step functions exactly.

pub mod avm;
pub mod encoding;
pub mod laws;
pub mod model;
pub mod opcodes;

use vstd::prelude::*;

verus! {

/// Type label used in mismatch errors for integer operands.
pub const LABEL_UINT64: &'static str = "uint64";

/// Type label used in mismatch errors for byte-string operands.
pub const LABEL_BYTES: &'static str = "bytes";

/// Operand-pair label: an integer below a byte string.
pub const LABEL_PAIR_UINT64_BYTES: &'static str = "(uint64,bytes)";

/// Operand-pair label: a byte string below an integer.
pub const LABEL_PAIR_BYTES_UINT64: &'static str = "(bytes,uint64)";

/// Operand-pair label: the two same-tag pairs that equality accepts.
pub const LABEL_PAIR_SAME_TAG: &'static str = "(uint64,uint64) or (bytes,bytes)";

/// Every way an execution can fail.  All are fatal to the current run and are
/// returned unchanged to the caller.
#[derive(Debug, PartialEq, Eq)]
pub enum AvmError {
    /// Construction was attempted on a zero-length program.
    EmptyProgram,
    /// The `pop` opcode found an empty stack.
    EmptyStack,
    /// The version byte is outside `1..=10`.
    InvalidAvmVersion(u8),
    /// No catalog entry matches the opcode under the declared version.
    UnknownOpcode(u8),
    /// A variable-length integer immediate is malformed.
    InvalidVarUint64,
    /// A length-prefixed byte-string immediate is truncated.
    InvalidVarBytes,
    /// A read past the program end, or a branch target outside the program.
    PcOutOfBounds,
    /// Checked addition or multiplication overflowed 64 bits.
    IntegerOverflow,
    /// Checked subtraction underflowed.
    IntegerUnderflow,
    /// Division or remainder by zero.
    DivisionByZero,
    /// A pop found fewer values than the opcode needs.
    StackUnderflow,
    /// An out-of-range depth for `dig`, `bury`, `cover` or `uncover`.
    InvalidStackAccess,
    /// An operand had the wrong tag: holds the labels of what was found and
    /// what was wanted.
    IncompatibleTypes(&'static str, &'static str),
    /// A concatenation result would exceed 4096 bytes.
    BytesTooLong,
    /// The `err` opcode was executed.
    ErrOpCode,
    /// An integer-constant index beyond the table: holds the index and the
    /// table length.
    IntcOutOfRange(usize, usize),
    /// A byte-constant index beyond the table: holds the index and the table
    /// length.
    BytecOutOfRange(usize, usize),
    /// The `btoi` operand was longer than 8 bytes: holds its length.
    BtoiTooLong(usize),
    /// A scratch index of 256 or more: holds the index.
    ScratchAccessOutOfBounds(usize),
    /// The `assert` opcode saw zero: holds the opcode's program counter.
    AssertionFailed(usize),
    /// A substring range that is reversed or past the end: holds start, end
    /// and the byte string's length.
    InvalidSubstringAccess(usize, usize, usize),
}

} // verus!
