//! The instruction decoder.
//!
//! One instruction is an opcode byte followed by the operand shape of its
//! family: control instructions may carry nested, explicitly terminated
//! instruction sequences (decoded by depth-counted termination, not by the
//! first terminator seen); variable instructions carry a local or global
//! index; memory instructions carry an alignment/offset descriptor; numeric
//! constant instructions carry an immediate of the width the opcode fixes.

use crate::error::DecodeError;
use crate::leb128::parse_leb_i32;
use crate::leb128::parse_leb_i64;
use crate::leb128::parse_leb_u32;
use crate::leb128::parse_u32_vec;
use crate::leb128::sp_leb_i32;
use crate::leb128::sp_leb_i64;
use crate::leb128::sp_leb_u32;
use crate::leb128::sp_u32_vec;
use crate::leb128::lemma_leb_u32_bounds;
use crate::leb128::lemma_sleb_bounds;
use crate::leb128::lemma_u32_vec_bounds;
use crate::prim::parse_le_u32;
use crate::prim::parse_le_u64;
use crate::prim::sp_le_u32;
use crate::prim::sp_le_u64;
use vstd::prelude::*;

verus! {

/// A memory-access descriptor: an alignment exponent and a byte offset.
#[derive(Debug, Clone, Copy, PartialEq, Eq, Structural)]
pub struct MemArg {
    pub align: u32,
    pub offset: u32,
}

/// A variable index, tagged by the scope of the opcode that carried it.
#[derive(Debug, Clone, Copy, PartialEq, Eq, Structural)]
pub enum Index {
    Local(u32),
    Global(u32),
}

/// An immediate numeric constant. The decoder does not interpret
/// floating-point values: the `F32` and `F64` variants keep the raw
/// little-endian bit pattern of the 4- or 8-byte operand.
#[derive(Debug, Clone, Copy, PartialEq, Eq, Structural)]
pub enum InstantValue {
    I32(i32),
    I64(i64),
    F32(u32),
    F64(u64),
}

/// The named members of the control instruction family.
#[derive(Debug, Clone, Copy, PartialEq, Eq, Structural)]
pub enum ControlInstruction {
    Unreachable,
    Nop,
    Block,
    Loop,
    If,
    Else,
    Br,
    BrIf,
    BrTable,
    Return,
    Call,
    CallIndirect,
}

/// The operand of one instruction: a closed variant set keyed by the
/// opcode's family.
#[derive(Debug, PartialEq, Eq)]
pub enum OpArgument {
    /// The opcode carries no operand.
    NoArg,
    /// A memory-access descriptor.
    MemArg(MemArg),
    /// An immediate numeric constant.
    InstantValue(InstantValue),
    /// A local or global variable index.
    Index(Index),
    /// A branch depth.
    Depth(u32),
    /// A vector of branch depths and the default depth.
    BrTable(Vec<u32>, u32),
    /// A function index.
    CallFunc(u32),
    /// A type index and a table index.
    CallIndirect(u32, u32),
    /// The nested body of a block or loop.
    Block(Vec<Instruction>),
    /// The consequent of an `If`, and its alternate if an `Else` follows.
    IfElse(Vec<Instruction>, Option<Vec<Instruction>>),
}

/// One decoded instruction: its opcode and its typed operand.
#[derive(Debug, PartialEq, Eq)]
pub struct Instruction {
    pub opcode: u8,
    pub arguments: OpArgument,
}

/// The mathematical model of an [`OpArgument`].
#[verifier::ext_equal]
pub enum OpArgumentV {
    NoArg,
    MemArg(MemArg),
    InstantValue(InstantValue),
    Index(Index),
    Depth(u32),
    BrTable(Seq<u32>, u32),
    CallFunc(u32),
    CallIndirect(u32, u32),
    Block(Seq<InstructionV>),
    IfElse(Seq<InstructionV>, Option<Seq<InstructionV>>),
}

/// The mathematical model of an [`Instruction`].
#[verifier::ext_equal]
pub struct InstructionV {
    pub opcode: u8,
    pub arguments: OpArgumentV,
}

/// The model of one instruction, nested bodies included.
pub open spec fn instr_view(i: Instruction) -> InstructionV
    decreases i,
{
    InstructionV { opcode: i.opcode, arguments: op_argument_view(i.arguments) }
}

/// The model of one operand, nested bodies included.
pub open spec fn op_argument_view(a: OpArgument) -> OpArgumentV
    decreases a,
{
    match a {
        OpArgument::NoArg => OpArgumentV::NoArg,
        OpArgument::MemArg(m) => OpArgumentV::MemArg(m),
        OpArgument::InstantValue(v) => OpArgumentV::InstantValue(v),
        OpArgument::Index(x) => OpArgumentV::Index(x),
        OpArgument::Depth(d) => OpArgumentV::Depth(d),
        OpArgument::BrTable(t, d) => OpArgumentV::BrTable(t@, d),
        OpArgument::CallFunc(f) => OpArgumentV::CallFunc(f),
        OpArgument::CallIndirect(t, tb) => OpArgumentV::CallIndirect(t, tb),
        OpArgument::Block(b) => OpArgumentV::Block(instrs_view(b@)),
        OpArgument::IfElse(t, e) => OpArgumentV::IfElse(
            instrs_view(t@),
            match e {
                Some(e2) => Some(instrs_view(e2@)),
                None => None,
            },
        ),
    }
}

/// The models of a sequence of instructions, element by element.
pub open spec fn instrs_view(s: Seq<Instruction>) -> Seq<InstructionV>
    decreases s,
{
    if s.len() == 0 {
        seq![]
    } else {
        seq![instr_view(s[0])] + instrs_view(s.drop_first())
    }
}

/// Appending one instruction appends its model.
pub proof fn lemma_instrs_view_push(s: Seq<Instruction>, i: Instruction)
    ensures
        instrs_view(s.push(i)) == instrs_view(s).push(instr_view(i)),
    decreases s.len(),
{
    if s.len() == 0 {
        assert(s.push(i).drop_first() =~= s);
        assert(s.push(i)[0] == i);
        assert(instrs_view(s.push(i)) =~= instrs_view(s).push(instr_view(i)));
    } else {
        lemma_instrs_view_push(s.drop_first(), i);
        assert(s.push(i).drop_first() =~= s.drop_first().push(i));
        assert(s.push(i)[0] == s[0]);
        assert(instrs_view(s.push(i)) =~= instrs_view(s).push(instr_view(i)));
    }
}

/// The control instruction a byte stands for, if any. The terminator byte
/// `0x0B` (`End`) names no member: it closes sequences and never stands as
/// an instruction of its own.
pub open spec fn sp_control_tag(b: u8) -> Option<ControlInstruction> {
    if b == 0x00 {
        Some(ControlInstruction::Unreachable)
    } else if b == 0x01 {
        Some(ControlInstruction::Nop)
    } else if b == 0x02 {
        Some(ControlInstruction::Block)
    } else if b == 0x03 {
        Some(ControlInstruction::Loop)
    } else if b == 0x04 {
        Some(ControlInstruction::If)
    } else if b == 0x05 {
        Some(ControlInstruction::Else)
    } else if b == 0x0C {
        Some(ControlInstruction::Br)
    } else if b == 0x0D {
        Some(ControlInstruction::BrIf)
    } else if b == 0x0E {
        Some(ControlInstruction::BrTable)
    } else if b == 0x0F {
        Some(ControlInstruction::Return)
    } else if b == 0x10 {
        Some(ControlInstruction::Call)
    } else if b == 0x11 {
        Some(ControlInstruction::CallIndirect)
    } else {
        None
    }
}

/// One control instruction at `pos`. A bare `Else` or `End`, or a byte of
/// the family's range that names no member, is an unknown opcode.
pub open spec fn sp_control_instruction(s: Seq<u8>, pos: int, end: int) -> Result<
    (InstructionV, int),
    DecodeError,
>
    decreases end - pos, 0int,
{
    if pos >= end {
        Err(DecodeError::TruncatedInput)
    } else {
        let b = s[pos];
        match sp_control_tag(b) {
            Some(ControlInstruction::Unreachable) | Some(ControlInstruction::Nop) | Some(
                ControlInstruction::Return,
            ) => Ok((InstructionV { opcode: b, arguments: OpArgumentV::NoArg }, pos + 1)),
            Some(ControlInstruction::Block) | Some(ControlInstruction::Loop) => match sp_instr_seq(
                s,
                pos + 1,
                end,
            ) {
                Ok((body, p, term)) => if term == 0x0B {
                    Ok((InstructionV { opcode: b, arguments: OpArgumentV::Block(body) }, p))
                } else {
                    Err(DecodeError::UnknownOpcode(0x05))
                },
                Err(e) => Err(e),
            },
            Some(ControlInstruction::If) => match sp_instr_seq(s, pos + 1, end) {
                Ok((then_body, p, term)) => if term == 0x0B {
                    Ok(
                        (
                            InstructionV {
                                opcode: b,
                                arguments: OpArgumentV::IfElse(then_body, None),
                            },
                            p,
                        ),
                    )
                } else if p <= pos + 1 || end < p {
                    // a sequence always advances the cursor and stays in
                    // bounds; this branch keeps the recursion manifestly
                    // well-founded
                    Err(DecodeError::TruncatedInput)
                } else {
                    match sp_instr_seq(s, p, end) {
                        Ok((else_body, p2, term2)) => if term2 == 0x0B {
                            Ok(
                                (
                                    InstructionV {
                                        opcode: b,
                                        arguments: OpArgumentV::IfElse(then_body, Some(else_body)),
                                    },
                                    p2,
                                ),
                            )
                        } else {
                            Err(DecodeError::UnknownOpcode(0x05))
                        },
                        Err(e) => Err(e),
                    }
                },
                Err(e) => Err(e),
            },
            Some(ControlInstruction::Else) => Err(DecodeError::UnknownOpcode(b)),
            Some(ControlInstruction::Br) | Some(ControlInstruction::BrIf) => match sp_leb_u32(
                s,
                pos + 1,
                end,
            ) {
                Ok((d, p)) => Ok(
                    (InstructionV { opcode: b, arguments: OpArgumentV::Depth(d) }, p),
                ),
                Err(e) => Err(e),
            },
            Some(ControlInstruction::BrTable) => match sp_u32_vec(s, pos + 1, end) {
                Ok((targets, p)) => match sp_leb_u32(s, p, end) {
                    Ok((d, p2)) => Ok(
                        (
                            InstructionV {
                                opcode: b,
                                arguments: OpArgumentV::BrTable(targets, d),
                            },
                            p2,
                        ),
                    ),
                    Err(e) => Err(e),
                },
                Err(e) => Err(e),
            },
            Some(ControlInstruction::Call) => match sp_leb_u32(s, pos + 1, end) {
                Ok((f, p)) => Ok(
                    (InstructionV { opcode: b, arguments: OpArgumentV::CallFunc(f) }, p),
                ),
                Err(e) => Err(e),
            },
            Some(ControlInstruction::CallIndirect) => match sp_leb_u32(s, pos + 1, end) {
                Ok((ty, p)) => match sp_leb_u32(s, p, end) {
                    Ok((tbl, p2)) => Ok(
                        (
                            InstructionV {
                                opcode: b,
                                arguments: OpArgumentV::CallIndirect(ty, tbl),
                            },
                            p2,
                        ),
                    ),
                    Err(e) => Err(e),
                },
                Err(e) => Err(e),
            },
            None => Err(DecodeError::UnknownOpcode(b)),
        }
    }
}

/// One variable instruction at `pos`: the opcode byte and one unsigned
/// index, local-scoped for `0x20`..`0x22` and global-scoped for the rest.
pub open spec fn sp_variable_instruction(s: Seq<u8>, pos: int, end: int) -> Result<
    (InstructionV, int),
    DecodeError,
> {
    if pos >= end {
        Err(DecodeError::TruncatedInput)
    } else {
        let b = s[pos];
        if !(0x20 <= b && b <= 0x24) {
            Err(DecodeError::UnknownOpcode(b))
        } else {
            match sp_leb_u32(s, pos + 1, end) {
                Ok((idx, p)) => Ok(
                    (
                        InstructionV {
                            opcode: b,
                            arguments: OpArgumentV::Index(
                                if b <= 0x22 {
                                    Index::Local(idx)
                                } else {
                                    Index::Global(idx)
                                },
                            ),
                        },
                        p,
                    ),
                ),
                Err(e) => Err(e),
            }
        }
    }
}

/// One memory instruction at `pos`: the opcode byte and a memory-access
/// descriptor, alignment then offset.
pub open spec fn sp_memory_instruction(s: Seq<u8>, pos: int, end: int) -> Result<
    (InstructionV, int),
    DecodeError,
> {
    if pos >= end {
        Err(DecodeError::TruncatedInput)
    } else {
        let b = s[pos];
        if !(0x28 <= b && b <= 0x40) {
            Err(DecodeError::UnknownOpcode(b))
        } else {
            match sp_leb_u32(s, pos + 1, end) {
                Ok((align, p)) => match sp_leb_u32(s, p, end) {
                    Ok((offset, p2)) => Ok(
                        (
                            InstructionV {
                                opcode: b,
                                arguments: OpArgumentV::MemArg(MemArg { align, offset }),
                            },
                            p2,
                        ),
                    ),
                    Err(e) => Err(e),
                },
                Err(e) => Err(e),
            }
        }
    }
}

/// One numeric instruction at `pos`. The four constant opcodes
/// `0x41`..`0x44` carry an immediate whose width and kind the opcode fixes;
/// every other opcode of the family carries no operand.
pub open spec fn sp_numeric_instruction(s: Seq<u8>, pos: int, end: int) -> Result<
    (InstructionV, int),
    DecodeError,
> {
    if pos >= end {
        Err(DecodeError::TruncatedInput)
    } else {
        let b = s[pos];
        if !(0x41 <= b && b <= 0xBF) {
            Err(DecodeError::UnknownOpcode(b))
        } else if b == 0x41 {
            match sp_leb_i32(s, pos + 1, end) {
                Ok((v, p)) => Ok(
                    (
                        InstructionV {
                            opcode: b,
                            arguments: OpArgumentV::InstantValue(InstantValue::I32(v)),
                        },
                        p,
                    ),
                ),
                Err(e) => Err(e),
            }
        } else if b == 0x42 {
            match sp_leb_i64(s, pos + 1, end) {
                Ok((v, p)) => Ok(
                    (
                        InstructionV {
                            opcode: b,
                            arguments: OpArgumentV::InstantValue(InstantValue::I64(v)),
                        },
                        p,
                    ),
                ),
                Err(e) => Err(e),
            }
        } else if b == 0x43 {
            match sp_le_u32(s, pos + 1, end) {
                Ok((v, p)) => Ok(
                    (
                        InstructionV {
                            opcode: b,
                            arguments: OpArgumentV::InstantValue(InstantValue::F32(v)),
                        },
                        p,
                    ),
                ),
                Err(e) => Err(e),
            }
        } else if b == 0x44 {
            match sp_le_u64(s, pos + 1, end) {
                Ok((v, p)) => Ok(
                    (
                        InstructionV {
                            opcode: b,
                            arguments: OpArgumentV::InstantValue(InstantValue::F64(v)),
                        },
                        p,
                    ),
                ),
                Err(e) => Err(e),
            }
        } else {
            Ok((InstructionV { opcode: b, arguments: OpArgumentV::NoArg }, pos + 1))
        }
    }
}

/// One instruction at `pos`, classified by the numeric range of its opcode
/// byte. A byte in no known range is an unknown opcode: the shape of the
/// remaining stream cannot be inferred past it.
pub open spec fn sp_instruction(s: Seq<u8>, pos: int, end: int) -> Result<
    (InstructionV, int),
    DecodeError,
>
    decreases end - pos, 1int,
{
    if pos >= end {
        Err(DecodeError::TruncatedInput)
    } else {
        let b = s[pos];
        if b <= 0x11 {
            sp_control_instruction(s, pos, end)
        } else if 0x1A <= b && b <= 0x1B {
            Ok((InstructionV { opcode: b, arguments: OpArgumentV::NoArg }, pos + 1))
        } else if 0x20 <= b && b <= 0x24 {
            sp_variable_instruction(s, pos, end)
        } else if 0x28 <= b && b <= 0x40 {
            sp_memory_instruction(s, pos, end)
        } else if 0x41 <= b && b <= 0xBF {
            sp_numeric_instruction(s, pos, end)
        } else {
            Err(DecodeError::UnknownOpcode(b))
        }
    }
}

/// Instructions from `pos` up to and including the first terminator byte
/// (`End`, `0x0B`, or `Else`, `0x05`) at this nesting depth. Returns the
/// decoded instructions, the cursor past the terminator, and the terminator
/// byte itself. Running out of input before the terminator is the
/// unbalanced-block failure, surfaced as `TruncatedInput`.
pub open spec fn sp_instr_seq(s: Seq<u8>, pos: int, end: int) -> Result<
    (Seq<InstructionV>, int, u8),
    DecodeError,
>
    decreases end - pos, 2int,
{
    if pos >= end {
        Err(DecodeError::TruncatedInput)
    } else {
        let b = s[pos];
        if b == 0x0B || b == 0x05 {
            Ok((seq![], pos + 1, b))
        } else {
            match sp_instruction(s, pos, end) {
                Ok((iv, p)) => if p <= pos || end < p {
                    // an instruction always advances the cursor and stays in
                    // bounds; this branch keeps the recursion manifestly
                    // well-founded
                    Err(DecodeError::TruncatedInput)
                } else {
                    match sp_instr_seq(s, p, end) {
                        Ok((rest, p2, t)) => Ok((seq![iv] + rest, p2, t)),
                        Err(e) => Err(e),
                    }
                },
                Err(e) => Err(e),
            }
        }
    }
}

/// A successful control-instruction read consumes at least one byte and
/// stays in bounds.
pub proof fn lemma_control_instruction_bounds(s: Seq<u8>, pos: int, end: int)
    ensures
        match sp_control_instruction(s, pos, end) {
            Ok((iv, p)) => pos < p <= end,
            Err(_) => true,
        },
    decreases end - pos, 0int,
{
    if pos < end {
        let b = s[pos];
        match sp_control_tag(b) {
            Some(ControlInstruction::Block) | Some(ControlInstruction::Loop) => {
                lemma_instr_seq_bounds(s, pos + 1, end);
            },
            Some(ControlInstruction::If) => {
                lemma_instr_seq_bounds(s, pos + 1, end);
                match sp_instr_seq(s, pos + 1, end) {
                    Ok((then_body, p, term)) => {
                        if term != 0x0B && p > pos + 1 && p <= end {
                            lemma_instr_seq_bounds(s, p, end);
                        }
                    },
                    Err(_) => {},
                }
            },
            Some(ControlInstruction::Br) | Some(ControlInstruction::BrIf) | Some(
                ControlInstruction::Call,
            ) => {
                lemma_leb_u32_bounds(s, pos + 1, end);
            },
            Some(ControlInstruction::BrTable) => {
                lemma_u32_vec_bounds(s, pos + 1, end);
                match sp_u32_vec(s, pos + 1, end) {
                    Ok((targets, p)) => {
                        lemma_leb_u32_bounds(s, p, end);
                    },
                    Err(_) => {},
                }
            },
            Some(ControlInstruction::CallIndirect) => {
                lemma_leb_u32_bounds(s, pos + 1, end);
                match sp_leb_u32(s, pos + 1, end) {
                    Ok((ty, p)) => {
                        lemma_leb_u32_bounds(s, p, end);
                    },
                    Err(_) => {},
                }
            },
            _ => {},
        }
    }
}

/// A successful instruction read consumes at least one byte and stays in
/// bounds.
pub proof fn lemma_instruction_bounds(s: Seq<u8>, pos: int, end: int)
    ensures
        match sp_instruction(s, pos, end) {
            Ok((iv, p)) => pos < p <= end,
            Err(_) => true,
        },
    decreases end - pos, 1int,
{
    if pos < end {
        let b = s[pos];
        if b <= 0x11 {
            lemma_control_instruction_bounds(s, pos, end);
        } else if 0x20 <= b && b <= 0x24 {
            lemma_leb_u32_bounds(s, pos + 1, end);
        } else if 0x28 <= b && b <= 0x40 {
            lemma_leb_u32_bounds(s, pos + 1, end);
            match sp_leb_u32(s, pos + 1, end) {
                Ok((align, p)) => {
                    lemma_leb_u32_bounds(s, p, end);
                },
                Err(_) => {},
            }
        } else if 0x41 <= b && b <= 0xBF {
            lemma_sleb_bounds(s, pos + 1, end, 5);
            lemma_sleb_bounds(s, pos + 1, end, 10);
        }
    }
}

/// A successful instruction-sequence read consumes at least its terminator
/// and stays in bounds.
pub proof fn lemma_instr_seq_bounds(s: Seq<u8>, pos: int, end: int)
    ensures
        match sp_instr_seq(s, pos, end) {
            Ok((body, p, t)) => pos < p <= end,
            Err(_) => true,
        },
    decreases end - pos, 2int,
{
    if pos < end {
        let b = s[pos];
        if b != 0x0B && b != 0x05 {
            lemma_instruction_bounds(s, pos, end);
            match sp_instruction(s, pos, end) {
                Ok((iv, p)) => {
                    if p > pos {
                        lemma_instr_seq_bounds(s, p, end);
                    }
                },
                Err(_) => {},
            }
        }
    }
}

/// Classifies a byte as a control instruction.
pub fn control_instruction_from_byte(b: u8) -> (r: Option<ControlInstruction>)
    ensures
        r == sp_control_tag(b),
{
    if b == 0x00 {
        Some(ControlInstruction::Unreachable)
    } else if b == 0x01 {
        Some(ControlInstruction::Nop)
    } else if b == 0x02 {
        Some(ControlInstruction::Block)
    } else if b == 0x03 {
        Some(ControlInstruction::Loop)
    } else if b == 0x04 {
        Some(ControlInstruction::If)
    } else if b == 0x05 {
        Some(ControlInstruction::Else)
    } else if b == 0x0C {
        Some(ControlInstruction::Br)
    } else if b == 0x0D {
        Some(ControlInstruction::BrIf)
    } else if b == 0x0E {
        Some(ControlInstruction::BrTable)
    } else if b == 0x0F {
        Some(ControlInstruction::Return)
    } else if b == 0x10 {
        Some(ControlInstruction::Call)
    } else if b == 0x11 {
        Some(ControlInstruction::CallIndirect)
    } else {
        None
    }
}

/// Decodes one control instruction at `pos`, recursing into the nested
/// bodies of structured control instructions.
pub fn parse_control_instruction(input: &[u8], pos: usize, end: usize) -> (r: Result<
    (Instruction, usize),
    DecodeError,
>)
    requires
        pos <= end <= input@.len(),
    ensures
        match r {
            Ok((v, p)) => sp_control_instruction(input@, pos as int, end as int) == Ok::<
                (InstructionV, int),
                DecodeError,
            >((instr_view(v), p as int)) && pos < p <= end,
            Err(e) => sp_control_instruction(input@, pos as int, end as int) == Err::<
                (InstructionV, int),
                DecodeError,
            >(e),
        },
    decreases end - pos, 0int,
{
    if pos >= end {
        return Err(DecodeError::TruncatedInput);
    }
    let b = input[pos];
    match control_instruction_from_byte(b) {
        Some(ControlInstruction::Unreachable) | Some(ControlInstruction::Nop) | Some(
            ControlInstruction::Return,
        ) => Ok((Instruction { opcode: b, arguments: OpArgument::NoArg }, pos + 1)),
        Some(ControlInstruction::Block) | Some(ControlInstruction::Loop) => {
            match parse_block(input, pos + 1, end) {
                Ok((body, p, term)) => {
                    if term == 0x0B {
                        Ok((Instruction { opcode: b, arguments: OpArgument::Block(body) }, p))
                    } else {
                        Err(DecodeError::UnknownOpcode(0x05))
                    }
                },
                Err(e) => Err(e),
            }
        },
        Some(ControlInstruction::If) => {
            match parse_block(input, pos + 1, end) {
                Ok((then_body, p, term)) => {
                    if term == 0x0B {
                        Ok(
                            (
                                Instruction {
                                    opcode: b,
                                    arguments: OpArgument::IfElse(then_body, None),
                                },
                                p,
                            ),
                        )
                    } else {
                        match parse_block(input, p, end) {
                            Ok((else_body, p2, term2)) => {
                                if term2 == 0x0B {
                                    Ok(
                                        (
                                            Instruction {
                                                opcode: b,
                                                arguments: OpArgument::IfElse(
                                                    then_body,
                                                    Some(else_body),
                                                ),
                                            },
                                            p2,
                                        ),
                                    )
                                } else {
                                    Err(DecodeError::UnknownOpcode(0x05))
                                }
                            },
                            Err(e) => Err(e),
                        }
                    }
                },
                Err(e) => Err(e),
            }
        },
        Some(ControlInstruction::Else) => Err(DecodeError::UnknownOpcode(b)),
        Some(ControlInstruction::Br) | Some(ControlInstruction::BrIf) => {
            match parse_leb_u32(input, pos + 1, end) {
                Ok((d, p)) => Ok(
                    (Instruction { opcode: b, arguments: OpArgument::Depth(d) }, p),
                ),
                Err(e) => Err(e),
            }
        },
        Some(ControlInstruction::BrTable) => {
            match parse_u32_vec(input, pos + 1, end) {
                Ok((targets, p)) => match parse_leb_u32(input, p, end) {
                    Ok((d, p2)) => Ok(
                        (
                            Instruction { opcode: b, arguments: OpArgument::BrTable(targets, d) },
                            p2,
                        ),
                    ),
                    Err(e) => Err(e),
                },
                Err(e) => Err(e),
            }
        },
        Some(ControlInstruction::Call) => {
            match parse_leb_u32(input, pos + 1, end) {
                Ok((f, p)) => Ok(
                    (Instruction { opcode: b, arguments: OpArgument::CallFunc(f) }, p),
                ),
                Err(e) => Err(e),
            }
        },
        Some(ControlInstruction::CallIndirect) => {
            match parse_leb_u32(input, pos + 1, end) {
                Ok((ty, p)) => match parse_leb_u32(input, p, end) {
                    Ok((tbl, p2)) => Ok(
                        (
                            Instruction {
                                opcode: b,
                                arguments: OpArgument::CallIndirect(ty, tbl),
                            },
                            p2,
                        ),
                    ),
                    Err(e) => Err(e),
                },
                Err(e) => Err(e),
            }
        },
        None => Err(DecodeError::UnknownOpcode(b)),
    }
}

/// Decodes one variable instruction at `pos`.
pub fn parse_variable_instruction(input: &[u8], pos: usize, end: usize) -> (r: Result<
    (Instruction, usize),
    DecodeError,
>)
    requires
        pos <= end <= input@.len(),
    ensures
        match r {
            Ok((v, p)) => sp_variable_instruction(input@, pos as int, end as int) == Ok::<
                (InstructionV, int),
                DecodeError,
            >((instr_view(v), p as int)) && pos < p <= end,
            Err(e) => sp_variable_instruction(input@, pos as int, end as int) == Err::<
                (InstructionV, int),
                DecodeError,
            >(e),
        },
{
    if pos >= end {
        return Err(DecodeError::TruncatedInput);
    }
    let b = input[pos];
    if !(0x20 <= b && b <= 0x24) {
        return Err(DecodeError::UnknownOpcode(b));
    }
    match parse_leb_u32(input, pos + 1, end) {
        Ok((idx, p)) => {
            let index = if b <= 0x22 {
                Index::Local(idx)
            } else {
                Index::Global(idx)
            };
            Ok((Instruction { opcode: b, arguments: OpArgument::Index(index) }, p))
        },
        Err(e) => Err(e),
    }
}

/// Decodes one memory instruction at `pos`.
pub fn parse_memory_instruction(input: &[u8], pos: usize, end: usize) -> (r: Result<
    (Instruction, usize),
    DecodeError,
>)
    requires
        pos <= end <= input@.len(),
    ensures
        match r {
            Ok((v, p)) => sp_memory_instruction(input@, pos as int, end as int) == Ok::<
                (InstructionV, int),
                DecodeError,
            >((instr_view(v), p as int)) && pos < p <= end,
            Err(e) => sp_memory_instruction(input@, pos as int, end as int) == Err::<
                (InstructionV, int),
                DecodeError,
            >(e),
        },
{
    if pos >= end {
        return Err(DecodeError::TruncatedInput);
    }
    let b = input[pos];
    if !(0x28 <= b && b <= 0x40) {
        return Err(DecodeError::UnknownOpcode(b));
    }
    match parse_leb_u32(input, pos + 1, end) {
        Ok((align, p)) => match parse_leb_u32(input, p, end) {
            Ok((offset, p2)) => Ok(
                (
                    Instruction {
                        opcode: b,
                        arguments: OpArgument::MemArg(MemArg { align, offset }),
                    },
                    p2,
                ),
            ),
            Err(e) => Err(e),
        },
        Err(e) => Err(e),
    }
}

/// Decodes one numeric instruction at `pos`.
pub fn parse_numeric_instruction(input: &[u8], pos: usize, end: usize) -> (r: Result<
    (Instruction, usize),
    DecodeError,
>)
    requires
        pos <= end <= input@.len(),
    ensures
        match r {
            Ok((v, p)) => sp_numeric_instruction(input@, pos as int, end as int) == Ok::<
                (InstructionV, int),
                DecodeError,
            >((instr_view(v), p as int)) && pos < p <= end,
            Err(e) => sp_numeric_instruction(input@, pos as int, end as int) == Err::<
                (InstructionV, int),
                DecodeError,
            >(e),
        },
{
    if pos >= end {
        return Err(DecodeError::TruncatedInput);
    }
    let b = input[pos];
    if !(0x41 <= b && b <= 0xBF) {
        return Err(DecodeError::UnknownOpcode(b));
    }
    if b == 0x41 {
        match parse_leb_i32(input, pos + 1, end) {
            Ok((v, p)) => Ok(
                (
                    Instruction {
                        opcode: b,
                        arguments: OpArgument::InstantValue(InstantValue::I32(v)),
                    },
                    p,
                ),
            ),
            Err(e) => Err(e),
        }
    } else if b == 0x42 {
        match parse_leb_i64(input, pos + 1, end) {
            Ok((v, p)) => Ok(
                (
                    Instruction {
                        opcode: b,
                        arguments: OpArgument::InstantValue(InstantValue::I64(v)),
                    },
                    p,
                ),
            ),
            Err(e) => Err(e),
        }
    } else if b == 0x43 {
        match parse_le_u32(input, pos + 1, end) {
            Ok((v, p)) => Ok(
                (
                    Instruction {
                        opcode: b,
                        arguments: OpArgument::InstantValue(InstantValue::F32(v)),
                    },
                    p,
                ),
            ),
            Err(e) => Err(e),
        }
    } else if b == 0x44 {
        match parse_le_u64(input, pos + 1, end) {
            Ok((v, p)) => Ok(
                (
                    Instruction {
                        opcode: b,
                        arguments: OpArgument::InstantValue(InstantValue::F64(v)),
                    },
                    p,
                ),
            ),
            Err(e) => Err(e),
        }
    } else {
        Ok((Instruction { opcode: b, arguments: OpArgument::NoArg }, pos + 1))
    }
}

/// Decodes one instruction at `pos`, whatever its family.
pub fn parse_instruction(input: &[u8], pos: usize, end: usize) -> (r: Result<
    (Instruction, usize),
    DecodeError,
>)
    requires
        pos <= end <= input@.len(),
    ensures
        match r {
            Ok((v, p)) => sp_instruction(input@, pos as int, end as int) == Ok::<
                (InstructionV, int),
                DecodeError,
            >((instr_view(v), p as int)) && pos < p <= end,
            Err(e) => sp_instruction(input@, pos as int, end as int) == Err::<
                (InstructionV, int),
                DecodeError,
            >(e),
        },
    decreases end - pos, 1int,
{
    if pos >= end {
        return Err(DecodeError::TruncatedInput);
    }
    let b = input[pos];
    if b <= 0x11 {
        parse_control_instruction(input, pos, end)
    } else if 0x1A <= b && b <= 0x1B {
        Ok((Instruction { opcode: b, arguments: OpArgument::NoArg }, pos + 1))
    } else if 0x20 <= b && b <= 0x24 {
        parse_variable_instruction(input, pos, end)
    } else if 0x28 <= b && b <= 0x40 {
        parse_memory_instruction(input, pos, end)
    } else if 0x41 <= b && b <= 0xBF {
        parse_numeric_instruction(input, pos, end)
    } else {
        Err(DecodeError::UnknownOpcode(b))
    }
}

/// Decodes instructions from `pos` up to and including the terminator byte
/// that closes this nesting depth, returning the instructions, the cursor
/// past the terminator, and the terminator byte.
#[verifier::loop_isolation(false)]
pub fn parse_block(input: &[u8], pos: usize, end: usize) -> (r: Result<
    (Vec<Instruction>, usize, u8),
    DecodeError,
>)
    requires
        pos <= end <= input@.len(),
    ensures
        match r {
            Ok((v, p, t)) => sp_instr_seq(input@, pos as int, end as int) == Ok::<
                (Seq<InstructionV>, int, u8),
                DecodeError,
            >((instrs_view(v@), p as int, t)) && pos < p <= end,
            Err(e) => sp_instr_seq(input@, pos as int, end as int) == Err::<
                (Seq<InstructionV>, int, u8),
                DecodeError,
            >(e),
        },
    decreases end - pos, 2int,
{
    let mut out: Vec<Instruction> = Vec::new();
    let mut cur = pos;
    proof {
        match sp_instr_seq(input@, cur as int, end as int) {
            Ok((rest, p2, t)) => {
                assert(instrs_view(out@) + rest =~= rest);
            },
            Err(_) => {},
        }
    }
    while cur < end
        invariant
            pos <= cur <= end,
            match sp_instr_seq(input@, cur as int, end as int) {
                Ok((rest, p2, t)) => sp_instr_seq(input@, pos as int, end as int) == Ok::<
                    (Seq<InstructionV>, int, u8),
                    DecodeError,
                >((instrs_view(out@) + rest, p2, t)),
                Err(e) => sp_instr_seq(input@, pos as int, end as int) == Err::<
                    (Seq<InstructionV>, int, u8),
                    DecodeError,
                >(e),
            },
        decreases end - cur,
    {
        let b = input[cur];
        if b == 0x0B || b == 0x05 {
            proof {
                assert(instrs_view(out@) + seq![] =~= instrs_view(out@));
            }
            return Ok((out, cur + 1, b));
        }
        match parse_instruction(input, cur, end) {
            Ok((instr, p)) => {
                proof {
                    lemma_instrs_view_push(out@, instr);
                    match sp_instr_seq(input@, p as int, end as int) {
                        Ok((rest, p2, t)) => {
                            assert(instrs_view(out@) + (seq![instr_view(instr)] + rest)
                                =~= instrs_view(out@).push(instr_view(instr)) + rest);
                        },
                        Err(_) => {},
                    }
                }
                out.push(instr);
                cur = p;
            },
            Err(e) => {
                return Err(e);
            },
        }
    }
    Err(DecodeError::TruncatedInput)
}

/// A byte that is assigned in no instruction family fails the instruction
/// decoder with `UnknownOpcode` naming that byte.
pub proof fn lemma_unknown_opcode(s: Seq<u8>, pos: int, end: int)
    requires
        0 <= pos < end,
        (0x06 <= s[pos] && s[pos] <= 0x0A) || (0x12 <= s[pos] && s[pos] <= 0x19) || (0x1C <= s[pos]
            && s[pos] <= 0x1F) || (0x25 <= s[pos] && s[pos] <= 0x27) || 0xC0 <= s[pos],
    ensures
        sp_instruction(s, pos, end) == Err::<(InstructionV, int), DecodeError>(
            DecodeError::UnknownOpcode(s[pos]),
        ),
{
}

/// Depth-counted termination of nested blocks: a body made of two opening
/// `Block` bytes, an inner instruction sequence closed by `End`, and one
/// more `End` decodes as the outer block holding exactly the inner block,
/// the inner one fully decoded first; the final `End` closes the outer
/// block and nothing before it does.
pub proof fn lemma_nested_blocks(s: Seq<u8>, pos: int, end: int, inner: Seq<InstructionV>, p: int)
    requires
        0 <= pos,
        pos + 2 <= end <= s.len(),
        s[pos] == 0x02,
        s[pos + 1] == 0x02,
        sp_instr_seq(s, pos + 2, end) == Ok::<(Seq<InstructionV>, int, u8), DecodeError>(
            (inner, p, 0x0B),
        ),
        p < end,
        s[p] == 0x0B,
    ensures
        sp_instruction(s, pos, end) == Ok::<(InstructionV, int), DecodeError>(
            (
                InstructionV {
                    opcode: 0x02,
                    arguments: OpArgumentV::Block(
                        seq![
                            InstructionV { opcode: 0x02, arguments: OpArgumentV::Block(inner) },
                        ],
                    ),
                },
                p + 1,
            ),
        ),
{
    lemma_instr_seq_bounds(s, pos + 2, end);
    let inner_instr = InstructionV { opcode: 0x02, arguments: OpArgumentV::Block(inner) };
    assert(sp_control_instruction(s, pos + 1, end) == Ok::<(InstructionV, int), DecodeError>(
        (inner_instr, p),
    ));
    assert(sp_instruction(s, pos + 1, end) == Ok::<(InstructionV, int), DecodeError>(
        (inner_instr, p),
    ));
    assert(sp_instr_seq(s, p, end) == Ok::<(Seq<InstructionV>, int, u8), DecodeError>(
        (seq![], p + 1, 0x0B),
    ));
    assert(sp_instr_seq(s, pos + 1, end) == Ok::<(Seq<InstructionV>, int, u8), DecodeError>(
        (seq![inner_instr] + seq![], p + 1, 0x0B),
    ));
    assert(seq![inner_instr] + seq![] =~= seq![inner_instr]);
    assert(sp_control_instruction(s, pos, end) == Ok::<(InstructionV, int), DecodeError>(
        (InstructionV { opcode: 0x02, arguments: OpArgumentV::Block(seq![inner_instr]) }, p + 1),
    ));
}

} // verus!
