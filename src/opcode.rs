//! Instructions of the code segment and their decoding.

use crate::bits::{read_i32, u32_at};
use vstd::prelude::*;

verus! {

/// An instruction's operator, numbered as its byte in the code segment.
#[derive(Clone, Copy, Debug, PartialEq, Eq, Structural)]
pub enum Operator {
    Add,
    Subtract,
    Multiply,
    Divide,
    Mod,
    BinOr,
    BinAnd,
    Less,
    Greater,
    Assign,
    LogOr,
    LogAnd,
    ShiftLeft,
    ShiftRight,
    LessOrEqual,
    Equal,
    NotEqual,
    GreaterOrEqual,
    AssignAdd,
    AssignSubtract,
    AssignMultiply,
    AssignDivide,
    Plus,
    Minus,
    Not,
    Negate,
    Ret,
    Call,
    CallExternal,
    PushInt,
    PushVar,
    PushInstance,
    AssignString,
    AssignStringRef,
    AssignFunc,
    AssignFloat,
    AssignInstance,
    Jump,
    JumpIf,
    SetInstance,
    PushArrayVar,
}

/// The byte of each operator.
pub open spec fn operator_code(op: Operator) -> u8 {
    match op {
        Operator::Add => 0,
        Operator::Subtract => 1,
        Operator::Multiply => 2,
        Operator::Divide => 3,
        Operator::Mod => 4,
        Operator::BinOr => 5,
        Operator::BinAnd => 6,
        Operator::Less => 7,
        Operator::Greater => 8,
        Operator::Assign => 9,
        Operator::LogOr => 11,
        Operator::LogAnd => 12,
        Operator::ShiftLeft => 13,
        Operator::ShiftRight => 14,
        Operator::LessOrEqual => 15,
        Operator::Equal => 16,
        Operator::NotEqual => 17,
        Operator::GreaterOrEqual => 18,
        Operator::AssignAdd => 19,
        Operator::AssignSubtract => 20,
        Operator::AssignMultiply => 21,
        Operator::AssignDivide => 22,
        Operator::Plus => 30,
        Operator::Minus => 31,
        Operator::Not => 32,
        Operator::Negate => 33,
        Operator::Ret => 60,
        Operator::Call => 61,
        Operator::CallExternal => 62,
        Operator::PushInt => 64,
        Operator::PushVar => 65,
        Operator::PushInstance => 67,
        Operator::AssignString => 70,
        Operator::AssignStringRef => 71,
        Operator::AssignFunc => 72,
        Operator::AssignFloat => 73,
        Operator::AssignInstance => 74,
        Operator::Jump => 75,
        Operator::JumpIf => 76,
        Operator::SetInstance => 80,
        Operator::PushArrayVar => 245,
    }
}

/// The operator with a given byte, if any.
pub open spec fn operator_of_code(b: u8) -> Option<Operator> {
    match b {
        0 => Some(Operator::Add),
        1 => Some(Operator::Subtract),
        2 => Some(Operator::Multiply),
        3 => Some(Operator::Divide),
        4 => Some(Operator::Mod),
        5 => Some(Operator::BinOr),
        6 => Some(Operator::BinAnd),
        7 => Some(Operator::Less),
        8 => Some(Operator::Greater),
        9 => Some(Operator::Assign),
        11 => Some(Operator::LogOr),
        12 => Some(Operator::LogAnd),
        13 => Some(Operator::ShiftLeft),
        14 => Some(Operator::ShiftRight),
        15 => Some(Operator::LessOrEqual),
        16 => Some(Operator::Equal),
        17 => Some(Operator::NotEqual),
        18 => Some(Operator::GreaterOrEqual),
        19 => Some(Operator::AssignAdd),
        20 => Some(Operator::AssignSubtract),
        21 => Some(Operator::AssignMultiply),
        22 => Some(Operator::AssignDivide),
        30 => Some(Operator::Plus),
        31 => Some(Operator::Minus),
        32 => Some(Operator::Not),
        33 => Some(Operator::Negate),
        60 => Some(Operator::Ret),
        61 => Some(Operator::Call),
        62 => Some(Operator::CallExternal),
        64 => Some(Operator::PushInt),
        65 => Some(Operator::PushVar),
        67 => Some(Operator::PushInstance),
        70 => Some(Operator::AssignString),
        71 => Some(Operator::AssignStringRef),
        72 => Some(Operator::AssignFunc),
        73 => Some(Operator::AssignFloat),
        74 => Some(Operator::AssignInstance),
        75 => Some(Operator::Jump),
        76 => Some(Operator::JumpIf),
        80 => Some(Operator::SetInstance),
        245 => Some(Operator::PushArrayVar),
        _ => None,
    }
}

impl Operator {
    pub fn code(self) -> (r: u8)
        ensures
            r == operator_code(self),
            operator_of_code(r) == Some(self),
    {
        match self {
            Operator::Add => 0,
            Operator::Subtract => 1,
            Operator::Multiply => 2,
            Operator::Divide => 3,
            Operator::Mod => 4,
            Operator::BinOr => 5,
            Operator::BinAnd => 6,
            Operator::Less => 7,
            Operator::Greater => 8,
            Operator::Assign => 9,
            Operator::LogOr => 11,
            Operator::LogAnd => 12,
            Operator::ShiftLeft => 13,
            Operator::ShiftRight => 14,
            Operator::LessOrEqual => 15,
            Operator::Equal => 16,
            Operator::NotEqual => 17,
            Operator::GreaterOrEqual => 18,
            Operator::AssignAdd => 19,
            Operator::AssignSubtract => 20,
            Operator::AssignMultiply => 21,
            Operator::AssignDivide => 22,
            Operator::Plus => 30,
            Operator::Minus => 31,
            Operator::Not => 32,
            Operator::Negate => 33,
            Operator::Ret => 60,
            Operator::Call => 61,
            Operator::CallExternal => 62,
            Operator::PushInt => 64,
            Operator::PushVar => 65,
            Operator::PushInstance => 67,
            Operator::AssignString => 70,
            Operator::AssignStringRef => 71,
            Operator::AssignFunc => 72,
            Operator::AssignFloat => 73,
            Operator::AssignInstance => 74,
            Operator::Jump => 75,
            Operator::JumpIf => 76,
            Operator::SetInstance => 80,
            Operator::PushArrayVar => 245,
        }
    }

    pub fn from_code(b: u8) -> (r: Option<Operator>)
        ensures
            r == operator_of_code(b),
            r matches Some(op) ==> operator_code(op) == b,
    {
        match b {
            0 => Some(Operator::Add),
            1 => Some(Operator::Subtract),
            2 => Some(Operator::Multiply),
            3 => Some(Operator::Divide),
            4 => Some(Operator::Mod),
            5 => Some(Operator::BinOr),
            6 => Some(Operator::BinAnd),
            7 => Some(Operator::Less),
            8 => Some(Operator::Greater),
            9 => Some(Operator::Assign),
            11 => Some(Operator::LogOr),
            12 => Some(Operator::LogAnd),
            13 => Some(Operator::ShiftLeft),
            14 => Some(Operator::ShiftRight),
            15 => Some(Operator::LessOrEqual),
            16 => Some(Operator::Equal),
            17 => Some(Operator::NotEqual),
            18 => Some(Operator::GreaterOrEqual),
            19 => Some(Operator::AssignAdd),
            20 => Some(Operator::AssignSubtract),
            21 => Some(Operator::AssignMultiply),
            22 => Some(Operator::AssignDivide),
            30 => Some(Operator::Plus),
            31 => Some(Operator::Minus),
            32 => Some(Operator::Not),
            33 => Some(Operator::Negate),
            60 => Some(Operator::Ret),
            61 => Some(Operator::Call),
            62 => Some(Operator::CallExternal),
            64 => Some(Operator::PushInt),
            65 => Some(Operator::PushVar),
            67 => Some(Operator::PushInstance),
            70 => Some(Operator::AssignString),
            71 => Some(Operator::AssignStringRef),
            72 => Some(Operator::AssignFunc),
            73 => Some(Operator::AssignFloat),
            74 => Some(Operator::AssignInstance),
            75 => Some(Operator::Jump),
            76 => Some(Operator::JumpIf),
            80 => Some(Operator::SetInstance),
            245 => Some(Operator::PushArrayVar),
            _ => None,
        }
    }
}

/// Operators followed by a code address.
pub open spec fn takes_address(op: Operator) -> bool {
    op == Operator::Call || op == Operator::Jump || op == Operator::JumpIf
}

/// Operators followed by a symbol index.
pub open spec fn takes_symbol(op: Operator) -> bool {
    op == Operator::CallExternal || op == Operator::PushVar || op == Operator::PushInstance
        || op == Operator::SetInstance || op == Operator::PushArrayVar
}

/// The number of bytes an instruction with operator `op` occupies.
pub open spec fn encoded_size(op: Operator) -> nat {
    if op == Operator::PushArrayVar {
        6
    } else if takes_address(op) || takes_symbol(op) || op == Operator::PushInt {
        5
    } else {
        1
    }
}

/// A decoded instruction.
#[derive(Clone, Copy, Debug, PartialEq, Eq, Structural)]
pub struct StackOpCode {
    pub operator: Operator,
    pub address: Option<i32>,
    pub symbol: Option<i32>,
    pub value: Option<i32>,
    pub index: Option<u8>,
    pub operator_size: usize,
}

impl StackOpCode {
    pub fn new(operator: Operator, operator_size: usize) -> (r: StackOpCode)
        ensures
            r == (StackOpCode {
                operator,
                address: None,
                symbol: None,
                value: None,
                index: None,
                operator_size,
            }),
    {
        StackOpCode { operator, address: None, symbol: None, value: None, index: None, operator_size }
    }

    pub fn with_address(self, address: i32) -> (r: StackOpCode)
        ensures
            r == (StackOpCode { address: Some(address), ..self }),
    {
        StackOpCode { address: Some(address), ..self }
    }

    pub fn with_symbol(self, symbol: i32) -> (r: StackOpCode)
        ensures
            r == (StackOpCode { symbol: Some(symbol), ..self }),
    {
        StackOpCode { symbol: Some(symbol), ..self }
    }

    pub fn with_value(self, value: i32) -> (r: StackOpCode)
        ensures
            r == (StackOpCode { value: Some(value), ..self }),
    {
        StackOpCode { value: Some(value), ..self }
    }

    pub fn with_index(self, index: u8) -> (r: StackOpCode)
        ensures
            r == (StackOpCode { index: Some(index), ..self }),
    {
        StackOpCode { index: Some(index), ..self }
    }

    pub fn get_operator(&self) -> (r: Operator)
        ensures
            r == self.operator,
    {
        self.operator
    }

    pub fn get_operator_size(&self) -> (r: usize)
        ensures
            r == self.operator_size,
    {
        self.operator_size
    }
}

/// The instruction whose operator byte stands at `pc`, its payload read from the
/// bytes after it.
pub open spec fn opcode_at(code: Seq<u8>, pc: int, op: Operator) -> StackOpCode {
    let word = u32_at(code, pc + 1) as i32;
    StackOpCode {
        operator: op,
        address: if takes_address(op) {
            Some(word)
        } else {
            None
        },
        symbol: if takes_symbol(op) {
            Some(word)
        } else {
            None
        },
        value: if op == Operator::PushInt {
            Some(word)
        } else {
            None
        },
        index: if op == Operator::PushArrayVar {
            Some(code[pc + 5])
        } else {
            None
        },
        operator_size: encoded_size(op) as usize,
    }
}

/// The instruction at `pc`, where a known operator stands there and its payload fits.
pub open spec fn decode_spec(code: Seq<u8>, pc: int) -> Option<StackOpCode> {
    if 0 <= pc < code.len() && operator_of_code(code[pc]) is Some && pc + encoded_size(
        operator_of_code(code[pc]).unwrap(),
    ) <= code.len() {
        Some(opcode_at(code, pc, operator_of_code(code[pc]).unwrap()))
    } else {
        None
    }
}

/// Why an instruction could not be decoded.
#[derive(Clone, Copy, Debug, PartialEq, Eq, Structural)]
pub enum DecodeError {
    /// The byte at the program counter names no operator.
    UnknownOp(u8),
    /// The program counter or the payload lies past the end of the code.
    OutOfBounds,
}

/// Decodes the instruction at `pc`.
pub fn decode(code: &[u8], pc: usize) -> (r: Result<StackOpCode, DecodeError>)
    ensures
        r matches Ok(op) ==> decode_spec(code@, pc as int) == Some(op),
        r is Err ==> decode_spec(code@, pc as int) is None,
        decode_spec(code@, pc as int) is Some ==> r is Ok,
        pc >= code@.len() ==> r == Err::<StackOpCode, DecodeError>(DecodeError::OutOfBounds),
        pc < code@.len() && operator_of_code(code@[pc as int]) is None ==> r == Err::<
            StackOpCode,
            DecodeError,
        >(DecodeError::UnknownOp(code@[pc as int])),
        pc < code@.len() && operator_of_code(code@[pc as int]) is Some && r is Err ==> r == Err::<
            StackOpCode,
            DecodeError,
        >(DecodeError::OutOfBounds),
{
    if pc >= code.len() {
        return Err(DecodeError::OutOfBounds);
    }
    let byte = code[pc];
    let op = match Operator::from_code(byte) {
        Some(op) => op,
        None => return Err(DecodeError::UnknownOp(byte)),
    };
    let size: usize = match op {
        Operator::PushArrayVar => 6,
        Operator::Call | Operator::Jump | Operator::JumpIf | Operator::CallExternal
        | Operator::PushVar | Operator::PushInstance | Operator::SetInstance
        | Operator::PushInt => 5,
        _ => 1,
    };
    if code.len() - pc < size {
        return Err(DecodeError::OutOfBounds);
    }
    let base = StackOpCode::new(op, size);
    if size == 1 {
        return Ok(base);
    }
    let word = match read_i32(code, pc + 1) {
        Some(w) => w,
        None => return Err(DecodeError::OutOfBounds),
    };
    let r = match op {
        Operator::Call | Operator::Jump | Operator::JumpIf => base.with_address(word),
        Operator::PushInt => base.with_value(word),
        Operator::PushArrayVar => base.with_symbol(word).with_index(code[pc + 5]),
        _ => base.with_symbol(word),
    };
    Ok(r)
}

/// A decoded instruction lies inside the code: it starts at `pc`, takes at least one
/// byte, and ends at or before the end of the code.
pub proof fn lemma_decoded_inside(code: Seq<u8>, pc: int)
    requires
        decode_spec(code, pc) is Some,
    ensures
        0 <= pc,
        pc < pc + decode_spec(code, pc).unwrap().operator_size <= code.len(),
{
}

/// `starts` lists the instruction offsets of `code`, from the start on: each one decodes,
/// each next one follows the previous instruction, and the last instruction ends where
/// the code ends. So every byte belongs to exactly one instruction.
pub open spec fn tiles(code: Seq<u8>, starts: Seq<usize>) -> bool {
    &&& code.len() == 0 <==> starts.len() == 0
    &&& starts.len() > 0 ==> starts[0] == 0
    &&& forall|k: int| 0 <= k < starts.len() ==> #[trigger] decode_spec(code, starts[k] as int) is Some
    &&& forall|k: int|
        0 <= k < starts.len() - 1 ==> starts[k + 1] == starts[k] + decode_spec(
            code,
            #[trigger] starts[k] as int,
        ).unwrap().operator_size
    &&& starts.len() > 0 ==> starts.last() + decode_spec(code, starts.last() as int).unwrap().operator_size
        == code.len()
}

/// Walks the code from its start, one instruction at a time. Returns the offsets of all
/// instructions, or the offset at which decoding failed and why.
pub fn instruction_offsets(code: &[u8]) -> (r: Result<Vec<usize>, (usize, DecodeError)>)
    ensures
        r matches Ok(v) ==> tiles(code@, v@),
        r matches Err(e) ==> e.0 < code@.len() && decode_spec(code@, e.0 as int) is None,
{
    let mut starts: Vec<usize> = Vec::new();
    let mut pc: usize = 0;
    while pc < code.len()
        invariant
            pc <= code@.len(),
            pc == 0 <==> starts@.len() == 0,
            starts@.len() > 0 ==> starts@[0] == 0,
            forall|k: int| 0 <= k < starts@.len() ==> #[trigger] decode_spec(code@, starts@[k] as int) is Some,
            forall|k: int|
                0 <= k < starts@.len() - 1 ==> starts@[k + 1] == starts@[k] + decode_spec(
                    code@,
                    #[trigger] starts@[k] as int,
                ).unwrap().operator_size,
            starts@.len() > 0 ==> starts@.last() + decode_spec(code@, starts@.last() as int).unwrap().operator_size
                == pc,
        decreases code@.len() - pc,
    {
        match decode(code, pc) {
            Ok(op) => {
                let ghost before = starts@;
                starts.push(pc);
                proof {
                    assert(starts@.last() == pc);
                    assert forall|k: int| 0 <= k < starts@.len() - 1 implies starts@[k + 1] == starts@[k] + decode_spec(
                        code@,
                        #[trigger] starts@[k] as int,
                    ).unwrap().operator_size by {
                        if k < before.len() - 1 {
                            assert(starts@[k + 1] == before[k + 1]);
                        }
                    }
                }
                pc = pc + op.operator_size;
            },
            Err(e) => {
                return Err((pc, e));
            },
        }
    }
    Ok(starts)
}

} // verus!
