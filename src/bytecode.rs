use vstd::prelude::*;

verus! {

/// A register selector: one of the two long registers or one of the four
/// byte lanes of each.
#[derive(Clone, Copy, PartialEq, Eq, Debug, Structural)]
pub enum Register {
    LongRegister0,
    LongRegister1,
    ByteRegister0_0,
    ByteRegister0_1,
    ByteRegister0_2,
    ByteRegister0_3,
    ByteRegister1_0,
    ByteRegister1_1,
    ByteRegister1_2,
    ByteRegister1_3,
}

/// An operand: a register, or a byte constant that zero-extends.
#[derive(Clone, Copy, PartialEq, Eq, Debug, Structural)]
pub enum RegConst {
    Register(Register),
    Constant(u8),
}

/// A jump: the condition on the long registers and the signed offset.
#[derive(Clone, Copy, PartialEq, Eq, Debug, Structural)]
pub enum Jump {
    Unconditional(i8),
    Reg0Eq(i8),
    Reg0Neq(i8),
    Reg0Greater(i8),
    Reg0Lesser(i8),
    Reg0GreaterEq(i8),
    Reg0LesserEq(i8),
    Reg1Eq(i8),
    Reg1Neq(i8),
    Reg1Greater(i8),
    Reg1Lesser(i8),
    Reg1GreaterEq(i8),
    Reg1LesserEq(i8),
}

/// A two-operand operation, destination first.
#[derive(Clone, Copy, PartialEq, Eq, Debug, Structural)]
pub enum BinaryOp {
    Add(Register, RegConst),
    Sub(Register, RegConst),
    Mul(Register, RegConst),
    Div(Register, RegConst),
    Xor(Register, RegConst),
    And(Register, RegConst),
    Or(Register, RegConst),
    Mov(Register, RegConst),
    Xchg(Register, Register),
    MoveAdd(Register, RegConst),
    MoveSub(Register, RegConst),
    MoveMul(Register, RegConst),
    MoveDiv(Register, RegConst),
    MoveXor(Register, RegConst),
    MoveAnd(Register, RegConst),
    MoveOr(Register, RegConst),
}

/// The action half of an instruction.
#[derive(Clone, Copy, PartialEq, Eq, Debug, Structural)]
pub enum Response {
    Move(RegConst),
    Jmp(Jump),
    BinaryOp(BinaryOp),
    Call(RegConst),
    Nop,
}

/// The predicate half of an instruction.
#[derive(Clone, Copy, PartialEq, Eq, Debug, Structural)]
pub enum Event {
    Unconditional,
    Equal(Register, Register),
    NotEqual(Register, Register),
    Greater(Register, Register),
    Lesser(Register, Register),
    GreaterEqual(Register, Register),
    LesserEqual(Register, Register),
    SurroundingSquaresEqual(RegConst),
    SurroundingSquaresNotEqual(RegConst),
    SurroundingSquaresGreater(RegConst),
    SurroundingSquaresLesser(RegConst),
    SurroundingSquaresGreaterEqual(RegConst),
    SurroundingSquaresLesserEqual(RegConst),
}

/// The byte-lane selector numbered `v` (`0..8`): lanes of the first long,
/// then lanes of the second.
pub open spec fn byte_register_spec(v: u8) -> Register {
    if v == 0 {
        Register::ByteRegister0_0
    } else if v == 1 {
        Register::ByteRegister0_1
    } else if v == 2 {
        Register::ByteRegister0_2
    } else if v == 3 {
        Register::ByteRegister0_3
    } else if v == 4 {
        Register::ByteRegister1_0
    } else if v == 5 {
        Register::ByteRegister1_1
    } else if v == 6 {
        Register::ByteRegister1_2
    } else {
        Register::ByteRegister1_3
    }
}

/// The register pair that an extension byte names: with bit 7 set the two
/// long registers (bit 6 picks the order), else two byte lanes from bits
/// 5..3 and 2..0.
pub open spec fn operand_pair_spec(ext: u8) -> (Register, Register) {
    if ext & 0x80 != 0 {
        if ext & 0x40 != 0 {
            (Register::LongRegister1, Register::LongRegister0)
        } else {
            (Register::LongRegister0, Register::LongRegister1)
        }
    } else {
        (byte_register_spec((ext >> 3) & 0x7), byte_register_spec(ext & 0x7))
    }
}

/// The comparison jumps on the first long register, in opcode order
/// (`0x08..=0x0D`).
pub open spec fn reg0_jump_spec(k: u8, off: i8) -> Jump {
    if k == 0 {
        Jump::Reg0Eq(off)
    } else if k == 1 {
        Jump::Reg0Neq(off)
    } else if k == 2 {
        Jump::Reg0Greater(off)
    } else if k == 3 {
        Jump::Reg0Lesser(off)
    } else if k == 4 {
        Jump::Reg0GreaterEq(off)
    } else {
        Jump::Reg0LesserEq(off)
    }
}

/// The comparison jumps on the second long register (`0x20..=0x25`).
pub open spec fn reg1_jump_spec(k: u8, off: i8) -> Jump {
    if k == 0 {
        Jump::Reg1Eq(off)
    } else if k == 1 {
        Jump::Reg1Neq(off)
    } else if k == 2 {
        Jump::Reg1Greater(off)
    } else if k == 3 {
        Jump::Reg1Lesser(off)
    } else if k == 4 {
        Jump::Reg1GreaterEq(off)
    } else {
        Jump::Reg1LesserEq(off)
    }
}

/// The arithmetic family, for an opcode with bit 4 set and bit 7 clear.
pub open spec fn binary_family_spec(op: u8, ext: u8) -> Response {
    let (lhs, rhs) = operand_pair_spec(ext);
    let src = RegConst::Register(rhs);
    if op == 0x10 {
        Response::BinaryOp(BinaryOp::Add(lhs, src))
    } else if op == 0x11 {
        Response::BinaryOp(BinaryOp::Sub(lhs, src))
    } else if op == 0x12 {
        Response::BinaryOp(BinaryOp::Mul(lhs, src))
    } else if op == 0x13 {
        Response::BinaryOp(BinaryOp::Div(lhs, src))
    } else if op == 0x14 {
        Response::BinaryOp(BinaryOp::Xor(lhs, src))
    } else if op == 0x15 {
        Response::BinaryOp(BinaryOp::And(lhs, src))
    } else if op == 0x16 {
        Response::BinaryOp(BinaryOp::Or(lhs, src))
    } else if op == 0x17 {
        Response::BinaryOp(BinaryOp::Mov(lhs, src))
    } else if op == 0x1F {
        Response::BinaryOp(BinaryOp::Xchg(lhs, rhs))
    } else if op == 0x30 {
        Response::BinaryOp(BinaryOp::MoveAdd(lhs, src))
    } else if op == 0x31 {
        Response::BinaryOp(BinaryOp::MoveSub(lhs, src))
    } else if op == 0x32 {
        Response::BinaryOp(BinaryOp::MoveMul(lhs, src))
    } else if op == 0x33 {
        Response::BinaryOp(BinaryOp::MoveDiv(lhs, src))
    } else if op == 0x34 {
        Response::BinaryOp(BinaryOp::MoveXor(lhs, src))
    } else if op == 0x35 {
        Response::BinaryOp(BinaryOp::MoveAnd(lhs, src))
    } else if op == 0x36 {
        Response::BinaryOp(BinaryOp::MoveOr(lhs, src))
    } else if op == 0x38 {
        Response::Move(RegConst::Constant(0))
    } else if op == 0x39 {
        Response::Move(RegConst::Constant(4))
    } else if op == 0x3A {
        Response::Move(RegConst::Constant(2))
    } else if op == 0x3B {
        Response::Move(RegConst::Constant(6))
    } else {
        Response::Nop
    }
}

/// The action that the opcode byte `op` and extension byte `ext` encode.
pub open spec fn response_spec(op: u8, ext: u8) -> Response {
    if op == 0x00 {
        Response::Move(RegConst::Register(Register::LongRegister0))
    } else if op == 0x01 {
        Response::Move(RegConst::Register(Register::LongRegister1))
    } else if op == 0x02 {
        Response::Call(RegConst::Register(Register::LongRegister0))
    } else if op == 0x03 {
        Response::Call(RegConst::Register(Register::LongRegister1))
    } else if 0x08 <= op <= 0x0D {
        Response::Jmp(reg0_jump_spec((op - 0x08) as u8, ext as i8))
    } else if op == 0x0E {
        Response::Jmp(Jump::Unconditional(ext as i8))
    } else if op == 0x0F {
        Response::Move(RegConst::Constant(ext))
    } else if 0x20 <= op <= 0x25 {
        Response::Jmp(reg1_jump_spec((op - 0x20) as u8, ext as i8))
    } else if op & 0x10 != 0 && op & 0x80 == 0 {
        binary_family_spec(op, ext)
    } else if op == 0x80 {
        Response::Call(RegConst::Register(Register::LongRegister0))
    } else if op == 0x81 {
        Response::Call(RegConst::Register(Register::LongRegister1))
    } else if op == 0xFF {
        Response::Call(RegConst::Constant(ext))
    } else {
        Response::Nop
    }
}

/// The predicate that the opcode byte `op` and extension byte `ext` encode.
pub open spec fn event_spec(op: u8, ext: u8) -> Event {
    let (lhs, rhs) = operand_pair_spec(ext);
    if op == 0x00 {
        Event::Equal(lhs, rhs)
    } else if op == 0x01 {
        Event::NotEqual(lhs, rhs)
    } else if op == 0x02 {
        Event::Greater(lhs, rhs)
    } else if op == 0x03 {
        Event::Lesser(lhs, rhs)
    } else if op == 0x04 {
        Event::GreaterEqual(lhs, rhs)
    } else if op == 0x05 {
        Event::LesserEqual(lhs, rhs)
    } else if 0x08 <= op <= 0x0D {
        surrounding_spec((op - 0x08) as u8, RegConst::Constant(ext))
    } else if 0x10 <= op <= 0x15 {
        surrounding_spec((op - 0x10) as u8, RegConst::Register(lhs))
    } else {
        Event::Unconditional
    }
}

/// The neighbourhood predicates, in opcode order.
pub open spec fn surrounding_spec(k: u8, operand: RegConst) -> Event {
    if k == 0 {
        Event::SurroundingSquaresEqual(operand)
    } else if k == 1 {
        Event::SurroundingSquaresNotEqual(operand)
    } else if k == 2 {
        Event::SurroundingSquaresGreater(operand)
    } else if k == 3 {
        Event::SurroundingSquaresLesser(operand)
    } else if k == 4 {
        Event::SurroundingSquaresGreaterEqual(operand)
    } else {
        Event::SurroundingSquaresLesserEqual(operand)
    }
}

/// The high byte and the low byte of a half-word.
pub open spec fn high_byte(v: u16) -> u8 {
    ((v >> 8) & 0xff) as u8
}

pub open spec fn low_byte(v: u16) -> u8 {
    (v & 0xff) as u8
}

impl Register {
    /// The byte-lane selector numbered `value`.
    pub fn from_lane_index(value: u8) -> (r: Register)
        requires
            value < 8,
        ensures
            r == byte_register_spec(value),
    {
        match value {
            0 => Register::ByteRegister0_0,
            1 => Register::ByteRegister0_1,
            2 => Register::ByteRegister0_2,
            3 => Register::ByteRegister0_3,
            4 => Register::ByteRegister1_0,
            5 => Register::ByteRegister1_1,
            6 => Register::ByteRegister1_2,
            _ => Register::ByteRegister1_3,
        }
    }
}

/// The register pair named by an extension byte.
pub fn regbyte_lhs_rhs_ext(ext: u8) -> (r: (Register, Register))
    ensures
        r == operand_pair_spec(ext),
{
    if (ext & 0x80) != 0 {
        if (ext & 0x40) != 0 {
            (Register::LongRegister1, Register::LongRegister0)
        } else {
            (Register::LongRegister0, Register::LongRegister1)
        }
    } else {
        let lhs = (ext >> 3) & 0x7;
        let rhs = ext & 0x7;
        assert((ext >> 3) & 0x7 < 8 && ext & 0x7 < 8) by (bit_vector);
        (Register::from_lane_index(lhs), Register::from_lane_index(rhs))
    }
}

impl Response {
    /// Whether the action may relocate the entity.
    pub open spec fn is_move_step_spec(self) -> bool {
        match self {
            Response::Move(_) => true,
            Response::BinaryOp(op) => match op {
                BinaryOp::MoveAdd(_, _) | BinaryOp::MoveSub(_, _) | BinaryOp::MoveMul(_, _)
                | BinaryOp::MoveDiv(_, _) | BinaryOp::MoveXor(_, _) | BinaryOp::MoveAnd(_, _)
                | BinaryOp::MoveOr(_, _) => true,
                _ => false,
            },
            _ => false,
        }
    }

    pub fn is_move_step(&self) -> (r: bool)
        ensures
            r == self.is_move_step_spec(),
    {
        match self {
            Response::Move(_) => true,
            Response::BinaryOp(op) => match op {
                BinaryOp::MoveAdd(_, _) | BinaryOp::MoveSub(_, _) | BinaryOp::MoveMul(_, _)
                | BinaryOp::MoveDiv(_, _) | BinaryOp::MoveXor(_, _) | BinaryOp::MoveAnd(_, _)
                | BinaryOp::MoveOr(_, _) => true,
                _ => false,
            },
            _ => false,
        }
    }

    fn binary_family(op: u8, ext: u8) -> (r: Response)
        ensures
            r == binary_family_spec(op, ext),
    {
        let (lhs, rhs) = regbyte_lhs_rhs_ext(ext);
        let src = RegConst::Register(rhs);
        match op {
            0x10 => Response::BinaryOp(BinaryOp::Add(lhs, src)),
            0x11 => Response::BinaryOp(BinaryOp::Sub(lhs, src)),
            0x12 => Response::BinaryOp(BinaryOp::Mul(lhs, src)),
            0x13 => Response::BinaryOp(BinaryOp::Div(lhs, src)),
            0x14 => Response::BinaryOp(BinaryOp::Xor(lhs, src)),
            0x15 => Response::BinaryOp(BinaryOp::And(lhs, src)),
            0x16 => Response::BinaryOp(BinaryOp::Or(lhs, src)),
            0x17 => Response::BinaryOp(BinaryOp::Mov(lhs, src)),
            0x1F => Response::BinaryOp(BinaryOp::Xchg(lhs, rhs)),
            0x30 => Response::BinaryOp(BinaryOp::MoveAdd(lhs, src)),
            0x31 => Response::BinaryOp(BinaryOp::MoveSub(lhs, src)),
            0x32 => Response::BinaryOp(BinaryOp::MoveMul(lhs, src)),
            0x33 => Response::BinaryOp(BinaryOp::MoveDiv(lhs, src)),
            0x34 => Response::BinaryOp(BinaryOp::MoveXor(lhs, src)),
            0x35 => Response::BinaryOp(BinaryOp::MoveAnd(lhs, src)),
            0x36 => Response::BinaryOp(BinaryOp::MoveOr(lhs, src)),
            0x38 => Response::Move(RegConst::Constant(0)),
            0x39 => Response::Move(RegConst::Constant(4)),
            0x3A => Response::Move(RegConst::Constant(2)),
            0x3B => Response::Move(RegConst::Constant(6)),
            _ => Response::Nop,
        }
    }

    /// Decodes the action from its opcode byte and extension byte.
    pub fn top_layer(op: u8, ext: u8) -> (r: Response)
        ensures
            r == response_spec(op, ext),
    {
        let off = ext as i8;
        match op {
            0x00 => Response::Move(RegConst::Register(Register::LongRegister0)),
            0x01 => Response::Move(RegConst::Register(Register::LongRegister1)),
            0x02 => Response::Call(RegConst::Register(Register::LongRegister0)),
            0x03 => Response::Call(RegConst::Register(Register::LongRegister1)),
            0x08 => Response::Jmp(Jump::Reg0Eq(off)),
            0x09 => Response::Jmp(Jump::Reg0Neq(off)),
            0x0A => Response::Jmp(Jump::Reg0Greater(off)),
            0x0B => Response::Jmp(Jump::Reg0Lesser(off)),
            0x0C => Response::Jmp(Jump::Reg0GreaterEq(off)),
            0x0D => Response::Jmp(Jump::Reg0LesserEq(off)),
            0x0E => Response::Jmp(Jump::Unconditional(off)),
            0x0F => Response::Move(RegConst::Constant(ext)),
            0x20 => Response::Jmp(Jump::Reg1Eq(off)),
            0x21 => Response::Jmp(Jump::Reg1Neq(off)),
            0x22 => Response::Jmp(Jump::Reg1Greater(off)),
            0x23 => Response::Jmp(Jump::Reg1Lesser(off)),
            0x24 => Response::Jmp(Jump::Reg1GreaterEq(off)),
            0x25 => Response::Jmp(Jump::Reg1LesserEq(off)),
            _ => {
                if (op & 0x10) != 0 && (op & 0x80) == 0 {
                    Response::binary_family(op, ext)
                } else {
                    match op {
                        0x80 => Response::Call(RegConst::Register(Register::LongRegister0)),
                        0x81 => Response::Call(RegConst::Register(Register::LongRegister1)),
                        0xFF => Response::Call(RegConst::Constant(ext)),
                        _ => Response::Nop,
                    }
                }
            },
        }
    }

    /// Decodes the action from a half-word: opcode in the high byte.
    pub fn from_half_word(value: u16) -> (r: Response)
        ensures
            r == response_spec(high_byte(value), low_byte(value)),
    {
        let op = ((value >> 8) & 0xff) as u8;
        let ext = (value & 0xff) as u8;
        Response::top_layer(op, ext)
    }
}

impl Event {
    /// Decodes the predicate from its opcode byte and extension byte.
    pub fn top_layer(op: u8, ext: u8) -> (r: Event)
        ensures
            r == event_spec(op, ext),
    {
        let (lhs, rhs) = regbyte_lhs_rhs_ext(ext);
        match op {
            0x00 => Event::Equal(lhs, rhs),
            0x01 => Event::NotEqual(lhs, rhs),
            0x02 => Event::Greater(lhs, rhs),
            0x03 => Event::Lesser(lhs, rhs),
            0x04 => Event::GreaterEqual(lhs, rhs),
            0x05 => Event::LesserEqual(lhs, rhs),
            0x08 => Event::SurroundingSquaresEqual(RegConst::Constant(ext)),
            0x09 => Event::SurroundingSquaresNotEqual(RegConst::Constant(ext)),
            0x0A => Event::SurroundingSquaresGreater(RegConst::Constant(ext)),
            0x0B => Event::SurroundingSquaresLesser(RegConst::Constant(ext)),
            0x0C => Event::SurroundingSquaresGreaterEqual(RegConst::Constant(ext)),
            0x0D => Event::SurroundingSquaresLesserEqual(RegConst::Constant(ext)),
            0x10 => Event::SurroundingSquaresEqual(RegConst::Register(lhs)),
            0x11 => Event::SurroundingSquaresNotEqual(RegConst::Register(lhs)),
            0x12 => Event::SurroundingSquaresGreater(RegConst::Register(lhs)),
            0x13 => Event::SurroundingSquaresLesser(RegConst::Register(lhs)),
            0x14 => Event::SurroundingSquaresGreaterEqual(RegConst::Register(lhs)),
            0x15 => Event::SurroundingSquaresLesserEqual(RegConst::Register(lhs)),
            _ => Event::Unconditional,
        }
    }

    /// Decodes the predicate from a half-word: opcode in the high byte.
    pub fn from_half_word(value: u16) -> (r: Event)
        ensures
            r == event_spec(high_byte(value), low_byte(value)),
    {
        let op = ((value >> 8) & 0xff) as u8;
        let ext = (value & 0xff) as u8;
        Event::top_layer(op, ext)
    }
}

} // verus!
