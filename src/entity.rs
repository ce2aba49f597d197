use vstd::prelude::*;
use vstd::arithmetic::div_mod::{
    lemma_fundamental_div_mod, lemma_mod_add_multiples_vanish, lemma_mod_multiples_vanish,
    lemma_small_mod,
};

use crate::bytecode::{
    byte_register_spec, event_spec, high_byte, low_byte, response_spec, BinaryOp, Event, Jump, RegConst, Register,
    Response,
};
use crate::grid::{Grid, GridView};
use crate::registers::{lane, lemma_lane_write_isolated, with_lane, DataRegister};

verus! {

/// The eight compass directions, numbered counter-clockwise from `Right`.
#[derive(Clone, Copy, Debug, PartialEq, Eq, Structural)]
pub enum Direction {
    Right,
    TopRight,
    Top,
    TopLeft,
    Left,
    BottomLeft,
    Bottom,
    BottomRight,
}

/// One step up along an axis, held at `bound`.
pub open spec fn step_up(v: u32, bound: u32) -> u32 {
    if v >= bound {
        bound
    } else {
        (v + 1) as u32
    }
}

/// One step down along an axis, held at zero.
pub open spec fn step_down(v: u32) -> u32 {
    if v == 0 {
        0
    } else {
        (v - 1) as u32
    }
}

/// The direction that `value mod 8` names.
pub open spec fn direction_of(value: u64) -> Direction {
    let k = value % 8;
    if k == 0 {
        Direction::Right
    } else if k == 1 {
        Direction::TopRight
    } else if k == 2 {
        Direction::Top
    } else if k == 3 {
        Direction::TopLeft
    } else if k == 4 {
        Direction::Left
    } else if k == 5 {
        Direction::BottomLeft
    } else if k == 6 {
        Direction::Bottom
    } else {
        Direction::BottomRight
    }
}

impl Direction {
    /// The x coordinate one step from `x` in this direction.
    pub open spec fn target_x(self, x: u32, width: u32) -> u32 {
        match self {
            Direction::Right | Direction::TopRight | Direction::BottomRight => step_up(x, width),
            Direction::TopLeft | Direction::Left | Direction::BottomLeft => step_down(x),
            _ => x,
        }
    }

    /// The y coordinate one step from `y` in this direction.
    pub open spec fn target_y(self, y: u32, height: u32) -> u32 {
        match self {
            Direction::TopRight | Direction::Top | Direction::TopLeft => step_up(y, height),
            Direction::BottomLeft | Direction::Bottom | Direction::BottomRight => step_down(y),
            _ => y,
        }
    }

    /// Moves `dir` one step in this direction: up and right are held at
    /// `width` and `height`, down and left at zero.
    pub fn perform_direction(&self, dir: &mut [u32; 2], width: u32, height: u32)
        ensures
            final(dir)[0] == self.target_x(old(dir)[0], width),
            final(dir)[1] == self.target_y(old(dir)[1], height),
    {
        let x = dir[0];
        let y = dir[1];
        let up_x = if x >= width {
            width
        } else {
            x + 1
        };
        let up_y = if y >= height {
            height
        } else {
            y + 1
        };
        let down_x = if x == 0 {
            0
        } else {
            x - 1
        };
        let down_y = if y == 0 {
            0
        } else {
            y - 1
        };
        let (nx, ny) = match self {
            Direction::Right => (up_x, y),
            Direction::TopRight => (up_x, up_y),
            Direction::Top => (x, up_y),
            Direction::TopLeft => (down_x, up_y),
            Direction::Left => (down_x, y),
            Direction::BottomLeft => (down_x, down_y),
            Direction::Bottom => (x, down_y),
            Direction::BottomRight => (up_x, down_y),
        };
        dir[0] = nx;
        dir[1] = ny;
    }
}

impl From<u64> for Direction {
    fn from(value: u64) -> (r: Direction) {
        match value % 8 {
            0 => Direction::Right,
            1 => Direction::TopRight,
            2 => Direction::Top,
            3 => Direction::TopLeft,
            4 => Direction::Left,
            5 => Direction::BottomLeft,
            6 => Direction::Bottom,
            _ => Direction::BottomRight,
        }
    }
}

impl vstd::std_specs::convert::FromSpecImpl<u64> for Direction {
    open spec fn obeys_from_spec() -> bool {
        true
    }

    open spec fn from_spec(v: u64) -> Direction {
        direction_of(v)
    }
}


/// A change of one cell that an observer of the world is told about.
#[derive(Clone, Copy, Debug, PartialEq, Eq, Structural)]
pub enum CellEvent {
    /// The entity `id` of colour `color` left `(x, y)`.
    Cleared { x: u32, y: u32, id: u32, color: u32 },
    /// The entity `id` of colour `color` now stands at `(x, y)`.
    Placed { x: u32, y: u32, id: u32, color: u32 },
}

/// The value that a binary operation computes from its destination `a` and
/// source `b`; division by zero gives `u64::MAX`.
pub open spec fn binary_value(op: BinaryOp, a: u64, b: u64) -> u64 {
    match op {
        BinaryOp::Add(_, _) | BinaryOp::MoveAdd(_, _) => a.wrapping_add(b),
        BinaryOp::Sub(_, _) | BinaryOp::MoveSub(_, _) => a.wrapping_sub(b),
        BinaryOp::Mul(_, _) | BinaryOp::MoveMul(_, _) => a.wrapping_mul(b),
        BinaryOp::Div(_, _) | BinaryOp::MoveDiv(_, _) => if b == 0 {
            u64::MAX
        } else {
            a / b
        },
        BinaryOp::Xor(_, _) | BinaryOp::MoveXor(_, _) => a ^ b,
        BinaryOp::And(_, _) | BinaryOp::MoveAnd(_, _) => a & b,
        BinaryOp::Or(_, _) | BinaryOp::MoveOr(_, _) => a | b,
        BinaryOp::Mov(_, _) => b,
        BinaryOp::Xchg(_, _) => b,
    }
}

/// Whether a jump is taken, from the two long registers. The two "lesser"
/// conditions test `<=`, as the "lesser or equal" ones do.
pub open spec fn jump_taken(j: Jump, r0: u64, r1: u64) -> bool {
    match j {
        Jump::Unconditional(_) => true,
        Jump::Reg0Eq(_) => r0 == r1,
        Jump::Reg0Neq(_) => r0 != r1,
        Jump::Reg0Greater(_) => r0 > r1,
        Jump::Reg0Lesser(_) => r0 <= r1,
        Jump::Reg0GreaterEq(_) => r0 >= r1,
        Jump::Reg0LesserEq(_) => r0 <= r1,
        Jump::Reg1Eq(_) => r1 == r0,
        Jump::Reg1Neq(_) => r1 != r0,
        Jump::Reg1Greater(_) => r1 > r0,
        Jump::Reg1Lesser(_) => r1 <= r0,
        Jump::Reg1GreaterEq(_) => r1 >= r0,
        Jump::Reg1LesserEq(_) => r1 <= r0,
    }
}

pub open spec fn jump_offset(j: Jump) -> i8 {
    match j {
        Jump::Unconditional(o) | Jump::Reg0Eq(o) | Jump::Reg0Neq(o) | Jump::Reg0Greater(o)
        | Jump::Reg0Lesser(o) | Jump::Reg0GreaterEq(o) | Jump::Reg0LesserEq(o) | Jump::Reg1Eq(o)
        | Jump::Reg1Neq(o) | Jump::Reg1Greater(o) | Jump::Reg1Lesser(o) | Jump::Reg1GreaterEq(o)
        | Jump::Reg1LesserEq(o) => o,
    }
}

/// `(ip + offset) mod len`, with a non-negative remainder.
pub open spec fn wrap_offset(ip: usize, offset: i8, len: usize) -> usize {
    ((ip as int + offset as int) % (len as int)) as usize
}

/// The register-level state of an entity: two long registers, the
/// position, the id, the energy and the instruction pointer.
#[derive(Clone, Copy, Debug)]
pub struct GPCAEntityInternal {
    pub reg0: DataRegister,
    pub reg1: DataRegister,
    pub pos: [u32; 2],
    pub id: u32,
    pub energy: u32,
    pub rip: usize,
}

/// The entity after a move step, the grid after it, and whether it moved.
pub struct MoveOutcome {
    pub entity: GPCAEntityInternal,
    pub grid: GridView,
    pub moved: bool,
}

/// The effect of one action: the entity after it, the grid after it,
/// whether the entity moved, and the operand of a call.
pub struct ActionOutcome {
    pub entity: GPCAEntityInternal,
    pub grid: GridView,
    pub moved: bool,
    pub call: Option<u64>,
}

impl GPCAEntityInternal {
    pub open spec fn x_spec(self) -> u32 {
        self.pos[0]
    }

    pub open spec fn y_spec(self) -> u32 {
        self.pos[1]
    }

    /// The value of a register; byte lanes zero-extend.
    pub open spec fn read_spec(self, r: Register) -> u64 {
        match r {
            Register::LongRegister0 => self.reg0.long,
            Register::LongRegister1 => self.reg1.long,
            Register::ByteRegister0_0 => lane(self.reg0.long, 0),
            Register::ByteRegister0_1 => lane(self.reg0.long, 1),
            Register::ByteRegister0_2 => lane(self.reg0.long, 2),
            Register::ByteRegister0_3 => lane(self.reg0.long, 3),
            Register::ByteRegister1_0 => lane(self.reg1.long, 0),
            Register::ByteRegister1_1 => lane(self.reg1.long, 1),
            Register::ByteRegister1_2 => lane(self.reg1.long, 2),
            Register::ByteRegister1_3 => lane(self.reg1.long, 3),
        }
    }

    /// The value of an operand; constants zero-extend.
    pub open spec fn operand_spec(self, rc: RegConst) -> u64 {
        match rc {
            RegConst::Constant(c) => c as u64,
            RegConst::Register(r) => self.read_spec(r),
        }
    }

    /// The state after writing `v` to register `r`: a byte lane takes
    /// `v mod 256`, a long register takes `v`.
    pub open spec fn write_spec(self, r: Register, v: u64) -> GPCAEntityInternal {
        match r {
            Register::LongRegister0 => GPCAEntityInternal { reg0: DataRegister { long: v }, ..self },
            Register::LongRegister1 => GPCAEntityInternal { reg1: DataRegister { long: v }, ..self },
            Register::ByteRegister0_0 => GPCAEntityInternal {
                reg0: DataRegister { long: with_lane(self.reg0.long, 0, v) },
                ..self
            },
            Register::ByteRegister0_1 => GPCAEntityInternal {
                reg0: DataRegister { long: with_lane(self.reg0.long, 1, v) },
                ..self
            },
            Register::ByteRegister0_2 => GPCAEntityInternal {
                reg0: DataRegister { long: with_lane(self.reg0.long, 2, v) },
                ..self
            },
            Register::ByteRegister0_3 => GPCAEntityInternal {
                reg0: DataRegister { long: with_lane(self.reg0.long, 3, v) },
                ..self
            },
            Register::ByteRegister1_0 => GPCAEntityInternal {
                reg1: DataRegister { long: with_lane(self.reg1.long, 0, v) },
                ..self
            },
            Register::ByteRegister1_1 => GPCAEntityInternal {
                reg1: DataRegister { long: with_lane(self.reg1.long, 1, v) },
                ..self
            },
            Register::ByteRegister1_2 => GPCAEntityInternal {
                reg1: DataRegister { long: with_lane(self.reg1.long, 2, v) },
                ..self
            },
            Register::ByteRegister1_3 => GPCAEntityInternal {
                reg1: DataRegister { long: with_lane(self.reg1.long, 3, v) },
                ..self
            },
        }
    }

    /// Whether a predicate holds, given the number of taken cells around
    /// the entity.
    pub open spec fn event_holds(self, event: Event, count: nat) -> bool {
        match event {
            Event::Unconditional => true,
            Event::Equal(l, r) => self.read_spec(l) == self.read_spec(r),
            Event::NotEqual(l, r) => self.read_spec(l) != self.read_spec(r),
            Event::Greater(l, r) => self.read_spec(l) > self.read_spec(r),
            Event::Lesser(l, r) => self.read_spec(l) < self.read_spec(r),
            Event::GreaterEqual(l, r) => self.read_spec(l) >= self.read_spec(r),
            Event::LesserEqual(l, r) => self.read_spec(l) <= self.read_spec(r),
            Event::SurroundingSquaresEqual(o) => self.operand_spec(o) == count,
            Event::SurroundingSquaresNotEqual(o) => self.operand_spec(o) != count,
            Event::SurroundingSquaresGreater(o) => self.operand_spec(o) > count,
            Event::SurroundingSquaresLesser(o) => self.operand_spec(o) < count,
            Event::SurroundingSquaresGreaterEqual(o) => self.operand_spec(o) >= count,
            Event::SurroundingSquaresLesserEqual(o) => self.operand_spec(o) <= count,
        }
    }

    /// One move step: the target cell is taken when it lies outside the
    /// grid or holds an entity, and then nothing changes; otherwise the old
    /// cell is emptied and the target cell takes the entity's id.
    pub open spec fn move_spec(self, grid: GridView, dir: Direction) -> MoveOutcome {
        let tx = dir.target_x(self.pos[0], grid.width);
        let ty = dir.target_y(self.pos[1], grid.height);
        if (tx == self.pos[0] && ty == self.pos[1]) || grid.occupied(tx as int, ty as int) {
            MoveOutcome { entity: self, grid, moved: false }
        } else {
            MoveOutcome {
                entity: GPCAEntityInternal { pos: [tx, ty], ..self },
                grid: grid.clear(self.pos[0] as int, self.pos[1] as int).set(
                    tx as int,
                    ty as int,
                    self.id,
                ),
                moved: true,
            }
        }
    }

    /// The effect of an action, for a program of `code_len` words.
    pub open spec fn response_outcome(
        self,
        response: Response,
        code_len: usize,
        grid: GridView,
    ) -> ActionOutcome {
        match response {
            Response::Nop => ActionOutcome { entity: self, grid, moved: false, call: None },
            Response::Call(o) => ActionOutcome {
                entity: self,
                grid,
                moved: false,
                call: Some(self.operand_spec(o)),
            },
            Response::Move(o) => {
                let m = self.move_spec(grid, direction_of(self.operand_spec(o)));
                ActionOutcome { entity: m.entity, grid: m.grid, moved: m.moved, call: None }
            },
            Response::Jmp(j) => {
                let e = if jump_taken(j, self.reg0.long, self.reg1.long) {
                    GPCAEntityInternal { rip: wrap_offset(self.rip, jump_offset(j), code_len), ..self }
                } else {
                    self
                };
                ActionOutcome { entity: e, grid, moved: false, call: None }
            },
            Response::BinaryOp(op) => match op {
                BinaryOp::Xchg(a, b) => {
                    let va = self.read_spec(a);
                    let vb = self.read_spec(b);
                    ActionOutcome {
                        entity: self.write_spec(a, vb).write_spec(b, va),
                        grid,
                        moved: false,
                        call: None,
                    }
                },
                BinaryOp::Add(d, s) | BinaryOp::Sub(d, s) | BinaryOp::Mul(d, s) | BinaryOp::Div(
                    d,
                    s,
                ) | BinaryOp::Xor(d, s) | BinaryOp::And(d, s) | BinaryOp::Or(d, s) | BinaryOp::Mov(
                    d,
                    s,
                ) => {
                    let v = binary_value(op, self.read_spec(d), self.operand_spec(s));
                    ActionOutcome { entity: self.write_spec(d, v), grid, moved: false, call: None }
                },
                BinaryOp::MoveAdd(d, s) | BinaryOp::MoveSub(d, s) | BinaryOp::MoveMul(d, s)
                | BinaryOp::MoveDiv(d, s) | BinaryOp::MoveXor(d, s) | BinaryOp::MoveAnd(d, s)
                | BinaryOp::MoveOr(d, s) => {
                    let v = binary_value(op, self.read_spec(d), self.operand_spec(s));
                    let m = self.move_spec(grid, direction_of(v));
                    ActionOutcome { entity: m.entity, grid: m.grid, moved: m.moved, call: None }
                },
            },
        }
    }
}

/// The cell events of one action: a move-type action first clears the old
/// cell, then places the entity at its new cell only if it moved; any other
/// action reports nothing.
pub open spec fn action_events(
    before: GPCAEntityInternal,
    after: GPCAEntityInternal,
    color: u32,
    is_move: bool,
    moved: bool,
) -> Seq<CellEvent> {
    if is_move {
        seq![CellEvent::Cleared { x: before.pos[0], y: before.pos[1], id: before.id, color }] + if moved {
            seq![CellEvent::Placed { x: after.pos[0], y: after.pos[1], id: after.id, color }]
        } else {
            seq![]
        }
    } else {
        seq![]
    }
}

fn binary_value_exec(op: BinaryOp, a: u64, b: u64) -> (r: u64)
    ensures
        r == binary_value(op, a, b),
{
    match op {
        BinaryOp::Add(_, _) | BinaryOp::MoveAdd(_, _) => a.wrapping_add(b),
        BinaryOp::Sub(_, _) | BinaryOp::MoveSub(_, _) => a.wrapping_sub(b),
        BinaryOp::Mul(_, _) | BinaryOp::MoveMul(_, _) => a.wrapping_mul(b),
        BinaryOp::Div(_, _) | BinaryOp::MoveDiv(_, _) => if b == 0 {
            u64::MAX
        } else {
            a / b
        },
        BinaryOp::Xor(_, _) | BinaryOp::MoveXor(_, _) => a ^ b,
        BinaryOp::And(_, _) | BinaryOp::MoveAnd(_, _) => a & b,
        BinaryOp::Or(_, _) | BinaryOp::MoveOr(_, _) => a | b,
        BinaryOp::Mov(_, _) | BinaryOp::Xchg(_, _) => b,
    }
}

fn jump_parts(j: Jump, r0: u64, r1: u64) -> (r: (bool, i8))
    ensures
        r.0 == jump_taken(j, r0, r1),
        r.1 == jump_offset(j),
{
    match j {
        Jump::Unconditional(o) => (true, o),
        Jump::Reg0Eq(o) => (r0 == r1, o),
        Jump::Reg0Neq(o) => (r0 != r1, o),
        Jump::Reg0Greater(o) => (r0 > r1, o),
        Jump::Reg0Lesser(o) => (r0 <= r1, o),
        Jump::Reg0GreaterEq(o) => (r0 >= r1, o),
        Jump::Reg0LesserEq(o) => (r0 <= r1, o),
        Jump::Reg1Eq(o) => (r1 == r0, o),
        Jump::Reg1Neq(o) => (r1 != r0, o),
        Jump::Reg1Greater(o) => (r1 > r0, o),
        Jump::Reg1Lesser(o) => (r1 <= r0, o),
        Jump::Reg1GreaterEq(o) => (r1 >= r0, o),
        Jump::Reg1LesserEq(o) => (r1 <= r0, o),
    }
}

/// `(ip + offset) mod len` with a non-negative remainder.
pub fn jump_target(ip: usize, offset: i8, len: usize) -> (r: usize)
    requires
        ip < len,
    ensures
        r == wrap_offset(ip, offset, len),
        r < len,
{
    let big: usize = if offset >= 0 {
        offset as usize
    } else {
        (0i16 - offset as i16) as usize
    };
    let k = big % len;
    let ghost q = big as int / len as int;
    let ghost t = ip as int + offset as int;
    proof {
        lemma_fundamental_div_mod(big as int, len as int);
    }
    if offset >= 0 {
        proof {
            assert(t == len * q + (ip + k));
            lemma_mod_multiples_vanish(q, ip + k, len as int);
        }
        if ip >= len - k {
            proof {
                lemma_mod_add_multiples_vanish(ip + k - len, len as int);
                lemma_small_mod((ip + k - len) as nat, len as nat);
            }
            ip - (len - k)
        } else {
            proof {
                lemma_small_mod((ip + k) as nat, len as nat);
            }
            ip + k
        }
    } else {
        proof {
            assert(big as int == -(offset as int));
            assert(len * (-q) == -(len * q)) by (nonlinear_arith);
            assert(t == len * (-q) + (ip - k));
            lemma_mod_multiples_vanish(-q, ip - k, len as int);
        }
        if ip >= k {
            proof {
                lemma_small_mod((ip - k) as nat, len as nat);
            }
            ip - k
        } else {
            proof {
                lemma_mod_add_multiples_vanish(ip - k, len as int);
                lemma_small_mod((len + ip - k) as nat, len as nat);
            }
            ip + (len - k)
        }
    }
}

impl GPCAEntityInternal {
    pub fn new(x: u32, y: u32, id: u32, reg0: u64, reg1: u64, energy: u32) -> (r: Self)
        ensures
            r.pos[0] == x && r.pos[1] == y,
            r.id == id,
            r.reg0.long == reg0,
            r.reg1.long == reg1,
            r.energy == energy,
            r.rip == 0,
    {
        GPCAEntityInternal {
            reg0: DataRegister::new(reg0),
            reg1: DataRegister::new(reg1),
            pos: [x, y],
            id,
            energy,
            rip: 0,
        }
    }

    /// Reads a register; byte lanes zero-extend.
    pub fn get(&self, register: Register) -> (r: u64)
        ensures
            r == self.read_spec(register),
    {
        match register {
            Register::LongRegister0 => self.reg0.long_register(),
            Register::LongRegister1 => self.reg1.long_register(),
            Register::ByteRegister0_0 => self.reg0.byte_register(0) as u64,
            Register::ByteRegister0_1 => self.reg0.byte_register(1) as u64,
            Register::ByteRegister0_2 => self.reg0.byte_register(2) as u64,
            Register::ByteRegister0_3 => self.reg0.byte_register(3) as u64,
            Register::ByteRegister1_0 => self.reg1.byte_register(0) as u64,
            Register::ByteRegister1_1 => self.reg1.byte_register(1) as u64,
            Register::ByteRegister1_2 => self.reg1.byte_register(2) as u64,
            Register::ByteRegister1_3 => self.reg1.byte_register(3) as u64,
        }
    }

    /// Reads an operand; constants zero-extend.
    pub fn get_const(&self, register: RegConst) -> (r: u64)
        ensures
            r == self.operand_spec(register),
    {
        match register {
            RegConst::Constant(c) => c as u64,
            RegConst::Register(reg) => self.get(reg),
        }
    }

    /// Writes a register: a byte lane takes the low byte of `val`.
    pub fn set_register(&mut self, register: Register, val: u64)
        ensures
            *final(self) == old(self).write_spec(register, val),
    {
        let b = val as u8;
        assert((val as u8) as u64 & 0xff == val & 0xff) by (bit_vector);
        match register {
            Register::LongRegister0 => self.reg0.set_long_register(val),
            Register::LongRegister1 => self.reg1.set_long_register(val),
            Register::ByteRegister0_0 => self.reg0.set_byte_register(b, 0),
            Register::ByteRegister0_1 => self.reg0.set_byte_register(b, 1),
            Register::ByteRegister0_2 => self.reg0.set_byte_register(b, 2),
            Register::ByteRegister0_3 => self.reg0.set_byte_register(b, 3),
            Register::ByteRegister1_0 => self.reg1.set_byte_register(b, 0),
            Register::ByteRegister1_1 => self.reg1.set_byte_register(b, 1),
            Register::ByteRegister1_2 => self.reg1.set_byte_register(b, 2),
            Register::ByteRegister1_3 => self.reg1.set_byte_register(b, 3),
        }
    }

    /// Evaluates a predicate against the registers and the cells around
    /// the entity.
    pub fn handle_event(&self, event: Event, grid: &Grid) -> (r: bool)
        requires
            grid.wf(),
        ensures
            r == self.event_holds(
                event,
                grid@.neighbor_count(self.pos[0] as int, self.pos[1] as int),
            ),
    {
        match event {
            Event::Unconditional => true,
            Event::Equal(l, r) => self.get(l) == self.get(r),
            Event::NotEqual(l, r) => self.get(l) != self.get(r),
            Event::Greater(l, r) => self.get(l) > self.get(r),
            Event::Lesser(l, r) => self.get(l) < self.get(r),
            Event::GreaterEqual(l, r) => self.get(l) >= self.get(r),
            Event::LesserEqual(l, r) => self.get(l) <= self.get(r),
            Event::SurroundingSquaresEqual(o) => {
                self.get_const(o) == grid.neighbor_count(self.pos[0], self.pos[1]) as u64
            },
            Event::SurroundingSquaresNotEqual(o) => {
                self.get_const(o) != grid.neighbor_count(self.pos[0], self.pos[1]) as u64
            },
            Event::SurroundingSquaresGreater(o) => {
                self.get_const(o) > grid.neighbor_count(self.pos[0], self.pos[1]) as u64
            },
            Event::SurroundingSquaresLesser(o) => {
                self.get_const(o) < grid.neighbor_count(self.pos[0], self.pos[1]) as u64
            },
            Event::SurroundingSquaresGreaterEqual(o) => {
                self.get_const(o) >= grid.neighbor_count(self.pos[0], self.pos[1]) as u64
            },
            Event::SurroundingSquaresLesserEqual(o) => {
                self.get_const(o) <= grid.neighbor_count(self.pos[0], self.pos[1]) as u64
            },
        }
    }

    /// Tries one step in direction `step`; returns whether the entity moved.
    pub fn move_step(&mut self, step: Direction, grid: &mut Grid) -> (moved: bool)
        requires
            old(grid).wf(),
            old(grid)@.in_bounds(old(self).pos[0] as int, old(self).pos[1] as int),
        ensures
            final(grid).wf(),
            final(grid)@.width == old(grid)@.width,
            final(grid)@.height == old(grid)@.height,
            *final(self) == old(self).move_spec(old(grid)@, step).entity,
            final(grid)@ == old(self).move_spec(old(grid)@, step).grid,
            moved == old(self).move_spec(old(grid)@, step).moved,
    {
        let prev = self.pos;
        let mut target = self.pos;
        step.perform_direction(&mut target, grid.width(), grid.height());
        if (target[0] == prev[0] && target[1] == prev[1]) || grid.get(target[0], target[1]) {
            return false;
        }
        grid.clear(prev[0], prev[1]);
        grid.set(self.id, target[0], target[1]);
        self.pos = target;
        assert(self.pos =~= [target[0], target[1]]);
        true
    }

    /// Performs an action for a program of `code_len` words. A call is not
    /// made here: its operand is returned for the caller to dispatch.
    pub fn handle_response(
        &mut self,
        response: Response,
        code_len: usize,
        grid: &mut Grid,
    ) -> (call: Option<u64>)
        requires
            old(self).rip < code_len,
            old(grid).wf(),
            old(grid)@.in_bounds(old(self).pos[0] as int, old(self).pos[1] as int),
        ensures
            final(grid).wf(),
            final(grid)@.width == old(grid)@.width,
            final(grid)@.height == old(grid)@.height,
            *final(self) == old(self).response_outcome(response, code_len, old(grid)@).entity,
            final(grid)@ == old(self).response_outcome(response, code_len, old(grid)@).grid,
            call == old(self).response_outcome(response, code_len, old(grid)@).call,
    {
        match response {
            Response::Nop => None,
            Response::Call(o) => Some(self.get_const(o)),
            Response::Move(o) => {
                let v = self.get_const(o);
                self.move_step(Direction::from(v), grid);
                None
            },
            Response::Jmp(j) => {
                let (taken, offset) = jump_parts(j, self.reg0.long, self.reg1.long);
                if taken {
                    self.rip = jump_target(self.rip, offset, code_len);
                }
                None
            },
            Response::BinaryOp(op) => match op {
                BinaryOp::Xchg(a, b) => {
                    let va = self.get(a);
                    let vb = self.get(b);
                    self.set_register(a, vb);
                    self.set_register(b, va);
                    None
                },
                BinaryOp::Add(d, s) | BinaryOp::Sub(d, s) | BinaryOp::Mul(d, s) | BinaryOp::Div(
                    d,
                    s,
                ) | BinaryOp::Xor(d, s) | BinaryOp::And(d, s) | BinaryOp::Or(d, s) | BinaryOp::Mov(
                    d,
                    s,
                ) => {
                    let v = binary_value_exec(op, self.get(d), self.get_const(s));
                    self.set_register(d, v);
                    None
                },
                BinaryOp::MoveAdd(d, s) | BinaryOp::MoveSub(d, s) | BinaryOp::MoveMul(d, s)
                | BinaryOp::MoveDiv(d, s) | BinaryOp::MoveXor(d, s) | BinaryOp::MoveAnd(d, s)
                | BinaryOp::MoveOr(d, s) => {
                    let v = binary_value_exec(op, self.get(d), self.get_const(s));
                    self.move_step(Direction::from(v), grid);
                    None
                },
            },
        }
    }

    pub fn x(&self) -> (r: u32)
        ensures
            r == self.pos[0],
    {
        self.pos[0]
    }

    pub fn y(&self) -> (r: u32)
        ensures
            r == self.pos[1],
    {
        self.pos[1]
    }

    pub fn decrement_energy(&mut self)
        requires
            old(self).energy > 0,
        ensures
            *final(self) == (GPCAEntityInternal { energy: (old(self).energy - 1) as u32, ..*old(self) }),
    {
        self.energy = self.energy - 1;
    }

    pub fn set_energy(&mut self, energy: u32)
        ensures
            *final(self) == (GPCAEntityInternal { energy, ..*old(self) }),
    {
        self.energy = energy;
    }

    pub fn get_energy(&self) -> (r: u32)
        ensures
            r == self.energy,
    {
        self.energy
    }
}

/// A decoded instruction: the predicate, and the action taken when it holds.
#[derive(Clone, Copy, Debug, PartialEq, Eq, Structural)]
pub struct EventResponse {
    pub event: Event,
    pub response: Response,
}

/// The instruction that a program word encodes: the predicate in the high
/// half-word, the action in the low one.
pub open spec fn decode_word(w: u32) -> EventResponse {
    let hi = ((w >> 16) & 0xffff) as u16;
    let lo = (w & 0xffff) as u16;
    EventResponse {
        event: event_spec(high_byte(hi), low_byte(hi)),
        response: response_spec(high_byte(lo), low_byte(lo)),
    }
}

impl EventResponse {
    /// Decodes one program word. Every word decodes: unknown patterns give
    /// `Event::Unconditional` and `Response::Nop`.
    pub fn decode(word: u32) -> (r: EventResponse)
        ensures
            r == decode_word(word),
    {
        let event = ((word >> 16) & 0xffff) as u16;
        let response = (word & 0xffff) as u16;
        EventResponse { event: Event::from_half_word(event), response: Response::from_half_word(response) }
    }
}

/// Decoding is a function of the word alone: equal words decode equally.
pub proof fn lemma_decode_deterministic(w1: u32, w2: u32)
    requires
        w1 == w2,
    ensures
        decode_word(w1) == decode_word(w2),
{
}

/// An entity: its register-level state, its colour for observers, and its
/// program.
pub struct GPCAEntity {
    pub internal: GPCAEntityInternal,
    pub color: u32,
    pub code: Vec<u32>,
}

/// The abstract value of an entity: its state, colour and program.
pub struct EntityView {
    pub internal: GPCAEntityInternal,
    pub color: u32,
    pub code: Seq<u32>,
}

impl View for GPCAEntity {
    type V = EntityView;

    open spec fn view(&self) -> EntityView {
        EntityView { internal: self.internal, color: self.color, code: self.code@ }
    }
}

impl GPCAEntity {
    /// The program is non-empty and the instruction pointer lies inside it.
    pub open spec fn wf(&self) -> bool {
        &&& self.code@.len() > 0
        &&& self.internal.rip < self.code@.len()
    }

    pub fn new(
        x: u32,
        y: u32,
        id: u32,
        reg0: u64,
        reg1: u64,
        energy: u32,
        color: u32,
        code: Vec<u32>,
    ) -> (r: Self)
        requires
            code@.len() > 0,
        ensures
            r.wf(),
            r.internal.pos[0] == x && r.internal.pos[1] == y,
            r.internal.id == id,
            r.internal.reg0.long == reg0,
            r.internal.reg1.long == reg1,
            r.internal.energy == energy,
            r.internal.rip == 0,
            r.color == color,
            r.code@ == code@,
    {
        GPCAEntity { internal: GPCAEntityInternal::new(x, y, id, reg0, reg1, energy), color, code }
    }

    /// Decodes the word under the instruction pointer, if it lies inside
    /// the program.
    pub fn parse(&self) -> (r: Option<EventResponse>)
        ensures
            self.internal.rip < self.code@.len() ==> r == Some(
                decode_word(self.code@[self.internal.rip as int]),
            ),
            self.internal.rip >= self.code@.len() ==> r.is_none(),
    {
        if self.internal.rip < self.code.len() {
            Some(EventResponse::decode(self.code[self.internal.rip]))
        } else {
            None
        }
    }

    pub fn handle_event(&self, event: Event, grid: &Grid) -> (r: bool)
        requires
            grid.wf(),
        ensures
            r == self.internal.event_holds(
                event,
                grid@.neighbor_count(self.internal.pos[0] as int, self.internal.pos[1] as int),
            ),
    {
        self.internal.handle_event(event, grid)
    }

    pub fn x(&self) -> (r: u32)
        ensures
            r == self.internal.pos[0],
    {
        self.internal.x()
    }

    pub fn y(&self) -> (r: u32)
        ensures
            r == self.internal.pos[1],
    {
        self.internal.y()
    }

    /// Advances the instruction pointer by one, wrapping to the start.
    pub fn next_rip(&mut self)
        requires
            old(self).wf(),
        ensures
            final(self).wf(),
            final(self).internal == (GPCAEntityInternal {
                rip: ((old(self).internal.rip + 1) % (old(self).code@.len() as int)) as usize,
                ..old(self).internal
            }),
            final(self).color == old(self).color,
            final(self).code == old(self).code,
    {
        let len = self.code.len();
        let rip = self.internal.rip;
        if rip < len - 1 {
            self.internal.rip = rip + 1;
            proof {
                lemma_small_mod((rip + 1) as nat, len as nat);
            }
        } else {
            self.internal.rip = 0;
            proof {
                vstd::arithmetic::div_mod::lemma_mod_self_0(len as int);
            }
        }
    }

    pub fn inner(&self) -> (r: &GPCAEntityInternal)
        ensures
            *r == self.internal,
    {
        &self.internal
    }

    pub fn decrement_energy(&mut self)
        requires
            old(self).internal.energy > 0,
        ensures
            final(self).internal == (GPCAEntityInternal {
                energy: (old(self).internal.energy - 1) as u32,
                ..old(self).internal
            }),
            final(self).color == old(self).color,
            final(self).code == old(self).code,
    {
        self.internal.decrement_energy();
    }

    pub fn set_energy(&mut self, energy: u32)
        ensures
            final(self).internal == (GPCAEntityInternal { energy, ..old(self).internal }),
            final(self).color == old(self).color,
            final(self).code == old(self).code,
    {
        self.internal.set_energy(energy);
    }

    pub fn get_energy(&self) -> (r: u32)
        ensures
            r == self.internal.energy,
    {
        self.internal.get_energy()
    }

    /// Decodes the current word and advances the instruction pointer.
    pub fn next(&mut self) -> (r: Option<EventResponse>)
        requires
            old(self).wf(),
        ensures
            final(self).wf(),
            r == Some(decode_word(old(self).code@[old(self).internal.rip as int])),
            final(self).internal == (GPCAEntityInternal {
                rip: ((old(self).internal.rip + 1) % (old(self).code@.len() as int)) as usize,
                ..old(self).internal
            }),
            final(self).color == old(self).color,
            final(self).code == old(self).code,
    {
        let next = self.parse();
        self.next_rip();
        next
    }
}

/// What every action keeps: the id, the energy, an instruction pointer
/// inside the program and a position inside the grid; and how the grid
/// changes: not at all, or by one move from the old cell to a free one.
pub proof fn lemma_response_facts(
    e: GPCAEntityInternal,
    response: Response,
    code_len: usize,
    g: GridView,
)
    requires
        g.wf(),
        e.rip < code_len,
        g.in_bounds(e.pos[0] as int, e.pos[1] as int),
    ensures
        ({
            let o = e.response_outcome(response, code_len, g);
            &&& o.entity.id == e.id
            &&& o.entity.energy == e.energy
            &&& o.entity.rip < code_len
            &&& g.in_bounds(o.entity.pos[0] as int, o.entity.pos[1] as int)
            &&& !o.moved ==> o.grid == g && o.entity.pos == e.pos
            &&& o.moved ==> {
                &&& o.entity.pos[0] != e.pos[0] || o.entity.pos[1] != e.pos[1]
                &&& g.occupant(o.entity.pos[0] as int, o.entity.pos[1] as int) == None::<u32>
                &&& o.grid == g.clear(e.pos[0] as int, e.pos[1] as int).set(
                    o.entity.pos[0] as int,
                    o.entity.pos[1] as int,
                    e.id,
                )
            }
        }),
{
    let o = e.response_outcome(response, code_len, g);
    match response {
        Response::Jmp(j) => {
            let t = e.rip as int + jump_offset(j) as int;
            assert(0 <= t % (code_len as int) < code_len) by {
                vstd::arithmetic::div_mod::lemma_mod_bound(t, code_len as int);
            }
        },
        _ => {},
    }
}

/// A step right from the last column is refused: the target lies outside
/// the grid, which counts as taken, so the entity stays where it is.
pub proof fn lemma_right_edge_blocks(e: GPCAEntityInternal, g: GridView)
    requires
        g.wf(),
        g.in_bounds(e.pos[0] as int, e.pos[1] as int),
        e.pos[0] == g.width - 1,
    ensures
        e.move_spec(g, Direction::Right).entity == e,
        e.move_spec(g, Direction::Right).grid == g,
        !e.move_spec(g, Direction::Right).moved,
{
}

/// A step left from the first column leaves the entity where it is: the
/// coordinate is held at zero.
pub proof fn lemma_left_edge_holds(e: GPCAEntityInternal, g: GridView)
    requires
        g.wf(),
        e.pos[0] == 0,
    ensures
        e.move_spec(g, Direction::Left).entity == e,
        e.move_spec(g, Direction::Left).grid == g,
        !e.move_spec(g, Direction::Left).moved,
{
}

/// An unconditional jump by -1 from the first word lands on the last one.
pub proof fn lemma_jump_back_wraps(e: GPCAEntityInternal, code_len: usize, g: GridView)
    requires
        e.rip == 0,
        code_len > 0,
    ensures
        e.response_outcome(Response::Jmp(Jump::Unconditional(-1i8)), code_len, g).entity.rip
            == code_len - 1,
{
    assert((-1int) % (code_len as int) == code_len - 1) by {
        lemma_mod_add_multiples_vanish(-1, code_len as int);
        lemma_small_mod((code_len - 1) as nat, code_len as nat);
    }
}

/// Division by zero stores `u64::MAX`; as a direction that value names
/// `BottomRight`.
pub proof fn lemma_divide_by_zero(
    e: GPCAEntityInternal,
    dst: Register,
    src: RegConst,
    code_len: usize,
    g: GridView,
)
    requires
        e.operand_spec(src) == 0,
    ensures
        e.response_outcome(Response::BinaryOp(BinaryOp::Div(dst, src)), code_len, g).entity
            == e.write_spec(dst, u64::MAX),
        direction_of(u64::MAX) == Direction::BottomRight,
        e.response_outcome(Response::BinaryOp(BinaryOp::MoveDiv(dst, src)), code_len, g).entity
            == e.move_spec(g, Direction::BottomRight).entity,
        e.response_outcome(Response::BinaryOp(BinaryOp::MoveDiv(dst, src)), code_len, g).grid
            == e.move_spec(g, Direction::BottomRight).grid,
{
    assert(u64::MAX % 8 == 7);
}

/// Register aliasing through the selectors: writing byte lane `i` of the
/// first long register changes only byte `i` of it, which then holds the low
/// byte written; writing the long register and reading lane `i` gives
/// `(value >> 8*i) & 0xff`.
pub proof fn lemma_register_aliasing(e: GPCAEntityInternal, i: u8, v: u64, j: u64)
    requires
        i < 4,
        j < 8,
    ensures
        j != i ==> lane(
            e.write_spec(byte_register_spec(i), v).read_spec(Register::LongRegister0),
            j,
        ) == lane(e.reg0.long, j),
        lane(e.write_spec(byte_register_spec(i), v).read_spec(Register::LongRegister0), i as u64)
            == v & 0xff,
        e.write_spec(Register::LongRegister0, v).read_spec(byte_register_spec(i)) == (v >> ((8
            * i) as u64)) & 0xff,
{
    lemma_lane_write_isolated(e.reg0.long, i as u64, v, j);
}

/// No action changes an entity's energy.
pub proof fn lemma_response_keeps_energy(
    e: GPCAEntityInternal,
    response: Response,
    code_len: usize,
    g: GridView,
)
    ensures
        e.response_outcome(response, code_len, g).entity.energy == e.energy,
{
}

} // verus!
