//! A cellular automaton whose cells are small programmable agents.
//!
//! Each entity owns a register file, a program of 32-bit words and a
//! position on a bounded occupancy grid. Every tick the world lets each
//! entity decode one instruction, test its predicate and perform its action.
//! Host callbacks are dispatched by the caller of `World::step`, which
//! returns whenever an action asks for one.

pub mod registers;
pub mod bytecode;
pub mod grid;
pub mod entity;
mod rng;
pub mod world;
pub mod callbacks;

pub use registers::DataRegister;
pub use bytecode::{regbyte_lhs_rhs_ext, BinaryOp, Event, Jump, RegConst, Register, Response};
pub use grid::{Grid, GridView, EMPTY_CELL};
pub use entity::{
    jump_target, CellEvent, Direction, EntityView, EventResponse, GPCAEntity, GPCAEntityInternal,
};
pub use world::{mutate_code, CallRequest, StepOutcome, World, DEFAULT_SEED};
pub use callbacks::{crossover_code, energy_after_meal, ENERGY_CAP};
