use gpcalang::{
    jump_target, mutate_code, regbyte_lhs_rhs_ext, BinaryOp, CallRequest, CellEvent, DataRegister,
    Direction, Event, EventResponse, GPCAEntity, GPCAEntityInternal, Grid, Jump, RegConst,
    Register, Response, StepOutcome, World,
};

fn entity(x: u32, y: u32, reg0: u64, energy: u32, code: Vec<u32>) -> GPCAEntity {
    GPCAEntity::new(x, y, 0, reg0, 0, energy, 0x1234_5678, code)
}

fn world(width: u32, height: u32, use_energy: bool, callbacks: usize) -> World {
    World::new(callbacks, 4, width, height, use_energy, 0, 1, Some(7))
}

fn run_tick(w: &mut World) -> Vec<CellEvent> {
    let mut events = Vec::new();
    assert!(w.step(&mut events).is_none());
    events
}

// Unconditional (the predicate compares a byte lane with itself), then an action.
const NOP: u32 = 0x0000_0400;
const MOVE_LONG0: u32 = 0x0000_0000;

#[test]
fn idle_entity_on_one_cell() {
    let mut w = world(1, 1, true, 0);
    w.push_entity(entity(0, 0, 0, 10, vec![MOVE_LONG0]));
    let events = run_tick(&mut w);
    assert_eq!(events, vec![CellEvent::Cleared { x: 0, y: 0, id: 0, color: 0x1234_5678 }]);
    let e = &w.get_entites()[0];
    assert_eq!((e.x(), e.y()), (0, 0));
    assert_eq!(e.internal.rip, 0);
    assert_eq!(e.get_energy(), 9);
}

#[test]
fn deterministic_walk() {
    let mut w = world(4, 1, false, 0);
    w.push_entity(entity(0, 0, 0, 0, vec![0x0000_000F]));
    let mut xs = Vec::new();
    for _ in 0..4 {
        run_tick(&mut w);
        xs.push(w.get_entites()[0].x());
    }
    assert_eq!(xs, vec![1, 2, 3, 3]);
    assert!(w.get(3, 0));
    assert!(!w.get(0, 0));
    assert_eq!(w.entity_at(3, 0), Some(0));
}

#[test]
fn walk_reports_cell_events() {
    let mut w = world(4, 1, false, 0);
    w.push_entity(entity(0, 0, 0, 0, vec![0x0000_0F00]));
    let events = run_tick(&mut w);
    assert_eq!(
        events,
        vec![
            CellEvent::Cleared { x: 0, y: 0, id: 0, color: 0x1234_5678 },
            CellEvent::Placed { x: 1, y: 0, id: 0, color: 0x1234_5678 },
        ]
    );
}

#[test]
fn mutual_block() {
    let mut w = world(2, 1, false, 0);
    w.push_entity(entity(0, 0, 0, 0, vec![MOVE_LONG0]));
    w.push_entity(entity(1, 0, 0, 0, vec![MOVE_LONG0]));
    let events = run_tick(&mut w);
    assert_eq!(
        events,
        vec![
            CellEvent::Cleared { x: 0, y: 0, id: 0, color: 0x1234_5678 },
            CellEvent::Cleared { x: 1, y: 0, id: 1, color: 0x1234_5678 },
        ]
    );
    assert!(!events.iter().any(|e| matches!(e, CellEvent::Placed { .. })));
    assert_eq!(w.get_entites()[0].x(), 0);
    assert_eq!(w.get_entites()[1].x(), 1);
}

#[test]
fn jump_wraps_backwards() {
    let mut w = world(3, 3, false, 0);
    w.push_entity(entity(1, 1, 0, 0, vec![0x0000_0E00, 0x0000_0EFF]));
    let mut ips = Vec::new();
    for _ in 0..4 {
        run_tick(&mut w);
        ips.push(w.get_entites()[0].internal.rip);
    }
    assert_eq!(ips, vec![1, 1, 1, 1]);
}

#[test]
fn xchg_swaps_long_registers() {
    let mut grid = Grid::new(2, 2);
    let mut e = GPCAEntityInternal::new(0, 0, 0, 0xAA, 0xBB, 0);
    let call = e.handle_response(
        Response::BinaryOp(BinaryOp::Xchg(Register::LongRegister0, Register::LongRegister1)),
        1,
        &mut grid,
    );
    assert_eq!(call, None);
    assert_eq!(e.get(Register::LongRegister0), 0xBB);
    assert_eq!(e.get(Register::LongRegister1), 0xAA);
}

#[test]
fn eviction_rebinds_id() {
    let mut w = world(5, 1, false, 0);
    w.push_entity(entity(0, 0, 0, 0, vec![NOP]));
    w.push_entity(entity(2, 0, 0, 0, vec![NOP]));
    w.push_entity(entity(4, 0, 0, 0, vec![NOP]));
    w.remove(2, 0);
    let events = run_tick(&mut w);
    assert_eq!(events, vec![CellEvent::Cleared { x: 2, y: 0, id: 1, color: 0x1234_5678 }]);
    assert_eq!(w.entity_count(), 2);
    let moved = &w.get_entites()[1];
    assert_eq!(moved.inner().id, 1);
    assert_eq!((moved.x(), moved.y()), (4, 0));
    assert_eq!(w.entity_at(4, 0), Some(1));
}

#[test]
fn energy_runs_out() {
    let mut w = world(3, 3, true, 0);
    w.push_entity(entity(1, 1, 0, 1, vec![NOP]));
    run_tick(&mut w);
    assert_eq!(w.get_entites()[0].get_energy(), 0);
    let events = run_tick(&mut w);
    assert_eq!(events, vec![CellEvent::Cleared { x: 1, y: 1, id: 0, color: 0x1234_5678 }]);
    assert_eq!(w.entity_count(), 0);
    assert!(!w.get(1, 1));
}

#[test]
fn energy_never_rises_over_ticks() {
    let mut w = world(4, 4, true, 0);
    w.push_entity(entity(0, 0, 1, 5, vec![0x0000_0100]));
    w.push_entity(entity(3, 3, 2, 7, vec![NOP]));
    let mut last: Vec<u32> = w.get_entites().iter().map(|e| e.get_energy()).collect();
    for _ in 0..3 {
        run_tick(&mut w);
        let now: Vec<u32> = w.get_entites().iter().map(|e| e.get_energy()).collect();
        for (a, b) in now.iter().zip(last.iter()) {
            assert!(a <= b);
        }
        last = now;
    }
    assert_eq!(last, vec![2, 4]);
}

#[test]
fn call_asks_the_host() {
    let mut w = world(3, 3, false, 3);
    w.push_entity(entity(1, 1, 0, 0, vec![0x0000_FF05]));
    let mut events = Vec::new();
    let r = w.step(&mut events);
    assert_eq!(r, Some(CallRequest { entity: 0, callback: 2 }));
    assert!(w.step(&mut events).is_none());
}

#[test]
fn call_without_callbacks_does_nothing() {
    let mut w = world(3, 3, false, 0);
    w.push_entity(entity(1, 1, 0, 0, vec![0x0000_FF05]));
    let mut events = Vec::new();
    assert_eq!(w.advance(&mut events), StepOutcome::Ran);
    assert_eq!(w.advance(&mut events), StepOutcome::Finished);
}

#[test]
fn spawn_during_call_runs_in_same_tick() {
    let mut w = world(3, 3, false, 1);
    w.push_entity(entity(0, 0, 0, 0, vec![0x0000_FF00]));
    let mut events = Vec::new();
    let r = w.step(&mut events).unwrap();
    assert_eq!(r.entity, 0);
    w.push_entity(entity(2, 2, 0, 0, vec![NOP]));
    assert!(w.step(&mut events).is_none());
    assert_eq!(w.get_entites()[1].internal.rip, 0);
    assert_eq!(w.get_entites()[1].inner().id, 1);
}

#[test]
fn right_edge_refuses_move() {
    let mut grid = Grid::new(3, 1);
    let mut e = GPCAEntityInternal::new(2, 0, 0, 0, 0, 0);
    grid.set(0, 2, 0);
    assert!(!e.move_step(Direction::Right, &mut grid));
    assert_eq!(e.x(), 2);
}

#[test]
fn left_edge_holds_position() {
    let mut grid = Grid::new(3, 1);
    let mut e = GPCAEntityInternal::new(0, 0, 0, 0, 0, 0);
    grid.set(0, 0, 0);
    assert!(!e.move_step(Direction::Left, &mut grid));
    assert_eq!(e.x(), 0);
}

#[test]
fn corner_counts_outside_cells() {
    let mut grid = Grid::new(3, 3);
    assert_eq!(grid.neighbor_count(0, 0), 5);
    assert_eq!(grid.neighbor_count(2, 2), 5);
    assert_eq!(grid.neighbor_count(1, 1), 0);
    grid.set(4, 1, 1);
    assert_eq!(grid.neighbor_count(0, 0), 6);
    assert_eq!(grid.neighbor_count(1, 1), 0);
    assert_eq!(grid.neighbor_count(2, 1), 4);
}

#[test]
fn jump_back_from_start_lands_on_last() {
    assert_eq!(jump_target(0, -1, 5), 4);
    assert_eq!(jump_target(3, 4, 5), 2);
    assert_eq!(jump_target(0, -128, 3), 1);
    assert_eq!(jump_target(1, 127, 2), 0);
}

#[test]
fn divide_by_zero_stores_max() {
    let mut grid = Grid::new(2, 2);
    let mut e = GPCAEntityInternal::new(0, 1, 0, 7, 0, 0);
    e.handle_response(
        Response::BinaryOp(BinaryOp::Div(Register::LongRegister0, RegConst::Constant(0))),
        1,
        &mut grid,
    );
    assert_eq!(e.get(Register::LongRegister0), u64::MAX);
}

#[test]
fn divide_stores_quotient() {
    let mut grid = Grid::new(2, 2);
    let mut e = GPCAEntityInternal::new(0, 1, 0, 7, 0, 0);
    e.handle_response(
        Response::BinaryOp(BinaryOp::Div(Register::LongRegister0, RegConst::Constant(2))),
        1,
        &mut grid,
    );
    assert_eq!(e.get(Register::LongRegister0), 3);
}

#[test]
fn move_divide_by_zero_goes_bottom_right() {
    let mut grid = Grid::new(2, 2);
    grid.set(0, 0, 1);
    let mut e = GPCAEntityInternal::new(0, 1, 0, 7, 0, 0);
    e.handle_response(
        Response::BinaryOp(BinaryOp::MoveDiv(Register::LongRegister0, RegConst::Constant(0))),
        1,
        &mut grid,
    );
    assert_eq!((e.x(), e.y()), (1, 0));
    assert_eq!(grid.lookup(1, 0), Some(0));
    assert_eq!(grid.lookup(0, 1), None);
    assert_eq!(Direction::from(u64::MAX), Direction::BottomRight);
}

#[test]
fn wrapping_arithmetic() {
    let mut grid = Grid::new(2, 2);
    let mut e = GPCAEntityInternal::new(0, 0, 0, u64::MAX, 2, 0);
    let add = Response::BinaryOp(BinaryOp::Add(Register::LongRegister0, RegConst::Register(Register::LongRegister1)));
    e.handle_response(add, 1, &mut grid);
    assert_eq!(e.get(Register::LongRegister0), 1);
    let sub = Response::BinaryOp(BinaryOp::Sub(Register::LongRegister0, RegConst::Constant(3)));
    e.handle_response(sub, 1, &mut grid);
    assert_eq!(e.get(Register::LongRegister0), u64::MAX - 1);
    let byte_add = Response::BinaryOp(BinaryOp::Add(Register::ByteRegister0_0, RegConst::Constant(5)));
    e.handle_response(byte_add, 1, &mut grid);
    assert_eq!(e.get(Register::ByteRegister0_0), 3);
    assert_eq!(e.get(Register::LongRegister0), 0xFFFF_FFFF_FFFF_FF03);
}

#[test]
fn byte_lane_write_changes_one_byte() {
    let mut r = DataRegister::new(0x1122_3344_5566_7788);
    r.set_byte_register(0xAB, 1);
    assert_eq!(r.long_register(), 0x1122_3344_5566_AB88);
    assert_eq!(r.byte_register(1), 0xAB);
    r.set_long_register(0x0102_0304_0506_0708);
    assert_eq!(r.byte_register(0), 0x08);
    assert_eq!(r.byte_register(3), 0x05);
}

#[test]
fn register_aliasing_through_selectors() {
    let mut e = GPCAEntityInternal::new(0, 0, 0, 0, 0, 0);
    e.set_register(Register::LongRegister1, 0xDEAD_BEEF_0000_1234);
    assert_eq!(e.get(Register::ByteRegister1_0), 0x34);
    assert_eq!(e.get(Register::ByteRegister1_1), 0x12);
    assert_eq!(e.get(Register::ByteRegister1_3), 0x00);
    e.set_register(Register::ByteRegister1_2, 0x1FF);
    assert_eq!(e.get(Register::LongRegister1), 0xDEAD_BEEF_00FF_1234);
    assert_eq!(e.get_const(RegConst::Constant(9)), 9);
}

#[test]
fn decode_examples() {
    let unconditional = Event::Equal(Register::ByteRegister0_0, Register::ByteRegister0_0);
    assert_eq!(
        EventResponse::decode(0x0000_0E00),
        EventResponse { event: unconditional, response: Response::Jmp(Jump::Unconditional(0)) }
    );
    assert_eq!(EventResponse::decode(0x0000_0EFF).response, Response::Jmp(Jump::Unconditional(-1)));
    assert_eq!(Response::top_layer(0xFF, 7), Response::Call(RegConst::Constant(7)));
    assert_eq!(Response::top_layer(0x80, 7), Response::Call(RegConst::Register(Register::LongRegister0)));
    assert_eq!(Response::top_layer(0x40, 7), Response::Nop);
    assert_eq!(
        Response::top_layer(0x1F, 0x81),
        Response::BinaryOp(BinaryOp::Xchg(Register::LongRegister0, Register::LongRegister1))
    );
    assert_eq!(
        Response::top_layer(0x33, 0xC0),
        Response::BinaryOp(BinaryOp::MoveDiv(
            Register::LongRegister1,
            RegConst::Register(Register::LongRegister0)
        ))
    );
    assert_eq!(Response::top_layer(0x3B, 0), Response::Move(RegConst::Constant(6)));
    assert_eq!(Response::top_layer(0x23, 0x80), Response::Jmp(Jump::Reg1Lesser(-128)));
    assert_eq!(Event::top_layer(0x0A, 3), Event::SurroundingSquaresGreater(RegConst::Constant(3)));
    assert_eq!(
        Event::top_layer(0x12, 0x2C),
        Event::SurroundingSquaresGreater(RegConst::Register(Register::ByteRegister1_1))
    );
    assert_eq!(Event::top_layer(0x07, 0), Event::Unconditional);
    assert_eq!(regbyte_lhs_rhs_ext(0x3A), (Register::ByteRegister1_3, Register::ByteRegister0_2));
    assert_eq!(regbyte_lhs_rhs_ext(0xC0), (Register::LongRegister1, Register::LongRegister0));
}

#[test]
fn decode_is_total_and_repeatable() {
    let words = [0u32, 0xFFFF_FFFF, 0x1234_5678, 0x8000_0001, 0x00FF_FF00];
    for w in words {
        assert_eq!(EventResponse::decode(w), EventResponse::decode(w));
    }
    assert_eq!(
        EventResponse::decode(0xFFFF_FFFF),
        EventResponse { event: Event::Unconditional, response: Response::Call(RegConst::Constant(0xFF)) }
    );
}

#[test]
fn predicates_compare_unsigned() {
    let grid = Grid::new(3, 3);
    let e = GPCAEntityInternal::new(1, 1, 0, 5, 9, 0);
    assert!(e.handle_event(Event::Lesser(Register::LongRegister0, Register::LongRegister1), &grid));
    assert!(!e.handle_event(Event::Greater(Register::LongRegister0, Register::LongRegister1), &grid));
    assert!(e.handle_event(Event::SurroundingSquaresEqual(RegConst::Constant(0)), &grid));
    let corner = GPCAEntityInternal::new(0, 0, 0, 5, 9, 0);
    assert!(corner.handle_event(Event::SurroundingSquaresEqual(RegConst::Constant(5)), &grid));
}

#[test]
fn lesser_jump_tests_less_or_equal() {
    let mut grid = Grid::new(2, 2);
    let mut e = GPCAEntityInternal::new(0, 0, 0, 4, 4, 0);
    e.rip = 1;
    e.handle_response(Response::Jmp(Jump::Reg0Lesser(1)), 3, &mut grid);
    assert_eq!(e.rip, 2);
    e.handle_response(Response::Jmp(Jump::Reg0Greater(1)), 3, &mut grid);
    assert_eq!(e.rip, 2);
}

#[test]
fn instruction_pointer_wraps() {
    let mut e = entity(0, 0, 0, 0, vec![NOP, MOVE_LONG0]);
    assert_eq!(e.next().unwrap().response, Response::Nop);
    assert_eq!(e.internal.rip, 1);
    e.next_rip();
    assert_eq!(e.internal.rip, 0);
    assert!(e.parse().is_some());
}

#[test]
fn directions_from_values() {
    let dirs: Vec<Direction> = (0u64..9).map(Direction::from).collect();
    assert_eq!(dirs[0], Direction::Right);
    assert_eq!(dirs[3], Direction::TopLeft);
    assert_eq!(dirs[7], Direction::BottomRight);
    assert_eq!(dirs[8], Direction::Right);
    let mut pos = [1u32, 1u32];
    Direction::TopRight.perform_direction(&mut pos, 2, 2);
    assert_eq!(pos, [2, 2]);
    Direction::BottomLeft.perform_direction(&mut pos, 2, 2);
    assert_eq!(pos, [1, 1]);
}

#[test]
fn entity_at_direction() {
    let mut w = world(3, 3, false, 0);
    w.push_entity(entity(1, 1, 0, 0, vec![NOP]));
    w.push_entity(entity(1, 2, 0, 0, vec![NOP]));
    let inner = *w.get_entites()[0].inner();
    assert_eq!(w.get_entity_at_direction(&inner, Direction::Top), Some(1));
    assert_eq!(w.get_entity_at_direction(&inner, Direction::Bottom), None);
    assert_eq!(w.surrounding_square_count(1, 1), 1);
}

#[test]
fn mutation_flips_one_bit() {
    let mut code = vec![0u32, 0x10];
    mutate_code(&mut code, 1, 4);
    assert_eq!(code, vec![0, 0]);
    mutate_code(&mut code, 0, 31);
    assert_eq!(code, vec![0x8000_0000, 0]);
}

#[test]
fn create_without_mutation_keeps_code() {
    let mut w = world(3, 3, false, 0);
    w.create_entity(entity(2, 2, 0, 0, vec![0xABCD_0123]));
    assert_eq!(w.get_entites()[0].code, vec![0xABCD_0123]);
    assert_eq!(w.entity_at(2, 2), Some(0));
}

#[test]
fn create_with_certain_mutation_flips_one_bit() {
    let mut w = World::new(0, 4, 3, 3, false, 1, 1, None);
    w.create_entity(entity(2, 2, 0, 0, vec![0xABCD_0123, 0]));
    let code = &w.get_entites()[0].code;
    let diff = (code[0] ^ 0xABCD_0123).count_ones() + code[1].count_ones();
    assert_eq!(diff, 1);
}

#[test]
fn random_draws_stay_below_bound() {
    let mut w = world(2, 2, false, 0);
    for _ in 0..100 {
        assert!(w.random_below(6) < 6);
    }
}

#[test]
fn move_step_flag() {
    assert!(Response::Move(RegConst::Constant(1)).is_move_step());
    assert!(Response::BinaryOp(BinaryOp::MoveOr(Register::LongRegister0, RegConst::Constant(1))).is_move_step());
    assert!(!Response::BinaryOp(BinaryOp::Or(Register::LongRegister0, RegConst::Constant(1))).is_move_step());
    assert!(!Response::Nop.is_move_step());
}

fn assert_invariants(w: &World) {
    let entities = w.get_entites();
    for (i, e) in entities.iter().enumerate() {
        assert_eq!(e.inner().id as usize, i);
        assert!(e.internal.rip < e.code.len());
        assert!(e.x() < w.width() && e.y() < w.height());
    }
    for y in 0..w.height() {
        for x in 0..w.width() {
            if let Some(k) = w.entity_at(x, y) {
                let e = &entities[k as usize];
                assert_eq!((e.x(), e.y()), (x, y));
            }
        }
    }
    for i in 0..entities.len() {
        for j in 0..entities.len() {
            let (a, b) = (&entities[i], &entities[j]);
            let live_a = w.entity_at(a.x(), a.y()) == Some(i as u32);
            let live_b = w.entity_at(b.x(), b.y()) == Some(j as u32);
            if i != j && live_a && live_b {
                assert!((a.x(), a.y()) != (b.x(), b.y()));
            }
        }
    }
}

#[test]
fn invariants_hold_after_ticks() {
    let mut w = World::new(2, 16, 6, 5, true, 1, 3, Some(99));
    let mut placed = 0;
    while placed < 12 {
        let x = w.random_below(6) as u32;
        let y = w.random_below(5) as u32;
        if w.get(x, y) {
            continue;
        }
        let code: Vec<u32> = (0..6).map(|_| w.random_below(1 << 32) as u32).collect();
        let energy = 3 + w.random_below(6) as u32;
        let reg0 = w.random_below(8);
        w.create_entity(GPCAEntity::new(x, y, 0, reg0, 1, energy, 7, code));
        placed += 1;
    }
    assert_invariants(&w);
    for tick in 0..12 {
        let mut events = Vec::new();
        while let Some(req) = w.step(&mut events) {
            assert!(req.callback < 2);
            if tick % 2 == 0 {
                let e = &w.get_entites()[req.entity as usize];
                let (x, y) = (e.x(), e.y());
                w.remove(x, y);
            }
            assert_invariants(&w);
        }
        assert_invariants(&w);
    }
}

#[test]
fn crossover_interleaves_parents() {
    let a = vec![1u32, 2, 3];
    let b = vec![10u32, 20, 30, 40, 50];
    assert_eq!(gpcalang::crossover_code(&a, &b), vec![1, 20, 3, 40, 2]);
    assert_eq!(gpcalang::crossover_code(&b, &a), vec![10, 2, 30, 1, 50]);
}

#[test]
fn meal_gains_a_quarter_up_to_cap() {
    assert_eq!(gpcalang::energy_after_meal(10, 5), 12);
    assert_eq!(gpcalang::energy_after_meal(10, 8), 12);
    assert_eq!(gpcalang::energy_after_meal(4000, 4096), gpcalang::ENERGY_CAP);
    assert_eq!(gpcalang::energy_after_meal(u32::MAX, u32::MAX), gpcalang::ENERGY_CAP);
}

#[test]
fn dead_entity_under_another_sends_no_event() {
    let mut w = world(3, 1, false, 0);
    w.push_entity(entity(0, 0, 0, 0, vec![NOP]));
    w.push_entity(entity(2, 0, 0, 0, vec![NOP]));
    w.remove(0, 0);
    w.push_entity(GPCAEntity::new(0, 0, 0, 0, 0, 0, 0x55, vec![NOP]));
    let events = run_tick(&mut w);
    assert!(events.is_empty());
    assert_eq!(w.entity_count(), 2);
    assert_eq!(w.entity_at(0, 0), Some(0));
    assert_eq!(w.get_entites()[0].color, 0x55);
}

#[test]
fn refused_move_action_clears_without_placing() {
    let mut w = world(2, 2, false, 0);
    w.push_entity(entity(1, 0, 0, 0, vec![0x0000_0F00]));
    let events = run_tick(&mut w);
    assert_eq!(events, vec![CellEvent::Cleared { x: 1, y: 0, id: 0, color: 0x1234_5678 }]);
    assert_eq!(w.entity_at(1, 0), Some(0));
}
