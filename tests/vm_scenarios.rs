use daedalus::file::File;
use daedalus::game_state::{GameExternals, GameState};
use daedalus::object_allocator::Handle;
use daedalus::opcode::Operator;
use daedalus::sym_table::SymTable;
use daedalus::symbol::{Data, Flag, Kind, Properties, SymbolBuilder};
use daedalus::vm::{CallStackFrame, ExternalHost, FloatValue, VirtualMachine};

struct NoHost;

impl ExternalHost for NoHost {
    fn call_external(&mut self, _vm: &mut VirtualMachine, _symbol_index: usize) {}
}

impl GameExternals for NoHost {
    fn insert_npc(&mut self, _npc: Handle, _waypoint: &[u8]) {}
    fn post_insert_npc(&mut self, _npc: Handle) {}
    fn remove_npc(&mut self, _npc: Handle) {}
    fn insert_item(&mut self, _item: Handle) {}
    fn create_inv_item(&mut self, _item: Handle, _npc: Handle) {}
}

fn builder(name: &str, kind: Kind, count: u32, flags: u32) -> SymbolBuilder {
    SymbolBuilder::new(name.as_bytes().to_vec()).with_properties(Properties::with_kind(kind, count, flags))
}

fn func(name: &str, address: u32, flags: u32) -> SymbolBuilder {
    builder(name, Kind::Func, 0, flags).with_address(address)
}

fn op(code: &mut Vec<u8>, o: Operator) {
    code.push(o.code());
}

fn op_i32(code: &mut Vec<u8>, o: Operator, arg: i32) {
    code.push(o.code());
    code.extend_from_slice(&arg.to_le_bytes());
}

const CONST_RETURN: u32 = 1 | 2;

/// A table whose symbol 0 is a placeholder, then the given symbols.
fn table(symbols: Vec<SymbolBuilder>) -> SymTable {
    let mut t = SymTable::new();
    t.push(builder("", Kind::Void, 0, 0).build().unwrap());
    for b in symbols {
        t.push(b.build().unwrap());
    }
    t
}

/// Code with a `Ret` at 0 so that functions start at a nonzero address.
fn code_start() -> Vec<u8> {
    vec![Operator::Ret.code()]
}

fn machine(t: SymTable, code: Vec<u8>) -> VirtualMachine {
    VirtualMachine::new(File::from_parts(t, code))
}

#[test]
fn arith_adds_two_pushed_ints() {
    let mut code = code_start();
    let main = code.len() as u32;
    op_i32(&mut code, Operator::PushInt, 3);
    op_i32(&mut code, Operator::PushInt, 4);
    op(&mut code, Operator::Add);
    op(&mut code, Operator::Ret);
    let mut vm = machine(table(vec![func("MAIN", main, CONST_RETURN)]), code);
    assert_eq!(vm.run_func_by_sym_index(&mut NoHost, 1, true), Some(7));
}

#[test]
fn arith_without_return_flag_leaves_seven_on_stack() {
    let mut code = code_start();
    let main = code.len() as u32;
    op_i32(&mut code, Operator::PushInt, 3);
    op_i32(&mut code, Operator::PushInt, 4);
    op(&mut code, Operator::Add);
    op(&mut code, Operator::Ret);
    let mut vm = machine(table(vec![func("MAIN", main, 1)]), code);
    assert_eq!(vm.run_func_by_sym_index(&mut NoHost, 1, true), Some(0));
    assert_eq!(vm.pop_int(), 7);
    assert!(vm.is_stack_empty());
    assert!(vm.get_call_stack().is_empty());
}

#[test]
fn begin_external_moves_past_bound_call() {
    let mut code = code_start();
    op_i32(&mut code, Operator::CallExternal, 1);
    let e = builder("E", Kind::Func, 0, 1 | 8);
    let mut vm = machine(table(vec![e]), code);
    vm.set_program_counter(1);
    assert_eq!(vm.begin_external(), None);
    assert_eq!(vm.get_program_counter(), 1);
    vm.register_external_func("E");
    vm.push_int(7);
    assert_eq!(vm.begin_external(), Some(1));
    assert_eq!(vm.get_program_counter(), 6);
    assert_eq!(vm.pop_int(), 7);
}

#[test]
fn arith_by_single_steps_leaves_seven() {
    let mut code = code_start();
    let main = code.len() as u32;
    op_i32(&mut code, Operator::PushInt, 3);
    op_i32(&mut code, Operator::PushInt, 4);
    op(&mut code, Operator::Add);
    op(&mut code, Operator::Ret);
    let mut vm = machine(table(vec![func("MAIN", main, CONST_RETURN)]), code);
    vm.set_program_counter(main);
    vm.do_stack(&mut NoHost);
    vm.do_stack(&mut NoHost);
    vm.do_stack(&mut NoHost);
    assert_eq!(vm.pop_int(), 7);
    assert!(vm.is_stack_empty());
}

#[test]
fn subtraction_takes_top_minus_next() {
    let mut code = code_start();
    let main = code.len() as u32;
    op_i32(&mut code, Operator::PushInt, 3);
    op_i32(&mut code, Operator::PushInt, 10);
    op(&mut code, Operator::Subtract);
    op(&mut code, Operator::Ret);
    let mut vm = machine(table(vec![func("MAIN", main, CONST_RETURN)]), code);
    assert_eq!(vm.run_func_by_sym_index(&mut NoHost, 1, true), Some(7));
}

#[test]
fn division_by_zero_gives_zero() {
    let mut code = code_start();
    let main = code.len() as u32;
    op_i32(&mut code, Operator::PushInt, 0);
    op_i32(&mut code, Operator::PushInt, 10);
    op(&mut code, Operator::Divide);
    op(&mut code, Operator::Ret);
    let mut vm = machine(table(vec![func("MAIN", main, CONST_RETURN)]), code);
    assert_eq!(vm.run_func_by_sym_index(&mut NoHost, 1, true), Some(0));
}

#[test]
fn comparison_is_signed() {
    let mut code = code_start();
    let main = code.len() as u32;
    op_i32(&mut code, Operator::PushInt, 1);
    op_i32(&mut code, Operator::PushInt, -5);
    op(&mut code, Operator::Less);
    op(&mut code, Operator::Ret);
    let mut vm = machine(table(vec![func("MAIN", main, CONST_RETURN)]), code);
    assert_eq!(vm.run_func_by_sym_index(&mut NoHost, 1, true), Some(1));
}

#[test]
fn minus_negates() {
    let mut code = code_start();
    let main = code.len() as u32;
    op_i32(&mut code, Operator::PushInt, 5);
    op(&mut code, Operator::Minus);
    op(&mut code, Operator::Ret);
    let mut vm = machine(table(vec![func("MAIN", main, CONST_RETURN)]), code);
    assert_eq!(vm.run_func_by_sym_index(&mut NoHost, 1, true), Some((-5i32) as u32));
}

fn jumpif_program(first: i32) -> Option<u32> {
    let mut code = code_start();
    let main = code.len() as u32;
    op_i32(&mut code, Operator::PushInt, first);
    let target = main as i32 + 5 + 5 + 5 + 1;
    op_i32(&mut code, Operator::JumpIf, target);
    op_i32(&mut code, Operator::PushInt, 1);
    op(&mut code, Operator::Ret);
    assert_eq!(code.len() as i32, target);
    op_i32(&mut code, Operator::PushInt, 2);
    op(&mut code, Operator::Ret);
    let mut vm = machine(table(vec![func("MAIN", main, CONST_RETURN)]), code);
    vm.run_func_by_sym_index(&mut NoHost, 1, true)
}

#[test]
fn jumpif_jumps_on_zero() {
    assert_eq!(jumpif_program(0), Some(2));
}

#[test]
fn jumpif_falls_through_on_nonzero() {
    assert_eq!(jumpif_program(1), Some(1));
}

#[test]
fn var_write_assigns_int() {
    let mut code = code_start();
    let main = code.len() as u32;
    op_i32(&mut code, Operator::PushVar, 2);
    op_i32(&mut code, Operator::PushInt, 9);
    op(&mut code, Operator::Assign);
    op(&mut code, Operator::Ret);
    let x = builder("X", Kind::Int, 1, 0).with_data(Data::IntSequence(vec![5]));
    let mut vm = machine(table(vec![func("MAIN", main, 1), x]), code);
    assert_eq!(vm.run_func_by_sym_index(&mut NoHost, 1, true), Some(0));
    let s = vm.get_file().sym_table.get_symbol_by_index(2).unwrap();
    match s.get_data() {
        Some(Data::IntSequence(v)) => assert_eq!(v[0], 9),
        _ => panic!("X lost its data"),
    }
}

#[test]
fn compound_assignment_adds() {
    let mut code = code_start();
    let main = code.len() as u32;
    op_i32(&mut code, Operator::PushInt, 4);
    op_i32(&mut code, Operator::PushVar, 2);
    op(&mut code, Operator::AssignAdd);
    op(&mut code, Operator::Ret);
    let x = builder("X", Kind::Int, 1, 0).with_data(Data::IntSequence(vec![5]));
    let mut vm = machine(table(vec![func("MAIN", main, 1), x]), code);
    vm.run_func_by_sym_index(&mut NoHost, 1, true);
    let s = vm.get_file().sym_table.get_symbol_by_index(2).unwrap();
    match s.get_data() {
        Some(Data::IntSequence(v)) => assert_eq!(v[0], 9),
        _ => panic!("X lost its data"),
    }
}

#[test]
fn array_index_reads_element() {
    let mut code = code_start();
    let main = code.len() as u32;
    code.push(Operator::PushArrayVar.code());
    code.extend_from_slice(&2i32.to_le_bytes());
    code.push(2);
    op(&mut code, Operator::Ret);
    let a = builder("A", Kind::Int, 3, 0).with_data(Data::IntSequence(vec![10, 20, 30]));
    let mut vm = machine(table(vec![func("MAIN", main, CONST_RETURN), a]), code);
    assert_eq!(vm.run_func_by_sym_index(&mut NoHost, 1, true), Some(30));
}

#[test]
fn call_and_return_yield_callee_result() {
    let mut code = code_start();
    let main = code.len() as u32;
    op_i32(&mut code, Operator::Call, 100);
    op(&mut code, Operator::Ret);
    while code.len() < 100 {
        op(&mut code, Operator::Ret);
    }
    op_i32(&mut code, Operator::PushInt, 42);
    op(&mut code, Operator::Ret);
    let mut vm = machine(table(vec![func("MAIN", main, CONST_RETURN), func("F", 100, 1)]), code);
    assert_eq!(vm.run_func_by_sym_index(&mut NoHost, 1, true), Some(42));
    assert!(vm.get_call_stack().is_empty());
}

struct CountingHost {
    calls: usize,
    seen: Vec<u32>,
}

impl ExternalHost for CountingHost {
    fn call_external(&mut self, vm: &mut VirtualMachine, _symbol_index: usize) {
        self.calls += 1;
        let v = vm.pop_int();
        self.seen.push(v);
    }
}

#[test]
fn external_receives_its_argument() {
    let mut code = code_start();
    let main = code.len() as u32;
    op_i32(&mut code, Operator::PushInt, 7);
    op_i32(&mut code, Operator::CallExternal, 2);
    op(&mut code, Operator::Ret);
    let e = builder("E", Kind::Func, 0, 1 | 8);
    let mut vm = machine(table(vec![func("MAIN", main, 1), e]), code);
    assert_eq!(vm.register_external_func("E"), Some(2));
    let mut host = CountingHost { calls: 0, seen: vec![] };
    vm.run_func_by_sym_index(&mut host, 1, true);
    assert_eq!(host.calls, 1);
    assert_eq!(host.seen, vec![7]);
}

#[test]
fn unbound_external_is_skipped() {
    let mut code = code_start();
    let main = code.len() as u32;
    op_i32(&mut code, Operator::PushInt, 7);
    op_i32(&mut code, Operator::CallExternal, 2);
    op(&mut code, Operator::Ret);
    let e = builder("E", Kind::Func, 0, 1 | 8);
    let mut vm = machine(table(vec![func("MAIN", main, CONST_RETURN), e]), code);
    let mut host = CountingHost { calls: 0, seen: vec![] };
    assert_eq!(vm.run_func_by_sym_index(&mut host, 1, true), Some(7));
    assert_eq!(host.calls, 0);
}

#[test]
fn register_unknown_external_fails() {
    let mut vm = machine(table(vec![]), code_start());
    assert_eq!(vm.register_external_func("NOPE"), None);
}

#[test]
fn instance_iteration_visits_instances_in_order() {
    let t = table(vec![
        builder("C_CLASS", Kind::Class, 0, 0),
        builder("C_PROTO", Kind::Prototype, 0, 0).with_parent(1),
        builder("I1", Kind::Instance, 0, 0).with_parent(2),
        builder("I2", Kind::Instance, 0, 0).with_parent(2),
        builder("OTHER", Kind::Instance, 0, 0),
    ]);
    assert_eq!(t.iterate_symbols_of_class("C_CLASS").unwrap(), vec![3, 4]);
    assert_eq!(
        t.iterate_symbols_of_class("MISSING").err(),
        Some(daedalus::sym_table::SymTableError::NotFound(b"MISSING".to_vec()))
    );
}

#[test]
fn inventory_dedups_by_instance_symbol() {
    let t = table(vec![builder("ITEM", Kind::Instance, 0, 0), builder("HERO", Kind::Instance, 0, 0)]);
    let mut vm = machine(t, code_start());
    let mut gs = GameState::new();
    let mut host = NoHost;
    let npc = gs.insert_npc(&mut vm, &mut host, 2, b"WP_START").unwrap();
    let first = gs.create_inv_item(&mut vm, &mut host, 1, npc, 1).unwrap();
    let second = gs.create_inv_item(&mut vm, &mut host, 1, npc, 1).unwrap();
    assert_eq!(first, second);
    let inv = gs.get_inv_of(npc).unwrap();
    assert_eq!(inv.len(), 1);
    assert_eq!(gs.get_item(first).unwrap().amount, 2);
}

#[test]
fn inventory_amount_zero_counts_as_one() {
    let t = table(vec![builder("ITEM", Kind::Instance, 0, 0)]);
    let mut vm = machine(t, code_start());
    let mut gs = GameState::new();
    let mut host = NoHost;
    let npc = gs.insert_npc(&mut vm, &mut host, 1, b"WP").unwrap();
    let item = gs.create_inv_item(&mut vm, &mut host, 1, npc, 0).unwrap();
    assert_eq!(gs.get_item(item).unwrap().amount, 1);
}

#[test]
fn remove_inv_item_decrements_then_removes() {
    let t = table(vec![builder("ITEM", Kind::Instance, 0, 0)]);
    let mut vm = machine(t, code_start());
    let mut gs = GameState::new();
    let mut host = NoHost;
    let npc = gs.insert_npc(&mut vm, &mut host, 1, b"WP").unwrap();
    let item = gs.create_inv_item(&mut vm, &mut host, 1, npc, 3).unwrap();
    assert!(gs.remove_inv_item(1, npc, 1));
    assert_eq!(gs.get_item(item).unwrap().amount, 2);
    assert!(gs.remove_inv_item(1, npc, 5));
    assert!(gs.get_item(item).is_none());
    assert!(gs.get_inv_of(npc).unwrap().is_empty());
    assert!(!gs.remove_inv_item(1, npc, 1));
}

#[test]
fn initialise_instance_runs_constructor_and_binds() {
    let mut code = code_start();
    let ctor = code.len() as u32;
    op_i32(&mut code, Operator::PushVar, 2);
    op_i32(&mut code, Operator::PushInt, 11);
    op(&mut code, Operator::Assign);
    op(&mut code, Operator::Ret);
    let inst = builder("INST", Kind::Instance, 0, 0).with_address(ctor);
    let x = builder("X", Kind::Int, 1, 0).with_data(Data::IntSequence(vec![0]));
    let mut vm = machine(table(vec![inst, x]), code);
    let h = Handle { index: 3, generation: 1 };
    assert!(vm.initialise_instance(&mut NoHost, h, 1, daedalus::instances::InstanceClass::Item));
    let s = vm.get_file().sym_table.get_symbol_by_index(1).unwrap();
    assert_eq!(s.instance_data_handle, h);
    let x = vm.get_file().sym_table.get_symbol_by_index(2).unwrap();
    match x.get_data() {
        Some(Data::IntSequence(v)) => assert_eq!(v[0], 11),
        _ => panic!("X lost its data"),
    }
    assert_eq!(vm.get_registered_instances_of(daedalus::instances::InstanceClass::Item), vec![1]);
    assert!(vm.get_registered_instances_of(daedalus::instances::InstanceClass::Npc).is_empty());
}

#[test]
fn run_without_address_gives_none() {
    let mut vm = machine(table(vec![builder("F", Kind::Func, 0, 1)]), code_start());
    assert_eq!(vm.run_func_by_sym_index(&mut NoHost, 1, true), None);
    assert_eq!(vm.run_func_by_sym_index(&mut NoHost, 99, true), None);
}

#[test]
fn endless_loop_stops_at_step_limit() {
    let mut code = code_start();
    let main = code.len() as u32;
    op_i32(&mut code, Operator::Jump, main as i32);
    let mut vm = machine(table(vec![func("MAIN", main, CONST_RETURN)]), code);
    vm.set_step_limit(1000);
    assert_eq!(vm.run_func_by_sym_index(&mut NoHost, 1, true), None);
}

#[test]
fn int_push_pop_round_trip() {
    let mut vm = machine(table(vec![]), code_start());
    vm.push_int(123456);
    assert_eq!(vm.pop_int(), 123456);
    assert!(vm.is_stack_empty());
}

#[test]
fn float_push_pop_round_trip() {
    let mut vm = machine(table(vec![]), code_start());
    let bits = 1.5f32.to_bits();
    vm.push_float_bits(bits);
    assert_eq!(vm.pop_float(), FloatValue::Bits(bits));
}

#[test]
fn var_push_pop_round_trip() {
    let mut vm = machine(table(vec![]), code_start());
    vm.push_var(17, 3);
    assert_eq!(vm.pop_var(), (17, 3));
}

#[test]
fn pop_var_of_int_cell_has_index_zero() {
    let mut vm = machine(table(vec![]), code_start());
    vm.push_int(8);
    assert_eq!(vm.pop_var(), (8, 0));
}

#[test]
fn pop_on_empty_stack_gives_sentinels() {
    let mut vm = machine(table(vec![]), code_start());
    assert_eq!(vm.pop_int(), 0);
    assert_eq!(vm.pop_var(), (0xffff_ffff, 0));
    assert_eq!(vm.pop_string(), None);
}

#[test]
fn string_push_pop_round_trip() {
    let mut vm = machine(table(vec![]), code_start());
    assert!(vm.push_string("Hello"));
    assert_eq!(vm.pop_string(), Some(b"Hello".to_vec()));
}

#[test]
fn scratch_strings_cycle() {
    let mut vm = machine(table(vec![]), code_start());
    for k in 0..7 {
        assert!(vm.push_string(&format!("s{}", k)));
    }
    for k in (0..7).rev() {
        let got = vm.pop_string();
        if k >= 2 {
            assert_eq!(got, Some(format!("s{}", k).into_bytes()));
        } else {
            assert_eq!(got, Some(format!("s{}", k + 5).into_bytes()));
        }
    }
}

#[test]
fn pop_float_widens_int_variable() {
    let x = builder("X", Kind::Int, 1, 0).with_data(Data::IntSequence(vec![(-3i32) as u32]));
    let mut vm = machine(table(vec![x]), code_start());
    vm.push_var(1, 0);
    assert_eq!(vm.pop_float(), FloatValue::Widen(-3));
}

#[test]
fn state_push_run_pop_restores_registers() {
    let mut code = code_start();
    let main = code.len() as u32;
    op_i32(&mut code, Operator::PushInt, 1);
    op_i32(&mut code, Operator::SetInstance, 2);
    op(&mut code, Operator::Ret);
    let inst = builder("SELF", Kind::Instance, 0, 0);
    let mut vm = machine(table(vec![func("MAIN", main, CONST_RETURN), inst]), code);
    vm.set_program_counter(3);
    vm.push_int(99);
    let before_pc = vm.get_program_counter();
    let before_len = vm.get_stack_words().len();
    let before_instance = vm.get_current_instance();
    vm.push_state();
    vm.push_int(5);
    assert_eq!(vm.run_func_by_sym_index(&mut NoHost, 1, false), Some(1));
    assert!(vm.pop_state());
    assert_eq!(vm.get_program_counter(), before_pc);
    assert_eq!(vm.get_stack_words().len(), before_len);
    assert_eq!(vm.get_current_instance(), before_instance);
    assert!(!vm.pop_state());
}

#[test]
fn set_current_instance_takes_binding() {
    let inst = builder("SELF", Kind::Instance, 0, 0);
    let mut vm = machine(table(vec![inst]), code_start());
    let h = Handle { index: 4, generation: 2 };
    assert!(vm.set_instance("SELF", h, daedalus::instances::InstanceClass::Npc));
    vm.set_current_instance(1);
    assert_eq!(vm.get_current_instance_handle(), h);
    assert_eq!(vm.get_current_instance_class(), Some(daedalus::instances::InstanceClass::Npc));
    assert!(!vm.set_instance("NOBODY", h, daedalus::instances::InstanceClass::Npc));
}

#[test]
fn ret_on_empty_call_stack_stops() {
    let mut vm = machine(table(vec![]), code_start());
    assert!(!vm.do_stack(&mut NoHost));
    assert_eq!(vm.get_program_counter(), 1);
    vm.set_program_counter(50);
    assert!(!vm.do_stack(&mut NoHost));
    assert_eq!(vm.get_program_counter(), 50);
}

#[test]
fn call_pushes_return_frame() {
    let mut code = code_start();
    op_i32(&mut code, Operator::Call, 0);
    let mut vm = machine(table(vec![]), code);
    vm.set_program_counter(1);
    assert!(vm.do_stack(&mut NoHost));
    assert_eq!(vm.get_call_stack(), vec![CallStackFrame::Address(6)]);
    assert_eq!(vm.get_program_counter(), 0);
}

#[test]
fn call_stack_frame_get() {
    assert_eq!(CallStackFrame::Address(5).get(), 5);
    assert_eq!(CallStackFrame::SymbolIndex(9).get(), 9);
}

#[test]
fn push_var_by_name_pushes_cell() {
    let x = builder("X", Kind::Int, 1, 0).with_data(Data::IntSequence(vec![41]));
    let mut vm = machine(table(vec![x]), code_start());
    assert!(vm.push_var_by_name("X"));
    assert_eq!(vm.pop_int(), 41);
    assert!(!vm.push_var_by_name("Y"));
}

#[test]
fn flag_constants_match_bits() {
    assert_eq!(Flag::Const.bit() | Flag::Return.bit(), CONST_RETURN);
}

#[test]
fn add_item_to_inv_merges_same_symbol() {
    let t = table(vec![builder("ITEM", Kind::Instance, 0, 0), builder("OTHER", Kind::Instance, 0, 0)]);
    let mut vm = machine(t, code_start());
    let mut gs = GameState::new();
    let mut host = NoHost;
    let npc = gs.insert_npc(&mut vm, &mut host, 2, b"WP").unwrap();
    let a = gs.insert_item(&mut vm, &mut host, 1).unwrap();
    let b = gs.insert_item(&mut vm, &mut host, 1).unwrap();
    let c = gs.insert_item(&mut vm, &mut host, 2).unwrap();
    assert_eq!(gs.add_item_to_inv(&mut host, a, npc), a);
    assert_eq!(gs.add_item_to_inv(&mut host, b, npc), a);
    assert_eq!(gs.add_item_to_inv(&mut host, c, npc), c);
    assert_eq!(gs.get_inv_of(npc).unwrap(), &vec![a, c]);
    assert_eq!(gs.get_item(a).unwrap().amount, 1);
}

#[test]
fn inserted_records_carry_their_symbol() {
    let t = table(vec![builder("SFX", Kind::Instance, 0, 0), builder("THEME", Kind::Instance, 0, 0)]);
    let mut vm = machine(t, code_start());
    let mut gs = GameState::new();
    let mut host = NoHost;
    let npc = gs.insert_npc(&mut vm, &mut host, 1, b"WP_A").unwrap();
    assert_eq!(gs.get_npc(npc).unwrap().instance_symbol, 1);
    assert_eq!(gs.get_npc(npc).unwrap().waypoint, b"WP_A".to_vec());
    assert!(gs.insert_sound_effect(&mut vm, &mut host, 1).is_ok());
    assert!(gs.insert_music_theme(&mut vm, &mut host, 2).is_ok());
    assert!(gs.remove_npc(&mut host, npc));
    assert!(gs.get_npc(npc).is_none());
    assert!(!gs.remove_npc(&mut host, npc));
    let item = gs.insert_item(&mut vm, &mut host, 2).unwrap();
    assert!(gs.remove_item(item));
    assert!(!gs.remove_item(item));
}

#[test]
fn current_instruction_advances() {
    let mut code = code_start();
    op_i32(&mut code, Operator::PushInt, 9);
    let mut vm = machine(table(vec![]), code);
    vm.set_program_counter(1);
    let op = vm.get_current_instruction().unwrap();
    assert_eq!(op.value, Some(9));
    assert_eq!(vm.get_program_counter(), 6);
    assert!(vm.get_current_instruction().is_none());
}

#[test]
fn set_kind_fills_empty_data() {
    let b = SymbolBuilder::new(b"S".to_vec())
        .with_properties(Properties::with_kind(Kind::Void, 2, 1))
        .set_kind(Kind::CharString);
    let s = b.build().unwrap();
    assert_eq!(s.properties.get_kind(), Some(Kind::CharString));
    assert_eq!(s.properties.get_count(), 2);
    assert_eq!(s.properties.get_flags(), 1);
    assert_eq!(s.get_string(1), Some(&Vec::new()));
}
