use daedalus::instances::{
    Categories, Flag, Flags, Info, Instance, ItemFlags, ItemReact, Menu, Mission, Npc, SubChoice,
};
use daedalus::vm::StackValue;
use daedalus::opcode::Operator;

#[test]
fn flag_bits_follow_their_layout() {
    assert_eq!(Categories::Magic.bit(), 1 << 31);
    assert_eq!(Categories::Rune.bit(), 1 << 9);
    assert_eq!(Flags::Ring.bit(), 1 << 11);
    assert_eq!(Flag::Protected.bit(), 1 << 10);
    assert_eq!(ItemFlags::ExtendedMenu.bit(), 1 << 14);
}

#[test]
fn info_choices_are_added_and_removed() {
    let mut info = Info::new();
    let mut a = SubChoice::new();
    a.func_sym = 3;
    let mut b = SubChoice::new();
    b.func_sym = 4;
    info.add_choice(a);
    info.add_choice(b);
    info.remove_choice(0);
    assert_eq!(info.sub_choices.len(), 1);
    assert_eq!(info.sub_choices[0].func_sym, 4);
}

#[test]
fn records_start_empty_and_take_their_symbol() {
    let mut npc = Npc::new();
    npc.set_waypoint(b"WP_1".to_vec());
    npc.set_instance_symbol(12);
    assert_eq!(npc.get_instance_symbol(), 12);
    assert_eq!(npc.waypoint, b"WP_1".to_vec());
    let mut m = Mission::new();
    m.set_instance_symbol(2);
    assert_eq!(m.get_instance_symbol(), 2);
    assert_eq!(Menu::new().get_instance_symbol(), 0);
    assert_eq!(ItemReact::new().get_instance_symbol(), 0);
}

#[test]
fn stack_value_names_operator() {
    assert_eq!(StackValue(64).get_operator(), Some(Operator::PushInt));
    assert_eq!(StackValue(65).get(), 65);
    assert_eq!(StackValue(300).get_operator(), None);
    assert_eq!(StackValue(10).get_operator(), None);
}
