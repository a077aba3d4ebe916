//! The virtual machine: evaluation stack, call stack, program counter and dispatch.

use crate::file::File;
use crate::instances::InstanceClass;
use crate::object_allocator::Handle;
use crate::opcode::{decode_spec, Operator, StackOpCode};
use crate::sym_table::{copy_bytes, float_at, int_at, string_at, string_written, SymTable};
use crate::symbol::{Data, Flag, Kind, Properties, Symbol, SymbolBuilder};
use vstd::prelude::*;
use vstd::string::StringSliceAdditionalSpecFns;

verus! {

/// How many scratch string symbols the machine appends for pushing strings.
pub const NUM_FAKE_STRING_SYMBOLS: usize = 5;

/// The tag word that closes an integer cell.
pub const TAG_INT: u32 = 64;

/// The tag word that closes a variable cell.
pub const TAG_VAR: u32 = 65;

/// The step budget of a run unless the host sets another.
pub const DEFAULT_STEP_LIMIT: u64 = 100_000_000;

/// A word of the evaluation stack.
#[derive(Clone, Copy, Debug, PartialEq, Eq, Structural)]
pub struct StackValue(pub u32);

impl StackValue {
    /// The operator that this word names when read as a tag.
    pub fn get_operator(&self) -> (r: Option<Operator>)
        ensures
            self.0 < 256 ==> r == crate::opcode::operator_of_code(self.0 as u8),
            self.0 >= 256 ==> r is None,
    {
        if self.0 < 256 {
            Operator::from_code(self.0 as u8)
        } else {
            None
        }
    }

    pub fn get(&self) -> (r: u32)
        ensures
            r == self.0,
    {
        self.0
    }
}

/// An entry of the call stack: where to return to, or the function a run started with.
#[derive(Clone, Copy, Debug, PartialEq, Eq, Structural)]
pub enum CallStackFrame {
    Address(usize),
    SymbolIndex(usize),
}

impl CallStackFrame {
    pub fn get(&self) -> (r: usize)
        ensures
            r == match *self {
                CallStackFrame::Address(a) => a,
                CallStackFrame::SymbolIndex(i) => i,
            },
    {
        match self {
            CallStackFrame::Address(a) => *a,
            CallStackFrame::SymbolIndex(i) => *i,
        }
    }
}

/// A float taken from the stack: a bit pattern, or an integer element that the caller
/// widens to a float.
#[derive(Clone, Copy, Debug, PartialEq, Eq, Structural)]
pub enum FloatValue {
    Bits(u32),
    Widen(i32),
}

/// What `push_state` saves and `pop_state` restores.
#[derive(Debug)]
pub struct VirtualMachineState {
    pub current_instance: usize,
    pub current_instance_handle: Handle,
    pub current_instance_class: Option<InstanceClass>,
    pub program_counter: usize,
    pub stack: Vec<u32>,
    pub call_stack: Vec<CallStackFrame>,
}

/// The value that the stack's top cell stands for as an integer, and the stack without it.
/// An integer cell gives its payload; a variable cell gives the variable's element
/// (an integer, or a float's bit pattern); anything else gives 0 and loses its top word.
pub open spec fn pop_int_spec(s: Seq<u32>, symbols: Seq<Symbol>) -> (u32, Seq<u32>) {
    let n = s.len();
    if n == 0 {
        (0, s)
    } else if s[n - 1] == TAG_INT && n >= 2 {
        (s[n - 2], s.subrange(0, n - 2))
    } else if s[n - 1] == TAG_VAR && n >= 3 {
        (var_word(symbols, s[n - 2], s[n - 3]), s.subrange(0, n - 3))
    } else {
        (0, s.drop_last())
    }
}

/// Element `k` of the symbol at `sym` as a word: an integer, or a float's bit pattern;
/// 0 where there is none.
pub open spec fn var_word(symbols: Seq<Symbol>, sym: u32, k: u32) -> u32 {
    if sym < symbols.len() {
        match int_at(symbols[sym as int], k as int) {
            Some(v) => v,
            None => match float_at(symbols[sym as int], k as int) {
                Some(b) => b,
                None => 0,
            },
        }
    } else {
        0
    }
}

/// The (symbol index, array index) pair of the top cell, and the stack without it. An
/// integer cell gives its payload with array index 0; anything else gives
/// `(0xFFFF_FFFF, 0)` and loses its top word.
pub open spec fn pop_var_spec(s: Seq<u32>) -> ((u32, u32), Seq<u32>) {
    let n = s.len();
    if n == 0 {
        ((0xffff_ffffu32, 0u32), s)
    } else if s[n - 1] == TAG_INT && n >= 2 {
        ((s[n - 2], 0u32), s.subrange(0, n - 2))
    } else if s[n - 1] == TAG_VAR && n >= 3 {
        ((s[n - 2], s[n - 3]), s.subrange(0, n - 3))
    } else {
        ((0xffff_ffffu32, 0u32), s.drop_last())
    }
}

/// The float of the top cell: an integer cell's payload as a bit pattern, a float
/// element's bit pattern, or an integer element to widen.
pub open spec fn pop_float_spec(s: Seq<u32>, symbols: Seq<Symbol>) -> (FloatValue, Seq<u32>) {
    let n = s.len();
    if n == 0 {
        (FloatValue::Bits(0), s)
    } else if s[n - 1] == TAG_INT && n >= 2 {
        (FloatValue::Bits(s[n - 2]), s.subrange(0, n - 2))
    } else if s[n - 1] == TAG_VAR && n >= 3 {
        let sym = s[n - 2];
        let k = s[n - 3];
        (
            if sym < symbols.len() && float_at(symbols[sym as int], k as int) is Some {
                FloatValue::Bits(float_at(symbols[sym as int], k as int).unwrap())
            } else if sym < symbols.len() && int_at(symbols[sym as int], k as int) is Some {
                FloatValue::Widen(int_at(symbols[sym as int], k as int).unwrap() as i32)
            } else {
                FloatValue::Bits(0)
            },
            s.subrange(0, n - 3),
        )
    } else {
        (FloatValue::Bits(0), s.drop_last())
    }
}

/// The string that the top cell names: element `k` of a string variable.
pub open spec fn string_of_cell(symbols: Seq<Symbol>, cell: (u32, u32)) -> Option<Seq<u8>> {
    if cell.0 < symbols.len() {
        string_at(symbols[cell.0 as int], cell.1 as int)
    } else {
        None
    }
}

/// A copy of a word sequence.
fn copy_words(v: &Vec<u32>) -> (r: Vec<u32>)
    ensures
        r@ == v@,
{
    let mut out: Vec<u32> = Vec::with_capacity(v.len());
    let mut i: usize = 0;
    while i < v.len()
        invariant
            i <= v@.len(),
            out@ == v@.subrange(0, i as int),
        decreases v@.len() - i,
    {
        out.push(v[i]);
        i += 1;
        assert(out@ =~= v@.subrange(0, i as int));
    }
    assert(v@.subrange(0, v@.len() as int) =~= v@);
    out
}

/// A copy of a call stack.
fn copy_frames(v: &Vec<CallStackFrame>) -> (r: Vec<CallStackFrame>)
    ensures
        r@ == v@,
{
    let mut out: Vec<CallStackFrame> = Vec::with_capacity(v.len());
    let mut i: usize = 0;
    while i < v.len()
        invariant
            i <= v@.len(),
            out@ == v@.subrange(0, i as int),
        decreases v@.len() - i,
    {
        out.push(v[i]);
        i += 1;
        assert(out@ =~= v@.subrange(0, i as int));
    }
    assert(v@.subrange(0, v@.len() as int) =~= v@);
    out
}

/// `b` is `a` after `push_string(text)` on a machine whose scratch strings are in
/// place: the front scratch symbol now holds `text`, has moved to the back of the
/// ring, and a variable cell for it closes the stack.
pub open spec fn pushed_string(a: &VirtualMachine, b: &VirtualMachine, text: Seq<u8>) -> bool {
    let i = a.fake_ring()[0];
    &&& b.stack_spec() == a.stack_spec().push(0).push(i as u32).push(TAG_VAR)
    &&& i < a.symbols().len()
    &&& b.symbols().len() == a.symbols().len()
    &&& string_at(b.symbols()[i as int], 0) == Some(text)
    &&& b.fake_ring() == a.fake_ring().drop_first().push(i)
}

/// A string pushed with `push_string` is what `pop_string` gives back, and popping it
/// leaves the stack as it was before the push.
pub proof fn lemma_string_round_trip(a: &VirtualMachine, b: &VirtualMachine, text: Seq<u8>)
    requires
        pushed_string(a, b, text),
        a.symbols().len() <= u32::MAX,
    ensures
        string_of_cell(b.symbols(), pop_var_spec(b.stack_spec()).0) == Some(text),
        pop_var_spec(b.stack_spec()).1 == a.stack_spec(),
{
    let s = b.stack_spec();
    assert(s.subrange(0, s.len() - 3) =~= a.stack_spec());
}

/// An integer pushed is the integer popped, and the pop leaves the stack as it was.
pub proof fn lemma_int_round_trip(s: Seq<u32>, symbols: Seq<Symbol>, v: u32)
    ensures
        pop_int_spec(s.push(v).push(TAG_INT), symbols) == (v, s),
{
    assert(s.push(v).push(TAG_INT).subrange(0, s.len() as int) =~= s);
}

/// A float pushed as its bit pattern comes back as that bit pattern.
pub proof fn lemma_float_round_trip(s: Seq<u32>, symbols: Seq<Symbol>, bits: u32)
    ensures
        pop_float_spec(s.push(bits).push(TAG_INT), symbols) == (FloatValue::Bits(bits), s),
{
    assert(s.push(bits).push(TAG_INT).subrange(0, s.len() as int) =~= s);
}

/// A variable cell pushed is the (symbol, array index) pair popped.
pub proof fn lemma_var_round_trip(s: Seq<u32>, sym: u32, k: u32)
    ensures
        pop_var_spec(s.push(k).push(sym).push(TAG_VAR)) == ((sym, k), s),
{
    assert(s.push(k).push(sym).push(TAG_VAR).subrange(0, s.len() as int) =~= s);
}

/// The host side of the machine: the functions that scripts call as externals.
pub trait ExternalHost {
    /// Runs the external bound to the symbol at `symbol_index`. It takes its arguments
    /// from the machine's stack, and may push a result or run script functions.
    fn call_external(&mut self, vm: &mut VirtualMachine, symbol_index: usize);
}

/// Operators that pop two integers and push one.
pub open spec fn is_binary(op: Operator) -> bool {
    match op {
        Operator::Add | Operator::Subtract | Operator::Multiply | Operator::Divide | Operator::Mod
        | Operator::BinOr | Operator::BinAnd | Operator::Less | Operator::Greater
        | Operator::LogOr | Operator::LogAnd | Operator::ShiftLeft | Operator::ShiftRight
        | Operator::LessOrEqual | Operator::Equal | Operator::NotEqual
        | Operator::GreaterOrEqual => true,
        _ => false,
    }
}

/// Operators that pop one integer and push one.
pub open spec fn is_unary(op: Operator) -> bool {
    match op {
        Operator::Plus | Operator::Minus | Operator::Not | Operator::Negate => true,
        _ => false,
    }
}

/// Compound assignments: the target's integer combined with the value.
pub open spec fn is_compound(op: Operator) -> bool {
    match op {
        Operator::AssignAdd | Operator::AssignSubtract | Operator::AssignMultiply
        | Operator::AssignDivide => true,
        _ => false,
    }
}

pub open spec fn bool_word(b: bool) -> u32 {
    if b {
        1
    } else {
        0
    }
}

/// Quotient of 32-bit signed integers; 0 where the division fails.
pub open spec fn div_or_zero(a: i32, b: i32) -> i32 {
    match a.checked_div(b) {
        Some(q) => q,
        None => 0,
    }
}

/// Remainder of 32-bit signed integers; 0 where the division fails.
pub open spec fn rem_or_zero(a: i32, b: i32) -> i32 {
    match a.checked_rem(b) {
        Some(q) => q,
        None => 0,
    }
}

/// The result of a binary operator: `x` is the top (left) operand, `y` the one below.
/// Integers are 32-bit signed with wrapping arithmetic.
pub open spec fn binary_spec(op: Operator, x: u32, y: u32) -> u32 {
    let a = x as i32;
    let b = y as i32;
    match op {
        Operator::Add => a.wrapping_add(b) as u32,
        Operator::Subtract => a.wrapping_sub(b) as u32,
        Operator::Multiply => a.wrapping_mul(b) as u32,
        Operator::Divide => div_or_zero(a, b) as u32,
        Operator::Mod => rem_or_zero(a, b) as u32,
        Operator::BinOr => x | y,
        Operator::BinAnd => x & y,
        Operator::Less => bool_word(a < b),
        Operator::Greater => bool_word(a > b),
        Operator::LessOrEqual => bool_word(a <= b),
        Operator::GreaterOrEqual => bool_word(a >= b),
        Operator::Equal => bool_word(x == y),
        Operator::NotEqual => bool_word(x != y),
        Operator::LogOr => bool_word(x != 0 || y != 0),
        Operator::LogAnd => bool_word(x != 0 && y != 0),
        Operator::ShiftLeft => a.wrapping_shl(y) as u32,
        Operator::ShiftRight => a.wrapping_shr(y) as u32,
        _ => 0,
    }
}

/// The result of a unary operator.
pub open spec fn unary_spec(op: Operator, x: u32) -> u32 {
    match op {
        Operator::Minus => (0i32).wrapping_sub(x as i32) as u32,
        Operator::Not => bool_word(x == 0),
        Operator::Negate => !x,
        _ => x,
    }
}

/// The new value of a compound assignment's target.
pub open spec fn compound_spec(op: Operator, current: u32, value: u32) -> u32 {
    match op {
        Operator::AssignAdd => binary_spec(Operator::Add, current, value),
        Operator::AssignSubtract => binary_spec(Operator::Subtract, current, value),
        Operator::AssignMultiply => binary_spec(Operator::Multiply, current, value),
        _ => binary_spec(Operator::Divide, current, value),
    }
}

/// Whether the top cell is a variable cell.
pub open spec fn top_is_var(s: Seq<u32>) -> bool {
    s.len() > 0 && s.last() == TAG_VAR
}

/// An assignment's target cell, its integer value, and the stack without both. The
/// target is the top cell where that is a variable cell, else the cell below the value.
pub open spec fn assign_int_operands(s: Seq<u32>, symbols: Seq<Symbol>) -> ((u32, u32), u32, Seq<u32>) {
    if top_is_var(s) {
        let (t, s1) = pop_var_spec(s);
        let (v, s2) = pop_int_spec(s1, symbols);
        (t, v, s2)
    } else {
        let (v, s1) = pop_int_spec(s, symbols);
        let (t, s2) = pop_var_spec(s1);
        (t, v, s2)
    }
}

/// As `assign_int_operands`, with the value taken as a (symbol, array index) cell.
pub open spec fn assign_cell_operands(s: Seq<u32>) -> ((u32, u32), (u32, u32), Seq<u32>) {
    if top_is_var(s) {
        let (t, s1) = pop_var_spec(s);
        let (v, s2) = pop_var_spec(s1);
        (t, v, s2)
    } else {
        let (v, s1) = pop_var_spec(s);
        let (t, s2) = pop_var_spec(s1);
        (t, v, s2)
    }
}

/// As `assign_int_operands`, with the value taken as a float.
pub open spec fn assign_float_operands(s: Seq<u32>, symbols: Seq<Symbol>) -> ((u32, u32), FloatValue, Seq<u32>) {
    if top_is_var(s) {
        let (t, s1) = pop_var_spec(s);
        let (v, s2) = pop_float_spec(s1, symbols);
        (t, v, s2)
    } else {
        let (v, s1) = pop_float_spec(s, symbols);
        let (t, s2) = pop_var_spec(s1);
        (t, v, s2)
    }
}

/// `b` is `a` with only the symbol at `t` possibly changed, as `changed` says.
pub open spec fn only_changed(a: Seq<Symbol>, b: Seq<Symbol>, t: u32, changed: spec_fn(Symbol, Symbol) -> bool) -> bool {
    &&& b.len() == a.len()
    &&& forall|j: int| 0 <= j < a.len() && j != t ==> #[trigger] b[j] == a[j]
    &&& t < a.len() ==> changed(a[t as int], b[t as int])
}

/// How a plain assignment writes: a float element takes the value as a bit pattern, an
/// integer element takes it as an integer.
pub open spec fn assign_written(a: Symbol, b: Symbol, k: u32, v: u32) -> bool {
    if float_at(a, k as int) is Some {
        crate::sym_table::float_written(a, b, k as int, v)
    } else {
        crate::sym_table::int_written(a, b, k as int, v)
    }
}

/// How a compound assignment writes: only an integer element changes.
pub open spec fn compound_written(op: Operator, a: Symbol, b: Symbol, k: u32, v: u32) -> bool {
    match int_at(a, k as int) {
        Some(cur) => crate::sym_table::int_written(a, b, k as int, compound_spec(op, cur, v)),
        None => a == b,
    }
}

/// How a float assignment writes: a bit pattern goes into a float element; a value
/// that would need widening leaves the target.
pub open spec fn float_assign_written(a: Symbol, b: Symbol, k: u32, v: FloatValue) -> bool {
    match v {
        FloatValue::Bits(bits) => crate::sym_table::float_written(a, b, k as int, bits),
        FloatValue::Widen(_) => a == b,
    }
}

/// How a string assignment writes: the named string, if there is one, goes into the
/// target's string element.
pub open spec fn string_assign_written(a: Symbol, b: Symbol, k: u32, text: Option<Seq<u8>>) -> bool {
    match text {
        Some(t) => string_written(a, b, k as int, t),
        None => a == b,
    }
}

/// The target symbol's code address becomes `v` (none for zero).
pub open spec fn address_written(a: Symbol, b: Symbol, v: u32) -> bool {
    b == (Symbol { address: crate::symbol::nonzero_u32(v), ..a })
}

/// The address a jump or call goes to.
pub open spec fn target_of(op: StackOpCode) -> usize {
    op.address.unwrap_or(0) as u32 as usize
}

/// What one executed instruction `op` does to the machine, for every operator but a
/// `CallExternal` of a bound symbol: `a` before, `b` after. The program counter has
/// already moved past the instruction.
pub open spec fn step_spec(a: &VirtualMachine, b: &VirtualMachine, op: StackOpCode) -> bool {
    let s = a.stack_spec();
    let syms = a.symbols();
    let next = (a.pc() + op.operator_size) as usize;
    let same_table = b.table() == a.table();
    let same_frames = b.call_stack_spec() == a.call_stack_spec();
    let same_instance = b.current_instance_spec() == a.current_instance_spec() && b.current_handle_spec()
        == a.current_handle_spec() && b.current_class_spec() == a.current_class_spec();
    let o = op.operator;
    if is_binary(o) {
        let (x, s1) = pop_int_spec(s, syms);
        let (y, s2) = pop_int_spec(s1, syms);
        &&& b.stack_spec() == s2.push(binary_spec(o, x, y)).push(TAG_INT)
        &&& b.pc() == next && same_table && same_frames && same_instance
    } else if is_unary(o) {
        let (x, s1) = pop_int_spec(s, syms);
        &&& b.stack_spec() == s1.push(unary_spec(o, x)).push(TAG_INT)
        &&& b.pc() == next && same_table && same_frames && same_instance
    } else if o == Operator::PushInt {
        &&& b.stack_spec() == s.push(op.value.unwrap_or(0) as u32).push(TAG_INT)
        &&& b.pc() == next && same_table && same_frames && same_instance
    } else if o == Operator::PushVar || o == Operator::PushInstance || o == Operator::PushArrayVar {
        let k: u32 = if o == Operator::PushArrayVar {
            op.index.unwrap_or(0) as u32
        } else {
            0
        };
        &&& b.stack_spec() == s.push(k).push(op.symbol.unwrap_or(0) as u32).push(TAG_VAR)
        &&& b.pc() == next && same_table && same_frames && same_instance
    } else if o == Operator::Jump {
        &&& b.stack_spec() == s
        &&& b.pc() == target_of(op) && same_table && same_frames && same_instance
    } else if o == Operator::JumpIf {
        let (x, s1) = pop_int_spec(s, syms);
        &&& b.stack_spec() == s1
        &&& b.pc() == (if x == 0 { target_of(op) } else { next })
        &&& same_table && same_frames && same_instance
    } else if o == Operator::Call {
        &&& b.stack_spec() == s
        &&& b.call_stack_spec() == a.call_stack_spec().push(CallStackFrame::Address(next))
        &&& b.pc() == target_of(op) && same_table && same_instance
    } else if o == Operator::Ret {
        let f = a.call_stack_spec();
        &&& b.stack_spec() == s && same_table && same_instance
        &&& if f.len() == 0 {
            b.call_stack_spec() == f && b.pc() == next
        } else {
            &&& b.call_stack_spec() == f.drop_last()
            &&& b.pc() == match f.last() {
                CallStackFrame::Address(p) => p,
                CallStackFrame::SymbolIndex(_) => next,
            }
        }
    } else if o == Operator::SetInstance {
        let i = op.symbol.unwrap_or(0) as u32 as usize;
        &&& b.stack_spec() == s && b.pc() == next && same_table && same_frames
        &&& b.current_instance_spec() == i
        &&& i < syms.len() ==> b.current_handle_spec() == syms[i as int].instance_data_handle
            && b.current_class_spec() == syms[i as int].instance_data_class
        &&& i >= syms.len() ==> b.current_handle_spec() == a.current_handle_spec()
            && b.current_class_spec() == a.current_class_spec()
    } else if o == Operator::CallExternal {
        &&& b.stack_spec() == s
        &&& b.pc() == next && same_table && same_frames && same_instance
    } else {
        let table_kept = forall|n: Seq<u8>| #[trigger] b.table().name_lookup(n) == a.table().name_lookup(n);
        &&& b.pc() == next && same_frames && same_instance && table_kept
        &&& if o == Operator::Assign {
            let (t, v, rest) = assign_int_operands(s, syms);
            b.stack_spec() == rest && only_changed(syms, b.symbols(), t.0, |x: Symbol, y: Symbol| assign_written(x, y, t.1, v))
        } else if is_compound(o) {
            let (t, v, rest) = assign_int_operands(s, syms);
            b.stack_spec() == rest && only_changed(syms, b.symbols(), t.0, |x: Symbol, y: Symbol| compound_written(o, x, y, t.1, v))
        } else if o == Operator::AssignFunc || o == Operator::AssignInstance {
            let (t, v, rest) = assign_cell_operands(s);
            b.stack_spec() == rest && only_changed(syms, b.symbols(), t.0, |x: Symbol, y: Symbol| address_written(x, y, v.0))
        } else if o == Operator::AssignString || o == Operator::AssignStringRef {
            let (t, v, rest) = assign_cell_operands(s);
            b.stack_spec() == rest && only_changed(syms, b.symbols(), t.0, |x: Symbol, y: Symbol| string_assign_written(x, y, t.1, string_of_cell(syms, v)))
        } else {
            let (t, v, rest) = assign_float_operands(s, syms);
            b.stack_spec() == rest && only_changed(syms, b.symbols(), t.0, |x: Symbol, y: Symbol| float_assign_written(x, y, t.1, v))
        }
    }
}

/// What `do_stack` does from `a` to `b`, returning `r`, unless it ran a bound external.
pub open spec fn do_stack_spec(a: &VirtualMachine, b: &VirtualMachine, r: bool) -> bool {
    &&& b.code_spec() == a.code_spec()
    &&& match decode_spec(a.code_spec(), a.pc() as int) {
        None => {
            &&& b.stack_spec() == a.stack_spec()
            &&& b.call_stack_spec() == a.call_stack_spec()
            &&& b.table() == a.table()
            &&& b.current_instance_spec() == a.current_instance_spec()
            &&& b.current_handle_spec() == a.current_handle_spec()
            &&& b.current_class_spec() == a.current_class_spec()
            &&& if a.pc() < a.code_spec().len() {
                b.pc() == a.pc() + 1 && r == (b.call_stack_spec().len() > 0)
            } else {
                b.pc() == a.pc() && !r
            }
        },
        Some(op) => {
            &&& step_spec(a, b, op)
            &&& r == (b.call_stack_spec().len() > 0 && !(op.operator == Operator::Ret
                && a.call_stack_spec().len() > 0
                && a.call_stack_spec().last() is SymbolIndex))
        },
    }
}

/// `s` is where a run of the function at `sym_index` starts from `a`: at the function's
/// address, with a call stack of one frame for it, and the stack emptied where asked.
pub open spec fn run_start(a: &VirtualMachine, s: &VirtualMachine, sym_index: usize, clear: bool) -> bool {
    &&& sym_index < a.symbols().len()
    &&& a.symbols()[sym_index as int].address is Some
    &&& s.table() == a.table()
    &&& s.code_spec() == a.code_spec()
    &&& s.pc() == a.symbols()[sym_index as int].address.unwrap() as usize
    &&& s.call_stack_spec() == seq![CallStackFrame::SymbolIndex(sym_index)]
    &&& s.stack_spec() == (if clear { Seq::<u32>::empty() } else { a.stack_spec() })
    &&& s.current_instance_spec() == a.current_instance_spec()
    &&& s.current_handle_spec() == a.current_handle_spec()
    &&& s.current_class_spec() == a.current_class_spec()
    &&& s.externals_spec() == a.externals_spec()
}

/// Each machine of `t` follows from the one before by one `do_stack` (or by a bound
/// external, which the host runs); every step but the last continues, the last stops.
pub open spec fn is_trace(t: Seq<VirtualMachine>) -> bool {
    forall|k: int|
        0 <= k < t.len() - 1 ==> calls_bound_external(&t[k]) || do_stack_spec(
            &#[trigger] t[k],
            &t[k + 1],
            k < t.len() - 2,
        )
}

/// What a run that stopped in `last` returns: the integer on top of the stack for a
/// function with the Return flag, else 0.
pub open spec fn run_result(last: &VirtualMachine, has_return: bool) -> u32 {
    if has_return && last.stack_spec().len() > 0 {
        pop_int_spec(last.stack_spec(), last.symbols()).0
    } else {
        0
    }
}

/// `b` keeps the symbol table of the run's last state, and its stack less the result
/// where one was popped.
pub open spec fn run_end(b: &VirtualMachine, t: Seq<VirtualMachine>, popped: bool) -> bool {
    &&& b.table() == t.last().table()
    &&& b.stack_spec() == if popped {
        pop_int_spec(t.last().stack_spec(), t.last().symbols()).1
    } else {
        t.last().stack_spec()
    }
}

/// `t` is a run of the function at `sym_index` from `a` that returned with result `v`,
/// and `b` is the machine it leaves.
pub open spec fn finished_run(a: &VirtualMachine, b: &VirtualMachine, t: Seq<VirtualMachine>, sym_index: usize, clear: bool, v: u32) -> bool {
    let has_return = a.symbols()[sym_index as int].properties.has_flag_spec(Flag::Return);
    &&& t.len() >= 2
    &&& run_start(a, &t[0], sym_index, clear)
    &&& is_trace(t)
    &&& v == run_result(&t.last(), has_return)
    &&& run_end(b, t, has_return && t.last().stack_spec().len() > 0)
}

/// `t` is a run of the function at `sym_index` from `a` that went on for the whole step
/// limit without returning, and `b` is the machine it leaves.
pub open spec fn unfinished_run(a: &VirtualMachine, b: &VirtualMachine, t: Seq<VirtualMachine>, sym_index: usize, clear: bool) -> bool {
    &&& t.len() == a.step_limit_spec() + 1
    &&& run_start(a, &t[0], sym_index, clear)
    &&& forall|k: int|
        0 <= k < t.len() - 1 ==> calls_bound_external(&t[k]) || do_stack_spec(&#[trigger] t[k], &t[k + 1], true)
    &&& run_end(b, t, false)
}

/// Some run of the function at `sym_index` from `a` returned `v` and left `b`.
pub open spec fn runs_to(a: VirtualMachine, b: VirtualMachine, sym_index: usize, clear: bool, v: u32) -> bool {
    exists|t: Seq<VirtualMachine>| #[trigger] finished_run(&a, &b, t, sym_index, clear, v)
}

/// Some run of the function at `sym_index` from `a` used up the step limit and left `b`.
pub open spec fn runs_out(a: VirtualMachine, b: VirtualMachine, sym_index: usize, clear: bool) -> bool {
    exists|t: Seq<VirtualMachine>| #[trigger] unfinished_run(&a, &b, t, sym_index, clear)
}

/// Whether the instruction at `a`'s program counter calls a bound external.
pub open spec fn calls_bound_external(a: &VirtualMachine) -> bool {
    match decode_spec(a.code_spec(), a.pc() as int) {
        Some(op) => op.operator == Operator::CallExternal && op.symbol is Some
            && op.symbol.unwrap() >= 0 && a.externals_spec().contains(op.symbol.unwrap() as usize),
        None => false,
    }
}

/// The symbol indices registered for `c`, in order.
pub open spec fn instances_of(entries: Seq<(InstanceClass, usize)>, c: InstanceClass) -> Seq<usize>
    decreases entries.len(),
{
    if entries.len() == 0 {
        Seq::empty()
    } else if entries.last().0 == c {
        instances_of(entries.drop_last(), c).push(entries.last().1)
    } else {
        instances_of(entries.drop_last(), c)
    }
}

/// The interpreter of one loaded script file.
#[derive(Debug)]
pub struct VirtualMachine {
    file: File,
    program_counter: usize,
    stack: Vec<u32>,
    call_stack: Vec<CallStackFrame>,
    externals_by_index: Vec<usize>,
    current_instance: usize,
    current_instance_handle: Handle,
    current_instance_class: Option<InstanceClass>,
    registered_instances: Vec<(InstanceClass, usize)>,
    state_stack: Vec<VirtualMachineState>,
    fake_string_symbols: Vec<usize>,
    next_fake_string: usize,
    step_limit: u64,
}

impl VirtualMachine {
    pub closed spec fn pc(&self) -> usize {
        self.program_counter
    }

    pub closed spec fn stack_spec(&self) -> Seq<u32> {
        self.stack@
    }

    pub closed spec fn call_stack_spec(&self) -> Seq<CallStackFrame> {
        self.call_stack@
    }

    pub closed spec fn table(&self) -> SymTable {
        self.file.sym_table
    }

    pub open spec fn symbols(&self) -> Seq<Symbol> {
        self.table().symbols_spec()
    }

    pub closed spec fn code_spec(&self) -> Seq<u8> {
        self.file.code@
    }

    pub closed spec fn current_instance_spec(&self) -> usize {
        self.current_instance
    }

    pub closed spec fn current_handle_spec(&self) -> Handle {
        self.current_instance_handle
    }

    pub closed spec fn current_class_spec(&self) -> Option<InstanceClass> {
        self.current_instance_class
    }

    pub closed spec fn externals_spec(&self) -> Seq<usize> {
        self.externals_by_index@
    }

    pub closed spec fn registered_spec(&self) -> Seq<(InstanceClass, usize)> {
        self.registered_instances@
    }

    pub closed spec fn state_depth(&self) -> nat {
        self.state_stack@.len()
    }

    pub closed spec fn step_limit_spec(&self) -> u64 {
        self.step_limit
    }

    /// The scratch string symbols and the position of the next one.
    pub closed spec fn fake_state(&self) -> (Seq<usize>, usize) {
        (self.fake_string_symbols@, self.next_fake_string)
    }

    /// The scratch string symbols, in the order they will be handed out.
    pub closed spec fn fake_ring(&self) -> Seq<usize> {
        self.fake_string_symbols@.subrange(self.next_fake_string as int, self.fake_string_symbols@.len() as int)
            + self.fake_string_symbols@.subrange(0, self.next_fake_string as int)
    }

    /// The scratch string symbols exist and each holds one string.
    pub closed spec fn fakes_ok(&self) -> bool {
        &&& self.fake_string_symbols@.len() == NUM_FAKE_STRING_SYMBOLS
        &&& self.next_fake_string < NUM_FAKE_STRING_SYMBOLS
        &&& forall|k: int| 0 <= k < self.fake_string_symbols@.len() ==> {
            let i = #[trigger] self.fake_string_symbols@[k];
            &&& i < self.symbols().len()
            &&& string_at(self.symbols()[i as int], 0) is Some
        }
    }

    /// The machine's standing invariant.
    pub open spec fn wf(&self) -> bool {
        self.table().wf() && self.fakes_ok()
    }

    /// Everything but the stack is as in `other`.
    pub open spec fn same_but_stack(&self, other: &VirtualMachine) -> bool {
        &&& self.pc() == other.pc()
        &&& self.call_stack_spec() == other.call_stack_spec()
        &&& self.table() == other.table()
        &&& self.code_spec() == other.code_spec()
        &&& self.current_instance_spec() == other.current_instance_spec()
        &&& self.current_handle_spec() == other.current_handle_spec()
        &&& self.current_class_spec() == other.current_class_spec()
        &&& self.externals_spec() == other.externals_spec()
        &&& self.registered_spec() == other.registered_spec()
        &&& self.state_depth() == other.state_depth()
        &&& self.states_spec() == other.states_spec()
        &&& self.fake_state() == other.fake_state()
        &&& self.fakes_ok() == other.fakes_ok()
        &&& self.step_limit_spec() == other.step_limit_spec()
    }

    /// Makes a machine for a loaded file: appends the scratch string symbols and starts
    /// with empty stacks and no current instance.
    pub fn new(file: File) -> (r: VirtualMachine)
        requires
            file.sym_table.wf(),
            file.sym_table.len_spec() + NUM_FAKE_STRING_SYMBOLS < usize::MAX,
        ensures
            r.wf(),
            r.symbols().len() == file.sym_table.len_spec() + NUM_FAKE_STRING_SYMBOLS,
            forall|i: int| 0 <= i < file.sym_table.len_spec() ==> #[trigger] r.symbols()[i] == file.sym_table.symbols_spec()[i],
            r.code_spec() == file.code@,
            r.pc() == 0,
            r.stack_spec().len() == 0,
            r.call_stack_spec().len() == 0,
            !r.current_handle_spec().is_valid_spec(),
            r.current_class_spec() is None,
            r.state_depth() == 0,
            r.externals_spec().len() == 0,
            r.registered_spec().len() == 0,
            r.step_limit_spec() == DEFAULT_STEP_LIMIT,
    {
        let mut file = file;
        let mut fakes: Vec<usize> = Vec::new();
        let mut k: usize = 0;
        let ghost base = file.sym_table.symbols_spec();
        let ghost code = file.code@;
        while k < NUM_FAKE_STRING_SYMBOLS
            invariant
                k <= NUM_FAKE_STRING_SYMBOLS,
                file.code@ == code,
                file.sym_table.wf(),
                file.sym_table.len_spec() == base.len() + k,
                base.len() + NUM_FAKE_STRING_SYMBOLS < usize::MAX,
                forall|i: int| 0 <= i < base.len() ==> #[trigger] file.sym_table.symbols_spec()[i] == base[i],
                fakes@.len() == k,
                forall|j: int| 0 <= j < k ==> {
                    let i = #[trigger] fakes@[j];
                    &&& i < file.sym_table.len_spec()
                    &&& string_at(file.sym_table.symbols_spec()[i as int], 0) is Some
                },
            decreases NUM_FAKE_STRING_SYMBOLS - k,
        {
            let mut strings: Vec<Vec<u8>> = Vec::new();
            strings.push(Vec::new());
            let properties = Properties::with_kind(Kind::CharString, 1, 0);
            let symbol = Symbol {
                name: Vec::new(),
                properties,
                class_member_offset: None,
                class_member_array_size: None,
                instance_data_handle: Handle::new(),
                instance_data_class: None,
                parent: None,
                address: None,
                data: Some(Data::Strings(strings)),
            };
            let ghost prev = file.sym_table.symbols_spec();
            let index = file.sym_table.push(symbol);
            fakes.push(index);
            proof {
                assert forall|j: int| 0 <= j < k + 1 implies {
                    let i = #[trigger] fakes@[j];
                    &&& i < file.sym_table.len_spec()
                    &&& string_at(file.sym_table.symbols_spec()[i as int], 0) is Some
                } by {
                    if j < k {
                        assert(file.sym_table.symbols_spec()[fakes@[j] as int] == prev[fakes@[j] as int]);
                    }
                }
                assert forall|i: int| 0 <= i < base.len() implies #[trigger] file.sym_table.symbols_spec()[i] == base[i] by {
                    assert(file.sym_table.symbols_spec()[i] == prev[i]);
                }
            }
            k += 1;
        }
        let vm = VirtualMachine {
            file,
            program_counter: 0,
            stack: Vec::new(),
            call_stack: Vec::new(),
            externals_by_index: Vec::new(),
            current_instance: 0,
            current_instance_handle: Handle::new(),
            current_instance_class: None,
            registered_instances: Vec::new(),
            state_stack: Vec::new(),
            fake_string_symbols: fakes,
            next_fake_string: 0,
            step_limit: DEFAULT_STEP_LIMIT,
        };
        vm
    }

    pub fn get_file(&self) -> (r: &File)
        ensures
            r.sym_table == self.table(),
            r.code@ == self.code_spec(),
    {
        &self.file
    }

    pub fn is_stack_empty(&self) -> (r: bool)
        ensures
            r == (self.stack_spec().len() == 0),
    {
        self.stack.len() == 0
    }

    /// The words of the evaluation stack, bottom first.
    pub fn get_stack_words(&self) -> (r: &Vec<u32>)
        ensures
            r@ == self.stack_spec(),
    {
        &self.stack
    }

    pub fn get_program_counter(&self) -> (r: usize)
        ensures
            r == self.pc(),
    {
        self.program_counter
    }

    pub fn set_program_counter(&mut self, target: u32)
        ensures
            final(self).pc() == target as usize,
            final(self).same_but_pc(old(self)),
    {
        self.program_counter = target as usize;
    }

    /// Everything but the program counter is as in `other`.
    pub open spec fn same_but_pc(&self, other: &VirtualMachine) -> bool {
        &&& self.stack_spec() == other.stack_spec()
        &&& self.call_stack_spec() == other.call_stack_spec()
        &&& self.table() == other.table()
        &&& self.code_spec() == other.code_spec()
        &&& self.current_instance_spec() == other.current_instance_spec()
        &&& self.current_handle_spec() == other.current_handle_spec()
        &&& self.current_class_spec() == other.current_class_spec()
        &&& self.externals_spec() == other.externals_spec()
        &&& self.registered_spec() == other.registered_spec()
        &&& self.state_depth() == other.state_depth()
        &&& self.states_spec() == other.states_spec()
        &&& self.fake_state() == other.fake_state()
        &&& self.fakes_ok() == other.fakes_ok()
        &&& self.step_limit_spec() == other.step_limit_spec()
    }

    /// Pushes an integer cell.
    pub fn push_int(&mut self, value: u32)
        ensures
            final(self).stack_spec() == old(self).stack_spec().push(value).push(TAG_INT),
            final(self).same_but_stack(old(self)),
    {
        self.stack.push(value);
        self.stack.push(TAG_INT);
    }

    /// Pushes a float, given as its bit pattern, as an integer cell.
    pub fn push_float_bits(&mut self, bits: u32)
        ensures
            final(self).stack_spec() == old(self).stack_spec().push(bits).push(TAG_INT),
            final(self).same_but_stack(old(self)),
    {
        self.push_int(bits)
    }

    /// Pushes a variable cell for element `array_index` of the symbol at `index`.
    pub fn push_var(&mut self, index: usize, array_index: u32)
        requires
            index <= u32::MAX,
        ensures
            final(self).stack_spec() == old(self).stack_spec().push(array_index).push(index as u32).push(TAG_VAR),
            final(self).same_but_stack(old(self)),
    {
        self.stack.push(array_index);
        self.stack.push(index as u32);
        self.stack.push(TAG_VAR);
    }

    /// Pushes a variable cell for the symbol named `sym_name`; false where there is none.
    pub fn push_var_by_name(&mut self, sym_name: &str) -> (r: bool)
        ensures
            r == (old(self).table().name_lookup(sym_name.spec_bytes()) is Some
                && old(self).table().name_lookup(sym_name.spec_bytes()).unwrap() <= u32::MAX),
            r ==> final(self).stack_spec() == old(self).stack_spec().push(0).push(
                old(self).table().name_lookup(sym_name.spec_bytes()).unwrap() as u32,
            ).push(TAG_VAR),
            !r ==> final(self).stack_spec() == old(self).stack_spec(),
            final(self).same_but_stack(old(self)),
    {
        match self.file.sym_table.find_name(sym_name.as_bytes()) {
            Some(i) => {
                if i > u32::MAX as usize {
                    return false;
                }
                self.push_var(i, 0);
                true
            },
            None => false,
        }
    }

    /// Pops the top cell as an integer (see `pop_int_spec`).
    pub fn pop_int(&mut self) -> (r: u32)
        ensures
            (r, final(self).stack_spec()) == pop_int_spec(old(self).stack_spec(), old(self).symbols()),
            final(self).same_but_stack(old(self)),
    {
        let n = self.stack.len();
        if n == 0 {
            return 0;
        }
        let tag = self.stack[n - 1];
        if tag == TAG_INT && n >= 2 {
            let value = self.stack[n - 2];
            self.stack.truncate(n - 2);
            assert(self.stack@ =~= old(self).stack@.subrange(0, n - 2));
            value
        } else if tag == TAG_VAR && n >= 3 {
            let sym = self.stack[n - 2];
            let k = self.stack[n - 3];
            self.stack.truncate(n - 3);
            assert(self.stack@ =~= old(self).stack@.subrange(0, n - 3));
            self.read_word(sym, k)
        } else {
            self.stack.pop();
            0
        }
    }

    /// Element `k` of the symbol at `sym` as a word (see `var_word`).
    fn read_word(&self, sym: u32, k: u32) -> (r: u32)
        ensures
            r == var_word(self.symbols(), sym, k),
    {
        match self.file.sym_table.get_symbol_by_index(sym as usize) {
            Ok(s) => match &s.data {
                Some(Data::IntSequence(v)) => if (k as usize) < v.len() {
                    v[k as usize]
                } else {
                    0
                },
                Some(Data::FloatSequence(v)) => if (k as usize) < v.len() {
                    v[k as usize]
                } else {
                    0
                },
                _ => 0,
            },
            Err(_) => 0,
        }
    }

    /// Pops the top cell as a float (see `pop_float_spec`).
    #[verifier::truncate]
    pub fn pop_float(&mut self) -> (r: FloatValue)
        ensures
            (r, final(self).stack_spec()) == pop_float_spec(old(self).stack_spec(), old(self).symbols()),
            final(self).same_but_stack(old(self)),
    {
        let n = self.stack.len();
        if n == 0 {
            return FloatValue::Bits(0);
        }
        let tag = self.stack[n - 1];
        if tag == TAG_INT && n >= 2 {
            let value = self.stack[n - 2];
            self.stack.truncate(n - 2);
            assert(self.stack@ =~= old(self).stack@.subrange(0, n - 2));
            FloatValue::Bits(value)
        } else if tag == TAG_VAR && n >= 3 {
            let sym = self.stack[n - 2];
            let k = self.stack[n - 3];
            self.stack.truncate(n - 3);
            assert(self.stack@ =~= old(self).stack@.subrange(0, n - 3));
            match self.file.sym_table.get_symbol_by_index(sym as usize) {
                Ok(s) => match &s.data {
                    Some(Data::FloatSequence(v)) => if (k as usize) < v.len() {
                        FloatValue::Bits(v[k as usize])
                    } else {
                        FloatValue::Bits(0)
                    },
                    Some(Data::IntSequence(v)) => if (k as usize) < v.len() {
                        FloatValue::Widen(v[k as usize] as i32)
                    } else {
                        FloatValue::Bits(0)
                    },
                    _ => FloatValue::Bits(0),
                },
                Err(_) => FloatValue::Bits(0),
            }
        } else {
            self.stack.pop();
            FloatValue::Bits(0)
        }
    }

    /// Pops the top cell as a (symbol index, array index) pair (see `pop_var_spec`).
    pub fn pop_var(&mut self) -> (r: (u32, u32))
        ensures
            (r, final(self).stack_spec()) == pop_var_spec(old(self).stack_spec()),
            final(self).same_but_stack(old(self)),
    {
        let n = self.stack.len();
        if n == 0 {
            return (0xffff_ffff, 0);
        }
        let tag = self.stack[n - 1];
        if tag == TAG_INT && n >= 2 {
            let value = self.stack[n - 2];
            self.stack.truncate(n - 2);
            assert(self.stack@ =~= old(self).stack@.subrange(0, n - 2));
            (value, 0)
        } else if tag == TAG_VAR && n >= 3 {
            let sym = self.stack[n - 2];
            let k = self.stack[n - 3];
            self.stack.truncate(n - 3);
            assert(self.stack@ =~= old(self).stack@.subrange(0, n - 3));
            (sym, k)
        } else {
            self.stack.pop();
            (0xffff_ffff, 0)
        }
    }

    /// Pops a variable cell and returns the string element it names, if it names one.
    pub fn pop_string(&mut self) -> (r: Option<Vec<u8>>)
        ensures
            final(self).stack_spec() == pop_var_spec(old(self).stack_spec()).1,
            final(self).same_but_stack(old(self)),
            match string_of_cell(old(self).symbols(), pop_var_spec(old(self).stack_spec()).0) {
                Some(t) => r matches Some(v) && v@ == t,
                None => r is None,
            },
    {
        let (sym, k) = self.pop_var();
        match self.file.sym_table.get_symbol_by_index(sym as usize) {
            Ok(s) => match s.get_string(k as usize) {
                Some(t) => Some(copy_bytes(t.as_slice())),
                None => None,
            },
            Err(_) => None,
        }
    }
    /// Pushes `text` through the front scratch string symbol, which then moves to the
    /// back of the ring. False, with nothing changed, where the scratch symbols are not
    /// in place.
    pub fn push_string(&mut self, text: &str) -> (r: bool)
        ensures
            old(self).fakes_ok() && old(self).symbols().len() <= u32::MAX ==> r,
            r ==> pushed_string(old(self), final(self), text.spec_bytes()),
            r ==> {
                let i = old(self).fake_ring()[0] as int;
                &&& string_written(old(self).symbols()[i], final(self).symbols()[i], 0, text.spec_bytes())
                &&& forall|j: int| 0 <= j < old(self).symbols().len() && j != i ==> #[trigger] final(self).symbols()[j] == old(self).symbols()[j]
            },
            !r ==> *final(self) == *old(self),
            old(self).wf() ==> final(self).wf(),
            final(self).pc() == old(self).pc(),
            final(self).call_stack_spec() == old(self).call_stack_spec(),
            final(self).code_spec() == old(self).code_spec(),
            final(self).current_instance_spec() == old(self).current_instance_spec(),
            final(self).current_handle_spec() == old(self).current_handle_spec(),
            final(self).current_class_spec() == old(self).current_class_spec(),
            final(self).state_depth() == old(self).state_depth(),
            forall|n: Seq<u8>| final(self).table().name_lookup(n) == old(self).table().name_lookup(n),
    {
        let n = self.fake_string_symbols.len();
        if n != NUM_FAKE_STRING_SYMBOLS || self.next_fake_string >= n {
            return false;
        }
        let i = self.fake_string_symbols[self.next_fake_string];
        if i > u32::MAX as usize {
            return false;
        }
        match self.file.sym_table.get_symbol_by_index(i) {
            Ok(s) => {
                if s.get_string(0).is_none() {
                    return false;
                }
            },
            Err(_) => return false,
        }
        proof {
            let f = self.fake_string_symbols@;
            let nx = self.next_fake_string as int;
            assert(self.fake_ring()[0] == f[nx]);
        }
        let bytes = copy_bytes(text.as_bytes());
        let ghost before = *self;
        self.file.sym_table.set_string(i, 0, bytes);
        let ghost f = self.fake_string_symbols@;
        let ghost nx = self.next_fake_string as int;
        self.next_fake_string = if self.next_fake_string + 1 == n {
            0
        } else {
            self.next_fake_string + 1
        };
        proof {
            let ring = f.subrange(nx, 5) + f.subrange(0, nx);
            assert(before.fake_ring() == ring);
            if nx + 1 == 5 {
                assert(self.fake_ring() =~= ring.drop_first().push(f[nx]));
            } else {
                assert(self.fake_ring() =~= ring.drop_first().push(f[nx]));
            }
            if old(self).fakes_ok() {
                assert forall|k: int| 0 <= k < self.fake_string_symbols@.len() implies {
                    let j = #[trigger] self.fake_string_symbols@[k];
                    &&& j < self.symbols().len()
                    &&& string_at(self.symbols()[j as int], 0) is Some
                } by {
                    let j = self.fake_string_symbols@[k];
                    assert(string_at(old(self).symbols()[j as int], 0) is Some);
                }
            }
        }
        self.push_var(i, 0);
        true
    }

    /// Saves the current instance, program counter, stack and call stack.
    pub fn push_state(&mut self)
        ensures
            final(self).state_depth() == old(self).state_depth() + 1,
            final(self).saved_top() == old(self).snapshot(),
            final(self).states_spec().drop_last() == old(self).states_spec(),
            final(self).same_but_states(old(self)),
    {
        let state = VirtualMachineState {
            current_instance: self.current_instance,
            current_instance_handle: self.current_instance_handle,
            current_instance_class: self.current_instance_class,
            program_counter: self.program_counter,
            stack: copy_words(&self.stack),
            call_stack: copy_frames(&self.call_stack),
        };
        self.state_stack.push(state);
        assert(self.state_stack@.drop_last() =~= old(self).state_stack@);
    }

    /// Restores what the last `push_state` saved; false, with nothing changed, where
    /// nothing is saved.
    pub fn pop_state(&mut self) -> (r: bool)
        ensures
            r == (old(self).state_depth() > 0),
            !r ==> *final(self) == *old(self),
            r ==> final(self).snapshot() == old(self).saved_top(),
            r ==> final(self).state_depth() == old(self).state_depth() - 1,
            r ==> final(self).states_spec() == old(self).states_spec().drop_last(),
            r ==> final(self).table() == old(self).table(),
            r ==> final(self).code_spec() == old(self).code_spec(),
            r ==> final(self).fake_state() == old(self).fake_state(),
            r ==> final(self).fakes_ok() == old(self).fakes_ok(),
    {
        if self.state_stack.len() == 0 {
            return false;
        }
        match self.state_stack.pop() {
            Some(state) => {
                self.current_instance = state.current_instance;
                self.current_instance_handle = state.current_instance_handle;
                self.current_instance_class = state.current_instance_class;
                self.program_counter = state.program_counter;
                self.stack = state.stack;
                self.call_stack = state.call_stack;
                true
            },
            None => false,
        }
    }

    /// The registers that `push_state` saves.
    pub open spec fn snapshot(&self) -> (usize, Handle, Option<InstanceClass>, usize, Seq<u32>, Seq<CallStackFrame>) {
        (
            self.current_instance_spec(),
            self.current_handle_spec(),
            self.current_class_spec(),
            self.pc(),
            self.stack_spec(),
            self.call_stack_spec(),
        )
    }

    /// The registers that the last `push_state` saved.
    pub closed spec fn saved_top(&self) -> (usize, Handle, Option<InstanceClass>, usize, Seq<u32>, Seq<CallStackFrame>) {
        let st = self.state_stack@.last();
        (
            st.current_instance,
            st.current_instance_handle,
            st.current_instance_class,
            st.program_counter,
            st.stack@,
            st.call_stack@,
        )
    }

    /// Everything but the saved states is as in `other`.
    pub open spec fn same_but_states(&self, other: &VirtualMachine) -> bool {
        &&& self.snapshot() == other.snapshot()
        &&& self.table() == other.table()
        &&& self.code_spec() == other.code_spec()
        &&& self.externals_spec() == other.externals_spec()
        &&& self.registered_spec() == other.registered_spec()
        &&& self.fake_state() == other.fake_state()
        &&& self.fakes_ok() == other.fakes_ok()
        &&& self.step_limit_spec() == other.step_limit_spec()
    }

    /// Binds the external named `sym_name`: a later `CallExternal` of that symbol calls
    /// the host. Returns the symbol index, or `None` where no symbol has that name.
    pub fn register_external_func(&mut self, sym_name: &str) -> (r: Option<usize>)
        ensures
            r == old(self).table().name_lookup(sym_name.spec_bytes()),
            r matches Some(i) ==> final(self).externals_spec().contains(i),
            forall|j: usize| #[trigger] old(self).externals_spec().contains(j) ==> final(self).externals_spec().contains(j),
            forall|j: usize| #[trigger] final(self).externals_spec().contains(j) ==> old(self).externals_spec().contains(j) || r == Some(j),
            final(self).snapshot() == old(self).snapshot(),
            final(self).table() == old(self).table(),
            final(self).code_spec() == old(self).code_spec(),
            final(self).state_depth() == old(self).state_depth(),
            final(self).fake_state() == old(self).fake_state(),
            final(self).fakes_ok() == old(self).fakes_ok(),
    {
        match self.file.sym_table.find_name(sym_name.as_bytes()) {
            Some(i) => {
                if !self.is_external(i) {
                    self.externals_by_index.push(i);
                    proof {
                        assert(self.externals_by_index@.last() == i);
                        assert forall|j: usize| #[trigger] old(self).externals_spec().contains(j) implies self.externals_spec().contains(j) by {
                            let k = choose|k: int| 0 <= k < old(self).externals_spec().len() && old(self).externals_spec()[k] == j;
                            assert(self.externals_by_index@[k] == j);
                        }
                        assert forall|j: usize| #[trigger] self.externals_spec().contains(j) implies old(self).externals_spec().contains(j) || j == i by {
                            let k = choose|k: int| 0 <= k < self.externals_spec().len() && self.externals_spec()[k] == j;
                            if k < old(self).externals_spec().len() {
                                assert(old(self).externals_spec()[k] == j);
                            }
                        }
                    }
                }
                Some(i)
            },
            None => None,
        }
    }

    /// Whether the symbol at `index` is bound as an external.
    pub fn is_external(&self, index: usize) -> (r: bool)
        ensures
            r == self.externals_spec().contains(index),
    {
        let mut k: usize = 0;
        while k < self.externals_by_index.len()
            invariant
                k <= self.externals_by_index@.len(),
                forall|j: int| 0 <= j < k ==> self.externals_by_index@[j] != index,
            decreases self.externals_by_index@.len() - k,
        {
            if self.externals_by_index[k] == index {
                return true;
            }
            k += 1;
        }
        false
    }

    /// Sets how many instructions one run may execute before it gives up.
    pub fn set_step_limit(&mut self, limit: u64)
        ensures
            final(self).step_limit_spec() == limit,
            final(self).snapshot() == old(self).snapshot(),
            final(self).table() == old(self).table(),
            final(self).code_spec() == old(self).code_spec(),
            final(self).state_depth() == old(self).state_depth(),
            final(self).fake_state() == old(self).fake_state(),
            final(self).fakes_ok() == old(self).fakes_ok(),
    {
        self.step_limit = limit;
    }

    /// The call stack, innermost frame last.
    pub fn get_call_stack(&self) -> (r: Vec<CallStackFrame>)
        ensures
            r@ == self.call_stack_spec(),
    {
        copy_frames(&self.call_stack)
    }

    pub fn clear_call_stack(&mut self)
        ensures
            final(self).call_stack_spec().len() == 0,
            final(self).stack_spec() == old(self).stack_spec(),
            final(self).pc() == old(self).pc(),
            final(self).table() == old(self).table(),
            final(self).code_spec() == old(self).code_spec(),
            final(self).state_depth() == old(self).state_depth(),
            final(self).fake_state() == old(self).fake_state(),
            final(self).fakes_ok() == old(self).fakes_ok(),
    {
        self.call_stack = Vec::new();
    }

    pub fn get_current_instance(&self) -> (r: usize)
        ensures
            r == self.current_instance_spec(),
    {
        self.current_instance
    }

    pub fn get_current_instance_handle(&self) -> (r: Handle)
        ensures
            r == self.current_handle_spec(),
    {
        self.current_instance_handle
    }

    pub fn get_current_instance_class(&self) -> (r: Option<InstanceClass>)
        ensures
            r == self.current_class_spec(),
    {
        self.current_instance_class
    }

    /// The symbol of the current instance, if its index is in the table.
    pub fn get_current_instance_data(&self) -> (r: Option<&Symbol>)
        ensures
            r == if self.current_instance_spec() < self.symbols().len() {
                Some(&self.symbols()[self.current_instance_spec() as int])
            } else {
                None::<&Symbol>
            },
    {
        match self.file.sym_table.get_symbol_by_index(self.current_instance) {
            Ok(s) => Some(s),
            Err(_) => None,
        }
    }

    /// Makes the symbol at `sym_index` the current instance, with its handle and class.
    pub fn set_current_instance(&mut self, sym_index: usize)
        ensures
            final(self).current_instance_spec() == sym_index,
            sym_index < old(self).symbols().len() ==> {
                &&& final(self).current_handle_spec() == old(self).symbols()[sym_index as int].instance_data_handle
                &&& final(self).current_class_spec() == old(self).symbols()[sym_index as int].instance_data_class
            },
            sym_index >= old(self).symbols().len() ==> {
                &&& final(self).current_handle_spec() == old(self).current_handle_spec()
                &&& final(self).current_class_spec() == old(self).current_class_spec()
            },
            final(self).same_but_instance(old(self)),
    {
        self.current_instance = sym_index;
        if sym_index < self.file.sym_table.len() {
            let s = match self.file.sym_table.get_symbol_by_index(sym_index) {
                Ok(s) => s,
                Err(_) => return,
            };
            self.current_instance_handle = s.instance_data_handle;
            self.current_instance_class = s.instance_data_class;
        }
    }

    /// Everything but the current-instance registers is as in `other`.
    pub open spec fn same_but_instance(&self, other: &VirtualMachine) -> bool {
        &&& self.pc() == other.pc()
        &&& self.stack_spec() == other.stack_spec()
        &&& self.call_stack_spec() == other.call_stack_spec()
        &&& self.table() == other.table()
        &&& self.code_spec() == other.code_spec()
        &&& self.externals_spec() == other.externals_spec()
        &&& self.registered_spec() == other.registered_spec()
        &&& self.state_depth() == other.state_depth()
        &&& self.states_spec() == other.states_spec()
        &&& self.fake_state() == other.fake_state()
        &&& self.fakes_ok() == other.fakes_ok()
        &&& self.step_limit_spec() == other.step_limit_spec()
    }

    /// Binds the symbol named `inst_symbol` to an instance record; false where no symbol
    /// has that name.
    pub fn set_instance(&mut self, inst_symbol: &str, handle: Handle, instance_class: InstanceClass) -> (r: bool)
        ensures
            r == (old(self).table().name_lookup(inst_symbol.spec_bytes()) is Some),
            !r ==> *final(self) == *old(self),
            r ==> {
                let i = old(self).table().name_lookup(inst_symbol.spec_bytes()).unwrap() as int;
                &&& old(self).table().wf() ==> final(self).symbols() == old(self).symbols().update(i, Symbol {
                    instance_data_handle: handle,
                    instance_data_class: Some(instance_class),
                    ..old(self).symbols()[i]
                })
            },
            old(self).wf() ==> final(self).wf(),
            final(self).snapshot() == old(self).snapshot(),
            final(self).code_spec() == old(self).code_spec(),
            final(self).state_depth() == old(self).state_depth(),
    {
        match self.file.sym_table.find_name(inst_symbol.as_bytes()) {
            Some(i) => {
                self.set_instance_data_at(i, handle, instance_class);
                true
            },
            None => false,
        }
    }

    /// Binds the symbol at `index` to an instance record.
    fn set_instance_data_at(&mut self, index: usize, handle: Handle, instance_class: InstanceClass)
        ensures
            old(self).table().wf() ==> final(self).table().wf(),
            final(self).symbols().len() == old(self).symbols().len(),
            index < old(self).symbols().len() ==> final(self).symbols() == old(self).symbols().update(index as int, Symbol {
                instance_data_handle: handle,
                instance_data_class: Some(instance_class),
                ..old(self).symbols()[index as int]
            }),
            old(self).wf() ==> final(self).wf(),
            final(self).snapshot() == old(self).snapshot(),
            final(self).code_spec() == old(self).code_spec(),
            final(self).state_depth() == old(self).state_depth(),
            final(self).externals_spec() == old(self).externals_spec(),
            final(self).registered_spec() == old(self).registered_spec(),
            final(self).fake_state() == old(self).fake_state(),
            final(self).step_limit_spec() == old(self).step_limit_spec(),
            final(self).states_spec() == old(self).states_spec(),
            forall|n: Seq<u8>| final(self).table().name_lookup(n) == old(self).table().name_lookup(n),
    {
        self.file.sym_table.set_instance_data(index, handle, instance_class);
        proof {
            if old(self).fakes_ok() && old(self).table().wf() {
                assert forall|k: int| 0 <= k < self.fake_string_symbols@.len() implies {
                    let j = #[trigger] self.fake_string_symbols@[k];
                    &&& j < self.symbols().len()
                    &&& string_at(self.symbols()[j as int], 0) is Some
                } by {
                    let j = self.fake_string_symbols@[k];
                    assert(string_at(old(self).symbols()[j as int], 0) is Some);
                }
            }
        }
    }

    /// The instance symbols registered for `instance_class`, in registration order.
    pub fn get_registered_instances_of(&self, instance_class: InstanceClass) -> (r: Vec<usize>)
        ensures
            r@ == instances_of(self.registered_spec(), instance_class),
    {
        let mut out: Vec<usize> = Vec::new();
        let mut k: usize = 0;
        while k < self.registered_instances.len()
            invariant
                k <= self.registered_instances@.len(),
                out@ == instances_of(self.registered_instances@.subrange(0, k as int), instance_class),
            decreases self.registered_instances@.len() - k,
        {
            let e = self.registered_instances[k];
            proof {
                let pre = self.registered_instances@.subrange(0, k as int);
                assert(self.registered_instances@.subrange(0, k + 1).drop_last() =~= pre);
            }
            if e.0 == instance_class {
                out.push(e.1);
            }
            k += 1;
        }
        assert(self.registered_instances@.subrange(0, k as int) =~= self.registered_instances@);
        out
    }
    /// The result of a binary operator (see `binary_spec`).
    #[verifier::truncate]
    fn binary(o: Operator, x: u32, y: u32) -> (r: u32)
        ensures
            r == binary_spec(o, x, y),
    {
        let a = x as i32;
        let b = y as i32;
        match o {
            Operator::Add => a.wrapping_add(b) as u32,
            Operator::Subtract => a.wrapping_sub(b) as u32,
            Operator::Multiply => a.wrapping_mul(b) as u32,
            Operator::Divide => match a.checked_div(b) {
                Some(q) => q as u32,
                None => 0,
            },
            Operator::Mod => match a.checked_rem(b) {
                Some(q) => q as u32,
                None => 0,
            },
            Operator::BinOr => x | y,
            Operator::BinAnd => x & y,
            Operator::Less => if a < b { 1 } else { 0 },
            Operator::Greater => if a > b { 1 } else { 0 },
            Operator::LessOrEqual => if a <= b { 1 } else { 0 },
            Operator::GreaterOrEqual => if a >= b { 1 } else { 0 },
            Operator::Equal => if x == y { 1 } else { 0 },
            Operator::NotEqual => if x != y { 1 } else { 0 },
            Operator::LogOr => if x != 0 || y != 0 { 1 } else { 0 },
            Operator::LogAnd => if x != 0 && y != 0 { 1 } else { 0 },
            Operator::ShiftLeft => a.wrapping_shl(y) as u32,
            Operator::ShiftRight => a.wrapping_shr(y) as u32,
            _ => 0,
        }
    }

    /// The result of a unary operator (see `unary_spec`).
    #[verifier::truncate]
    fn unary(o: Operator, x: u32) -> (r: u32)
        ensures
            r == unary_spec(o, x),
    {
        match o {
            Operator::Minus => (0i32).wrapping_sub(x as i32) as u32,
            Operator::Not => if x == 0 { 1 } else { 0 },
            Operator::Negate => !x,
            _ => x,
        }
    }

    /// Whether the top cell is a variable cell.
    fn top_is_var(&self) -> (r: bool)
        ensures
            r == top_is_var(self.stack_spec()),
    {
        let n = self.stack.len();
        n > 0 && self.stack[n - 1] == TAG_VAR
    }

    /// Pops an assignment's target cell and integer value.
    fn pop_assign_int(&mut self) -> (r: ((u32, u32), u32))
        ensures
            (r.0, r.1, final(self).stack_spec()) == assign_int_operands(old(self).stack_spec(), old(self).symbols()),
            final(self).same_but_stack(old(self)),
    {
        if self.top_is_var() {
            let t = self.pop_var();
            let v = self.pop_int();
            (t, v)
        } else {
            let v = self.pop_int();
            let t = self.pop_var();
            (t, v)
        }
    }

    /// Pops an assignment's target cell and value cell.
    fn pop_assign_cell(&mut self) -> (r: ((u32, u32), (u32, u32)))
        ensures
            (r.0, r.1, final(self).stack_spec()) == assign_cell_operands(old(self).stack_spec()),
            final(self).same_but_stack(old(self)),
    {
        if self.top_is_var() {
            let t = self.pop_var();
            let v = self.pop_var();
            (t, v)
        } else {
            let v = self.pop_var();
            let t = self.pop_var();
            (t, v)
        }
    }

    /// Pops an assignment's target cell and float value.
    fn pop_assign_float(&mut self) -> (r: ((u32, u32), FloatValue))
        ensures
            (r.0, r.1, final(self).stack_spec()) == assign_float_operands(old(self).stack_spec(), old(self).symbols()),
            final(self).same_but_stack(old(self)),
    {
        if self.top_is_var() {
            let t = self.pop_var();
            let v = self.pop_float();
            (t, v)
        } else {
            let v = self.pop_float();
            let t = self.pop_var();
            (t, v)
        }
    }

    /// The string element that a cell names, if any.
    fn string_of(&self, cell: (u32, u32)) -> (r: Option<Vec<u8>>)
        ensures
            match string_of_cell(self.symbols(), cell) {
                Some(t) => r matches Some(v) && v@ == t,
                None => r is None,
            },
    {
        match self.file.sym_table.get_symbol_by_index(cell.0 as usize) {
            Ok(s) => match s.get_string(cell.1 as usize) {
                Some(t) => Some(copy_bytes(t.as_slice())),
                None => None,
            },
            Err(_) => None,
        }
    }

    /// Facts shared by the assignment operators: the scratch strings stay in place.
    proof fn lemma_fakes_kept(&self, before: &VirtualMachine)
        requires
            before.fakes_ok(),
            self.fake_state() == before.fake_state(),
            self.symbols().len() == before.symbols().len(),
            forall|j: int| 0 <= j < before.symbols().len() && (string_at(before.symbols()[j], 0) is Some)
                ==> #[trigger] string_at(self.symbols()[j], 0) is Some,
        ensures
            self.fakes_ok(),
    {
        assert forall|k: int| 0 <= k < self.fake_string_symbols@.len() implies {
            let i = #[trigger] self.fake_string_symbols@[k];
            &&& i < self.symbols().len()
            &&& string_at(self.symbols()[i as int], 0) is Some
        } by {
            let i = self.fake_string_symbols@[k];
            assert(string_at(before.symbols()[i as int], 0) is Some);
        }
    }

    /// Runs the assignment operator `o`.
    fn exec_assign(&mut self, o: Operator)
        requires
            o == Operator::Assign || is_compound(o) || o == Operator::AssignFunc || o == Operator::AssignInstance
                || o == Operator::AssignString || o == Operator::AssignStringRef || o == Operator::AssignFloat,
        ensures
            ({
                let s = old(self).stack_spec();
                let syms = old(self).symbols();
                if o == Operator::Assign {
                    let (t, v, rest) = assign_int_operands(s, syms);
                    final(self).stack_spec() == rest && only_changed(syms, final(self).symbols(), t.0, |x: Symbol, y: Symbol| assign_written(x, y, t.1, v))
                } else if is_compound(o) {
                    let (t, v, rest) = assign_int_operands(s, syms);
                    final(self).stack_spec() == rest && only_changed(syms, final(self).symbols(), t.0, |x: Symbol, y: Symbol| compound_written(o, x, y, t.1, v))
                } else if o == Operator::AssignFunc || o == Operator::AssignInstance {
                    let (t, v, rest) = assign_cell_operands(s);
                    final(self).stack_spec() == rest && only_changed(syms, final(self).symbols(), t.0, |x: Symbol, y: Symbol| address_written(x, y, v.0))
                } else if o == Operator::AssignString || o == Operator::AssignStringRef {
                    let (t, v, rest) = assign_cell_operands(s);
                    final(self).stack_spec() == rest && only_changed(syms, final(self).symbols(), t.0, |x: Symbol, y: Symbol| string_assign_written(x, y, t.1, string_of_cell(syms, v)))
                } else {
                    let (t, v, rest) = assign_float_operands(s, syms);
                    final(self).stack_spec() == rest && only_changed(syms, final(self).symbols(), t.0, |x: Symbol, y: Symbol| float_assign_written(x, y, t.1, v))
                }
            }),
            forall|n: Seq<u8>| #[trigger] final(self).table().name_lookup(n) == old(self).table().name_lookup(n),
            final(self).pc() == old(self).pc(),
            final(self).call_stack_spec() == old(self).call_stack_spec(),
            final(self).code_spec() == old(self).code_spec(),
            final(self).current_instance_spec() == old(self).current_instance_spec(),
            final(self).current_handle_spec() == old(self).current_handle_spec(),
            final(self).current_class_spec() == old(self).current_class_spec(),
            final(self).externals_spec() == old(self).externals_spec(),
            final(self).registered_spec() == old(self).registered_spec(),
            final(self).state_depth() == old(self).state_depth(),
            final(self).fake_state() == old(self).fake_state(),
            final(self).step_limit_spec() == old(self).step_limit_spec(),
            old(self).wf() ==> final(self).wf(),
    {
        match o {
            Operator::Assign => {
                let (t, v) = self.pop_assign_int();
                let has_float = match self.file.sym_table.get_symbol_by_index(t.0 as usize) {
                    Ok(s) => match &s.data {
                        Some(Data::FloatSequence(w)) => (t.1 as usize) < w.len(),
                        _ => false,
                    },
                    Err(_) => false,
                };
                if has_float {
                    self.file.sym_table.set_float(t.0 as usize, t.1 as usize, v);
                } else {
                    self.file.sym_table.set_int(t.0 as usize, t.1 as usize, v);
                }
            },
            Operator::AssignFunc | Operator::AssignInstance => {
                let (t, v) = self.pop_assign_cell();
                self.file.sym_table.set_address(t.0 as usize, v.0);
            },
            Operator::AssignString | Operator::AssignStringRef => {
                let (t, v) = self.pop_assign_cell();
                match self.string_of(v) {
                    Some(text) => self.file.sym_table.set_string(t.0 as usize, t.1 as usize, text),
                    None => {},
                }
            },
            Operator::AssignFloat => {
                let (t, v) = self.pop_assign_float();
                match v {
                    FloatValue::Bits(bits) => self.file.sym_table.set_float(t.0 as usize, t.1 as usize, bits),
                    FloatValue::Widen(_) => {},
                }
            },
            _ => {
                let (t, v) = self.pop_assign_int();
                let current = match self.file.sym_table.get_symbol_by_index(t.0 as usize) {
                    Ok(s) => match &s.data {
                        Some(Data::IntSequence(w)) => if (t.1 as usize) < w.len() {
                            Some(w[t.1 as usize])
                        } else {
                            None
                        },
                        _ => None,
                    },
                    Err(_) => None,
                };
                match current {
                    Some(cur) => {
                        let nv = match o {
                            Operator::AssignAdd => Self::binary(Operator::Add, cur, v),
                            Operator::AssignSubtract => Self::binary(Operator::Subtract, cur, v),
                            Operator::AssignMultiply => Self::binary(Operator::Multiply, cur, v),
                            _ => Self::binary(Operator::Divide, cur, v),
                        };
                        self.file.sym_table.set_int(t.0 as usize, t.1 as usize, nv);
                    },
                    None => {},
                }
            },
        }
        proof {
            if old(self).wf() {
                self.lemma_fakes_kept(old(self));
            }
        }
    }
    /// Executes one instruction. Returns false when a return left the function a run
    /// started with, when the call stack is empty afterwards, or when the program counter
    /// lies past the code. An unknown operator byte is skipped. A `CallExternal` of a bound
    /// symbol hands the machine to `host` in the state `begin_external` describes (program
    /// counter past the instruction, all else unchanged), once; of an unbound one it does
    /// nothing.
    #[verifier::truncate]
    pub fn do_stack<H: ExternalHost>(&mut self, host: &mut H) -> (r: bool)
        ensures
            !calls_bound_external(old(self)) ==> do_stack_spec(old(self), final(self), r),
            calls_bound_external(old(self)) ==> r == (final(self).call_stack_spec().len() > 0),
            !calls_bound_external(old(self)) ==> {
                &&& final(self).externals_spec() == old(self).externals_spec()
                &&& final(self).registered_spec() == old(self).registered_spec()
                &&& final(self).state_depth() == old(self).state_depth()
                &&& final(self).fake_state() == old(self).fake_state()
                &&& final(self).step_limit_spec() == old(self).step_limit_spec()
                &&& (old(self).wf() ==> final(self).wf())
            },
    {
        if let Some(sym) = self.begin_external() {
            host.call_external(self, sym);
            return self.call_stack.len() > 0;
        }
        let code_len = self.file.code.len();
        let op = match self.file.get_stack_op_code(self.program_counter) {
            Ok(op) => op,
            Err(_) => {
                if self.program_counter < code_len {
                    self.program_counter = self.program_counter + 1;
                    return self.call_stack.len() > 0;
                }
                return false;
            },
        };
        self.program_counter = self.program_counter + op.operator_size;
        let o = op.operator;
        match o {
            Operator::Add | Operator::Subtract | Operator::Multiply | Operator::Divide | Operator::Mod
            | Operator::BinOr | Operator::BinAnd | Operator::Less | Operator::Greater
            | Operator::LogOr | Operator::LogAnd | Operator::ShiftLeft | Operator::ShiftRight
            | Operator::LessOrEqual | Operator::Equal | Operator::NotEqual
            | Operator::GreaterOrEqual => {
                let x = self.pop_int();
                let y = self.pop_int();
                self.push_int(Self::binary(o, x, y));
            },
            Operator::Plus | Operator::Minus | Operator::Not | Operator::Negate => {
                let x = self.pop_int();
                self.push_int(Self::unary(o, x));
            },
            Operator::PushInt => {
                let v = match op.value {
                    Some(v) => v as u32,
                    None => 0,
                };
                self.push_int(v);
            },
            Operator::PushVar | Operator::PushInstance | Operator::PushArrayVar => {
                let k: u32 = if o == Operator::PushArrayVar {
                    match op.index {
                        Some(i) => i as u32,
                        None => 0,
                    }
                } else {
                    0
                };
                let sym: u32 = match op.symbol {
                    Some(v) => v as u32,
                    None => 0,
                };
                self.push_var(sym as usize, k);
            },
            Operator::Jump => {
                self.program_counter = Self::target(op);
            },
            Operator::JumpIf => {
                let x = self.pop_int();
                if x == 0 {
                    self.program_counter = Self::target(op);
                }
            },
            Operator::Call => {
                let next = self.program_counter;
                self.call_stack.push(CallStackFrame::Address(next));
                self.program_counter = Self::target(op);
            },
            Operator::Ret => {
                if self.call_stack.len() == 0 {
                    return false;
                }
                match self.call_stack.pop() {
                    Some(CallStackFrame::Address(p)) => {
                        self.program_counter = p;
                    },
                    _ => {
                        return false;
                    },
                }
            },
            Operator::SetInstance => {
                let i: usize = match op.symbol {
                    Some(v) => v as u32 as usize,
                    None => 0,
                };
                self.set_current_instance(i);
            },
            Operator::CallExternal => {},
            _ => {
                self.exec_assign(o);
            },
        }
        self.call_stack.len() > 0
    }

    /// Where the instruction at the program counter calls a bound external, moves the
    /// counter past it and returns the external's symbol index: the host is then handed
    /// the machine in exactly this state. Otherwise changes nothing.
    pub fn begin_external(&mut self) -> (r: Option<usize>)
        ensures
            calls_bound_external(old(self)) ==> {
                let op = decode_spec(old(self).code_spec(), old(self).pc() as int).unwrap();
                &&& r == Some(op.symbol.unwrap() as usize)
                &&& final(self).pc() == old(self).pc() + 5
                &&& final(self).same_but_pc(old(self))
            },
            !calls_bound_external(old(self)) ==> r is None && *final(self) == *old(self),
    {
        let code_len = self.file.code.len();
        if self.program_counter >= code_len {
            return None;
        }
        match self.file.get_stack_op_code(self.program_counter) {
            Ok(op) => {
                if op.operator == Operator::CallExternal {
                    if let Some(sym) = op.symbol {
                        if sym >= 0 && self.is_external(sym as usize) {
                            self.program_counter = self.program_counter + op.operator_size;
                            return Some(sym as usize);
                        }
                    }
                }
                None
            },
            Err(_) => None,
        }
    }

    /// Decodes the instruction at the program counter and moves the counter past it.
    pub fn get_current_instruction(&mut self) -> (r: Option<StackOpCode>)
        ensures
            r == decode_spec(old(self).code_spec(), old(self).pc() as int),
            r matches Some(op) ==> final(self).pc() == old(self).pc() + op.operator_size,
            r is None ==> final(self).pc() == old(self).pc(),
            final(self).same_but_pc(old(self)),
    {
        let code_len = self.file.code.len();
        if self.program_counter >= code_len {
            return None;
        }
        match self.file.get_stack_op_code(self.program_counter) {
            Ok(op) => {
                self.program_counter = self.program_counter + op.operator_size;
                Some(op)
            },
            Err(_) => None,
        }
    }

    /// The address a jump or call goes to (see `target_of`).
    #[verifier::truncate]
    fn target(op: StackOpCode) -> (r: usize)
        ensures
            r == target_of(op),
    {
        match op.address {
            Some(a) => a as u32 as usize,
            None => 0,
        }
    }
    /// The saved states, innermost last.
    pub closed spec fn states_spec(&self) -> Seq<VirtualMachineState> {
        self.state_stack@
    }

    /// Runs the function at symbol `sym_index` until it returns, from its code address,
    /// on the current stack (emptied first where `clear_data_stack` holds) and a call
    /// stack of its own. The result is the integer the function left on the stack where
    /// it carries the Return flag (that integer is popped), else 0. Afterwards the program
    /// counter, the call stack, the current instance and the saved states are as before;
    /// the stack is as the function left it, and `push_state`/`pop_state` around the call
    /// restore it. `None` where the symbol has no code address, or where the function has
    /// not returned after the step limit (`set_step_limit`).
    pub fn run_func_by_sym_index<H: ExternalHost>(
        &mut self,
        host: &mut H,
        sym_index: usize,
        clear_data_stack: bool,
    ) -> (r: Option<u32>)
        ensures
            final(self).pc() == old(self).pc(),
            final(self).call_stack_spec() == old(self).call_stack_spec(),
            final(self).current_instance_spec() == old(self).current_instance_spec(),
            final(self).current_handle_spec() == old(self).current_handle_spec(),
            final(self).current_class_spec() == old(self).current_class_spec(),
            final(self).states_spec() == old(self).states_spec(),
            final(self).step_limit_spec() == old(self).step_limit_spec(),
            sym_index >= old(self).symbols().len() || old(self).symbols()[sym_index as int].address is None
                ==> r is None && final(self).table() == old(self).table() && final(self).stack_spec() == old(self).stack_spec()
                && final(self).fake_state() == old(self).fake_state(),
            r matches Some(v) ==> runs_to(*old(self), *final(self), sym_index, clear_data_stack, v),
            r is None && sym_index < old(self).symbols().len() && old(self).symbols()[sym_index as int].address is Some
                ==> runs_out(*old(self), *final(self), sym_index, clear_data_stack),
    {
        let (address, has_return) = match self.file.sym_table.get_symbol_by_index(sym_index) {
            Ok(s) => (s.address, s.properties.has_flag(Flag::Return)),
            Err(_) => (None, false),
        };
        let address = match address {
            Some(a) => a,
            None => return None,
        };
        let saved_instance = self.current_instance;
        let saved_handle = self.current_instance_handle;
        let saved_class = self.current_instance_class;
        let saved_pc = self.program_counter;
        let mut saved_frames: Vec<CallStackFrame> = Vec::new();
        std::mem::swap(&mut self.call_stack, &mut saved_frames);
        let mut saved_states: Vec<VirtualMachineState> = Vec::new();
        std::mem::swap(&mut self.state_stack, &mut saved_states);
        if clear_data_stack {
            self.stack = Vec::new();
        }
        self.call_stack.push(CallStackFrame::SymbolIndex(sym_index));
        self.program_counter = address as usize;
        proof {
            assert(self.call_stack@ =~= seq![CallStackFrame::SymbolIndex(sym_index)]);
            if clear_data_stack {
                assert(self.stack@ =~= Seq::<u32>::empty());
            }
        }
        let ghost mut trace: Seq<VirtualMachine> = seq![*self];
        let limit = self.step_limit;
        let mut steps: u64 = 0;
        let mut finished = false;
        while steps < limit && !finished
            invariant
                limit == old(self).step_limit_spec(),
                steps <= limit,
                trace.len() >= 1,
                run_start(old(self), &trace[0], sym_index, clear_data_stack),
                trace.last() == *self,
                forall|k: int|
                    0 <= k < trace.len() - 1 ==> calls_bound_external(&trace[k]) || do_stack_spec(
                        &#[trigger] trace[k],
                        &trace[k + 1],
                        !finished || k < trace.len() - 2,
                    ),
                finished ==> trace.len() >= 2,
                !finished ==> trace.len() == steps + 1,
            decreases limit - steps,
        {
            let ghost before = trace;
            let cont = self.do_stack(host);
            proof {
                trace = trace.push(*self);
                assert forall|k: int| 0 <= k < trace.len() - 1 implies calls_bound_external(&trace[k]) || do_stack_spec(
                    &#[trigger] trace[k],
                    &trace[k + 1],
                    cont || k < trace.len() - 2,
                ) by {
                    if k < before.len() - 1 {
                        assert(trace[k] == before[k]);
                        assert(trace[k + 1] == before[k + 1]);
                    } else {
                        assert(trace[k] == before.last());
                    }
                }
            }
            if !cont {
                finished = true;
            }
            steps += 1;
        }
        let ghost last = *self;
        let popped = finished && has_return && self.stack.len() > 0;
        let result = if popped {
            self.pop_int()
        } else {
            0
        };
        self.current_instance = saved_instance;
        self.current_instance_handle = saved_handle;
        self.current_instance_class = saved_class;
        self.program_counter = saved_pc;
        self.call_stack = saved_frames;
        self.state_stack = saved_states;
        self.step_limit = limit;
        proof {
            assert(trace.last() == last);
            assert(run_end(self, trace, popped));
        }
        if finished {
            proof {
                assert(is_trace(trace));
                assert(finished_run(old(self), self, trace, sym_index, clear_data_stack, result));
                assert(runs_to(*old(self), *self, sym_index, clear_data_stack, result));
            }
            Some(result)
        } else {
            proof {
                assert(unfinished_run(old(self), self, trace, sym_index, clear_data_stack));
                assert(runs_out(*old(self), *self, sym_index, clear_data_stack));
            }
            None
        }
    }

    /// Saves the state, the same as `push_state`; a host calls it before pushing the
    /// arguments of a function it is about to run.
    pub fn prepare_run_function(&mut self)
        ensures
            final(self).state_depth() == old(self).state_depth() + 1,
            final(self).saved_top() == old(self).snapshot(),
            final(self).states_spec().drop_last() == old(self).states_spec(),
            final(self).same_but_states(old(self)),
    {
        self.push_state();
    }

    /// Binds the symbol at `sym_index` to the record `handle` of class `instance_class`,
    /// registers it for that class, and runs its constructor with it as the current
    /// instance. The registers are as before afterwards, and the symbol stays bound.
    /// False where there is no such symbol.
    pub fn initialise_instance<H: ExternalHost>(
        &mut self,
        host: &mut H,
        handle: Handle,
        sym_index: usize,
        instance_class: InstanceClass,
    ) -> (r: bool)
        ensures
            r == (sym_index < old(self).symbols().len()),
            final(self).snapshot() == old(self).snapshot(),
            final(self).states_spec() == old(self).states_spec(),
            r && sym_index < final(self).symbols().len() ==> final(self).symbols()[sym_index as int].instance_data_handle == handle
                && final(self).symbols()[sym_index as int].instance_data_class == Some(instance_class),
            r ==> final(self).registered_spec().contains((instance_class, sym_index)),
    {
        if sym_index >= self.file.sym_table.len() {
            return false;
        }
        self.set_instance_data_at(sym_index, handle, instance_class);
        self.push_state();
        self.set_current_instance(sym_index);
        let _ = self.run_func_by_sym_index(host, sym_index, false);
        let _ = self.pop_state();
        if sym_index < self.file.sym_table.len() {
            self.set_instance_data_at(sym_index, handle, instance_class);
        }
        if !self.is_registered(instance_class, sym_index) {
            self.registered_instances.push((instance_class, sym_index));
            assert(self.registered_instances@.last() == (instance_class, sym_index));
        }
        true
    }

    /// Whether `sym_index` is registered for `instance_class`.
    fn is_registered(&self, instance_class: InstanceClass, sym_index: usize) -> (r: bool)
        ensures
            r == self.registered_spec().contains((instance_class, sym_index)),
    {
        let mut k: usize = 0;
        while k < self.registered_instances.len()
            invariant
                k <= self.registered_instances@.len(),
                forall|j: int| 0 <= j < k ==> self.registered_instances@[j] != (instance_class, sym_index),
            decreases self.registered_instances@.len() - k,
        {
            let e = self.registered_instances[k];
            if e.0 == instance_class && e.1 == sym_index {
                return true;
            }
            k += 1;
        }
        false
    }
}

/// Saving the state, running a function and restoring the state gives back exactly the
/// program counter, the stack, the call stack and the current instance from before.
/// `a` is the machine before `push_state`, `a1` after it, `b` after the run and `c`
/// after `pop_state`.
pub proof fn lemma_reentrant_run(a: &VirtualMachine, a1: &VirtualMachine, b: &VirtualMachine, c: &VirtualMachine)
    requires
        a1.state_depth() == a.state_depth() + 1,
        a1.saved_top() == a.snapshot(),
        b.states_spec() == a1.states_spec(),
        b.state_depth() > 0 ==> c.snapshot() == b.saved_top(),
    ensures
        c.pc() == a.pc(),
        c.stack_spec() == a.stack_spec(),
        c.call_stack_spec() == a.call_stack_spec(),
        c.current_instance_spec() == a.current_instance_spec(),
        c.current_handle_spec() == a.current_handle_spec(),
        c.current_class_spec() == a.current_class_spec(),
{
}

} // verus!
