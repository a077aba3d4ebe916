//! The symbol table: symbols by position, with indexes by name and by code address.

use crate::instances::InstanceClass;
use crate::object_allocator::Handle;
use crate::symbol::{Data, Flag, Kind, Symbol};
use std::collections::HashMap;
use vstd::prelude::*;
use vstd::string::StringSliceAdditionalSpecFns;

verus! {

broadcast use vstd::std_specs::hash::group_hash_axioms;

/// Why a lookup failed, with what was looked for.
#[derive(Clone, Debug, PartialEq, Eq)]
pub enum SymTableError {
    /// No symbol has this name.
    NotFound(Vec<u8>),
    /// No function starts at this code address.
    AddressNotFound(u32),
    /// The table has no symbol at this index.
    OutOfBounds(usize),
}

/// The index that the last entry for `name` records, if any.
pub open spec fn name_index(entries: Seq<(Vec<u8>, usize)>, name: Seq<u8>) -> Option<usize>
    decreases entries.len(),
{
    if entries.len() == 0 {
        None
    } else if entries.last().0@ == name {
        Some(entries.last().1)
    } else {
        name_index(entries.drop_last(), name)
    }
}

/// Whether two byte strings are equal.
pub fn bytes_equal(a: &[u8], b: &[u8]) -> (r: bool)
    ensures
        r == (a@ == b@),
{
    if a.len() != b.len() {
        return false;
    }
    let mut i: usize = 0;
    while i < a.len()
        invariant
            a@.len() == b@.len(),
            i <= a@.len(),
            forall|k: int| 0 <= k < i ==> a@[k] == b@[k],
        decreases a@.len() - i,
    {
        if a[i] != b[i] {
            return false;
        }
        i += 1;
    }
    assert(a@ =~= b@);
    true
}


/// Everything of `b` but its data is as in `a`.
pub open spec fn same_but_data(a: Symbol, b: Symbol) -> bool {
    &&& a.name == b.name
    &&& a.properties == b.properties
    &&& a.class_member_offset == b.class_member_offset
    &&& a.class_member_array_size == b.class_member_array_size
    &&& a.instance_data_handle == b.instance_data_handle
    &&& a.instance_data_class == b.instance_data_class
    &&& a.parent == b.parent
    &&& a.address == b.address
}

/// The integer element `k` of a symbol, if it has one.
pub open spec fn int_at(s: Symbol, k: int) -> Option<u32> {
    match s.data {
        Some(Data::IntSequence(v)) => if 0 <= k < v@.len() {
            Some(v@[k])
        } else {
            None
        },
        _ => None,
    }
}

/// The float element `k` of a symbol, as its bit pattern, if it has one.
pub open spec fn float_at(s: Symbol, k: int) -> Option<u32> {
    match s.data {
        Some(Data::FloatSequence(v)) => if 0 <= k < v@.len() {
            Some(v@[k])
        } else {
            None
        },
        _ => None,
    }
}

/// The string element `k` of a symbol, if it has one.
pub open spec fn string_at(s: Symbol, k: int) -> Option<Seq<u8>> {
    match s.data {
        Some(Data::Strings(v)) => if 0 <= k < v@.len() {
            Some(v@[k]@)
        } else {
            None
        },
        _ => None,
    }
}

/// `b` is `a` with integer element `k` set to `val`, where `a` has that element;
/// otherwise `b` is `a`.
pub open spec fn int_written(a: Symbol, b: Symbol, k: int, val: u32) -> bool {
    if int_at(a, k) is Some {
        &&& same_but_data(a, b)
        &&& b.data matches Some(Data::IntSequence(w))
        &&& a.data matches Some(Data::IntSequence(v))
        &&& w@ == v@.update(k, val)
    } else {
        a == b
    }
}

/// `b` is `a` with float element `k` set to the bit pattern `bits`, where `a` has that
/// element; otherwise `b` is `a`.
pub open spec fn float_written(a: Symbol, b: Symbol, k: int, bits: u32) -> bool {
    if float_at(a, k) is Some {
        &&& same_but_data(a, b)
        &&& b.data matches Some(Data::FloatSequence(w))
        &&& a.data matches Some(Data::FloatSequence(v))
        &&& w@ == v@.update(k, bits)
    } else {
        a == b
    }
}

/// `b` is `a` with string element `k` set to `text`, where `a` has that element;
/// otherwise `b` is `a`.
pub open spec fn string_written(a: Symbol, b: Symbol, k: int, text: Seq<u8>) -> bool {
    if string_at(a, k) is Some {
        &&& same_but_data(a, b)
        &&& b.data matches Some(Data::Strings(w))
        &&& a.data matches Some(Data::Strings(v))
        &&& w@.len() == v@.len()
        &&& w@[k]@ == text
        &&& forall|j: int| 0 <= j < v@.len() && j != k ==> #[trigger] w@[j] == v@[j]
    } else {
        a == b
    }
}

/// Whether the symbol at `index` is an instance whose class, seen through at most
/// one prototype, is the symbol at `base`.
pub open spec fn instance_of_class(symbols: Seq<Symbol>, index: int, base: int) -> bool {
    let s = symbols[index];
    &&& s.kind_spec() == Some(Kind::Instance)
    &&& s.parent is Some
    &&& {
        let p = s.parent.unwrap() as int;
        &&& p < symbols.len()
        &&& base == if symbols[p].kind_spec() == Some(Kind::Prototype)
            && symbols[p].parent is Some {
            symbols[p].parent.unwrap() as int
        } else {
            p
        }
    }
}

/// Appending an entry to the name index makes it the answer for its name and leaves
/// the others.
pub proof fn lemma_name_index_push(entries: Seq<(Vec<u8>, usize)>, e: (Vec<u8>, usize), n: Seq<u8>)
    ensures
        name_index(entries.push(e), n) == if e.0@ == n {
            Some(e.1)
        } else {
            name_index(entries, n)
        },
{
    assert(entries.push(e).drop_last() =~= entries);
}

/// The symbols of a script file, in file order, with their side indexes.
#[derive(Debug)]
pub struct SymTable {
    sort_table: Vec<u32>,
    symbols: Vec<Symbol>,
    symbols_by_name: Vec<(Vec<u8>, usize)>,
    functions_by_address: HashMap<u32, usize>,
}

impl SymTable {
    pub closed spec fn symbols_spec(&self) -> Seq<Symbol> {
        self.symbols@
    }

    pub closed spec fn sort_table_spec(&self) -> Seq<u32> {
        self.sort_table@
    }

    /// The index that a lookup by `name` gives.
    pub closed spec fn name_lookup(&self, name: Seq<u8>) -> Option<usize> {
        name_index(self.symbols_by_name@, name)
    }

    /// The index that a lookup by code `address` gives.
    pub closed spec fn address_lookup(&self, address: u32) -> Option<usize> {
        if self.functions_by_address@.contains_key(address) {
            Some(self.functions_by_address@[address])
        } else {
            None
        }
    }

    pub open spec fn len_spec(&self) -> nat {
        self.symbols_spec().len()
    }

    /// Every named symbol is found by its name, at its own index or at a later one
    /// with the same name (the last one entered wins).
    pub open spec fn names_indexed(&self) -> bool {
        forall|i: int|
            0 <= i < self.len_spec() && (#[trigger] self.symbols_spec()[i]).is_named() ==> {
                let j = self.name_lookup(self.symbols_spec()[i].name@);
                &&& j is Some
                &&& i <= j.unwrap() < self.len_spec()
                &&& self.symbols_spec()[j.unwrap() as int].name@ == self.symbols_spec()[i].name@
            }
    }

    /// Every constant function or prototype with an address is found by that address, at
    /// its own index or at a later one with the same address.
    pub open spec fn addresses_indexed(&self) -> bool {
        forall|i: int|
            0 <= i < self.len_spec() && (#[trigger] self.symbols_spec()[i]).is_const_function()
                && self.symbols_spec()[i].address is Some ==> {
                let a = self.symbols_spec()[i].address.unwrap();
                let j = self.address_lookup(a);
                &&& j is Some
                &&& i <= j.unwrap() < self.len_spec()
                &&& self.symbols_spec()[j.unwrap() as int].address == Some(a)
            }
    }

    /// Every lookup result is a position of the table.
    pub open spec fn lookups_in_bounds(&self) -> bool {
        &&& forall|n: Seq<u8>| #[trigger]
            self.name_lookup(n) is Some ==> self.name_lookup(n).unwrap() < self.len_spec()
        &&& forall|a: u32| #[trigger]
            self.address_lookup(a) is Some ==> self.address_lookup(a).unwrap() < self.len_spec()
    }

    pub open spec fn wf(&self) -> bool {
        self.names_indexed() && self.lookups_in_bounds()
    }

    pub fn new() -> (r: SymTable)
        ensures
            r.symbols_spec() == Seq::<Symbol>::empty(),
            r.sort_table_spec() == Seq::<u32>::empty(),
            r.wf(),
            r.addresses_indexed(),
            forall|n: Seq<u8>| r.name_lookup(n) is None,
            forall|a: u32| r.address_lookup(a) is None,
    {
        SymTable {
            sort_table: Vec::new(),
            symbols: Vec::new(),
            symbols_by_name: Vec::new(),
            functions_by_address: HashMap::new(),
        }
    }

    /// An empty table with room for `symbol_count` symbols.
    pub fn with_capacity(symbol_count: usize) -> (r: SymTable)
        ensures
            r.symbols_spec() == Seq::<Symbol>::empty(),
            r.sort_table_spec() == Seq::<u32>::empty(),
            r.wf(),
            r.addresses_indexed(),
            forall|n: Seq<u8>| r.name_lookup(n) is None,
            forall|a: u32| r.address_lookup(a) is None,
    {
        SymTable {
            sort_table: Vec::with_capacity(symbol_count),
            symbols: Vec::with_capacity(symbol_count),
            symbols_by_name: Vec::with_capacity(symbol_count),
            functions_by_address: HashMap::with_capacity(symbol_count),
        }
    }

    pub fn len(&self) -> (r: usize)
        ensures
            r == self.len_spec(),
    {
        self.symbols.len()
    }

    /// Replaces the alphabetic ordering hint.
    pub fn write_sort_table(&mut self, table: Vec<u32>)
        ensures
            final(self).sort_table_spec() == table@,
            final(self).symbols_spec() == old(self).symbols_spec(),
            forall|n: Seq<u8>| final(self).name_lookup(n) == old(self).name_lookup(n),
            forall|a: u32| final(self).address_lookup(a) == old(self).address_lookup(a),
    {
        self.sort_table = table;
    }

    pub fn get_sort_table(&self) -> (r: &Vec<u32>)
        ensures
            r@ == self.sort_table_spec(),
    {
        &self.sort_table
    }

    /// The index that the name index gives for the bytes `name`.
    pub fn find_name(&self, name: &[u8]) -> (r: Option<usize>)
        ensures
            r == self.name_lookup(name@),
    {
        let mut i = self.symbols_by_name.len();
        assert(self.symbols_by_name@.subrange(0, i as int) =~= self.symbols_by_name@);
        while i > 0
            invariant
                i <= self.symbols_by_name@.len(),
                name_index(self.symbols_by_name@, name@) == name_index(
                    self.symbols_by_name@.subrange(0, i as int),
                    name@,
                ),
            decreases i,
        {
            let ghost prefix = self.symbols_by_name@.subrange(0, i as int);
            assert(prefix.drop_last() =~= self.symbols_by_name@.subrange(0, i - 1));
            let entry = &self.symbols_by_name[i - 1];
            if bytes_equal(entry.0.as_slice(), name) {
                return Some(entry.1);
            }
            i -= 1;
        }
        None
    }

    pub fn has_symbol_name(&self, sym_name: &str) -> (r: bool)
        ensures
            r == (self.name_lookup(sym_name.spec_bytes()) is Some),
    {
        self.find_name(sym_name.as_bytes()).is_some()
    }

    pub fn get_symbol_index_by_name(&self, sym_name: &str) -> (r: Result<usize, SymTableError>)
        ensures
            match self.name_lookup(sym_name.spec_bytes()) {
                Some(i) => r == Ok::<usize, SymTableError>(i),
                None => r matches Err(SymTableError::NotFound(n)) && n@ == sym_name.spec_bytes(),
            },
    {
        match self.find_name(sym_name.as_bytes()) {
            Some(i) => Ok(i),
            None => Err(SymTableError::NotFound(copy_bytes(sym_name.as_bytes()))),
        }
    }

    pub fn get_symbol_by_name(&self, sym_name: &str) -> (r: Result<&Symbol, SymTableError>)
        requires
            self.wf(),
        ensures
            match self.name_lookup(sym_name.spec_bytes()) {
                Some(i) => r == Ok::<&Symbol, SymTableError>(&self.symbols_spec()[i as int]),
                None => r matches Err(SymTableError::NotFound(n)) && n@ == sym_name.spec_bytes(),
            },
    {
        match self.find_name(sym_name.as_bytes()) {
            Some(i) => Ok(&self.symbols[i]),
            None => Err(SymTableError::NotFound(copy_bytes(sym_name.as_bytes()))),
        }
    }

    pub fn get_symbol_by_index(&self, index: usize) -> (r: Result<&Symbol, SymTableError>)
        ensures
            r == if index < self.len_spec() {
                Ok::<&Symbol, SymTableError>(&self.symbols_spec()[index as int])
            } else {
                Err(SymTableError::OutOfBounds(index))
            },
    {
        if index < self.symbols.len() {
            Ok(&self.symbols[index])
        } else {
            Err(SymTableError::OutOfBounds(index))
        }
    }

    pub fn get_function_index_by_address(&self, address: u32) -> (r: Result<usize, SymTableError>)
        ensures
            r == match self.address_lookup(address) {
                Some(i) => Ok::<usize, SymTableError>(i),
                None => Err(SymTableError::AddressNotFound(address)),
            },
    {
        match self.functions_by_address.get(&address) {
            Some(i) => Ok(*i),
            None => Err(SymTableError::AddressNotFound(address)),
        }
    }
    /// Enters `symbol` in the side indexes under position `index`.
    fn index_symbol(&mut self, index: usize, symbol: &Symbol)
        ensures
            final(self).symbols@ == old(self).symbols@,
            final(self).sort_table@ == old(self).sort_table@,
            forall|n: Seq<u8>| #[trigger]
                final(self).name_lookup(n) == if symbol.is_named() && symbol.name@ == n {
                    Some(index)
                } else {
                    old(self).name_lookup(n)
                },
            forall|a: u32| #[trigger]
                final(self).address_lookup(a) == if symbol.is_const_function()
                    && symbol.address == Some(a) {
                    Some(index)
                } else {
                    old(self).address_lookup(a)
                },
    {
        let ghost names = self.symbols_by_name@;
        if symbol.name.len() > 0 {
            let entry = (copy_bytes(symbol.name.as_slice()), index);
            self.symbols_by_name.push(entry);
            proof {
                assert forall|n: Seq<u8>| #[trigger] self.name_lookup(n) == if symbol.name@ == n {
                    Some(index)
                } else {
                    name_index(names, n)
                } by {
                    lemma_name_index_push(names, entry, n);
                }
            }
        }
        let is_function = match symbol.properties.get_kind() {
            Some(Kind::Func) | Some(Kind::Prototype) => true,
            _ => false,
        };
        if is_function && symbol.properties.has_flag(Flag::Const) && !symbol.properties.has_flag(
            Flag::ClassVar,
        ) {
            if let Some(a) = symbol.address {
                self.functions_by_address.insert(a, index);
            }
        }
    }

    /// Appends `symbol` and enters it in the side indexes; returns its index.
    pub fn push(&mut self, symbol: Symbol) -> (r: usize)
        requires
            old(self).len_spec() < usize::MAX,
        ensures
            r == old(self).len_spec(),
            final(self).symbols_spec() == old(self).symbols_spec().push(symbol),
            final(self).sort_table_spec() == old(self).sort_table_spec(),
            forall|n: Seq<u8>| #[trigger]
                final(self).name_lookup(n) == if symbol.is_named() && symbol.name@ == n {
                    Some(r)
                } else {
                    old(self).name_lookup(n)
                },
            forall|a: u32| #[trigger]
                final(self).address_lookup(a) == if symbol.is_const_function()
                    && symbol.address == Some(a) {
                    Some(r)
                } else {
                    old(self).address_lookup(a)
                },
            old(self).wf() ==> final(self).wf(),
            old(self).wf() && old(self).addresses_indexed() ==> final(self).addresses_indexed(),
    {
        let index = self.symbols.len();
        self.index_symbol(index, &symbol);
        let ghost mid = *self;
        self.symbols.push(symbol);
        proof {
            assert forall|n: Seq<u8>| #[trigger] self.name_lookup(n) == mid.name_lookup(n) by {}
            assert forall|a: u32| #[trigger] self.address_lookup(a) == mid.address_lookup(a) by {}
            self.lemma_appended(*old(self), symbol);
        }
        index
    }

    /// Inserts `symbol` at `index`, shifting later symbols up, and enters it in the side
    /// indexes under `index`. The indexes are not corrected for the shifted symbols, so
    /// only an insertion at the end keeps the table well formed.
    pub fn insert(&mut self, index: usize, symbol: Symbol) -> (r: usize)
        requires
            index <= old(self).len_spec(),
            old(self).len_spec() < usize::MAX,
        ensures
            r == final(self).len_spec(),
            final(self).symbols_spec() == old(self).symbols_spec().insert(index as int, symbol),
            final(self).sort_table_spec() == old(self).sort_table_spec(),
            forall|n: Seq<u8>| #[trigger]
                final(self).name_lookup(n) == if symbol.is_named() && symbol.name@ == n {
                    Some(index)
                } else {
                    old(self).name_lookup(n)
                },
            forall|a: u32| #[trigger]
                final(self).address_lookup(a) == if symbol.is_const_function()
                    && symbol.address == Some(a) {
                    Some(index)
                } else {
                    old(self).address_lookup(a)
                },
            old(self).wf() && index == old(self).len_spec() ==> final(self).wf(),
            old(self).wf() && old(self).addresses_indexed() && index == old(self).len_spec()
                ==> final(self).addresses_indexed(),
    {
        self.index_symbol(index, &symbol);
        let ghost mid = *self;
        self.symbols.insert(index, symbol);
        proof {
            assert forall|n: Seq<u8>| #[trigger] self.name_lookup(n) == mid.name_lookup(n) by {}
            assert forall|a: u32| #[trigger] self.address_lookup(a) == mid.address_lookup(a) by {}
            if index == old(self).symbols@.len() {
                assert(old(self).symbols@.insert(index as int, symbol) =~= old(self).symbols@.push(symbol));
                self.lemma_appended(*old(self), symbol);
            }
        }
        self.symbols.len()
    }

    /// The indices of the instances of the class named `class_name`, in ascending order.
    /// An instance belongs to the class it names as parent, or to the class of the
    /// prototype it names as parent.
    pub fn iterate_symbols_of_class(&self, class_name: &str) -> (r: Result<Vec<usize>, SymTableError>)
        ensures
            self.name_lookup(class_name.spec_bytes()) is None ==> (r matches Err(SymTableError::NotFound(n))
                && n@ == class_name.spec_bytes()),
            self.name_lookup(class_name.spec_bytes()) matches Some(base) ==> r matches Ok(v) && {
                &&& forall|k: int| 0 <= k < v@.len() ==> #[trigger] v@[k] < self.len_spec()
                    && instance_of_class(self.symbols_spec(), v@[k] as int, base as int)
                &&& forall|k: int, l: int| 0 <= k < l < v@.len() ==> v@[k] < v@[l]
                &&& forall|i: int|
                    0 <= i < self.len_spec() && instance_of_class(
                        self.symbols_spec(),
                        i,
                        base as int,
                    ) ==> #[trigger] v@.contains(i as usize)
            },
    {
        let base = match self.find_name(class_name.as_bytes()) {
            Some(b) => b,
            None => return Err(SymTableError::NotFound(copy_bytes(class_name.as_bytes()))),
        };
        let mut out: Vec<usize> = Vec::new();
        let mut i: usize = 0;
        while i < self.symbols.len()
            invariant
                i <= self.symbols@.len(),
                forall|k: int| 0 <= k < out@.len() ==> #[trigger] out@[k] < i
                    && instance_of_class(self.symbols@, out@[k] as int, base as int),
                forall|k: int, l: int| 0 <= k < l < out@.len() ==> out@[k] < out@[l],
                forall|j: int|
                    0 <= j < i && instance_of_class(self.symbols@, j, base as int)
                        ==> #[trigger] out@.contains(j as usize),
            decreases self.symbols@.len() - i,
        {
            let s = &self.symbols[i];
            let mut hit = false;
            if let Some(Kind::Instance) = s.properties.get_kind() {
                if let Some(p) = s.parent {
                    let p = p as usize;
                    if p < self.symbols.len() {
                        let parent = &self.symbols[p];
                        let parent_base = match (parent.properties.get_kind(), parent.parent) {
                            (Some(Kind::Prototype), Some(pp)) => pp as usize,
                            _ => p,
                        };
                        hit = parent_base == base;
                    }
                }
            }
            let ghost before = out@;
            if hit {
                out.push(i);
                proof {
                    assert(out@.last() == i);
                    assert forall|j: int|
                        0 <= j < i + 1 && instance_of_class(self.symbols@, j, base as int)
                            implies #[trigger] out@.contains(j as usize) by {
                        if j < i {
                            assert(before.contains(j as usize));
                            let k = choose|k: int| 0 <= k < before.len() && before[k] == j as usize;
                            assert(out@[k] == j as usize);
                        } else {
                            assert(out@[out@.len() - 1] == j as usize);
                        }
                    }
                }
            } else {
                assert(!instance_of_class(self.symbols@, i as int, base as int));
            }
            i += 1;
        }
        Ok(out)
    }

    /// Records the host-side layout binding on the symbol named `sym_name`; false where
    /// no symbol has that name.
    pub fn register_class_member(&mut self, sym_name: &str, offset: i32, array_size: i32) -> (r: bool)
        requires
            old(self).wf(),
        ensures
            r == (old(self).name_lookup(sym_name.spec_bytes()) is Some),
            final(self).wf(),
            final(self).sort_table_spec() == old(self).sort_table_spec(),
            forall|n: Seq<u8>| final(self).name_lookup(n) == old(self).name_lookup(n),
            forall|a: u32| final(self).address_lookup(a) == old(self).address_lookup(a),
            !r ==> final(self).symbols_spec() == old(self).symbols_spec(),
            r ==> {
                let i = old(self).name_lookup(sym_name.spec_bytes()).unwrap() as int;
                final(self).symbols_spec() == old(self).symbols_spec().update(
                    i,
                    Symbol {
                        class_member_offset: crate::symbol::nonzero_i32(offset),
                        class_member_array_size: crate::symbol::nonzero_i32(array_size),
                        ..old(self).symbols_spec()[i]
                    },
                )
            },
    {
        match self.find_name(sym_name.as_bytes()) {
            Some(i) => {
                self.symbols[i].set_class_member(offset, array_size);
                proof {
                    if old(self).wf() {
                        self.lemma_names_kept(*old(self));
                    }
                }
                true
            },
            None => false,
        }
    }

    /// After `symbol` was appended to `before` and entered in the indexes under its
    /// position, the indexes answer as `push` promises.
    proof fn lemma_appended(&self, before: SymTable, symbol: Symbol)
        requires
            before.symbols@.len() < usize::MAX,
            self.symbols@ == before.symbols@.push(symbol),
            forall|n: Seq<u8>| #[trigger]
                self.name_lookup(n) == if symbol.is_named() && symbol.name@ == n {
                    Some(before.symbols@.len() as usize)
                } else {
                    before.name_lookup(n)
                },
            forall|a: u32| #[trigger]
                self.address_lookup(a) == if symbol.is_const_function()
                    && symbol.address == Some(a) {
                    Some(before.symbols@.len() as usize)
                } else {
                    before.address_lookup(a)
                },
        ensures
            before.wf() ==> self.wf(),
            before.wf() && before.addresses_indexed() ==> self.addresses_indexed(),
    {
        let n = before.symbols@.len();
        assert(forall|i: int| 0 <= i < n ==> self.symbols@[i] == before.symbols@[i]);
        assert(self.symbols@[n as int] == symbol);
        if before.wf() {
            assert forall|i: int|
                0 <= i < self.len_spec() && (#[trigger] self.symbols_spec()[i]).is_named() implies {
                    let j = self.name_lookup(self.symbols_spec()[i].name@);
                    &&& j is Some
                    &&& i <= j.unwrap() < self.len_spec()
                    &&& self.symbols_spec()[j.unwrap() as int].name@ == self.symbols_spec()[i].name@
                } by {
                let nm = self.symbols_spec()[i].name@;
                if i < n {
                    assert(before.symbols_spec()[i].is_named());
                    assert(self.name_lookup(nm) == if symbol.is_named() && symbol.name@ == nm {
                        Some(n as usize)
                    } else {
                        before.name_lookup(nm)
                    });
                }
            }
            assert forall|x: Seq<u8>| #[trigger] self.name_lookup(x) is Some implies self.name_lookup(x).unwrap() < self.len_spec() by {
                assert(self.name_lookup(x) == if symbol.is_named() && symbol.name@ == x {
                    Some(n as usize)
                } else {
                    before.name_lookup(x)
                });
            }
            assert forall|x: u32| #[trigger] self.address_lookup(x) is Some implies self.address_lookup(x).unwrap() < self.len_spec() by {
                assert(self.address_lookup(x) == if symbol.is_const_function() && symbol.address == Some(x) {
                    Some(n as usize)
                } else {
                    before.address_lookup(x)
                });
            }
            if before.addresses_indexed() {
                assert forall|i: int|
                    0 <= i < self.len_spec() && (#[trigger] self.symbols_spec()[i]).is_const_function()
                        && self.symbols_spec()[i].address is Some implies {
                        let a = self.symbols_spec()[i].address.unwrap();
                        let j = self.address_lookup(a);
                        &&& j is Some
                        &&& i <= j.unwrap() < self.len_spec()
                        &&& self.symbols_spec()[j.unwrap() as int].address == Some(a)
                    } by {
                    let a = self.symbols_spec()[i].address.unwrap();
                    if i < n {
                        assert(before.symbols_spec()[i].is_const_function());
                        assert(self.address_lookup(a) == if symbol.is_const_function() && symbol.address == Some(a) {
                            Some(n as usize)
                        } else {
                            before.address_lookup(a)
                        });
                    }
                }
            }
        }
    }

    /// Where only data, addresses or instance bindings changed, the name index still holds.
    proof fn lemma_names_kept(&self, before: SymTable)
        requires
            before.wf(),
            self.symbols_by_name == before.symbols_by_name,
            self.functions_by_address == before.functions_by_address,
            self.symbols@.len() == before.symbols@.len(),
            forall|i: int| 0 <= i < self.symbols@.len() ==> #[trigger] self.symbols@[i].name
                == before.symbols@[i].name,
        ensures
            self.wf(),
    {
        assert forall|i: int|
            0 <= i < self.len_spec() && (#[trigger] self.symbols_spec()[i]).is_named() implies {
                let j = self.name_lookup(self.symbols_spec()[i].name@);
                &&& j is Some
                &&& i <= j.unwrap() < self.len_spec()
                &&& self.symbols_spec()[j.unwrap() as int].name@ == self.symbols_spec()[i].name@
            } by {
            assert(self.symbols@[i].name == before.symbols@[i].name);
            assert(before.symbols_spec()[i].is_named());
            let j = before.name_lookup(before.symbols_spec()[i].name@).unwrap() as int;
            assert(self.symbols@[j].name == before.symbols@[j].name);
        }
        assert forall|x: Seq<u8>| #[trigger] self.name_lookup(x) is Some implies self.name_lookup(x).unwrap() < self.len_spec() by {
            assert(before.name_lookup(x) is Some);
        }
        assert forall|x: u32| #[trigger] self.address_lookup(x) is Some implies self.address_lookup(x).unwrap() < self.len_spec() by {
            assert(before.address_lookup(x) is Some);
        }
    }

    /// Sets the code address of the symbol at `index`; zero clears it.
    pub fn set_address(&mut self, index: usize, address: u32)
        ensures
            old(self).wf() ==> final(self).wf(),
            final(self).sort_table_spec() == old(self).sort_table_spec(),
            forall|n: Seq<u8>| final(self).name_lookup(n) == old(self).name_lookup(n),
            forall|a: u32| final(self).address_lookup(a) == old(self).address_lookup(a),
            index >= old(self).len_spec() ==> final(self).symbols_spec() == old(self).symbols_spec(),
            index < old(self).len_spec() ==> final(self).symbols_spec() == old(self).symbols_spec().update(
                index as int,
                Symbol { address: crate::symbol::nonzero_u32(address), ..old(self).symbols_spec()[index as int] },
            ),
    {
        if index < self.symbols.len() {
            self.symbols[index].set_address(address);
            proof {
                    if old(self).wf() {
                        self.lemma_names_kept(*old(self));
                    }
                }
        }
    }

    /// Binds the symbol at `index` to an instance record.
    pub fn set_instance_data(&mut self, index: usize, handle: Handle, class: InstanceClass)
        ensures
            old(self).wf() ==> final(self).wf(),
            final(self).sort_table_spec() == old(self).sort_table_spec(),
            forall|n: Seq<u8>| final(self).name_lookup(n) == old(self).name_lookup(n),
            forall|a: u32| final(self).address_lookup(a) == old(self).address_lookup(a),
            index >= old(self).len_spec() ==> final(self).symbols_spec() == old(self).symbols_spec(),
            index < old(self).len_spec() ==> final(self).symbols_spec() == old(self).symbols_spec().update(
                index as int,
                Symbol {
                    instance_data_handle: handle,
                    instance_data_class: Some(class),
                    ..old(self).symbols_spec()[index as int]
                },
            ),
    {
        if index < self.symbols.len() {
            self.symbols[index].instance_data_handle = handle;
            self.symbols[index].instance_data_class = Some(class);
            proof {
                    if old(self).wf() {
                        self.lemma_names_kept(*old(self));
                    }
                }
        }
    }

    /// Writes integer element `k` of the symbol at `index`, where it has one.
    pub fn set_int(&mut self, index: usize, k: usize, val: u32)
        ensures
            old(self).wf() ==> final(self).wf(),
            final(self).sort_table_spec() == old(self).sort_table_spec(),
            forall|n: Seq<u8>| final(self).name_lookup(n) == old(self).name_lookup(n),
            forall|a: u32| final(self).address_lookup(a) == old(self).address_lookup(a),
            final(self).len_spec() == old(self).len_spec(),
            forall|j: int| 0 <= j < old(self).len_spec() && j != index ==>
                #[trigger] final(self).symbols_spec()[j] == old(self).symbols_spec()[j],
            index < old(self).len_spec() ==> int_written(
                old(self).symbols_spec()[index as int],
                final(self).symbols_spec()[index as int],
                k as int,
                val,
            ),
    {
        if index < self.symbols.len() {
            match &mut self.symbols[index].data {
                Some(Data::IntSequence(v)) => {
                    if k < v.len() {
                        v[k] = val;
                    }
                },
                _ => {},
            }
            proof {
                    if old(self).wf() {
                        self.lemma_names_kept(*old(self));
                    }
                }
        }
    }

    /// Writes float element `k` (a bit pattern) of the symbol at `index`, where it has one.
    pub fn set_float(&mut self, index: usize, k: usize, bits: u32)
        ensures
            old(self).wf() ==> final(self).wf(),
            final(self).sort_table_spec() == old(self).sort_table_spec(),
            forall|n: Seq<u8>| final(self).name_lookup(n) == old(self).name_lookup(n),
            forall|a: u32| final(self).address_lookup(a) == old(self).address_lookup(a),
            final(self).len_spec() == old(self).len_spec(),
            forall|j: int| 0 <= j < old(self).len_spec() && j != index ==>
                #[trigger] final(self).symbols_spec()[j] == old(self).symbols_spec()[j],
            index < old(self).len_spec() ==> float_written(
                old(self).symbols_spec()[index as int],
                final(self).symbols_spec()[index as int],
                k as int,
                bits,
            ),
    {
        if index < self.symbols.len() {
            match &mut self.symbols[index].data {
                Some(Data::FloatSequence(v)) => {
                    if k < v.len() {
                        v[k] = bits;
                    }
                },
                _ => {},
            }
            proof {
                    if old(self).wf() {
                        self.lemma_names_kept(*old(self));
                    }
                }
        }
    }

    /// Writes string element `k` of the symbol at `index`, where it has one.
    pub fn set_string(&mut self, index: usize, k: usize, text: Vec<u8>)
        ensures
            old(self).wf() ==> final(self).wf(),
            final(self).sort_table_spec() == old(self).sort_table_spec(),
            forall|n: Seq<u8>| final(self).name_lookup(n) == old(self).name_lookup(n),
            forall|a: u32| final(self).address_lookup(a) == old(self).address_lookup(a),
            final(self).len_spec() == old(self).len_spec(),
            forall|j: int| 0 <= j < old(self).len_spec() && j != index ==>
                #[trigger] final(self).symbols_spec()[j] == old(self).symbols_spec()[j],
            index < old(self).len_spec() ==> string_written(
                old(self).symbols_spec()[index as int],
                final(self).symbols_spec()[index as int],
                k as int,
                text@,
            ),
    {
        if index < self.symbols.len() {
            match &mut self.symbols[index].data {
                Some(Data::Strings(v)) => {
                    if k < v.len() {
                        v[k] = text;
                    }
                },
                _ => {},
            }
            proof {
                    if old(self).wf() {
                        self.lemma_names_kept(*old(self));
                    }
                }
        }
    }
}

/// A copy of a byte string.
pub fn copy_bytes(b: &[u8]) -> (r: Vec<u8>)
    ensures
        r@ == b@,
{
    let mut out: Vec<u8> = Vec::with_capacity(b.len());
    let mut i: usize = 0;
    while i < b.len()
        invariant
            i <= b@.len(),
            out@ == b@.subrange(0, i as int),
        decreases b@.len() - i,
    {
        out.push(b[i]);
        i += 1;
        assert(out@ =~= b@.subrange(0, i as int));
    }
    assert(b@.subrange(0, b@.len() as int) =~= b@);
    out
}

/// A named symbol that shares its name with no other symbol is found by its name at its
/// own index.
pub proof fn lemma_unique_name_found(t: &SymTable, i: int)
    requires
        t.wf(),
        0 <= i < t.len_spec(),
        t.symbols_spec()[i].is_named(),
        forall|j: int| 0 <= j < t.len_spec() && j != i ==> (#[trigger] t.symbols_spec()[j]).name@ != t.symbols_spec()[i].name@,
    ensures
        t.name_lookup(t.symbols_spec()[i].name@) == Some(i as usize),
{
    let j = t.name_lookup(t.symbols_spec()[i].name@).unwrap() as int;
    assert(t.symbols_spec()[j].name@ == t.symbols_spec()[i].name@);
}

/// A constant function or prototype whose address no other symbol has is found by that
/// address at its own index.
pub proof fn lemma_unique_address_found(t: &SymTable, i: int)
    requires
        t.addresses_indexed(),
        0 <= i < t.len_spec(),
        t.symbols_spec()[i].is_const_function(),
        t.symbols_spec()[i].address is Some,
        forall|j: int| 0 <= j < t.len_spec() && j != i ==> (#[trigger] t.symbols_spec()[j]).address != t.symbols_spec()[i].address,
    ensures
        t.address_lookup(t.symbols_spec()[i].address.unwrap()) == Some(i as usize),
{
    let j = t.address_lookup(t.symbols_spec()[i].address.unwrap()).unwrap() as int;
    assert(t.symbols_spec()[j].address == t.symbols_spec()[i].address);
}

} // verus!
