//! Loading a compiled script file: header, symbol records and the code segment.

use crate::bits::{read_i32, read_u32, u32_at};
use crate::opcode::{decode, decode_spec, DecodeError, StackOpCode};
use crate::sym_table::SymTable;
use crate::object_allocator::Handle;
use crate::symbol::{nonzero_i32, nonzero_u32, Data, Flag, Kind, Properties, Symbol, SymbolBuilder};
use vstd::prelude::*;

verus! {

/// Offset and size of the code segment in the file.
#[derive(Clone, Copy, Debug, PartialEq, Eq, Structural, Default)]
pub struct Stack {
    pub offset: usize,
    pub size: usize,
}

/// Why a file could not be loaded.
#[derive(Clone, Copy, Debug, PartialEq, Eq, Structural)]
pub enum LoadError {
    /// The file ends early, or holds a value that cannot stand where it does; the byte
    /// offset of the offending read. (A variable or constant of a data kind always gets
    /// its data from its record, so a missing payload shows as a file that ends early.)
    Malformed(usize),
}

/// `s` without its 0xFF bytes.
pub open spec fn strip_ff(s: Seq<u8>) -> Seq<u8>
    decreases s.len(),
{
    if s.len() == 0 {
        s
    } else if s.last() == 0xffu8 {
        strip_ff(s.drop_last())
    } else {
        strip_ff(s.drop_last()).push(s.last())
    }
}

/// Whether no line feed stands in `bytes[from..to]`.
pub open spec fn no_newline(bytes: Seq<u8>, from: int, to: int) -> bool {
    forall|j: int| from <= j < to ==> #[trigger] bytes[j] != 0x0au8
}

/// Reads a string that ends with a line feed, dropping 0xFF bytes. Returns the string
/// and the position after the line feed, or `None` where no line feed follows `pos`.
pub fn read_line(bytes: &[u8], pos: usize) -> (r: Option<(Vec<u8>, usize)>)
    ensures
        r matches Some((s, end)) ==> {
            &&& pos < end <= bytes@.len()
            &&& bytes@[end - 1] == 0x0au8
            &&& no_newline(bytes@, pos as int, end - 1)
            &&& s@ == strip_ff(bytes@.subrange(pos as int, end - 1))
        },
        r is None ==> no_newline(bytes@, pos as int, bytes@.len() as int),
        r matches Some((s, end)) ==> line_at(bytes@, pos as int) == Some((s@, end as int)),
        r is None ==> line_at(bytes@, pos as int) is None,
{
    let mut out: Vec<u8> = Vec::new();
    let mut i: usize = pos;
    if pos >= bytes.len() {
        assert(no_newline(bytes@, pos as int, bytes@.len() as int));
        return None;
    }
    assert(bytes@.subrange(pos as int, pos as int) =~= Seq::<u8>::empty());
    while i < bytes.len()
        invariant
            pos <= i <= bytes@.len(),
            no_newline(bytes@, pos as int, i as int),
            out@ == strip_ff(bytes@.subrange(pos as int, i as int)),
        decreases bytes@.len() - i,
    {
        let b = bytes[i];
        if b == 0x0a {
            proof {
                lemma_newline_skip(bytes@, pos as int, i as int);
            }
            return Some((out, i + 1));
        }
        proof {
            assert(bytes@.subrange(pos as int, i + 1).drop_last() =~= bytes@.subrange(pos as int, i as int));
        }
        if b != 0xff {
            out.push(b);
        }
        i += 1;
    }
    proof {
        lemma_newline_skip(bytes@, pos as int, i as int);
    }
    None
}

/// The position of the first line feed at or after `p`.
pub open spec fn newline_from(bytes: Seq<u8>, p: int) -> Option<int>
    decreases bytes.len() - p,
{
    if p < 0 || p >= bytes.len() {
        None
    } else if bytes[p] == 0x0au8 {
        Some(p)
    } else {
        newline_from(bytes, p + 1)
    }
}

/// The string that starts at `p` and ends with a line feed, without its 0xFF bytes, and
/// the position after the line feed.
pub open spec fn line_at(bytes: Seq<u8>, p: int) -> Option<(Seq<u8>, int)> {
    match newline_from(bytes, p) {
        Some(e) => Some((strip_ff(bytes.subrange(p, e)), e + 1)),
        None => None,
    }
}

/// `n` such strings one after the other, from `p` on, and the position after the last.
pub open spec fn lines_at(bytes: Seq<u8>, p: int, n: nat) -> Option<(Seq<Seq<u8>>, int)>
    decreases n,
{
    if n == 0 {
        Some((Seq::empty(), p))
    } else {
        match lines_at(bytes, p, (n - 1) as nat) {
            Some((ls, e)) => match line_at(bytes, e) {
                Some((l, e2)) => Some((ls.push(l), e2)),
                None => None,
            },
            None => None,
        }
    }
}

/// Where a name word starts at `pos`: the name (empty when the word is zero) and the
/// position after it.
pub open spec fn name_part(bytes: Seq<u8>, pos: int) -> Option<(Seq<u8>, int)> {
    if pos < 0 || pos + 4 > bytes.len() {
        None
    } else if u32_at(bytes, pos) == 0 {
        Some((Seq::empty(), pos + 4))
    } else {
        line_at(bytes, pos + 4)
    }
}

/// The seven property words at `p`.
pub open spec fn props_at(bytes: Seq<u8>, p: int) -> Properties {
    Properties {
        off_cls_ret: u32_at(bytes, p) as i32,
        element: u32_at(bytes, p + 4),
        file_index: u32_at(bytes, p + 8),
        line_start: u32_at(bytes, p + 12),
        line_count: u32_at(bytes, p + 16),
        char_start: u32_at(bytes, p + 20),
        char_count: u32_at(bytes, p + 24),
    }
}

/// Whether a record with these properties carries a payload after them.
pub open spec fn has_payload(props: Properties) -> bool {
    props.flags_spec() & crate::symbol::flag_bit(Flag::ClassVar) == 0
}

/// Where the payload that starts at `q` ends. A constant function or prototype must
/// have a nonzero address.
pub open spec fn payload_end(bytes: Seq<u8>, q: int, props: Properties) -> Option<int> {
    let count = props.count_spec();
    if !has_payload(props) {
        Some(q)
    } else {
        match props.kind_spec().unwrap() {
            Kind::Float | Kind::Int => if q + 4 * count <= bytes.len() {
                Some(q + 4 * count)
            } else {
                None
            },
            Kind::CharString => match lines_at(bytes, q, count as nat) {
                Some((_, e)) => Some(e),
                None => None,
            },
            Kind::Void => Some(q),
            _ => if q + 4 <= bytes.len() && !(props.kind_spec().unwrap().is_function_spec()
                && props.has_flag_spec(Flag::Const) && u32_at(bytes, q) == 0) {
                Some(q + 4)
            } else {
                None
            },
        }
    }
}

/// Where the symbol record that starts at `pos` ends, if it is whole and its kind valid.
pub open spec fn record_end(bytes: Seq<u8>, pos: int) -> Option<int> {
    match name_part(bytes, pos) {
        Some((_, p)) => if p + 28 > bytes.len() || props_at(bytes, p).kind_spec() is None {
            None
        } else {
            match payload_end(bytes, p + 28, props_at(bytes, p)) {
                Some(q) => if q + 4 <= bytes.len() {
                    Some(q + 4)
                } else {
                    None
                },
                None => None,
            }
        },
        None => None,
    }
}

/// Where `n` records from `start` on end.
pub open spec fn records_end(bytes: Seq<u8>, start: int, n: nat) -> Option<int>
    decreases n,
{
    if n == 0 {
        Some(start)
    } else {
        match records_end(bytes, start, (n - 1) as nat) {
            Some(e) => record_end(bytes, e),
            None => None,
        }
    }
}

/// `s` is the symbol that the whole record at `pos` describes.
pub open spec fn symbol_of_record(s: Symbol, bytes: Seq<u8>, pos: int) -> bool {
    let (name, p) = name_part(bytes, pos).unwrap();
    let props = props_at(bytes, p);
    let q = p + 28;
    let e = record_end(bytes, pos).unwrap();
    let count = props.count_spec();
    let kind = props.kind_spec().unwrap();
    &&& s.name@ == name
    &&& s.properties == props
    &&& s.parent == nonzero_u32(u32_at(bytes, e - 4))
    &&& s.instance_data_handle == (Handle { index: 0, generation: 0 })
    &&& s.instance_data_class is None
    &&& s.class_member_array_size is None
    &&& s.class_member_offset == if has_payload(props) && kind == Kind::Class {
        nonzero_i32(u32_at(bytes, q) as i32)
    } else {
        None
    }
    &&& s.address == if has_payload(props) && (kind == Kind::Func || kind == Kind::Prototype || kind == Kind::Instance) {
        nonzero_u32(u32_at(bytes, q))
    } else {
        None
    }
    &&& if has_payload(props) && kind == Kind::Int {
        s.data matches Some(Data::IntSequence(v)) && v@ == words_at(bytes, q, count as nat)
    } else if has_payload(props) && kind == Kind::Float {
        s.data matches Some(Data::FloatSequence(v)) && v@ == words_at(bytes, q, count as nat)
    } else if has_payload(props) && kind == Kind::CharString {
        s.data matches Some(Data::Strings(v)) && v@.map_values(|x: Vec<u8>| x@) == lines_at(bytes, q, count as nat).unwrap().0
    } else {
        s.data is None
    }
}

/// Whether `bytes` is a whole file: header, sort table, all records, and a code size
/// that matches the bytes after it.
pub open spec fn file_ok(bytes: Seq<u8>) -> bool {
    let count = u32_at(bytes, 1);
    let start = 5 + 4 * count;
    &&& bytes.len() >= 5
    &&& start <= bytes.len()
    &&& records_end(bytes, start, count as nat) matches Some(e) && {
        &&& e + 4 <= bytes.len()
        &&& (u32_at(bytes, e) as i32) >= 0
        &&& (u32_at(bytes, e) as i32) == bytes.len() - (e + 4)
    }
}

/// Searching for a line feed from `p` finds what searching from `e` finds, where none
/// stands between them.
proof fn lemma_newline_skip(bytes: Seq<u8>, p: int, e: int)
    requires
        0 <= p <= e,
        no_newline(bytes, p, e),
    ensures
        newline_from(bytes, p) == newline_from(bytes, e),
    decreases e - p,
{
    if p < e && p < bytes.len() {
        lemma_newline_skip(bytes, p + 1, e);
    }
}

/// Once strings run out, more of them run out too.
proof fn lemma_lines_none(bytes: Seq<u8>, p: int, k: nat, n: nat)
    requires
        k <= n,
        lines_at(bytes, p, k) is None,
    ensures
        lines_at(bytes, p, n) is None,
    decreases n - k,
{
    if k < n {
        lemma_lines_none(bytes, p, k + 1, n);
    }
}

/// The byte offset that loading reports for a record at `pos` that is not whole: where
/// the read that failed starts (for a bad kind, the element word; for a bad payload, its
/// start).
pub open spec fn record_error_offset(bytes: Seq<u8>, pos: int) -> int {
    if pos < 0 || pos + 4 > bytes.len() {
        pos
    } else if u32_at(bytes, pos) != 0 && line_at(bytes, pos + 4) is None {
        pos + 4
    } else {
        let p = name_part(bytes, pos).unwrap().1;
        if p + 28 > bytes.len() {
            p
        } else if props_at(bytes, p).kind_spec() is None {
            p + 4
        } else {
            match payload_end(bytes, p + 28, props_at(bytes, p)) {
                None => p + 28,
                Some(q) => q,
            }
        }
    }
}

/// The error offset of the first of `n` records from `start` on that is not whole, if any.
pub open spec fn records_error(bytes: Seq<u8>, start: int, n: nat) -> Option<int>
    decreases n,
{
    if n == 0 {
        None
    } else {
        match records_end(bytes, start, (n - 1) as nat) {
            None => records_error(bytes, start, (n - 1) as nat),
            Some(e) => if record_end(bytes, e) is None {
                Some(record_error_offset(bytes, e))
            } else {
                None
            },
        }
    }
}

/// The byte offset that loading reports for bytes that are not a whole file.
pub open spec fn file_error_offset(bytes: Seq<u8>) -> int {
    let count = u32_at(bytes, 1);
    let start = 5 + 4 * count;
    if bytes.len() < 5 {
        0
    } else if start > bytes.len() {
        5
    } else {
        match records_end(bytes, start, count as nat) {
            None => records_error(bytes, start, count as nat).unwrap(),
            Some(e) => e,
        }
    }
}

/// Where the first `k` records are whole but record `k` is not, the first error among
/// more records is record `k`'s.
proof fn lemma_records_error(bytes: Seq<u8>, start: int, k: nat, n: nat)
    requires
        k < n,
        records_end(bytes, start, k) is Some,
        record_end(bytes, records_end(bytes, start, k).unwrap()) is None,
    ensures
        records_error(bytes, start, n) == Some(record_error_offset(bytes, records_end(bytes, start, k).unwrap())),
        records_end(bytes, start, n) is None,
    decreases n - k,
{
    if k + 1 < n {
        lemma_records_error(bytes, start, k, (n - 1) as nat);
        lemma_records_none(bytes, start, k + 1, (n - 1) as nat);
    }
}

/// Once records run out, more of them run out too.
proof fn lemma_records_none(bytes: Seq<u8>, start: int, k: nat, n: nat)
    requires
        k <= n,
        records_end(bytes, start, k) is None,
    ensures
        records_end(bytes, start, n) is None,
    decreases n - k,
{
    if k < n {
        lemma_records_none(bytes, start, k + 1, n);
    }
}

/// The `n` little-endian words from `pos` on.
pub open spec fn words_at(bytes: Seq<u8>, pos: int, n: nat) -> Seq<u32> {
    Seq::new(n, |k: int| u32_at(bytes, pos + 4 * k))
}

/// Reads `n` little-endian words from `pos` on, or `None` where the bytes run out.
pub fn read_words(bytes: &[u8], pos: usize, n: usize) -> (r: Option<Vec<u32>>)
    ensures
        r matches Some(v) ==> pos + 4 * n <= bytes@.len() && v@ == words_at(bytes@, pos as int, n as nat),
        r is None ==> pos + 4 * n > bytes@.len(),
{
    if pos > bytes.len() || n > (bytes.len() - pos) / 4 {
        proof {
            if pos <= bytes@.len() {
                assert(pos + 4 * n > bytes@.len()) by (nonlinear_arith)
                    requires
                        n > (bytes@.len() - pos) / 4,
                        pos <= bytes@.len(),
                ;
            }
        }
        return None;
    }
    proof {
        assert(pos + 4 * n <= bytes@.len()) by (nonlinear_arith)
            requires
                n <= (bytes@.len() - pos) / 4,
                pos <= bytes@.len(),
        ;
    }
    let mut out: Vec<u32> = Vec::with_capacity(n);
    let mut k: usize = 0;
    let len = bytes.len();
    while k < n
        invariant
            len == bytes@.len(),
            k <= n,
            pos + 4 * n <= bytes@.len(),
            out@ == words_at(bytes@, pos as int, k as nat),
        decreases n - k,
    {
        let w = match read_u32(bytes, pos + 4 * k) {
            Some(w) => w,
            None => return None,
        };
        out.push(w);
        k += 1;
        assert(out@ =~= words_at(bytes@, pos as int, k as nat));
    }
    Some(out)
}

/// Reads `n` line-feed terminated strings from `pos` on, each without its 0xFF bytes.
/// Returns them and the position after the last one.
pub fn read_lines(bytes: &[u8], pos: usize, n: u32) -> (r: Option<(Vec<Vec<u8>>, usize)>)
    requires
        pos <= bytes@.len(),
    ensures
        r matches Some((v, end)) ==> v@.len() == n && pos <= end <= bytes@.len()
            && lines_at(bytes@, pos as int, n as nat) == Some((v@.map_values(|x: Vec<u8>| x@), end as int)),
        r is None ==> lines_at(bytes@, pos as int, n as nat) is None,
{
    let mut out: Vec<Vec<u8>> = Vec::new();
    let mut p = pos;
    let mut k: u32 = 0;
    assert(out@.map_values(|x: Vec<u8>| x@) =~= Seq::<Seq<u8>>::empty());
    while k < n
        invariant
            k <= n,
            out@.len() == k,
            pos <= p <= bytes@.len(),
            lines_at(bytes@, pos as int, k as nat) == Some((out@.map_values(|x: Vec<u8>| x@), p as int)),
        decreases n - k,
    {
        match read_line(bytes, p) {
            Some((s, end)) => {
                let ghost before = out@;
                out.push(s);
                p = end;
                proof {
                    assert(out@.map_values(|x: Vec<u8>| x@) =~= before.map_values(|x: Vec<u8>| x@).push(s@));
                }
            },
            None => {
                proof {
                    lemma_lines_none(bytes@, pos as int, (k + 1) as nat, n as nat);
                }
                return None;
            },
        }
        k += 1;
    }
    Some((out, p))
}

/// A loaded script file: its symbol table and its code segment.
#[derive(Debug)]
pub struct File {
    pub version: u8,
    pub sym_table: SymTable,
    pub code: Vec<u8>,
    pub stack: Stack,
}

/// Whether every symbol's data matches its kind and count.
pub open spec fn all_data_match(symbols: Seq<Symbol>) -> bool {
    forall|i: int| 0 <= i < symbols.len() ==> (#[trigger] symbols[i]).data_matches_count()
}

impl File {
    /// A file made of a symbol table and a code segment, as if loaded.
    pub fn from_parts(sym_table: SymTable, code: Vec<u8>) -> (r: File)
        ensures
            r.sym_table == sym_table,
            r.code@ == code@,
            r.stack == (Stack { offset: 0, size: code@.len() as usize }),
            r.version == 0,
    {
        let size = code.len();
        File { version: 0, sym_table, code, stack: Stack { offset: 0, size } }
    }

    /// Reads the symbol record at `pos`; returns the symbol and the position after it.
    #[verifier::truncate]
    fn read_symbol(bytes: &[u8], pos: usize) -> (r: Result<(Symbol, usize), LoadError>)
        ensures
            r is Ok <==> record_end(bytes@, pos as int) is Some,
            r is Err ==> r == Err::<(Symbol, usize), LoadError>(LoadError::Malformed(record_error_offset(bytes@, pos as int) as usize)),
            r matches Ok((s, end)) ==> {
                &&& end == record_end(bytes@, pos as int).unwrap()
                &&& pos < end <= bytes@.len()
                &&& symbol_of_record(s, bytes@, pos as int)
                &&& s.data_matches_count()
                &&& (s.is_const_function() ==> s.address is Some)
            },
    {
        let len = bytes.len();
        if pos >= len {
            return Err(LoadError::Malformed(pos));
        }
        let has_name = match read_u32(bytes, pos) {
            Some(w) => w,
            None => return Err(LoadError::Malformed(pos)),
        };
        let mut p = pos + 4;
        let name = if has_name != 0 {
            match read_line(bytes, p) {
                Some((s, end)) => {
                    p = end;
                    s
                },
                None => return Err(LoadError::Malformed(p)),
            }
        } else {
            let v = Vec::new();
            assert(v@ =~= Seq::<u8>::empty());
            v
        };
        assert(name_part(bytes@, pos as int) == Some((name@, p as int)));
        let words = match read_words(bytes, p, 7) {
            Some(w) => w,
            None => return Err(LoadError::Malformed(p)),
        };
        let properties = Properties::new(
            words[0] as i32,
            words[1],
            words[2],
            words[3],
            words[4],
            words[5],
            words[6],
        );
        proof {
            assert(words@[0] == u32_at(bytes@, p as int));
            assert(words@[1] == u32_at(bytes@, p + 4));
            assert(words@[2] == u32_at(bytes@, p + 8));
            assert(words@[3] == u32_at(bytes@, p + 12));
            assert(words@[4] == u32_at(bytes@, p + 16));
            assert(words@[5] == u32_at(bytes@, p + 20));
            assert(words@[6] == u32_at(bytes@, p + 24));
            assert(properties == props_at(bytes@, p as int));
        }
        let element_pos = p + 4;
        p = p + 28;
        let q = p;
        let kind = match properties.get_kind() {
            Some(k) => k,
            None => return Err(LoadError::Malformed(element_pos)),
        };
        let count = properties.get_count();
        let payload = properties.is_not_flag(Flag::ClassVar);
        proof {
            let f = properties.flags_spec();
            assert((f & 4u32) == 4u32 <==> (f & 4u32) != 0u32) by (bit_vector);
        }
        let mut builder = SymbolBuilder::new(name).with_properties(properties);
        if payload {
            match kind {
                Kind::Float | Kind::Int => {
                    let v = match read_words(bytes, p, count as usize) {
                        Some(v) => v,
                        None => return Err(LoadError::Malformed(p)),
                    };
                    p = p + 4 * (count as usize);
                    builder = builder.with_data(
                        if kind == Kind::Float {
                            Data::FloatSequence(v)
                        } else {
                            Data::IntSequence(v)
                        },
                    );
                },
                Kind::CharString => {
                    let (v, end) = match read_lines(bytes, p, count) {
                        Some(x) => x,
                        None => return Err(LoadError::Malformed(p)),
                    };
                    p = end;
                    builder = builder.with_data(Data::Strings(v));
                },
                Kind::Class => {
                    let offset = match read_i32(bytes, p) {
                        Some(w) => w,
                        None => return Err(LoadError::Malformed(p)),
                    };
                    p = p + 4;
                    builder = builder.with_class_offset(offset);
                },
                Kind::Func | Kind::Prototype | Kind::Instance => {
                    let address = match read_u32(bytes, p) {
                        Some(w) => w,
                        None => return Err(LoadError::Malformed(p)),
                    };
                    if kind != Kind::Instance && properties.has_flag(Flag::Const) && address == 0 {
                        return Err(LoadError::Malformed(p));
                    }
                    p = p + 4;
                    builder = builder.with_address(address);
                },
                Kind::Void => {},
            }
        }
        assert(payload_end(bytes@, q as int, properties) == Some(p as int));
        let parent = match read_u32(bytes, p) {
            Some(w) => w,
            None => return Err(LoadError::Malformed(p)),
        };
        p = p + 4;
        builder = builder.with_parent(parent);
        match builder.build() {
            Ok(s) => Ok((s, p)),
            Err(_) => Err(LoadError::Malformed(pos)),
        }
    }

    /// Loads a file image: version byte, symbol count, sort table, symbol records, code
    /// size and code. Succeeds exactly on a whole file (see `file_ok`; among others, every
    /// constant function or prototype has a nonzero address); every symbol is the one its
    /// record describes, entered in the name and address indexes. Otherwise the error is
    /// `Malformed` at the offset of the read that failed (see `file_error_offset`).
    pub fn open(bytes: &[u8]) -> (r: Result<File, LoadError>)
        ensures
            bytes@.len() < 5 ==> r == Err::<File, LoadError>(LoadError::Malformed(0)),
            r is Ok <==> file_ok(bytes@),
            r is Err ==> r == Err::<File, LoadError>(LoadError::Malformed(file_error_offset(bytes@) as usize)),
            r matches Ok(f) ==> {
                let count = u32_at(bytes@, 1);
                let start = 5 + 4 * count;
                let end = records_end(bytes@, start, count as nat).unwrap();
                &&& f.version == bytes@[0]
                &&& f.sym_table.len_spec() == count
                &&& f.sym_table.sort_table_spec() == words_at(bytes@, 5, count as nat)
                &&& forall|i: int| 0 <= i < count ==> symbol_of_record(
                    #[trigger] f.sym_table.symbols_spec()[i],
                    bytes@,
                    records_end(bytes@, start, i as nat).unwrap(),
                )
                &&& f.sym_table.wf()
                &&& f.sym_table.addresses_indexed()
                &&& all_data_match(f.sym_table.symbols_spec())
                &&& forall|i: int| 0 <= i < count && (#[trigger] f.sym_table.symbols_spec()[i]).is_const_function()
                    ==> f.sym_table.symbols_spec()[i].address is Some
                &&& f.stack.offset == end + 4
                &&& f.stack.size == bytes@.len() - (end + 4)
                &&& f.code@ == bytes@.subrange(end + 4, bytes@.len() as int)
            },
    {
        if bytes.len() < 5 {
            return Err(LoadError::Malformed(0));
        }
        let version = bytes[0];
        let count = match read_u32(bytes, 1) {
            Some(c) => c,
            None => return Err(LoadError::Malformed(1)),
        };
        let sort_table = match read_words(bytes, 5, count as usize) {
            Some(v) => v,
            None => return Err(LoadError::Malformed(5)),
        };
        let start: usize = 5 + 4 * (count as usize);
        let mut p: usize = start;
        let mut sym_table = SymTable::with_capacity(count as usize);
        sym_table.write_sort_table(sort_table);
        let mut index: u32 = 0;
        while index < count
            invariant
                bytes@.len() >= 5,
                count == u32_at(bytes@, 1),
                start == 5 + 4 * count,
                start <= bytes@.len(),
                index <= count,
                p <= bytes@.len(),
                records_end(bytes@, start as int, index as nat) == Some(p as int),
                sym_table.len_spec() == index,
                sym_table.wf(),
                sym_table.addresses_indexed(),
                sym_table.sort_table_spec() == words_at(bytes@, 5, count as nat),
                all_data_match(sym_table.symbols_spec()),
                forall|i: int| 0 <= i < index && (#[trigger] sym_table.symbols_spec()[i]).is_const_function()
                    ==> sym_table.symbols_spec()[i].address is Some,
                forall|i: int| 0 <= i < index ==> symbol_of_record(
                    #[trigger] sym_table.symbols_spec()[i],
                    bytes@,
                    records_end(bytes@, start as int, i as nat).unwrap(),
                ),
            decreases count - index,
        {
            let (symbol, end) = match Self::read_symbol(bytes, p) {
                Ok(x) => x,
                Err(e) => {
                    proof {
                        lemma_records_error(bytes@, start as int, index as nat, count as nat);
                    }
                    return Err(e);
                },
            };
            if sym_table.len() == usize::MAX {
                return Err(LoadError::Malformed(p));
            }
            let ghost before = sym_table.symbols_spec();
            sym_table.push(symbol);
            proof {
                assert forall|i: int| 0 <= i < sym_table.symbols_spec().len() implies (#[trigger] sym_table.symbols_spec()[i]).data_matches_count() by {
                    if i < before.len() {
                        assert(sym_table.symbols_spec()[i] == before[i]);
                    }
                }
                assert forall|i: int| 0 <= i < index + 1 && (#[trigger] sym_table.symbols_spec()[i]).is_const_function()
                    implies sym_table.symbols_spec()[i].address is Some by {
                    if i < index {
                        assert(sym_table.symbols_spec()[i] == before[i]);
                    }
                }
                assert forall|i: int| 0 <= i < index + 1 implies symbol_of_record(
                    #[trigger] sym_table.symbols_spec()[i],
                    bytes@,
                    records_end(bytes@, start as int, i as nat).unwrap(),
                ) by {
                    if i < index {
                        assert(sym_table.symbols_spec()[i] == before[i]);
                    }
                }
            }
            p = end;
            index += 1;
        }
        let size = match read_i32(bytes, p) {
            Some(s) => s,
            None => return Err(LoadError::Malformed(p)),
        };
        let offset = p + 4;
        if size < 0 || size as usize != bytes.len() - offset {
            return Err(LoadError::Malformed(p));
        }
        let mut code: Vec<u8> = Vec::with_capacity(size as usize);
        let mut k = offset;
        while k < bytes.len()
            invariant
                offset <= k <= bytes@.len(),
                code@ == bytes@.subrange(offset as int, k as int),
            decreases bytes@.len() - k,
        {
            code.push(bytes[k]);
            k += 1;
            assert(code@ =~= bytes@.subrange(offset as int, k as int));
        }
        Ok(File { version, sym_table, code, stack: Stack { offset, size: size as usize } })
    }

    pub fn get_stack(&self) -> (r: Stack)
        ensures
            r == self.stack,
    {
        self.stack
    }

    /// Decodes the instruction at program counter `pc` of the code segment.
    pub fn get_stack_op_code(&self, pc: usize) -> (r: Result<StackOpCode, DecodeError>)
        ensures
            r matches Ok(op) ==> decode_spec(self.code@, pc as int) == Some(op),
            r is Ok <==> decode_spec(self.code@, pc as int) is Some,
            pc >= self.code@.len() ==> r == Err::<StackOpCode, DecodeError>(DecodeError::OutOfBounds),
            pc < self.code@.len() && crate::opcode::operator_of_code(self.code@[pc as int]) is None ==> r == Err::<
                StackOpCode,
                DecodeError,
            >(DecodeError::UnknownOp(self.code@[pc as int])),
            pc < self.code@.len() && crate::opcode::operator_of_code(self.code@[pc as int]) is Some
                && r is Err ==> r == Err::<StackOpCode, DecodeError>(DecodeError::OutOfBounds),
    {
        decode(self.code.as_slice(), pc)
    }
}

} // verus!
