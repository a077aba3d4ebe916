//! Symbols of a script file: kinds, flags, packed properties, data and the builder.

use crate::bits::{bit_field, get_bits, set_bits, with_bit_field};
use crate::instances::InstanceClass;
use crate::object_allocator::Handle;
use vstd::prelude::*;

verus! {

/// What a symbol stands for, numbered as in the file.
#[derive(Clone, Copy, Debug, PartialEq, Eq, Structural)]
pub enum Kind {
    Void,
    Float,
    Int,
    CharString,
    Class,
    Func,
    Prototype,
    Instance,
}

/// The code of each kind in the packed element word.
pub open spec fn kind_code(k: Kind) -> u32 {
    match k {
        Kind::Void => 0,
        Kind::Float => 1,
        Kind::Int => 2,
        Kind::CharString => 3,
        Kind::Class => 4,
        Kind::Func => 5,
        Kind::Prototype => 6,
        Kind::Instance => 7,
    }
}

/// The kind with a given code, if any.
pub open spec fn kind_of_code(code: u32) -> Option<Kind> {
    if code == 0 {
        Some(Kind::Void)
    } else if code == 1 {
        Some(Kind::Float)
    } else if code == 2 {
        Some(Kind::Int)
    } else if code == 3 {
        Some(Kind::CharString)
    } else if code == 4 {
        Some(Kind::Class)
    } else if code == 5 {
        Some(Kind::Func)
    } else if code == 6 {
        Some(Kind::Prototype)
    } else if code == 7 {
        Some(Kind::Instance)
    } else {
        None
    }
}

impl Kind {
    pub fn from_code(code: u32) -> (r: Option<Kind>)
        ensures
            r == kind_of_code(code),
    {
        match code {
            0 => Some(Kind::Void),
            1 => Some(Kind::Float),
            2 => Some(Kind::Int),
            3 => Some(Kind::CharString),
            4 => Some(Kind::Class),
            5 => Some(Kind::Func),
            6 => Some(Kind::Prototype),
            7 => Some(Kind::Instance),
            _ => None,
        }
    }

    pub fn code(self) -> (r: u32)
        ensures
            r == kind_code(self),
            kind_of_code(r) == Some(self),
    {
        match self {
            Kind::Void => 0,
            Kind::Float => 1,
            Kind::Int => 2,
            Kind::CharString => 3,
            Kind::Class => 4,
            Kind::Func => 5,
            Kind::Prototype => 6,
            Kind::Instance => 7,
        }
    }

    /// Whether symbols of this kind carry a data payload.
    pub open spec fn has_data_spec(self) -> bool {
        self == Kind::Float || self == Kind::Int || self == Kind::CharString
    }

    pub fn has_data(self) -> (r: bool)
        ensures
            r == self.has_data_spec(),
    {
        match self {
            Kind::Float | Kind::Int | Kind::CharString => true,
            _ => false,
        }
    }

    /// Whether symbols of this kind are entered in the address index.
    pub open spec fn is_function_spec(self) -> bool {
        self == Kind::Func || self == Kind::Prototype
    }
}

/// One flag of the six-bit flag field.
#[derive(Clone, Copy, Debug, PartialEq, Eq, Structural)]
pub enum Flag {
    Const,
    Return,
    ClassVar,
    External,
    Merged,
}

pub open spec fn flag_bit(f: Flag) -> u32 {
    match f {
        Flag::Const => 1,
        Flag::Return => 2,
        Flag::ClassVar => 4,
        Flag::External => 8,
        Flag::Merged => 16,
    }
}

impl Flag {
    pub fn bit(self) -> (r: u32)
        ensures
            r == flag_bit(self),
    {
        match self {
            Flag::Const => 1,
            Flag::Return => 2,
            Flag::ClassVar => 4,
            Flag::External => 8,
            Flag::Merged => 16,
        }
    }
}

/// Whether the flag set `flags` holds `f`.
pub open spec fn flags_have(flags: u32, f: Flag) -> bool {
    flags & flag_bit(f) == flag_bit(f)
}

/// The element word's fields: count in bits 0-11, kind in 12-15, flags in 16-21.
pub open spec fn element_count(element: u32) -> u32 {
    bit_field(element, 11, 0)
}

pub open spec fn element_kind_code(element: u32) -> u32 {
    bit_field(element, 15, 12)
}

pub open spec fn element_flags(element: u32) -> u32 {
    bit_field(element, 21, 16)
}

/// The element word that holds `count`, `kind` and `flags`, with the other bits clear.
pub open spec fn element_word(count: u32, kind: Kind, flags: u32) -> u32 {
    with_bit_field(
        with_bit_field(with_bit_field(0, 11, 0, count), 15, 12, kind_code(kind)),
        21,
        16,
        flags,
    )
}

/// The packed per-symbol properties as read from the file.
#[derive(Clone, Copy, Debug)]
pub struct Properties {
    pub off_cls_ret: i32,
    pub element: u32,
    pub file_index: u32,
    pub line_start: u32,
    pub line_count: u32,
    pub char_start: u32,
    pub char_count: u32,
}

impl Properties {
    pub fn new(
        off_cls_ret: i32,
        element: u32,
        file_index: u32,
        line_start: u32,
        line_count: u32,
        char_start: u32,
        char_count: u32,
    ) -> (r: Properties)
        ensures
            r == (Properties {
                off_cls_ret,
                element,
                file_index,
                line_start,
                line_count,
                char_start,
                char_count,
            }),
    {
        Properties {
            off_cls_ret,
            element,
            file_index,
            line_start,
            line_count,
            char_start,
            char_count,
        }
    }

    /// Properties of a fresh symbol: no flags, nothing but `count` and `kind`.
    pub fn with_kind(kind: Kind, count: u32, flags: u32) -> (r: Properties)
        requires
            count < 4096,
            flags < 64,
        ensures
            r.element == element_word(count, kind, flags),
            r.count_spec() == count,
            r.kind_spec() == Some(kind),
            r.flags_spec() == flags,
            r.off_cls_ret == 0,
    {
        let element = Self::encode_element(count, kind, flags);
        Properties {
            off_cls_ret: 0,
            element,
            file_index: 0,
            line_start: 0,
            line_count: 0,
            char_start: 0,
            char_count: 0,
        }
    }

    /// Packs `count`, `kind` and `flags` into an element word.
    pub fn encode_element(count: u32, kind: Kind, flags: u32) -> (r: u32)
        requires
            count < 4096,
            flags < 64,
        ensures
            r == element_word(count, kind, flags),
            element_count(r) == count,
            element_kind_code(r) == kind_code(kind),
            element_flags(r) == flags,
    {
        let code = kind.code();
        let mut w: u32 = 0;
        set_bits(&mut w, 11, 0, count);
        set_bits(&mut w, 15, 12, code);
        set_bits(&mut w, 21, 16, flags);
        proof {
            lemma_element_round_trip(count, code, flags);
        }
        w
    }

    pub open spec fn count_spec(&self) -> u32 {
        element_count(self.element)
    }

    pub open spec fn kind_spec(&self) -> Option<Kind> {
        kind_of_code(element_kind_code(self.element))
    }

    pub open spec fn flags_spec(&self) -> u32 {
        element_flags(self.element)
    }

    pub open spec fn has_flag_spec(&self, f: Flag) -> bool {
        flags_have(self.flags_spec(), f)
    }

    pub fn get_count(&self) -> (r: u32)
        ensures
            r == self.count_spec(),
            r < 4096,
    {
        let r = get_bits(self.element, 11, 0);
        proof {
            let e = self.element;
            assert(bit_field(e, 11, 0) < 4096) by (bit_vector)
                requires
                    r == (e >> 0u32) & (0xffff_ffffu32 >> 20u32),
            ;
        }
        r
    }

    pub fn get_flags(&self) -> (r: u32)
        ensures
            r == self.flags_spec(),
    {
        get_bits(self.element, 21, 16)
    }

    /// The kind, or `None` where the kind field holds a code above 7.
    pub fn get_kind(&self) -> (r: Option<Kind>)
        ensures
            r == self.kind_spec(),
    {
        Kind::from_code(get_bits(self.element, 15, 12))
    }

    pub fn has_flag(&self, flag: Flag) -> (r: bool)
        ensures
            r == self.has_flag_spec(flag),
    {
        let b = flag.bit();
        self.get_flags() & b == b
    }

    pub fn is_not_flag(&self, flag: Flag) -> (r: bool)
        ensures
            r == (self.flags_spec() & flag_bit(flag) == 0),
    {
        self.get_flags() & flag.bit() == 0
    }

    /// The source file index (19 bits).
    pub fn get_file_index(&self) -> (r: u32)
        ensures
            r == bit_field(self.file_index, 18, 0),
    {
        get_bits(self.file_index, 18, 0)
    }

    /// The first source line (19 bits).
    pub fn get_line_start(&self) -> (r: u32)
        ensures
            r == bit_field(self.line_start, 18, 0),
    {
        get_bits(self.line_start, 18, 0)
    }

    /// The number of source lines (19 bits).
    pub fn get_line_count(&self) -> (r: u32)
        ensures
            r == bit_field(self.line_count, 18, 0),
    {
        get_bits(self.line_count, 18, 0)
    }

    /// The first source character (24 bits).
    pub fn get_char_start(&self) -> (r: u32)
        ensures
            r == bit_field(self.char_start, 23, 0),
    {
        get_bits(self.char_start, 23, 0)
    }

    /// The number of source characters (24 bits).
    pub fn get_char_count(&self) -> (r: u32)
        ensures
            r == bit_field(self.char_count, 23, 0),
    {
        get_bits(self.char_count, 23, 0)
    }
}

/// Writing the kind field changes neither the count nor the flags.
pub proof fn lemma_kind_field_set(element: u32, code: u32)
    requires
        code < 16,
    ensures
        element_kind_code(with_bit_field(element, 15, 12, code)) == code,
        element_count(with_bit_field(element, 15, 12, code)) == element_count(element),
        element_flags(with_bit_field(element, 15, 12, code)) == element_flags(element),
{
    let w = with_bit_field(element, 15, 12, code);
    assert(element_kind_code(w) == code && element_count(w) == element_count(element) && element_flags(w)
        == element_flags(element)) by (bit_vector)
        requires
            code < 16,
            w == (element & !((0xffff_ffffu32 >> 28u32) << 12u32)) | ((code << 12u32) & ((
                0xffff_ffffu32 >> 28u32) << 12u32)),
    ;
}

/// Packing count, kind code and flags into an element word and reading the fields back
/// gives the values that went in.
pub proof fn lemma_element_round_trip(count: u32, code: u32, flags: u32)
    requires
        count < 4096,
        code < 16,
        flags < 64,
    ensures
        ({
            let w = with_bit_field(
                with_bit_field(with_bit_field(0, 11, 0, count), 15, 12, code),
                21,
                16,
                flags,
            );
            element_count(w) == count && element_kind_code(w) == code && element_flags(w)
                == flags
        }),
{
    let w0 = with_bit_field(0, 11, 0, count);
    let w1 = with_bit_field(w0, 15, 12, code);
    let w2 = with_bit_field(w1, 21, 16, flags);
    assert(w0 == count) by (bit_vector)
        requires
            count < 4096,
            w0 == (0u32 & !((0xffff_ffffu32 >> 20u32) << 0u32)) | ((count << 0u32) & ((
                0xffff_ffffu32 >> 20u32) << 0u32)),
    ;
    assert(w1 == count | (code << 12u32)) by (bit_vector)
        requires
            count < 4096,
            code < 16,
            w0 == count,
            w1 == (w0 & !((0xffff_ffffu32 >> 28u32) << 12u32)) | ((code << 12u32) & ((
                0xffff_ffffu32 >> 28u32) << 12u32)),
    ;
    assert(w2 == count | (code << 12u32) | (flags << 16u32)) by (bit_vector)
        requires
            count < 4096,
            code < 16,
            flags < 64,
            w1 == count | (code << 12u32),
            w2 == (w1 & !((0xffff_ffffu32 >> 26u32) << 16u32)) | ((flags << 16u32) & ((
                0xffff_ffffu32 >> 26u32) << 16u32)),
    ;
    assert(element_count(w2) == count && element_kind_code(w2) == code && element_flags(w2)
        == flags) by (bit_vector)
        requires
            count < 4096,
            code < 16,
            flags < 64,
            w2 == count | (code << 12u32) | (flags << 16u32),
    ;
}

/// The payload of a variable or constant: integers, floats as IEEE-754 bit patterns,
/// or one byte string per element.
#[derive(Debug)]
pub enum Data {
    IntSequence(Vec<u32>),
    FloatSequence(Vec<u32>),
    Strings(Vec<Vec<u8>>),
}

impl Data {
    /// The number of elements.
    pub open spec fn len_spec(&self) -> nat {
        match self {
            Data::IntSequence(v) => v@.len(),
            Data::FloatSequence(v) => v@.len(),
            Data::Strings(v) => v@.len(),
        }
    }

    pub fn len(&self) -> (r: usize)
        ensures
            r == self.len_spec(),
    {
        match self {
            Data::IntSequence(v) => v.len(),
            Data::FloatSequence(v) => v.len(),
            Data::Strings(v) => v.len(),
        }
    }

    /// Whether this payload has the shape that `kind` asks for.
    pub open spec fn fits_kind(&self, kind: Kind) -> bool {
        match self {
            Data::IntSequence(_) => kind == Kind::Int,
            Data::FloatSequence(_) => kind == Kind::Float,
            Data::Strings(_) => kind == Kind::CharString,
        }
    }
}

/// Why a symbol could not be built.
#[derive(Clone, Copy, Debug, PartialEq, Eq, Structural)]
pub enum BuildError {
    MissingProperties,
    MissingData,
}

/// One entry of the symbol table.
#[derive(Debug)]
pub struct Symbol {
    pub name: Vec<u8>,
    pub properties: Properties,
    pub class_member_offset: Option<i32>,
    pub class_member_array_size: Option<i32>,
    pub instance_data_handle: Handle,
    pub instance_data_class: Option<InstanceClass>,
    pub parent: Option<u32>,
    pub address: Option<u32>,
    pub data: Option<Data>,
}

/// A nonzero value, or `None` for zero.
pub open spec fn nonzero_u32(v: u32) -> Option<u32> {
    if v == 0 {
        None
    } else {
        Some(v)
    }
}

pub open spec fn nonzero_i32(v: i32) -> Option<i32> {
    if v == 0 {
        None
    } else {
        Some(v)
    }
}

impl Symbol {
    pub open spec fn kind_spec(&self) -> Option<Kind> {
        self.properties.kind_spec()
    }

    pub open spec fn is_named(&self) -> bool {
        self.name@.len() > 0
    }

    /// A variable or constant that must carry `count` elements of data.
    pub open spec fn needs_data(&self) -> bool {
        &&& self.kind_spec() is Some
        &&& self.kind_spec().unwrap().has_data_spec()
        &&& !self.properties.has_flag_spec(Flag::ClassVar)
    }

    /// The data of a variable or constant has the kind's shape and `count` elements.
    pub open spec fn data_matches_count(&self) -> bool {
        self.needs_data() ==> {
            &&& self.data is Some
            &&& self.data.unwrap().fits_kind(self.kind_spec().unwrap())
            &&& self.data.unwrap().len_spec() == self.properties.count_spec()
        }
    }

    /// A constant function or prototype, which the address index lists.
    pub open spec fn is_const_function(&self) -> bool {
        &&& self.kind_spec() is Some
        &&& self.kind_spec().unwrap().is_function_spec()
        &&& self.properties.has_flag_spec(Flag::Const)
        &&& !self.properties.has_flag_spec(Flag::ClassVar)
    }

    /// The name, or `None` for an anonymous symbol.
    pub fn get_name(&self) -> (r: Option<&Vec<u8>>)
        ensures
            r == (if self.is_named() {
                Some(&self.name)
            } else {
                None::<&Vec<u8>>
            }),
    {
        if self.name.len() == 0 {
            None
        } else {
            Some(&self.name)
        }
    }

    pub fn get_parent(&self) -> (r: Option<u32>)
        ensures
            r == self.parent,
    {
        self.parent
    }

    pub fn get_address(&self) -> (r: Option<u32>)
        ensures
            r == self.address,
    {
        self.address
    }

    /// Sets the code address; zero clears it.
    pub fn set_address(&mut self, address: u32)
        ensures
            *final(self) == (Symbol { address: nonzero_u32(address), ..*old(self) }),
    {
        self.address = if address == 0 {
            None
        } else {
            Some(address)
        };
    }

    pub fn get_data(&self) -> (r: Option<&Data>)
        ensures
            r == match self.data {
                Some(d) => Some(&d),
                None => None::<&Data>,
            },
    {
        match &self.data {
            Some(d) => Some(d),
            None => None,
        }
    }

    /// The string at `index` of a string symbol.
    pub fn get_string(&self, index: usize) -> (r: Option<&Vec<u8>>)
        ensures
            r == match self.data {
                Some(Data::Strings(v)) => if index < v@.len() {
                    Some(&v@[index as int])
                } else {
                    None::<&Vec<u8>>
                },
                _ => None::<&Vec<u8>>,
            },
    {
        match &self.data {
            Some(Data::Strings(v)) => {
                if index < v.len() {
                    Some(&v[index])
                } else {
                    None
                }
            },
            _ => None,
        }
    }

    /// Records the host-side layout binding of a class member; zero clears a value.
    pub fn set_class_member(&mut self, offset: i32, array_size: i32)
        ensures
            *final(self) == (Symbol {
                class_member_offset: nonzero_i32(offset),
                class_member_array_size: nonzero_i32(array_size),
                ..*old(self)
            }),
    {
        self.class_member_offset = if offset == 0 {
            None
        } else {
            Some(offset)
        };
        self.class_member_array_size = if array_size == 0 {
            None
        } else {
            Some(array_size)
        };
    }
}

/// Collects the parts of a symbol; `build` checks them.
#[derive(Debug)]
pub struct SymbolBuilder {
    pub name: Vec<u8>,
    pub properties: Option<Properties>,
    pub class_member_offset: Option<i32>,
    pub class_member_array_size: Option<i32>,
    pub instance_data_handle: Option<Handle>,
    pub instance_data_class: Option<InstanceClass>,
    pub parent: Option<u32>,
    pub address: Option<u32>,
    pub data: Option<Data>,
}

/// Whether `b` may be built: properties are given, and a variable or constant of a
/// data kind has its data.
pub open spec fn builder_complete(b: SymbolBuilder) -> bool {
    &&& b.properties is Some
    &&& !(b.properties.unwrap().kind_spec() is Some && b.properties.unwrap().kind_spec().unwrap().has_data_spec()
        && !b.properties.unwrap().has_flag_spec(Flag::ClassVar) && b.data is None)
}

impl SymbolBuilder {
    pub fn new(name: Vec<u8>) -> (r: SymbolBuilder)
        ensures
            r == (SymbolBuilder {
                name,
                properties: None,
                class_member_offset: None,
                class_member_array_size: None,
                instance_data_handle: None,
                instance_data_class: None,
                parent: None,
                address: None,
                data: None,
            }),
    {
        SymbolBuilder {
            name,
            properties: None,
            class_member_offset: None,
            class_member_array_size: None,
            instance_data_handle: None,
            instance_data_class: None,
            parent: None,
            address: None,
            data: None,
        }
    }

    /// Sets the kind, keeping count and flags (fresh properties where there are none).
    /// Where no data is given yet and the kind carries data, gives `count` zero elements:
    /// zero integers, zero floats or empty strings.
    pub fn set_kind(self, kind: Kind) -> (r: SymbolBuilder)
        ensures
            r.properties is Some,
            r.properties.unwrap().kind_spec() == Some(kind),
            self.properties matches Some(p) ==> r.properties.unwrap().count_spec() == p.count_spec()
                && r.properties.unwrap().flags_spec() == p.flags_spec(),
            self.data is Some ==> r.data == self.data,
            self.data is None && kind.has_data_spec() ==> (r.data matches Some(d) && d.fits_kind(kind)
                && d.len_spec() == r.properties.unwrap().count_spec()),
            self.data is None && !kind.has_data_spec() ==> r.data is None,
            r.name == self.name,
            r.parent == self.parent,
            r.address == self.address,
    {
        let mut properties = match self.properties {
            Some(p) => p,
            None => Properties::with_kind(kind, 0, 0),
        };
        let code = kind.code();
        let ghost before = properties.element;
        set_bits(&mut properties.element, 15, 12, code);
        proof {
            lemma_kind_field_set(before, code);
        }
        let count = properties.get_count();
        let data = match self.data {
            Some(d) => Some(d),
            None => match kind {
                Kind::Int | Kind::Float => {
                    let mut v: Vec<u32> = Vec::new();
                    let mut k: u32 = 0;
                    while k < count
                        invariant
                            k <= count,
                            v@.len() == k,
                        decreases count - k,
                    {
                        v.push(0);
                        k += 1;
                    }
                    if kind == Kind::Int {
                        Some(Data::IntSequence(v))
                    } else {
                        Some(Data::FloatSequence(v))
                    }
                },
                Kind::CharString => {
                    let mut v: Vec<Vec<u8>> = Vec::new();
                    let mut k: u32 = 0;
                    while k < count
                        invariant
                            k <= count,
                            v@.len() == k,
                        decreases count - k,
                    {
                        v.push(Vec::new());
                        k += 1;
                    }
                    Some(Data::Strings(v))
                },
                _ => None,
            },
        };
        SymbolBuilder { properties: Some(properties), data, ..self }
    }

    pub fn with_properties(self, properties: Properties) -> (r: SymbolBuilder)
        ensures
            r == (SymbolBuilder { properties: Some(properties), ..self }),
    {
        SymbolBuilder { properties: Some(properties), ..self }
    }

    pub fn with_class_offset(self, offset: i32) -> (r: SymbolBuilder)
        ensures
            r == (SymbolBuilder { class_member_offset: nonzero_i32(offset), ..self }),
    {
        let v = if offset == 0 {
            None
        } else {
            Some(offset)
        };
        SymbolBuilder { class_member_offset: v, ..self }
    }

    pub fn with_class_array_size(self, array_size: i32) -> (r: SymbolBuilder)
        ensures
            r == (SymbolBuilder { class_member_array_size: nonzero_i32(array_size), ..self }),
    {
        let v = if array_size == 0 {
            None
        } else {
            Some(array_size)
        };
        SymbolBuilder { class_member_array_size: v, ..self }
    }

    pub fn with_instance_data(self, handle: Handle, class: InstanceClass) -> (r: SymbolBuilder)
        ensures
            r == (SymbolBuilder {
                instance_data_handle: Some(handle),
                instance_data_class: Some(class),
                ..self
            }),
    {
        SymbolBuilder {
            instance_data_handle: Some(handle),
            instance_data_class: Some(class),
            ..self
        }
    }

    /// Sets the parent symbol index; zero means no parent.
    pub fn with_parent(self, parent: u32) -> (r: SymbolBuilder)
        ensures
            r == (SymbolBuilder { parent: nonzero_u32(parent), ..self }),
    {
        let v = if parent == 0 {
            None
        } else {
            Some(parent)
        };
        SymbolBuilder { parent: v, ..self }
    }

    /// Sets the code address; zero means none.
    pub fn with_address(self, address: u32) -> (r: SymbolBuilder)
        ensures
            r == (SymbolBuilder { address: nonzero_u32(address), ..self }),
    {
        let v = if address == 0 {
            None
        } else {
            Some(address)
        };
        SymbolBuilder { address: v, ..self }
    }

    pub fn with_data(self, data: Data) -> (r: SymbolBuilder)
        ensures
            r == (SymbolBuilder { data: Some(data), ..self }),
    {
        SymbolBuilder { data: Some(data), ..self }
    }

    /// The symbol, or why it cannot be made. A missing handle becomes the invalid one.
    pub fn build(self) -> (r: Result<Symbol, BuildError>)
        ensures
            self.properties is None ==> r == Err::<Symbol, BuildError>(BuildError::MissingProperties),
            self.properties is Some ==> (r is Err <==> !builder_complete(self)),
            !builder_complete(self) && self.properties is Some ==> r == Err::<Symbol, BuildError>(
                BuildError::MissingData,
            ),
            r matches Ok(s) ==> {
                &&& s.name == self.name
                &&& s.properties == self.properties.unwrap()
                &&& s.class_member_offset == self.class_member_offset
                &&& s.class_member_array_size == self.class_member_array_size
                &&& s.instance_data_handle == match self.instance_data_handle {
                    Some(h) => h,
                    None => Handle { index: 0, generation: 0 },
                }
                &&& s.instance_data_class == self.instance_data_class
                &&& s.parent == self.parent
                &&& s.address == self.address
                &&& s.data == self.data
            },
    {
        let properties = match self.properties {
            Some(p) => p,
            None => return Err(BuildError::MissingProperties),
        };
        let needs = match properties.get_kind() {
            Some(k) => k.has_data() && !properties.has_flag(Flag::ClassVar),
            None => false,
        };
        if needs && self.data.is_none() {
            return Err(BuildError::MissingData);
        }
        let instance_data_handle = match self.instance_data_handle {
            Some(h) => h,
            None => Handle::new(),
        };
        Ok(
            Symbol {
                name: self.name,
                properties,
                class_member_offset: self.class_member_offset,
                class_member_array_size: self.class_member_array_size,
                instance_data_handle,
                instance_data_class: self.instance_data_class,
                parent: self.parent,
                address: self.address,
                data: self.data,
            },
        )
    }
}

} // verus!
