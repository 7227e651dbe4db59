use crate::bytes::{clipped, Bytes};
use crate::cast::{cast_value, result_value, Cast, DecodeError};
use crate::token::Token;
use crate::variant::{Value, Variant};
use std::ops::Range;
use std::sync::Arc;
use vstd::prelude::*;

verus! {

/// An immutable descriptor of an attribute: its identity, its declared bit
/// range within its own layer's data, and the cast that decodes it.
pub struct AttrClass {
    pub id: Token,
    pub name: String,
    pub description: String,
    pub typ: Token,
    pub aliases: Vec<Token>,
    pub bit_start: usize,
    pub bit_end: usize,
    pub cast: Cast,
    pub children: Vec<Arc<AttrClass>>,
}

/// Whether class `c` answers to `id`, by its own token or by an alias.
pub open spec fn class_matches(c: AttrClass, id: Token) -> bool {
    c.id == id || c.aliases@.contains(id)
}

/// The first byte that a bit range touches.
pub open spec fn byte_of(bit: int) -> int {
    bit / 8
}

/// The byte just past the last that a bit range ending at `bit` touches.
pub open spec fn byte_after(bit: int) -> int {
    if bit % 8 == 0 { bit / 8 } else { bit / 8 + 1 }
}

fn byte_end_of(bit: usize) -> (r: usize)
    ensures
        r == byte_after(bit as int),
{
    if bit % 8 == 0 { bit / 8 } else { bit / 8 + 1 }
}

impl AttrClass {
    /// A builder for a class with the given token, an empty bit range, the
    /// nil cast and no aliases or children.
    pub fn builder(id: Token) -> (r: AttrClassBuilder)
        ensures
            r.class().id == id,
            r.class().typ == Token::null_spec(),
            r.class().aliases@ == Seq::<Token>::empty(),
            r.class().bit_start == 0,
            r.class().bit_end == 0,
            r.class().cast == Cast::Nil,
            r.class().children@ == Seq::<Arc<AttrClass>>::empty(),
    {
        AttrClassBuilder {
            class: AttrClass {
                id,
                name: String::new(),
                description: String::new(),
                typ: Token::null(),
                aliases: Vec::new(),
                bit_start: 0,
                bit_end: 0,
                cast: Cast::Nil,
                children: Vec::new(),
            },
        }
    }

    /// Whether the class answers to `id`.
    pub fn is_match(&self, id: Token) -> (r: bool)
        ensures
            r == class_matches(*self, id),
    {
        if self.id == id {
            return true;
        }
        let mut i: usize = 0;
        while i < self.aliases.len()
            invariant
                i <= self.aliases@.len(),
                forall|j: int| 0 <= j < i ==> self.aliases@[j] != id,
                self.id != id,
            decreases self.aliases@.len() - i,
        {
            if self.aliases[i] == id {
                return true;
            }
            i = i + 1;
        }
        false
    }

    /// The declared bit range.
    pub fn bit_range(&self) -> (r: Range<usize>)
        ensures
            r.start == self.bit_start,
            r.end == self.bit_end,
    {
        self.bit_start..self.bit_end
    }

    /// The bytes that the declared bit range touches.
    pub fn byte_range(&self) -> (r: Range<usize>)
        ensures
            r.start == byte_of(self.bit_start as int),
            r.end == byte_after(self.bit_end as int),
    {
        (self.bit_start / 8)..byte_end_of(self.bit_end)
    }
}

/// Builds an `AttrClass` one property at a time.
pub struct AttrClassBuilder {
    class: AttrClass,
}

impl AttrClassBuilder {
    /// The class that `build` would return now.
    pub closed spec fn class(&self) -> AttrClass {
        self.class
    }

    pub fn typ(self, typ: Token) -> (r: AttrClassBuilder)
        ensures
            r.class() == (AttrClass { typ, ..self.class() }),
    {
        AttrClassBuilder { class: AttrClass { typ, ..self.class } }
    }

    pub fn name(self, name: &str) -> (r: AttrClassBuilder)
        ensures
            r.class() == (AttrClass { name: r.class().name, ..self.class() }),
            r.class().name@ == name@,
    {
        AttrClassBuilder { class: AttrClass { name: name.to_owned(), ..self.class } }
    }

    pub fn description(self, description: &str) -> (r: AttrClassBuilder)
        ensures
            r.class() == (AttrClass { description: r.class().description, ..self.class() }),
            r.class().description@ == description@,
    {
        AttrClassBuilder { class: AttrClass { description: description.to_owned(), ..self.class } }
    }

    /// Adds an alias that the class also answers to.
    pub fn alias(self, alias: Token) -> (r: AttrClassBuilder)
        ensures
            r.class() == (AttrClass { aliases: r.class().aliases, ..self.class() }),
            r.class().aliases@ == self.class().aliases@.push(alias),
    {
        let mut class = self.class;
        class.aliases.push(alias);
        AttrClassBuilder { class }
    }

    pub fn bit_range(self, range: Range<usize>) -> (r: AttrClassBuilder)
        ensures
            r.class() == (AttrClass { bit_start: range.start, bit_end: range.end, ..self.class() }),
    {
        AttrClassBuilder { class: AttrClass { bit_start: range.start, bit_end: range.end, ..self.class } }
    }

    pub fn cast(self, cast: Cast) -> (r: AttrClassBuilder)
        ensures
            r.class() == (AttrClass { cast, ..self.class() }),
    {
        AttrClassBuilder { class: AttrClass { cast, ..self.class } }
    }

    /// Adds a child class, for composite fields.
    pub fn child(self, child: Arc<AttrClass>) -> (r: AttrClassBuilder)
        ensures
            r.class() == (AttrClass { children: r.class().children, ..self.class() }),
            r.class().children@ == self.class().children@.push(child),
    {
        let mut class = self.class;
        class.children.push(child);
        AttrClassBuilder { class }
    }

    pub fn build(self) -> (r: AttrClass)
        ensures
            r == self.class(),
    {
        self.class
    }
}

/// An attribute bound to a layer: a class, the bit range it takes in this
/// layer, and the layer's data. Its value is decoded anew on every read.
pub struct Attr {
    pub class: Arc<AttrClass>,
    pub bit_start: usize,
    pub bit_end: usize,
    pub data: Bytes,
}

/// The bytes of its data that attribute `a` covers.
pub open spec fn attr_bytes(a: Attr) -> Seq<u8> {
    clipped(a.data@, byte_of(a.bit_start as int), byte_after(a.bit_end as int))
}

/// The value that reading attribute `a` gives.
pub open spec fn attr_value(a: Attr) -> Result<Value, DecodeError> {
    cast_value(a.class.cast, attr_bytes(a))
}

impl Attr {
    pub fn new(class: &Arc<AttrClass>, bit_range: Range<usize>, data: &Bytes) -> (r: Attr)
        ensures
            r.class == *class,
            r.bit_start == bit_range.start,
            r.bit_end == bit_range.end,
            r.data@ == data@,
    {
        Attr { class: class.clone(), bit_start: bit_range.start, bit_end: bit_range.end, data: data.share() }
    }

    pub fn id(&self) -> (r: Token)
        ensures
            r == self.class.id,
    {
        self.class.id
    }

    pub fn typ(&self) -> (r: Token)
        ensures
            r == self.class.typ,
    {
        self.class.typ
    }

    pub fn is_match(&self, id: Token) -> (r: bool)
        ensures
            r == class_matches(*self.class, id),
    {
        self.class.is_match(id)
    }

    pub fn bit_range(&self) -> (r: Range<usize>)
        ensures
            r.start == self.bit_start,
            r.end == self.bit_end,
    {
        self.bit_start..self.bit_end
    }

    /// The bytes of the layer's data that the bit range touches.
    pub fn byte_range(&self) -> (r: Range<usize>)
        ensures
            r.start == byte_of(self.bit_start as int),
            r.end == byte_after(self.bit_end as int),
    {
        (self.bit_start / 8)..byte_end_of(self.bit_end)
    }

    /// Decodes the attribute's value from the current bytes.
    pub fn value(&self) -> (r: Result<Variant, DecodeError>)
        ensures
            result_value(r) == attr_value(*self),
    {
        let bytes = self.data.copy_range(self.bit_start / 8, byte_end_of(self.bit_end));
        self.class.cast.cast(bytes.as_slice())
    }
}

} // verus!
