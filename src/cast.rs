use crate::variant::{Value, Variant};
use vstd::prelude::*;

verus! {

/// Why a cast could not produce a value from its bytes.
#[derive(Clone, Copy, Debug, PartialEq, Eq, Structural)]
pub enum DecodeError {
    /// The byte slice is shorter than the representation needs.
    TooShort,
    /// The bytes are not a valid encoding of the output type.
    Invalid,
}

/// A pure function from values to values, applied after a cast. It holds
/// only plain data, so a cast that carries it stays shareable and can be
/// duplicated with identical behaviour.
#[derive(Debug, PartialEq, Eq)]
pub enum Func {
    /// Logical negation of a boolean.
    Not,
    /// Whether an unsigned integer equals the given constant.
    Equals(u64),
    /// Bitwise and of an unsigned integer with the given mask.
    Mask(u64),
    /// Shift an unsigned integer right by the given number of bits.
    ShiftRight(u32),
    /// The first function, then the second.
    Then(Box<Func>, Box<Func>),
}

/// What `f` makes of `v`. A function meets a value of a kind it does not
/// act on by handing it through unchanged.
pub open spec fn apply(f: Func, v: Value) -> Value
    decreases f,
{
    match f {
        Func::Not => match v {
            Value::Bool(b) => Value::Bool(!b),
            _ => v,
        },
        Func::Equals(k) => match v {
            Value::UInt64(n) => Value::Bool(n == k),
            _ => v,
        },
        Func::Mask(m) => match v {
            Value::UInt64(n) => Value::UInt64(n & m),
            _ => v,
        },
        Func::ShiftRight(s) => match v {
            Value::UInt64(n) => Value::UInt64(if s < 64 { n >> s } else { 0 }),
            _ => v,
        },
        Func::Then(g, h) => apply(*h, apply(*g, v)),
    }
}

impl Func {
    /// The composition: `self`, then `next`.
    pub fn then(self, next: Func) -> (r: Func)
        ensures
            r == Func::Then(Box::new(self), Box::new(next)),
            forall|v: Value| apply(r, v) == apply(next, apply(self, v)),
    {
        Func::Then(Box::new(self), Box::new(next))
    }

    /// Applies the function to a value.
    pub fn call(&self, v: Variant) -> (r: Variant)
        ensures
            r@ == apply(*self, v@),
        decreases self,
    {
        match self {
            Func::Not => match v {
                Variant::Bool(b) => Variant::Bool(!b),
                _ => v,
            },
            Func::Equals(k) => match v {
                Variant::UInt64(n) => Variant::Bool(n == *k),
                _ => v,
            },
            Func::Mask(m) => match v {
                Variant::UInt64(n) => Variant::UInt64(n & *m),
                _ => v,
            },
            Func::ShiftRight(s) => match v {
                Variant::UInt64(n) => Variant::UInt64(if *s < 64 { n >> *s } else { 0 }),
                _ => v,
            },
            Func::Then(g, h) => {
                let w = g.call(v);
                h.call(w)
            },
        }
    }

    /// An independent copy that behaves the same.
    pub fn duplicate(&self) -> (r: Func)
        ensures
            r == *self,
        decreases self,
    {
        match self {
            Func::Not => Func::Not,
            Func::Equals(k) => Func::Equals(*k),
            Func::Mask(m) => Func::Mask(*m),
            Func::ShiftRight(s) => Func::ShiftRight(*s),
            Func::Then(g, h) => Func::Then(Box::new(g.duplicate()), Box::new(h.duplicate())),
        }
    }
}

/// A cast: a pure conversion from the bytes of an attribute to a value.
#[derive(Debug, PartialEq, Eq)]
pub enum Cast {
    /// Returns the empty value whatever the bytes are; a placeholder.
    Nil,
    /// Returns `true` whatever the bytes are; marks that a layer is present.
    Present,
    /// Returns the bytes themselves.
    Slice,
    /// Whether the first byte is non-zero.
    NonZero,
    /// A strict boolean: the first byte must be 0 or 1.
    Flag,
    /// An unsigned big-endian integer of the given number of bytes (at most
    /// eight).
    UIntBe(u8),
    /// A signed byte.
    Int8,
    /// The inner cast, then the function on its value.
    Mapped(Box<Cast>, Func),
}

/// The unsigned integer that the bytes of `s` spell, most significant first.
pub open spec fn be_value(s: Seq<u8>) -> nat
    decreases s.len(),
{
    if s.len() == 0 {
        0
    } else {
        (be_value(s.drop_last()) * 256 + s.last()) as nat
    }
}

/// What cast `c` makes of the bytes `s`.
pub open spec fn cast_value(c: Cast, s: Seq<u8>) -> Result<Value, DecodeError>
    decreases c,
{
    match c {
        Cast::Nil => Ok(Value::Nil),
        Cast::Present => Ok(Value::Bool(true)),
        Cast::Slice => Ok(Value::Slice(s)),
        Cast::NonZero => if s.len() == 0 {
            Err(DecodeError::TooShort)
        } else {
            Ok(Value::Bool(s[0] != 0))
        },
        Cast::Flag => if s.len() == 0 {
            Err(DecodeError::TooShort)
        } else if s[0] == 0 {
            Ok(Value::Bool(false))
        } else if s[0] == 1 {
            Ok(Value::Bool(true))
        } else {
            Err(DecodeError::Invalid)
        },
        Cast::UIntBe(w) => if w > 8 {
            Err(DecodeError::Invalid)
        } else if s.len() < w {
            Err(DecodeError::TooShort)
        } else {
            Ok(Value::UInt64(be_value(s.take(w as int)) as u64))
        },
        Cast::Int8 => if s.len() == 0 {
            Err(DecodeError::TooShort)
        } else {
            Ok(Value::Int64(if s[0] < 128 { s[0] as i64 } else { (s[0] - 256) as i64 }))
        },
        Cast::Mapped(inner, f) => match cast_value(*inner, s) {
            Ok(v) => Ok(apply(f, v)),
            Err(e) => Err(e),
        },
    }
}

/// The value of an executable cast result.
pub open spec fn result_value(r: Result<Variant, DecodeError>) -> Result<Value, DecodeError> {
    match r {
        Ok(v) => Ok(v@),
        Err(e) => Err(e),
    }
}

proof fn lemma_be_value_bound(s: Seq<u8>)
    ensures
        be_value(s) < pow256(s.len()),
    decreases s.len(),
{
    if s.len() > 0 {
        lemma_be_value_bound(s.drop_last());
        let a = be_value(s.drop_last());
        let p = pow256((s.len() - 1) as nat);
        assert(a * 256 + s.last() < p * 256) by (nonlinear_arith)
            requires
                a < p,
                s.last() < 256,
        ;
    }
}

/// 256 to the power `n`.
pub open spec fn pow256(n: nat) -> nat
    decreases n,
{
    if n == 0 {
        1
    } else {
        pow256((n - 1) as nat) * 256
    }
}

proof fn lemma_pow256_monotone(a: nat, b: nat)
    requires
        a <= b,
    ensures
        pow256(a) <= pow256(b),
    decreases b,
{
    if a < b {
        lemma_pow256_monotone(a, (b - 1) as nat);
    }
}

/// The big-endian unsigned integer of the first `w` bytes of `s`.
fn read_be(s: &[u8], w: usize) -> (r: u64)
    requires
        w <= 8,
        w <= s@.len(),
    ensures
        r == be_value(s@.take(w as int)),
{
    let mut acc: u64 = 0;
    let mut i: usize = 0;
    proof {
        lemma_pow256_monotone(w as nat, 8);
        reveal_with_fuel(pow256, 9);
        assert(pow256(8) == 0x1_0000_0000_0000_0000);
    }
    while i < w
        invariant
            i <= w <= 8,
            w <= s@.len(),
            acc == be_value(s@.take(i as int)),
            pow256(w as nat) <= 0x1_0000_0000_0000_0000,
        decreases w - i,
    {
        proof {
            let t = s@.take(i as int + 1);
            assert(t.drop_last() =~= s@.take(i as int));
            lemma_be_value_bound(t);
            lemma_pow256_monotone(i as nat + 1, w as nat);
        }
        acc = acc * 256 + s[i] as u64;
        i = i + 1;
    }
    acc
}

impl Cast {
    /// The cast that runs `self` and then applies `f` to its value.
    pub fn map(self, f: Func) -> (r: Cast)
        ensures
            r == Cast::Mapped(Box::new(self), f),
            forall|s: Seq<u8>|
                #[trigger] cast_value(r, s) == match cast_value(self, s) {
                    Ok(v) => Ok(apply(f, v)),
                    Err(e) => Err(e),
                },
    {
        Cast::Mapped(Box::new(self), f)
    }

    /// Decodes the bytes `data` into a value.
    pub fn cast(&self, data: &[u8]) -> (r: Result<Variant, DecodeError>)
        ensures
            result_value(r) == cast_value(*self, data@),
        decreases self,
    {
        match self {
            Cast::Nil => Ok(Variant::Nil),
            Cast::Present => Ok(Variant::Bool(true)),
            Cast::Slice => Ok(Variant::Slice(vstd::slice::slice_to_vec(data))),
            Cast::NonZero => if data.len() == 0 {
                Err(DecodeError::TooShort)
            } else {
                Ok(Variant::Bool(data[0] != 0))
            },
            Cast::Flag => if data.len() == 0 {
                Err(DecodeError::TooShort)
            } else if data[0] == 0 {
                Ok(Variant::Bool(false))
            } else if data[0] == 1 {
                Ok(Variant::Bool(true))
            } else {
                Err(DecodeError::Invalid)
            },
            Cast::UIntBe(w) => if *w > 8 {
                Err(DecodeError::Invalid)
            } else if data.len() < *w as usize {
                Err(DecodeError::TooShort)
            } else {
                Ok(Variant::UInt64(read_be(data, *w as usize)))
            },
            Cast::Int8 => if data.len() == 0 {
                Err(DecodeError::TooShort)
            } else {
                let b = data[0];
                Ok(Variant::Int64(if b < 128 { b as i64 } else { b as i64 - 256 }))
            },
            Cast::Mapped(inner, f) => match inner.cast(data) {
                Ok(v) => Ok(f.call(v)),
                Err(e) => Err(e),
            },
        }
    }

    /// An independent copy that behaves the same on every input.
    pub fn duplicate(&self) -> (r: Cast)
        ensures
            r == *self,
        decreases self,
    {
        match self {
            Cast::Nil => Cast::Nil,
            Cast::Present => Cast::Present,
            Cast::Slice => Cast::Slice,
            Cast::NonZero => Cast::NonZero,
            Cast::Flag => Cast::Flag,
            Cast::UIntBe(w) => Cast::UIntBe(*w),
            Cast::Int8 => Cast::Int8,
            Cast::Mapped(inner, f) => Cast::Mapped(Box::new(inner.duplicate()), f.duplicate()),
        }
    }

    /// The number of bits the cast consumes when fields are laid out one
    /// after another, if it has a fixed width.
    pub fn bit_size(&self) -> (r: Option<usize>)
        ensures
            r == cast_bit_size(*self),
        decreases self,
    {
        match self {
            Cast::Nil | Cast::Present | Cast::Slice => None,
            Cast::NonZero | Cast::Flag | Cast::Int8 => Some(8),
            Cast::UIntBe(w) => Some(*w as usize * 8),
            Cast::Mapped(inner, _) => inner.bit_size(),
        }
    }
}

/// The default width of a cast, in bits.
pub open spec fn cast_bit_size(c: Cast) -> Option<usize>
    decreases c,
{
    match c {
        Cast::Nil | Cast::Present | Cast::Slice => None,
        Cast::NonZero | Cast::Flag | Cast::Int8 => Some(8),
        Cast::UIntBe(w) => Some((w * 8) as usize),
        Cast::Mapped(inner, _) => cast_bit_size(*inner),
    }
}

} // verus!
