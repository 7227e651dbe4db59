use vstd::prelude::*;

verus! {

/// A tagged dynamic value, the value type that casts produce.
#[derive(Debug, PartialEq, Eq)]
pub enum Variant {
    Nil,
    Bool(bool),
    Int64(i64),
    UInt64(u64),
    Str(String),
    Slice(Vec<u8>),
    /// An ordered array of values.
    Array(Vec<Variant>),
    /// A mapping from names to values, in the order the entries were given.
    Table(Vec<(String, Variant)>),
}

/// The mathematical value of a `Variant`.
pub enum Value {
    Nil,
    Bool(bool),
    Int64(i64),
    UInt64(u64),
    Str(Seq<char>),
    Slice(Seq<u8>),
    Array(Seq<Value>),
    Table(Seq<(Seq<char>, Value)>),
}

/// The values of the items of `s` from position `i` on.
pub open spec fn items_value(s: Seq<Variant>, i: int) -> Seq<Value>
    decreases s, s.len() - i,
{
    if 0 <= i < s.len() {
        seq![variant_value(s[i])] + items_value(s, i + 1)
    } else {
        Seq::empty()
    }
}

/// The values of the entries of `s` from position `i` on.
pub open spec fn entries_value(s: Seq<(String, Variant)>, i: int) -> Seq<(Seq<char>, Value)>
    decreases s, s.len() - i,
{
    if 0 <= i < s.len() {
        seq![(s[i].0@, variant_value(s[i].1))] + entries_value(s, i + 1)
    } else {
        Seq::empty()
    }
}

/// The mathematical value of `v`.
pub open spec fn variant_value(v: Variant) -> Value
    decreases v, 0int,
{
    match v {
        Variant::Nil => Value::Nil,
        Variant::Bool(b) => Value::Bool(b),
        Variant::Int64(n) => Value::Int64(n),
        Variant::UInt64(n) => Value::UInt64(n),
        Variant::Str(s) => Value::Str(s@),
        Variant::Slice(b) => Value::Slice(b@),
        Variant::Array(items) => Value::Array(items_value(items@, 0)),
        Variant::Table(entries) => Value::Table(entries_value(entries@, 0)),
    }
}

impl View for Variant {
    type V = Value;

    open spec fn view(&self) -> Value {
        variant_value(*self)
    }
}

proof fn lemma_items_value(s: Seq<Variant>, i: int)
    requires
        0 <= i <= s.len(),
    ensures
        items_value(s, i).len() == s.len() - i,
        forall|k: int| 0 <= k < s.len() - i ==> #[trigger] items_value(s, i)[k] == variant_value(s[i + k]),
    decreases s.len() - i,
{
    if i < s.len() {
        lemma_items_value(s, i + 1);
        assert forall|k: int| 0 <= k < s.len() - i implies #[trigger] items_value(s, i)[k] == variant_value(s[i + k]) by {
            if k > 0 {
                assert(items_value(s, i)[k] == items_value(s, i + 1)[k - 1]);
            }
        }
    }
}

proof fn lemma_entries_value(s: Seq<(String, Variant)>, i: int)
    requires
        0 <= i <= s.len(),
    ensures
        entries_value(s, i).len() == s.len() - i,
        forall|k: int| 0 <= k < s.len() - i ==> #[trigger] entries_value(s, i)[k] == (s[i + k].0@, variant_value(s[i + k].1)),
    decreases s.len() - i,
{
    if i < s.len() {
        lemma_entries_value(s, i + 1);
        assert forall|k: int| 0 <= k < s.len() - i implies #[trigger] entries_value(s, i)[k] == (s[i + k].0@, variant_value(s[i + k].1)) by {
            if k > 0 {
                assert(entries_value(s, i)[k] == entries_value(s, i + 1)[k - 1]);
            }
        }
    }
}

/// Two item lists with the same values, item by item, have the same value.
proof fn lemma_items_value_ext(a: Seq<Variant>, b: Seq<Variant>)
    requires
        a.len() == b.len(),
        forall|k: int| 0 <= k < a.len() ==> variant_value(#[trigger] a[k]) == variant_value(b[k]),
    ensures
        items_value(a, 0) == items_value(b, 0),
{
    lemma_items_value(a, 0);
    lemma_items_value(b, 0);
    assert(items_value(a, 0) =~= items_value(b, 0));
}

proof fn lemma_entries_value_ext(a: Seq<(String, Variant)>, b: Seq<(String, Variant)>)
    requires
        a.len() == b.len(),
        forall|k: int| 0 <= k < a.len() ==> (#[trigger] a[k]).0@ == b[k].0@ && variant_value(a[k].1) == variant_value(b[k].1),
    ensures
        entries_value(a, 0) == entries_value(b, 0),
{
    lemma_entries_value(a, 0);
    lemma_entries_value(b, 0);
    assert(entries_value(a, 0) =~= entries_value(b, 0));
}

impl Variant {
    /// An independent copy with the same value.
    pub fn duplicate(&self) -> (r: Variant)
        ensures
            r@ == self@,
        decreases self,
    {
        match self {
            Variant::Nil => Variant::Nil,
            Variant::Bool(b) => Variant::Bool(*b),
            Variant::Int64(n) => Variant::Int64(*n),
            Variant::UInt64(n) => Variant::UInt64(*n),
            Variant::Str(s) => Variant::Str(s.clone()),
            Variant::Slice(v) => Variant::Slice(v.clone()),
            Variant::Array(items) => {
                let mut out: Vec<Variant> = Vec::new();
                let mut i: usize = 0;
                while i < items.len()
                    invariant
                        *self == Variant::Array(*items),
                        i <= items@.len(),
                        out@.len() == i,
                        forall|k: int| 0 <= k < i ==> variant_value(#[trigger] out@[k]) == variant_value(items@[k]),
                    decreases items@.len() - i,
                {
                    proof {
                        assert(decreases_to!(*self => self->Array_0));
                        assert(decreases_to!(*items => items[i as int]));
                    }
                    out.push(items[i].duplicate());
                    i = i + 1;
                }
                proof {
                    lemma_items_value_ext(out@, items@);
                }
                Variant::Array(out)
            },
            Variant::Table(entries) => {
                let mut out: Vec<(String, Variant)> = Vec::new();
                let mut i: usize = 0;
                while i < entries.len()
                    invariant
                        *self == Variant::Table(*entries),
                        i <= entries@.len(),
                        out@.len() == i,
                        forall|k: int| 0 <= k < i ==> (#[trigger] out@[k]).0@ == entries@[k].0@ && variant_value(out@[k].1) == variant_value(entries@[k].1),
                    decreases entries@.len() - i,
                {
                    proof {
                        assert(decreases_to!(*self => self->Table_0));
                        assert(decreases_to!(*entries => entries[i as int]));
                        assert(decreases_to!(entries[i as int] => entries[i as int].1));
                    }
                    let entry = &entries[i];
                    out.push((entry.0.clone(), entry.1.duplicate()));
                    i = i + 1;
                }
                proof {
                    lemma_entries_value_ext(out@, entries@);
                }
                Variant::Table(out)
            },
        }
    }

    pub fn is_nil(&self) -> (r: bool)
        ensures
            r == (self@ == Value::Nil),
    {
        match self {
            Variant::Nil => true,
            _ => false,
        }
    }
}

} // verus!
