use crate::attr::{byte_after, byte_of, class_matches, Attr, AttrClass};
use crate::bytes::Bytes;
use crate::cast::Cast;
use crate::token::Token;
use std::ops::Range;
use std::sync::Arc;
use vstd::prelude::*;

verus! {

/// A class bound at a bit range of a layer's data.
pub struct BoundAttr {
    pub class: Arc<AttrClass>,
    pub bit_start: usize,
    pub bit_end: usize,
}

/// A header class bound where it was declared.
pub open spec fn header_binding(h: Arc<AttrClass>) -> BoundAttr {
    BoundAttr { class: h, bit_start: h.bit_start, bit_end: h.bit_end }
}

/// Whether attribute `a` is binding `b` over the bytes `data`.
pub open spec fn binds(a: Attr, b: BoundAttr, data: Seq<u8>) -> bool {
    &&& a.class == b.class
    &&& a.bit_start == b.bit_start
    &&& a.bit_end == b.bit_end
    &&& a.data@ == data
}

/// The position of the first binding in `s` whose class answers to `id`.
pub open spec fn first_match(s: Seq<BoundAttr>, id: Token) -> Option<int>
    decreases s.len(),
{
    if s.len() == 0 {
        None
    } else if class_matches(*s[0].class, id) {
        Some(0)
    } else {
        match first_match(s.drop_first(), id) {
            Some(k) => Some(k + 1),
            None => None,
        }
    }
}

/// `k` is the first position that answers to `id`.
pub proof fn lemma_first_match_at(s: Seq<BoundAttr>, id: Token, k: int)
    requires
        0 <= k < s.len(),
        class_matches(*s[k].class, id),
        forall|j: int| 0 <= j < k ==> !class_matches(#[trigger] *s[j].class, id),
    ensures
        first_match(s, id) == Some(k),
    decreases k,
{
    if k > 0 {
        assert(!class_matches(*s[0].class, id));
        let t = s.drop_first();
        assert forall|j: int| 0 <= j < k - 1 implies !class_matches(#[trigger] *t[j].class, id) by {
            assert(t[j] == s[j + 1]);
        }
        lemma_first_match_at(t, id, k - 1);
    }
}

/// No position answers to `id`.
pub proof fn lemma_first_match_none(s: Seq<BoundAttr>, id: Token)
    requires
        forall|j: int| 0 <= j < s.len() ==> !class_matches(#[trigger] *s[j].class, id),
    ensures
        first_match(s, id) is None,
    decreases s.len(),
{
    if s.len() > 0 {
        let t = s.drop_first();
        assert forall|j: int| 0 <= j < t.len() implies !class_matches(#[trigger] *t[j].class, id) by {
            assert(t[j] == s[j + 1]);
        }
        lemma_first_match_none(t, id);
    }
}

/// What `first_match` finds answers to `id`, and nothing before it does.
pub proof fn lemma_first_match_facts(s: Seq<BoundAttr>, id: Token)
    ensures
        first_match(s, id) matches Some(k) ==> {
            &&& 0 <= k < s.len()
            &&& class_matches(*s[k].class, id)
            &&& forall|j: int| 0 <= j < k ==> !class_matches(#[trigger] *s[j].class, id)
        },
        first_match(s, id) is None ==> forall|j: int|
            0 <= j < s.len() ==> !class_matches(#[trigger] *s[j].class, id),
    decreases s.len(),
{
    if s.len() > 0 {
        let t = s.drop_first();
        lemma_first_match_facts(t, id);
        assert forall|j: int| 0 < j < s.len() implies s[j] == #[trigger] t[j - 1] by {}
        let ghost m0 = first_match(s, id) == Some(0int);
        if let Some(k) = first_match(t, id) {
            assert forall|j: int| 0 <= j < k + 1 && !m0 implies !class_matches(
                #[trigger] *s[j].class,
                id,
            ) by {
                if j > 0 {
                    assert(s[j] == t[j - 1]);
                }
            }
        } else {
            assert forall|j: int| 0 <= j < s.len() && !m0 implies !class_matches(
                #[trigger] *s[j].class,
                id,
            ) by {
                if j > 0 {
                    assert(s[j] == t[j - 1]);
                }
            }
        }
    }
}

/// The bindings of a group anchored so that its root starts at bit `start`
/// and ends at bit `end`: every other class keeps its declared distance from
/// the root.
pub open spec fn anchored(group: Seq<Arc<AttrClass>>, start: int, end: int) -> Seq<BoundAttr> {
    let offset = start - group[0].bit_start;
    Seq::new(
        group.len(),
        |i: int|
            if i == 0 {
                BoundAttr { class: group[0], bit_start: start as usize, bit_end: end as usize }
            } else {
                BoundAttr {
                    class: group[i],
                    bit_start: (group[i].bit_start + offset) as usize,
                    bit_end: (group[i].bit_end + offset) as usize,
                }
            },
    )
}

/// Every class of the group, shifted so that the root starts at bit
/// `start`, stays within the bits a `usize` can address.
pub open spec fn anchorable(group: Seq<Arc<AttrClass>>, start: int) -> bool {
    let offset = start - group[0].bit_start;
    forall|i: int|
        1 <= i < group.len() ==> {
            &&& 0 <= #[trigger] group[i].bit_start + offset <= usize::MAX
            &&& 0 <= group[i].bit_end + offset <= usize::MAX
        }
}

/// An immutable layer descriptor: the ordered header classes that every
/// layer of this kind carries.
pub struct LayerClass {
    headers: Vec<Arc<AttrClass>>,
}

impl LayerClass {
    pub closed spec fn headers(&self) -> Seq<Arc<AttrClass>> {
        self.headers@
    }

    /// A builder for a class with the given headers.
    pub fn builder(headers: Vec<Arc<AttrClass>>) -> (r: LayerClassBuilder)
        ensures
            r.headers() == headers@,
    {
        LayerClassBuilder { headers }
    }

    /// The token of the primary header.
    pub fn id(&self) -> (r: Token)
        requires
            self.headers().len() > 0,
        ensures
            r == self.headers()[0].id,
    {
        self.headers[0].id
    }

    pub fn header(&self, i: usize) -> (r: &Arc<AttrClass>)
        requires
            i < self.headers().len(),
        ensures
            *r == self.headers()[i as int],
    {
        &self.headers[i]
    }

    pub fn header_count(&self) -> (r: usize)
        ensures
            r == self.headers().len(),
    {
        self.headers.len()
    }
}

/// Builds a `LayerClass`.
pub struct LayerClassBuilder {
    headers: Vec<Arc<AttrClass>>,
}

impl LayerClassBuilder {
    pub closed spec fn headers(&self) -> Seq<Arc<AttrClass>> {
        self.headers@
    }

    pub fn build(self) -> (r: LayerClass)
        ensures
            r.headers() == self.headers(),
    {
        LayerClass { headers: self.headers }
    }
}

/// A slice of data that a layer hands on, with its identity and type.
pub struct Payload {
    pub data: Bytes,
    pub id: Token,
    pub typ: Token,
}

/// One field of a record layout: its identity and type, how many bits it
/// takes, and its cast.
pub struct FieldDecl {
    pub id: Token,
    pub typ: Token,
    pub bit_size: usize,
    pub cast: Cast,
}

/// The bit at which field `k` of a consecutive layout starts.
pub open spec fn field_offset(fields: Seq<FieldDecl>, k: int) -> int
    decreases k,
{
    if k <= 0 {
        0
    } else {
        field_offset(fields, k - 1) + fields[k - 1].bit_size
    }
}

proof fn lemma_field_offset_monotone(fields: Seq<FieldDecl>, a: int, b: int)
    requires
        0 <= a <= b,
    ensures
        0 <= field_offset(fields, a) <= field_offset(fields, b),
    decreases b,
{
    if b > 0 {
        if a < b {
            lemma_field_offset_monotone(fields, a, b - 1);
        } else {
            lemma_field_offset_monotone(fields, b - 1, b - 1);
        }
    }
}

/// A layer class derived from a record layout: a zeroth header saying
/// that the layer is present, spanning the whole record, then one header
/// per field, laid out one after another.
pub struct LayerType {
    layer: Arc<LayerClass>,
}

impl LayerType {
    pub closed spec fn class(&self) -> LayerClass {
        *self.layer
    }

    /// The zeroth header exists and starts at bit 0.
    pub open spec fn wf(&self) -> bool {
        self.class().headers().len() > 0 && self.class().headers()[0].bit_start == 0
    }

    pub fn new(id: Token, typ: Token, fields: &[FieldDecl]) -> (r: LayerType)
        requires
            field_offset(fields@, fields@.len() as int) <= usize::MAX,
        ensures
            r.wf(),
            r.class().headers().len() == fields@.len() + 1,
            r.class().headers()[0].id == id,
            r.class().headers()[0].typ == typ,
            r.class().headers()[0].cast == Cast::Present,
            r.class().headers()[0].bit_start == 0,
            r.class().headers()[0].bit_end == field_offset(fields@, fields@.len() as int),
            forall|k: int|
                0 <= k < fields@.len() ==> {
                    let h = #[trigger] r.class().headers()[k + 1];
                    &&& h.id == fields@[k].id
                    &&& h.typ == fields@[k].typ
                    &&& h.cast == fields@[k].cast
                    &&& h.bit_start == field_offset(fields@, k)
                    &&& h.bit_end == field_offset(fields@, k + 1)
                },
    {
        let n = fields.len();
        let mut headers: Vec<Arc<AttrClass>> = Vec::new();
        let mut offset: usize = 0;
        let mut i: usize = 0;
        let ghost total = field_offset(fields@, n as int);
        while i < n
            invariant
                n == fields@.len(),
                i <= n,
                total == field_offset(fields@, n as int),
                total <= usize::MAX,
                offset == field_offset(fields@, i as int),
                headers@.len() == i,
                forall|k: int|
                    0 <= k < i ==> {
                        let h = #[trigger] headers@[k];
                        &&& h.id == fields@[k].id
                        &&& h.typ == fields@[k].typ
                        &&& h.cast == fields@[k].cast
                        &&& h.bit_start == field_offset(fields@, k)
                        &&& h.bit_end == field_offset(fields@, k + 1)
                    },
            decreases n - i,
        {
            proof {
                lemma_field_offset_monotone(fields@, i as int + 1, n as int);
            }
            let f = &fields[i];
            let end: usize = offset + f.bit_size;
            let class = AttrClass::builder(f.id).typ(f.typ).bit_range(offset..end).cast(
                f.cast.duplicate(),
            ).build();
            headers.push(Arc::new(class));
            offset = end;
            i = i + 1;
        }
        let root = AttrClass::builder(id).typ(typ).bit_range(0..offset).cast(Cast::Present).build();
        let mut all: Vec<Arc<AttrClass>> = Vec::new();
        all.push(Arc::new(root));
        let mut k: usize = 0;
        while k < n
            invariant
                n == headers@.len(),
                k <= n,
                all@.len() == k + 1,
                all@[0].id == id,
                all@[0].typ == typ,
                all@[0].cast == Cast::Present,
                all@[0].bit_start == 0,
                all@[0].bit_end == offset,
                forall|j: int| 0 <= j < k ==> #[trigger] all@[j + 1] == headers@[j],
            decreases n - k,
        {
            all.push(headers[k].clone());
            k = k + 1;
        }
        let layer = LayerClass::builder(all).build();
        LayerType { layer: Arc::new(layer) }
    }

    /// The derived class.
    pub fn layer_class(&self) -> (r: &Arc<LayerClass>)
        ensures
            **r == self.class(),
    {
        &self.layer
    }

    /// How many bytes the whole record touches.
    pub fn byte_size(&self) -> (r: usize)
        requires
            self.wf(),
        ensures
            r == byte_after(self.class().headers()[0].bit_end as int),
    {
        let range = self.layer.headers[0].byte_range();
        range.end - range.start
    }
}

/// One decoded unit: a shared class, shared raw data, the attributes added
/// to it, and the payload handed on to the next layer.
pub struct Layer {
    class: Arc<LayerClass>,
    data: Bytes,
    attrs: Vec<BoundAttr>,
    payload: Bytes,
}

impl Layer {
    pub closed spec fn class(&self) -> LayerClass {
        *self.class
    }

    pub closed spec fn data_view(&self) -> Seq<u8> {
        self.data@
    }

    /// The attributes added so far, in the order of addition.
    pub closed spec fn added(&self) -> Seq<BoundAttr> {
        self.attrs@
    }

    pub closed spec fn payload_view(&self) -> Seq<u8> {
        self.payload@
    }

    /// The headers bound where they were declared, then the added
    /// attributes.
    pub open spec fn bindings(&self) -> Seq<BoundAttr> {
        self.class().headers().map_values(|h: Arc<AttrClass>| header_binding(h)) + self.added()
    }

    /// Whether the layer's class has a primary header to give it an identity.
    pub open spec fn has_id(&self) -> bool {
        self.class().headers().len() > 0
    }

    pub fn new(class: &Arc<LayerClass>, data: &Bytes) -> (r: Layer)
        ensures
            r.class() == **class,
            r.data_view() == data@,
            r.added() == Seq::<BoundAttr>::empty(),
            r.payload_view() == Seq::<u8>::empty(),
    {
        Layer { class: class.clone(), data: data.share(), attrs: Vec::new(), payload: Bytes::new() }
    }

    /// The token of the primary header class.
    pub fn id(&self) -> (r: Token)
        requires
            self.has_id(),
        ensures
            r == self.class().headers()[0].id,
    {
        self.class.id()
    }

    /// The raw data, shared rather than copied.
    pub fn data(&self) -> (r: Bytes)
        ensures
            r@ == self.data_view(),
    {
        self.data.share()
    }

    /// The header attributes, then the added ones, in that order.
    pub fn attrs(&self) -> (r: Vec<Attr>)
        ensures
            r@.len() == self.bindings().len(),
            forall|i: int| 0 <= i < r@.len() ==> binds(#[trigger] r@[i], self.bindings()[i], self.data_view()),
    {
        let mut out: Vec<Attr> = Vec::new();
        let nh = self.class.headers.len();
        let mut i: usize = 0;
        while i < nh
            invariant
                nh == self.class().headers().len(),
                i <= nh,
                out@.len() == i,
                forall|j: int| 0 <= j < i ==> binds(#[trigger] out@[j], self.bindings()[j], self.data_view()),
            decreases nh - i,
        {
            let h = &self.class.headers[i];
            let a = Attr::new(h, h.bit_range(), &self.data);
            out.push(a);
            i = i + 1;
        }
        let na = self.attrs.len();
        let mut k: usize = 0;
        while k < na
            invariant
                nh == self.class().headers().len(),
                na == self.added().len(),
                k <= na,
                out@.len() == nh + k,
                forall|j: int| 0 <= j < nh + k ==> binds(#[trigger] out@[j], self.bindings()[j], self.data_view()),
            decreases na - k,
        {
            let b = &self.attrs[k];
            let a = Attr::new(&b.class, b.bit_start..b.bit_end, &self.data);
            out.push(a);
            k = k + 1;
        }
        out
    }

    /// The first attribute that answers to `id`: headers are searched first,
    /// in declaration order, then the added attributes, in order of addition.
    /// `None` where no attribute answers to it.
    pub fn attr(&self, id: Token) -> (r: Option<Attr>)
        ensures
            first_match(self.bindings(), id) is None ==> r is None,
            first_match(self.bindings(), id) matches Some(k) ==> r matches Some(a) && binds(
                a,
                self.bindings()[k],
                self.data_view(),
            ),
    {
        let ghost all = self.bindings();
        let nh = self.class.headers.len();
        let mut i: usize = 0;
        while i < nh
            invariant
                all == self.bindings(),
                nh == self.class().headers().len(),
                i <= nh,
                forall|j: int| 0 <= j < i ==> !class_matches(#[trigger] *all[j].class, id),
            decreases nh - i,
        {
            let h = &self.class.headers[i];
            if h.is_match(id) {
                proof {
                    lemma_first_match_at(all, id, i as int);
                }
                return Some(Attr::new(h, h.bit_range(), &self.data));
            }
            i = i + 1;
        }
        let na = self.attrs.len();
        let mut k: usize = 0;
        while k < na
            invariant
                all == self.bindings(),
                nh == self.class().headers().len(),
                na == self.added().len(),
                k <= na,
                forall|j: int| 0 <= j < nh + k ==> !class_matches(#[trigger] *all[j].class, id),
            decreases na - k,
        {
            let b = &self.attrs[k];
            if b.class.is_match(id) {
                proof {
                    lemma_first_match_at(all, id, nh + k);
                }
                return Some(Attr::new(&b.class, b.bit_start..b.bit_end, &self.data));
            }
            k = k + 1;
        }
        proof {
            lemma_first_match_none(all, id);
        }
        None
    }

    /// Adds a group of classes: the root (the first) is bound at
    /// `byte_range`, and every other class at its declared bit range shifted
    /// by the distance between the root's declared start and that position.
    pub fn add_attr(&mut self, group: &[Arc<AttrClass>], byte_range: Range<usize>)
        requires
            group@.len() > 0,
            byte_range.start * 8 <= usize::MAX,
            byte_range.end * 8 <= usize::MAX,
            anchorable(group@, byte_range.start * 8),
        ensures
            final(self).class() == old(self).class(),
            final(self).data_view() == old(self).data_view(),
            final(self).payload_view() == old(self).payload_view(),
            final(self).added() == old(self).added() + anchored(
                group@,
                byte_range.start * 8,
                byte_range.end * 8,
            ),
    {
        let ghost want = anchored(group@, byte_range.start * 8, byte_range.end * 8);
        let ghost before = self.attrs@;
        let start: usize = byte_range.start * 8;
        let end: usize = byte_range.end * 8;
        let root = &group[0];
        self.attrs.push(BoundAttr { class: root.clone(), bit_start: start, bit_end: end });
        let forward = start >= root.bit_start;
        let delta: usize = if forward { start - root.bit_start } else { root.bit_start - start };
        let n = group.len();
        let mut i: usize = 1;
        assert(self.attrs@ =~= before + want.take(1));
        while i < n
            invariant
                1 <= i <= n,
                n == group@.len(),
                forward == (start >= group@[0].bit_start),
                delta == (if forward { start - group@[0].bit_start } else { group@[0].bit_start - start }),
                start == byte_range.start * 8,
                end == byte_range.end * 8,
                anchorable(group@, start as int),
                want == anchored(group@, start as int, end as int),
                self.class() == old(self).class(),
                self.data_view() == old(self).data_view(),
                self.payload_view() == old(self).payload_view(),
                before == old(self).added(),
                self.attrs@ == before + want.take(i as int),
            decreases n - i,
        {
            let c = &group[i];
            assert(0 <= group@[i as int].bit_start + (start - group@[0].bit_start) <= usize::MAX);
            let s: usize = if forward { c.bit_start + delta } else { c.bit_start - delta };
            let e: usize = if forward { c.bit_end + delta } else { c.bit_end - delta };
            self.attrs.push(BoundAttr { class: c.clone(), bit_start: s, bit_end: e });
            i = i + 1;
            assert(self.attrs@ =~= before + want.take(i as int));
        }
        assert(want.take(n as int) =~= want);
    }

    /// The payload: the bytes this layer leaves for the next.
    pub fn payload(&self) -> (r: Bytes)
        ensures
            r@ == self.payload_view(),
    {
        self.payload.share()
    }

    /// Replaces the payload whole.
    pub fn set_payload(&mut self, payload: &Bytes)
        ensures
            final(self).class() == old(self).class(),
            final(self).data_view() == old(self).data_view(),
            final(self).added() == old(self).added(),
            final(self).payload_view() == payload@,
    {
        self.payload = payload.share();
    }
}

} // verus!
