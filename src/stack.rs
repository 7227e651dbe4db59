use crate::attr::{Attr, AttrClass};
use crate::bytes::Bytes;
use crate::layer::{anchorable, anchored, binds, first_match, Layer};
use crate::token::Token;
use std::ops::Range;
use std::sync::Arc;
use vstd::prelude::*;

verus! {

/// The children of one dissection call: storage that belongs to the caller
/// and that a `LayerStack` only appends to.
pub struct LayerStackData {
    pub children: Vec<Layer>,
}

impl LayerStackData {
    pub fn new() -> (r: LayerStackData)
        ensures
            r.children@ == Seq::<Layer>::empty(),
    {
        LayerStackData { children: Vec::new() }
    }
}

/// A call-scoped view of the current layer together with the caller's
/// children storage, which it can only grow.
pub struct LayerStack<'a> {
    data: &'a mut LayerStackData,
    depth: u8,
    layer: &'a mut Layer,
}

impl<'a> LayerStack<'a> {
    /// The children added so far, first added first.
    pub closed spec fn children(&self) -> Seq<Layer> {
        self.data.children@
    }

    /// The current layer.
    pub closed spec fn current(&self) -> Layer {
        *self.layer
    }

    /// How deeply the current layer is nested.
    pub closed spec fn depth_spec(&self) -> u8 {
        self.depth
    }

    pub fn from_mut_ref(stack: &'a mut LayerStackData, layer: &'a mut Layer) -> (r: LayerStack<'a>)
        ensures
            r.children() == old(stack).children@,
            r.current() == *old(layer),
            r.depth_spec() == 0,
    {
        LayerStack { data: stack, depth: 0, layer }
    }

    pub fn depth(&self) -> (r: u8)
        ensures
            r == self.depth_spec(),
    {
        self.depth
    }

    /// The current layer.
    pub fn layer(&self) -> (r: &Layer)
        ensures
            *r == self.current(),
    {
        &*self.layer
    }

    pub fn id(&self) -> (r: Token)
        requires
            self.current().has_id(),
        ensures
            r == self.current().class().headers()[0].id,
    {
        self.layer.id()
    }

    pub fn data(&self) -> (r: Bytes)
        ensures
            r@ == self.current().data_view(),
    {
        self.layer.data()
    }

    pub fn attrs(&self) -> (r: Vec<Attr>)
        ensures
            r@.len() == self.current().bindings().len(),
            forall|i: int|
                0 <= i < r@.len() ==> binds(
                    #[trigger] r@[i],
                    self.current().bindings()[i],
                    self.current().data_view(),
                ),
    {
        self.layer.attrs()
    }

    pub fn attr(&self, id: Token) -> (r: Option<Attr>)
        ensures
            first_match(self.current().bindings(), id) is None ==> r is None,
            first_match(self.current().bindings(), id) matches Some(k) ==> r matches Some(a)
                && binds(a, self.current().bindings()[k], self.current().data_view()),
    {
        self.layer.attr(id)
    }

    pub fn add_attr(&mut self, group: &[Arc<AttrClass>], byte_range: Range<usize>)
        requires
            group@.len() > 0,
            byte_range.start * 8 <= usize::MAX,
            byte_range.end * 8 <= usize::MAX,
            anchorable(group@, byte_range.start * 8),
        ensures
            final(self).children() == old(self).children(),
            final(self).depth_spec() == old(self).depth_spec(),
            final(self).current().class() == old(self).current().class(),
            final(self).current().data_view() == old(self).current().data_view(),
            final(self).current().payload_view() == old(self).current().payload_view(),
            final(self).current().added() == old(self).current().added() + anchored(
                group@,
                byte_range.start * 8,
                byte_range.end * 8,
            ),
    {
        self.layer.add_attr(group, byte_range);
    }

    pub fn payload(&self) -> (r: Bytes)
        ensures
            r@ == self.current().payload_view(),
    {
        self.layer.payload()
    }

    pub fn set_payload(&mut self, payload: &Bytes)
        ensures
            final(self).children() == old(self).children(),
            final(self).depth_spec() == old(self).depth_spec(),
            final(self).current().class() == old(self).current().class(),
            final(self).current().data_view() == old(self).current().data_view(),
            final(self).current().added() == old(self).current().added(),
            final(self).current().payload_view() == payload@,
    {
        self.layer.set_payload(payload);
    }

    /// Hands a new layer over to the caller's children storage, at its end.
    pub fn add_child(&mut self, layer: Layer)
        ensures
            final(self).children() == old(self).children().push(layer),
            final(self).current() == old(self).current(),
            final(self).depth_spec() == old(self).depth_spec(),
    {
        self.data.children.push(layer);
    }

    /// The children added so far.
    pub fn children_ref(&self) -> (r: &Vec<Layer>)
        ensures
            r@ == self.children(),
    {
        &self.data.children
    }

    /// The child added last.
    pub fn top(&self) -> (r: Option<&Layer>)
        ensures
            self.children().len() == 0 ==> r is None,
            self.children().len() > 0 ==> (r matches Some(l) && *l == self.children().last()),
    {
        let n = self.data.children.len();
        if n == 0 {
            None
        } else {
            Some(&self.data.children[n - 1])
        }
    }

    /// The child added first.
    pub fn bottom(&self) -> (r: Option<&Layer>)
        ensures
            self.children().len() == 0 ==> r is None,
            self.children().len() > 0 ==> (r matches Some(l) && *l == self.children()[0]),
    {
        if self.data.children.len() == 0 {
            None
        } else {
            Some(&self.data.children[0])
        }
    }
}

} // verus!
