use crate::attr::{attr_bytes, attr_value, class_matches, Attr, AttrClass};
use crate::cast::{apply, cast_value, Cast, DecodeError, Func};
use crate::layer::{
    anchorable, anchored, first_match, header_binding, lemma_first_match_at,
    lemma_first_match_facts, BoundAttr, Layer,
};
use crate::token::Token;
use crate::variant::Value;
use std::sync::Arc;
use vstd::prelude::*;

verus! {

/// Reading an attribute with the byte-slice cast, bound at whole bytes
/// `[start, end)` of its data, gives exactly those bytes.
pub proof fn lemma_slice_round_trip(a: Attr, start: int, end: int)
    requires
        a.class.cast == Cast::Slice,
        a.bit_start == 8 * start,
        a.bit_end == 8 * end,
        0 <= start <= end <= a.data@.len(),
    ensures
        attr_value(a) == Ok::<Value, DecodeError>(Value::Slice(a.data@.subrange(start, end))),
{
    assert(a.bit_start as int / 8 == start);
    assert(a.bit_end as int % 8 == 0 && a.bit_end as int / 8 == end);
    assert(attr_bytes(a) == a.data@.subrange(start, end));
}

/// Anchoring a group keeps every class's distance from the root and its
/// width: class `i` lands as far from where the root lands as it was
/// declared from the root's declared start.
pub proof fn lemma_anchoring_keeps_spacing(
    group: Seq<Arc<AttrClass>>,
    start: int,
    end: int,
    i: int,
)
    requires
        0 <= start <= usize::MAX,
        0 <= end <= usize::MAX,
        1 <= i < group.len(),
        anchorable(group, start),
    ensures
        anchored(group, start, end)[0].bit_start == start,
        anchored(group, start, end)[0].bit_end == end,
        anchored(group, start, end)[i].bit_start - start == group[i].bit_start
            - group[0].bit_start,
        anchored(group, start, end)[i].bit_end - anchored(group, start, end)[i].bit_start
            == group[i].bit_end - group[i].bit_start,
{
    assert(0 <= group[i].bit_start + (start - group[0].bit_start) <= usize::MAX);
}

/// Where a header answers to `id`, lookup settles on a header: the first
/// one that answers, never an added attribute.
pub proof fn lemma_headers_take_precedence(layer: Layer, id: Token, h: int)
    requires
        0 <= h < layer.class().headers().len(),
        class_matches(*layer.class().headers()[h], id),
    ensures
        first_match(layer.bindings(), id) matches Some(k) && k <= h && k
            < layer.class().headers().len() && layer.bindings()[k].class
            == layer.class().headers()[k],
{
    let s = layer.bindings();
    let hs = layer.class().headers();
    assert(s[h] == header_binding(hs[h]));
    lemma_first_match_facts(s, id);
    if let Some(k) = first_match(s, id) {
        if k > h {
            assert(!class_matches(*s[h].class, id));
        }
        assert(s[k] == header_binding(hs[k]));
    }
}

/// Two reads of one attribute over the same bytes give the same result.
pub proof fn lemma_reads_agree(a: Attr, b: Attr)
    requires
        a.class == b.class,
        a.bit_start == b.bit_start,
        a.bit_end == b.bit_end,
        a.data@ == b.data@,
    ensures
        attr_value(a) == attr_value(b),
{
}

/// Mapping a cast by `f` and then by `g` is the cast mapped once by `f`
/// followed by `g`, on every input.
pub proof fn lemma_map_composition(c: Cast, f: Func, g: Func, s: Seq<u8>)
    ensures
        cast_value(Cast::Mapped(Box::new(Cast::Mapped(Box::new(c), f)), g), s) == cast_value(
            Cast::Mapped(Box::new(c), Func::Then(Box::new(f), Box::new(g))),
            s,
        ),
{
    let inner = Cast::Mapped(Box::new(c), f);
    assert(cast_value(inner, s) == match cast_value(c, s) {
        Ok(v) => Ok(apply(f, v)),
        Err(e) => Err(e),
    });
    if let Ok(v) = cast_value(c, s) {
        assert(apply(Func::Then(Box::new(f), Box::new(g)), v) == apply(g, apply(f, v)));
    }
}

/// Adding attributes keeps what the layer listed and puts the new ones
/// after it, in the order they were added.
pub proof fn lemma_added_attrs_follow(before: Layer, after: Layer, added: Seq<BoundAttr>)
    requires
        after.class() == before.class(),
        after.added() == before.added() + added,
    ensures
        after.bindings() == before.bindings() + added,
        after.bindings().take(before.bindings().len() as int) == before.bindings(),
{
    assert(after.bindings() =~= before.bindings() + added);
    assert(after.bindings().take(before.bindings().len() as int) =~= before.bindings());
}

} // verus!
