use genet_abi::attr::AttrClass;
use genet_abi::bytes::Bytes;
use genet_abi::cast::{Cast, DecodeError, Func};
use genet_abi::layer::{FieldDecl, Layer, LayerClass, LayerType};
use genet_abi::stack::{LayerStack, LayerStackData};
use genet_abi::token::{Interner, Token};
use genet_abi::variant::Variant;
use std::sync::Arc;

fn class_of(headers: Vec<Arc<AttrClass>>) -> Arc<LayerClass> {
    Arc::new(LayerClass::builder(headers).build())
}

#[test]
fn id() {
    let id = Token::from(123);
    let attr = vec![Arc::new(AttrClass::builder(id).build())];
    let class = class_of(attr);
    let layer = Layer::new(&class, &Bytes::new());
    assert_eq!(layer.id(), id);
}

#[test]
fn data() {
    let data = b"hello";
    let attr = vec![Arc::new(AttrClass::builder(Token::null()).build())];
    let class = class_of(attr);
    let layer = Layer::new(&class, &Bytes::from_slice(&data[..]));
    assert_eq!(layer.data(), Bytes::from_slice(&data[..]));
}

#[test]
fn attrs() {
    let mut names = Interner::new();
    let nil = names.intern("nil");
    let nil_type = names.intern("@nil");
    let attr = vec![Arc::new(AttrClass::builder(Token::null()).build())];
    let class = class_of(attr);
    let mut layer = Layer::new(&class, &Bytes::new());

    let group = vec![Arc::new(
        AttrClass::builder(nil).typ(nil_type).cast(Cast::Nil).build(),
    )];

    let count = 100;
    for i in 0..count {
        layer.add_attr(&group, 0..i);
    }
    let mut iter = layer.attrs().into_iter();
    iter.next();
    for i in 0..count {
        let attr = iter.next().unwrap();
        assert_eq!(attr.id(), names.intern("nil"));
        assert_eq!(attr.typ(), names.intern("@nil"));
        assert_eq!(attr.byte_range(), 0..i);
    }
    assert!(iter.next().is_none());
}

#[test]
fn slice_cast_reads_back_its_bytes() {
    let buf = Bytes::from_slice(&[9, 8, 7, 6, 5]);
    let class = Arc::new(AttrClass::builder(Token::from(1)).bit_range(8..32).cast(Cast::Slice).build());
    let layer_class = class_of(vec![class]);
    let layer = Layer::new(&layer_class, &buf);
    let attr = layer.attr(Token::from(1)).unwrap();
    assert_eq!(attr.value(), Ok(Variant::Slice(vec![8, 7, 6])));
}

#[test]
fn anchoring_translates_the_whole_group() {
    let root = Arc::new(AttrClass::builder(Token::from(10)).bit_range(100..108).build());
    let dep = Arc::new(AttrClass::builder(Token::from(11)).bit_range(108..116).build());
    let header = Arc::new(AttrClass::builder(Token::from(1)).build());
    let mut layer = Layer::new(&class_of(vec![header]), &Bytes::from_slice(&[1, 2]));
    layer.add_attr(&vec![root, dep], 0..1);
    let attrs = layer.attrs();
    assert_eq!(attrs.len(), 3);
    assert_eq!(attrs[1].bit_range(), 0..8);
    assert_eq!(attrs[2].bit_range(), 8..16);
}

#[test]
fn anchoring_forward_keeps_gap() {
    let root = Arc::new(AttrClass::builder(Token::from(10)).bit_range(0..8).build());
    let dep = Arc::new(AttrClass::builder(Token::from(11)).bit_range(16..20).build());
    let header = Arc::new(AttrClass::builder(Token::from(1)).build());
    let mut layer = Layer::new(&class_of(vec![header]), &Bytes::new());
    layer.add_attr(&vec![root, dep], 3..4);
    let attrs = layer.attrs();
    assert_eq!(attrs[1].bit_range(), 24..32);
    assert_eq!(attrs[2].bit_range(), 40..44);
}

#[test]
fn header_wins_over_added_attributes() {
    let t = Token::from(5);
    let header = Arc::new(AttrClass::builder(t).bit_range(0..8).cast(Cast::UIntBe(1)).build());
    let mut layer = Layer::new(&class_of(vec![header]), &Bytes::from_slice(&[42, 43]));
    let added = vec![Arc::new(AttrClass::builder(t).bit_range(8..16).cast(Cast::UIntBe(1)).build())];
    for _ in 0..3 {
        layer.add_attr(&added, 1..2);
    }
    let attr = layer.attr(t).unwrap();
    assert_eq!(attr.bit_range(), 0..8);
    assert_eq!(attr.value(), Ok(Variant::UInt64(42)));
}

#[test]
fn alias_resolves_and_miss_is_none() {
    let header = Arc::new(AttrClass::builder(Token::from(1)).alias(Token::from(2)).build());
    let layer = Layer::new(&class_of(vec![header]), &Bytes::new());
    assert_eq!(layer.attr(Token::from(2)).unwrap().id(), Token::from(1));
    assert!(layer.attr(Token::from(3)).is_none());
}

#[test]
fn reading_twice_gives_the_same_value() {
    let header = Arc::new(AttrClass::builder(Token::from(1)).bit_range(0..16).cast(Cast::UIntBe(2)).build());
    let layer = Layer::new(&class_of(vec![header]), &Bytes::from_slice(&[0x12, 0x34]));
    let attr = layer.attr(Token::from(1)).unwrap();
    assert_eq!(attr.value(), attr.value());
    assert_eq!(attr.value(), Ok(Variant::UInt64(0x1234)));
}

#[test]
fn map_then_map_equals_composed_map() {
    let data = [0xf3u8, 0x01];
    let twice = Cast::UIntBe(1).map(Func::Mask(0x0f)).map(Func::Equals(3));
    let once = Cast::UIntBe(1).map(Func::Mask(0x0f).then(Func::Equals(3)));
    assert_eq!(twice.cast(&data), Ok(Variant::Bool(true)));
    assert_eq!(twice.cast(&data), once.cast(&data));
    assert_eq!(twice.cast(&[]), Err(DecodeError::TooShort));
    assert_eq!(once.cast(&[]), Err(DecodeError::TooShort));
}

#[test]
fn attrs_list_headers_then_added_in_order() {
    let h0 = Arc::new(AttrClass::builder(Token::from(1)).bit_range(0..8).build());
    let h1 = Arc::new(AttrClass::builder(Token::from(2)).bit_range(8..16).build());
    let mut layer = Layer::new(&class_of(vec![h0, h1]), &Bytes::new());
    layer.add_attr(&vec![Arc::new(AttrClass::builder(Token::from(3)).build())], 2..3);
    layer.add_attr(&vec![Arc::new(AttrClass::builder(Token::from(4)).build())], 3..4);
    let ids: Vec<Token> = layer.attrs().iter().map(|a| a.id()).collect();
    assert_eq!(ids, vec![Token::from(1), Token::from(2), Token::from(3), Token::from(4)]);
}

#[test]
fn end_to_end_flag() {
    let mut names = Interner::new();
    let proto = names.intern("proto");
    let flag = names.intern("flag");
    let path = names.join(proto, flag).unwrap();
    assert_eq!(names.name(path), Some("proto.flag"));
    let header = Arc::new(AttrClass::builder(path).bit_range(0..8).cast(Cast::NonZero).build());
    let layer = Layer::new(&class_of(vec![header]), &Bytes::from_slice(&[0x01, 0x02]));
    let attr = layer.attr(names.intern("proto.flag")).unwrap();
    assert_eq!(attr.id(), path);
    assert_eq!(attr.value(), Ok(Variant::Bool(true)));
}

#[test]
fn casts_and_their_errors() {
    assert_eq!(Cast::Nil.cast(&[]), Ok(Variant::Nil));
    assert_eq!(Cast::Present.cast(&[]), Ok(Variant::Bool(true)));
    assert_eq!(Cast::NonZero.cast(&[0]), Ok(Variant::Bool(false)));
    assert_eq!(Cast::NonZero.cast(&[]), Err(DecodeError::TooShort));
    assert_eq!(Cast::Flag.cast(&[1]), Ok(Variant::Bool(true)));
    assert_eq!(Cast::Flag.cast(&[2]), Err(DecodeError::Invalid));
    assert_eq!(Cast::UIntBe(3).cast(&[1, 2]), Err(DecodeError::TooShort));
    assert_eq!(Cast::UIntBe(9).cast(&[0; 9]), Err(DecodeError::Invalid));
    assert_eq!(
        Cast::UIntBe(8).cast(&[0xff; 8]),
        Ok(Variant::UInt64(u64::MAX))
    );
    assert_eq!(Cast::Int8.cast(&[0xfe]), Ok(Variant::Int64(-2)));
    assert_eq!(Cast::Int8.cast(&[]), Err(DecodeError::TooShort));
    assert_eq!(
        Cast::UIntBe(2).map(Func::ShiftRight(4)).cast(&[0x12, 0x34]),
        Ok(Variant::UInt64(0x123))
    );
    assert_eq!(Cast::NonZero.map(Func::Not).cast(&[0]), Ok(Variant::Bool(true)));
    assert_eq!(Cast::UIntBe(1).bit_size(), Some(8));
    assert_eq!(Cast::Slice.bit_size(), None);
}

#[test]
fn attribute_past_the_data_is_too_short() {
    let header = Arc::new(AttrClass::builder(Token::from(1)).bit_range(16..24).cast(Cast::UIntBe(1)).build());
    let layer = Layer::new(&class_of(vec![header]), &Bytes::from_slice(&[1, 2]));
    assert_eq!(layer.attr(Token::from(1)).unwrap().value(), Err(DecodeError::TooShort));
}

#[test]
fn payload_is_replaced_not_appended() {
    let header = Arc::new(AttrClass::builder(Token::from(1)).build());
    let mut layer = Layer::new(&class_of(vec![header]), &Bytes::new());
    assert!(layer.payload().is_empty());
    layer.set_payload(&Bytes::from_slice(&[1, 2, 3]));
    layer.set_payload(&Bytes::from_slice(&[4]));
    assert_eq!(layer.payload(), Bytes::from_slice(&[4]));
}

#[test]
fn stack_children_are_appended() {
    let class = class_of(vec![Arc::new(AttrClass::builder(Token::from(1)).build())]);
    let child_a = class_of(vec![Arc::new(AttrClass::builder(Token::from(2)).build())]);
    let child_b = class_of(vec![Arc::new(AttrClass::builder(Token::from(3)).build())]);
    let mut data = LayerStackData::new();
    let mut layer = Layer::new(&class, &Bytes::from_slice(&[7]));
    {
        let mut stack = LayerStack::from_mut_ref(&mut data, &mut layer);
        assert!(stack.top().is_none());
        assert!(stack.bottom().is_none());
        assert_eq!(stack.id(), Token::from(1));
        stack.add_child(Layer::new(&child_a, &Bytes::new()));
        stack.add_child(Layer::new(&child_b, &Bytes::new()));
        assert_eq!(stack.bottom().unwrap().id(), Token::from(2));
        assert_eq!(stack.top().unwrap().id(), Token::from(3));
        stack.set_payload(&Bytes::from_slice(&[9]));
        assert_eq!(stack.depth(), 0);
    }
    assert_eq!(data.children.len(), 2);
    assert_eq!(layer.payload(), Bytes::from_slice(&[9]));
}

#[test]
fn layer_type_lays_fields_out_consecutively() {
    let fields = vec![
        FieldDecl { id: Token::from(2), typ: Token::null(), bit_size: 4, cast: Cast::Nil },
        FieldDecl { id: Token::from(3), typ: Token::null(), bit_size: 16, cast: Cast::UIntBe(2) },
    ];
    let lt = LayerType::new(Token::from(1), Token::from(9), &fields);
    let class = lt.layer_class();
    assert_eq!(class.header_count(), 3);
    assert_eq!(class.header(0).bit_range(), 0..20);
    assert_eq!(class.header(1).bit_range(), 0..4);
    assert_eq!(class.header(2).bit_range(), 4..20);
    assert_eq!(lt.byte_size(), 3);
    let layer = Layer::new(class, &Bytes::from_slice(&[0; 3]));
    assert_eq!(layer.attr(Token::from(1)).unwrap().value(), Ok(Variant::Bool(true)));
}

#[test]
fn interner_gives_one_token_per_name() {
    let mut names = Interner::new();
    let a = names.intern("eth");
    let b = names.intern("ipv4");
    assert_ne!(a, b);
    assert_eq!(names.intern("eth"), a);
    assert_eq!(names.len(), 2);
    assert_eq!(names.name(b), Some("ipv4"));
    assert_eq!(names.name(Token::null()), None);
    assert!(names.join(a, Token::from(77)).is_none());
}

#[test]
fn duplicate_copies_nested_values() {
    let v = Variant::Table(vec![
        ("a".to_string(), Variant::Array(vec![Variant::UInt64(1), Variant::Nil])),
        ("b".to_string(), Variant::Str("x".to_string())),
    ]);
    let d = v.duplicate();
    assert_eq!(d, v);
    assert!(!d.is_nil());
    assert!(Variant::Nil.duplicate().is_nil());
}
