use std::sync::Arc;
use vstd::prelude::*;
use vstd::slice::slice_to_vec;

verus! {

/// A shared, read-only byte buffer. Copies of it share one allocation.
#[derive(Clone, Debug, PartialEq, Eq)]
pub struct Bytes {
    buf: Arc<Vec<u8>>,
}

impl View for Bytes {
    type V = Seq<u8>;

    closed spec fn view(&self) -> Seq<u8> {
        self.buf@
    }
}

/// The bytes of `data` from byte `start` up to byte `end`, cut at the end of
/// `data` where the range runs past it.
pub open spec fn clipped(data: Seq<u8>, start: int, end: int) -> Seq<u8> {
    let s = if start < data.len() { start } else { data.len() as int };
    let e = if end < data.len() { end } else { data.len() as int };
    if s <= e { data.subrange(s, e) } else { Seq::empty() }
}

impl Bytes {
    /// An empty buffer.
    pub fn new() -> (r: Bytes)
        ensures
            r@ == Seq::<u8>::empty(),
    {
        Bytes { buf: Arc::new(Vec::new()) }
    }

    /// A buffer that takes over the given vector.
    pub fn from_vec(v: Vec<u8>) -> (r: Bytes)
        ensures
            r@ == v@,
    {
        Bytes { buf: Arc::new(v) }
    }

    /// A buffer holding a copy of the given bytes.
    pub fn from_slice(s: &[u8]) -> (r: Bytes)
        ensures
            r@ == s@,
    {
        Bytes { buf: Arc::new(slice_to_vec(s)) }
    }

    /// Another handle on the same bytes, without copying them.
    pub fn share(&self) -> (r: Bytes)
        ensures
            r@ == self@,
    {
        Bytes { buf: self.buf.clone() }
    }

    pub fn len(&self) -> (r: usize)
        ensures
            r == self@.len(),
    {
        self.buf.len()
    }

    pub fn is_empty(&self) -> (r: bool)
        ensures
            r == (self@.len() == 0),
    {
        self.buf.len() == 0
    }

    pub fn as_slice(&self) -> (r: &[u8])
        ensures
            r@ == self@,
    {
        self.buf.as_slice()
    }

    /// A copy of the bytes from `start` up to `end`, cut at the end of the
    /// buffer.
    pub fn copy_range(&self, start: usize, end: usize) -> (r: Vec<u8>)
        ensures
            r@ == clipped(self@, start as int, end as int),
    {
        let len = self.buf.len();
        let s: usize = if start < len { start } else { len };
        let e: usize = if end < len { end } else { len };
        let mut out: Vec<u8> = Vec::new();
        if s <= e {
            let mut i: usize = s;
            while i < e
                invariant
                    s <= i <= e,
                    e <= len,
                    len == self@.len(),
                    out@ == self@.subrange(s as int, i as int),
                decreases e - i,
            {
                out.push(self.buf[i]);
                i = i + 1;
                assert(out@ =~= self@.subrange(s as int, i as int));
            }
        }
        assert(out@ =~= clipped(self@, start as int, end as int));
        out
    }
}

} // verus!
