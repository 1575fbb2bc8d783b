//! Byte-string helpers shared by the engine and the transaction layer.

use vstd::prelude::*;

verus! {

/// Copies a byte slice into a fresh vector.
pub fn copy_bytes(src: &[u8]) -> (out: Vec<u8>)
    ensures
        out@ == src@,
{
    let mut out: Vec<u8> = Vec::new();
    let mut i: usize = 0;
    while i < src.len()
        invariant
            i <= src.len(),
            out@ == src@.subrange(0, i as int),
        decreases src.len() - i,
    {
        out.push(src[i]);
        i += 1;
        assert(out@ =~= src@.subrange(0, i as int));
    }
    assert(src@.subrange(0, src.len() as int) =~= src@);
    out
}

/// Tells whether two byte slices hold the same bytes.
pub fn bytes_eq(a: &[u8], b: &[u8]) -> (same: bool)
    ensures
        same == (a@ == b@),
{
    if a.len() != b.len() {
        return false;
    }
    let mut i: usize = 0;
    while i < a.len()
        invariant
            i <= a.len(),
            a.len() == b.len(),
            forall|j: int| 0 <= j < i ==> a@[j] == b@[j],
        decreases a.len() - i,
    {
        if a[i] != b[i] {
            return false;
        }
        i += 1;
    }
    assert(a@ =~= b@);
    true
}

/// Wraps `core::str::from_utf8`: the bytes are handed back as text exactly
/// when they are well-formed UTF-8, and the text then decodes to the same
/// characters as the bytes.
#[verifier::external_body]
fn utf8_text(bytes: &[u8]) -> (text: Option<&str>)
    ensures
        text.is_some() == vstd::utf8::valid_utf8(bytes@),
        text matches Some(t) ==> t@ == vstd::utf8::decode_utf8(bytes@),
{
    match core::str::from_utf8(bytes) {
        Ok(t) => Some(t),
        Err(_) => None,
    }
}

/// An owned value read from the database.
#[derive(Debug)]
pub struct DBVector {
    data: Vec<u8>,
}

impl View for DBVector {
    type V = Seq<u8>;

    closed spec fn view(&self) -> Seq<u8> {
        self.data@
    }
}

impl DBVector {
    /// Takes ownership of `data` as a database value.
    pub fn from_vec(data: Vec<u8>) -> (v: DBVector)
        ensures
            v@ == data@,
    {
        DBVector { data }
    }

    /// The bytes of the value.
    pub fn as_slice(&self) -> (s: &[u8])
        ensures
            s@ == self@,
    {
        self.data.as_slice()
    }

    /// A copy of the bytes of the value.
    pub fn to_vec(&self) -> (v: Vec<u8>)
        ensures
            v@ == self@,
    {
        copy_bytes(self.data.as_slice())
    }

    /// Number of bytes in the value.
    pub fn len(&self) -> (n: usize)
        ensures
            n == self@.len(),
    {
        self.data.len()
    }

    /// Whether the value has no bytes.
    pub fn is_empty(&self) -> (b: bool)
        ensures
            b == (self@.len() == 0),
    {
        self.data.len() == 0
    }

    /// The value as text, if it is well-formed UTF-8.
    pub fn to_utf8(&self) -> (text: Option<&str>)
        ensures
            text.is_some() == vstd::utf8::valid_utf8(self@),
            text matches Some(t) ==> t@ == vstd::utf8::decode_utf8(self@),
    {
        utf8_text(self.data.as_slice())
    }
}

impl AsRef<[u8]> for DBVector {
    fn as_ref(&self) -> (s: &[u8])
        ensures
            s@ == self@,
    {
        self.data.as_slice()
    }
}

enum Backing<'a> {
    Pinned(&'a [u8]),
    Owned(Vec<u8>),
}

/// A value read without copying where the engine can lend it out: it either
/// borrows bytes that live inside the store or owns bytes computed for the read.
pub struct DBPinnableSlice<'a> {
    backing: Backing<'a>,
}

impl<'a> View for DBPinnableSlice<'a> {
    type V = Seq<u8>;

    closed spec fn view(&self) -> Seq<u8> {
        match self.backing {
            Backing::Pinned(s) => s@,
            Backing::Owned(v) => v@,
        }
    }
}

impl<'a> DBPinnableSlice<'a> {
    /// A slice that borrows `bytes` from their owner.
    pub fn pinned(bytes: &'a [u8]) -> (s: DBPinnableSlice<'a>)
        ensures
            s@ == bytes@,
            s.is_pinned_spec(),
    {
        DBPinnableSlice { backing: Backing::Pinned(bytes) }
    }

    /// A slice that owns `bytes`.
    pub fn owned(bytes: Vec<u8>) -> (s: DBPinnableSlice<'a>)
        ensures
            s@ == bytes@,
            !s.is_pinned_spec(),
    {
        DBPinnableSlice { backing: Backing::Owned(bytes) }
    }

    /// Whether the bytes are borrowed from the store.
    pub closed spec fn is_pinned_spec(&self) -> bool {
        self.backing is Pinned
    }

    /// Whether the bytes are borrowed from the store.
    pub fn is_pinned(&self) -> (b: bool)
        ensures
            b == self.is_pinned_spec(),
    {
        match &self.backing {
            Backing::Pinned(_) => true,
            Backing::Owned(_) => false,
        }
    }

    /// The bytes of the value.
    pub fn as_slice(&self) -> (s: &[u8])
        ensures
            s@ == self@,
    {
        match &self.backing {
            Backing::Pinned(s) => *s,
            Backing::Owned(v) => v.as_slice(),
        }
    }

    /// A copy of the bytes of the value.
    pub fn to_vec(&self) -> (v: Vec<u8>)
        ensures
            v@ == self@,
    {
        copy_bytes(self.as_slice())
    }

    /// Number of bytes in the value.
    pub fn len(&self) -> (n: usize)
        ensures
            n == self@.len(),
    {
        self.as_slice().len()
    }

    /// Whether the value has no bytes.
    pub fn is_empty(&self) -> (b: bool)
        ensures
            b == (self@.len() == 0),
    {
        self.as_slice().len() == 0
    }
}

/// The bytes of an optional owned value.
pub open spec fn vector_view(v: Option<DBVector>) -> Option<Seq<u8>> {
    match v {
        Some(d) => Some(d@),
        None => None,
    }
}

/// The bytes of an optional pinnable value.
pub open spec fn slice_view(v: Option<DBPinnableSlice<'_>>) -> Option<Seq<u8>> {
    match v {
        Some(d) => Some(d@),
        None => None,
    }
}

} // verus!
