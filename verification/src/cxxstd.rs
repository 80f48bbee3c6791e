//! Models of the foreign C++ runtime types the toolkit reads and writes.
//!
//! The target binary keeps wide strings with a small-string optimization:
//! up to [`SMALL_STRING_SIZE`] code units live in an inline buffer, longer
//! strings move to a heap allocation owned by the foreign allocator. That
//! inline/heap split is modelled here and nowhere else; the rest of the
//! crate sees only the code-unit content.

use vstd::prelude::*;

use crate::wide::{decode_utf16, encode_utf16, utf16_decode, utf16_encode};

verus! {

/// The largest number of code units the inline buffer of a foreign string
/// holds before the content moves to the heap.
pub const SMALL_STRING_SIZE: usize = 7;

enum WideStorage {
    Inline(Vec<u16>),
    Heap(Vec<u16>),
}

/// A foreign wide string: length-prefixed code units, inline when short,
/// heap-allocated by the foreign runtime when long.
pub struct CxxString {
    storage: WideStorage,
}

impl View for CxxString {
    type V = Seq<u16>;

    closed spec fn view(&self) -> Seq<u16> {
        match self.storage {
            WideStorage::Inline(v) => v@,
            WideStorage::Heap(v) => v@,
        }
    }
}

impl CxxString {
    /// The representation discipline: content at or under the inline
    /// capacity sits in the inline buffer, anything longer on the heap.
    pub closed spec fn wf(&self) -> bool {
        match self.storage {
            WideStorage::Inline(v) => v@.len() <= SMALL_STRING_SIZE,
            WideStorage::Heap(v) => v@.len() > SMALL_STRING_SIZE,
        }
    }

    /// Whether the content currently lives in the inline buffer.
    pub closed spec fn uses_inline(&self) -> bool {
        self.storage is Inline
    }

    /// An empty foreign string: no content, inline representation.
    pub fn new() -> (r: CxxString)
        ensures
            r@ == Seq::<u16>::empty(),
            r.wf(),
            r.uses_inline(),
    {
        let r = CxxString { storage: WideStorage::Inline(Vec::new()) };
        proof {
            assert(r@ =~= Seq::<u16>::empty());
        }
        r
    }

    /// Encodes a host string into its foreign wide form, choosing the
    /// inline buffer exactly when the encoded length fits it.
    pub fn from_str(s: &str) -> (r: CxxString)
        ensures
            r@ == utf16_encode(s@),
            r.wf(),
            r.uses_inline() <==> utf16_encode(s@).len() <= SMALL_STRING_SIZE,
    {
        let units = encode_utf16(s);
        if units.len() <= SMALL_STRING_SIZE {
            CxxString { storage: WideStorage::Inline(units) }
        } else {
            CxxString { storage: WideStorage::Heap(units) }
        }
    }

    /// The number of code units stored.
    pub fn len(&self) -> (n: usize)
        ensures
            n == self@.len(),
    {
        match &self.storage {
            WideStorage::Inline(v) => v.len(),
            WideStorage::Heap(v) => v.len(),
        }
    }

    /// Decodes the foreign content back into a host string; `None` exactly
    /// when the stored units are not a valid encoding. An empty string
    /// decodes to the empty result without touching any buffer content.
    pub fn string(&self) -> (r: Option<String>)
        ensures
            match r {
                Some(t) => utf16_decode(self@) == Some(t@),
                None => utf16_decode(self@) is None,
            },
    {
        let units = match &self.storage {
            WideStorage::Inline(v) => v,
            WideStorage::Heap(v) => v,
        };
        match decode_utf16(units.as_slice()) {
            Some(chars) => Some(crate::strutil::string_from_chars(&chars)),
            None => None,
        }
    }
}

/// Round trip: decoding the foreign form of any host string always
/// succeeds and gives back exactly that string, whichever side of the
/// inline/heap boundary its length falls on.
pub fn foreign_string_round_trip(s: &str) -> (r: Option<String>)
    ensures
        r matches Some(t) && t@ == s@,
{
    proof {
        crate::wide::lemma_utf16_round_trip(s@);
    }
    let foreign = CxxString::from_str(s);
    foreign.string()
}

/// A non-owning view of foreign wide text: a pointer and a length on the
/// foreign side, the unit content here.
pub struct CxxStringView {
    units: Vec<u16>,
}

impl View for CxxStringView {
    type V = Seq<u16>;

    closed spec fn view(&self) -> Seq<u16> {
        self.units@
    }
}

impl CxxStringView {
    /// Encodes a host string into the units a foreign view would present.
    pub fn from_str(s: &str) -> (r: CxxStringView)
        ensures
            r@ == utf16_encode(s@),
    {
        CxxStringView { units: encode_utf16(s) }
    }

    /// Decodes the viewed units; `None` exactly when they are not a valid
    /// encoding.
    pub fn string(&self) -> (r: Option<String>)
        ensures
            match r {
                Some(t) => utf16_decode(self@) == Some(t@),
                None => utf16_decode(self@) is None,
            },
    {
        match decode_utf16(self.units.as_slice()) {
            Some(chars) => Some(crate::strutil::string_from_chars(&chars)),
            None => None,
        }
    }
}

/// The three-pointer layout of a foreign vector: start of storage, one
/// past the last element, one past the allocation.
#[derive(Clone, Copy, PartialEq, Eq, Structural, Debug)]
pub struct CxxVector {
    pub first: u64,
    pub last: u64,
    pub end: u64,
}

impl CxxVector {
    /// A plausible foreign vector keeps its three pointers ordered.
    pub open spec fn wf(&self) -> bool {
        self.first <= self.last <= self.end
    }

    /// Whether the vector holds no elements: its begin and end pointers
    /// coincide.
    pub fn is_empty(&self) -> (r: bool)
        ensures
            r == (self.first == self.last),
    {
        self.first == self.last
    }

    /// The number of bytes occupied by elements.
    pub fn byte_len(&self) -> (n: u64)
        requires
            self.wf(),
        ensures
            n == self.last - self.first,
    {
        self.last - self.first
    }
}

/// The single-pointer layout of a foreign unique-ownership handle.
#[derive(Clone, Copy, PartialEq, Eq, Structural, Debug)]
pub struct CxxUniquePtr {
    pub ptr: u64,
}

impl CxxUniquePtr {
    /// The held address.
    pub fn get(&self) -> (a: u64)
        ensures
            a == self.ptr,
    {
        self.ptr
    }
}

} // verus!
