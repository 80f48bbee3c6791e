//! Signature scanning over a module image.
//!
//! The image is handed in as plain bytes together with the bounds it was
//! mapped at; a scan is a single forward pass that returns the leftmost
//! offset where every non-wildcard token of the pattern equals the
//! corresponding byte.

use vstd::prelude::*;

use crate::pattern::{spec_pattern, Pattern, Token};

verus! {

/// Whether one token accepts one byte: a wildcard accepts every byte value,
/// an exact token only its own.
pub open spec fn token_matches(t: Token, b: u8) -> bool {
    match t {
        Token::Byte(v) => b == v,
        Token::Any => true,
    }
}

/// Whether the whole pattern matches the bytes of `data` starting at offset `i`.
pub open spec fn matches_at(pat: Seq<Token>, data: Seq<u8>, i: int) -> bool {
    &&& 0 <= i
    &&& i + pat.len() <= data.len()
    &&& forall|j: int| 0 <= j < pat.len() ==> token_matches(pat[j], data[i + j])
}

/// The smallest offset at or after `from` where the pattern matches, or
/// `None` when no complete match starts at or after `from`.
pub open spec fn first_match_from(pat: Seq<Token>, data: Seq<u8>, from: int) -> Option<int>
    decreases data.len() - from when 0 <= from
{
    if from < 0 || from + pat.len() > data.len() {
        None
    } else if matches_at(pat, data, from) {
        Some(from)
    } else {
        first_match_from(pat, data, from + 1)
    }
}

/// A scan returns the leftmost match: on `Some(i)`, the pattern matches at
/// `i`, `i` is at or after `from`, and no earlier offset at or after `from`
/// matches; on `None`, no offset at or after `from` matches at all.
pub proof fn lemma_first_match_leftmost(pat: Seq<Token>, data: Seq<u8>, from: int)
    requires
        0 <= from,
    ensures
        match first_match_from(pat, data, from) {
            Some(i) => {
                &&& from <= i
                &&& matches_at(pat, data, i)
                &&& forall|k: int| from <= k < i ==> !matches_at(pat, data, k)
            },
            None => forall|k: int| from <= k ==> !matches_at(pat, data, k),
        },
    decreases data.len() - from,
{
    if from + pat.len() > data.len() {
        assert(forall|k: int| from <= k ==> !matches_at(pat, data, k));
    } else if matches_at(pat, data, from) {
    } else {
        lemma_first_match_leftmost(pat, data, from + 1);
    }
}

/// A wildcard token accepts every byte value, 0x00 and 0xff included.
pub proof fn lemma_wildcard_matches_any(b: u8)
    ensures
        token_matches(Token::Any, b),
{
}

/// A pattern with no exact tokens matches a sufficiently long buffer at the
/// earliest possible position, offset zero.
pub proof fn lemma_all_wildcards_match_first(pat: Seq<Token>, data: Seq<u8>)
    requires
        forall|j: int| 0 <= j < pat.len() ==> pat[j] is Any,
        pat.len() <= data.len(),
    ensures
        first_match_from(pat, data, 0) == Some(0int),
{
    assert(matches_at(pat, data, 0));
}

fn pattern_matches_here(pat: &Pattern, data: &[u8], i: usize) -> (r: bool)
    requires
        i + pat@.len() <= data@.len(),
    ensures
        r == matches_at(pat@, data@, i as int),
{
    let n = pat.len();
    let dlen = data.len();
    let mut j: usize = 0;
    while j < n
        invariant
            j <= n,
            n == pat@.len(),
            dlen == data@.len(),
            i + pat@.len() <= data@.len(),
            forall|k: int| 0 <= k < j ==> token_matches(pat@[k], data@[i + k]),
        decreases n - j,
    {
        let ok = match pat.token(j) {
            Token::Any => true,
            Token::Byte(v) => data[i + j] == v,
        };
        if !ok {
            return false;
        }
        j = j + 1;
    }
    true
}

/// Scans the image bytes for the leftmost match of the compiled pattern at
/// or after offset `from`.
pub fn scan_from(pat: &Pattern, data: &[u8], from: usize) -> (r: Option<usize>)
    ensures
        match r {
            Some(i) => first_match_from(pat@, data@, from as int) == Some(i as int),
            None => first_match_from(pat@, data@, from as int) is None,
        },
{
    let n = data.len();
    let plen = pat.len();
    let mut i: usize = from;
    while i <= n && n - i >= plen
        invariant
            from <= i,
            n == data@.len(),
            plen == pat@.len(),
            first_match_from(pat@, data@, from as int) == first_match_from(
                pat@,
                data@,
                i as int,
            ),
        decreases n - i,
    {
        if pattern_matches_here(pat, data, i) {
            return Some(i);
        }
        i = i + 1;
    }
    None
}

/// Scans the whole image for the leftmost match of the compiled pattern.
pub fn scan(pat: &Pattern, data: &[u8]) -> (r: Option<usize>)
    ensures
        match r {
            Some(i) => first_match_from(pat@, data@, 0) == Some(i as int),
            None => first_match_from(pat@, data@, 0) is None,
        },
{
    scan_from(pat, data, 0)
}

/// Compiles a signature text and scans the whole image for its leftmost
/// match. The text must be a valid signature; `compile` reports a bad one.
pub fn signature_scan(pattern: &str, data: &[u8]) -> (r: Option<usize>)
    requires
        spec_pattern(pattern@) is Some,
    ensures
        match r {
            Some(i) => first_match_from(spec_pattern(pattern@).unwrap(), data@, 0) == Some(
                i as int,
            ),
            None => first_match_from(spec_pattern(pattern@).unwrap(), data@, 0) is None,
        },
{
    let compiled = crate::pattern::compile(pattern);
    match compiled {
        Some(p) => scan(&p, data),
        None => None,
    }
}

/// Compiles a signature text and scans for its leftmost match at or after
/// the image offset `start`. The text must be a valid signature; `compile`
/// reports a bad one.
pub fn signature_scan_from_addr(pattern: &str, data: &[u8], start: usize) -> (r: Option<usize>)
    requires
        spec_pattern(pattern@) is Some,
    ensures
        match r {
            Some(i) => first_match_from(spec_pattern(pattern@).unwrap(), data@, start as int)
                == Some(i as int),
            None => first_match_from(
                spec_pattern(pattern@).unwrap(),
                data@,
                start as int,
            ) is None,
        },
{
    let compiled = crate::pattern::compile(pattern);
    match compiled {
        Some(p) => scan_from(&p, data, start),
        None => None,
    }
}

/// An address shared between the toolkit's callbacks, which the game may
/// invoke from different threads; the value itself never changes after it
/// is resolved.
#[derive(Clone, Copy, PartialEq, Eq, Structural, Debug)]
pub struct ThreadSafePtr {
    pub addr: u64,
}

impl ThreadSafePtr {
    /// Wraps a resolved address.
    pub fn new(addr: u64) -> (r: ThreadSafePtr)
        ensures
            r.addr == addr,
    {
        ThreadSafePtr { addr }
    }

    /// The held address.
    pub fn get(&self) -> (a: u64)
        ensures
            a == self.addr,
    {
        self.addr
    }
}

/// The bounds of the loaded target image: a contiguous address range
/// `[base, end)`. The addresses come from the process's loader once, at
/// startup; every scan and every typed view stays inside them.
#[derive(Clone, Copy, PartialEq, Eq, Structural, Debug)]
pub struct ModuleBounds {
    pub base: u64,
    pub end: u64,
}

impl ModuleBounds {
    /// A well-formed range never ends before it begins.
    pub open spec fn wf(self) -> bool {
        self.base <= self.end
    }

    /// Builds the bounds from the loader's base address and image size;
    /// `None` when the range would wrap around the address space.
    pub fn from_base_and_size(base: u64, size: u64) -> (r: Option<ModuleBounds>)
        ensures
            match r {
                Some(b) => b.wf() && b.base == base && b.end == base + size,
                None => base + size > u64::MAX,
            },
    {
        match base.checked_add(size) {
            Some(end) => Some(ModuleBounds { base, end }),
            None => None,
        }
    }

    /// The number of addressable bytes in the range.
    pub fn len(&self) -> (n: u64)
        requires
            self.wf(),
        ensures
            n == self.end - self.base,
    {
        self.end - self.base
    }

    /// Whether the whole window `[addr, addr + size)` lies inside the range.
    pub fn contains(&self, addr: u64, size: u64) -> (r: bool)
        requires
            self.wf(),
        ensures
            r == (self.base <= addr && addr + size <= self.end),
    {
        if addr < self.base {
            return false;
        }
        match addr.checked_add(size) {
            Some(top) => top <= self.end,
            None => false,
        }
    }

    /// The address of an image offset; offsets are what scans return.
    pub fn address_of(&self, offset: u64) -> (a: u64)
        requires
            self.wf(),
            offset <= self.end - self.base,
        ensures
            a == self.base + offset,
    {
        self.base + offset
    }
}

/// The little-endian 32-bit value stored at `pos` in the image.
pub fn read_u32_le(data: &[u8], pos: usize) -> (v: u32)
    requires
        pos + 4 <= data@.len(),
    ensures
        v == vstd::bytes::spec_u32_from_le_bytes(data@.subrange(pos as int, pos as int + 4)),
{
    let dlen = data.len();
    proof {
        assert(pos + 4 <= dlen);
    }
    let window = vstd::slice::slice_subrange(data, pos, pos + 4);
    vstd::bytes::u32_from_le_bytes(window)
}

/// The image offset a rip-relative instruction operand points at: the
/// 32-bit displacement read at `inst + disp_at`, counted from the end of
/// the `inst_len`-byte instruction; nothing when the displacement cannot
/// be read or the target leaves the image.
pub open spec fn spec_rip_target(
    data: Seq<u8>,
    inst: int,
    disp_at: int,
    inst_len: int,
) -> Option<int> {
    if inst + disp_at + 4 <= data.len() {
        let t = inst + inst_len + vstd::bytes::spec_u32_from_le_bytes(
            data.subrange(inst + disp_at, inst + disp_at + 4),
        );
        if t <= data.len() {
            Some(t)
        } else {
            None
        }
    } else {
        None
    }
}

/// Decodes a rip-relative instruction operand, exactly as
/// [`spec_rip_target`] reads it.
pub fn rip_target(data: &[u8], inst: usize, disp_at: usize, inst_len: usize) -> (r: Option<
    usize,
>)
    ensures
        match r {
            Some(t) => spec_rip_target(data@, inst as int, disp_at as int, inst_len as int)
                == Some(t as int),
            None => spec_rip_target(
                data@,
                inst as int,
                disp_at as int,
                inst_len as int,
            ) is None,
        },
{
    let dlen = data.len();
    if disp_at > dlen || inst > dlen - disp_at || dlen - disp_at - inst < 4 {
        return None;
    }
    let disp = read_u32_le(data, inst + disp_at);
    if disp as usize > dlen - inst || inst_len > dlen - inst - disp as usize {
        return None;
    }
    Some(inst + disp as usize + inst_len)
}

/// The lowercase hexadecimal digit for a value below sixteen.
pub open spec fn hex_digit_char(n: u8) -> char
    recommends
        n < 16,
{
    if n < 10 {
        ('0' as u32 + n as u32) as char
    } else {
        ('a' as u32 + n as u32 - 10) as char
    }
}

/// The lowercase hexadecimal rendering of a byte sequence, two digits per
/// byte, high nibble first.
pub open spec fn hex_of(data: Seq<u8>) -> Seq<char>
    decreases data.len(),
{
    if data.len() == 0 {
        seq![]
    } else {
        seq![hex_digit_char(data[0] / 16), hex_digit_char(data[0] % 16)] + hex_of(
            data.drop_first(),
        )
    }
}

fn hex_digit(n: u8) -> (c: char)
    requires
        n < 16,
    ensures
        c == hex_digit_char(n),
{
    if n < 10 {
        (48 + n) as char
    } else {
        (97 + n - 10) as char
    }
}

/// Renders a window of raw memory as lowercase hexadecimal text, for the
/// diagnostic log.
pub fn print_memory(data: &[u8]) -> (r: String)
    ensures
        r@ == hex_of(data@),
{
    let n = data.len();
    let mut out: Vec<char> = Vec::new();
    proof {
        assert(data@.skip(0) =~= data@);
    }
    let mut i: usize = 0;
    while i < n
        invariant
            i <= n,
            n == data@.len(),
            hex_of(data@) =~= out@ + hex_of(data@.skip(i as int)),
            out@.len() == 2 * i,
        decreases n - i,
    {
        let b = data[i];
        out.push(hex_digit(b / 16));
        out.push(hex_digit(b % 16));
        proof {
            assert(data@.skip(i as int).drop_first() =~= data@.skip(i + 1));
            assert(data@.skip(i as int)[0] == data@[i as int]);
        }
        i = i + 1;
    }
    proof {
        assert(data@.skip(n as int) =~= Seq::<u8>::empty());
        assert(out@ =~= hex_of(data@));
    }
    crate::strutil::string_from_chars(&out)
}

} // verus!
