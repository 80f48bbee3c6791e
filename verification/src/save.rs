//! The byte layout of the save-data recording block.
//!
//! The foreign binary keeps eight recording slots as one contiguous block;
//! each slot is a one-byte character id, three bytes of padding, three
//! little-endian 32-bit fields, and its block of little-endian 16-bit
//! recording flags. Rendering and reading that image are exact inverses,
//! proved in [`lemma_save_image_round_trip`].

use vstd::prelude::*;

use vstd::bytes::{
    spec_u16_from_le_bytes, spec_u16_to_le_bytes, spec_u32_from_le_bytes, spec_u32_to_le_bytes,
};

use crate::red::{CMemorySlot, SSaveData, MEMORY_FLAG_WORDS, MEMORY_SLOT_COUNT};

verus! {

/// The byte size of one slot image.
pub const SLOT_BYTES: usize = 5416;

/// The byte size of the whole recording block: eight slot images.
pub const SAVE_BLOB_BYTES: usize = 43328;

/// The abstract content of one slot.
pub struct SlotView {
    pub chara_id: u8,
    pub memory_direction: i32,
    pub memory_max_time: i32,
    pub memory_start_time: i32,
    pub memory_flags: Seq<u16>,
}

impl View for CMemorySlot {
    type V = SlotView;

    open spec fn view(&self) -> SlotView {
        SlotView {
            chara_id: self.chara_id,
            memory_direction: self.memory_direction,
            memory_max_time: self.memory_max_time,
            memory_start_time: self.memory_start_time,
            memory_flags: self.memory_flags@,
        }
    }
}

impl View for SSaveData {
    type V = Seq<SlotView>;

    open spec fn view(&self) -> Seq<SlotView> {
        Seq::new(self.memory_slot_blob@.len(), |i: int| self.memory_slot_blob@[i]@)
    }
}

/// A slot content of the fixed shape the save data stores.
pub open spec fn slot_view_wf(s: SlotView) -> bool {
    s.memory_flags.len() == MEMORY_FLAG_WORDS
}

/// A save content of the fixed shape the save data stores.
pub open spec fn save_view_wf(v: Seq<SlotView>) -> bool {
    &&& v.len() == MEMORY_SLOT_COUNT
    &&& forall|i: int| 0 <= i < v.len() ==> slot_view_wf(#[trigger] v[i])
}

/// The byte image of a flag block: each word little-endian, in order.
pub open spec fn spec_flags_bytes(flags: Seq<u16>) -> Seq<u8>
    decreases flags.len(),
{
    if flags.len() == 0 {
        seq![]
    } else {
        spec_u16_to_le_bytes(flags[0]) + spec_flags_bytes(flags.drop_first())
    }
}

/// The byte image of one slot.
pub open spec fn spec_slot_bytes(s: SlotView) -> Seq<u8> {
    seq![s.chara_id, 0u8, 0u8, 0u8] + spec_u32_to_le_bytes(s.memory_direction as u32)
        + spec_u32_to_le_bytes(s.memory_max_time as u32) + spec_u32_to_le_bytes(
        s.memory_start_time as u32,
    ) + spec_flags_bytes(s.memory_flags)
}

/// The byte image of the whole recording block.
pub open spec fn spec_save_bytes(v: Seq<SlotView>) -> Seq<u8>
    decreases v.len(),
{
    if v.len() == 0 {
        seq![]
    } else {
        spec_slot_bytes(v[0]) + spec_save_bytes(v.drop_first())
    }
}

/// The words read back from a flag-block image.
pub open spec fn spec_flags_of_bytes(b: Seq<u8>) -> Seq<u16> {
    Seq::new(b.len() / 2, |k: int| spec_u16_from_le_bytes(b.subrange(2 * k, 2 * k + 2)))
}

/// The slot read back from a slot image.
pub open spec fn spec_slot_of_bytes(b: Seq<u8>) -> SlotView
    recommends
        b.len() == SLOT_BYTES,
{
    SlotView {
        chara_id: b[0],
        memory_direction: spec_u32_from_le_bytes(b.subrange(4, 8)) as i32,
        memory_max_time: spec_u32_from_le_bytes(b.subrange(8, 12)) as i32,
        memory_start_time: spec_u32_from_le_bytes(b.subrange(12, 16)) as i32,
        memory_flags: spec_flags_of_bytes(b.subrange(16, SLOT_BYTES as int)),
    }
}

/// The slots read back from a recording-block image.
pub open spec fn spec_save_of_bytes(b: Seq<u8>) -> Seq<SlotView>
    recommends
        b.len() == SAVE_BLOB_BYTES,
{
    Seq::new(
        MEMORY_SLOT_COUNT as nat,
        |i: int| spec_slot_of_bytes(b.subrange(i * SLOT_BYTES, (i + 1) * SLOT_BYTES)),
    )
}

proof fn lemma_flags_bytes_len(flags: Seq<u16>)
    ensures
        spec_flags_bytes(flags).len() == 2 * flags.len(),
    decreases flags.len(),
{
    vstd::bytes::lemma_auto_spec_u16_to_from_le_bytes();
    if flags.len() > 0 {
        lemma_flags_bytes_len(flags.drop_first());
    }
}

proof fn lemma_flags_bytes_index(flags: Seq<u16>, k: int)
    requires
        0 <= k < flags.len(),
    ensures
        spec_flags_bytes(flags).subrange(2 * k, 2 * k + 2) == spec_u16_to_le_bytes(flags[k]),
    decreases k,
{
    vstd::bytes::lemma_auto_spec_u16_to_from_le_bytes();
    lemma_flags_bytes_len(flags.drop_first());
    if k == 0 {
        assert(spec_flags_bytes(flags).subrange(0, 2) =~= spec_u16_to_le_bytes(flags[0]));
    } else {
        lemma_flags_bytes_index(flags.drop_first(), k - 1);
        assert(spec_flags_bytes(flags).subrange(2 * k, 2 * k + 2) =~= spec_flags_bytes(
            flags.drop_first(),
        ).subrange(2 * (k - 1), 2 * (k - 1) + 2));
    }
}

/// Reading a flag-block image gives back the words it was made of.
proof fn lemma_flags_round_trip(flags: Seq<u16>)
    ensures
        spec_flags_of_bytes(spec_flags_bytes(flags)) == flags,
{
    vstd::bytes::lemma_auto_spec_u16_to_from_le_bytes();
    lemma_flags_bytes_len(flags);
    let got = spec_flags_of_bytes(spec_flags_bytes(flags));
    assert(got.len() == flags.len()) by {
        vstd::arithmetic::div_mod::lemma_div_by_multiple(flags.len() as int, 2);
        assert(spec_flags_bytes(flags).len() as int == flags.len() as int * 2);
    }
    assert forall|k: int| 0 <= k < flags.len() implies got[k] == flags[k] by {
        lemma_flags_bytes_index(flags, k);
        vstd::bytes::lemma_auto_spec_u16_to_from_le_bytes();
        assert(got[k] == spec_u16_from_le_bytes(
            spec_flags_bytes(flags).subrange(2 * k, 2 * k + 2),
        ));
        assert(spec_u16_to_le_bytes(flags[k]).len() == 2);
        assert(spec_u16_from_le_bytes(spec_u16_to_le_bytes(flags[k])) == flags[k]);
    }
    assert(got =~= flags);
}

proof fn lemma_slot_bytes_len(s: SlotView)
    requires
        slot_view_wf(s),
    ensures
        spec_slot_bytes(s).len() == SLOT_BYTES,
{
    vstd::bytes::lemma_auto_spec_u32_to_from_le_bytes();
    lemma_flags_bytes_len(s.memory_flags);
}

/// Reading a slot image gives back the slot it was made of.
proof fn lemma_slot_round_trip(s: SlotView)
    requires
        slot_view_wf(s),
    ensures
        spec_slot_of_bytes(spec_slot_bytes(s)) == s,
{
    vstd::bytes::lemma_auto_spec_u16_to_from_le_bytes();
    vstd::bytes::lemma_auto_spec_u32_to_from_le_bytes();
    lemma_flags_bytes_len(s.memory_flags);
    let b = spec_slot_bytes(s);
    assert(b.subrange(4, 8) =~= spec_u32_to_le_bytes(s.memory_direction as u32));
    assert(b.subrange(8, 12) =~= spec_u32_to_le_bytes(s.memory_max_time as u32));
    assert(b.subrange(12, 16) =~= spec_u32_to_le_bytes(s.memory_start_time as u32));
    assert(b.subrange(16, SLOT_BYTES as int) =~= spec_flags_bytes(s.memory_flags));
    let d0 = s.memory_direction;
    let d1 = s.memory_max_time;
    let d2 = s.memory_start_time;
    assert(d0 as u32 as i32 == d0) by (bit_vector);
    assert(d1 as u32 as i32 == d1) by (bit_vector);
    assert(d2 as u32 as i32 == d2) by (bit_vector);
    lemma_flags_round_trip(s.memory_flags);
    let got = spec_slot_of_bytes(b);
    assert(got.memory_flags =~= s.memory_flags);
}

proof fn lemma_save_bytes_len(v: Seq<SlotView>)
    requires
        forall|i: int| 0 <= i < v.len() ==> slot_view_wf(#[trigger] v[i]),
    ensures
        spec_save_bytes(v).len() == v.len() * SLOT_BYTES,
    decreases v.len(),
{
    if v.len() == 0 {
    } else {
        lemma_slot_bytes_len(v[0]);
        lemma_save_bytes_len(v.drop_first());
        assert((v.len() - 1) * SLOT_BYTES == v.len() * SLOT_BYTES - SLOT_BYTES)
            by (nonlinear_arith);
    }
}

proof fn lemma_save_bytes_slot(v: Seq<SlotView>, i: int)
    requires
        forall|k: int| 0 <= k < v.len() ==> slot_view_wf(#[trigger] v[k]),
        0 <= i < v.len(),
    ensures
        spec_save_bytes(v).subrange(i * SLOT_BYTES, (i + 1) * SLOT_BYTES) == spec_slot_bytes(
            v[i],
        ),
    decreases i,
{
    lemma_save_bytes_len(v);
    lemma_save_bytes_len(v.drop_first());
    lemma_slot_bytes_len(v[0]);
    if i == 0 {
        assert(spec_save_bytes(v).subrange(0, SLOT_BYTES as int) =~= spec_slot_bytes(v[0]));
    } else {
        lemma_save_bytes_slot(v.drop_first(), i - 1);
        assert((i - 1) * SLOT_BYTES == i * SLOT_BYTES - SLOT_BYTES) by (nonlinear_arith);
        assert(i * SLOT_BYTES - SLOT_BYTES >= 0) by (nonlinear_arith)
            requires
                i >= 1,
        ;
        assert(spec_save_bytes(v).subrange(i * SLOT_BYTES, (i + 1) * SLOT_BYTES)
            =~= spec_save_bytes(v.drop_first()).subrange(
            (i - 1) * SLOT_BYTES,
            i * SLOT_BYTES - SLOT_BYTES + SLOT_BYTES,
        ));
    }
}

/// Reading a recording-block image gives back the slots it was made of.
pub proof fn lemma_save_image_round_trip(v: Seq<SlotView>)
    requires
        save_view_wf(v),
    ensures
        spec_save_bytes(v).len() == SAVE_BLOB_BYTES,
        spec_save_of_bytes(spec_save_bytes(v)) == v,
{
    lemma_save_bytes_len(v);
    let got = spec_save_of_bytes(spec_save_bytes(v));
    assert forall|i: int| 0 <= i < v.len() implies got[i] == v[i] by {
        lemma_save_bytes_slot(v, i);
        lemma_slot_round_trip(v[i]);
    }
    assert(got =~= v);
}

fn encode_flags_into(flags: &Vec<u16>, out: &mut Vec<u8>)
    ensures
        final(out)@ == old(out)@ + spec_flags_bytes(flags@),
{
    let n = flags.len();
    let mut i: usize = 0;
    proof {
        assert(flags@.skip(0) =~= flags@);
        vstd::bytes::lemma_auto_spec_u16_to_from_le_bytes();
    }
    while i < n
        invariant
            i <= n,
            n == flags@.len(),
            old(out)@ + spec_flags_bytes(flags@) =~= out@ + spec_flags_bytes(
                flags@.skip(i as int),
            ),
        decreases n - i,
    {
        proof {
            assert(flags@.skip(i as int)[0] == flags@[i as int]);
            assert(flags@.skip(i as int).drop_first() =~= flags@.skip(i + 1));
        }
        let mut word = vstd::bytes::u16_to_le_bytes(flags[i]);
        out.append(&mut word);
        i = i + 1;
    }
    proof {
        assert(flags@.skip(n as int) =~= Seq::<u16>::empty());
        assert(out@ =~= old(out)@ + spec_flags_bytes(flags@));
    }
}

fn encode_slot_into(slot: &CMemorySlot, out: &mut Vec<u8>)
    ensures
        final(out)@ == old(out)@ + spec_slot_bytes(slot@),
{
    proof {
        vstd::bytes::lemma_auto_spec_u32_to_from_le_bytes();
    }
    out.push(slot.chara_id);
    out.push(0);
    out.push(0);
    out.push(0);
    let mut f = vstd::bytes::u32_to_le_bytes(slot.memory_direction as u32);
    out.append(&mut f);
    let mut f = vstd::bytes::u32_to_le_bytes(slot.memory_max_time as u32);
    out.append(&mut f);
    let mut f = vstd::bytes::u32_to_le_bytes(slot.memory_start_time as u32);
    out.append(&mut f);
    encode_flags_into(&slot.memory_flags, out);
    proof {
        assert(out@ =~= old(out)@ + spec_slot_bytes(slot@));
    }
}

/// Renders the recording block into the contiguous byte image the foreign
/// binary stores.
pub fn save_to_bytes(save: &SSaveData) -> (r: Vec<u8>)
    requires
        save.wf(),
    ensures
        r@ == spec_save_bytes(save@),
        r@.len() == SAVE_BLOB_BYTES,
{
    let n = save.memory_slot_blob.len();
    let mut out: Vec<u8> = Vec::new();
    let mut i: usize = 0;
    proof {
        assert(save@.skip(0) =~= save@);
        assert(Seq::<u8>::empty() + spec_save_bytes(save@) =~= spec_save_bytes(save@));
    }
    while i < n
        invariant
            i <= n,
            save.wf(),
            n == save.memory_slot_blob@.len(),
            spec_save_bytes(save@) =~= out@ + spec_save_bytes(save@.skip(i as int)),
        decreases n - i,
    {
        proof {
            assert(save@.skip(i as int)[0] == save@[i as int]);
            assert(save@.skip(i as int).drop_first() =~= save@.skip(i + 1));
        }
        encode_slot_into(&save.memory_slot_blob[i], &mut out);
        i = i + 1;
    }
    proof {
        assert(save@.skip(n as int) =~= Seq::<SlotView>::empty());
        assert(out@ =~= spec_save_bytes(save@));
        lemma_save_image_round_trip(save@);
    }
    out
}

fn decode_slot(data: &[u8], at: usize) -> (r: CMemorySlot)
    requires
        at + SLOT_BYTES <= data@.len(),
    ensures
        r.wf(),
        r@ == spec_slot_of_bytes(data@.subrange(at as int, at as int + SLOT_BYTES)),
{
    proof {
        vstd::bytes::lemma_auto_spec_u16_to_from_le_bytes();
        vstd::bytes::lemma_auto_spec_u32_to_from_le_bytes();
    }
    let dlen = data.len();
    let ghost img = data@.subrange(at as int, at as int + SLOT_BYTES);
    let chara_id = data[at];
    let memory_direction = crate::memory::read_u32_le(data, at + 4) as i32;
    let memory_max_time = crate::memory::read_u32_le(data, at + 8) as i32;
    let memory_start_time = crate::memory::read_u32_le(data, at + 12) as i32;
    proof {
        assert(data@.subrange(at + 4, at + 8) =~= img.subrange(4, 8));
        assert(data@.subrange(at + 8, at + 12) =~= img.subrange(8, 12));
        assert(data@.subrange(at + 12, at + 16) =~= img.subrange(12, 16));
    }
    let mut memory_flags: Vec<u16> = Vec::new();
    let mut k: usize = 0;
    while k < MEMORY_FLAG_WORDS
        invariant
            k <= MEMORY_FLAG_WORDS,
            at + SLOT_BYTES <= data@.len(),
            dlen == data@.len(),
            img == data@.subrange(at as int, at as int + SLOT_BYTES),
            memory_flags@.len() == k,
            forall|j: int|
                0 <= j < k ==> memory_flags@[j] == spec_u16_from_le_bytes(
                    img.subrange(16 + 2 * j, 16 + 2 * j + 2),
                ),
        decreases MEMORY_FLAG_WORDS - k,
    {
        let lo = data[at + 16 + 2 * k];
        let hi = data[at + 16 + 2 * k + 1];
        let word = vstd::bytes::u16_from_le_bytes(
            vstd::slice::slice_subrange(data, at + 16 + 2 * k, at + 16 + 2 * k + 2),
        );
        proof {
            assert(data@.subrange(
                at + 16 + 2 * (k as int),
                at + 16 + 2 * (k as int) + 2,
            ) =~= img.subrange(16 + 2 * (k as int), 16 + 2 * (k as int) + 2));
        }
        memory_flags.push(word);
        k = k + 1;
    }
    let r = CMemorySlot {
        chara_id,
        memory_direction,
        memory_max_time,
        memory_start_time,
        memory_flags,
    };
    proof {
        let want = spec_slot_of_bytes(img);
        assert(img.subrange(16, SLOT_BYTES as int).len() == 5400);
        assert forall|j: int| 0 <= j < MEMORY_FLAG_WORDS implies r@.memory_flags[j]
            == want.memory_flags[j] by {
            assert(img.subrange(16, SLOT_BYTES as int).subrange(2 * j, 2 * j + 2)
                =~= img.subrange(16 + 2 * j, 16 + 2 * j + 2));
        }
        assert(r@.memory_flags =~= want.memory_flags);
    }
    r
}

/// Reads a recording block back from its byte image; `None` exactly when
/// the image does not have the block's fixed size.
pub fn save_from_bytes(data: &[u8]) -> (r: Option<SSaveData>)
    ensures
        r is Some <==> data@.len() == SAVE_BLOB_BYTES,
        match r {
            Some(s) => s.wf() && s@ == spec_save_of_bytes(data@),
            None => true,
        },
{
    if data.len() != SAVE_BLOB_BYTES {
        return None;
    }
    let mut slots: Vec<CMemorySlot> = Vec::new();
    let mut i: usize = 0;
    while i < MEMORY_SLOT_COUNT
        invariant
            i <= MEMORY_SLOT_COUNT,
            data@.len() == SAVE_BLOB_BYTES,
            slots@.len() == i,
            forall|j: int| 0 <= j < i ==> (#[trigger] slots@[j]).wf(),
            forall|j: int|
                0 <= j < i ==> (#[trigger] slots@[j])@ == spec_slot_of_bytes(
                    data@.subrange(j * SLOT_BYTES, (j + 1) * SLOT_BYTES),
                ),
        decreases MEMORY_SLOT_COUNT - i,
    {
        let slot = decode_slot(data, i * SLOT_BYTES);
        proof {
            assert(data@.subrange(
                (i * SLOT_BYTES) as int,
                (i * SLOT_BYTES) as int + SLOT_BYTES,
            ) =~= data@.subrange(i as int * SLOT_BYTES, (i as int + 1) * SLOT_BYTES));
        }
        slots.push(slot);
        i = i + 1;
    }
    let s = SSaveData { memory_slot_blob: slots };
    proof {
        assert(s@ =~= spec_save_of_bytes(data@));
    }
    Some(s)
}

} // verus!
