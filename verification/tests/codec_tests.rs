use base64::Engine;
use std::io::Read;

use gglibrary::recordings::{
    export_recordings, import_recordings, recordings_round_trip, TransferError,
};
use gglibrary::red::{CMemorySlot, SSaveData, MEMORY_FLAG_WORDS, MEMORY_SLOT_COUNT};
use gglibrary::save::{save_from_bytes, save_to_bytes, SAVE_BLOB_BYTES, SLOT_BYTES};

fn sample_slot(seed: u16) -> CMemorySlot {
    let mut flags = Vec::with_capacity(MEMORY_FLAG_WORDS);
    for k in 0..MEMORY_FLAG_WORDS as u32 {
        flags.push((seed as u32).wrapping_mul(31).wrapping_add(k) as u16);
    }
    CMemorySlot {
        chara_id: seed as u8,
        memory_direction: -1 - seed as i32,
        memory_max_time: 3600 + seed as i32,
        memory_start_time: 60 * seed as i32,
        memory_flags: flags,
    }
}

fn sample_save() -> SSaveData {
    let mut slots = Vec::new();
    for i in 0..MEMORY_SLOT_COUNT as u16 {
        slots.push(sample_slot(i * 7 + 1));
    }
    SSaveData { memory_slot_blob: slots }
}

fn assert_slots_equal(a: &CMemorySlot, b: &CMemorySlot) {
    assert_eq!(a.chara_id, b.chara_id);
    assert_eq!(a.memory_direction, b.memory_direction);
    assert_eq!(a.memory_max_time, b.memory_max_time);
    assert_eq!(a.memory_start_time, b.memory_start_time);
    assert_eq!(a.memory_flags, b.memory_flags);
}

#[test]
fn save_image_has_the_fixed_size() {
    let save = sample_save();
    let bytes = save_to_bytes(&save);
    assert_eq!(bytes.len(), SAVE_BLOB_BYTES);
    assert_eq!(SAVE_BLOB_BYTES, SLOT_BYTES * MEMORY_SLOT_COUNT);
}

#[test]
fn save_image_round_trips() {
    let save = sample_save();
    let bytes = save_to_bytes(&save);
    let back = save_from_bytes(&bytes).unwrap();
    for i in 0..MEMORY_SLOT_COUNT {
        assert_slots_equal(&back.memory_slot_blob[i], &save.memory_slot_blob[i]);
    }
}

#[test]
fn save_image_layout_is_little_endian_with_padding() {
    let save = sample_save();
    let bytes = save_to_bytes(&save);
    let slot = &save.memory_slot_blob[0];
    assert_eq!(bytes[0], slot.chara_id);
    assert_eq!(&bytes[1..4], &[0, 0, 0]);
    assert_eq!(
        u32::from_le_bytes(bytes[4..8].try_into().unwrap()) as i32,
        slot.memory_direction
    );
    assert_eq!(
        u16::from_le_bytes(bytes[16..18].try_into().unwrap()),
        slot.memory_flags[0]
    );
}

#[test]
fn wrong_size_image_is_rejected() {
    assert!(save_from_bytes(&vec![0u8; SAVE_BLOB_BYTES - 1]).is_none());
    assert!(save_from_bytes(&vec![0u8; SAVE_BLOB_BYTES + 1]).is_none());
}

#[test]
fn export_import_round_trip() {
    let save = sample_save();
    let text = export_recordings(&save).unwrap();
    assert!(text.is_ascii());
    let back = import_recordings(&text).unwrap();
    for i in 0..MEMORY_SLOT_COUNT {
        assert_slots_equal(&back.memory_slot_blob[i], &save.memory_slot_blob[i]);
    }
    let again = recordings_round_trip(&save).unwrap();
    for i in 0..MEMORY_SLOT_COUNT {
        assert_slots_equal(&again.memory_slot_blob[i], &save.memory_slot_blob[i]);
    }
}

#[test]
fn import_rejects_text_that_is_not_base64() {
    match import_recordings("this is not base64!!!") {
        Err(e) => assert_eq!(e, TransferError::BadText),
        Ok(_) => panic!("expected the text to be rejected"),
    }
}

#[test]
fn import_rejects_bytes_that_are_not_a_zlib_stream() {
    let text = base64::prelude::BASE64_STANDARD.encode([0u8, 1, 2, 3]);
    match import_recordings(&text) {
        Err(e) => assert_eq!(e, TransferError::BadStream),
        Ok(_) => panic!("expected the stream to be rejected"),
    }
}

#[test]
fn import_rejects_a_short_decoded_image() {
    let payload = [7u8; 16];
    let mut enc =
        flate2::bufread::ZlibEncoder::new(&payload[..], flate2::Compression::best());
    let mut compressed = Vec::new();
    enc.read_to_end(&mut compressed).unwrap();
    let text = base64::prelude::BASE64_STANDARD.encode(&compressed);
    match import_recordings(&text) {
        Err(e) => assert_eq!(e, TransferError::WrongSize),
        Ok(_) => panic!("expected the image size to be rejected"),
    }
}

#[test]
fn import_accepts_an_independently_produced_artifact() {
    let payload = vec![0u8; SAVE_BLOB_BYTES];
    let mut enc =
        flate2::bufread::ZlibEncoder::new(&payload[..], flate2::Compression::best());
    let mut compressed = Vec::new();
    enc.read_to_end(&mut compressed).unwrap();
    let text = base64::prelude::BASE64_STANDARD.encode(&compressed);
    let save = import_recordings(&text).unwrap();
    assert_eq!(save.memory_slot_blob.len(), MEMORY_SLOT_COUNT);
    for slot in &save.memory_slot_blob {
        assert_eq!(slot.chara_id, 0);
        assert_eq!(slot.memory_direction, 0);
        assert!(slot.memory_flags.iter().all(|w| *w == 0));
    }
}
