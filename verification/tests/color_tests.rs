use gglibrary::color::{
    chara_asset_override, get_random_color, randomize_battle_ready, randomize_side_colors,
    resolve_chara_history_offset, restore_history,
};
use gglibrary::config::Config;
use gglibrary::pattern::compile;
use gglibrary::recordings::resolve_save_data_offset;
use gglibrary::red::{
    color_display_override, color_validity_override, AREDGameState_CharaSelect, ECharaID,
    EColorID, Header, Packet_BattleReady, SDecideInfo, SDecideInfoHistory, SSideInfo,
    BATTLE_READY_TAG, CHARA_COUNT, RANDOM_COLOR_ID,
};

fn singleton_config() -> Config {
    // Character at roster position k gets the single colour k + 10.
    Config {
        colors: (0..CHARA_COUNT).map(|k| vec![EColorID(k + 10)]).collect(),
    }
}

fn decide(chara: ECharaID, color: u32) -> SDecideInfo {
    SDecideInfo {
        chara_id: chara,
        color_id: EColorID(color),
        costume_id: 0,
        script_id: 0,
        stage_id: 0,
        bgm_id: 0,
        sp_flag: 0,
        skill_set: 0,
    }
}

fn side(id: u32, chara: ECharaID, color: u32) -> SSideInfo {
    SSideInfo { side_id: id, pad_id: id, decide_info: decide(chara, color), cpu: 0, page: 0 }
}

#[test]
fn random_colour_comes_from_the_pool() {
    let cfg = singleton_config();
    assert_eq!(get_random_color(&cfg, ECharaID::SOL), Some(EColorID(10)));
    assert_eq!(get_random_color(&cfg, ECharaID::KYK), Some(EColorID(11)));
    let empty = Config { colors: (0..CHARA_COUNT).map(|_| vec![]).collect() };
    assert_eq!(get_random_color(&empty, ECharaID::SOL), None);
}

#[test]
fn battle_ready_sentinels_are_substituted() {
    let cfg = singleton_config();
    let mut packet = Packet_BattleReady {
        header: Header { size: 20, packet_type: BATTLE_READY_TAG },
        ready: 1,
        chara: vec![0, 1, 2],
        color: vec![RANDOM_COLOR_ID as i8, 5, RANDOM_COLOR_ID as i8],
        stage: 0,
        bgm: -1,
        dan: vec![0, 0, 0],
        costume: vec![0, 0, 0],
    };
    let n = randomize_battle_ready(&mut packet, &cfg);
    assert_eq!(n, 2);
    assert_eq!(packet.color, vec![10, 5, 12]);
    assert_eq!(packet.chara, vec![0, 1, 2]);
    assert_eq!(packet.header.packet_type, BATTLE_READY_TAG);
}

#[test]
fn battle_ready_with_invalid_character_keeps_the_sentinel() {
    let cfg = singleton_config();
    let mut packet = Packet_BattleReady {
        header: Header { size: 20, packet_type: BATTLE_READY_TAG },
        ready: 1,
        chara: vec![99, -1, 1],
        color: vec![RANDOM_COLOR_ID as i8, RANDOM_COLOR_ID as i8, 3],
        stage: 0,
        bgm: 0,
        dan: vec![0, 0, 0],
        costume: vec![0, 0, 0],
    };
    let n = randomize_battle_ready(&mut packet, &cfg);
    assert_eq!(n, 0);
    assert_eq!(packet.color, vec![RANDOM_COLOR_ID as i8, RANDOM_COLOR_ID as i8, 3]);
}

#[test]
fn side_colours_are_substituted_and_history_restored() {
    let cfg = singleton_config();
    let mut state = AREDGameState_CharaSelect {
        side_info: vec![
            side(0, ECharaID::MAY, RANDOM_COLOR_ID),
            side(1, ECharaID::AXL, 4),
        ],
    };
    let marks = randomize_side_colors(&mut state, &cfg);
    assert_eq!(marks, vec![true, false]);
    assert_eq!(state.side_info[0].decide_info.color_id, EColorID(12));
    assert_eq!(state.side_info[0].decide_info.chara_id, ECharaID::MAY);
    assert_eq!(state.side_info[1].decide_info.color_id, EColorID(4));

    let mut history = SDecideInfoHistory {
        chara_history: vec![decide(ECharaID::MAY, 12), decide(ECharaID::AXL, 4)],
        is_valid: true,
        main_side: 0,
    };
    restore_history(&mut history, &marks);
    assert_eq!(history.chara_history[0].color_id, EColorID(RANDOM_COLOR_ID));
    assert_eq!(history.chara_history[1].color_id, EColorID(4));

    let mut invalid = SDecideInfoHistory {
        chara_history: vec![decide(ECharaID::MAY, 12), decide(ECharaID::AXL, 4)],
        is_valid: false,
        main_side: 0,
    };
    restore_history(&mut invalid, &marks);
    assert_eq!(invalid.chara_history[0].color_id, EColorID(12));
}

#[test]
fn display_and_validity_overrides_cover_only_the_sentinel() {
    assert_eq!(color_display_override(EColorID(RANDOM_COLOR_ID)), Some("RND"));
    assert_eq!(color_display_override(EColorID(3)), None);
    assert_eq!(color_validity_override(EColorID(RANDOM_COLOR_ID)), Some(true));
    assert_eq!(color_validity_override(EColorID(3)), None);
}

#[test]
fn asset_override_replaces_only_the_sentinel() {
    assert_eq!(
        chara_asset_override(EColorID(RANDOM_COLOR_ID), false),
        (EColorID(0), true)
    );
    assert_eq!(chara_asset_override(EColorID(7), false), (EColorID(7), false));
    assert_eq!(chara_asset_override(EColorID(7), true), (EColorID(7), true));
}

#[test]
fn header_bytes_round_trip() {
    let h = Header { size: 0x1234, packet_type: BATTLE_READY_TAG };
    let bytes = h.to_bytes();
    assert_eq!(bytes, vec![0x34, 0x12, 0x32, 0x00]);
    let back = Header::from_bytes(&bytes).unwrap();
    assert_eq!(back, h);
    assert!(Header::from_bytes(&[1, 2, 3]).is_none());
}

#[test]
fn save_data_offset_follows_the_load_instruction() {
    let mut image = vec![0u8; 64];
    // The owning routine's signature at offset 4.
    image[4] = 0xde;
    image[5] = 0xad;
    // The load instruction at offset 10, displacement 8 at its byte 3.
    image[10] = 0x48;
    image[11] = 0x8b;
    image[12] = 0x1d;
    image[13] = 8;
    let routine = compile("de ad").unwrap();
    let load = compile("48 8b 1d ? ? ? ?").unwrap();
    assert_eq!(
        resolve_save_data_offset(&image, &routine, &load),
        Some(10 + 8 + 7)
    );
}

#[test]
fn chara_history_offset_applies_window_and_bias() {
    let disp: u32 = 2_000_000;
    let len = 2_100_000usize;
    let mut image = vec![0u8; len];
    image[4] = 0xde;
    image[5] = 0xad;
    // The store instruction at offset 10: c6 05 <disp32> 01.
    image[10] = 0xc6;
    image[11] = 0x05;
    image[12..16].copy_from_slice(&disp.to_le_bytes());
    image[16] = 0x01;
    let routine = compile("de ad").unwrap();
    let store = compile("c6 05 ? ? ? ? 01").unwrap();
    assert_eq!(
        resolve_chara_history_offset(&image, &routine, &store),
        Some(10 + disp as usize + 7 - 0x40)
    );
    // A displacement outside the expected window is taken for a mis-scan.
    image[12..16].copy_from_slice(&100u32.to_le_bytes());
    assert_eq!(resolve_chara_history_offset(&image, &routine, &store), None);
}
