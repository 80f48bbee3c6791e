use gglibrary::config::{
    create_config, dummy_config, parse_config, ColorPolicy, ConfigError, COLOR_VALUE_COUNT,
};
use gglibrary::red::{chara_of_tag_chars, ECharaID, EColorID, CHARA_COUNT, RANDOM_COLOR_ID};

fn allow_all() -> ColorPolicy {
    ColorPolicy {
        allowed: (0..CHARA_COUNT).map(|_| vec![true; 200]).collect(),
    }
}

fn colors(values: &[u32]) -> Vec<EColorID> {
    values.iter().map(|v| EColorID(*v)).collect()
}

#[test]
fn ranges_expand_inclusively_and_one_based_values_shift_down() {
    let policy = allow_all();
    let cfg = parse_config("SOL = [1, 3, \"5-7\"]", &policy).unwrap();
    assert_eq!(cfg.colors[0], colors(&[0, 2, 4, 5, 6]));
    // Unmentioned characters get an empty pool.
    assert_eq!(cfg.colors[1], colors(&[]));
}

#[test]
fn parse_respects_the_selectability_policy() {
    let mut policy = allow_all();
    policy.allowed[0][2] = false;
    let cfg = parse_config("SOL = [1, 3]\nKYK = [3]", &policy).unwrap();
    assert_eq!(cfg.colors[0], colors(&[0]));
    assert_eq!(cfg.colors[1], colors(&[2]));
}

#[test]
fn parse_never_admits_the_sentinel_colour() {
    let policy = allow_all();
    let sentinel_1_based = RANDOM_COLOR_ID + 1;
    let text = format!("SOL = [\"{}-{}\"]", sentinel_1_based, sentinel_1_based);
    let cfg = parse_config(&text, &policy).unwrap();
    assert_eq!(cfg.colors[0], colors(&[]));
}

#[test]
fn parse_skips_comments_and_blank_lines() {
    let policy = allow_all();
    let text = "# colour table\n\nSOL = [2] # one colour\n   \nKYK = []";
    let cfg = parse_config(text, &policy).unwrap();
    assert_eq!(cfg.colors[0], colors(&[1]));
    assert_eq!(cfg.colors[1], colors(&[]));
}

#[test]
fn parse_reports_an_unknown_character() {
    let policy = allow_all();
    assert_eq!(
        parse_config("XXX = [1]", &policy).err(),
        Some(ConfigError::UnknownChara)
    );
}

#[test]
fn parse_reports_out_of_range_numbers() {
    let policy = allow_all();
    assert_eq!(parse_config("SOL = [0]", &policy).err(), Some(ConfigError::BadNumber));
    assert_eq!(
        parse_config("SOL = [\"0-3\"]", &policy).err(),
        Some(ConfigError::BadNumber)
    );
    assert_eq!(
        parse_config("SOL = [4294967296]", &policy).err(),
        Some(ConfigError::BadNumber)
    );
}

#[test]
fn parse_reports_malformed_lines() {
    let policy = allow_all();
    assert_eq!(parse_config("SOL = 5", &policy).err(), Some(ConfigError::Syntax));
    assert_eq!(parse_config("SOL", &policy).err(), Some(ConfigError::Syntax));
    assert_eq!(parse_config("SOL = [true]", &policy).err(), Some(ConfigError::Syntax));
    assert_eq!(parse_config("SOL = [\"5\"]", &policy).err(), Some(ConfigError::Syntax));
    assert_eq!(parse_config("= [1]", &policy).err(), Some(ConfigError::Syntax));
    assert_eq!(
        parse_config("SOL = [1]\nSOL = [2]", &policy).err(),
        Some(ConfigError::Syntax)
    );
}

#[test]
fn empty_text_parses_to_empty_pools() {
    let policy = allow_all();
    let cfg = parse_config("", &policy).unwrap();
    assert_eq!(cfg.colors.len(), CHARA_COUNT as usize);
    assert!(cfg.colors.iter().all(|row| row.is_empty()));
}

#[test]
fn created_config_enumerates_every_admitted_colour() {
    let policy = allow_all();
    let cfg = create_config(&policy);
    assert_eq!(cfg.colors.len(), CHARA_COUNT as usize);
    for row in &cfg.colors {
        assert_eq!(row.len(), COLOR_VALUE_COUNT as usize - 1);
        assert!(!row.contains(&EColorID(RANDOM_COLOR_ID)));
        assert_eq!(row[0], EColorID(0));
        assert_eq!(row[row.len() - 1], EColorID(COLOR_VALUE_COUNT - 1));
    }
}

#[test]
fn fallback_config_has_one_colour_per_character() {
    let cfg = dummy_config();
    assert_eq!(cfg.colors.len(), CHARA_COUNT as usize);
    for row in &cfg.colors {
        assert_eq!(row, &colors(&[0]));
    }
}

#[test]
fn character_tags_resolve_to_roster_positions() {
    assert_eq!(ECharaID::from_repr(0), Some(ECharaID::SOL));
    assert_eq!(ECharaID::from_repr(30), Some(ECharaID::UNI));
    assert_eq!(ECharaID::from_repr(31), None);
    assert_eq!(ECharaID::SOL.repr(), 0);
    assert_eq!(ECharaID::UNI.tag(), "UNI");
    assert_eq!(chara_of_tag_chars(&vec!['D', 'Z', 'Y']), Some(ECharaID::DZY));
    assert_eq!(chara_of_tag_chars(&vec!['s', 'o', 'l']), None);
    assert_eq!(gglibrary::red::chara_from_tag("POT"), Some(ECharaID::POT));
    assert_eq!(gglibrary::red::chara_from_tag("pot"), None);
}
