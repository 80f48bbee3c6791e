//! The target binary's data model: character and colour identifiers,
//! packet shapes, character-select state and save-slot records, each laid
//! out as the foreign binary dictates and modelled here as plain values.

use vstd::prelude::*;

verus! {

/// The colour value the toolkit reserves as its "pick one at random"
/// sentinel; the game itself never offers it.
pub const RANDOM_COLOR_ID: u32 = 72;

/// How many characters the roster holds.
pub const CHARA_COUNT: u32 = 31;

/// A selectable character, in the game's roster order.
#[derive(Clone, Copy, PartialEq, Eq, Structural, Debug)]
pub enum ECharaID {
    SOL,
    KYK,
    MAY,
    AXL,
    CHP,
    POT,
    FAU,
    MLL,
    ZAT,
    RAM,
    LEO,
    NAG,
    GIO,
    ANJ,
    INO,
    GLD,
    JKO,
    COS,
    BKN,
    TST,
    BGT,
    SIN,
    BED,
    ASK,
    JHN,
    ELP,
    ABA,
    SLY,
    DZY,
    VEN,
    UNI,
}

/// The numeric identifier of a character: its position in roster order.
pub open spec fn chara_repr(c: ECharaID) -> u32 {
    match c {
        ECharaID::SOL => 0,
        ECharaID::KYK => 1,
        ECharaID::MAY => 2,
        ECharaID::AXL => 3,
        ECharaID::CHP => 4,
        ECharaID::POT => 5,
        ECharaID::FAU => 6,
        ECharaID::MLL => 7,
        ECharaID::ZAT => 8,
        ECharaID::RAM => 9,
        ECharaID::LEO => 10,
        ECharaID::NAG => 11,
        ECharaID::GIO => 12,
        ECharaID::ANJ => 13,
        ECharaID::INO => 14,
        ECharaID::GLD => 15,
        ECharaID::JKO => 16,
        ECharaID::COS => 17,
        ECharaID::BKN => 18,
        ECharaID::TST => 19,
        ECharaID::BGT => 20,
        ECharaID::SIN => 21,
        ECharaID::BED => 22,
        ECharaID::ASK => 23,
        ECharaID::JHN => 24,
        ECharaID::ELP => 25,
        ECharaID::ABA => 26,
        ECharaID::SLY => 27,
        ECharaID::DZY => 28,
        ECharaID::VEN => 29,
        ECharaID::UNI => 30,
    }
}

/// The three-letter tag a character is written as in the config file.
pub open spec fn chara_tag(c: ECharaID) -> Seq<char> {
    match c {
        ECharaID::SOL => "SOL"@,
        ECharaID::KYK => "KYK"@,
        ECharaID::MAY => "MAY"@,
        ECharaID::AXL => "AXL"@,
        ECharaID::CHP => "CHP"@,
        ECharaID::POT => "POT"@,
        ECharaID::FAU => "FAU"@,
        ECharaID::MLL => "MLL"@,
        ECharaID::ZAT => "ZAT"@,
        ECharaID::RAM => "RAM"@,
        ECharaID::LEO => "LEO"@,
        ECharaID::NAG => "NAG"@,
        ECharaID::GIO => "GIO"@,
        ECharaID::ANJ => "ANJ"@,
        ECharaID::INO => "INO"@,
        ECharaID::GLD => "GLD"@,
        ECharaID::JKO => "JKO"@,
        ECharaID::COS => "COS"@,
        ECharaID::BKN => "BKN"@,
        ECharaID::TST => "TST"@,
        ECharaID::BGT => "BGT"@,
        ECharaID::SIN => "SIN"@,
        ECharaID::BED => "BED"@,
        ECharaID::ASK => "ASK"@,
        ECharaID::JHN => "JHN"@,
        ECharaID::ELP => "ELP"@,
        ECharaID::ABA => "ABA"@,
        ECharaID::SLY => "SLY"@,
        ECharaID::DZY => "DZY"@,
        ECharaID::VEN => "VEN"@,
        ECharaID::UNI => "UNI"@,
    }
}

/// The character at a roster position, [`chara_repr`]'s inverse; positions
/// outside the roster give the first character.
pub open spec fn chara_of(k: int) -> ECharaID {
    if k == 1 {
        ECharaID::KYK
    } else if k == 2 {
        ECharaID::MAY
    } else if k == 3 {
        ECharaID::AXL
    } else if k == 4 {
        ECharaID::CHP
    } else if k == 5 {
        ECharaID::POT
    } else if k == 6 {
        ECharaID::FAU
    } else if k == 7 {
        ECharaID::MLL
    } else if k == 8 {
        ECharaID::ZAT
    } else if k == 9 {
        ECharaID::RAM
    } else if k == 10 {
        ECharaID::LEO
    } else if k == 11 {
        ECharaID::NAG
    } else if k == 12 {
        ECharaID::GIO
    } else if k == 13 {
        ECharaID::ANJ
    } else if k == 14 {
        ECharaID::INO
    } else if k == 15 {
        ECharaID::GLD
    } else if k == 16 {
        ECharaID::JKO
    } else if k == 17 {
        ECharaID::COS
    } else if k == 18 {
        ECharaID::BKN
    } else if k == 19 {
        ECharaID::TST
    } else if k == 20 {
        ECharaID::BGT
    } else if k == 21 {
        ECharaID::SIN
    } else if k == 22 {
        ECharaID::BED
    } else if k == 23 {
        ECharaID::ASK
    } else if k == 24 {
        ECharaID::JHN
    } else if k == 25 {
        ECharaID::ELP
    } else if k == 26 {
        ECharaID::ABA
    } else if k == 27 {
        ECharaID::SLY
    } else if k == 28 {
        ECharaID::DZY
    } else if k == 29 {
        ECharaID::VEN
    } else if k == 30 {
        ECharaID::UNI
    } else {
        ECharaID::SOL
    }
}

/// Position and character functions invert one another over the roster.
pub proof fn lemma_chara_of_repr(c: ECharaID)
    ensures
        chara_of(chara_repr(c) as int) == c,
{
}

impl ECharaID {
    /// The character's numeric identifier, as the wire format and the
    /// config tables use it.
    pub fn repr(self) -> (r: u32)
        ensures
            r == chara_repr(self),
            r < CHARA_COUNT,
    {
        match self {
            ECharaID::SOL => 0,
            ECharaID::KYK => 1,
            ECharaID::MAY => 2,
            ECharaID::AXL => 3,
            ECharaID::CHP => 4,
            ECharaID::POT => 5,
            ECharaID::FAU => 6,
            ECharaID::MLL => 7,
            ECharaID::ZAT => 8,
            ECharaID::RAM => 9,
            ECharaID::LEO => 10,
            ECharaID::NAG => 11,
            ECharaID::GIO => 12,
            ECharaID::ANJ => 13,
            ECharaID::INO => 14,
            ECharaID::GLD => 15,
            ECharaID::JKO => 16,
            ECharaID::COS => 17,
            ECharaID::BKN => 18,
            ECharaID::TST => 19,
            ECharaID::BGT => 20,
            ECharaID::SIN => 21,
            ECharaID::BED => 22,
            ECharaID::ASK => 23,
            ECharaID::JHN => 24,
            ECharaID::ELP => 25,
            ECharaID::ABA => 26,
            ECharaID::SLY => 27,
            ECharaID::DZY => 28,
            ECharaID::VEN => 29,
            ECharaID::UNI => 30,
        }
    }

    /// The character with the given numeric identifier; `None` exactly for
    /// values outside the roster.
    pub fn from_repr(v: u32) -> (r: Option<ECharaID>)
        ensures
            r is Some <==> v < CHARA_COUNT,
            match r {
                Some(c) => chara_repr(c) == v && c == chara_of(v as int),
                None => true,
            },
    {
        match v {
            0 => Some(ECharaID::SOL),
            1 => Some(ECharaID::KYK),
            2 => Some(ECharaID::MAY),
            3 => Some(ECharaID::AXL),
            4 => Some(ECharaID::CHP),
            5 => Some(ECharaID::POT),
            6 => Some(ECharaID::FAU),
            7 => Some(ECharaID::MLL),
            8 => Some(ECharaID::ZAT),
            9 => Some(ECharaID::RAM),
            10 => Some(ECharaID::LEO),
            11 => Some(ECharaID::NAG),
            12 => Some(ECharaID::GIO),
            13 => Some(ECharaID::ANJ),
            14 => Some(ECharaID::INO),
            15 => Some(ECharaID::GLD),
            16 => Some(ECharaID::JKO),
            17 => Some(ECharaID::COS),
            18 => Some(ECharaID::BKN),
            19 => Some(ECharaID::TST),
            20 => Some(ECharaID::BGT),
            21 => Some(ECharaID::SIN),
            22 => Some(ECharaID::BED),
            23 => Some(ECharaID::ASK),
            24 => Some(ECharaID::JHN),
            25 => Some(ECharaID::ELP),
            26 => Some(ECharaID::ABA),
            27 => Some(ECharaID::SLY),
            28 => Some(ECharaID::DZY),
            29 => Some(ECharaID::VEN),
            30 => Some(ECharaID::UNI),
            _ => None,
        }
    }

    /// The character's three-letter config tag.
    pub fn tag(self) -> (r: &'static str)
        ensures
            r@ == chara_tag(self),
    {
        match self {
            ECharaID::SOL => "SOL",
            ECharaID::KYK => "KYK",
            ECharaID::MAY => "MAY",
            ECharaID::AXL => "AXL",
            ECharaID::CHP => "CHP",
            ECharaID::POT => "POT",
            ECharaID::FAU => "FAU",
            ECharaID::MLL => "MLL",
            ECharaID::ZAT => "ZAT",
            ECharaID::RAM => "RAM",
            ECharaID::LEO => "LEO",
            ECharaID::NAG => "NAG",
            ECharaID::GIO => "GIO",
            ECharaID::ANJ => "ANJ",
            ECharaID::INO => "INO",
            ECharaID::GLD => "GLD",
            ECharaID::JKO => "JKO",
            ECharaID::COS => "COS",
            ECharaID::BKN => "BKN",
            ECharaID::TST => "TST",
            ECharaID::BGT => "BGT",
            ECharaID::SIN => "SIN",
            ECharaID::BED => "BED",
            ECharaID::ASK => "ASK",
            ECharaID::JHN => "JHN",
            ECharaID::ELP => "ELP",
            ECharaID::ABA => "ABA",
            ECharaID::SLY => "SLY",
            ECharaID::DZY => "DZY",
            ECharaID::VEN => "VEN",
            ECharaID::UNI => "UNI",
        }
    }
}

/// The character a config key names, or `None` when it names none.
pub open spec fn spec_chara_of_tag(key: Seq<char>) -> Option<ECharaID> {
    if key == chara_tag(ECharaID::SOL) {
        Some(ECharaID::SOL)
    } else if key == chara_tag(ECharaID::KYK) {
        Some(ECharaID::KYK)
    } else if key == chara_tag(ECharaID::MAY) {
        Some(ECharaID::MAY)
    } else if key == chara_tag(ECharaID::AXL) {
        Some(ECharaID::AXL)
    } else if key == chara_tag(ECharaID::CHP) {
        Some(ECharaID::CHP)
    } else if key == chara_tag(ECharaID::POT) {
        Some(ECharaID::POT)
    } else if key == chara_tag(ECharaID::FAU) {
        Some(ECharaID::FAU)
    } else if key == chara_tag(ECharaID::MLL) {
        Some(ECharaID::MLL)
    } else if key == chara_tag(ECharaID::ZAT) {
        Some(ECharaID::ZAT)
    } else if key == chara_tag(ECharaID::RAM) {
        Some(ECharaID::RAM)
    } else if key == chara_tag(ECharaID::LEO) {
        Some(ECharaID::LEO)
    } else if key == chara_tag(ECharaID::NAG) {
        Some(ECharaID::NAG)
    } else if key == chara_tag(ECharaID::GIO) {
        Some(ECharaID::GIO)
    } else if key == chara_tag(ECharaID::ANJ) {
        Some(ECharaID::ANJ)
    } else if key == chara_tag(ECharaID::INO) {
        Some(ECharaID::INO)
    } else if key == chara_tag(ECharaID::GLD) {
        Some(ECharaID::GLD)
    } else if key == chara_tag(ECharaID::JKO) {
        Some(ECharaID::JKO)
    } else if key == chara_tag(ECharaID::COS) {
        Some(ECharaID::COS)
    } else if key == chara_tag(ECharaID::BKN) {
        Some(ECharaID::BKN)
    } else if key == chara_tag(ECharaID::TST) {
        Some(ECharaID::TST)
    } else if key == chara_tag(ECharaID::BGT) {
        Some(ECharaID::BGT)
    } else if key == chara_tag(ECharaID::SIN) {
        Some(ECharaID::SIN)
    } else if key == chara_tag(ECharaID::BED) {
        Some(ECharaID::BED)
    } else if key == chara_tag(ECharaID::ASK) {
        Some(ECharaID::ASK)
    } else if key == chara_tag(ECharaID::JHN) {
        Some(ECharaID::JHN)
    } else if key == chara_tag(ECharaID::ELP) {
        Some(ECharaID::ELP)
    } else if key == chara_tag(ECharaID::ABA) {
        Some(ECharaID::ABA)
    } else if key == chara_tag(ECharaID::SLY) {
        Some(ECharaID::SLY)
    } else if key == chara_tag(ECharaID::DZY) {
        Some(ECharaID::DZY)
    } else if key == chara_tag(ECharaID::VEN) {
        Some(ECharaID::VEN)
    } else if key == chara_tag(ECharaID::UNI) {
        Some(ECharaID::UNI)
    } else {
        None
    }
}

/// The tag lookup answers every key: a hit gives the key's own tag, a
/// miss means the key is no character's tag.
pub proof fn lemma_chara_of_tag_complete(key: Seq<char>)
    ensures
        match spec_chara_of_tag(key) {
            Some(c) => key == chara_tag(c),
            None => forall|c: ECharaID| key != chara_tag(c),
        },
{
}

/// Two characters with the same numeric identifier are the same character.
pub proof fn lemma_chara_repr_injective(a: ECharaID, b: ECharaID)
    requires
        chara_repr(a) == chara_repr(b),
    ensures
        a == b,
{
}

/// Every character's identifier lies inside the roster.
pub proof fn lemma_chara_repr_bound(c: ECharaID)
    ensures
        chara_repr(c) < CHARA_COUNT,
{
}

/// The character whose config tag is `s`; `None` exactly when no
/// character is written that way.
pub fn chara_from_tag(s: &str) -> (r: Option<ECharaID>)
    ensures
        match r {
            Some(c) => s@ == chara_tag(c),
            None => forall|c: ECharaID| s@ != chara_tag(c),
        },
{
    let mut i: u32 = 0;
    while i < CHARA_COUNT
        invariant
            i <= CHARA_COUNT,
            forall|c: ECharaID| chara_repr(c) < i ==> s@ != chara_tag(c),
        decreases CHARA_COUNT - i,
    {
        let c = match ECharaID::from_repr(i) {
            Some(c) => c,
            None => {
                proof {
                    assert(false);
                }
                ECharaID::SOL
            },
        };
        if crate::strutil::str_eq(s, c.tag()) {
            return Some(c);
        }
        proof {
            assert forall|d: ECharaID| chara_repr(d) < i + 1 implies s@ != chara_tag(d) by {
                if chara_repr(d) == i {
                    lemma_chara_repr_injective(d, c);
                }
            }
        }
        i = i + 1;
    }
    proof {
        assert forall|c: ECharaID| true implies s@ != chara_tag(c) by {
            lemma_chara_repr_bound(c);
        }
    }
    None
}

/// Whether a character vector holds the same characters as a string.
fn chars_eq_str(a: &Vec<char>, b: &str) -> (r: bool)
    ensures
        r == (a@ == b@),
{
    let n = a.len();
    let m = b.unicode_len();
    if n != m {
        proof {
            assert(a@ != b@) by {
                if a@ == b@ {
                    assert(a@.len() == b@.len());
                }
            }
        }
        return false;
    }
    let mut i: usize = 0;
    while i < n
        invariant
            i <= n,
            n == a@.len(),
            n == b@.len(),
            forall|k: int| 0 <= k < i ==> a@[k] == b@[k],
        decreases n - i,
    {
        if a[i] != b.get_char(i) {
            return false;
        }
        i = i + 1;
    }
    proof {
        assert(a@ =~= b@);
    }
    true
}

/// The character a config key, given as characters, names; `None` exactly
/// when it names none.
pub fn chara_of_tag_chars(key: &Vec<char>) -> (r: Option<ECharaID>)
    ensures
        r == spec_chara_of_tag(key@),
{
    if chars_eq_str(key, "SOL") {
        Some(ECharaID::SOL)
    } else if chars_eq_str(key, "KYK") {
        Some(ECharaID::KYK)
    } else if chars_eq_str(key, "MAY") {
        Some(ECharaID::MAY)
    } else if chars_eq_str(key, "AXL") {
        Some(ECharaID::AXL)
    } else if chars_eq_str(key, "CHP") {
        Some(ECharaID::CHP)
    } else if chars_eq_str(key, "POT") {
        Some(ECharaID::POT)
    } else if chars_eq_str(key, "FAU") {
        Some(ECharaID::FAU)
    } else if chars_eq_str(key, "MLL") {
        Some(ECharaID::MLL)
    } else if chars_eq_str(key, "ZAT") {
        Some(ECharaID::ZAT)
    } else if chars_eq_str(key, "RAM") {
        Some(ECharaID::RAM)
    } else if chars_eq_str(key, "LEO") {
        Some(ECharaID::LEO)
    } else if chars_eq_str(key, "NAG") {
        Some(ECharaID::NAG)
    } else if chars_eq_str(key, "GIO") {
        Some(ECharaID::GIO)
    } else if chars_eq_str(key, "ANJ") {
        Some(ECharaID::ANJ)
    } else if chars_eq_str(key, "INO") {
        Some(ECharaID::INO)
    } else if chars_eq_str(key, "GLD") {
        Some(ECharaID::GLD)
    } else if chars_eq_str(key, "JKO") {
        Some(ECharaID::JKO)
    } else if chars_eq_str(key, "COS") {
        Some(ECharaID::COS)
    } else if chars_eq_str(key, "BKN") {
        Some(ECharaID::BKN)
    } else if chars_eq_str(key, "TST") {
        Some(ECharaID::TST)
    } else if chars_eq_str(key, "BGT") {
        Some(ECharaID::BGT)
    } else if chars_eq_str(key, "SIN") {
        Some(ECharaID::SIN)
    } else if chars_eq_str(key, "BED") {
        Some(ECharaID::BED)
    } else if chars_eq_str(key, "ASK") {
        Some(ECharaID::ASK)
    } else if chars_eq_str(key, "JHN") {
        Some(ECharaID::JHN)
    } else if chars_eq_str(key, "ELP") {
        Some(ECharaID::ELP)
    } else if chars_eq_str(key, "ABA") {
        Some(ECharaID::ABA)
    } else if chars_eq_str(key, "SLY") {
        Some(ECharaID::SLY)
    } else if chars_eq_str(key, "DZY") {
        Some(ECharaID::DZY)
    } else if chars_eq_str(key, "VEN") {
        Some(ECharaID::VEN)
    } else if chars_eq_str(key, "UNI") {
        Some(ECharaID::UNI)
    } else {
        None
    }
}

/// The session packet kinds the game's network layer distinguishes, in
/// their declaration order. On the wire a battle-ready packet carries the
/// type tag [`BATTLE_READY_TAG`].
#[derive(Clone, Copy, PartialEq, Eq, Structural, Debug)]
pub enum SessionPacketID {
    FrameData,
    BattleTerminate,
    FrameDataRequest,
    FrameDataResponse,
    ReMatch,
    PlayerMatchResult,
    RCodeRequest,
    RCodeResponse,
    BattleSpectatorRequest,
    BattleSpectatorResponse,
    Chat,
    BattleReady,
    CommitMemberRequest,
    CommitPartRequest,
    RoomState,
    RoomState2,
    GotoBattle,
    NicoChat,
    SendCustomData,
    SendCustomDataHost,
    SendCustomDataHost2,
    SendCustomDataHost3,
    BattleReadyCoop,
    GotoBattleCoop,
    WatchingRequest,
    KickBall,
    BallInfo,
    PartyMessage,
    MatchResultMessage,
    WatchingRequest2,
    RoomStateExInfo,
    RoomStateExInfoHost,
    SendCoopInfoData,
    RPGSignal,
    CoopSignal,
    SendCustomDataSlot,
    GotoPacketParty,
    DisbandTeam,
    GotoPacketPartyPrev,
    TeamMatchCreated,
    FullSyncChange,
    FullSyncEnd,
    EasyAntiCheat,
}

/// The wire type tag of a battle-ready packet.
pub const BATTLE_READY_TAG: u16 = 0x32;

/// A colour identifier as the game stores it.
#[derive(Clone, Copy, PartialEq, Eq, Structural, Debug)]
pub struct EColorID(pub u32);

/// The display label the toolkit substitutes for its random-colour
/// sentinel; every real colour keeps the game's own label, so `None` tells
/// the caller to fall back to the original display routine.
pub fn color_display_override(color: EColorID) -> (r: Option<&'static str>)
    ensures
        color.0 == RANDOM_COLOR_ID <==> r == Some("RND"),
        color.0 != RANDOM_COLOR_ID <==> r is None,
{
    if color.0 == RANDOM_COLOR_ID {
        Some("RND")
    } else {
        None
    }
}

/// The random-colour sentinel is reported selectable and allowed to the
/// game's own validation, whose real answer stands for every other colour;
/// `None` tells the caller to forward to the original routine.
pub fn color_validity_override(color: EColorID) -> (r: Option<bool>)
    ensures
        color.0 == RANDOM_COLOR_ID <==> r == Some(true),
        color.0 != RANDOM_COLOR_ID <==> r is None,
{
    if color.0 == RANDOM_COLOR_ID {
        Some(true)
    } else {
        None
    }
}

/// One side's locked-in selection on the character-select screen.
#[derive(Clone, Copy, PartialEq, Eq, Structural, Debug)]
pub struct SDecideInfo {
    pub chara_id: ECharaID,
    pub color_id: EColorID,
    pub costume_id: u32,
    pub script_id: u32,
    pub stage_id: u32,
    pub bgm_id: u32,
    pub sp_flag: u32,
    pub skill_set: u32,
}

/// One side's record in the character-select game state.
#[derive(Clone, Copy, PartialEq, Eq, Structural, Debug)]
pub struct SSideInfo {
    pub side_id: u32,
    pub pad_id: u32,
    pub decide_info: SDecideInfo,
    pub cpu: u32,
    pub page: i32,
}

/// The character-select game state, holding one record per side. The
/// foreign object carries them at a fixed offset; only the two side
/// records are read or written.
#[allow(non_camel_case_types)]
pub struct AREDGameState_CharaSelect {
    pub side_info: Vec<SSideInfo>,
}

impl AREDGameState_CharaSelect {
    /// The state always carries exactly two sides.
    pub open spec fn wf(&self) -> bool {
        self.side_info@.len() == 2
    }
}

/// The history record the game keeps of the last character-select
/// decisions, one entry per side.
pub struct SDecideInfoHistory {
    pub chara_history: Vec<SDecideInfo>,
    pub is_valid: bool,
    pub main_side: u32,
}

impl SDecideInfoHistory {
    /// The history always carries exactly two entries.
    pub open spec fn wf(&self) -> bool {
        self.chara_history@.len() == 2
    }
}

/// A network packet header: a two-byte length and a two-byte type tag,
/// both little-endian, followed by the payload the tag announces.
#[derive(Clone, Copy, PartialEq, Eq, Structural, Debug)]
pub struct Header {
    pub size: u16,
    pub packet_type: u16,
}

/// The byte image of a packet header.
pub open spec fn spec_header_bytes(h: Header) -> Seq<u8> {
    vstd::bytes::spec_u16_to_le_bytes(h.size) + vstd::bytes::spec_u16_to_le_bytes(h.packet_type)
}

impl Header {
    /// Renders the header into its four-byte wire image.
    pub fn to_bytes(&self) -> (r: Vec<u8>)
        ensures
            r@ == spec_header_bytes(*self),
            r@.len() == 4,
    {
        proof {
            vstd::bytes::lemma_auto_spec_u16_to_from_le_bytes();
        }
        let mut r = vstd::bytes::u16_to_le_bytes(self.size);
        let mut tail = vstd::bytes::u16_to_le_bytes(self.packet_type);
        r.append(&mut tail);
        proof {
            assert(r@ =~= spec_header_bytes(*self));
        }
        r
    }

    /// Reads a header back from the start of a wire image; `None` exactly
    /// when fewer than four bytes are present.
    pub fn from_bytes(data: &[u8]) -> (r: Option<Header>)
        ensures
            r is Some <==> data@.len() >= 4,
            match r {
                Some(h) => spec_header_bytes(h) == data@.subrange(0, 4),
                None => true,
            },
    {
        proof {
            vstd::bytes::lemma_auto_spec_u16_to_from_le_bytes();
        }
        if data.len() < 4 {
            return None;
        }
        let size = vstd::bytes::u16_from_le_bytes(vstd::slice::slice_subrange(data, 0, 2));
        let packet_type = vstd::bytes::u16_from_le_bytes(
            vstd::slice::slice_subrange(data, 2, 4),
        );
        let h = Header { size, packet_type };
        proof {
            assert(spec_header_bytes(h) =~= data@.subrange(0, 4));
        }
        Some(h)
    }
}

/// A header survives its wire image unchanged.
pub proof fn lemma_header_round_trip(h: Header)
    ensures
        spec_header_bytes(h).len() == 4,
        vstd::bytes::spec_u16_from_le_bytes(spec_header_bytes(h).subrange(0, 2)) == h.size,
        vstd::bytes::spec_u16_from_le_bytes(spec_header_bytes(h).subrange(2, 4))
            == h.packet_type,
{
    vstd::bytes::lemma_auto_spec_u16_to_from_le_bytes();
    assert(spec_header_bytes(h).subrange(0, 2) =~= vstd::bytes::spec_u16_to_le_bytes(h.size));
    assert(spec_header_bytes(h).subrange(2, 4) =~= vstd::bytes::spec_u16_to_le_bytes(
        h.packet_type,
    ));
}

/// The battle-ready packet: the header, then each side's readiness,
/// characters and colours as the wire lays them out.
#[allow(non_camel_case_types)]
pub struct Packet_BattleReady {
    pub header: Header,
    pub ready: i8,
    pub chara: Vec<i8>,
    pub color: Vec<i8>,
    pub stage: i8,
    pub bgm: i16,
    pub dan: Vec<i8>,
    pub costume: Vec<i8>,
}

impl Packet_BattleReady {
    /// The packet always carries three character, colour, rank and costume
    /// slots, and announces itself with the battle-ready type tag.
    pub open spec fn wf(&self) -> bool {
        &&& self.chara@.len() == 3
        &&& self.color@.len() == 3
        &&& self.dan@.len() == 3
        &&& self.costume@.len() == 3
        &&& self.header.packet_type == BATTLE_READY_TAG
    }
}

/// One training-mode recording slot, as the save data stores it.
pub struct CMemorySlot {
    pub chara_id: u8,
    pub memory_direction: i32,
    pub memory_max_time: i32,
    pub memory_start_time: i32,
    pub memory_flags: Vec<u16>,
}

/// How many recording-flag words one slot holds.
pub const MEMORY_FLAG_WORDS: usize = 2700;

impl CMemorySlot {
    /// A slot always carries its full fixed block of recording flags.
    pub open spec fn wf(&self) -> bool {
        self.memory_flags@.len() == MEMORY_FLAG_WORDS
    }
}

/// How many recording slots the save data holds.
pub const MEMORY_SLOT_COUNT: usize = 8;

/// The save-data region the toolkit touches: the fixed block of recording
/// slots. The foreign object keeps it at a fixed offset past other fields.
pub struct SSaveData {
    pub memory_slot_blob: Vec<CMemorySlot>,
}

impl SSaveData {
    /// The save data always carries its full fixed block of slots.
    pub open spec fn wf(&self) -> bool {
        &&& self.memory_slot_blob@.len() == MEMORY_SLOT_COUNT
        &&& forall|i: int|
            0 <= i < MEMORY_SLOT_COUNT ==> (#[trigger] self.memory_slot_blob@[i]).wf()
    }
}

/// A selectable item widget; the toolkit only passes its address around.
pub struct UREDWidgetSelectableItem {
    pub addr: u64,
}

} // verus!
