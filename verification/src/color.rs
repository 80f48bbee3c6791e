//! The random-colour feature: substituting a real colour for the
//! random-colour sentinel wherever the game is about to act on it.
//!
//! A pick is drawn from the character's configured pool; the draw itself
//! is the only unverifiable step, so every contract states what holds of
//! whatever the pool yielded.

use vstd::prelude::*;

use crate::config::Config;
use crate::memory::{first_match_from, rip_target, scan_from, spec_rip_target};
use crate::pattern::Pattern;
use crate::red::{
    chara_repr, AREDGameState_CharaSelect, ECharaID, EColorID, Packet_BattleReady,
    SDecideInfo, SDecideInfoHistory, SSideInfo, CHARA_COUNT, RANDOM_COLOR_ID,
};

verus! {

/// Relies on rand's `IndexedRandom::choose` with the thread generator: it
/// returns a uniformly sampled element of the slice, and `None` exactly
/// when the slice is empty. Nothing is assumed about which element comes
/// back.
#[verifier::external_body]
fn choose_color(pool: &Vec<EColorID>) -> (r: Option<EColorID>)
    ensures
        match r {
            Some(c) => pool@.contains(c),
            None => pool@.len() == 0,
        },
{
    rand::seq::IndexedRandom::choose(pool.as_slice(), &mut rand::rng()).copied()
}

/// Draws one colour from a character's configured pool; `None` exactly
/// when the pool is empty, which callers treat as the feature being
/// unavailable for that character.
pub fn get_random_color(config: &Config, chara: ECharaID) -> (r: Option<EColorID>)
    requires
        config.wf(),
    ensures
        match r {
            Some(c) => config@[chara_repr(chara) as int].contains(c),
            None => config@[chara_repr(chara) as int].len() == 0,
        },
{
    choose_color(config.row(chara))
}

/// Whether one packet slot is due for substitution: it carries the
/// sentinel colour, names a roster character, and that character's pool
/// is not empty.
pub open spec fn spec_slot_rewrites(color: i8, chara: i8, cfg: Seq<Seq<EColorID>>) -> bool {
    &&& color == RANDOM_COLOR_ID as i8
    &&& 0 <= chara < CHARA_COUNT
    &&& cfg[chara as int].len() > 0
}

/// What substitution leaves in one packet slot: a slot that was due holds
/// some colour of its character's pool, and any other slot holds exactly
/// its old value.
pub open spec fn spec_slot_substituted(
    old_color: i8,
    old_chara: i8,
    cfg: Seq<Seq<EColorID>>,
    new_color: i8,
) -> bool {
    if spec_slot_rewrites(old_color, old_chara, cfg) {
        exists|c: EColorID| cfg[old_chara as int].contains(c) && new_color == c.0 as i8
    } else {
        new_color == old_color
    }
}

/// How many of the first `n` packet slots are due for substitution.
pub open spec fn spec_rewrite_count(
    colors: Seq<i8>,
    charas: Seq<i8>,
    cfg: Seq<Seq<EColorID>>,
    n: int,
) -> int
    decreases n,
{
    if n <= 0 {
        0
    } else {
        spec_rewrite_count(colors, charas, cfg, n - 1) + if spec_slot_rewrites(
            colors[n - 1],
            charas[n - 1],
            cfg,
        ) {
            1int
        } else {
            0int
        }
    }
}

/// Substitutes one packet slot when it is due: reports whether the slot
/// was due, and rewrites exactly that slot to a pool colour when it was.
fn substitute_slot(packet: &mut Packet_BattleReady, config: &Config, i: usize) -> (did: bool)
    requires
        old(packet).wf(),
        config.wf(),
        i < 3,
    ensures
        final(packet).wf(),
        final(packet).header == old(packet).header,
        final(packet).ready == old(packet).ready,
        final(packet).chara@ == old(packet).chara@,
        final(packet).stage == old(packet).stage,
        final(packet).bgm == old(packet).bgm,
        final(packet).dan@ == old(packet).dan@,
        final(packet).costume@ == old(packet).costume@,
        final(packet).color@.len() == 3,
        forall|k: int|
            0 <= k < 3 && k != i ==> final(packet).color@[k] == old(packet).color@[k],
        did == spec_slot_rewrites(
            old(packet).color@[i as int],
            old(packet).chara@[i as int],
            config@,
        ),
        spec_slot_substituted(
            old(packet).color@[i as int],
            old(packet).chara@[i as int],
            config@,
            final(packet).color@[i as int],
        ),
{
    if packet.color[i] != RANDOM_COLOR_ID as i8 {
        return false;
    }
    let chara_raw = packet.chara[i];
    if chara_raw < 0 {
        return false;
    }
    let chara = match ECharaID::from_repr(chara_raw as u32) {
        Some(chara) => chara,
        None => {
            return false;
        },
    };
    match get_random_color(config, chara) {
        Some(c) => {
            packet.color.set(i, c.0 as i8);
            proof {
                assert(chara_repr(chara) == old(packet).chara@[i as int]);
                assert(config@[old(packet).chara@[i as int] as int].contains(c));
                assert(packet.color@[i as int] == c.0 as i8);
            }
            true
        },
        None => false,
    }
}

/// Replaces the sentinel colours of an outgoing battle-ready packet:
/// every slot that is due for substitution — sentinel colour, valid
/// character, non-empty pool — is rewritten to a colour drawn from that
/// character's pool, and every other slot keeps exactly what it had.
/// Returns how many slots were due, each of them rewritten.
pub fn randomize_battle_ready(packet: &mut Packet_BattleReady, config: &Config) -> (n: u32)
    requires
        old(packet).wf(),
        config.wf(),
    ensures
        final(packet).wf(),
        final(packet).header == old(packet).header,
        final(packet).ready == old(packet).ready,
        final(packet).chara@ == old(packet).chara@,
        final(packet).stage == old(packet).stage,
        final(packet).bgm == old(packet).bgm,
        final(packet).dan@ == old(packet).dan@,
        final(packet).costume@ == old(packet).costume@,
        final(packet).color@.len() == 3,
        forall|i: int|
            0 <= i < 3 ==> #[trigger] spec_slot_substituted(
                old(packet).color@[i],
                old(packet).chara@[i],
                config@,
                final(packet).color@[i],
            ),
        n == spec_rewrite_count(old(packet).color@, old(packet).chara@, config@, 3),
{
    let mut replaced: u32 = 0;
    let mut i: usize = 0;
    while i < 3
        invariant
            i <= 3,
            packet.wf(),
            config.wf(),
            replaced <= i,
            packet.header == old(packet).header,
            packet.ready == old(packet).ready,
            packet.chara@ == old(packet).chara@,
            packet.stage == old(packet).stage,
            packet.bgm == old(packet).bgm,
            packet.dan@ == old(packet).dan@,
            packet.costume@ == old(packet).costume@,
            packet.color@.len() == 3,
            forall|k: int| i <= k < 3 ==> packet.color@[k] == old(packet).color@[k],
            forall|k: int|
                0 <= k < i ==> #[trigger] spec_slot_substituted(
                    old(packet).color@[k],
                    old(packet).chara@[k],
                    config@,
                    packet.color@[k],
                ),
            replaced == spec_rewrite_count(
                old(packet).color@,
                old(packet).chara@,
                config@,
                i as int,
            ),
        decreases 3 - i,
    {
        let ghost pre = packet.color@;
        let did = substitute_slot(packet, config, i);
        if did {
            replaced = replaced + 1;
        }
        proof {
            assert forall|k: int|
                0 <= k < i + 1 implies #[trigger] spec_slot_substituted(
                old(packet).color@[k],
                old(packet).chara@[k],
                config@,
                packet.color@[k],
            ) by {
                if k < i {
                    assert(spec_slot_substituted(
                        old(packet).color@[k],
                        old(packet).chara@[k],
                        config@,
                        pre[k],
                    ));
                    assert(packet.color@[k] == pre[k]);
                    if spec_slot_rewrites(
                        old(packet).color@[k],
                        old(packet).chara@[k],
                        config@,
                    ) {
                        let c = choose|c: EColorID|
                            {
                                &&& config@[old(packet).chara@[k] as int].contains(c)
                                &&& pre[k] == c.0 as i8
                            };
                        assert(config@[old(packet).chara@[k] as int].contains(c)
                            && packet.color@[k] == c.0 as i8);
                    }
                }
            }
            assert(replaced == spec_rewrite_count(
                old(packet).color@,
                old(packet).chara@,
                config@,
                i + 1,
            ));
        }
        i = i + 1;
    }
    replaced
}

/// Whether one character-select side is due for substitution: its decided
/// colour is the sentinel and its character's pool is not empty.
pub open spec fn spec_side_rewrites(before: SSideInfo, cfg: Seq<Seq<EColorID>>) -> bool {
    &&& before.decide_info.color_id.0 == RANDOM_COLOR_ID
    &&& cfg[chara_repr(before.decide_info.chara_id) as int].len() > 0
}

/// What substitution leaves of one side: a side that was due is marked and
/// holds some colour of its character's pool with every other field kept,
/// and any other side is unmarked and untouched.
pub open spec fn spec_side_substituted(
    before: SSideInfo,
    cfg: Seq<Seq<EColorID>>,
    after: SSideInfo,
    mark: bool,
) -> bool {
    if spec_side_rewrites(before, cfg) {
        &&& mark
        &&& exists|c: EColorID|
            cfg[chara_repr(before.decide_info.chara_id) as int].contains(c) && after == (
            SSideInfo {
                decide_info: (SDecideInfo { color_id: c, ..before.decide_info }),
                ..before
            })
    } else {
        &&& !mark
        &&& after == before
    }
}

/// Substitutes one side's colour when it is due, reporting the mark.
fn substitute_side(state: &mut AREDGameState_CharaSelect, config: &Config, i: usize) -> (mark:
    bool)
    requires
        old(state).wf(),
        config.wf(),
        i < 2,
    ensures
        final(state).wf(),
        forall|k: int|
            0 <= k < 2 && k != i ==> final(state).side_info@[k] == old(state).side_info@[k],
        spec_side_substituted(
            old(state).side_info@[i as int],
            config@,
            final(state).side_info@[i as int],
            mark,
        ),
{
    let side = packet_side(state, i);
    if side.decide_info.color_id.0 != RANDOM_COLOR_ID {
        return false;
    }
    match get_random_color(config, side.decide_info.chara_id) {
        Some(c) => {
            let mut updated = side;
            updated.decide_info.color_id = c;
            state.side_info.set(i, updated);
            proof {
                assert(state.side_info@[i as int] == (SSideInfo {
                    decide_info: (SDecideInfo {
                        color_id: c,
                        ..old(state).side_info@[i as int].decide_info
                    }),
                    ..old(state).side_info@[i as int]
                }));
            }
            true
        },
        None => false,
    }
}

/// Replaces each side's sentinel colour on the way into battle settings:
/// every side that is due for substitution — sentinel colour decided,
/// non-empty pool for its character — gets a colour drawn from that pool
/// and is marked replaced; every other side is left exactly as it was and
/// is not marked. The marks drive [`restore_history`] after the game has
/// run.
pub fn randomize_side_colors(state: &mut AREDGameState_CharaSelect, config: &Config) -> (marks:
    Vec<bool>)
    requires
        old(state).wf(),
        config.wf(),
    ensures
        final(state).wf(),
        marks@.len() == 2,
        forall|i: int|
            0 <= i < 2 ==> #[trigger] spec_side_substituted(
                old(state).side_info@[i],
                config@,
                final(state).side_info@[i],
                marks@[i],
            ),
{
    let mut marks: Vec<bool> = Vec::new();
    let mut i: usize = 0;
    while i < 2
        invariant
            i <= 2,
            state.wf(),
            config.wf(),
            marks@.len() == i,
            forall|k: int| i <= k < 2 ==> state.side_info@[k] == old(state).side_info@[k],
            forall|k: int|
                0 <= k < i ==> #[trigger] spec_side_substituted(
                    old(state).side_info@[k],
                    config@,
                    state.side_info@[k],
                    marks@[k],
                ),
        decreases 2 - i,
    {
        let ghost pre = state.side_info@;
        let ghost pre_marks = marks@;
        let mark = substitute_side(state, config, i);
        marks.push(mark);
        proof {
            assert forall|k: int|
                0 <= k < i + 1 implies #[trigger] spec_side_substituted(
                old(state).side_info@[k],
                config@,
                state.side_info@[k],
                marks@[k],
            ) by {
                if k < i {
                    assert(spec_side_substituted(
                        old(state).side_info@[k],
                        config@,
                        pre[k],
                        pre_marks[k],
                    ));
                    assert(state.side_info@[k] == pre[k]);
                    assert(marks@[k] == pre_marks[k]);
                    if spec_side_rewrites(old(state).side_info@[k], config@) {
                        let c = choose|c: EColorID|
                            {
                                &&& config@[chara_repr(
                                    old(state).side_info@[k].decide_info.chara_id,
                                ) as int].contains(c)
                                &&& pre[k] == (SSideInfo {
                                    decide_info: (SDecideInfo {
                                        color_id: c,
                                        ..old(state).side_info@[k].decide_info
                                    }),
                                    ..old(state).side_info@[k]
                                })
                            };
                        assert(config@[chara_repr(
                            old(state).side_info@[k].decide_info.chara_id,
                        ) as int].contains(c) && state.side_info@[k] == (SSideInfo {
                            decide_info: (SDecideInfo {
                                color_id: c,
                                ..old(state).side_info@[k].decide_info
                            }),
                            ..old(state).side_info@[k]
                        }));
                    }
                }
            }
        }
        i = i + 1;
    }
    marks
}

fn packet_side(state: &AREDGameState_CharaSelect, i: usize) -> (r: crate::red::SSideInfo)
    requires
        state.wf(),
        i < 2,
    ensures
        r == state.side_info@[i as int],
{
    state.side_info[i]
}

/// Writes the sentinel back into the decision history for each side whose
/// colour was substituted, so the next character select starts from
/// "random" again; an invalid history record is left untouched.
pub fn restore_history(history: &mut SDecideInfoHistory, marks: &Vec<bool>)
    requires
        old(history).wf(),
        marks@.len() == 2,
    ensures
        final(history).wf(),
        final(history).is_valid == old(history).is_valid,
        final(history).main_side == old(history).main_side,
        !old(history).is_valid ==> final(history).chara_history@ == old(
            history,
        ).chara_history@,
        old(history).is_valid ==> forall|i: int|
            #![trigger final(history).chara_history@[i]]
            0 <= i < 2 ==> {
                let before = old(history).chara_history@[i];
                let after = final(history).chara_history@[i];
                if marks@[i] {
                    after == (crate::red::SDecideInfo {
                        color_id: EColorID(RANDOM_COLOR_ID),
                        ..before
                    })
                } else {
                    after == before
                }
            },
{
    if !history.is_valid {
        return ;
    }
    let mut i: usize = 0;
    while i < 2
        invariant
            i <= 2,
            history.wf(),
            history.is_valid == old(history).is_valid,
            history.main_side == old(history).main_side,
            marks@.len() == 2,
            forall|k: int|
                i <= k < 2 ==> history.chara_history@[k] == old(history).chara_history@[k],
            forall|k: int|
                #![trigger history.chara_history@[k]]
                0 <= k < i ==> {
                    let before = old(history).chara_history@[k];
                    let after = history.chara_history@[k];
                    if marks@[k] {
                        after == (crate::red::SDecideInfo {
                            color_id: EColorID(RANDOM_COLOR_ID),
                            ..before
                        })
                    } else {
                        after == before
                    }
                },
        decreases 2 - i,
    {
        if marks[i] {
            let mut entry = history.chara_history[i];
            entry.color_id = EColorID(RANDOM_COLOR_ID);
            history.chara_history.set(i, entry);
        }
        i = i + 1;
    }
}

/// The substitution applied before the game updates a character's visual
/// asset: the sentinel colour is shown as the first colour in silhouette
/// form, any real colour passes through with the caller's own silhouette
/// flag.
pub fn chara_asset_override(color: EColorID, is_silhouette: bool) -> (r: (EColorID, bool))
    ensures
        color.0 == RANDOM_COLOR_ID ==> r == (EColorID(0u32), true),
        color.0 != RANDOM_COLOR_ID ==> r == (color, is_silhouette),
{
    if color.0 == RANDOM_COLOR_ID {
        (EColorID(0), true)
    } else {
        (color, is_silhouette)
    }
}

/// The smallest displacement the history-object store instruction is
/// expected to carry; anything outside the window is taken for a
/// mis-scan.
pub const HISTORY_DISP_MIN: u32 = 1000000;

/// The largest such displacement.
pub const HISTORY_DISP_MAX: u32 = 100000000;

/// What the store instruction at `inst` locates: its rip-relative operand
/// (a 32-bit displacement at byte 2 of the 7-byte instruction) points
/// `0x40` past the history object, and a displacement outside the
/// expected window is taken for a mis-scan.
pub open spec fn spec_history_target(image: Seq<u8>, inst: int) -> Option<int> {
    if inst + 6 <= image.len() {
        let disp = vstd::bytes::spec_u32_from_le_bytes(image.subrange(inst + 2, inst + 6));
        if disp < HISTORY_DISP_MIN || disp > HISTORY_DISP_MAX {
            None
        } else {
            match spec_rip_target(image, inst, 2, 7) {
                Some(t) => if t >= 0x40 {
                    Some(t - 0x40)
                } else {
                    None
                },
                None => None,
            }
        }
    } else {
        None
    }
}

/// Resolves the image offset of the decision-history object: the first
/// store instruction matching `store_sig` at or after the battle-settings
/// routine found by `routine_sig`, read as [`spec_history_target`] says.
/// A failure of any step resolves nothing, which callers treat as the
/// history feature being unavailable.
pub fn resolve_chara_history_offset(
    image: &[u8],
    routine_sig: &Pattern,
    store_sig: &Pattern,
) -> (r: Option<usize>)
    ensures
        match first_match_from(routine_sig@, image@, 0) {
            None => r is None,
            Some(a) => match first_match_from(store_sig@, image@, a) {
                None => r is None,
                Some(inst) => match r {
                    Some(t) => spec_history_target(image@, inst) == Some(t as int),
                    None => spec_history_target(image@, inst) is None,
                },
            },
        },
{
    let routine = match crate::memory::scan(routine_sig, image) {
        Some(a) => a,
        None => {
            return None;
        },
    };
    let inst = match scan_from(store_sig, image, routine) {
        Some(i) => i,
        None => {
            return None;
        },
    };
    let dlen = image.len();
    if 2 > dlen || inst > dlen - 2 || dlen - 2 - inst < 4 {
        return None;
    }
    let disp = crate::memory::read_u32_le(image, inst + 2);
    if disp < HISTORY_DISP_MIN || disp > HISTORY_DISP_MAX {
        return None;
    }
    match rip_target(image, inst, 2, 7) {
        Some(t) => {
            if t >= 0x40 {
                Some(t - 0x40)
            } else {
                None
            }
        },
        None => None,
    }
}

} // verus!
