//! The colour configuration: which colours may be picked at random for
//! each character.
//!
//! The configuration file is a table of arrays: one line per character,
//! `TAG = [..]`, each array element either a 1-based colour number or a
//! 1-based inclusive range written `"low-high"`; `#` starts a comment.
//! Parsing expands every element to 0-based colour values, keeps only the
//! colours the selectability policy allows, and never admits the
//! random-colour sentinel itself.

use vstd::prelude::*;

use crate::red::{chara_repr, ECharaID, EColorID, CHARA_COUNT, RANDOM_COLOR_ID};

verus! {

/// Which colours the game reports selectable, per character and colour
/// value. The answers come from the game's own validation routine, asked
/// once per value with its hook disabled; the table holds what it said.
pub struct ColorPolicy {
    pub allowed: Vec<Vec<bool>>,
}

impl ColorPolicy {
    /// Whether the policy allows a colour for a character; anything
    /// outside the table is not allowed.
    pub open spec fn allows(&self, chara: int, color: int) -> bool {
        &&& 0 <= chara < self.allowed@.len()
        &&& 0 <= color < self.allowed@[chara]@.len()
        &&& self.allowed@[chara]@[color]
    }

    /// Asks the table.
    pub fn is_allowed(&self, chara: u32, color: u32) -> (r: bool)
        ensures
            r == self.allows(chara as int, color as int),
    {
        let ci = chara as usize;
        if ci >= self.allowed.len() {
            return false;
        }
        let row = &self.allowed[ci];
        let co = color as usize;
        co < row.len() && row[co]
    }
}

/// Whether a colour may enter a character's random pool: the sentinel
/// never may, every other colour exactly when the policy allows it.
pub open spec fn spec_color_ok(policy: &ColorPolicy, chara: ECharaID, color: int) -> bool {
    &&& color != RANDOM_COLOR_ID
    &&& policy.allows(chara_repr(chara) as int, color)
}

/// Asks [`spec_color_ok`].
pub fn color_ok(policy: &ColorPolicy, chara: ECharaID, color: u32) -> (r: bool)
    ensures
        r == spec_color_ok(policy, chara, color as int),
{
    color != RANDOM_COLOR_ID && policy.is_allowed(chara.repr(), color)
}

/// The admissible colours in the inclusive 0-based range `[lo, hi]`, in
/// order.
pub open spec fn spec_range_colors(
    policy: &ColorPolicy,
    chara: ECharaID,
    lo: int,
    hi: int,
) -> Seq<EColorID>
    decreases hi + 1 - lo,
{
    if lo > hi {
        seq![]
    } else {
        (if spec_color_ok(policy, chara, lo) {
            seq![EColorID(lo as u32)]
        } else {
            seq![]
        }) + spec_range_colors(policy, chara, lo + 1, hi)
    }
}

fn range_colors_into(
    policy: &ColorPolicy,
    chara: ECharaID,
    lo: u32,
    hi: u32,
    out: &mut Vec<EColorID>,
)
    ensures
        final(out)@ == old(out)@ + spec_range_colors(policy, chara, lo as int, hi as int),
{
    let mut c: u64 = lo as u64;
    while c <= hi as u64
        invariant
            lo <= c,
            old(out)@ + spec_range_colors(policy, chara, lo as int, hi as int) == out@
                + spec_range_colors(policy, chara, c as int, hi as int),
        decreases hi as int + 1 - c,
    {
        if color_ok(policy, chara, c as u32) {
            out.push(EColorID(c as u32));
        }
        proof {
            assert(old(out)@ + spec_range_colors(policy, chara, lo as int, hi as int) =~= out@
                + spec_range_colors(policy, chara, c as int + 1, hi as int));
        }
        c = c + 1;
    }
    proof {
        assert(final(out)@ =~= old(out)@ + spec_range_colors(
            policy,
            chara,
            lo as int,
            hi as int,
        ));
    }
}

/// A range expansion lists exactly the admissible colours: a colour is in
/// it precisely when its value lies inside the inclusive bounds and the
/// policy admits it for the character — so the random-colour sentinel
/// never is.
pub proof fn lemma_range_colors_membership(
    policy: &ColorPolicy,
    chara: ECharaID,
    lo: int,
    hi: int,
    c: EColorID,
)
    requires
        0 <= lo,
        hi <= u32::MAX,
    ensures
        spec_range_colors(policy, chara, lo, hi).contains(c) <==> (lo <= c.0 <= hi
            && spec_color_ok(policy, chara, c.0 as int)),
        spec_range_colors(policy, chara, lo, hi).contains(c) ==> c.0 != RANDOM_COLOR_ID,
    decreases hi + 1 - lo,
{
    if lo > hi {
    } else {
        lemma_range_colors_membership(policy, chara, lo + 1, hi, c);
        let head: Seq<EColorID> = if spec_color_ok(policy, chara, lo) {
            seq![EColorID(lo as u32)]
        } else {
            seq![]
        };
        let rest = spec_range_colors(policy, chara, lo + 1, hi);
        assert(spec_range_colors(policy, chara, lo, hi) == head + rest);
        assert((head + rest).contains(c) <==> head.contains(c) || rest.contains(c)) by {
            if (head + rest).contains(c) {
                let i = choose|i: int| 0 <= i < (head + rest).len() && (head + rest)[i] == c;
                if i < head.len() {
                    assert(head[i] == c);
                } else {
                    assert(rest[i - head.len()] == c);
                }
            }
            if head.contains(c) {
                let i = choose|i: int| 0 <= i < head.len() && head[i] == c;
                assert((head + rest)[i] == c);
            }
            if rest.contains(c) {
                let i = choose|i: int| 0 <= i < rest.len() && rest[i] == c;
                assert((head + rest)[head.len() + i] == c);
            }
        }
        if head.contains(c) {
            assert(head.len() == 1 && head[0] == c);
            assert(c.0 == lo);
        }
        if lo <= c.0 <= hi && spec_color_ok(policy, chara, c.0 as int) {
            if c.0 == lo {
                assert(spec_color_ok(policy, chara, lo));
                assert(head[0] == EColorID(lo as u32));
                assert(head[0].0 == c.0);
                assert(head[0] == c);
                assert(head.contains(c));
            } else {
                assert(rest.contains(c));
            }
        }
    }
}

/// Every colour an element list expands to is one the policy admits for
/// the character; in particular no expansion ever holds the sentinel.
pub proof fn lemma_expand_items_admissible(
    policy: &ColorPolicy,
    chara: ECharaID,
    items: Seq<SpecItem>,
    k: int,
)
    requires
        spec_expand_items(policy, chara, items) is Some,
        0 <= k < spec_expand_items(policy, chara, items).unwrap().len(),
    ensures
        spec_color_ok(
            policy,
            chara,
            spec_expand_items(policy, chara, items).unwrap()[k].0 as int,
        ),
        spec_expand_items(policy, chara, items).unwrap()[k].0 != RANDOM_COLOR_ID,
    decreases items.len(),
{
    let cs = spec_expand_items(policy, chara, items).unwrap();
    let head = spec_expand_item(policy, chara, items[0]).unwrap();
    if k < head.len() {
        let c = head[k];
        assert(head.contains(c));
        match items[0] {
            SpecItem::Int(v) => {
                lemma_range_colors_membership(policy, chara, v - 1, v - 1, c);
            },
            SpecItem::Range(a, b) => {
                lemma_range_colors_membership(policy, chara, a - 1, b - 1, c);
            },
        }
    } else {
        lemma_expand_items_admissible(policy, chara, items.drop_first(), k - head.len());
    }
}

/// How many colour values the game knows per character.
pub const COLOR_VALUE_COUNT: u32 = 99;

/// A character's colour pool, one row per roster position.
pub struct Config {
    pub colors: Vec<Vec<EColorID>>,
}

impl View for Config {
    type V = Seq<Seq<EColorID>>;

    open spec fn view(&self) -> Seq<Seq<EColorID>> {
        Seq::new(self.colors@.len(), |i: int| self.colors@[i]@)
    }
}

impl Config {
    /// A configuration always holds one row per roster character.
    pub open spec fn wf(&self) -> bool {
        self.colors@.len() == CHARA_COUNT
    }

    /// The pool of one character.
    pub fn row(&self, chara: ECharaID) -> (r: &Vec<EColorID>)
        requires
            self.wf(),
        ensures
            r@ == self@[chara_repr(chara) as int],
    {
        &self.colors[chara.repr() as usize]
    }
}

/// The default configuration: for every character, every colour value the
/// policy admits, in increasing order.
pub fn create_config(policy: &ColorPolicy) -> (r: Config)
    ensures
        r.wf(),
        forall|k: int|
            0 <= k < CHARA_COUNT ==> r@[k] == spec_range_colors(
                policy,
                crate::red::chara_of(k),
                0,
                COLOR_VALUE_COUNT - 1,
            ),
{
    let mut colors: Vec<Vec<EColorID>> = Vec::new();
    let mut i: u32 = 0;
    while i < CHARA_COUNT
        invariant
            i <= CHARA_COUNT,
            colors@.len() == i,
            forall|k: int|
                0 <= k < i ==> #[trigger] colors@[k]@ == spec_range_colors(
                    policy,
                    crate::red::chara_of(k),
                    0,
                    COLOR_VALUE_COUNT - 1,
                ),
        decreases CHARA_COUNT - i,
    {
        let c = match ECharaID::from_repr(i) {
            Some(c) => c,
            None => {
                proof {
                    assert(false);
                }
                ECharaID::SOL
            },
        };
        let mut row: Vec<EColorID> = Vec::new();
        range_colors_into(policy, c, 0, COLOR_VALUE_COUNT - 1, &mut row);
        proof {
            assert(row@ =~= spec_range_colors(policy, c, 0, COLOR_VALUE_COUNT - 1));
        }
        colors.push(row);
        i = i + 1;
    }
    Config { colors }
}

/// The minimal safe fallback used when the configuration file cannot be
/// read, written or parsed: one pool per character holding only the first
/// colour.
pub fn dummy_config() -> (r: Config)
    ensures
        r.wf(),
        forall|k: int| 0 <= k < CHARA_COUNT ==> r@[k] == seq![EColorID(0)],
{
    let mut colors: Vec<Vec<EColorID>> = Vec::new();
    let mut i: u32 = 0;
    while i < CHARA_COUNT
        invariant
            i <= CHARA_COUNT,
            colors@.len() == i,
            forall|k: int| 0 <= k < i ==> #[trigger] colors@[k]@ == seq![EColorID(0)],
        decreases CHARA_COUNT - i,
    {
        let mut row: Vec<EColorID> = Vec::new();
        row.push(EColorID(0));
        proof {
            assert(row@ =~= seq![EColorID(0)]);
        }
        colors.push(row);
        i = i + 1;
    }
    Config { colors }
}

/// Whether `c` is blank space inside a line.
pub open spec fn is_ws(c: char) -> bool {
    c == ' ' || c == '\t' || c == '\r'
}

/// Whether `c` is a decimal digit.
pub open spec fn is_digit(c: char) -> bool {
    '0' as u32 <= c as u32 <= '9' as u32
}

/// The segments of `s` between occurrences of `sep`: one segment more
/// than there are separators, empty segments kept.
pub open spec fn split_on(s: Seq<char>, sep: char) -> Seq<Seq<char>>
    decreases s.len(),
{
    if s.len() == 0 {
        seq![seq![]]
    } else {
        let rest = split_on(s.drop_first(), sep);
        if s[0] == sep {
            seq![Seq::<char>::empty()] + rest
        } else {
            seq![seq![s[0]] + rest[0]] + rest.drop_first()
        }
    }
}

/// `s` without leading blank space.
pub open spec fn trim_front(s: Seq<char>) -> Seq<char>
    decreases s.len(),
{
    if s.len() > 0 && is_ws(s[0]) {
        trim_front(s.drop_first())
    } else {
        s
    }
}

/// `s` without trailing blank space.
pub open spec fn trim_back(s: Seq<char>) -> Seq<char>
    decreases s.len(),
{
    if s.len() > 0 && is_ws(s.last()) {
        trim_back(s.drop_last())
    } else {
        s
    }
}

/// `s` without leading and trailing blank space.
pub open spec fn spec_trim(s: Seq<char>) -> Seq<char> {
    trim_back(trim_front(s))
}

/// The part of a line before its comment marker.
pub open spec fn strip_comment(s: Seq<char>) -> Seq<char>
    decreases s.len(),
{
    if s.len() == 0 {
        s
    } else if s[0] == '#' {
        seq![]
    } else {
        seq![s[0]] + strip_comment(s.drop_first())
    }
}

/// Whether `s` is one or more decimal digits and nothing else.
pub open spec fn all_digits(s: Seq<char>) -> bool {
    s.len() > 0 && forall|i: int| 0 <= i < s.len() ==> is_digit(s[i])
}

/// The number the digits of `s` write, most significant first.
pub open spec fn digits_val(s: Seq<char>) -> int
    decreases s.len(),
{
    if s.len() == 0 {
        0
    } else {
        digits_val(s.drop_last()) * 10 + (s.last() as u32 - '0' as u32)
    }
}

/// The longest number of digits a config value may have.
pub const MAX_NUMBER_DIGITS: usize = 10;

/// One array element of a config entry: a single 1-based colour number or
/// a 1-based inclusive range.
pub enum SpecItem {
    Int(int),
    Range(int, int),
}

/// What an array element's text denotes: digits give a number, a quoted
/// `low-high` gives a range, anything else is invalid.
pub open spec fn spec_item(s: Seq<char>) -> Option<SpecItem> {
    let t = spec_trim(s);
    if all_digits(t) && t.len() <= MAX_NUMBER_DIGITS {
        Some(SpecItem::Int(digits_val(t)))
    } else if t.len() >= 2 && t[0] == '"' && t.last() == '"' {
        spec_range_item(t.subrange(1, t.len() - 1))
    } else {
        None
    }
}

/// What the inside of a quoted range denotes: two dash-separated numbers,
/// blank space around each allowed.
pub open spec fn spec_range_item(s: Seq<char>) -> Option<SpecItem> {
    let parts = split_on(s, '-');
    if parts.len() == 2 {
        let a = spec_trim(parts[0]);
        let b = spec_trim(parts[1]);
        if all_digits(a) && a.len() <= MAX_NUMBER_DIGITS && all_digits(b) && b.len()
            <= MAX_NUMBER_DIGITS {
            Some(SpecItem::Range(digits_val(a), digits_val(b)))
        } else {
            None
        }
    } else {
        None
    }
}

/// What a comma-separated element list denotes; `None` as soon as one
/// element is invalid.
pub open spec fn spec_items(pieces: Seq<Seq<char>>) -> Option<Seq<SpecItem>>
    decreases pieces.len(),
{
    if pieces.len() == 0 {
        Some(seq![])
    } else {
        match (spec_item(pieces[0]), spec_items(pieces.drop_first())) {
            (Some(it), Some(rest)) => Some(seq![it] + rest),
            _ => None,
        }
    }
}

/// What one line denotes: nothing, one entry, or a syntax error.
pub enum LineForm {
    Blank,
    Entry(Seq<char>, Seq<SpecItem>),
    Malformed,
}

/// Reads one line: comments stripped, blank lines skipped, an entry is
/// `key = [elements]` with optional blank space.
pub open spec fn spec_line(line: Seq<char>) -> LineForm {
    let t = spec_trim(strip_comment(line));
    if t.len() == 0 {
        LineForm::Blank
    } else {
        let parts = split_on(t, '=');
        if parts.len() != 2 {
            LineForm::Malformed
        } else {
            let key = spec_trim(parts[0]);
            let val = spec_trim(parts[1]);
            if key.len() == 0 || val.len() < 2 || val[0] != '[' || val.last() != ']' {
                LineForm::Malformed
            } else {
                let inner = spec_trim(val.subrange(1, val.len() - 1));
                if inner.len() == 0 {
                    LineForm::Entry(key, seq![])
                } else {
                    match spec_items(split_on(inner, ',')) {
                        Some(items) => LineForm::Entry(key, items),
                        None => LineForm::Malformed,
                    }
                }
            }
        }
    }
}

/// The admissible colours one element denotes, 1-based values shifted
/// down by one and filtered; `None` when a number lies outside `1..=2^32-1`.
pub open spec fn spec_expand_item(
    policy: &ColorPolicy,
    chara: ECharaID,
    item: SpecItem,
) -> Option<Seq<EColorID>> {
    match item {
        SpecItem::Int(v) => if 1 <= v <= u32::MAX {
            Some(spec_range_colors(policy, chara, v - 1, v - 1))
        } else {
            None
        },
        SpecItem::Range(a, b) => if 1 <= a <= u32::MAX && 1 <= b <= u32::MAX {
            Some(spec_range_colors(policy, chara, a - 1, b - 1))
        } else {
            None
        },
    }
}

/// The admissible colours a whole element list denotes, in element order.
pub open spec fn spec_expand_items(
    policy: &ColorPolicy,
    chara: ECharaID,
    items: Seq<SpecItem>,
) -> Option<Seq<EColorID>>
    decreases items.len(),
{
    if items.len() == 0 {
        Some(seq![])
    } else {
        match (
            spec_expand_item(policy, chara, items[0]),
            spec_expand_items(policy, chara, items.drop_first()),
        ) {
            (Some(head), Some(rest)) => Some(head + rest),
            _ => None,
        }
    }
}

/// Why a configuration text was rejected.
#[derive(Clone, Copy, PartialEq, Eq, Structural, Debug)]
pub enum ConfigError {
    /// A line is not a well-formed table-of-arrays entry, or a character
    /// appears twice.
    Syntax,
    /// An entry's key names no roster character.
    UnknownChara,
    /// A colour number or range bound lies outside `1..=2^32-1`.
    BadNumber,
}

/// The outcome of reading a document: one optional pool per roster
/// position, or the first error.
pub enum SpecParse {
    Done(Seq<Option<Seq<EColorID>>>),
    Failed(ConfigError),
}

/// Reads the document's lines in order into the accumulated rows: blank
/// lines are skipped, each entry fills its character's row exactly once.
pub open spec fn spec_parse_lines(
    policy: &ColorPolicy,
    lines: Seq<Seq<char>>,
    acc: Seq<Option<Seq<EColorID>>>,
) -> SpecParse
    decreases lines.len(),
{
    if lines.len() == 0 {
        SpecParse::Done(acc)
    } else {
        match spec_line(lines[0]) {
            LineForm::Blank => spec_parse_lines(policy, lines.drop_first(), acc),
            LineForm::Malformed => SpecParse::Failed(ConfigError::Syntax),
            LineForm::Entry(key, items) => match crate::red::spec_chara_of_tag(key) {
                None => SpecParse::Failed(ConfigError::UnknownChara),
                Some(c) => {
                    let k = chara_repr(c) as int;
                    if acc[k] is Some {
                        SpecParse::Failed(ConfigError::Syntax)
                    } else {
                        match spec_expand_items(policy, c, items) {
                            None => SpecParse::Failed(ConfigError::BadNumber),
                            Some(colors) => spec_parse_lines(
                                policy,
                                lines.drop_first(),
                                acc.update(k, Some(colors)),
                            ),
                        }
                    }
                },
            },
        }
    }
}

/// No row filled yet.
pub open spec fn init_rows() -> Seq<Option<Seq<EColorID>>> {
    Seq::new(CHARA_COUNT as nat, |i: int| None)
}

/// Rows as the final configuration: an unmentioned character has an empty
/// pool.
pub open spec fn finalize_rows(rows: Seq<Option<Seq<EColorID>>>) -> Seq<Seq<EColorID>> {
    Seq::new(
        CHARA_COUNT as nat,
        |i: int|
            match rows[i] {
                Some(s) => s,
                None => seq![],
            },
    )
}

/// What parsing the whole text yields.
pub open spec fn spec_parse_config(policy: &ColorPolicy, text: Seq<char>) -> SpecParse {
    spec_parse_lines(policy, split_on(text, '\n'), init_rows())
}

/// The character sequences a vector of character vectors holds.
spec fn seq_views(q: Seq<Vec<char>>) -> Seq<Seq<char>> {
    Seq::new(q.len(), |i: int| q[i]@)
}

/// The split of the remaining text with the pending segment put back in
/// front, the shape `split_chars`'s loop maintains.
spec fn prefix_first(cur: Seq<char>, parts: Seq<Seq<char>>) -> Seq<Seq<char>>
    recommends
        parts.len() > 0,
{
    seq![cur + parts[0]] + parts.drop_first()
}

proof fn lemma_split_nonempty(s: Seq<char>, sep: char)
    ensures
        split_on(s, sep).len() >= 1,
    decreases s.len(),
{
    if s.len() > 0 {
        lemma_split_nonempty(s.drop_first(), sep);
    }
}

fn split_chars(cs: &Vec<char>, sep: char) -> (r: Vec<Vec<char>>)
    ensures
        seq_views(r@) == split_on(cs@, sep),
{
    let n = cs.len();
    let mut done: Vec<Vec<char>> = Vec::new();
    let mut cur: Vec<char> = Vec::new();
    let mut i: usize = 0;
    proof {
        assert(cs@.skip(0) =~= cs@);
        lemma_split_nonempty(cs@, sep);
        assert(split_on(cs@, sep) =~~= seq_views(done@) + prefix_first(
            cur@,
            split_on(cs@.skip(0), sep),
        ));
    }
    while i < n
        invariant
            i <= n,
            n == cs@.len(),
            split_on(cs@, sep) =~~= seq_views(done@) + prefix_first(
                cur@,
                split_on(cs@.skip(i as int), sep),
            ),
        decreases n - i,
    {
        let c = cs[i];
        proof {
            assert(cs@.skip(i as int)[0] == cs@[i as int]);
            assert(cs@.skip(i as int).drop_first() =~= cs@.skip(i + 1));
            lemma_split_nonempty(cs@.skip(i + 1), sep);
        }
        if c == sep {
            let ghost old_done = done@;
            let ghost old_cur = cur@;
            done.push(cur);
            cur = Vec::new();
            proof {
                assert(seq_views(done@) =~~= seq_views(old_done).push(old_cur));
                assert(split_on(cs@, sep) =~~= seq_views(done@) + prefix_first(
                    cur@,
                    split_on(cs@.skip(i + 1), sep),
                ));
            }
        } else {
            cur.push(c);
            proof {
                assert(split_on(cs@, sep) =~~= seq_views(done@) + prefix_first(
                    cur@,
                    split_on(cs@.skip(i + 1), sep),
                ));
            }
        }
        i = i + 1;
    }
    proof {
        assert(cs@.skip(n as int) =~= Seq::<char>::empty());
    }
    let ghost old_done = done@;
    let ghost old_cur = cur@;
    done.push(cur);
    proof {
        assert(seq_views(done@) =~~= seq_views(old_done).push(old_cur));
        assert(seq_views(done@) =~~= split_on(cs@, sep));
    }
    done
}

fn ws_char(c: char) -> (r: bool)
    ensures
        r == is_ws(c),
{
    c == ' ' || c == '\t' || c == '\r'
}

fn copy_range(v: &Vec<char>, a: usize, b: usize) -> (r: Vec<char>)
    requires
        a <= b <= v@.len(),
    ensures
        r@ == v@.subrange(a as int, b as int),
{
    let mut r: Vec<char> = Vec::new();
    let mut i = a;
    while i < b
        invariant
            a <= i <= b <= v@.len(),
            r@ == v@.subrange(a as int, i as int),
        decreases b - i,
    {
        r.push(v[i]);
        proof {
            assert(r@ =~= v@.subrange(a as int, i + 1));
        }
        i = i + 1;
    }
    r
}

fn trim_chars(cs: &Vec<char>) -> (r: Vec<char>)
    ensures
        r@ == spec_trim(cs@),
{
    let n = cs.len();
    let mut a: usize = 0;
    proof {
        assert(cs@.skip(0) =~= cs@);
    }
    while a < n && ws_char(cs[a])
        invariant
            a <= n,
            n == cs@.len(),
            trim_front(cs@) == trim_front(cs@.skip(a as int)),
        decreases n - a,
    {
        proof {
            assert(cs@.skip(a as int)[0] == cs@[a as int]);
            assert(cs@.skip(a as int).drop_first() =~= cs@.skip(a + 1));
        }
        a = a + 1;
    }
    proof {
        if a == n {
            assert(cs@.skip(a as int) =~= Seq::<char>::empty());
        }
        assert(trim_front(cs@) == cs@.skip(a as int));
    }
    let mut b: usize = n;
    while b > a && ws_char(cs[b - 1])
        invariant
            a <= b <= n,
            n == cs@.len(),
            trim_back(cs@.skip(a as int)) == trim_back(cs@.subrange(a as int, b as int)),
        decreases b,
    {
        proof {
            assert(cs@.subrange(a as int, b as int).last() == cs@[b - 1]);
            assert(cs@.subrange(a as int, b as int).drop_last() =~= cs@.subrange(
                a as int,
                b - 1,
            ));
        }
        b = b - 1;
    }
    proof {
        assert(cs@.skip(a as int) =~= cs@.subrange(a as int, n as int));
        assert(trim_back(cs@.subrange(a as int, b as int)) == cs@.subrange(a as int, b as int));
        assert(spec_trim(cs@) == cs@.subrange(a as int, b as int));
    }
    copy_range(cs, a, b)
}

fn strip_comment_chars(cs: &Vec<char>) -> (r: Vec<char>)
    ensures
        r@ == strip_comment(cs@),
{
    let n = cs.len();
    let mut out: Vec<char> = Vec::new();
    let mut i: usize = 0;
    proof {
        assert(cs@.skip(0) =~= cs@);
        assert(Seq::<char>::empty() + strip_comment(cs@) =~= strip_comment(cs@));
    }
    while i < n
        invariant
            i <= n,
            n == cs@.len(),
            strip_comment(cs@) =~= out@ + strip_comment(cs@.skip(i as int)),
        decreases n - i,
    {
        let c = cs[i];
        proof {
            assert(cs@.skip(i as int)[0] == cs@[i as int]);
            assert(cs@.skip(i as int).drop_first() =~= cs@.skip(i + 1));
        }
        if c == '#' {
            proof {
                assert(out@ =~= strip_comment(cs@));
            }
            return out;
        }
        out.push(c);
        i = i + 1;
    }
    proof {
        assert(cs@.skip(n as int) =~= Seq::<char>::empty());
        assert(out@ =~= strip_comment(cs@));
    }
    out
}

/// Ten to the `k`-th power.
spec fn ten_pow(k: int) -> int
    decreases k,
{
    if k <= 0 {
        1
    } else {
        10 * ten_pow(k - 1)
    }
}

proof fn lemma_ten_pow_mono(i: int, j: int)
    requires
        0 <= i <= j,
    ensures
        ten_pow(i) <= ten_pow(j),
    decreases j,
{
    if i < j {
        lemma_ten_pow_mono(i, j - 1);
        assert(ten_pow(j - 1) >= 1) by {
            lemma_ten_pow_mono(0, j - 1);
        }
    }
}

fn parse_digits(t: &Vec<char>) -> (r: Option<u64>)
    ensures
        match r {
            Some(v) => all_digits(t@) && t@.len() <= MAX_NUMBER_DIGITS && v == digits_val(t@),
            None => !(all_digits(t@) && t@.len() <= MAX_NUMBER_DIGITS),
        },
{
    let n = t.len();
    if n == 0 || n > MAX_NUMBER_DIGITS {
        return None;
    }
    let mut acc: u64 = 0;
    let mut i: usize = 0;
    while i < n
        invariant
            i <= n,
            n == t@.len(),
            n <= MAX_NUMBER_DIGITS,
            forall|k: int| 0 <= k < i ==> is_digit(t@[k]),
            acc == digits_val(t@.take(i as int)),
            acc < ten_pow(i as int),
        decreases n - i,
    {
        let c = t[i];
        let v = c as u32;
        if !(48 <= v && v <= 57) {
            return None;
        }
        proof {
            lemma_ten_pow_mono(i as int, 9);
            reveal_with_fuel(ten_pow, 11);
            assert(ten_pow(9int) == 1000000000);
            assert(t@.take(i + 1).drop_last() =~= t@.take(i as int));
            assert(t@.take(i + 1).last() == t@[i as int]);
        }
        acc = acc * 10 + (v - 48) as u64;
        i = i + 1;
    }
    proof {
        assert(t@.take(n as int) =~= t@);
    }
    Some(acc)
}

/// An array element in executable form; numbers are capped by
/// [`MAX_NUMBER_DIGITS`] digits, so they fit this representation.
enum ItemE {
    Int(u64),
    Range(u64, u64),
}

spec fn item_view(it: ItemE) -> SpecItem {
    match it {
        ItemE::Int(v) => SpecItem::Int(v as int),
        ItemE::Range(a, b) => SpecItem::Range(a as int, b as int),
    }
}

spec fn items_views(q: Seq<ItemE>) -> Seq<SpecItem> {
    Seq::new(q.len(), |i: int| item_view(q[i]))
}

fn parse_item(piece: &Vec<char>) -> (r: Option<ItemE>)
    ensures
        match r {
            Some(it) => spec_item(piece@) == Some(item_view(it)),
            None => spec_item(piece@) is None,
        },
{
    let t = trim_chars(piece);
    match parse_digits(&t) {
        Some(v) => {
            return Some(ItemE::Int(v));
        },
        None => {},
    }
    let tlen = t.len();
    if tlen >= 2 && t[0] == '"' && t[tlen - 1] == '"' {
        proof {
            assert(t@[tlen - 1] == t@.last());
        }
        let inner = copy_range(&t, 1, tlen - 1);
        let parts = split_chars(&inner, '-');
        proof {
            assert(seq_views(parts@).len() == parts@.len());
        }
        if parts.len() == 2 {
            let a = trim_chars(&parts[0]);
            let b = trim_chars(&parts[1]);
            proof {
                assert(seq_views(parts@)[0] == parts@[0]@);
                assert(seq_views(parts@)[1] == parts@[1]@);
            }
            match (parse_digits(&a), parse_digits(&b)) {
                (Some(x), Some(y)) => Some(ItemE::Range(x, y)),
                _ => None,
            }
        } else {
            None
        }
    } else {
        None
    }
}

/// One line in executable form.
enum LineE {
    Blank,
    Entry(Vec<char>, Vec<ItemE>),
    Malformed,
}

spec fn line_view(l: &LineE) -> LineForm {
    match l {
        LineE::Blank => LineForm::Blank,
        LineE::Entry(key, items) => LineForm::Entry(key@, items_views(items@)),
        LineE::Malformed => LineForm::Malformed,
    }
}

spec fn items_with_prefix(done: Seq<SpecItem>, rest: Option<Seq<SpecItem>>) -> Option<
    Seq<SpecItem>,
> {
    match rest {
        Some(ts) => Some(done + ts),
        None => None,
    }
}

fn parse_pieces(pieces: &Vec<Vec<char>>) -> (r: Option<Vec<ItemE>>)
    ensures
        match r {
            Some(items) => spec_items(seq_views(pieces@)) == Some(items_views(items@)),
            None => spec_items(seq_views(pieces@)) is None,
        },
{
    let n = pieces.len();
    let mut out: Vec<ItemE> = Vec::new();
    let mut i: usize = 0;
    proof {
        assert(seq_views(pieces@).skip(0) =~= seq_views(pieces@));
        if spec_items(seq_views(pieces@)) is Some {
            assert(items_views(out@) + spec_items(seq_views(pieces@)).unwrap() =~= spec_items(
                seq_views(pieces@),
            ).unwrap());
        }
    }
    while i < n
        invariant
            i <= n,
            n == pieces@.len(),
            spec_items(seq_views(pieces@)) == items_with_prefix(
                items_views(out@),
                spec_items(seq_views(pieces@).skip(i as int)),
            ),
        decreases n - i,
    {
        proof {
            assert(seq_views(pieces@).skip(i as int)[0] == pieces@[i as int]@);
            assert(seq_views(pieces@).skip(i as int).drop_first() =~= seq_views(
                pieces@,
            ).skip(i + 1));
        }
        match parse_item(&pieces[i]) {
            Some(it) => {
                let ghost old_out = out@;
                out.push(it);
                proof {
                    if spec_items(seq_views(pieces@).skip(i + 1)) is Some {
                        assert(items_views(old_out) + (seq![item_view(it)] + spec_items(
                            seq_views(pieces@).skip(i + 1),
                        ).unwrap()) =~= items_views(out@) + spec_items(
                            seq_views(pieces@).skip(i + 1),
                        ).unwrap());
                    }
                }
            },
            None => {
                return None;
            },
        }
        i = i + 1;
    }
    proof {
        assert(seq_views(pieces@).skip(n as int) =~= Seq::<Seq<char>>::empty());
        if spec_items(seq_views(pieces@)) is Some {
            assert(items_views(out@) + Seq::<SpecItem>::empty() =~= items_views(out@));
        }
    }
    Some(out)
}

fn parse_line(line: &Vec<char>) -> (r: LineE)
    ensures
        line_view(&r) == spec_line(line@),
{
    let stripped = strip_comment_chars(line);
    let t = trim_chars(&stripped);
    let tlen = t.len();
    if tlen == 0 {
        return LineE::Blank;
    }
    let parts = split_chars(&t, '=');
    proof {
        assert(seq_views(parts@).len() == parts@.len());
    }
    if parts.len() != 2 {
        return LineE::Malformed;
    }
    proof {
        assert(seq_views(parts@)[0] == parts@[0]@);
        assert(seq_views(parts@)[1] == parts@[1]@);
    }
    let key = trim_chars(&parts[0]);
    let val = trim_chars(&parts[1]);
    let vlen = val.len();
    if key.len() == 0 || vlen < 2 || val[0] != '[' || val[vlen - 1] != ']' {
        return LineE::Malformed;
    }
    proof {
        assert(val@[vlen - 1] == val@.last());
    }
    let inner = trim_chars(&copy_range(&val, 1, vlen - 1));
    if inner.len() == 0 {
        proof {
            assert(items_views(Seq::<ItemE>::empty()) =~= Seq::<SpecItem>::empty());
        }
        return LineE::Entry(key, Vec::new());
    }
    let pieces = split_chars(&inner, ',');
    match parse_pieces(&pieces) {
        Some(items) => LineE::Entry(key, items),
        None => LineE::Malformed,
    }
}

fn expand_item_into(
    policy: &ColorPolicy,
    chara: ECharaID,
    it: &ItemE,
    out: &mut Vec<EColorID>,
) -> (ok: bool)
    ensures
        match spec_expand_item(policy, chara, item_view(*it)) {
            Some(cs) => ok && final(out)@ == old(out)@ + cs,
            None => !ok && final(out)@ == old(out)@,
        },
{
    match it {
        ItemE::Int(v) => {
            if 1 <= *v && *v <= u32::MAX as u64 {
                let c = (*v - 1) as u32;
                range_colors_into(policy, chara, c, c, out);
                true
            } else {
                proof {
                    assert(final(out)@ =~= old(out)@);
                }
                false
            }
        },
        ItemE::Range(a, b) => {
            if 1 <= *a && *a <= u32::MAX as u64 && 1 <= *b && *b <= u32::MAX as u64 {
                range_colors_into(policy, chara, (*a - 1) as u32, (*b - 1) as u32, out);
                true
            } else {
                proof {
                    assert(final(out)@ =~= old(out)@);
                }
                false
            }
        },
    }
}

spec fn colors_with_prefix(done: Seq<EColorID>, rest: Option<Seq<EColorID>>) -> Option<
    Seq<EColorID>,
> {
    match rest {
        Some(cs) => Some(done + cs),
        None => None,
    }
}

fn expand_items(policy: &ColorPolicy, chara: ECharaID, items: &Vec<ItemE>) -> (r: Option<
    Vec<EColorID>,
>)
    ensures
        match r {
            Some(v) => spec_expand_items(policy, chara, items_views(items@)) == Some(v@),
            None => spec_expand_items(policy, chara, items_views(items@)) is None,
        },
{
    let n = items.len();
    let mut out: Vec<EColorID> = Vec::new();
    let mut i: usize = 0;
    proof {
        assert(items_views(items@).skip(0) =~= items_views(items@));
        if spec_expand_items(policy, chara, items_views(items@)) is Some {
            assert(out@ + spec_expand_items(policy, chara, items_views(items@)).unwrap()
                =~= spec_expand_items(policy, chara, items_views(items@)).unwrap());
        }
    }
    while i < n
        invariant
            i <= n,
            n == items@.len(),
            spec_expand_items(policy, chara, items_views(items@)) == colors_with_prefix(
                out@,
                spec_expand_items(policy, chara, items_views(items@).skip(i as int)),
            ),
        decreases n - i,
    {
        proof {
            assert(items_views(items@).skip(i as int)[0] == item_view(items@[i as int]));
            assert(items_views(items@).skip(i as int).drop_first() =~= items_views(
                items@,
            ).skip(i + 1));
        }
        let ghost old_out = out@;
        let ok = expand_item_into(policy, chara, &items[i], &mut out);
        if !ok {
            return None;
        }
        proof {
            if spec_expand_items(policy, chara, items_views(items@).skip(i + 1)) is Some {
                assert(old_out + (spec_expand_item(
                    policy,
                    chara,
                    item_view(items@[i as int]),
                ).unwrap() + spec_expand_items(
                    policy,
                    chara,
                    items_views(items@).skip(i + 1),
                ).unwrap()) =~= out@ + spec_expand_items(
                    policy,
                    chara,
                    items_views(items@).skip(i + 1),
                ).unwrap());
            }
        }
        i = i + 1;
    }
    proof {
        assert(items_views(items@).skip(n as int) =~= Seq::<SpecItem>::empty());
        if spec_expand_items(policy, chara, items_views(items@)) is Some {
            assert(out@ + Seq::<EColorID>::empty() =~= out@);
        }
    }
    Some(out)
}

spec fn rows_views(q: Seq<Option<Vec<EColorID>>>) -> Seq<Option<Seq<EColorID>>> {
    Seq::new(
        q.len(),
        |i: int|
            match q[i] {
                Some(v) => Some(v@),
                None => None,
            },
    )
}

/// Parses a configuration text against the selectability policy: each
/// line one character's pool, expanded and filtered as [`spec_parse_config`]
/// says; the first offending line decides the error.
pub fn parse_config(text: &str, policy: &ColorPolicy) -> (r: Result<Config, ConfigError>)
    ensures
        match r {
            Ok(cfg) => {
                &&& cfg.wf()
                &&& spec_parse_config(policy, text@) matches SpecParse::Done(rows) && cfg@
                    == finalize_rows(rows)
            },
            Err(e) => spec_parse_config(policy, text@) == SpecParse::Failed(e),
        },
{
    let cs = crate::strutil::chars_of(text);
    let lines = split_chars(&cs, '\n');
    let n = lines.len();
    let mut rows: Vec<Option<Vec<EColorID>>> = Vec::new();
    let mut k: usize = 0;
    while k < CHARA_COUNT as usize
        invariant
            k <= CHARA_COUNT,
            rows@.len() == k,
            forall|j: int| 0 <= j < k ==> rows@[j] is None,
        decreases CHARA_COUNT - k,
    {
        rows.push(None);
        k = k + 1;
    }
    proof {
        assert(rows_views(rows@) =~= init_rows());
        assert(seq_views(lines@).skip(0) =~= seq_views(lines@));
    }
    let mut i: usize = 0;
    while i < n
        invariant
            i <= n,
            n == lines@.len(),
            rows@.len() == CHARA_COUNT,
            spec_parse_config(policy, text@) == spec_parse_lines(
                policy,
                seq_views(lines@).skip(i as int),
                rows_views(rows@),
            ),
        decreases n - i,
    {
        proof {
            assert(seq_views(lines@).skip(i as int)[0] == lines@[i as int]@);
            assert(seq_views(lines@).skip(i as int).drop_first() =~= seq_views(
                lines@,
            ).skip(i + 1));
        }
        match parse_line(&lines[i]) {
            LineE::Blank => {},
            LineE::Malformed => {
                return Err(ConfigError::Syntax);
            },
            LineE::Entry(key, items) => {
                match crate::red::chara_of_tag_chars(&key) {
                    None => {
                        return Err(ConfigError::UnknownChara);
                    },
                    Some(c) => {
                        let idx = c.repr() as usize;
                        let dup = match &rows[idx] {
                            Some(_) => true,
                            None => false,
                        };
                        if dup {
                            return Err(ConfigError::Syntax);
                        }
                        match expand_items(policy, c, &items) {
                            None => {
                                return Err(ConfigError::BadNumber);
                            },
                            Some(colors) => {
                                let ghost old_rows = rows@;
                                rows.set(idx, Some(colors));
                                proof {
                                    assert(rows_views(rows@) =~= rows_views(old_rows).update(
                                        chara_repr(c) as int,
                                        Some(colors@),
                                    ));
                                }
                            },
                        }
                    },
                }
            },
        }
        i = i + 1;
    }
    proof {
        assert(seq_views(lines@).skip(n as int) =~= Seq::<Seq<char>>::empty());
    }
    let mut colors: Vec<Vec<EColorID>> = Vec::new();
    let ghost final_rows = rows_views(rows@);
    let mut k: usize = 0;
    while k < CHARA_COUNT as usize
        invariant
            k <= CHARA_COUNT,
            rows@.len() == CHARA_COUNT - k,
            colors@.len() == k,
            rows_views(rows@) =~= final_rows.skip(k as int),
            final_rows.len() == CHARA_COUNT,
            forall|j: int| 0 <= j < k ==> #[trigger] colors@[j]@ == finalize_rows(final_rows)[j],
        decreases CHARA_COUNT - k,
    {
        let row = rows.remove(0);
        proof {
            assert(rows_views(rows@) =~= final_rows.skip(k as int).drop_first());
            assert(final_rows.skip(k as int).drop_first() =~= final_rows.skip(k + 1));
            assert(final_rows.skip(k as int)[0] == final_rows[k as int]);
        }
        match row {
            Some(v) => {
                colors.push(v);
            },
            None => {
                colors.push(Vec::new());
            },
        }
        k = k + 1;
    }
    let cfg = Config { colors };
    proof {
        assert(cfg@ =~~= finalize_rows(final_rows));
    }
    Ok(cfg)
}

} // verus!
