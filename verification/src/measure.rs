//! Text measurement over a glyph table: rendered width and height of a
//! string, and the shrink-to-fit search for how many leading characters
//! fit a pixel budget.
//!
//! Two width entry points exist on purpose, with different whitespace
//! semantics: `get_width` charges every whitespace character a fixed
//! width and never looks it up, while `get_width_chars` looks up every
//! character, space included.

use vstd::prelude::*;
use crate::pack::char_at;
use crate::pack::packed_table;
use crate::pack::rec_matches;
use crate::pack::spec_pos;
use crate::pack::PackConfig;
use crate::types::RawGlyph;
use crate::pack::ScaledFont;
use crate::pack::MAX_DIMENSION;
use crate::types::Character;
use crate::types::FontError;

verus! {

/// Width charged for any whitespace character by `get_width`, in pixels.
pub const WHITESPACE_WIDTH: i64 = 10;

/// Longest text any measurement accepts; keeps every width sum inside
/// `i64`.
pub const MAX_TEXT_LEN: usize = 100000000;

/// The Unicode whitespace property, written out: the characters that
/// `get_width` charges `WHITESPACE_WIDTH` for and skips in lookups.
pub open spec fn spec_is_ws(c: char) -> bool {
    c == ' ' || c == '\u{9}' || c == '\u{a}' || c == '\u{b}' || c == '\u{c}' || c == '\u{d}'
        || c == '\u{85}' || c == '\u{a0}' || c == '\u{1680}' || c == '\u{2000}' || c == '\u{2001}'
        || c == '\u{2002}' || c == '\u{2003}' || c == '\u{2004}' || c == '\u{2005}'
        || c == '\u{2006}' || c == '\u{2007}' || c == '\u{2008}' || c == '\u{2009}'
        || c == '\u{200a}' || c == '\u{2028}' || c == '\u{2029}' || c == '\u{202f}'
        || c == '\u{205f}' || c == '\u{3000}'
}

/// Decides `spec_is_ws` for one character.
pub fn is_text_whitespace(c: char) -> (r: bool)
    ensures
        r == spec_is_ws(c),
{
    match c {
        ' ' | '\u{9}' | '\u{a}' | '\u{b}' | '\u{c}' | '\u{d}' | '\u{85}' | '\u{a0}' | '\u{1680}'
            | '\u{2000}' | '\u{2001}' | '\u{2002}' | '\u{2003}' | '\u{2004}' | '\u{2005}'
            | '\u{2006}' | '\u{2007}' | '\u{2008}' | '\u{2009}' | '\u{200a}' | '\u{2028}'
            | '\u{2029}' | '\u{202f}' | '\u{205f}' | '\u{3000}' => true,
        _ => false,
    }
}

/// The first record for `c` at or after position `i`, if any.
pub open spec fn spec_find_from(gs: Seq<Character>, c: char, i: int) -> Option<Character>
    decreases gs.len() - i,
{
    if i < 0 || i >= gs.len() {
        None
    } else if gs[i].id == c {
        Some(gs[i])
    } else {
        spec_find_from(gs, c, i + 1)
    }
}

/// The record the table holds for `c`: the first one whose `id` is `c`.
pub open spec fn spec_find(gs: Seq<Character>, c: char) -> Option<Character> {
    spec_find_from(gs, c, 0)
}

/// A found record is one of the table's records, under its own key.
pub proof fn lemma_find_from_mem(gs: Seq<Character>, c: char, i: int)
    requires
        0 <= i,
        spec_find_from(gs, c, i).is_some(),
    ensures
        exists|j: int|
            i <= j < gs.len() && gs[j] == spec_find_from(gs, c, i).unwrap() && #[trigger] gs[j].id
                == c,
    decreases gs.len() - i,
{
    if i < gs.len() {
        if gs[i].id == c {
        } else {
            lemma_find_from_mem(gs, c, i + 1);
        }
    }
}

/// When the table's keys are distinct, looking up record `k`'s own key
/// finds exactly record `k`: each character of a distinct-keyed set has
/// one record, under its own key.
pub proof fn lemma_find_unique(gs: Seq<Character>, k: int)
    requires
        0 <= k < gs.len(),
        forall|i: int, j: int| 0 <= i < j < gs.len() ==> #[trigger] gs[i].id != #[trigger] gs[j].id,
    ensures
        spec_find(gs, gs[k].id) == Some(gs[k]),
{
    lemma_find_from_unique(gs, k, 0);
}

proof fn lemma_find_from_unique(gs: Seq<Character>, k: int, i: int)
    requires
        0 <= i <= k < gs.len(),
        forall|i2: int, j2: int|
            0 <= i2 < j2 < gs.len() ==> #[trigger] gs[i2].id != #[trigger] gs[j2].id,
    ensures
        spec_find_from(gs, gs[k].id, i) == Some(gs[k]),
    decreases k - i,
{
    if i < k {
        assert(gs[i].id != gs[k].id);
        lemma_find_from_unique(gs, k, i + 1);
    }
}

/// What one character adds to `get_width`'s sum: the fixed whitespace
/// width, or the record's advance.
pub open spec fn char_width(gs: Seq<Character>, c: char) -> int {
    if spec_is_ws(c) {
        WHITESPACE_WIDTH as int
    } else {
        spec_find(gs, c).unwrap().x_advance as int
    }
}

/// The width `get_width` measures for `s`.
pub open spec fn text_width(gs: Seq<Character>, s: Seq<char>) -> int
    decreases s.len(),
{
    if s.len() == 0 {
        0
    } else {
        text_width(gs, s.drop_last()) + char_width(gs, s.last())
    }
}

/// Every non-whitespace character of `s` has a record.
pub open spec fn covers_text(gs: Seq<Character>, s: Seq<char>) -> bool {
    forall|i: int|
        0 <= i < s.len() && !spec_is_ws(s[i]) ==> (#[trigger] spec_find(gs, s[i])).is_some()
}

/// What one character adds to `get_width_chars`'s sum: always the
/// record's advance, whitespace included.
pub open spec fn seq_char_width(gs: Seq<Character>, c: char) -> int {
    spec_find(gs, c).unwrap().x_advance as int
}

/// The width `get_width_chars` measures for `s`.
pub open spec fn seq_width(gs: Seq<Character>, s: Seq<char>) -> int
    decreases s.len(),
{
    if s.len() == 0 {
        0
    } else {
        seq_width(gs, s.drop_last()) + seq_char_width(gs, s.last())
    }
}

/// Every character of `s`, whitespace included, has a record.
pub open spec fn covers_seq(gs: Seq<Character>, s: Seq<char>) -> bool {
    forall|i: int| 0 <= i < s.len() ==> (#[trigger] spec_find(gs, s[i])).is_some()
}

/// Sum of the bitmap heights of the non-whitespace characters of `s`.
pub open spec fn height_sum(gs: Seq<Character>, s: Seq<char>) -> int
    decreases s.len(),
{
    if s.len() == 0 {
        0
    } else {
        height_sum(gs, s.drop_last()) + if spec_is_ws(s.last()) {
            0int
        } else {
            spec_find(gs, s.last()).unwrap().height as int
        }
    }
}

/// How many characters of `s` are not whitespace.
pub open spec fn nonws_count(s: Seq<char>) -> int
    decreases s.len(),
{
    if s.len() == 0 {
        0
    } else {
        nonws_count(s.drop_last()) + if spec_is_ws(s.last()) {
            0int
        } else {
            1int
        }
    }
}

/// A text of covered characters measures a non-negative width, and no
/// more than `MAX_DIMENSION` per character: `get_width` cannot go
/// negative and its sum stays inside `i64`.
pub proof fn lemma_text_width_bounds(gs: Seq<Character>, s: Seq<char>)
    requires
        forall|j: int| 0 <= j < gs.len() ==> 0 <= (#[trigger] gs[j]).x_advance <= MAX_DIMENSION,
        covers_text(gs, s),
    ensures
        0 <= text_width(gs, s) <= s.len() * (MAX_DIMENSION as int),
    decreases s.len(),
{
    if s.len() > 0 {
        assert(covers_text(gs, s.drop_last()));
        lemma_text_width_bounds(gs, s.drop_last());
        if !spec_is_ws(s.last()) {
            assert(s.last() == s[s.len() - 1]);
            assert(spec_find(gs, s[s.len() - 1]).is_some());
            lemma_find_from_mem(gs, s.last(), 0);
        }
    }
}

/// As `lemma_text_width_bounds`, for the sequence flavour.
pub proof fn lemma_seq_width_bounds(gs: Seq<Character>, s: Seq<char>)
    requires
        forall|j: int| 0 <= j < gs.len() ==> 0 <= (#[trigger] gs[j]).x_advance <= MAX_DIMENSION,
        covers_seq(gs, s),
    ensures
        0 <= seq_width(gs, s) <= s.len() * (MAX_DIMENSION as int),
    decreases s.len(),
{
    if s.len() > 0 {
        assert(covers_seq(gs, s.drop_last()));
        lemma_seq_width_bounds(gs, s.drop_last());
        assert(s.last() == s[s.len() - 1]);
        assert(spec_find(gs, s[s.len() - 1]).is_some());
        lemma_find_from_mem(gs, s.last(), 0);
    }
}

/// Height sums of covered text are non-negative and bounded, and the
/// non-whitespace count never exceeds the length.
pub proof fn lemma_height_sum_bounds(gs: Seq<Character>, s: Seq<char>)
    requires
        forall|j: int| 0 <= j < gs.len() ==> 0 <= (#[trigger] gs[j]).height <= MAX_DIMENSION,
        covers_text(gs, s),
    ensures
        0 <= height_sum(gs, s) <= s.len() * (MAX_DIMENSION as int),
        0 <= nonws_count(s) <= s.len(),
    decreases s.len(),
{
    if s.len() > 0 {
        assert(covers_text(gs, s.drop_last()));
        lemma_height_sum_bounds(gs, s.drop_last());
        if !spec_is_ws(s.last()) {
            assert(s.last() == s[s.len() - 1]);
            assert(spec_find(gs, s[s.len() - 1]).is_some());
            lemma_find_from_mem(gs, s.last(), 0);
        }
    }
}

/// Reads one record of the table.
fn rec_at(v: &Vec<Character>, i: usize) -> (c: Character)
    requires
        i < v@.len(),
    ensures
        c == v@[i as int],
{
    v[i]
}

impl ScaledFont {
    /// Looks up the record for `c`: the first record whose key is `c`,
    /// or `None` for a character outside the packed set.
    pub fn get(&self, c: char) -> (r: Option<Character>)
        ensures
            r == spec_find(self.chars@, c),
    {
        let n = self.chars.len();
        let mut i: usize = 0;
        while i < n
            invariant
                n == self.chars@.len(),
                i <= n,
                spec_find(self.chars@, c) == spec_find_from(self.chars@, c, i as int),
            decreases n - i,
        {
            let rec = rec_at(&self.chars, i);
            if rec.id == c {
                return Some(rec);
            }
            i = i + 1;
        }
        None
    }

    /// The pixel width of the prefix `text[..l]` under `get_width`'s
    /// rules; every non-whitespace character of the prefix must be in the
    /// table.
    fn width_of_prefix(&self, text: &str, l: usize) -> (w: i64)
        requires
            self.wf(),
            l as int <= text@.len(),
            text@.len() <= MAX_TEXT_LEN,
            covers_text(self.chars@, text@.take(l as int)),
        ensures
            w == text_width(self.chars@, text@.take(l as int)),
    {
        let mut acc: i64 = 0;
        let mut i: usize = 0;
        while i < l
            invariant
                self.wf(),
                i <= l,
                l as int <= text@.len(),
                text@.len() <= MAX_TEXT_LEN,
                covers_text(self.chars@, text@.take(l as int)),
                acc == text_width(self.chars@, text@.take(i as int)),
                0 <= acc <= (i as int) * (MAX_DIMENSION as int),
            decreases l - i,
        {
            let c = text.get_char(i);
            let ghost pre = text@.take(i as int);
            let mut w: i64 = WHITESPACE_WIDTH;
            if !is_text_whitespace(c) {
                proof {
                    assert(text@.take(l as int)[i as int] == c);
                    assert(spec_find(self.chars@, c).is_some());
                }
                match self.get(c) {
                    Some(rec) => {
                        proof {
                            lemma_find_from_mem(self.chars@, c, 0);
                        }
                        w = rec.x_advance as i64;
                    },
                    None => {
                        proof {
                            assert(false);
                        }
                    },
                }
            }
            proof {
                assert(text@.take(i + 1 as int).drop_last() =~= pre);
                assert(text@.take(i + 1 as int).last() == c);
                assert(covers_text(self.chars@, text@.take(i as int)));
            }
            acc = acc + w;
            i = i + 1;
        }
        acc
    }

    /// Measures the rendered pixel width of `text`: each whitespace
    /// character counts `WHITESPACE_WIDTH`, every other character its
    /// recorded advance. `UnknownGlyph` exactly when a non-whitespace
    /// character has no record.
    pub fn get_width(&self, text: &str) -> (r: Result<i64, FontError>)
        requires
            self.wf(),
            text@.len() <= MAX_TEXT_LEN,
        ensures
            match r {
                Ok(w) => covers_text(self.chars@, text@) && w == text_width(
                    self.chars@,
                    text@,
                ),
                Err(e) => e == FontError::UnknownGlyph && !covers_text(self.chars@, text@),
            },
    {
        let n = text.unicode_len();
        let mut i: usize = 0;
        while i < n
            invariant
                self.wf(),
                n == text@.len(),
                i <= n,
                covers_text(self.chars@, text@.take(i as int)),
            decreases n - i,
        {
            let c = text.get_char(i);
            if !is_text_whitespace(c) {
                match self.get(c) {
                    Some(_) => {
                    },
                    None => {
                        proof {
                            assert(text@[i as int] == c);
                            assert(!covers_text(self.chars@, text@));
                        }
                        return Err(FontError::UnknownGlyph);
                    },
                }
            }
            proof {
                assert forall|j: int|
                    0 <= j < i + 1 && !spec_is_ws(text@.take(i + 1 as int)[j]) implies (
                #[trigger] spec_find(self.chars@, text@.take(i + 1 as int)[j])).is_some() by {
                    assert(text@.take(i + 1 as int)[j] == text@.take(i as int)[j] || j == i);
                }
            }
            i = i + 1;
        }
        proof {
            assert(text@.take(n as int) =~= text@);
        }
        Ok(self.width_of_prefix(text, n))
    }

    /// The pixel width of the prefix `chars[..l]` under
    /// `get_width_chars`'s rules: every character looked up, whitespace
    /// included.
    fn width_of_seq_prefix(&self, chars: &Vec<char>, l: usize) -> (w: i64)
        requires
            self.wf(),
            l as int <= chars@.len(),
            chars@.len() <= MAX_TEXT_LEN,
            covers_seq(self.chars@, chars@.take(l as int)),
        ensures
            w == seq_width(self.chars@, chars@.take(l as int)),
    {
        let mut acc: i64 = 0;
        let mut i: usize = 0;
        while i < l
            invariant
                self.wf(),
                i <= l,
                l as int <= chars@.len(),
                chars@.len() <= MAX_TEXT_LEN,
                covers_seq(self.chars@, chars@.take(l as int)),
                acc == seq_width(self.chars@, chars@.take(i as int)),
                0 <= acc <= (i as int) * (MAX_DIMENSION as int),
            decreases l - i,
        {
            let c = char_at(chars, i);
            let ghost pre = chars@.take(i as int);
            proof {
                assert(chars@.take(l as int)[i as int] == c);
                assert(spec_find(self.chars@, c).is_some());
            }
            let w: i64;
            match self.get(c) {
                Some(rec) => {
                    proof {
                        lemma_find_from_mem(self.chars@, c, 0);
                    }
                    w = rec.x_advance as i64;
                },
                None => {
                    proof {
                        assert(false);
                    }
                    w = 0;
                },
            }
            proof {
                assert(chars@.take(i + 1 as int).drop_last() =~= pre);
                assert(chars@.take(i + 1 as int).last() == c);
            }
            acc = acc + w;
            i = i + 1;
        }
        acc
    }

    /// Measures the pixel width of an explicit character sequence. Unlike
    /// `get_width`, whitespace gets no special case: every character,
    /// space included, must have a record and contributes its advance.
    pub fn get_width_chars(&self, chars: &Vec<char>) -> (r: Result<i64, FontError>)
        requires
            self.wf(),
            chars@.len() <= MAX_TEXT_LEN,
        ensures
            match r {
                Ok(w) => covers_seq(self.chars@, chars@) && w == seq_width(self.chars@, chars@),
                Err(e) => e == FontError::UnknownGlyph && !covers_seq(self.chars@, chars@),
            },
    {
        let n = chars.len();
        let mut i: usize = 0;
        while i < n
            invariant
                self.wf(),
                n == chars@.len(),
                i <= n,
                covers_seq(self.chars@, chars@.take(i as int)),
            decreases n - i,
        {
            let c = char_at(chars, i);
            match self.get(c) {
                Some(_) => {
                },
                None => {
                    proof {
                        assert(chars@[i as int] == c);
                        assert(!covers_seq(self.chars@, chars@));
                    }
                    return Err(FontError::UnknownGlyph);
                },
            }
            proof {
                assert forall|j: int| 0 <= j < i + 1 implies (#[trigger] spec_find(
                    self.chars@,
                    chars@.take(i + 1 as int)[j],
                )).is_some() by {
                    assert(chars@.take(i + 1 as int)[j] == chars@.take(i as int)[j] || j == i);
                }
            }
            i = i + 1;
        }
        proof {
            assert(chars@.take(n as int) =~= chars@);
        }
        Ok(self.width_of_seq_prefix(chars, n))
    }

    /// Measures the average bitmap height of the non-whitespace
    /// characters of `text`, rounded toward zero. `UnknownGlyph` exactly
    /// when such a character has no record; `EmptyMeasurement` exactly
    /// when the text has no non-whitespace character at all.
    pub fn get_height(&self, text: &str) -> (r: Result<i64, FontError>)
        requires
            self.wf(),
            text@.len() <= MAX_TEXT_LEN,
        ensures
            match r {
                Ok(h) => covers_text(self.chars@, text@) && nonws_count(text@) > 0 && h
                    == height_sum(self.chars@, text@) / nonws_count(text@),
                Err(e) => (e == FontError::UnknownGlyph && !covers_text(self.chars@, text@)) || (e
                    == FontError::EmptyMeasurement && covers_text(self.chars@, text@)
                    && nonws_count(text@) == 0),
            },
    {
        let n = text.unicode_len();
        let mut sum: i64 = 0;
        let mut count: i64 = 0;
        let mut i: usize = 0;
        while i < n
            invariant
                self.wf(),
                n == text@.len(),
                n <= MAX_TEXT_LEN,
                i <= n,
                covers_text(self.chars@, text@.take(i as int)),
                sum == height_sum(self.chars@, text@.take(i as int)),
                count == nonws_count(text@.take(i as int)),
                0 <= sum <= (i as int) * (MAX_DIMENSION as int),
                0 <= count <= i,
            decreases n - i,
        {
            let c = text.get_char(i);
            let ghost pre = text@.take(i as int);
            let mut h: i64 = 0;
            let mut one: i64 = 0;
            if !is_text_whitespace(c) {
                match self.get(c) {
                    Some(rec) => {
                        proof {
                            lemma_find_from_mem(self.chars@, c, 0);
                        }
                        h = rec.height as i64;
                        one = 1;
                    },
                    None => {
                        proof {
                            assert(text@[i as int] == c);
                            assert(!covers_text(self.chars@, text@));
                        }
                        return Err(FontError::UnknownGlyph);
                    },
                }
            }
            proof {
                assert(text@.take(i + 1 as int).drop_last() =~= pre);
                assert(text@.take(i + 1 as int).last() == c);
                assert forall|j: int|
                    0 <= j < i + 1 && !spec_is_ws(text@.take(i + 1 as int)[j]) implies (
                #[trigger] spec_find(self.chars@, text@.take(i + 1 as int)[j])).is_some() by {
                    assert(text@.take(i + 1 as int)[j] == text@.take(i as int)[j] || j == i);
                }
            }
            sum = sum + h;
            count = count + one;
            i = i + 1;
        }
        proof {
            assert(text@.take(n as int) =~= text@);
        }
        if count == 0 {
            return Err(FontError::EmptyMeasurement);
        }
        Ok(sum / count)
    }

    /// The greedy shrink-to-fit search: the largest prefix of `text`
    /// whose measured width fits `width`, reported as that prefix's
    /// length minus one. `None` when not even the first character fits.
    /// Every non-whitespace character of `text` must be in the table.
    pub fn get_chars(&self, width: i64, text: &str) -> (r: Option<usize>)
        requires
            self.wf(),
            1 <= text@.len() <= MAX_TEXT_LEN,
            covers_text(self.chars@, text@),
        ensures
            match r {
                Some(k) => k + 1 <= text@.len() && text_width(
                    self.chars@,
                    text@.take(k + 1 as int),
                ) <= width && (forall|l: int|
                    k + 1 < l <= text@.len() ==> text_width(
                        self.chars@,
                        #[trigger] text@.take(l),
                    ) > width),
                None => forall|l: int|
                    1 <= l <= text@.len() ==> text_width(self.chars@, #[trigger] text@.take(l))
                        > width,
            },
    {
        let n = text.unicode_len();
        let mut l: usize = n;
        while l >= 1
            invariant
                self.wf(),
                n == text@.len(),
                1 <= n <= MAX_TEXT_LEN,
                covers_text(self.chars@, text@),
                l <= n,
                forall|l2: int|
                    l < l2 <= n ==> text_width(self.chars@, #[trigger] text@.take(l2)) > width,
            decreases l,
        {
            proof {
                assert forall|j: int|
                    0 <= j < l && !spec_is_ws(text@.take(l as int)[j]) implies (
                #[trigger] spec_find(self.chars@, text@.take(l as int)[j])).is_some() by {
                    assert(text@.take(l as int)[j] == text@[j]);
                }
            }
            let w = self.width_of_prefix(text, l);
            if w <= width {
                return Some(l - 1);
            }
            l = l - 1;
        }
        None
    }

    /// The shrink-to-fit search over an explicit character sequence,
    /// measured as `get_width_chars` measures. An empty sequence gives
    /// `None` outright. Every character must be in the table.
    pub fn get_chars_test(&self, width: i64, chars: &Vec<char>) -> (r: Option<usize>)
        requires
            self.wf(),
            chars@.len() <= MAX_TEXT_LEN,
            covers_seq(self.chars@, chars@),
        ensures
            match r {
                Some(k) => chars@.len() >= 1 && k + 1 <= chars@.len() && seq_width(
                    self.chars@,
                    chars@.take(k + 1 as int),
                ) <= width && (forall|l: int|
                    k + 1 < l <= chars@.len() ==> seq_width(
                        self.chars@,
                        #[trigger] chars@.take(l),
                    ) > width),
                None => chars@.len() == 0 || (forall|l: int|
                    1 <= l <= chars@.len() ==> seq_width(self.chars@, #[trigger] chars@.take(l))
                        > width),
            },
    {
        let n = chars.len();
        if n == 0 {
            return None;
        }
        let mut l: usize = n;
        while l >= 1
            invariant
                self.wf(),
                n == chars@.len(),
                1 <= n <= MAX_TEXT_LEN,
                covers_seq(self.chars@, chars@),
                l <= n,
                forall|l2: int|
                    l < l2 <= n ==> seq_width(self.chars@, #[trigger] chars@.take(l2)) > width,
            decreases l,
        {
            proof {
                assert forall|j: int| 0 <= j < l implies (#[trigger] spec_find(
                    self.chars@,
                    chars@.take(l as int)[j],
                )).is_some() by {
                    assert(chars@.take(l as int)[j] == chars@[j]);
                }
            }
            let w = self.width_of_seq_prefix(chars, l);
            if w <= width {
                return Some(l - 1);
            }
            l = l - 1;
        }
        None
    }
}

/// Width measurement is monotone in the prefix length when every advance
/// in the table is non-negative: a longer prefix never measures
/// narrower.
pub proof fn lemma_text_width_monotone(gs: Seq<Character>, s: Seq<char>, l1: int, l2: int)
    requires
        forall|j: int| 0 <= j < gs.len() ==> 0 <= (#[trigger] gs[j]).x_advance,
        covers_text(gs, s),
        0 <= l1 <= l2 <= s.len(),
    ensures
        text_width(gs, s.take(l1)) <= text_width(gs, s.take(l2)),
    decreases l2 - l1,
{
    if l1 < l2 {
        lemma_text_width_monotone(gs, s, l1, l2 - 1);
        assert(s.take(l2).drop_last() =~= s.take(l2 - 1));
        assert(s.take(l2).last() == s[l2 - 1]);
        if !spec_is_ws(s[l2 - 1]) {
            assert(spec_find(gs, s[l2 - 1]).is_some());
            lemma_find_from_mem(gs, s[l2 - 1], 0);
        }
    }
}

/// With non-negative advances, the shrink-to-fit search finds nothing at
/// all exactly when already the first character alone is too wide: every
/// longer prefix measures at least as much as that one character.
pub proof fn lemma_fit_threshold(gs: Seq<Character>, s: Seq<char>, w: int)
    requires
        forall|j: int| 0 <= j < gs.len() ==> 0 <= (#[trigger] gs[j]).x_advance,
        covers_text(gs, s),
        1 <= s.len(),
    ensures
        (forall|l: int| 1 <= l <= s.len() ==> text_width(gs, #[trigger] s.take(l)) > w)
            <==> text_width(gs, s.take(1)) > w,
{
    if text_width(gs, s.take(1)) > w {
        assert forall|l: int| 1 <= l <= s.len() implies text_width(gs, #[trigger] s.take(l))
            > w by {
            lemma_text_width_monotone(gs, s, 1, l);
        }
    }
}

proof fn lemma_uniform_height_sum(gs: Seq<Character>, s: Seq<char>, h: int)
    requires
        covers_text(gs, s),
        forall|i: int|
            0 <= i < s.len() && !spec_is_ws(s[i]) ==> (#[trigger] spec_find(
                gs,
                s[i],
            )).unwrap().height == h,
    ensures
        height_sum(gs, s) == nonws_count(s) * h,
    decreases s.len(),
{
    if s.len() == 0 {
        assert(nonws_count(s) * h == 0) by (nonlinear_arith)
            requires
                nonws_count(s) == 0,
        ;
    } else {
        assert(covers_text(gs, s.drop_last()));
        assert forall|i: int|
            0 <= i < s.drop_last().len() && !spec_is_ws(s.drop_last()[i]) implies (
        #[trigger] spec_find(gs, s.drop_last()[i])).unwrap().height == h by {
            assert(s.drop_last()[i] == s[i]);
        }
        lemma_uniform_height_sum(gs, s.drop_last(), h);
        assert(s.last() == s[s.len() - 1]);
        if spec_is_ws(s.last()) {
        } else {
            assert((nonws_count(s.drop_last()) + 1) * h == nonws_count(s.drop_last()) * h + h)
                by (nonlinear_arith);
        }
    }
}

/// On text whose non-whitespace characters all have one bitmap height,
/// the measured average height is exactly that height.
pub proof fn lemma_uniform_height(gs: Seq<Character>, s: Seq<char>, h: int)
    requires
        covers_text(gs, s),
        forall|i: int|
            0 <= i < s.len() && !spec_is_ws(s[i]) ==> (#[trigger] spec_find(
                gs,
                s[i],
            )).unwrap().height == h,
        nonws_count(s) > 0,
    ensures
        height_sum(gs, s) / nonws_count(s) == h,
{
    lemma_uniform_height_sum(gs, s, h);
    assert(nonws_count(s) * h == h * nonws_count(s)) by (nonlinear_arith);
    vstd::arithmetic::div_mod::lemma_div_multiples_vanish(h, nonws_count(s));
}

/// No record carries `c`, so lookup fails.
pub proof fn lemma_find_none(gs: Seq<Character>, c: char)
    requires
        forall|i: int| 0 <= i < gs.len() ==> (#[trigger] gs[i]).id != c,
    ensures
        spec_find(gs, c).is_none(),
{
    if spec_find(gs, c).is_some() {
        lemma_find_from_mem(gs, c, 0);
    }
}

/// After packing a duplicate-free character set, the table holds exactly
/// one record per character of the set: looking a set character up finds
/// its own record, and looking up any character outside the set fails.
pub proof fn lemma_packed_lookup(
    sf: crate::pack::ScaledFont,
    charset: Seq<char>,
    glyphs: Seq<RawGlyph>,
    line_h: int,
    max_adv: int,
    cfg: PackConfig,
)
    requires
        packed_table(sf, charset, glyphs, line_h, max_adv, cfg),
        charset.len() == glyphs.len(),
        forall|i: int, j: int| 0 <= i < j < charset.len() ==> charset[i] != charset[j],
    ensures
        forall|k: int|
            0 <= k < charset.len() ==> spec_find(sf.chars@, #[trigger] charset[k]) == Some(
                sf.chars@[k],
            ),
        forall|c: char| !charset.contains(c) ==> spec_find(sf.chars@, c).is_none(),
{
    assert forall|i: int, j: int| 0 <= i < j < sf.chars@.len() implies #[trigger] sf.chars@[i].id
        != #[trigger] sf.chars@[j].id by {
        assert(rec_matches(sf.chars@[i], charset[i], glyphs[i], spec_pos(glyphs, i, line_h, cfg)));
        assert(rec_matches(sf.chars@[j], charset[j], glyphs[j], spec_pos(glyphs, j, line_h, cfg)));
    }
    assert forall|k: int| 0 <= k < charset.len() implies spec_find(
        sf.chars@,
        #[trigger] charset[k],
    ) == Some(sf.chars@[k]) by {
        assert(rec_matches(sf.chars@[k], charset[k], glyphs[k], spec_pos(glyphs, k, line_h, cfg)));
        lemma_find_unique(sf.chars@, k);
    }
    assert forall|c: char| !charset.contains(c) implies spec_find(sf.chars@, c).is_none() by {
        assert forall|i: int| 0 <= i < sf.chars@.len() implies (#[trigger] sf.chars@[i]).id
            != c by {
            assert(rec_matches(
                sf.chars@[i],
                charset[i],
                glyphs[i],
                spec_pos(glyphs, i, line_h, cfg),
            ));
            assert(charset[i] == charset.index(i));
        }
        lemma_find_none(sf.chars@, c);
    }
}

} // verus!
