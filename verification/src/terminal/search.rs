//! Text search over the visible terminal lines.
use vstd::prelude::*;

use crate::terminal::grid::{GridView, TerminalGrid};
use crate::terminal::selection::GridPoint;
use vstd::utf8::{encode_utf8, char_is_scalar};

verus! {

/// The characters `str::to_lowercase` produces for `s`.
pub uninterp spec fn lowercased(s: Seq<char>) -> Seq<char>;

/// `str::to_lowercase`; the result is named by `lowercased`.
#[verifier::external_body]
fn to_lowercase(s: &str) -> (out: String)
    ensures
        out@ == lowercased(s@),
{
    s.to_lowercase()
}

/// Bytes that the first `i` characters of `s` take in UTF-8.
pub open spec fn byte_offset(s: Seq<char>, i: int) -> nat {
    encode_utf8(s.take(i)).len()
}

/// Byte `b` of the UTF-8 form of `line` falls between two characters, or at
/// either end.
pub open spec fn is_boundary_of(line: Seq<char>, b: nat) -> bool {
    exists|c: int| 0 <= c <= line.len() && #[trigger] byte_offset(line, c) == b
}

/// How many characters of `line` come before byte `b`, where `b` is a boundary.
pub open spec fn chars_before(line: Seq<char>, b: nat) -> nat {
    (choose|c: int| 0 <= c <= line.len() && #[trigger] byte_offset(line, c) == b) as nat
}

proof fn lemma_encode_concat(a: Seq<char>, b: Seq<char>)
    ensures
        encode_utf8(a + b) == encode_utf8(a) + encode_utf8(b),
    decreases a.len(),
{
    if a.len() == 0 {
        assert(a + b =~= b);
        assert(encode_utf8(a) + encode_utf8(b) =~= encode_utf8(b));
    } else {
        lemma_encode_concat(a.drop_first(), b);
        assert((a + b).drop_first() =~= a.drop_first() + b);
        assert((a + b)[0] == a[0]);
        assert(encode_utf8(a + b) =~= encode_utf8(a) + encode_utf8(b));
    }
}

proof fn lemma_encode_nonempty(s: Seq<char>)
    requires
        s.len() > 0,
    ensures
        encode_utf8(s).len() >= 1,
{
    assert(encode_utf8(s) == vstd::utf8::encode_scalar(s[0] as u32) + encode_utf8(s.drop_first()));
}

/// Byte offsets grow strictly with the character count and never pass the
/// whole text.
proof fn lemma_offsets_increase(s: Seq<char>, i: int, j: int)
    requires
        0 <= i < j <= s.len(),
    ensures
        byte_offset(s, i) < byte_offset(s, j),
        byte_offset(s, j) <= encode_utf8(s).len(),
{
    assert(s.take(j) =~= s.take(i) + s.subrange(i, j));
    lemma_encode_concat(s.take(i), s.subrange(i, j));
    lemma_encode_nonempty(s.subrange(i, j));
    assert(s =~= s.take(j) + s.skip(j));
    lemma_encode_concat(s.take(j), s.skip(j));
}

proof fn lemma_offset_step(s: Seq<char>, i: int)
    requires
        0 <= i < s.len(),
    ensures
        byte_offset(s, i + 1) == byte_offset(s, i) + encode_utf8(seq![s[i]]).len(),
{
    assert(s.take(i + 1) =~= s.take(i) + seq![s[i]]);
    lemma_encode_concat(s.take(i), seq![s[i]]);
}

/// UTF-8 width of one character, as `char::len_utf8` gives it.
fn utf8_width(c: char) -> (w: usize)
    ensures
        w == encode_utf8(seq![c]).len(),
{
    proof {
        char_is_scalar(c);
        assert(seq![c].drop_first() =~= Seq::<char>::empty());
        assert(encode_utf8(seq![c]) == vstd::utf8::encode_scalar(c as u32) + encode_utf8(
            Seq::<char>::empty(),
        ));
    }
    let u: u32 = c as u32;
    if u <= 0x7f {
        1
    } else if u <= 0x7ff {
        2
    } else if u <= 0xffff {
        3
    } else {
        4
    }
}

/// The byte offset of every character position of `s`, ends included.
fn byte_offsets(s: &str) -> (offs: Vec<usize>)
    ensures
        offs@.len() == s@.len() + 1,
        forall|i: int| 0 <= i <= s@.len() ==> #[trigger] offs@[i] == byte_offset(s@, i),
{
    let total: usize = s.as_bytes().len();
    let chars = crate::text::chars_of(s);
    let mut offs: Vec<usize> = Vec::new();
    let mut acc: usize = 0;
    offs.push(0);
    assert(s@.take(0) =~= Seq::<char>::empty());
    let mut i: usize = 0;
    while i < chars.len()
        invariant
            chars@ == s@,
            total == encode_utf8(s@).len(),
            i <= chars@.len(),
            offs@.len() == i + 1,
            acc == byte_offset(s@, i as int),
            forall|k: int| 0 <= k <= i ==> #[trigger] offs@[k] == byte_offset(s@, k),
        decreases chars.len() - i,
    {
        proof {
            lemma_offset_step(s@, i as int);
            lemma_offsets_increase(s@, i as int, i + 1);
        }
        acc = acc + utf8_width(chars[i]);
        offs.push(acc);
        i = i + 1;
    }
    offs
}

/// The character position of `line` at byte `b`, if `b` is a boundary.
fn column_at(offs: &Vec<usize>, Ghost(line): Ghost<Seq<char>>, b: usize) -> (c: Option<usize>)
    requires
        offs@.len() == line.len() + 1,
        forall|i: int| 0 <= i <= line.len() ==> #[trigger] offs@[i] == byte_offset(line, i),
    ensures
        c matches Some(c) ==> c <= line.len() && byte_offset(line, c as int) == b
            && chars_before(line, b as nat) == c,
        c is None <==> !is_boundary_of(line, b as nat),
{
    let mut i: usize = 0;
    while i < offs.len()
        invariant
            offs@.len() == line.len() + 1,
            forall|i: int| 0 <= i <= line.len() ==> #[trigger] offs@[i] == byte_offset(line, i),
            i <= offs@.len(),
            forall|k: int| 0 <= k < i ==> byte_offset(line, k) != b,
        decreases offs.len() - i,
    {
        if offs[i] == b {
            proof {
                assert(byte_offset(line, i as int) == b);
                let w = choose|c: int| 0 <= c <= line.len() && #[trigger] byte_offset(line, c) == b;
                if w < i {
                    lemma_offsets_increase(line, w, i as int);
                } else if w > i {
                    lemma_offsets_increase(line, i as int, w);
                }
            }
            return Some(i);
        }
        i = i + 1;
    }
    None
}

/// A search request.
#[derive(Debug, PartialEq, Eq)]
pub struct SearchQuery {
    pub text: String,
    pub case_sensitive: bool,
}

/// One match: first and last cell of the matched text on a row.
#[derive(Debug, Clone, Copy, PartialEq, Eq, Structural)]
pub struct SearchMatch {
    pub start: GridPoint,
    pub end: GridPoint,
}

/// `needle` occurs in `hay` starting at index `i`.
pub open spec fn occurs_at(hay: Seq<char>, needle: Seq<char>, i: int) -> bool {
    0 <= i && i + needle.len() <= hay.len() && hay.subrange(i, i + needle.len()) == needle
}

/// Start indices of the leftmost non-overlapping occurrences of `needle`
/// in `hay` at or after `from`.
pub open spec fn match_starts(hay: Seq<char>, needle: Seq<char>, from: nat) -> Seq<nat>
    decreases hay.len() - from,
{
    if needle.len() == 0 || from + needle.len() > hay.len() {
        Seq::empty()
    } else if occurs_at(hay, needle, from as int) {
        seq![from] + match_starts(hay, needle, from + needle.len())
    } else {
        match_starts(hay, needle, from + 1)
    }
}

/// The text searched on a line: the line itself, or its lowercase form.
pub open spec fn haystack(line: Seq<char>, case_sensitive: bool) -> Seq<char> {
    if case_sensitive {
        line
    } else {
        lowercased(line)
    }
}

/// The match record for the occurrence of `needle` at character `s` of `hay`,
/// the searched form of `line` on `row`. The occurrence's byte range in `hay`
/// is carried over to `line`: the start column counts the characters of
/// `line` before the start byte, the end column is one less than those before
/// the end byte (0 at least).
pub open spec fn match_record(
    line: Seq<char>,
    hay: Seq<char>,
    needle: Seq<char>,
    row: int,
    s: nat,
) -> SearchMatch {
    let start = byte_offset(hay, s as int);
    let last = chars_before(line, start + encode_utf8(needle).len());
    SearchMatch {
        start: GridPoint { column: chars_before(line, start) as u16, row: row as u16 },
        end: GridPoint { column: (if last == 0 { 0 } else { last - 1 }) as u16, row: row as u16 },
    }
}

/// Both byte ends of the occurrence at character `s` of `hay` fall on
/// character boundaries of `line`.
pub open spec fn match_columns_defined(
    line: Seq<char>,
    hay: Seq<char>,
    needle: Seq<char>,
    s: nat,
) -> bool {
    let start = byte_offset(hay, s as int);
    is_boundary_of(line, start) && is_boundary_of(line, start + encode_utf8(needle).len())
}

/// Every occurrence on `line` has columns in `line`.
pub open spec fn row_columns_defined(line: Seq<char>, needle: Seq<char>, case_sensitive: bool) -> bool {
    let hay = haystack(line, case_sensitive);
    forall|k: int|
        0 <= k < match_starts(hay, needle, 0).len() ==> match_columns_defined(
            line,
            hay,
            needle,
            #[trigger] match_starts(hay, needle, 0)[k],
        )
}

/// The matches on one line, left to right.
pub open spec fn row_matches(
    line: Seq<char>,
    needle: Seq<char>,
    case_sensitive: bool,
    row: int,
) -> Seq<SearchMatch> {
    let hay = haystack(line, case_sensitive);
    match_starts(hay, needle, 0).map_values(|s: nat| match_record(line, hay, needle, row, s))
}

/// All matches on the first `k` lines, row by row, left to right.
pub open spec fn matches_in_lines(
    lines: Seq<Seq<char>>,
    needle: Seq<char>,
    case_sensitive: bool,
    k: nat,
) -> Seq<SearchMatch>
    decreases k,
{
    if k == 0 {
        Seq::empty()
    } else {
        matches_in_lines(lines, needle, case_sensitive, (k - 1) as nat) + row_matches(
            lines[k - 1],
            needle,
            case_sensitive,
            k - 1,
        )
    }
}

/// The visible lines of a grid view, top to bottom.
pub open spec fn visible_text(g: GridView) -> Seq<Seq<char>> {
    Seq::new(g.rows, |r: int| g.line_text(r as nat))
}

/// Each start that `match_starts` gives is an occurrence of the needle.
pub proof fn lemma_match_starts_occur(hay: Seq<char>, needle: Seq<char>, from: nat)
    ensures
        forall|k: int|
            0 <= k < match_starts(hay, needle, from).len() ==> occurs_at(
                hay,
                needle,
                #[trigger] match_starts(hay, needle, from)[k] as int,
            ),
    decreases hay.len() - from,
{
    let ms = match_starts(hay, needle, from);
    if needle.len() == 0 || from + needle.len() > hay.len() {
    } else if occurs_at(hay, needle, from as int) {
        lemma_match_starts_occur(hay, needle, from + needle.len());
        let rest = match_starts(hay, needle, from + needle.len());
        assert(ms == seq![from] + rest);
        assert forall|k: int| 0 <= k < ms.len() implies occurs_at(
            hay,
            needle,
            #[trigger] ms[k] as int,
        ) by {
            if k > 0 {
                assert(ms[k] == rest[k - 1]);
            }
        }
    } else {
        lemma_match_starts_occur(hay, needle, from + 1);
        assert(ms == match_starts(hay, needle, from + 1));
    }
}

/// On a case-sensitive search every match can be placed on its line, and its
/// columns are the character positions of the occurrence.
pub proof fn lemma_case_sensitive_columns(line: Seq<char>, needle: Seq<char>, row: int)
    ensures
        row_columns_defined(line, needle, true),
        forall|k: int|
            0 <= k < match_starts(line, needle, 0).len() ==> #[trigger] row_matches(
                line,
                needle,
                true,
                row,
            )[k] == (SearchMatch {
                start: GridPoint { column: match_starts(line, needle, 0)[k] as u16, row: row as u16 },
                end: GridPoint {
                    column: (match_starts(line, needle, 0)[k] + needle.len() - 1) as u16,
                    row: row as u16,
                },
            }),
{
    let ms = match_starts(line, needle, 0);
    lemma_match_starts_occur(line, needle, 0);
    assert forall|k: int| 0 <= k < ms.len() implies {
        &&& match_columns_defined(line, line, needle, #[trigger] ms[k])
        &&& chars_before(line, byte_offset(line, ms[k] as int)) == ms[k]
        &&& chars_before(line, byte_offset(line, ms[k] as int) + encode_utf8(needle).len())
            == ms[k] + needle.len()
    } by {
        let s = ms[k] as int;
        let e = s + needle.len();
        assert(occurs_at(line, needle, s));
        assert(line.take(e) =~= line.take(s) + needle);
        lemma_encode_concat(line.take(s), needle);
        assert(byte_offset(line, e) == byte_offset(line, s) + encode_utf8(needle).len());
        let a = choose|c: int| 0 <= c <= line.len() && #[trigger] byte_offset(line, c) == byte_offset(line, s);
        if a < s {
            lemma_offsets_increase(line, a, s);
        } else if a > s {
            lemma_offsets_increase(line, s, a);
        }
        let b = choose|c: int| 0 <= c <= line.len() && #[trigger] byte_offset(line, c) == byte_offset(line, e);
        if b < e {
            lemma_offsets_increase(line, b, e);
        } else if b > e {
            lemma_offsets_increase(line, e, b);
        }
    }
    assert forall|k: int| 0 <= k < ms.len() implies #[trigger] row_matches(line, needle, true, row)[k] == (SearchMatch {
        start: GridPoint { column: ms[k] as u16, row: row as u16 },
        end: GridPoint { column: (ms[k] + needle.len() - 1) as u16, row: row as u16 },
    }) by {
        assert(match_columns_defined(line, line, needle, ms[k]));
    }
}

/// A case-sensitive query can always be placed on the lines of any grid.
pub proof fn lemma_case_sensitive_query_fits(q: SearchQuery, g: GridView)
    requires
        q.case_sensitive,
    ensures
        q.columns_defined(g),
{
    assert forall|r: int| 0 <= r < g.rows implies #[trigger] row_columns_defined(
        g.line_text(r as nat),
        q.needle(),
        q.case_sensitive,
    ) by {
        lemma_case_sensitive_columns(g.line_text(r as nat), q.needle(), r);
    }
}

/// Whether `needle` occurs in `hay` at index `i`.
fn occurs_here(hay: &Vec<char>, needle: &Vec<char>, i: usize) -> (b: bool)
    requires
        i + needle.len() <= hay.len(),
    ensures
        b == occurs_at(hay@, needle@, i as int),
{
    let mut k: usize = 0;
    while k < needle.len()
        invariant
            k <= needle@.len(),
            i + needle.len() <= hay.len(),
            forall|j: int| 0 <= j < k ==> hay@[i + j] == needle@[j],
        decreases needle.len() - k,
    {
        if hay[i + k] != needle[k] {
            assert(hay@.subrange(i as int, i + needle@.len())[k as int] != needle@[k as int]);
            return false;
        }
        k = k + 1;
    }
    assert(hay@.subrange(i as int, i + needle@.len()) =~= needle@);
    true
}

/// Start indices of all leftmost non-overlapping occurrences.
fn find_starts(hay: &Vec<char>, needle: &Vec<char>) -> (out: Vec<usize>)
    requires
        needle@.len() > 0,
    ensures
        out@.map_values(|p: usize| p as nat) == match_starts(hay@, needle@, 0),
{
    let mut out: Vec<usize> = Vec::new();
    let mut pos: usize = 0;
    while pos <= hay.len() && hay.len() - pos >= needle.len()
        invariant
            pos <= hay.len() + 1,
            needle@.len() > 0,
            out@.map_values(|p: usize| p as nat) + match_starts(hay@, needle@, pos as nat)
                == match_starts(hay@, needle@, 0),
        decreases hay.len() + 1 - pos,
    {
        if occurs_here(hay, needle, pos) {
            let ghost prev = out@;
            out.push(pos);
            assert(out@.map_values(|p: usize| p as nat) =~= prev.map_values(|p: usize| p as nat).push(
                pos as nat,
            ));
            assert(out@.map_values(|p: usize| p as nat) + match_starts(
                hay@,
                needle@,
                (pos + needle.len()) as nat,
            ) =~= prev.map_values(|p: usize| p as nat) + match_starts(hay@, needle@, pos as nat));
            pos = pos + needle.len();
        } else {
            pos = pos + 1;
        }
    }
    assert(match_starts(hay@, needle@, pos as nat) == Seq::<nat>::empty());
    assert(out@.map_values(|p: usize| p as nat) + Seq::<nat>::empty() =~= out@.map_values(
        |p: usize| p as nat,
    ));
    out
}

impl SearchQuery {
    /// A case-insensitive query for `text`.
    pub fn new(text: &str) -> (q: SearchQuery)
        ensures
            q.text@ == text@,
            !q.case_sensitive,
    {
        SearchQuery { text: text.to_owned(), case_sensitive: false }
    }

    /// The same query with case sensitivity set.
    pub fn case_sensitive(self, case_sensitive: bool) -> (q: SearchQuery)
        ensures
            q.text@ == self.text@,
            q.case_sensitive == case_sensitive,
    {
        SearchQuery { text: self.text, case_sensitive }
    }

    /// The needle actually searched for.
    pub open spec fn needle(&self) -> Seq<char> {
        haystack(self.text@, self.case_sensitive)
    }

    /// The query's matches can be placed on the lines of `g`: every
    /// occurrence found in the searched form of a line starts and ends on a
    /// character boundary of the line itself.
    pub open spec fn columns_defined(&self, g: GridView) -> bool {
        self.text@.len() == 0 || forall|r: int|
            0 <= r < g.rows ==> #[trigger] row_columns_defined(
                g.line_text(r as nat),
                self.needle(),
                self.case_sensitive,
            )
    }

    /// The matches of a nonempty query, or `None` where one of them cannot be
    /// placed on its line.
    fn search(&self, grid: &TerminalGrid) -> (r: Option<Vec<SearchMatch>>)
        requires
            grid.wf(),
            self.text@.len() > 0,
        ensures
            self.needle().len() == 0 ==> (r matches Some(f) && f@.len() == 0),
            self.needle().len() > 0 ==> (r is Some <==> self.columns_defined(grid@)),
            self.needle().len() > 0 ==> (r matches Some(f) ==> f@ == matches_in_lines(
                visible_text(grid@),
                self.needle(),
                self.case_sensitive,
                grid@.rows,
            )),
    {
        let mut found: Vec<SearchMatch> = Vec::new();
        let needle_text = if self.case_sensitive {
            self.text.clone()
        } else {
            to_lowercase(self.text.as_str())
        };
        let needle = crate::text::chars_of(needle_text.as_str());
        if needle.len() == 0 {
            return Some(found);
        }
        let needle_bytes: usize = needle_text.as_str().as_bytes().len();
        let lines = grid.visible_lines();
        let ghost line_seq = visible_text(grid@);
        let mut row: usize = 0;
        while row < lines.len()
            invariant
                lines@.len() == grid@.rows,
                forall|r: int| 0 <= r < grid@.rows ==> #[trigger] lines@[r]@ == line_seq[r],
                line_seq == visible_text(grid@),
                row <= lines@.len(),
                self.text@.len() > 0,
                needle@ == self.needle(),
                needle@.len() > 0,
                needle_bytes == encode_utf8(needle@).len(),
                found@ == matches_in_lines(line_seq, needle@, self.case_sensitive, row as nat),
                forall|r: int|
                    0 <= r < row ==> #[trigger] row_columns_defined(
                        line_seq[r],
                        needle@,
                        self.case_sensitive,
                    ),
            decreases lines.len() - row,
        {
            let line = &lines[row];
            let ghost line_v = line_seq[row as int];
            let hay_text = if self.case_sensitive {
                line.clone()
            } else {
                to_lowercase(line.as_str())
            };
            let hay = crate::text::chars_of(hay_text.as_str());
            assert(hay@ == haystack(line_v, self.case_sensitive));
            let line_offs = byte_offsets(line.as_str());
            let hay_offs = byte_offsets(hay_text.as_str());
            let starts = find_starts(&hay, &needle);
            let ghost before = found@;
            let ghost ms = match_starts(hay@, needle@, 0);
            let ghost row_ms = row_matches(line_v, needle@, self.case_sensitive, row as int);
            proof {
                lemma_match_starts_occur(hay@, needle@, 0);
            }
            let mut k: usize = 0;
            while k < starts.len()
                invariant
                    k <= starts@.len(),
                    line_seq == visible_text(grid@),
                    row < grid@.rows,
                    needle@ == self.needle(),
                    self.text@.len() > 0,
                    line_v == line_seq[row as int],
                    starts@.map_values(|p: usize| p as nat) == ms,
                    ms == match_starts(hay@, needle@, 0),
                    hay@ == haystack(line_v, self.case_sensitive),
                    line@ == line_v,
                    row_ms == ms.map_values(
                        |s: nat| match_record(line_v, hay@, needle@, row as int, s),
                    ),
                    forall|j: int| 0 <= j < ms.len() ==> occurs_at(hay@, needle@, #[trigger] ms[j] as int),
                    found@ == before + row_ms.take(k as int),
                    forall|j: int|
                        0 <= j < k ==> match_columns_defined(line_v, hay@, needle@, #[trigger] ms[j]),
                    needle@.len() > 0,
                    needle_bytes == encode_utf8(needle@).len(),
                    line_offs@.len() == line_v.len() + 1,
                    forall|i: int| 0 <= i <= line_v.len() ==> #[trigger] line_offs@[i] == byte_offset(line_v, i),
                    hay_offs@.len() == hay@.len() + 1,
                    forall|i: int| 0 <= i <= hay@.len() ==> #[trigger] hay_offs@[i] == byte_offset(hay@, i),
                decreases starts.len() - k,
            {
                let s = starts[k];
                assert(starts@.map_values(|p: usize| p as nat)[k as int] == s as nat);
                assert(occurs_at(hay@, needle@, ms[k as int] as int));
                let start_byte = hay_offs[s];
                proof {
                    assert(hay@.take(s + needle@.len()) =~= hay@.take(s as int) + needle@);
                    lemma_encode_concat(hay@.take(s as int), needle@);
                    assert(hay_offs@[s + needle@.len()] == start_byte + needle_bytes);
                }
                let end_byte = start_byte + needle_bytes;
                let first = column_at(&line_offs, Ghost(line_v), start_byte);
                let after = column_at(&line_offs, Ghost(line_v), end_byte);
                if first.is_none() || after.is_none() {
                    proof {
                        assert(!match_columns_defined(line_v, hay@, needle@, ms[k as int]));
                        assert(!row_columns_defined(line_v, needle@, self.case_sensitive));
                        assert(line_seq[row as int] == grid@.line_text(row as nat));
                        assert(!row_columns_defined(grid@.line_text(row as nat), self.needle(), self.case_sensitive));
                        assert(!self.columns_defined(grid@));
                    }
                    return None;
                }
                let first = first.unwrap();
                let after = after.unwrap();
                let last = if after == 0 { 0 } else { after - 1 };
                let m = SearchMatch {
                    start: GridPoint { column: first as u16, row: row as u16 },
                    end: GridPoint { column: last as u16, row: row as u16 },
                };
                assert(m == row_ms[k as int]);
                found.push(m);
                assert(row_ms.take(k + 1) =~= row_ms.take(k as int).push(m));
                k = k + 1;
            }
            assert(row_ms.take(starts@.len() as int) =~= row_ms);
            assert(row_columns_defined(line_v, needle@, self.case_sensitive));
            row = row + 1;
        }
        proof {
            assert forall|r: int| 0 <= r < grid@.rows implies #[trigger] row_columns_defined(
                grid@.line_text(r as nat),
                self.needle(),
                self.case_sensitive,
            ) by {
                assert(line_seq[r] == grid@.line_text(r as nat));
            }
        }
        Some(found)
    }

    /// Every match of the query on the visible lines, top to bottom and left to
    /// right; matches on a line do not overlap. Case-insensitive queries compare
    /// the lowercase forms. A match's byte range in the searched text gives its
    /// columns on the line itself, which `columns_defined` requires to exist.
    pub fn find_in_grid(&self, grid: &TerminalGrid) -> (found: Vec<SearchMatch>)
        requires
            grid.wf(),
            self.columns_defined(grid@),
        ensures
            self.text@.len() == 0 ==> found@.len() == 0,
            self.text@.len() > 0 && self.needle().len() > 0 ==> found@ == matches_in_lines(
                visible_text(grid@),
                self.needle(),
                self.case_sensitive,
                grid@.rows,
            ),
    {
        if self.text.as_str().unicode_len() == 0 {
            return Vec::new();
        }
        match self.search(grid) {
            Some(found) => found,
            None => Vec::new(),
        }
    }

    /// Whether every match of the query can be placed on its line.
    pub fn columns_fit(&self, grid: &TerminalGrid) -> (b: bool)
        requires
            grid.wf(),
        ensures
            self.needle().len() > 0 ==> b == self.columns_defined(grid@),
            b ==> self.columns_defined(grid@),
    {
        if self.text.as_str().unicode_len() == 0 {
            return true;
        }
        self.search(grid).is_some()
    }

    /// `find_in_grid` where its matches can be placed on their lines, `None`
    /// otherwise.
    pub fn find_in_grid_checked(&self, grid: &TerminalGrid) -> (r: Option<Vec<SearchMatch>>)
        requires
            grid.wf(),
        ensures
            self.needle().len() > 0 ==> (r is Some <==> self.columns_defined(grid@)),
            r matches Some(found) ==> (self.text@.len() == 0 ==> found@.len() == 0),
            r matches Some(found) ==> (self.text@.len() > 0 && self.needle().len() > 0
                ==> found@ == matches_in_lines(
                visible_text(grid@),
                self.needle(),
                self.case_sensitive,
                grid@.rows,
            )),
    {
        if self.columns_fit(grid) {
            Some(self.find_in_grid(grid))
        } else {
            None
        }
    }
}

} // verus!
