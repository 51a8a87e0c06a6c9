use vstd::prelude::*;
use crate::canvas::MAX_DIM;
use crate::config::TextPosition;

verus! {

/// The largest advance or kerning magnitude a metrics table may carry, in
/// millipixels.
pub const MAX_ADVANCE: u32 = 1000000;

/// Integer font metrics, in millipixels: a default advance, per-character
/// advances, pairwise kerning and the font's natural line height.  They
/// stand for the scaled metrics of one font at one pixel size; the glyph
/// engine that produced them is outside this crate.
#[derive(Clone, Debug)]
pub struct FontMetrics {
    /// Advance of characters without an entry, in millipixels.
    pub default_advance: u32,
    /// Per-character advances in millipixels; the first entry for a
    /// character wins.
    pub advances: Vec<(char, u32)>,
    /// Kerning between consecutive characters, in millipixels; the first
    /// entry for a pair wins, pairs without an entry kern by zero.
    pub kerning: Vec<(char, char, i32)>,
    /// The font's natural line height in millipixels.
    pub line_height: u32,
}

impl FontMetrics {
    /// Every advance and kerning value is within the supported magnitude.
    pub open spec fn wf(&self) -> bool {
        &&& self.default_advance <= MAX_ADVANCE
        &&& forall|i: int|
            0 <= i < self.advances@.len() ==> (#[trigger] self.advances@[i]).1 <= MAX_ADVANCE
        &&& forall|i: int|
            0 <= i < self.kerning@.len() ==> -1000000 <= (#[trigger] self.kerning@[i]).2
                <= 1000000
        &&& self.line_height <= 100000000
    }

    /// Tests the bound at run time, for callers outside the library.
    pub fn check_wf(&self) -> (r: bool)
        ensures
            r == self.wf(),
    {
        if self.default_advance > MAX_ADVANCE || self.line_height > 100000000 {
            return false;
        }
        let mut i: usize = 0;
        while i < self.advances.len()
            invariant
                i <= self.advances@.len(),
                forall|j: int| 0 <= j < i ==> (#[trigger] self.advances@[j]).1 <= MAX_ADVANCE,
            decreases self.advances@.len() - i,
        {
            if self.advances[i].1 > MAX_ADVANCE {
                return false;
            }
            i = i + 1;
        }
        let mut k: usize = 0;
        while k < self.kerning.len()
            invariant
                k <= self.kerning@.len(),
                forall|j: int|
                    0 <= j < k ==> -1000000 <= (#[trigger] self.kerning@[j]).2 <= 1000000,
            decreases self.kerning@.len() - k,
        {
            if self.kerning[k].2 > 1000000 || self.kerning[k].2 < -1000000 {
                return false;
            }
            k = k + 1;
        }
        true
    }
}

// ---------------------------------------------------------------------------
// Metric lookup.
// ---------------------------------------------------------------------------

/// The advance of `c` in an entry list: the first matching entry, else the
/// default.
pub open spec fn spec_advance_in(entries: Seq<(char, u32)>, c: char, d: u32) -> u32
    decreases entries.len(),
{
    if entries.len() == 0 {
        d
    } else if entries[0].0 == c {
        entries[0].1
    } else {
        spec_advance_in(entries.drop_first(), c, d)
    }
}

/// The advance of `c` under the metrics.
pub open spec fn spec_advance(m: FontMetrics, c: char) -> u32 {
    spec_advance_in(m.advances@, c, m.default_advance)
}

/// The kerning of the pair `(a, b)` in an entry list: the first matching
/// entry, else zero.
pub open spec fn spec_kern_in(entries: Seq<(char, char, i32)>, a: char, b: char) -> i32
    decreases entries.len(),
{
    if entries.len() == 0 {
        0i32
    } else if entries[0].0 == a && entries[0].1 == b {
        entries[0].2
    } else {
        spec_kern_in(entries.drop_first(), a, b)
    }
}

/// The kerning of the pair `(a, b)` under the metrics.
pub open spec fn spec_kern(m: FontMetrics, a: char, b: char) -> i32 {
    spec_kern_in(m.kerning@, a, b)
}

proof fn lemma_advance_skip(entries: Seq<(char, u32)>, c: char, d: u32, k: int)
    requires
        0 <= k <= entries.len(),
        forall|j: int| 0 <= j < k ==> (#[trigger] entries[j]).0 != c,
    ensures
        spec_advance_in(entries, c, d) == spec_advance_in(entries.skip(k), c, d),
    decreases k,
{
    if k > 0 {
        assert(entries.drop_first() =~= entries.skip(1));
        lemma_advance_skip(entries.skip(1), c, d, k - 1);
        assert(entries.skip(1).skip(k - 1) =~= entries.skip(k));
    } else {
        assert(entries.skip(0) =~= entries);
    }
}

proof fn lemma_advance_in_bound(entries: Seq<(char, u32)>, c: char, d: u32)
    requires
        d <= MAX_ADVANCE,
        forall|i: int| 0 <= i < entries.len() ==> (#[trigger] entries[i]).1 <= MAX_ADVANCE,
    ensures
        spec_advance_in(entries, c, d) <= MAX_ADVANCE,
    decreases entries.len(),
{
    if entries.len() > 0 && entries[0].0 != c {
        assert(forall|i: int|
            0 <= i < entries.drop_first().len() ==> (#[trigger] entries.drop_first()[i]).1
                <= MAX_ADVANCE);
        lemma_advance_in_bound(entries.drop_first(), c, d);
    }
}

proof fn lemma_kern_skip(entries: Seq<(char, char, i32)>, a: char, b: char, k: int)
    requires
        0 <= k <= entries.len(),
        forall|j: int|
            0 <= j < k ==> !((#[trigger] entries[j]).0 == a && entries[j].1 == b),
    ensures
        spec_kern_in(entries, a, b) == spec_kern_in(entries.skip(k), a, b),
    decreases k,
{
    if k > 0 {
        assert(entries.drop_first() =~= entries.skip(1));
        lemma_kern_skip(entries.skip(1), a, b, k - 1);
        assert(entries.skip(1).skip(k - 1) =~= entries.skip(k));
    } else {
        assert(entries.skip(0) =~= entries);
    }
}

proof fn lemma_kern_in_bound(entries: Seq<(char, char, i32)>, a: char, b: char)
    requires
        forall|i: int| 0 <= i < entries.len() ==> -1000000 <= (#[trigger] entries[i]).2 <= 1000000,
    ensures
        -1000000 <= spec_kern_in(entries, a, b) <= 1000000,
    decreases entries.len(),
{
    if entries.len() > 0 && !(entries[0].0 == a && entries[0].1 == b) {
        assert(forall|i: int|
            0 <= i < entries.drop_first().len() ==> -1000000 <= (#[trigger] entries.drop_first()[i]).2
                <= 1000000);
        lemma_kern_in_bound(entries.drop_first(), a, b);
    }
}

/// Looks up the advance of one character.
pub fn advance_of(m: &FontMetrics, c: char) -> (r: u32)
    requires
        m.wf(),
    ensures
        r == spec_advance(*m, c),
        r <= MAX_ADVANCE,
{
    proof {
        lemma_advance_in_bound(m.advances@, c, m.default_advance);
    }
    let mut i: usize = 0;
    while i < m.advances.len()
        invariant
            m.wf(),
            i <= m.advances@.len(),
            forall|j: int| 0 <= j < i ==> (#[trigger] m.advances@[j]).0 != c,
        decreases m.advances@.len() - i,
    {
        let entry = m.advances[i];
        if entry.0 == c {
            proof {
                lemma_advance_skip(m.advances@, c, m.default_advance, i as int);
                assert(m.advances@.skip(i as int)[0] == m.advances@[i as int]);
            }
            return entry.1;
        }
        i = i + 1;
    }
    proof {
        lemma_advance_skip(m.advances@, c, m.default_advance, m.advances@.len() as int);
    }
    m.default_advance
}

/// Looks up the kerning of one character pair.
pub fn kern_of(m: &FontMetrics, a: char, b: char) -> (r: i32)
    requires
        m.wf(),
    ensures
        r == spec_kern(*m, a, b),
        -1000000 <= r <= 1000000,
{
    proof {
        lemma_kern_in_bound(m.kerning@, a, b);
    }
    let mut i: usize = 0;
    while i < m.kerning.len()
        invariant
            m.wf(),
            i <= m.kerning@.len(),
            forall|j: int|
                0 <= j < i ==> !((#[trigger] m.kerning@[j]).0 == a && m.kerning@[j].1 == b),
        decreases m.kerning@.len() - i,
    {
        let entry = m.kerning[i];
        if entry.0 == a && entry.1 == b {
            proof {
                lemma_kern_skip(m.kerning@, a, b, i as int);
                assert(m.kerning@.skip(i as int)[0] == m.kerning@[i as int]);
            }
            return entry.2;
        }
        i = i + 1;
    }
    proof {
        lemma_kern_skip(m.kerning@, a, b, m.kerning@.len() as int);
    }
    0
}

// ---------------------------------------------------------------------------
// Measuring.
// ---------------------------------------------------------------------------

/// The pixel width of a character sequence, in millipixels: the sum of the
/// per-character advances plus the kerning between each consecutive pair.
pub open spec fn spec_measure(m: FontMetrics, s: Seq<char>) -> int
    decreases s.len(),
{
    if s.len() == 0 {
        0
    } else if s.len() == 1 {
        spec_advance(m, s[0]) as int
    } else {
        spec_measure(m, s.drop_last()) + spec_kern(m, s[s.len() - 2], s[s.len() - 1])
            + spec_advance(m, s[s.len() - 1])
    }
}

/// The measured width is bounded by the character count times the largest
/// advance plus kerning magnitude.
pub proof fn lemma_measure_bounds(m: FontMetrics, s: Seq<char>)
    requires
        m.wf(),
    ensures
        -1000000 * s.len() <= spec_measure(m, s) <= 2000000 * s.len(),
    decreases s.len(),
{
    if s.len() == 1 {
        lemma_advance_in_bound(m.advances@, s[0], m.default_advance);
    } else if s.len() > 1 {
        lemma_measure_bounds(m, s.drop_last());
        lemma_advance_in_bound(m.advances@, s[s.len() - 1], m.default_advance);
        lemma_kern_in_bound(m.kerning@, s[s.len() - 2], s[s.len() - 1]);
    }
}

/// Concatenation measures as the parts plus the kerning across the join.
pub proof fn lemma_measure_concat(m: FontMetrics, a: Seq<char>, b: Seq<char>)
    requires
        a.len() > 0,
        b.len() > 0,
    ensures
        spec_measure(m, a + b) == spec_measure(m, a) + spec_kern(m, a.last(), b[0])
            + spec_measure(m, b),
    decreases b.len(),
{
    if b.len() == 1 {
        assert((a + b).drop_last() =~= a);
        assert((a + b).len() >= 2);
        assert((a + b)[(a + b).len() - 2] == a.last());
        assert((a + b)[(a + b).len() - 1] == b[0]);
    } else {
        assert((a + b).drop_last() =~= a + b.drop_last());
        lemma_measure_concat(m, a, b.drop_last());
        assert((a + b)[(a + b).len() - 2] == b[b.len() - 2]);
        assert((a + b)[(a + b).len() - 1] == b[b.len() - 1]);
        assert(b.drop_last()[0] == b[0]);
        assert(b.drop_last().last() == b[b.len() - 2]);
    }
}

/// Measures a text's pixel width in millipixels: per-character advances
/// plus pairwise kerning.
pub fn measure_text_width(m: &FontMetrics, text: &str) -> (r: i64)
    requires
        m.wf(),
        text@.len() <= 1000000,
    ensures
        r == spec_measure(*m, text@),
        -1000000 * text@.len() <= r <= 2000000 * text@.len(),
{
    let n = text.unicode_len();
    let mut width: i64 = 0;
    let mut i: usize = 0;
    while i < n
        invariant
            m.wf(),
            n == text@.len(),
            n <= 1000000,
            i <= n,
            width == spec_measure(*m, text@.subrange(0, i as int)),
        decreases n - i,
    {
        proof {
            lemma_measure_bounds(*m, text@.subrange(0, i as int));
        }
        let c = text.get_char(i);
        if i > 0 {
            let p = text.get_char(i - 1);
            let k = kern_of(m, p, c);
            width = width + k as i64;
        }
        let a = advance_of(m, c);
        width = width + a as i64;
        proof {
            assert(text@.subrange(0, i + 1).drop_last() =~= text@.subrange(0, i as int));
            assert(text@.subrange(0, i + 1)[i as int] == text@[i as int]);
            if i > 0 {
                assert(text@.subrange(0, i + 1)[i - 1] == text@[i - 1]);
            }
        }
        i = i + 1;
    }
    proof {
        assert(text@.subrange(0, n as int) =~= text@);
        lemma_measure_bounds(*m, text@);
    }
    width
}

// ---------------------------------------------------------------------------
// Greedy word wrapping.
// ---------------------------------------------------------------------------

/// The whitespace that separates words within one line.
pub open spec fn is_text_ws(c: char) -> bool {
    c == ' ' || c == '\t' || c == '\r'
}

/// The sequence contains some word-separating whitespace.
pub open spec fn spec_has_ws(s: Seq<char>) -> bool {
    exists|i: int| 0 <= i < s.len() && is_text_ws(#[trigger] s[i])
}

/// A produced line is within the wrap width, unless it is one single word
/// (no whitespace), which is never split however wide it is.
pub open spec fn spec_line_ok(m: FontMetrics, line: Seq<char>, max_width: int) -> bool {
    spec_measure(m, line) <= max_width || !spec_has_ws(line)
}

/// No kerning against the space character is positive.  Under this side
/// condition the greedy running width, which adds word widths and space
/// advances without cross-word kerning, bounds the true measured width of
/// the joined line from above.
pub open spec fn spec_space_kern_nonpos(m: FontMetrics) -> bool {
    forall|c: char| spec_kern(m, c, ' ') <= 0 && spec_kern(m, ' ', c) <= 0
}

fn is_ws_char(c: char) -> (r: bool)
    ensures
        r == is_text_ws(c),
{
    c == ' ' || c == '\t' || c == '\r'
}

/// The index just past the word starting at `j`: the first whitespace at
/// or after `j`, or the end of the line.
pub open spec fn spec_word_end(line: Seq<char>, j: int) -> int
    decreases line.len() - j,
{
    if j < 0 || j >= line.len() || is_text_ws(line[j]) {
        j
    } else {
        spec_word_end(line, j + 1)
    }
}

proof fn lemma_word_end_bounds(line: Seq<char>, j: int)
    requires
        0 <= j <= line.len(),
    ensures
        j <= spec_word_end(line, j) <= line.len(),
        j < line.len() && !is_text_ws(line[j]) ==> spec_word_end(line, j) >= j + 1,
    decreases line.len() - j,
{
    if j < line.len() && !is_text_ws(line[j]) {
        lemma_word_end_bounds(line, j + 1);
    }
}

proof fn lemma_word_end_at(line: Seq<char>, j: int, k: int)
    requires
        0 <= j <= k <= line.len(),
        forall|t: int| j <= t < k ==> !is_text_ws(line[t]),
        k == line.len() || is_text_ws(line[k]),
    ensures
        spec_word_end(line, j) == k,
    decreases k - j,
{
    if j < k {
        lemma_word_end_at(line, j + 1, k);
    }
}

/// The greedy packing of the words of one over-wide line from character
/// `j` on, with the line `current` (of running width `cur_width`, the sum
/// of its word widths and space advances) already accumulated.  A word is
/// appended while the running width stays within the limit; otherwise the
/// accumulated line is flushed and the word starts the next line.
pub open spec fn spec_wrap_words(
    m: FontMetrics,
    line: Seq<char>,
    max_width: int,
    j: int,
    current: Seq<char>,
    cur_width: int,
) -> Seq<Seq<char>>
    decreases line.len() - j,
    via spec_wrap_words_decreases
{
    if j < 0 || j >= line.len() {
        if current.len() > 0 {
            seq![current]
        } else {
            Seq::<Seq<char>>::empty()
        }
    } else if is_text_ws(line[j]) {
        spec_wrap_words(m, line, max_width, j + 1, current, cur_width)
    } else {
        let k = spec_word_end(line, j);
        let word = line.subrange(j, k);
        let ww = spec_measure(m, word);
        if current.len() == 0 {
            spec_wrap_words(m, line, max_width, k, word, ww)
        } else if cur_width + spec_advance(m, ' ') + ww <= max_width {
            spec_wrap_words(
                m,
                line,
                max_width,
                k,
                current + seq![' '] + word,
                cur_width + spec_advance(m, ' ') + ww,
            )
        } else {
            seq![current] + spec_wrap_words(m, line, max_width, k, word, ww)
        }
    }
}

#[via_fn]
proof fn spec_wrap_words_decreases(
    m: FontMetrics,
    line: Seq<char>,
    max_width: int,
    j: int,
    current: Seq<char>,
    cur_width: int,
) {
    if 0 <= j < line.len() && !is_text_ws(line[j]) {
        lemma_word_end_bounds(line, j);
    }
}

/// One newline-free line wrapped: kept whole (verbatim) when its measured
/// width fits, otherwise its words packed greedily.
pub open spec fn spec_wrap_hard_line(m: FontMetrics, line: Seq<char>, max_width: int) -> Seq<
    Seq<char>,
> {
    if spec_measure(m, line) <= max_width {
        seq![line]
    } else {
        spec_wrap_words(m, line, max_width, 0, Seq::<char>::empty(), 0)
    }
}

/// The wrapped lines of the text from scan position `i` on, with `start`
/// the beginning of the current newline-delimited segment.  A segment ends
/// at each newline (a carriage return before the newline is dropped); the
/// final segment is wrapped only when it is nonempty.
pub open spec fn spec_wrap_from(
    m: FontMetrics,
    text: Seq<char>,
    max_width: int,
    start: int,
    i: int,
) -> Seq<Seq<char>>
    decreases text.len() - i,
{
    if i < 0 || i >= text.len() {
        if 0 <= start < text.len() {
            spec_wrap_hard_line(m, text.subrange(start, text.len() as int), max_width)
        } else {
            Seq::<Seq<char>>::empty()
        }
    } else if text[i] == '\n' {
        let end = if i > start && text[i - 1] == '\r' {
            i - 1
        } else {
            i
        };
        spec_wrap_hard_line(m, text.subrange(start, end), max_width) + spec_wrap_from(
            m,
            text,
            max_width,
            i + 1,
            i + 1,
        )
    } else {
        spec_wrap_from(m, text, max_width, start, i + 1)
    }
}

/// All wrapped lines of a text: every newline-delimited segment wrapped in
/// order, and a single empty line when nothing else was produced.
pub open spec fn spec_wrap(m: FontMetrics, text: Seq<char>, max_width: int) -> Seq<Seq<char>> {
    let out = spec_wrap_from(m, text, max_width, 0, 0);
    if out.len() == 0 {
        seq![Seq::<char>::empty()]
    } else {
        out
    }
}

/// Wraps one newline-free line: kept whole when it fits, otherwise words
/// are greedily packed; a single word wider than the limit stands alone on
/// its own line.
fn wrap_hard_line(m: &FontMetrics, line: &str, max_width: i64, out: &mut Vec<String>)
    requires
        m.wf(),
        line@.len() <= 1000000,
    ensures
        final(out)@.len() >= old(out)@.len(),
        forall|i: int| 0 <= i < old(out)@.len() ==> final(out)@[i] == old(out)@[i],
        final(out).deep_view() == old(out).deep_view() + spec_wrap_hard_line(
            *m,
            line@,
            max_width as int,
        ),
        spec_space_kern_nonpos(*m) ==> forall|i: int|
            old(out)@.len() <= i < final(out)@.len() ==> spec_line_ok(
                *m,
                final(out)@[i]@,
                max_width as int,
            ),
{
    let ghost out0 = out@;
    let ghost out0dv = out.deep_view();
    let lw = measure_text_width(m, line);
    if lw <= max_width {
        out.push(line.to_owned());
        proof {
            assert(out.deep_view() =~= out0dv + spec_wrap_hard_line(*m, line@, max_width as int));
        }
        return ;
    }
    let n = line.unicode_len();
    let mut current = String::new();
    let mut cur_width: i64 = 0;
    let mut j: usize = 0;
    let ghost full = spec_wrap_words(*m, line@, max_width as int, 0, Seq::<char>::empty(), 0);
    while j < n
        invariant
            m.wf(),
            n == line@.len(),
            n <= 1000000,
            j <= n,
            -3000000 * (j as int) <= cur_width <= 3000000 * (j as int),
            out@.len() >= out0.len(),
            forall|i: int| 0 <= i < out0.len() ==> out@[i] == out0[i],
            full == spec_wrap_words(*m, line@, max_width as int, 0, Seq::<char>::empty(), 0),
            out0dv == out0.map_values(|s: String| s@),
            out0dv.len() == out0.len(),
            out.deep_view() + spec_wrap_words(
                *m,
                line@,
                max_width as int,
                j as int,
                current@,
                cur_width as int,
            ) == out0dv + full,
            spec_space_kern_nonpos(*m) ==> forall|i: int|
                out0.len() <= i < out@.len() ==> spec_line_ok(*m, out@[i]@, max_width as int),
            spec_space_kern_nonpos(*m) && current@.len() > 0 ==> spec_measure(*m, current@)
                <= cur_width,
            spec_space_kern_nonpos(*m) && current@.len() > 0 ==> (cur_width <= max_width
                || !spec_has_ws(current@)),
        decreases n - j,
    {
        let c = line.get_char(j);
        if is_ws_char(c) {
            j = j + 1;
        } else {
            let mut k: usize = j + 1;
            while k < n && !is_ws_char(line.get_char(k))
                invariant
                    n == line@.len(),
                    j < k <= n,
                    forall|t: int| j <= t < k ==> !is_text_ws(line@[t]),
                decreases n - k,
            {
                k = k + 1;
            }
            proof {
                lemma_word_end_at(line@, j as int, k as int);
            }
            let word = line.substring_char(j, k);
            let ww = measure_text_width(m, word);
            proof {
                assert forall|t: int| 0 <= t < word@.len() implies !is_text_ws(word@[t]) by {
                    assert(word@[t] == line@[j + t]);
                }
            }
            if current.as_str().is_empty() {
                current = word.to_owned();
                cur_width = ww;
            } else {
                let space = advance_of(m, ' ') as i64;
                if cur_width + space + ww <= max_width {
                    let ghost before = current@;
                    proof {
                        reveal_strlit(" ");
                        assert(" "@ =~= seq![' ']);
                        if spec_space_kern_nonpos(*m) {
                            lemma_measure_concat(*m, before, " "@);
                            lemma_measure_concat(*m, before + " "@, word@);
                            assert((before + " "@).last() == ' ');
                            assert(spec_measure(*m, " "@) == spec_advance(*m, ' '));
                        }
                    }
                    current.append(" ");
                    current.append(word);
                    cur_width = cur_width + space + ww;
                    proof {
                        assert(current@ == before + " "@ + word@);
                        assert(current@ =~= before + seq![' '] + word@);
                        if spec_space_kern_nonpos(*m) {
                            assert((before + " "@) + word@ =~= before + " "@ + word@);
                            assert(spec_measure(*m, current@) <= cur_width);
                        }
                    }
                } else {
                    let ghost flushed = current@;
                    let ghost dv_before = out.deep_view();
                    out.push(current);
                    proof {
                        assert(out.deep_view() =~= dv_before.push(flushed));
                        assert(dv_before.push(flushed) =~= dv_before + seq![flushed]);
                        assert((dv_before + seq![flushed]) + spec_wrap_words(
                            *m,
                            line@,
                            max_width as int,
                            k as int,
                            word@,
                            ww as int,
                        ) =~= dv_before + (seq![flushed] + spec_wrap_words(
                            *m,
                            line@,
                            max_width as int,
                            k as int,
                            word@,
                            ww as int,
                        )));
                    }
                    current = word.to_owned();
                    cur_width = ww;
                }
            }
            j = k;
        }
    }
    if !current.as_str().is_empty() {
        let ghost flushed = current@;
        let ghost dv_before = out.deep_view();
        out.push(current);
        proof {
            assert(out.deep_view() =~= dv_before.push(flushed));
            assert(dv_before.push(flushed) =~= dv_before + seq![flushed]);
        }
    } else {
        proof {
            assert(out.deep_view() + Seq::<Seq<char>>::empty() =~= out.deep_view());
        }
    }
}

/// Wraps text into lines no wider than `max_width` millipixels: the result
/// is exactly `spec_wrap` of the input — each newline-delimited input line
/// is kept whole when its measured width fits, and otherwise split greedily
/// at whitespace; a single word wider than the limit is placed alone on its
/// own line, never split; empty input yields one empty line.
pub fn wrap_text_by_width(m: &FontMetrics, text: &str, max_width: i64) -> (r: Vec<String>)
    requires
        m.wf(),
        text@.len() <= 1000000,
    ensures
        r@.len() >= 1,
        r.deep_view() == spec_wrap(*m, text@, max_width as int),
        spec_space_kern_nonpos(*m) ==> forall|i: int|
            0 <= i < r@.len() ==> spec_line_ok(*m, r@[i]@, max_width as int),
{
    let n = text.unicode_len();
    let mut out: Vec<String> = Vec::new();
    let mut start: usize = 0;
    let mut i: usize = 0;
    let ghost full = spec_wrap_from(*m, text@, max_width as int, 0, 0);
    proof {
        assert(out.deep_view() =~= Seq::<Seq<char>>::empty());
    }
    while i < n
        invariant
            m.wf(),
            n == text@.len(),
            n <= 1000000,
            start <= i <= n,
            full == spec_wrap_from(*m, text@, max_width as int, 0, 0),
            out.deep_view() + spec_wrap_from(
                *m,
                text@,
                max_width as int,
                start as int,
                i as int,
            ) == full,
            spec_space_kern_nonpos(*m) ==> forall|t: int|
                0 <= t < out@.len() ==> spec_line_ok(*m, out@[t]@, max_width as int),
        decreases n - i,
    {
        if text.get_char(i) == '\n' {
            let end: usize = if i > start && text.get_char(i - 1) == '\r' {
                i - 1
            } else {
                i
            };
            let hard = text.substring_char(start, end);
            let ghost dv_before = out.deep_view();
            let ghost head = spec_wrap_hard_line(*m, hard@, max_width as int);
            wrap_hard_line(m, hard, max_width, &mut out);
            proof {
                assert((dv_before + head) + spec_wrap_from(
                    *m,
                    text@,
                    max_width as int,
                    i + 1,
                    i + 1,
                ) =~= dv_before + (head + spec_wrap_from(*m, text@, max_width as int, i + 1, i + 1)));
            }
            start = i + 1;
        }
        i = i + 1;
    }
    if start < n {
        let hard = text.substring_char(start, n);
        let ghost dv_before = out.deep_view();
        wrap_hard_line(m, hard, max_width, &mut out);
    } else {
        proof {
            assert(out.deep_view() + Seq::<Seq<char>>::empty() =~= out.deep_view());
        }
    }
    if out.len() == 0 {
        out.push(String::new());
        proof {
            assert(!spec_has_ws(out@[0]@));
            assert(out.deep_view() =~= seq![Seq::<char>::empty()]);
        }
    }
    out
}

// ---------------------------------------------------------------------------
// Vertical and horizontal placement.
// ---------------------------------------------------------------------------

/// The line height used for layout: 1.2 times the font's natural height,
/// rounded up to whole pixels.
pub open spec fn spec_line_height_px(m: FontMetrics) -> int {
    (m.line_height * 12 + 9999) / 10000
}

/// The layout line height in pixels.
pub fn line_height_px(m: &FontMetrics) -> (r: u32)
    requires
        m.wf(),
    ensures
        r == spec_line_height_px(*m),
{
    (m.line_height * 12 + 9999) / 10000
}

/// The anchored top edge of the text block, before the user offset: centered
/// in the space above or below the frame (falling back to a fixed padding of
/// 60 when the block does not fit), or a fixed padding from the canvas top
/// or bottom.
pub open spec fn spec_base_y(
    position: TextPosition,
    canvas_h: u32,
    phone_y: u32,
    phone_h: u32,
    total: u32,
) -> int {
    match position {
        TextPosition::AbovePhone => if phone_y > total {
            (phone_y - total) / 2
        } else {
            60int
        },
        TextPosition::BelowPhone => {
            let bottom = phone_y + phone_h;
            let space = if canvas_h >= bottom {
                canvas_h - bottom
            } else {
                0int
            };
            if space > total {
                bottom + (space - total) / 2
            } else {
                bottom + 60
            }
        },
        TextPosition::Top => 60int,
        TextPosition::Bottom => {
            let a = if canvas_h >= total {
                canvas_h - total
            } else {
                0int
            };
            if a >= 60 {
                a - 60
            } else {
                0int
            }
        },
    }
}

/// The final top edge: the anchored position plus the signed user offset,
/// clamped to be at least zero.
pub open spec fn spec_text_y(
    position: TextPosition,
    canvas_h: u32,
    phone_y: u32,
    phone_h: u32,
    total: u32,
    y_offset: i32,
) -> int {
    let v = spec_base_y(position, canvas_h, phone_y, phone_h, total) + y_offset;
    if v >= 0 {
        v
    } else {
        0
    }
}

/// Computes where the text block starts vertically.
pub fn compute_text_y(
    position: TextPosition,
    canvas_h: u32,
    phone_y: u32,
    phone_h: u32,
    total: u32,
    y_offset: i32,
) -> (r: u32)
    requires
        canvas_h <= MAX_DIM,
        phone_y <= MAX_DIM,
        phone_h <= MAX_DIM,
        total <= 0x1000_0000,
    ensures
        r == spec_text_y(position, canvas_h, phone_y, phone_h, total, y_offset),
{
    let base: i64 = match position {
        TextPosition::AbovePhone => {
            if phone_y > total {
                ((phone_y - total) / 2) as i64
            } else {
                60
            }
        },
        TextPosition::BelowPhone => {
            let bottom: i64 = phone_y as i64 + phone_h as i64;
            let space: i64 = if canvas_h as i64 >= bottom {
                canvas_h as i64 - bottom
            } else {
                0
            };
            if space > total as i64 {
                bottom + (space - total as i64) / 2
            } else {
                bottom + 60
            }
        },
        TextPosition::Top => 60,
        TextPosition::Bottom => {
            let a: u32 = if canvas_h >= total {
                canvas_h - total
            } else {
                0
            };
            if a >= 60 {
                (a - 60) as i64
            } else {
                0
            }
        },
    };
    let v: i64 = base + y_offset as i64;
    if v >= 0 {
        v as u32
    } else {
        0
    }
}

/// The left edge that centers a line of the given millipixel width on the
/// canvas, floored at zero.
pub open spec fn spec_line_x(canvas_w: u32, line_width: int) -> int {
    if line_width < canvas_w * 1000 {
        (canvas_w * 1000 - line_width) / 2000
    } else {
        0
    }
}

/// Computes the left edge that centers a measured line on the canvas.
pub fn center_line_x(canvas_w: u32, line_width: i64) -> (r: u32)
    requires
        canvas_w <= MAX_DIM,
        -4000000000000 <= line_width <= 4000000000000,
    ensures
        r == spec_line_x(canvas_w, line_width as int),
{
    let cw1000: i64 = canvas_w as i64 * 1000;
    if line_width < cw1000 {
        ((cw1000 - line_width) / 2000) as u32
    } else {
        0
    }
}

/// The default wrap width when none is configured: 80% of the canvas width.
pub fn default_wrap_width(canvas_w: u32) -> (r: u32)
    requires
        canvas_w <= MAX_DIM,
    ensures
        r == canvas_w as int * 8 / 10,
{
    canvas_w * 8 / 10
}

/// The total pixel height of the text block: the headline lines, and — when
/// a subheadline is present — the configured gap plus the subheadline lines.
pub open spec fn spec_copy_total_height(
    h_lines: int,
    h_lh: int,
    s_lines: int,
    s_lh: int,
    gap: int,
) -> int {
    h_lines * h_lh + (if s_lines * s_lh > 0 {
        gap + s_lines * s_lh
    } else {
        0
    })
}

/// Computes the total pixel height of the text block.
pub fn copy_total_height(h_lines: usize, h_lh: u32, s_lines: usize, s_lh: u32, gap: u32) -> (r:
    u32)
    requires
        h_lines <= 0x8000,
        h_lh <= 0x8000,
        s_lines <= 0x8000,
        s_lh <= 0x8000,
        gap <= 0x8000,
    ensures
        r == spec_copy_total_height(
            h_lines as int,
            h_lh as int,
            s_lines as int,
            s_lh as int,
            gap as int,
        ),
{
    assert(0 <= (h_lines as int) * (h_lh as int) <= 0x4000_0000 && 0 <= (s_lines as int) * (
    s_lh as int) <= 0x4000_0000) by (nonlinear_arith)
        requires
            h_lines <= 0x8000,
            h_lh <= 0x8000,
            s_lines <= 0x8000,
            s_lh <= 0x8000,
    ;
    let ht: u64 = (h_lines as u64) * (h_lh as u64);
    let st: u64 = (s_lines as u64) * (s_lh as u64);
    let total: u64 = ht + (if st > 0 {
        gap as u64 + st
    } else {
        0
    });
    total as u32
}

} // verus!
