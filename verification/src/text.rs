//! Character-bounded shortening of text.

use vstd::prelude::*;
use vstd::string::StrSliceExecFns;
use vstd::string::StringExecFns;

verus! {

/// The three characters appended to a shortened text.
pub open spec fn ellipsis() -> Seq<char> {
    seq!['.', '.', '.']
}

/// `s` shortened to a budget of `max` characters: `s` itself when it fits,
/// otherwise its first `max` characters followed by the ellipsis.
pub open spec fn truncated(s: Seq<char>, max: nat) -> Seq<char> {
    if s.len() <= max {
        s
    } else {
        s.take(max as int) + ellipsis()
    }
}

/// Shortens `s` to at most `max_chars` characters, appending `"..."` when
/// something was cut. Lengths are counted in characters, so a multi-byte
/// character is either kept whole or dropped whole.
pub fn truncate_with_ellipsis(s: &str, max_chars: usize) -> (out: String)
    ensures
        out@ == truncated(s@, max_chars as nat),
{
    if s.unicode_len() <= max_chars {
        String::from_str(s)
    } else {
        let head = s.substring_char(0, max_chars);
        proof {
            reveal_strlit("...");
            assert("..."@ =~= ellipsis());
        }
        String::from_str(head).concat("...")
    }
}

/// The characters of `s`, in order.
pub fn chars_of(s: &str) -> (chars: Vec<char>)
    ensures
        chars@ == s@,
{
    let mut chars: Vec<char> = Vec::new();
    for c in it: s.chars()
        invariant
            it.seq() == s@,
            chars@ == s@.take(it.index() as int),
    {
        assert(s@.take(it.index() + 1) =~= s@.take(it.index() as int).push(c));
        chars.push(c);
    }
    assert(s@.take(s@.len() as int) =~= s@);
    chars
}

/// Whether two texts hold the same characters.
pub fn same_text(a: &str, b: &str) -> (same: bool)
    ensures
        same == (a@ == b@),
{
    let left = chars_of(a);
    let right = chars_of(b);
    if left.len() != right.len() {
        return false;
    }
    let mut i: usize = 0;
    while i < left.len()
        invariant
            i <= left.len(),
            left.len() == right.len(),
            left@ == a@,
            right@ == b@,
            forall|k: int| 0 <= k < i ==> left@[k] == right@[k],
        decreases left.len() - i,
    {
        if left[i] != right[i] {
            return false;
        }
        i += 1;
    }
    assert(a@ =~= b@);
    true
}

/// Whether a character breaks a line.
pub open spec fn is_line_break(c: char) -> bool {
    c == '\n' || c == '\r'
}

/// Whether a text holds no line break.
pub open spec fn unbroken(text: Seq<char>) -> bool {
    forall|i: int| 0 <= i < text.len() ==> !is_line_break(#[trigger] text[i])
}

/// How many characters the line ending at position `at` has: two for a
/// carriage return that a line feed follows, one for any other line break.
pub open spec fn ending_len(text: Seq<char>, at: int) -> int {
    if text[at] == '\r' && at + 1 < text.len() && text[at + 1] == '\n' {
        2
    } else {
        1
    }
}

/// The rows of a text from `start` on, where the search for the next line
/// ending goes on at `at`: a row ends before each line ending, and the text
/// behind the last line ending is a row if it is not empty.
pub open spec fn rows_scan(text: Seq<char>, start: int, at: int) -> Seq<Seq<char>>
    decreases text.len() - at,
{
    if at < 0 || at >= text.len() {
        if 0 <= start < text.len() {
            seq![text.subrange(start, text.len() as int)]
        } else {
            Seq::empty()
        }
    } else if is_line_break(text[at]) {
        seq![text.subrange(start, at)] + rows_scan(
            text,
            at + ending_len(text, at),
            at + ending_len(text, at),
        )
    } else {
        rows_scan(text, start, at + 1)
    }
}

/// The rows of a text: the text cut at its line endings, which are left
/// out. A line feed, a carriage return, and a carriage return with the line
/// feed behind it each end one row. A line ending at the very end opens no
/// further row, and the empty text has no row.
pub open spec fn rows(text: Seq<char>) -> Seq<Seq<char>> {
    rows_scan(text, 0, 0)
}

/// The views of a sequence of texts.
pub open spec fn text_views(texts: Seq<String>) -> Seq<Seq<char>> {
    texts.map_values(|t: String| t@)
}

/// Two texts without a line break, one after the other, hold none.
pub proof fn lemma_unbroken_concat(a: Seq<char>, b: Seq<char>)
    requires
        unbroken(a),
        unbroken(b),
    ensures
        unbroken(a + b),
{
    assert forall|i: int| 0 <= i < (a + b).len() implies !is_line_break(#[trigger] (a + b)[i]) by {
        if i < a.len() {
            assert((a + b)[i] == a[i]);
        } else {
            assert((a + b)[i] == b[i - a.len()]);
        }
    }
}

/// A part of a text without a line break holds none.
pub proof fn lemma_unbroken_subrange(text: Seq<char>, from: int, to: int)
    requires
        unbroken(text),
        0 <= from <= to <= text.len(),
    ensures
        unbroken(text.subrange(from, to)),
{
    assert forall|i: int| 0 <= i < to - from implies !is_line_break(
        #[trigger] text.subrange(from, to)[i],
    ) by {
        assert(text.subrange(from, to)[i] == text[from + i]);
    }
}

/// No row that a scan gives holds a line break.
pub proof fn lemma_rows_scan_unbroken(text: Seq<char>, start: int, at: int)
    requires
        0 <= start <= at <= text.len(),
        unbroken(text.subrange(start, at)),
    ensures
        forall|k: int|
            0 <= k < rows_scan(text, start, at).len() ==> unbroken(
                #[trigger] rows_scan(text, start, at)[k],
            ),
    decreases text.len() - at,
{
    if at >= text.len() {
        if start < text.len() {
            assert(rows_scan(text, start, at) =~= seq![text.subrange(start, at)]);
            assert(rows_scan(text, start, at)[0] == text.subrange(start, at));
        }
    } else if is_line_break(text[at]) {
        let next = at + ending_len(text, at);
        let rest = rows_scan(text, next, next);
        assert(text.subrange(next, next) =~= Seq::<char>::empty());
        lemma_rows_scan_unbroken(text, next, next);
        assert forall|k: int| 0 <= k < rows_scan(text, start, at).len() implies unbroken(
            #[trigger] rows_scan(text, start, at)[k],
        ) by {
            if k > 0 {
                assert(rows_scan(text, start, at)[k] == rest[k - 1]);
            } else {
                assert(rows_scan(text, start, at)[0] == text.subrange(start, at));
            }
        }
    } else {
        assert forall|i: int| 0 <= i < at + 1 - start implies !is_line_break(
            #[trigger] text.subrange(start, at + 1)[i],
        ) by {
            if i < at - start {
                assert(text.subrange(start, at + 1)[i] == text.subrange(start, at)[i]);
            }
        }
        lemma_rows_scan_unbroken(text, start, at + 1);
        assert(rows_scan(text, start, at) == rows_scan(text, start, at + 1));
        assert forall|k: int| 0 <= k < rows_scan(text, start, at).len() implies unbroken(
            #[trigger] rows_scan(text, start, at)[k],
        ) by {
            assert(unbroken(rows_scan(text, start, at + 1)[k]));
        }
    }
}

/// No row of a text holds a line break.
pub proof fn lemma_rows_unbroken(text: Seq<char>)
    ensures
        forall|k: int| 0 <= k < rows(text).len() ==> unbroken(#[trigger] rows(text)[k]),
{
    assert(text.subrange(0, 0) =~= Seq::<char>::empty());
    lemma_rows_scan_unbroken(text, 0, 0);
}

/// A scan that meets no line ending gives the text from `start` on as its
/// one row.
proof fn lemma_rows_scan_of_unbroken(text: Seq<char>, at: int)
    requires
        unbroken(text),
        0 <= at <= text.len(),
    ensures
        rows_scan(text, 0, at) == (if text.len() == 0 {
            Seq::<Seq<char>>::empty()
        } else {
            seq![text]
        }),
    decreases text.len() - at,
{
    if at >= text.len() {
        assert(text.subrange(0, text.len() as int) =~= text);
    } else {
        lemma_rows_scan_of_unbroken(text, at + 1);
    }
}

/// A text without a line break is its own single row, and no row if it is
/// empty.
pub proof fn lemma_rows_of_unbroken(text: Seq<char>)
    requires
        unbroken(text),
    ensures
        rows(text) == (if text.len() == 0 {
            Seq::<Seq<char>>::empty()
        } else {
            seq![text]
        }),
{
    lemma_rows_scan_of_unbroken(text, 0);
}

/// Cuts a text into its rows.
pub fn split_rows(text: &str) -> (out: Vec<String>)
    ensures
        text_views(out@) == rows(text@),
{
    let chars = chars_of(text);
    let n = chars.len();
    let mut out: Vec<String> = Vec::new();
    let mut start: usize = 0;
    let mut at: usize = 0;
    assert(text_views(out@) + rows_scan(text@, 0, 0) =~= rows(text@));
    while at < n
        invariant
            start <= at <= n,
            chars@ == text@,
            n == text@.len(),
            rows(text@) == text_views(out@) + rows_scan(text@, start as int, at as int),
        decreases n - at,
    {
        let c = chars[at];
        if c == '\n' || c == '\r' {
            let ghost before = text_views(out@);
            out.push(String::from_str(text.substring_char(start, at)));
            assert(text_views(out@) =~= before.push(text@.subrange(start as int, at as int)));
            if c == '\r' && at + 1 < n && chars[at + 1] == '\n' {
                at = at + 2;
            } else {
                at = at + 1;
            }
            start = at;
            assert(rows(text@) =~= text_views(out@) + rows_scan(text@, start as int, at as int));
        } else {
            at = at + 1;
        }
    }
    let ghost before = text_views(out@);
    if start < n {
        out.push(String::from_str(text.substring_char(start, n)));
        assert(text_views(out@) =~= before.push(text@.subrange(start as int, n as int)));
    }
    assert(rows(text@) =~= text_views(out@));
    out
}

/// Whether a text holds no line break.
pub fn is_unbroken(text: &str) -> (whole: bool)
    ensures
        whole == unbroken(text@),
{
    let mut whole = true;
    for c in it: text.chars()
        invariant
            it.seq() == text@,
            whole == unbroken(text@.take(it.index() as int)),
    {
        let ghost k = it.index() as int;
        assert(text@.take(k + 1) =~= text@.take(k).push(c));
        if c == '\n' || c == '\r' {
            assert(is_line_break(text@.take(k + 1)[k]));
            whole = false;
        } else {
            assert(unbroken(text@.take(k)) ==> unbroken(text@.take(k + 1))) by {
                if unbroken(text@.take(k)) {
                    assert forall|i: int| 0 <= i < k + 1 implies !is_line_break(
                        #[trigger] text@.take(k + 1)[i],
                    ) by {
                        if i < k {
                            assert(text@.take(k + 1)[i] == text@.take(k)[i]);
                        }
                    }
                }
            }
            assert(unbroken(text@.take(k + 1)) ==> unbroken(text@.take(k))) by {
                if unbroken(text@.take(k + 1)) {
                    assert forall|i: int| 0 <= i < k implies !is_line_break(
                        #[trigger] text@.take(k)[i],
                    ) by {
                        assert(text@.take(k)[i] == text@.take(k + 1)[i]);
                    }
                }
            }
        }
    }
    assert(text@.take(text@.len() as int) =~= text@);
    whole
}

/// Texts put one after the other with `sep` between each two.
pub open spec fn joined(parts: Seq<Seq<char>>, sep: Seq<char>) -> Seq<char>
    decreases parts.len(),
{
    if parts.len() == 0 {
        Seq::empty()
    } else if parts.len() == 1 {
        parts[0]
    } else {
        joined(parts.drop_last(), sep) + sep + parts.last()
    }
}

/// The one space that stands for a line ending in a flattened text.
pub open spec fn space() -> Seq<char> {
    seq![' ']
}

/// A text on one row: its rows with a space between each two, in place of
/// the line ending that parted them.
pub open spec fn flattened(text: Seq<char>) -> Seq<char> {
    joined(rows(text), space())
}

/// Texts without a line break, joined by a separator without one, hold
/// none.
pub proof fn lemma_joined_unbroken(parts: Seq<Seq<char>>, sep: Seq<char>)
    requires
        forall|k: int| 0 <= k < parts.len() ==> unbroken(#[trigger] parts[k]),
        unbroken(sep),
    ensures
        unbroken(joined(parts, sep)),
    decreases parts.len(),
{
    if parts.len() >= 2 {
        lemma_joined_unbroken(parts.drop_last(), sep);
        lemma_unbroken_concat(joined(parts.drop_last(), sep), sep);
        lemma_unbroken_concat(joined(parts.drop_last(), sep) + sep, parts.last());
    } else if parts.len() == 1 {
        assert(unbroken(parts[0]));
    }
}

/// A flattened text holds no line break.
pub proof fn lemma_flattened_unbroken(text: Seq<char>)
    ensures
        unbroken(flattened(text)),
{
    lemma_rows_unbroken(text);
    lemma_joined_unbroken(rows(text), space());
}

/// Flattening leaves a text without a line break as it is.
pub proof fn lemma_flattened_of_unbroken(text: Seq<char>)
    requires
        unbroken(text),
    ensures
        flattened(text) == text,
{
    lemma_rows_of_unbroken(text);
    if text.len() == 0 {
        assert(text =~= Seq::<char>::empty());
    }
}

/// Puts a text on one row: each line ending between two rows becomes a
/// space, and a line ending at the very end is dropped.
pub fn flatten(text: &str) -> (out: String)
    ensures
        out@ == flattened(text@),
        unbroken(out@),
{
    proof {
        lemma_flattened_unbroken(text@);
    }
    if is_unbroken(text) {
        proof {
            lemma_flattened_of_unbroken(text@);
        }
        return String::from_str(text);
    }
    let parts = split_rows(text);
    let mut out = String::new();
    let mut i: usize = 0;
    assert(text_views(parts@).take(0) =~= Seq::<Seq<char>>::empty());
    while i < parts.len()
        invariant
            i <= parts.len(),
            out@ == joined(text_views(parts@).take(i as int), space()),
        decreases parts.len() - i,
    {
        let ghost views = text_views(parts@);
        proof {
            reveal_strlit(" ");
            assert(" "@ =~= space());
            assert(views.take(i + 1).drop_last() =~= views.take(i as int));
            assert(views.take(i + 1).last() == parts@[i as int]@);
        }
        if i > 0 {
            out.append(" ");
        }
        out.append(parts[i].as_str());
        proof {
            if i == 0 {
                assert(out@ =~= views.take(1)[0]);
            }
        }
        i += 1;
    }
    assert(text_views(parts@).take(i as int) =~= text_views(parts@));
    out
}

/// Shortening a text without a line break brings none into it.
pub proof fn lemma_truncated_unbroken(s: Seq<char>, max: nat)
    requires
        unbroken(s),
    ensures
        unbroken(truncated(s, max)),
{
    if s.len() > max {
        lemma_unbroken_subrange(s, 0, max as int);
        assert(s.take(max as int) =~= s.subrange(0, max as int));
        assert(unbroken(ellipsis()));
        lemma_unbroken_concat(s.take(max as int), ellipsis());
    }
}

/// Shortening twice with the same budget gives what shortening once gives.
pub proof fn lemma_truncated_idempotent(s: Seq<char>, max: nat)
    ensures
        truncated(truncated(s, max), max) == truncated(s, max),
{
    if s.len() > max {
        let once = truncated(s, max);
        assert(once.len() == max + 3);
        assert(once.take(max as int) =~= s.take(max as int));
    }
}

/// A shortened text is at most three characters longer than the budget, and
/// a text within the budget comes back unchanged.
pub proof fn lemma_truncated_len(s: Seq<char>, max: nat)
    ensures
        truncated(s, max).len() <= max + 3,
        s.len() <= max ==> truncated(s, max) == s,
        s.len() > max ==> truncated(s, max).len() == max + 3,
        s.len() > max ==> truncated(s, max).take(max as int) == s.take(max as int),
{
    if s.len() > max {
        assert(truncated(s, max).take(max as int) =~= s.take(max as int));
    }
}

} // verus!
