//! Byte utilities and the clean-up of a captured pane buffer.

use crate::split::{lemma_split_last, lemma_split_step, split_on};
use vstd::prelude::*;
use vstd::slice::{slice_subrange, slice_to_vec};

verus! {

/// The line separator.
pub const NEWLINE: u8 = 0x0a;

/// The horizontal tab.
pub const TAB: u8 = 0x09;

/// The space.
pub const SPACE: u8 = 0x20;

/// A blank byte is a space or a horizontal tab.
pub open spec fn is_blank(c: u8) -> bool {
    c == TAB || c == SPACE
}

/// `s` without its longest suffix of blank bytes.
pub open spec fn trim_end_blanks(s: Seq<u8>) -> Seq<u8>
    decreases s.len(),
{
    if s.len() > 0 && is_blank(s.last()) {
        trim_end_blanks(s.drop_last())
    } else {
        s
    }
}

/// `s` without its longest prefix of blank bytes.
pub open spec fn trim_start_blanks(s: Seq<u8>) -> Seq<u8>
    decreases s.len(),
{
    if s.len() > 0 && is_blank(s.first()) {
        trim_start_blanks(s.drop_first())
    } else {
        s
    }
}

/// `s` without the blank bytes at either end.
pub open spec fn trim_blanks(s: Seq<u8>) -> Seq<u8> {
    trim_start_blanks(trim_end_blanks(s))
}

/// What `trim_end_blanks` returns is the one prefix of `s` that does not end
/// in a blank byte and is followed by blank bytes only.
pub proof fn lemma_trim_end_blanks(s: Seq<u8>)
    ensures
        trim_end_blanks(s).len() <= s.len(),
        trim_end_blanks(s) == s.take(trim_end_blanks(s).len() as int),
        trim_end_blanks(s).len() > 0 ==> !is_blank(trim_end_blanks(s).last()),
        forall|i: int| trim_end_blanks(s).len() <= i < s.len() ==> is_blank(#[trigger] s[i]),
    decreases s.len(),
{
    if s.len() > 0 && is_blank(s.last()) {
        let t = s.drop_last();
        lemma_trim_end_blanks(t);
        let r = trim_end_blanks(t);
        assert(t.take(r.len() as int) =~= s.take(r.len() as int));
        assert forall|i: int| r.len() <= i < s.len() implies is_blank(#[trigger] s[i]) by {
            if i < t.len() {
                assert(s[i] == t[i]);
            }
        }
    } else {
        assert(s.take(s.len() as int) =~= s);
    }
}

/// A prefix of `s` that does not end in a blank byte and is followed by blank
/// bytes only is `trim_end_blanks(s)`.
pub proof fn lemma_trim_end_blanks_unique(s: Seq<u8>, k: int)
    requires
        0 <= k <= s.len(),
        k > 0 ==> !is_blank(s[k - 1]),
        forall|i: int| k <= i < s.len() ==> is_blank(#[trigger] s[i]),
    ensures
        trim_end_blanks(s) == s.take(k),
    decreases s.len(),
{
    if s.len() > 0 && is_blank(s.last()) {
        let t = s.drop_last();
        assert(k < s.len());
        lemma_trim_end_blanks_unique(t, k);
        assert(t.take(k) =~= s.take(k));
    } else {
        assert(k == s.len());
        assert(s.take(k) =~= s);
    }
}

/// What `trim_start_blanks` returns is the one suffix of `s` that does not
/// start with a blank byte and is preceded by blank bytes only.
pub proof fn lemma_trim_start_blanks_unique(s: Seq<u8>, k: int)
    requires
        0 <= k <= s.len(),
        k < s.len() ==> !is_blank(s[k]),
        forall|i: int| 0 <= i < k ==> is_blank(#[trigger] s[i]),
    ensures
        trim_start_blanks(s) == s.skip(k),
    decreases s.len(),
{
    if s.len() > 0 && is_blank(s.first()) {
        let t = s.drop_first();
        assert(k > 0);
        assert forall|i: int| 0 <= i < k - 1 implies is_blank(#[trigger] t[i]) by {
            assert(t[i] == s[i + 1]);
        }
        lemma_trim_start_blanks_unique(t, k - 1);
        assert(t.skip(k - 1) =~= s.skip(k));
    } else {
        assert(k == 0);
        assert(s.skip(0) =~= s);
    }
}

/// Whether the byte is a space or a tab.
pub fn is_whitespace(c: &u8) -> (r: bool)
    ensures
        r == is_blank(*c),
{
    *c == TAB || *c == SPACE
}

/// Whether the byte is neither a space nor a tab.
pub fn is_not_whitespace(c: &u8) -> (r: bool)
    ensures
        r == !is_blank(*c),
{
    !is_whitespace(c)
}

/// Trimming of blank bytes (space and tab) at the ends of a byte string.
pub trait SliceExt {
    /// The bytes that the value holds.
    spec fn bytes(&self) -> Seq<u8>;

    /// The value without the blank bytes at either end.
    fn trim(&self) -> (r: &Self)
        ensures
            r.bytes() == trim_blanks(self.bytes()),
    ;

    /// The value without the blank bytes at its end.
    fn trim_trailing(&self) -> (r: &Self)
        ensures
            r.bytes() == trim_end_blanks(self.bytes()),
    ;
}

/// The index after the last byte of `s` that is not blank, 0 if there is none.
fn blank_suffix_start(s: &[u8]) -> (k: usize)
    ensures
        k <= s@.len(),
        k > 0 ==> !is_blank(s@[k - 1]),
        forall|i: int| k <= i < s@.len() ==> is_blank(#[trigger] s@[i]),
{
    let mut k: usize = s.len();
    while k > 0 && is_whitespace(&s[k - 1])
        invariant
            k <= s@.len(),
            forall|i: int| k <= i < s@.len() ==> is_blank(#[trigger] s@[i]),
        decreases k,
    {
        k = k - 1;
    }
    k
}

/// The index of the first byte of `s[..end]` that is not blank, `end` if
/// there is none.
fn blank_prefix_end(s: &[u8], end: usize) -> (k: usize)
    requires
        end <= s@.len(),
    ensures
        k <= end,
        k < end ==> !is_blank(s@[k as int]),
        forall|i: int| 0 <= i < k ==> is_blank(#[trigger] s@[i]),
{
    let mut k: usize = 0;
    while k < end && is_whitespace(&s[k])
        invariant
            k <= end <= s@.len(),
            forall|i: int| 0 <= i < k ==> is_blank(#[trigger] s@[i]),
        decreases end - k,
    {
        k = k + 1;
    }
    k
}

impl SliceExt for [u8] {
    open spec fn bytes(&self) -> Seq<u8> {
        self@
    }

    fn trim(&self) -> (r: &[u8]) {
        let end = blank_suffix_start(self);
        let start = blank_prefix_end(self, end);
        proof {
            lemma_trim_end_blanks_unique(self@, end as int);
            lemma_trim_start_blanks_unique(self@.take(end as int), start as int);
            assert(self@.take(end as int).skip(start as int) =~= self@.subrange(
                start as int,
                end as int,
            ));
        }
        slice_subrange(self, start, end)
    }

    fn trim_trailing(&self) -> (r: &[u8]) {
        let end = blank_suffix_start(self);
        proof {
            lemma_trim_end_blanks_unique(self@, end as int);
            assert(self@.take(end as int) =~= self@.subrange(0, end as int));
        }
        slice_subrange(self, 0, end)
    }
}

/// The lines of `s`: the pieces between its newlines. A buffer with `n`
/// newlines has `n + 1` lines, the last one empty if `s` ends in a newline.
pub open spec fn split_lines(s: Seq<u8>) -> Seq<Seq<u8>> {
    split_on(s, NEWLINE)
}

/// The lines of `s`, each without the blank bytes at its end.
pub open spec fn trimmed_lines(s: Seq<u8>) -> Seq<Seq<u8>> {
    split_lines(s).map_values(|l: Seq<u8>| trim_end_blanks(l))
}

/// `lines` without its longest suffix of empty lines.
pub open spec fn strip_empty_tail(lines: Seq<Seq<u8>>) -> Seq<Seq<u8>>
    decreases lines.len(),
{
    if lines.len() > 0 && lines.last().len() == 0 {
        strip_empty_tail(lines.drop_last())
    } else {
        lines
    }
}

/// `lines` without the empty lines at its end. Where every line is empty the
/// lines stay as they are.
pub open spec fn without_trailing_empty(lines: Seq<Seq<u8>>) -> Seq<Seq<u8>> {
    let kept = strip_empty_tail(lines);
    if kept.len() == 0 {
        lines
    } else {
        kept
    }
}

/// The lines of a captured buffer after trimming, without the empty lines at
/// the end.
pub open spec fn cleaned_lines(buf: Seq<u8>) -> Seq<Seq<u8>> {
    without_trailing_empty(trimmed_lines(buf))
}

/// The cleaned lines of `buf` without the last `n` of them; no line is left
/// where `n` is the number of cleaned lines or more.
pub open spec fn kept_lines(buf: Seq<u8>, n: nat) -> Seq<Seq<u8>> {
    let cleaned = cleaned_lines(buf);
    if n >= cleaned.len() {
        Seq::empty()
    } else {
        cleaned.take(cleaned.len() - n)
    }
}

/// The escape sequence `ESC [ 0 m`, which resets the terminal's attributes.
pub open spec fn reset_code() -> Seq<u8> {
    seq![0x1bu8, 0x5bu8, 0x30u8, 0x6du8]
}

/// Every line of `lines` followed by a newline.
pub open spec fn joined(lines: Seq<Seq<u8>>) -> Seq<u8>
    decreases lines.len(),
{
    if lines.len() == 0 {
        Seq::empty()
    } else {
        joined(lines.drop_last()) + lines.last() + seq![NEWLINE]
    }
}

/// The lines as they are written out: each followed by a newline, the last
/// one by the reset code and a newline. No line gives no byte.
pub open spec fn rendered(lines: Seq<Seq<u8>>) -> Seq<u8> {
    if lines.len() == 0 {
        Seq::empty()
    } else {
        joined(lines.drop_last()) + lines.last() + reset_code() + seq![NEWLINE]
    }
}

/// What `cleanup_captured_buffer` makes of `buf` when asked to drop `n` lines.
pub open spec fn cleaned_capture(buf: Seq<u8>, n: nat) -> Seq<u8> {
    rendered(kept_lines(buf, n))
}

/// The byte strings that a list of slices holds.
pub open spec fn lines_view(lines: Seq<&[u8]>) -> Seq<Seq<u8>> {
    lines.map_values(|l: &[u8]| l@)
}

/// The first line of `s` ends before its first newline, and the other lines
/// are those of what follows that newline.
pub proof fn lemma_trimmed_lines_step(s: Seq<u8>, k: int)
    requires
        0 <= k < s.len(),
        forall|j: int| 0 <= j < k ==> #[trigger] s[j] != NEWLINE,
        s[k] == NEWLINE,
    ensures
        split_lines(s) == seq![s.take(k)] + split_lines(s.skip(k + 1)),
        trimmed_lines(s) == seq![trim_end_blanks(s.take(k))] + trimmed_lines(s.skip(k + 1)),
{
    lemma_split_step(s, NEWLINE, k);
    assert(trimmed_lines(s) =~= seq![trim_end_blanks(s.take(k))] + trimmed_lines(
        s.skip(k + 1),
    ));
}

/// A buffer without a newline is one line.
pub proof fn lemma_trimmed_lines_last(s: Seq<u8>)
    requires
        forall|j: int| 0 <= j < s.len() ==> #[trigger] s[j] != NEWLINE,
    ensures
        split_lines(s) == seq![s],
        trimmed_lines(s) == seq![trim_end_blanks(s)],
{
    lemma_split_last(s, NEWLINE);
    assert(trimmed_lines(s) =~= seq![trim_end_blanks(s)]);
}

/// Split the buffer into its lines and trim the blank bytes at the end of
/// each.
pub fn buf_trim_trailing(buf: &[u8]) -> (lines: Vec<&[u8]>)
    ensures
        lines_view(lines@) == trimmed_lines(buf@),
{
    let mut lines: Vec<&[u8]> = Vec::new();
    let mut start: usize = 0;
    let mut i: usize = 0;
    proof {
        assert(buf@.skip(0) =~= buf@);
        assert(lines_view(lines@) + trimmed_lines(buf@) =~= trimmed_lines(buf@));
    }
    while i < buf.len()
        invariant
            start <= i <= buf@.len(),
            forall|j: int| start <= j < i ==> #[trigger] buf@[j] != NEWLINE,
            trimmed_lines(buf@) == lines_view(lines@) + trimmed_lines(buf@.skip(start as int)),
        decreases buf@.len() - i,
    {
        if buf[i] == NEWLINE {
            let line = slice_subrange(buf, start, i).trim_trailing();
            proof {
                let rest = buf@.skip(start as int);
                lemma_trimmed_lines_step(rest, i - start);
                assert(rest.take(i - start) =~= buf@.subrange(start as int, i as int));
                assert(rest.skip(i - start + 1) =~= buf@.skip(i + 1));
                assert(lines_view(lines@.push(line)) =~= lines_view(lines@) + seq![line@]);
            }
            lines.push(line);
            start = i + 1;
        }
        i = i + 1;
    }
    let line = slice_subrange(buf, start, buf.len()).trim_trailing();
    proof {
        let rest = buf@.skip(start as int);
        lemma_trimmed_lines_last(rest);
        assert(rest =~= buf@.subrange(start as int, buf@.len() as int));
        assert(lines_view(lines@.push(line)) =~= lines_view(lines@) + seq![line@]);
    }
    lines.push(line);
    lines
}

/// What `strip_empty_tail` returns is the one prefix of `lines` that does
/// not end in an empty line and is followed by empty lines only.
pub proof fn lemma_strip_empty_tail_unique(lines: Seq<Seq<u8>>, k: int)
    requires
        0 <= k <= lines.len(),
        k > 0 ==> lines[k - 1].len() > 0,
        forall|i: int| k <= i < lines.len() ==> (#[trigger] lines[i]).len() == 0,
    ensures
        strip_empty_tail(lines) == lines.take(k),
    decreases lines.len(),
{
    if lines.len() > 0 && lines.last().len() == 0 {
        let t = lines.drop_last();
        assert(k < lines.len());
        lemma_strip_empty_tail_unique(t, k);
        assert(t.take(k) =~= lines.take(k));
    } else {
        assert(k == lines.len());
        assert(lines.take(k) =~= lines);
    }
}

/// Drop the empty lines at the end. Where every line is empty, all of them
/// are kept.
pub fn drop_last_empty_lines<'a>(lines: &[&'a [u8]]) -> (kept: Vec<&'a [u8]>)
    ensures
        kept@.len() <= lines@.len(),
        kept@ == lines@.take(kept@.len() as int),
        lines_view(kept@) == without_trailing_empty(lines_view(lines@)),
{
    let mut k: usize = lines.len();
    while k > 0 && lines[k - 1].is_empty()
        invariant
            k <= lines@.len(),
            forall|i: int| k <= i < lines@.len() ==> (#[trigger] lines@[i])@.len() == 0,
        decreases k,
    {
        k = k - 1;
    }
    let end: usize = if k == 0 {
        lines.len()
    } else {
        k
    };
    proof {
        let all = lines_view(lines@);
        assert forall|i: int| k <= i < all.len() implies (#[trigger] all[i]).len() == 0 by {
            assert(all[i] == lines@[i]@);
        }
        lemma_strip_empty_tail_unique(all, k as int);
        assert(all.take(lines@.len() as int) =~= all);
        assert(lines_view(lines@.subrange(0, end as int)) =~= all.take(end as int));
        assert(lines@.subrange(0, end as int) =~= lines@.take(end as int));
    }
    slice_to_vec(slice_subrange(lines, 0, end))
}

/// Clean a buffer captured from a pane, so that it can be written back to a
/// terminal.
///
/// - The blank bytes at the end of every line are removed: tmux cannot both
///   keep the escape codes of a pane and trim its lines.
/// - The empty lines at the end are removed.
/// - The last `drop_n_last_lines` of the lines that are left are removed as
///   well. This keeps the prompts of a shell that prints a new one each time
///   the buffer is restored out of the history. Where fewer lines are left
///   than are to be dropped, none stays and the result is empty.
/// - The last line gets the escape code that resets the terminal, which tmux
///   does not capture.
pub fn cleanup_captured_buffer(buffer: &[u8], drop_n_last_lines: usize) -> (cleaned: Vec<u8>)
    ensures
        cleaned@ == cleaned_capture(buffer@, drop_n_last_lines as nat),
{
    let trimmed_lines: Vec<&[u8]> = buf_trim_trailing(buffer);
    let mut lines: Vec<&[u8]> = drop_last_empty_lines(trimmed_lines.as_slice());
    let keep: usize = if drop_n_last_lines >= lines.len() {
        0
    } else {
        lines.len() - drop_n_last_lines
    };
    proof {
        assert(lines_view(lines@.take(keep as int)) =~= lines_view(lines@).take(keep as int));
        assert(lines_view(lines@).take(0) =~= Seq::<Seq<u8>>::empty());
    }
    lines.truncate(keep);
    assert(lines_view(lines@) == kept_lines(buffer@, drop_n_last_lines as nat));

    let mut cleaned: Vec<u8> = Vec::with_capacity(lines.len());
    let mut idx: usize = 0;
    proof {
        assert(lines_view(lines@).take(0) =~= Seq::<Seq<u8>>::empty());
    }
    while idx < lines.len()
        invariant
            idx <= lines@.len(),
            idx < lines@.len() ==> cleaned@ == joined(lines_view(lines@).take(idx as int)),
            idx == lines@.len() ==> cleaned@ == rendered(lines_view(lines@)),
        decreases lines@.len() - idx,
    {
        let line: &[u8] = lines[idx];
        let ghost before = cleaned@;
        cleaned.extend_from_slice(line);
        let is_last_line = idx == lines.len() - 1;
        if is_last_line {
            cleaned.push(0x1b);
            cleaned.push(0x5b);
            cleaned.push(0x30);
            cleaned.push(0x6d);
            cleaned.push(NEWLINE);
            proof {
                let all = lines_view(lines@);
                assert(all.drop_last() =~= all.take(idx as int));
                assert(all.last() == line@);
                assert(cleaned@ =~= before + line@ + reset_code() + seq![NEWLINE]);
            }
        } else {
            cleaned.push(NEWLINE);
            proof {
                let all = lines_view(lines@);
                let next = all.take(idx + 1);
                assert(next.drop_last() =~= all.take(idx as int));
                assert(next.last() == line@);
                assert(cleaned@ =~= before + line@ + seq![NEWLINE]);
            }
        }
        idx = idx + 1;
    }
    cleaned
}

} // verus!
