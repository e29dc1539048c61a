//! What holds of the clean-up of a captured buffer.

use crate::split::{
    lemma_split_append, lemma_split_concat, lemma_split_last, lemma_split_pieces,
};
use crate::utils::{
    cleaned_capture, cleaned_lines, is_blank, joined, kept_lines, lemma_trim_end_blanks,
    lemma_trim_end_blanks_unique, rendered, reset_code, split_lines, strip_empty_tail,
    trim_end_blanks, trimmed_lines, NEWLINE,
};
use vstd::prelude::*;

verus! {

/// Blank bytes at the end of a line do not change what is left of it.
pub proof fn lemma_trim_ignores_blanks(line: Seq<u8>, blanks: Seq<u8>)
    requires
        forall|i: int| 0 <= i < blanks.len() ==> is_blank(#[trigger] blanks[i]),
    ensures
        trim_end_blanks(line + blanks) == trim_end_blanks(line),
{
    lemma_trim_end_blanks(line);
    let kept = trim_end_blanks(line);
    let k = kept.len() as int;
    let longer = line + blanks;
    assert forall|i: int| k <= i < longer.len() implies is_blank(#[trigger] longer[i]) by {
        if i < line.len() {
            assert(longer[i] == line[i]);
        } else {
            assert(longer[i] == blanks[i - line.len()]);
        }
    }
    if k > 0 {
        assert(longer[k - 1] == line[k - 1]);
        assert(kept.last() == line[k - 1]);
    }
    lemma_trim_end_blanks_unique(longer, k);
    assert(longer.take(k) =~= line.take(k));
}

/// The trimmed lines of two buffers with a newline between them are those
/// of the first followed by those of the second.
pub proof fn lemma_trimmed_lines_concat(a: Seq<u8>, b: Seq<u8>)
    ensures
        trimmed_lines(a + seq![NEWLINE] + b) == trimmed_lines(a) + trimmed_lines(b),
{
    lemma_split_concat(a, NEWLINE, b);
    assert(trimmed_lines(a + seq![NEWLINE] + b) =~= trimmed_lines(a) + trimmed_lines(b));
}

/// Blank bytes put at the end of the buffer do not change its trimmed lines.
pub proof fn lemma_trimmed_lines_ignore_blanks_at_end(a: Seq<u8>, blanks: Seq<u8>)
    requires
        forall|i: int| 0 <= i < blanks.len() ==> is_blank(#[trigger] blanks[i]),
    ensures
        trimmed_lines(a + blanks) == trimmed_lines(a),
{
    lemma_split_append(a, NEWLINE, blanks);
    let lines = split_lines(a);
    lemma_trim_ignores_blanks(lines.last(), blanks);
    assert(lines =~= lines.drop_last().push(lines.last()));
    assert(trimmed_lines(a + blanks) =~= trimmed_lines(a));
}

/// Spaces and tabs put at the end of any line of a buffer do not change what
/// the clean-up makes of it.
///
/// The buffer is `before + after`, where `before` ends with a line: `after`
/// is empty or starts with a newline. The blank bytes go between the two.
pub proof fn lemma_blanks_at_line_end_ignored(
    before: Seq<u8>,
    blanks: Seq<u8>,
    after: Seq<u8>,
    n: nat,
)
    requires
        forall|i: int| 0 <= i < blanks.len() ==> is_blank(#[trigger] blanks[i]),
        after.len() == 0 || after[0] == NEWLINE,
    ensures
        trimmed_lines(before + blanks + after) == trimmed_lines(before + after),
        cleaned_capture(before + blanks + after, n) == cleaned_capture(before + after, n),
{
    lemma_trimmed_lines_ignore_blanks_at_end(before, blanks);
    if after.len() == 0 {
        assert(before + blanks + after =~= before + blanks);
        assert(before + after =~= before);
    } else {
        let rest = after.skip(1);
        assert(before + blanks + after =~= (before + blanks) + seq![NEWLINE] + rest);
        assert(before + after =~= before + seq![NEWLINE] + rest);
        lemma_trimmed_lines_concat(before + blanks, rest);
        lemma_trimmed_lines_concat(before, rest);
    }
}

/// Some line of the buffer holds a byte that is not blank.
pub open spec fn has_text(buf: Seq<u8>) -> bool {
    strip_empty_tail(trimmed_lines(buf)).len() > 0
}

/// A buffer with a byte that is neither blank nor a newline has a line that
/// holds a byte that is not blank.
pub proof fn lemma_has_text(buf: Seq<u8>, at: int)
    requires
        0 <= at < buf.len(),
        !is_blank(buf[at]),
        buf[at] != NEWLINE,
    ensures
        has_text(buf),
    decreases buf.len(),
{
    let last = buf.last();
    let shorter = buf.drop_last();
    if at < buf.len() - 1 {
        assert(shorter[at] == buf[at]);
        lemma_has_text(shorter, at);
        assert(buf =~= shorter + seq![last]);
        lemma_one_more_byte(shorter, last);
    } else {
        assert(buf =~= shorter + seq![last]);
        lemma_split_append(shorter, NEWLINE, seq![last]);
        let lines = split_lines(shorter);
        let grown = lines.last() + seq![last];
        assert(grown.last() == last);
        assert(trim_end_blanks(grown) == grown);
        let trimmed = trimmed_lines(buf);
        assert(trimmed.last() == trim_end_blanks(grown));
    }
}

/// A blank byte or a newline put at the end of a buffer that has text does
/// not change its cleaned lines, and the buffer still has text.
pub proof fn lemma_one_more_byte(buf: Seq<u8>, c: u8)
    requires
        has_text(buf),
    ensures
        has_text(buf + seq![c]),
        is_blank(c) || c == NEWLINE ==> cleaned_lines(buf + seq![c]) == cleaned_lines(buf),
{
    let lines = trimmed_lines(buf);
    if c == NEWLINE {
        assert(buf + seq![c] =~= buf + seq![NEWLINE] + Seq::<u8>::empty());
        lemma_trimmed_lines_concat(buf, Seq::<u8>::empty());
        lemma_split_last(Seq::<u8>::empty(), NEWLINE);
        let none = Seq::<u8>::empty();
        assert(trimmed_lines(none) =~= seq![none]);
        let more = trimmed_lines(buf + seq![c]);
        assert(more =~= lines.push(none));
        assert(more.drop_last() =~= lines);
    } else if is_blank(c) {
        lemma_trimmed_lines_ignore_blanks_at_end(buf, seq![c]);
    } else {
        lemma_split_append(buf, NEWLINE, seq![c]);
        let raw = split_lines(buf);
        let grown = raw.last() + seq![c];
        assert(grown.last() == c);
        assert(trim_end_blanks(grown) == grown);
        let more = trimmed_lines(buf + seq![c]);
        assert(more.last() == trim_end_blanks(grown));
    }
}

/// Newlines, spaces and tabs put at the end of a buffer that has text do not
/// change what the clean-up makes of it.
pub proof fn lemma_blank_tail_ignored(buf: Seq<u8>, tail: Seq<u8>, n: nat)
    requires
        has_text(buf),
        forall|i: int| 0 <= i < tail.len() ==> is_blank(#[trigger] tail[i]) || tail[i] == NEWLINE,
    ensures
        has_text(buf + tail),
        cleaned_lines(buf + tail) == cleaned_lines(buf),
        cleaned_capture(buf + tail, n) == cleaned_capture(buf, n),
    decreases tail.len(),
{
    if tail.len() == 0 {
        assert(buf + tail =~= buf);
    } else {
        let shorter = tail.drop_last();
        assert forall|i: int| 0 <= i < shorter.len() implies is_blank(#[trigger] shorter[i])
            || shorter[i] == NEWLINE by {
            assert(shorter[i] == tail[i]);
        }
        lemma_blank_tail_ignored(buf, shorter, n);
        lemma_one_more_byte(buf + shorter, tail.last());
        assert(buf + tail =~= (buf + shorter) + seq![tail.last()]);
    }
}

/// No line holds a newline.
pub open spec fn newline_free(lines: Seq<Seq<u8>>) -> bool {
    forall|i: int, j: int|
        0 <= i < lines.len() && 0 <= j < lines[i].len() ==> #[trigger] lines[i][j] != NEWLINE
}

/// The cleaned lines of a buffer are one line or more, and none of them
/// holds a newline.
pub proof fn lemma_cleaned_lines_are_lines(buf: Seq<u8>)
    ensures
        cleaned_lines(buf).len() >= 1,
        newline_free(cleaned_lines(buf)),
{
    lemma_split_pieces(buf, NEWLINE);
    let raw = split_lines(buf);
    let trimmed = trimmed_lines(buf);
    assert forall|i: int, j: int|
        0 <= i < trimmed.len() && 0 <= j < trimmed[i].len() implies #[trigger] trimmed[i][j]
        != NEWLINE by {
        lemma_trim_end_blanks(raw[i]);
        assert(trimmed[i][j] == raw[i][j]);
    }
    lemma_strip_empty_tail_is_prefix(trimmed);
    let cleaned = cleaned_lines(buf);
    assert forall|i: int, j: int|
        0 <= i < cleaned.len() && 0 <= j < cleaned[i].len() implies #[trigger] cleaned[i][j]
        != NEWLINE by {
        assert(cleaned[i] == trimmed[i]);
        assert(trimmed[i][j] != NEWLINE);
    }
}

/// What is left without the empty lines at the end is a prefix of the lines.
pub proof fn lemma_strip_empty_tail_is_prefix(lines: Seq<Seq<u8>>)
    ensures
        strip_empty_tail(lines).len() <= lines.len(),
        strip_empty_tail(lines) == lines.take(strip_empty_tail(lines).len() as int),
        strip_empty_tail(lines).len() > 0 ==> strip_empty_tail(lines).last().len() > 0,
    decreases lines.len(),
{
    if lines.len() > 0 && lines.last().len() == 0 {
        let shorter = lines.drop_last();
        lemma_strip_empty_tail_is_prefix(shorter);
        let k = strip_empty_tail(shorter).len() as int;
        assert(shorter.take(k) =~= lines.take(k));
    } else {
        assert(lines.take(lines.len() as int) =~= lines);
    }
}

/// Where `n` is at most the number of cleaned lines, the clean-up writes
/// out the cleaned lines but the last `n`.
pub proof fn lemma_truncation(buf: Seq<u8>, n: nat)
    requires
        n <= cleaned_lines(buf).len(),
    ensures
        kept_lines(buf, n) == cleaned_lines(buf).take(cleaned_lines(buf).len() - n),
        cleaned_capture(buf, n) == rendered(
            cleaned_lines(buf).take(cleaned_lines(buf).len() - n),
        ),
{
    let cleaned = cleaned_lines(buf);
    if n == cleaned.len() {
        assert(cleaned.take(0) =~= Seq::<Seq<u8>>::empty());
    }
}

/// Lines that are written out, each with its newline, and followed by
/// `tail`, are read back as they were, followed by the lines of `tail`.
pub proof fn lemma_joined_lines(lines: Seq<Seq<u8>>, tail: Seq<u8>)
    requires
        newline_free(lines),
    ensures
        split_lines(joined(lines) + tail) == lines + split_lines(tail),
    decreases lines.len(),
{
    if lines.len() == 0 {
        assert(joined(lines) + tail =~= tail);
        assert(lines + split_lines(tail) =~= split_lines(tail));
    } else {
        let before = lines.drop_last();
        let last = lines.last();
        assert forall|i: int, j: int|
            0 <= i < before.len() && 0 <= j < before[i].len() implies #[trigger] before[i][j]
            != NEWLINE by {
            assert(before[i] == lines[i]);
            assert(lines[i][j] != NEWLINE);
        }
        let longer = last + seq![NEWLINE] + tail;
        assert(joined(lines) + tail =~= joined(before) + longer);
        lemma_joined_lines(before, longer);
        lemma_split_concat(last, NEWLINE, tail);
        assert forall|j: int| 0 <= j < last.len() implies #[trigger] last[j] != NEWLINE by {
            assert(lines[lines.len() - 1][j] != NEWLINE);
        }
        lemma_split_last(last, NEWLINE);
        assert(before + (seq![last] + split_lines(tail)) =~= lines + split_lines(tail));
    }
}

/// The lines of what is written out are the lines that were given, the last
/// one with the reset code after it, and an empty line after the last
/// newline. So the clean-up puts a reset code at the end of the last line
/// and of no other, and changes no line otherwise.
pub proof fn lemma_rendered_lines(lines: Seq<Seq<u8>>)
    requires
        lines.len() > 0,
        newline_free(lines),
    ensures
        split_lines(rendered(lines)) == lines.drop_last().push(lines.last() + reset_code()).push(
            Seq::empty(),
        ),
{
    let before = lines.drop_last();
    let last = lines.last() + reset_code();
    let none = Seq::<u8>::empty();
    assert forall|i: int, j: int|
        0 <= i < before.len() && 0 <= j < before[i].len() implies #[trigger] before[i][j]
        != NEWLINE by {
        assert(before[i] == lines[i]);
        assert(lines[i][j] != NEWLINE);
    }
    assert(rendered(lines) =~= joined(before) + (last + seq![NEWLINE] + none));
    lemma_joined_lines(before, last + seq![NEWLINE] + none);
    lemma_split_concat(last, NEWLINE, none);
    assert forall|j: int| 0 <= j < last.len() implies #[trigger] last[j] != NEWLINE by {
        if j < lines.last().len() {
            assert(lines[lines.len() - 1][j] != NEWLINE);
        } else {
            assert(last[j] == reset_code()[j - lines.last().len()]);
        }
    }
    lemma_split_last(last, NEWLINE);
    lemma_split_last(none, NEWLINE);
    assert(before + (seq![last] + seq![none]) =~= before.push(last).push(none));
}

/// What is written out is empty where no line is given; else it ends with
/// the reset code and a newline.
pub proof fn lemma_rendered_end(lines: Seq<Seq<u8>>)
    ensures
        lines.len() == 0 <==> rendered(lines).len() == 0,
        lines.len() > 0 ==> rendered(lines).len() >= 5 && rendered(lines).skip(
            rendered(lines).len() - 5,
        ) == reset_code() + seq![NEWLINE],
{
    if lines.len() > 0 {
        let out = rendered(lines);
        let head = joined(lines.drop_last()) + lines.last();
        assert(out =~= head + (reset_code() + seq![NEWLINE]));
        assert(out.skip(out.len() - 5) =~= reset_code() + seq![NEWLINE]);
    }
}

/// What the clean-up makes of a buffer is empty, or it ends with the reset
/// code and a newline, and its lines are the lines that were kept, with the
/// reset code after the last of them and after no other.
pub proof fn lemma_capture_shape(buf: Seq<u8>, n: nat)
    ensures
        kept_lines(buf, n).len() == 0 <==> cleaned_capture(buf, n).len() == 0,
        kept_lines(buf, n).len() > 0 ==> {
            let out = cleaned_capture(buf, n);
            let kept = kept_lines(buf, n);
            &&& out.len() >= 5
            &&& out.skip(out.len() - 5) == reset_code() + seq![NEWLINE]
            &&& split_lines(out) == kept.drop_last().push(kept.last() + reset_code()).push(
                Seq::empty(),
            )
        },
{
    let kept = kept_lines(buf, n);
    lemma_rendered_end(kept);
    if kept.len() > 0 {
        lemma_cleaned_lines_are_lines(buf);
        let cleaned = cleaned_lines(buf);
        assert forall|i: int, j: int|
            0 <= i < kept.len() && 0 <= j < kept[i].len() implies #[trigger] kept[i][j]
            != NEWLINE by {
            assert(kept[i] == cleaned[i]);
            assert(cleaned[i][j] != NEWLINE);
        }
        lemma_rendered_lines(kept);
    }
}

} // verus!
