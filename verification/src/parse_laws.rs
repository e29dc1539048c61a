//! What holds of the grammars.

use crate::parse::{
    boolean_spec, failure, false_word, is_digit, is_opaque_id, lemma_whole_id,
    quoted_nonempty_string_spec, quoted_string_spec, scan_body, true_word, whole_id_spec, BodyEnd,
    ErrorKind, GrammarFailure, BACKSLASH, QUOTE,
};
use vstd::prelude::*;

verus! {

/// The body of a quoted string: characters other than the quote and the
/// backslash, and quotes that a backslash escapes.
pub open spec fn is_body(b: Seq<char>) -> bool
    decreases b.len(),
{
    if b.len() == 0 {
        true
    } else if b[0] == BACKSLASH {
        b.len() >= 2 && b[1] == QUOTE && is_body(b.skip(2))
    } else {
        b[0] != QUOTE && is_body(b.skip(1))
    }
}

/// The text of a quoted string with the body `body`, followed by `rest`.
pub open spec fn quoted(body: Seq<char>, rest: Seq<char>) -> Seq<char> {
    seq![QUOTE] + body + seq![QUOTE] + rest
}

/// A body that a quote follows is read up to that quote.
pub proof fn lemma_scan_reads_body(s: Seq<char>, i: int, j: int)
    requires
        0 <= i <= j < s.len(),
        is_body(s.subrange(i, j)),
        s[j] == QUOTE,
    ensures
        scan_body(s, i) == BodyEnd::Closed(j),
    decreases j - i,
{
    let b = s.subrange(i, j);
    if i < j {
        assert(b[0] == s[i]);
        if s[i] == BACKSLASH {
            assert(b[1] == s[i + 1]);
            assert(b.skip(2) =~= s.subrange(i + 2, j));
            lemma_scan_reads_body(s, i + 2, j);
        } else {
            assert(b.skip(1) =~= s.subrange(i + 1, j));
            lemma_scan_reads_body(s, i + 1, j);
        }
    }
}

/// What is read up to a closing quote is a body, and the quote is the first
/// one that no backslash escapes.
pub proof fn lemma_scan_closed(s: Seq<char>, i: int)
    requires
        0 <= i,
        scan_body(s, i) is Closed,
    ensures
        i <= scan_body(s, i)->Closed_0 < s.len(),
        s[scan_body(s, i)->Closed_0] == QUOTE,
        is_body(s.subrange(i, scan_body(s, i)->Closed_0)),
    decreases s.len() - i,
{
    let j = scan_body(s, i)->Closed_0;
    if s[i] == QUOTE {
        assert(s.subrange(i, i).len() == 0);
    } else if s[i] == BACKSLASH {
        lemma_scan_closed(s, i + 2);
        let b = s.subrange(i, j);
        assert(b[0] == s[i]);
        assert(b[1] == s[i + 1]);
        assert(b.skip(2) =~= s.subrange(i + 2, j));
    } else {
        lemma_scan_closed(s, i + 1);
        let b = s.subrange(i, j);
        assert(b[0] == s[i]);
        assert(b.skip(1) =~= s.subrange(i + 1, j));
    }
}

/// `quoted_string` accepts every body between quotes, the empty one too,
/// hands it back as it stands, and leaves what follows the closing quote.
pub proof fn lemma_quoted_string_accepts(body: Seq<char>, rest: Seq<char>)
    requires
        is_body(body),
    ensures
        quoted_string_spec(quoted(body, rest)) == Ok::<(Seq<char>, Seq<char>), GrammarFailure>(
            (rest, body),
        ),
{
    let s = quoted(body, rest);
    let j = 1 + body.len() as int;
    assert(s[0] == QUOTE);
    assert(s[j] == QUOTE);
    assert(s.subrange(1, j) =~= body);
    assert(s.skip(j + 1) =~= rest);
    lemma_scan_reads_body(s, 1, j);
}

/// What `quoted_string` accepts is a body between quotes: the input is the
/// opening quote, the body that is handed back, the closing quote, and what
/// is left.
pub proof fn lemma_quoted_string_accepts_only(s: Seq<char>)
    requires
        quoted_string_spec(s) is Ok,
    ensures
        is_body(quoted_string_spec(s)->Ok_0.1),
        s == quoted(quoted_string_spec(s)->Ok_0.1, quoted_string_spec(s)->Ok_0.0),
{
    lemma_scan_closed(s, 1);
    let j = scan_body(s, 1)->Closed_0;
    assert(s =~= quoted(s.subrange(1, j), s.skip(j + 1)));
}

/// `quoted_nonempty_string` refuses `''`, whatever follows it, and agrees
/// with `quoted_string` wherever that reads a body that is not empty.
pub proof fn lemma_quoted_nonempty_string_agrees(s: Seq<char>)
    ensures
        quoted_nonempty_string_spec(s) is Ok <==> quoted_string_spec(s) is Ok
            && quoted_string_spec(s)->Ok_0.1.len() > 0,
        quoted_nonempty_string_spec(s) is Ok ==> quoted_nonempty_string_spec(s)
            == quoted_string_spec(s),
        quoted_nonempty_string_spec(s) is Ok ==> quoted_nonempty_string_spec(s)->Ok_0.1.len() > 0,
{
    if quoted_string_spec(s) is Ok {
        lemma_scan_closed(s, 1);
    }
}

/// `quoted_nonempty_string` accepts every body between quotes but the empty
/// one, hands it back as it stands, and leaves what follows the closing
/// quote.
pub proof fn lemma_quoted_nonempty_string_accepts(body: Seq<char>, rest: Seq<char>)
    requires
        is_body(body),
        body.len() > 0,
    ensures
        quoted_nonempty_string_spec(quoted(body, rest)) == Ok::<
            (Seq<char>, Seq<char>),
            GrammarFailure,
        >((rest, body)),
{
    lemma_quoted_string_accepts(body, rest);
    lemma_quoted_nonempty_string_agrees(quoted(body, rest));
}

/// The character of the decimal digit `d`.
pub open spec fn digit_char(d: nat) -> char
    recommends
        d < 10,
{
    (0x30 + d) as u8 as char
}

/// The decimal numeral of `n`, without leading zeros.
pub open spec fn decimal(n: nat) -> Seq<char>
    decreases n,
{
    if n < 10 {
        seq![digit_char(n)]
    } else {
        decimal(n / 10).push(digit_char(n % 10))
    }
}

/// A decimal numeral is made of one digit or more.
pub proof fn lemma_decimal_is_digits(n: nat)
    ensures
        decimal(n).len() >= 1,
        forall|i: int| 0 <= i < decimal(n).len() ==> is_digit(#[trigger] decimal(n)[i]),
    decreases n,
{
    if n >= 10 {
        lemma_decimal_is_digits(n / 10);
    }
}

/// The text of the id with the number `n`: the prefix and the decimal
/// numeral.
pub open spec fn id_text(prefix: char, n: nat) -> Seq<char> {
    seq![prefix] + decimal(n)
}

/// The prefix of its kind followed by a number is an opaque id.
pub proof fn lemma_id_text_is_opaque_id(prefix: char, n: nat)
    ensures
        is_opaque_id(prefix, id_text(prefix, n)),
{
    lemma_decimal_is_digits(n);
    let s = id_text(prefix, n);
    assert forall|i: int| 1 <= i < s.len() implies is_digit(#[trigger] s[i]) by {
        assert(s[i] == decimal(n)[i - 1]);
    }
}

/// Reading the text of an id gives the id whose text is the input: for
/// every prefix and every number.
pub proof fn lemma_id_round_trip(prefix: char, n: nat)
    ensures
        whole_id_spec(prefix, id_text(prefix, n)) == Ok::<Seq<char>, GrammarFailure>(
            id_text(prefix, n),
        ),
{
    lemma_id_text_is_opaque_id(prefix, n);
    lemma_whole_id(prefix, id_text(prefix, n));
}

/// A parser of one opaque id refuses the empty input, the prefix alone,
/// another first character, a first character that is not a digit after the
/// prefix, and digits that anything else follows.
pub proof fn lemma_id_strict(prefix: char, s: Seq<char>)
    ensures
        s.len() == 0 ==> whole_id_spec(prefix, s) is Err,
        s.len() == 1 ==> whole_id_spec(prefix, s) is Err,
        s.len() > 0 && s[0] != prefix ==> whole_id_spec(prefix, s) is Err,
        forall|i: int| 1 <= i < s.len() && !is_digit(#[trigger] s[i]) ==> whole_id_spec(prefix, s) is Err,
{
    lemma_whole_id(prefix, s);
}

/// `boolean` accepts the word `true` and the word `false`, whatever follows
/// them, and leaves what follows.
pub proof fn lemma_boolean_accepts(rest: Seq<char>)
    ensures
        boolean_spec(true_word() + rest) == Ok::<(Seq<char>, bool), GrammarFailure>((rest, true)),
        boolean_spec(false_word() + rest) == Ok::<(Seq<char>, bool), GrammarFailure>(
            (rest, false),
        ),
{
    let t = true_word() + rest;
    assert(t.subrange(0, 4) =~= true_word());
    assert(t.skip(4) =~= rest);
    let f = false_word() + rest;
    assert(f.subrange(0, 5) =~= false_word());
    assert(f.skip(5) =~= rest);
    assert(!true_word().is_prefix_of(f)) by {
        if true_word().is_prefix_of(f) {
            assert(f.subrange(0, 4)[0] == true_word()[0]);
        }
    }
}

/// `boolean` accepts nothing else: an input that it accepts is the word of
/// the value that it hands back, followed by what it leaves.
pub proof fn lemma_boolean_accepts_only(s: Seq<char>)
    requires
        boolean_spec(s) is Ok,
    ensures
        boolean_spec(s)->Ok_0.1 ==> s == true_word() + boolean_spec(s)->Ok_0.0,
        !boolean_spec(s)->Ok_0.1 ==> s == false_word() + boolean_spec(s)->Ok_0.0,
{
    if true_word().is_prefix_of(s) {
        assert(s =~= s.subrange(0, 4) + s.skip(4));
    } else {
        assert(s =~= s.subrange(0, 5) + s.skip(5));
    }
}

/// `boolean` refuses the empty input and every input that starts with
/// another character than `t` and `f`: so words in capitals, numerals, `yes`
/// and `no`.
pub proof fn lemma_boolean_refuses(s: Seq<char>)
    requires
        s.len() == 0 || (s[0] != 't' && s[0] != 'f'),
    ensures
        boolean_spec(s) == Err::<(Seq<char>, bool), GrammarFailure>(
            failure(s, ErrorKind::Tag),
        ),
{
    if true_word().is_prefix_of(s) {
        assert(s.subrange(0, 4)[0] == true_word()[0]);
    }
    if false_word().is_prefix_of(s) {
        assert(s.subrange(0, 5)[0] == false_word()[0]);
    }
}

} // verus!
