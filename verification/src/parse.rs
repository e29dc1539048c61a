//! The grammars of the fields that tmux prints.
//!
//! Every parser reads a prefix of its input and hands back what is left
//! together with what it read, or says where and why it stopped.

use crate::text::chars_of;
use vstd::prelude::*;

verus! {

/// Why a parser stopped.
#[derive(Debug, Clone, Copy, PartialEq, Eq, Structural)]
pub enum ErrorKind {
    /// A fixed piece of text was expected.
    Tag,
    /// A given character was expected.
    Char,
    /// A decimal digit was expected.
    Digit,
    /// The body of a quoted string was expected.
    Escaped,
    /// The end of the input was expected.
    Eof,
}

/// The failure of a parser: the input that was left at the place where it
/// stopped, and why it stopped there. The input is owned, so that the error
/// outlives the line that was read.
#[derive(Debug, Clone)]
pub struct GrammarError {
    /// What was left of the input where the parser stopped.
    pub input: String,
    /// Why the parser stopped.
    pub code: ErrorKind,
}

/// A `GrammarError` as a mathematical value.
pub struct GrammarFailure {
    pub input: Seq<char>,
    pub code: ErrorKind,
}

impl PartialEq for GrammarError {
    fn eq(&self, other: &Self) -> (r: bool) {
        self.input == other.input && self.code == other.code
    }
}

impl vstd::std_specs::cmp::PartialEqSpecImpl for GrammarError {
    open spec fn obeys_eq_spec() -> bool {
        true
    }

    open spec fn eq_spec(&self, other: &Self) -> bool {
        self@ == other@
    }
}

impl Eq for GrammarError {

}

impl View for GrammarError {
    type V = GrammarFailure;

    open spec fn view(&self) -> GrammarFailure {
        GrammarFailure { input: self.input@, code: self.code }
    }
}

/// What a parser of text returns, as a mathematical value: what is left of
/// the input and the text that was read, or the failure.
pub open spec fn text_result_view(r: Result<(&str, &str), GrammarError>) -> Result<
    (Seq<char>, Seq<char>),
    GrammarFailure,
> {
    match r {
        Ok((rest, out)) => Ok((rest@, out@)),
        Err(e) => Err(e@),
    }
}

/// What the parser of a boolean returns, as a mathematical value.
pub open spec fn bool_result_view(r: Result<(&str, bool), GrammarError>) -> Result<
    (Seq<char>, bool),
    GrammarFailure,
> {
    match r {
        Ok((rest, out)) => Ok((rest@, out)),
        Err(e) => Err(e@),
    }
}

/// The failure with reason `code` where `input` is left.
pub open spec fn failure(input: Seq<char>, code: ErrorKind) -> GrammarFailure {
    GrammarFailure { input, code }
}

/// The quote that delimits a string.
pub const QUOTE: char = '\'';

/// The backslash that escapes a quote inside a string.
pub const BACKSLASH: char = '\\';

/// How the body of a quoted string ends.
pub enum BodyEnd {
    /// At the index of the first quote that no backslash escapes.
    Closed(int),
    /// At a backslash that is the last character of the input.
    Dangling,
    /// At a backslash that something else than a quote follows; the index is
    /// that of the character after the backslash.
    BadEscape(int),
    /// Nowhere: the input ends inside the body.
    Unclosed,
}

/// Read the body of a quoted string in `s` from index `i` on: characters that
/// are neither a quote nor a backslash, and quotes escaped by a backslash.
pub open spec fn scan_body(s: Seq<char>, i: int) -> BodyEnd
    decreases s.len() - i,
{
    if i < 0 || i >= s.len() {
        BodyEnd::Unclosed
    } else if s[i] == QUOTE {
        BodyEnd::Closed(i)
    } else if s[i] == BACKSLASH {
        if i + 1 >= s.len() {
            BodyEnd::Dangling
        } else if s[i + 1] == QUOTE {
            scan_body(s, i + 2)
        } else {
            BodyEnd::BadEscape(i + 1)
        }
    } else {
        scan_body(s, i + 1)
    }
}

/// What `quoted_string` returns on `s`.
///
/// A body that cannot be read counts as an empty one, after which the
/// closing quote is missing: the failure is then reported at the start of
/// the body.
pub open spec fn quoted_string_spec(s: Seq<char>) -> Result<(Seq<char>, Seq<char>), GrammarFailure> {
    if s.len() == 0 || s[0] != QUOTE {
        Err(failure(s, ErrorKind::Tag))
    } else {
        match scan_body(s, 1) {
            BodyEnd::Closed(j) => Ok((s.skip(j + 1), s.subrange(1, j))),
            BodyEnd::Unclosed => Err(failure(Seq::empty(), ErrorKind::Tag)),
            BodyEnd::Dangling => Err(failure(s.skip(1), ErrorKind::Tag)),
            BodyEnd::BadEscape(_) => Err(failure(s.skip(1), ErrorKind::Tag)),
        }
    }
}

/// What `quoted_nonempty_string` returns on `s`.
pub open spec fn quoted_nonempty_string_spec(s: Seq<char>) -> Result<
    (Seq<char>, Seq<char>),
    GrammarFailure,
> {
    if s.len() == 0 || s[0] != QUOTE {
        Err(failure(s, ErrorKind::Tag))
    } else {
        match scan_body(s, 1) {
            BodyEnd::Closed(j) => if j == 1 {
                Err(failure(s.skip(1), ErrorKind::Escaped))
            } else {
                Ok((s.skip(j + 1), s.subrange(1, j)))
            },
            BodyEnd::Unclosed => Err(failure(Seq::empty(), ErrorKind::Tag)),
            BodyEnd::Dangling => Err(failure(s.skip(1), ErrorKind::Escaped)),
            BodyEnd::BadEscape(k) => Err(failure(s.skip(k), ErrorKind::Tag)),
        }
    }
}

/// The word `true`.
pub open spec fn true_word() -> Seq<char> {
    seq!['t', 'r', 'u', 'e']
}

/// The word `false`.
pub open spec fn false_word() -> Seq<char> {
    seq!['f', 'a', 'l', 's', 'e']
}

/// What `boolean` returns on `s`.
pub open spec fn boolean_spec(s: Seq<char>) -> Result<(Seq<char>, bool), GrammarFailure> {
    if true_word().is_prefix_of(s) {
        Ok((s.skip(4), true))
    } else if false_word().is_prefix_of(s) {
        Ok((s.skip(5), false))
    } else {
        Err(failure(s, ErrorKind::Tag))
    }
}

/// How the scan of a body ended, with indices that the machine can hold.
enum BodyStop {
    Closed(usize),
    Dangling,
    BadEscape(usize),
    Unclosed,
}

impl BodyStop {
    spec fn model(&self) -> BodyEnd {
        match self {
            BodyStop::Closed(j) => BodyEnd::Closed(*j as int),
            BodyStop::Dangling => BodyEnd::Dangling,
            BodyStop::BadEscape(k) => BodyEnd::BadEscape(*k as int),
            BodyStop::Unclosed => BodyEnd::Unclosed,
        }
    }
}

/// Where the body of a quoted string that starts at `from` ends.
fn find_body_end(chars: &[char], from: usize) -> (stop: BodyStop)
    requires
        from <= chars@.len(),
    ensures
        stop.model() == scan_body(chars@, from as int),
        stop matches BodyStop::Closed(j) ==> from <= j < chars@.len(),
        stop matches BodyStop::BadEscape(k) ==> from < k < chars@.len(),
{
    let n: usize = chars.len();
    let mut i: usize = from;
    while i < n
        invariant
            n == chars@.len(),
            from <= i <= n,
            scan_body(chars@, i as int) == scan_body(chars@, from as int),
        decreases n - i,
    {
        let c: char = chars[i];
        if c == QUOTE {
            return BodyStop::Closed(i);
        } else if c == BACKSLASH {
            if i + 1 >= n {
                return BodyStop::Dangling;
            } else if chars[i + 1] == QUOTE {
                i = i + 2;
            } else {
                return BodyStop::BadEscape(i + 1);
            }
        } else {
            i = i + 1;
        }
    }
    BodyStop::Unclosed
}

/// The failure with reason `code` where `input[from..]` is left.
fn fail_at(input: &str, from: usize, code: ErrorKind) -> (e: GrammarError)
    requires
        from <= input@.len(),
    ensures
        e@ == failure(input@.skip(from as int), code),
{
    let n: usize = input.unicode_len();
    let rest: &str = input.substring_char(from, n);
    assert(input@.subrange(from as int, n as int) =~= input@.skip(from as int));
    GrammarError { input: rest.to_owned(), code }
}

/// Read a string between single quotes, which may be empty.
///
/// The body is made of characters other than the quote and the backslash,
/// and of quotes that a backslash escapes. It is handed back as it stands,
/// with its backslashes. What follows the closing quote is left.
pub fn quoted_string(input: &str) -> (r: Result<(&str, &str), GrammarError>)
    ensures
        text_result_view(r) == quoted_string_spec(input@),
{
    let chars: Vec<char> = chars_of(input);
    let n: usize = chars.len();
    if n == 0 || chars[0] != QUOTE {
        proof {
            assert(input@.skip(0) =~= input@);
        }
        return Err(fail_at(input, 0, ErrorKind::Tag));
    }
    match find_body_end(chars.as_slice(), 1) {
        BodyStop::Closed(j) => {
            let body: &str = input.substring_char(1, j);
            let rest: &str = input.substring_char(j + 1, n);
            assert(input@.subrange(j + 1, n as int) =~= input@.skip(j + 1));
            Ok((rest, body))
        },
        BodyStop::Unclosed => {
            proof {
                assert(input@.skip(n as int) =~= Seq::<char>::empty());
            }
            Err(fail_at(input, n, ErrorKind::Tag))
        },
        BodyStop::Dangling => Err(fail_at(input, 1, ErrorKind::Tag)),
        BodyStop::BadEscape(_) => Err(fail_at(input, 1, ErrorKind::Tag)),
    }
}

/// Read a string between single quotes, which may not be empty.
///
/// The body is read as `quoted_string` reads it, but `''` is refused.
pub fn quoted_nonempty_string(input: &str) -> (r: Result<(&str, &str), GrammarError>)
    ensures
        text_result_view(r) == quoted_nonempty_string_spec(input@),
{
    let chars: Vec<char> = chars_of(input);
    let n: usize = chars.len();
    if n == 0 || chars[0] != QUOTE {
        proof {
            assert(input@.skip(0) =~= input@);
        }
        return Err(fail_at(input, 0, ErrorKind::Tag));
    }
    match find_body_end(chars.as_slice(), 1) {
        BodyStop::Closed(j) => {
            if j == 1 {
                Err(fail_at(input, 1, ErrorKind::Escaped))
            } else {
                let body: &str = input.substring_char(1, j);
                let rest: &str = input.substring_char(j + 1, n);
                assert(input@.subrange(j + 1, n as int) =~= input@.skip(j + 1));
                Ok((rest, body))
            }
        },
        BodyStop::Unclosed => {
            proof {
                assert(input@.skip(n as int) =~= Seq::<char>::empty());
            }
            Err(fail_at(input, n, ErrorKind::Tag))
        },
        BodyStop::Dangling => Err(fail_at(input, 1, ErrorKind::Escaped)),
        BodyStop::BadEscape(k) => Err(fail_at(input, k, ErrorKind::Tag)),
    }
}

/// Read a boolean: the word `true` or the word `false`, and nothing else.
pub fn boolean(input: &str) -> (r: Result<(&str, bool), GrammarError>)
    ensures
        bool_result_view(r) == boolean_spec(input@),
{
    let chars: Vec<char> = chars_of(input);
    let n: usize = chars.len();
    if n >= 4 && chars[0] == 't' && chars[1] == 'r' && chars[2] == 'u' && chars[3] == 'e' {
        assert(input@.take(4) =~= true_word());
        let rest: &str = input.substring_char(4, n);
        assert(input@.subrange(4, n as int) =~= input@.skip(4));
        Ok((rest, true))
    } else if n >= 5 && chars[0] == 'f' && chars[1] == 'a' && chars[2] == 'l' && chars[3] == 's'
        && chars[4] == 'e' {
        assert(input@.take(5) =~= false_word());
        assert(!true_word().is_prefix_of(input@)) by {
            if true_word().is_prefix_of(input@) {
                assert(input@[0] == true_word()[0]);
            }
        }
        let rest: &str = input.substring_char(5, n);
        assert(input@.subrange(5, n as int) =~= input@.skip(5));
        Ok((rest, false))
    } else {
        proof {
            if true_word().is_prefix_of(input@) {
                assert(forall|i: int| 0 <= i < 4 ==> input@[i] == true_word()[i]);
            }
            if false_word().is_prefix_of(input@) {
                assert(forall|i: int| 0 <= i < 5 ==> input@[i] == false_word()[i]);
            }
            assert(input@.skip(0) =~= input@);
        }
        Err(fail_at(input, 0, ErrorKind::Tag))
    }
}

/// A decimal digit.
pub open spec fn is_digit(c: char) -> bool {
    '0' <= c && c <= '9'
}

/// The number of decimal digits that `s` starts with.
pub open spec fn digit_run(s: Seq<char>) -> nat
    decreases s.len(),
{
    if s.len() > 0 && is_digit(s[0]) {
        1 + digit_run(s.drop_first())
    } else {
        0
    }
}

/// The text of an opaque id: the prefix of its kind, then one decimal digit
/// or more, and nothing else.
pub open spec fn is_opaque_id(prefix: char, s: Seq<char>) -> bool {
    &&& s.len() >= 2
    &&& s[0] == prefix
    &&& forall|i: int| 1 <= i < s.len() ==> is_digit(#[trigger] s[i])
}

/// What `opaque_id` returns on `s`: what is left, and the id that `s` starts
/// with, which is the prefix and all the digits that follow it.
pub open spec fn opaque_id_spec(prefix: char, s: Seq<char>) -> Result<
    (Seq<char>, Seq<char>),
    GrammarFailure,
> {
    if s.len() == 0 || s[0] != prefix {
        Err(failure(s, ErrorKind::Char))
    } else {
        let n = digit_run(s.skip(1)) as int;
        if n == 0 {
            Err(failure(s.skip(1), ErrorKind::Digit))
        } else {
            Ok((s.skip(1 + n), s.take(1 + n)))
        }
    }
}

/// What a parser that reads one opaque id and nothing else returns on `s`.
pub open spec fn whole_id_spec(prefix: char, s: Seq<char>) -> Result<Seq<char>, GrammarFailure> {
    match opaque_id_spec(prefix, s) {
        Ok((rest, id)) => if rest.len() == 0 {
            Ok(id)
        } else {
            Err(failure(rest, ErrorKind::Eof))
        },
        Err(e) => Err(e),
    }
}

/// `digit_run(s)` is the index of the first character of `s` that is not a
/// digit.
pub proof fn lemma_digit_run(s: Seq<char>, k: int)
    requires
        0 <= k <= s.len(),
        forall|j: int| 0 <= j < k ==> is_digit(#[trigger] s[j]),
        k < s.len() ==> !is_digit(s[k]),
    ensures
        digit_run(s) == k,
    decreases s.len(),
{
    if s.len() > 0 && is_digit(s[0]) {
        let t = s.drop_first();
        assert(k > 0);
        assert forall|j: int| 0 <= j < k - 1 implies is_digit(#[trigger] t[j]) by {
            assert(t[j] == s[j + 1]);
        }
        lemma_digit_run(t, k - 1);
    } else {
        if k > 0 {
            assert(is_digit(s[0]));
        }
    }
}

/// Whether the character is a decimal digit.
pub fn is_decimal_digit(c: char) -> (r: bool)
    ensures
        r == is_digit(c),
{
    '0' <= c && c <= '9'
}

/// Read an opaque id: the character `prefix`, then one decimal digit or
/// more. The id is the prefix with all the digits that follow it; what comes
/// after the digits is left.
pub fn opaque_id(prefix: char, input: &str) -> (r: Result<(&str, &str), GrammarError>)
    ensures
        text_result_view(r) == opaque_id_spec(prefix, input@),
        r matches Ok((_, id)) ==> is_opaque_id(prefix, id@),
{
    let chars: Vec<char> = chars_of(input);
    let n: usize = chars.len();
    if n == 0 || chars[0] != prefix {
        proof {
            assert(input@.skip(0) =~= input@);
        }
        return Err(fail_at(input, 0, ErrorKind::Char));
    }
    let mut end: usize = 1;
    while end < n && is_decimal_digit(chars[end])
        invariant
            n == chars@.len(),
            1 <= end <= n,
            forall|j: int| 1 <= j < end ==> is_digit(#[trigger] chars@[j]),
        decreases n - end,
    {
        end = end + 1;
    }
    proof {
        let tail = input@.skip(1);
        assert forall|j: int| 0 <= j < end - 1 implies is_digit(#[trigger] tail[j]) by {
            assert(tail[j] == chars@[j + 1]);
        }
        lemma_digit_run(tail, end - 1);
    }
    if end == 1 {
        Err(fail_at(input, 1, ErrorKind::Digit))
    } else {
        let id: &str = input.substring_char(0, end);
        let rest: &str = input.substring_char(end, n);
        assert(input@.subrange(0, end as int) =~= input@.take(end as int));
        assert(input@.subrange(end as int, n as int) =~= input@.skip(end as int));
        Ok((rest, id))
    }
}

/// Read an opaque id that is the whole input.
pub fn whole_opaque_id(prefix: char, input: &str) -> (r: Result<&str, GrammarError>)
    ensures
        match r {
            Ok(id) => whole_id_spec(prefix, input@) == Ok::<Seq<char>, GrammarFailure>(id@),
            Err(e) => whole_id_spec(prefix, input@) == Err::<Seq<char>, GrammarFailure>(e@),
        },
        r is Ok <==> is_opaque_id(prefix, input@),
        r matches Ok(id) ==> id@ == input@,
{
    proof {
        lemma_whole_id(prefix, input@);
    }
    match opaque_id(prefix, input) {
        Ok((rest, id)) => {
            if rest.is_empty() {
                Ok(id)
            } else {
                Err(GrammarError { input: rest.to_owned(), code: ErrorKind::Eof })
            }
        },
        Err(e) => Err(e),
    }
}

/// A parser that reads one opaque id and nothing else accepts the texts of
/// opaque ids and no others, and hands back the text as it stands.
pub proof fn lemma_whole_id(prefix: char, s: Seq<char>)
    ensures
        whole_id_spec(prefix, s) is Ok <==> is_opaque_id(prefix, s),
        whole_id_spec(prefix, s) is Ok ==> whole_id_spec(prefix, s) == Ok::<
            Seq<char>,
            GrammarFailure,
        >(s),
{
    if s.len() > 0 && s[0] == prefix {
        let tail = s.skip(1);
        let n = digit_run(tail) as int;
        lemma_digit_run_bounds(tail);
        if is_opaque_id(prefix, s) {
            assert forall|j: int| 0 <= j < tail.len() implies is_digit(#[trigger] tail[j]) by {
                assert(tail[j] == s[j + 1]);
            }
            lemma_digit_run(tail, tail.len() as int);
            assert(s.take(1 + n) =~= s);
        }
        if whole_id_spec(prefix, s) is Ok {
            assert(s.skip(1 + n).len() == 0);
            assert(s.take(1 + n) =~= s);
            assert forall|i: int| 1 <= i < s.len() implies is_digit(#[trigger] s[i]) by {
                assert(s[i] == tail[i - 1]);
            }
        }
    }
}

/// The digits that `s` starts with are digits, and what follows them is not.
pub proof fn lemma_digit_run_bounds(s: Seq<char>)
    ensures
        digit_run(s) <= s.len(),
        forall|j: int| 0 <= j < digit_run(s) ==> is_digit(#[trigger] s[j]),
        digit_run(s) < s.len() ==> !is_digit(s[digit_run(s) as int]),
    decreases s.len(),
{
    if s.len() > 0 && is_digit(s[0]) {
        let t = s.drop_first();
        lemma_digit_run_bounds(t);
        assert forall|j: int| 0 <= j < digit_run(s) implies is_digit(#[trigger] s[j]) by {
            if j > 0 {
                assert(s[j] == t[j - 1]);
            }
        }
        if digit_run(s) < s.len() {
            assert(s[digit_run(s) as int] == t[digit_run(t) as int]);
        }
    }
}

} // verus!
