//! Helpers that read a string character by character.

use vstd::prelude::*;

verus! {

/// The characters of `s`, in a vector that can be indexed in constant time.
pub fn chars_of(s: &str) -> (chars: Vec<char>)
    ensures
        chars@ == s@,
{
    let mut chars: Vec<char> = Vec::new();
    for c in it: s.chars()
        invariant
            it.seq() == s@,
            chars@ == it.seq().take(it.index() as int),
    {
        chars.push(c);
    }
    chars
}

/// A character that Unicode counts as white space (`White_Space`).
pub open spec fn is_space(c: char) -> bool {
    let u = c as u32;
    ||| 0x09 <= u <= 0x0d
    ||| u == 0x20
    ||| u == 0x85
    ||| u == 0xa0
    ||| u == 0x1680
    ||| 0x2000 <= u <= 0x200a
    ||| u == 0x2028
    ||| u == 0x2029
    ||| u == 0x202f
    ||| u == 0x205f
    ||| u == 0x3000
}

/// Whether Unicode counts the character as white space (`White_Space`).
pub fn is_space_char(c: char) -> (r: bool)
    ensures
        r == is_space(c),
{
    let u: u32 = c as u32;
    (0x09 <= u && u <= 0x0d) || u == 0x20 || u == 0x85 || u == 0xa0 || u == 0x1680 || (0x2000
        <= u && u <= 0x200a) || u == 0x2028 || u == 0x2029 || u == 0x202f || u == 0x205f || u
        == 0x3000
}

/// `s` without its longest suffix of white space.
pub open spec fn trim_end_spec(s: Seq<char>) -> Seq<char>
    decreases s.len(),
{
    if s.len() > 0 && is_space(s.last()) {
        trim_end_spec(s.drop_last())
    } else {
        s
    }
}

/// `s` without its longest prefix of white space.
pub open spec fn trim_start_spec(s: Seq<char>) -> Seq<char>
    decreases s.len(),
{
    if s.len() > 0 && is_space(s.first()) {
        trim_start_spec(s.drop_first())
    } else {
        s
    }
}

/// A prefix of `s` that does not end in white space and is followed by
/// white space only is `trim_end_spec(s)`.
pub proof fn lemma_trim_end_unique(s: Seq<char>, k: int)
    requires
        0 <= k <= s.len(),
        k > 0 ==> !is_space(s[k - 1]),
        forall|i: int| k <= i < s.len() ==> is_space(#[trigger] s[i]),
    ensures
        trim_end_spec(s) == s.take(k),
    decreases s.len(),
{
    if s.len() > 0 && is_space(s.last()) {
        let t = s.drop_last();
        assert(k < s.len());
        lemma_trim_end_unique(t, k);
        assert(t.take(k) =~= s.take(k));
    } else {
        assert(k == s.len());
        assert(s.take(k) =~= s);
    }
}

/// A suffix of `s` that does not start with white space and is preceded by
/// white space only is `trim_start_spec(s)`.
pub proof fn lemma_trim_start_unique(s: Seq<char>, k: int)
    requires
        0 <= k <= s.len(),
        k < s.len() ==> !is_space(s[k]),
        forall|i: int| 0 <= i < k ==> is_space(#[trigger] s[i]),
    ensures
        trim_start_spec(s) == s.skip(k),
    decreases s.len(),
{
    if s.len() > 0 && is_space(s.first()) {
        let t = s.drop_first();
        assert(k > 0);
        assert forall|i: int| 0 <= i < k - 1 implies is_space(#[trigger] t[i]) by {
            assert(t[i] == s[i + 1]);
        }
        lemma_trim_start_unique(t, k - 1);
        assert(t.skip(k - 1) =~= s.skip(k));
    } else {
        assert(k == 0);
        assert(s.skip(0) =~= s);
    }
}

/// The text without the white space at its end.
pub fn trim_end(s: &str) -> (r: &str)
    ensures
        r@ == trim_end_spec(s@),
{
    let chars: Vec<char> = chars_of(s);
    let mut k: usize = chars.len();
    while k > 0 && is_space_char(chars[k - 1])
        invariant
            k <= chars@.len(),
            forall|i: int| k <= i < chars@.len() ==> is_space(#[trigger] chars@[i]),
        decreases k,
    {
        k = k - 1;
    }
    proof {
        lemma_trim_end_unique(s@, k as int);
        assert(s@.subrange(0, k as int) =~= s@.take(k as int));
    }
    s.substring_char(0, k)
}

/// The text without the white space at its start.
pub fn trim_start(s: &str) -> (r: &str)
    ensures
        r@ == trim_start_spec(s@),
{
    let chars: Vec<char> = chars_of(s);
    let n: usize = chars.len();
    let mut k: usize = 0;
    while k < n && is_space_char(chars[k])
        invariant
            n == chars@.len(),
            k <= n,
            forall|i: int| 0 <= i < k ==> is_space(#[trigger] chars@[i]),
        decreases n - k,
    {
        k = k + 1;
    }
    proof {
        lemma_trim_start_unique(s@, k as int);
        assert(s@.subrange(k as int, n as int) =~= s@.skip(k as int));
    }
    s.substring_char(k, n)
}

/// Whether two texts are made of the same characters.
pub fn same_text(a: &str, b: &str) -> (r: bool)
    ensures
        r == (a@ == b@),
{
    let x: Vec<char> = chars_of(a);
    let y: Vec<char> = chars_of(b);
    if x.len() != y.len() {
        return false;
    }
    let mut i: usize = 0;
    while i < x.len()
        invariant
            x@ == a@,
            y@ == b@,
            x@.len() == y@.len(),
            i <= x@.len(),
            forall|j: int| 0 <= j < i ==> x@[j] == y@[j],
        decreases x@.len() - i,
    {
        if x[i] != y[i] {
            return false;
        }
        i = i + 1;
    }
    assert(x@ =~= y@);
    true
}

/// `s` ends with the characters of `suffix`.
pub open spec fn ends_with_spec(s: Seq<char>, suffix: Seq<char>) -> bool {
    suffix.len() <= s.len() && s.skip(s.len() - suffix.len()) == suffix
}

/// Whether `s` ends with the characters of `suffix`.
pub fn ends_with(s: &str, suffix: &str) -> (r: bool)
    ensures
        r == ends_with_spec(s@, suffix@),
{
    let x: Vec<char> = chars_of(s);
    let y: Vec<char> = chars_of(suffix);
    if y.len() > x.len() {
        return false;
    }
    let shift: usize = x.len() - y.len();
    let mut i: usize = 0;
    while i < y.len()
        invariant
            x@ == s@,
            y@ == suffix@,
            shift + y@.len() == x@.len() <= usize::MAX,
            i <= y@.len(),
            forall|j: int| 0 <= j < i ==> x@[shift + j] == y@[j],
        decreases y@.len() - i,
    {
        if x[shift + i] != y[i] {
            assert(x@.skip(shift as int)[i as int] != y@[i as int]);
            return false;
        }
        i = i + 1;
    }
    assert(x@.skip(shift as int) =~= y@);
    true
}

/// `String::from_utf8` succeeds on the byte strings that are UTF-8 and on no
/// others, and hands back the text that the bytes encode.
pub assume_specification[ String::from_utf8 ](bytes: Vec<u8>) -> (r: Result<
    String,
    std::string::FromUtf8Error,
>)
    ensures
        r is Ok <==> vstd::utf8::valid_utf8(bytes@),
        r matches Ok(text) ==> text@ == vstd::utf8::decode_utf8(bytes@),
;

} // verus!
