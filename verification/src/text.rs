//! Characters and strings: the small vocabulary that the rest of the library
//! is stated in, and the text operations shared by several modules.

use vstd::prelude::*;
use vstd::string::*;

verus! {

/// The characters with the Unicode `White_Space` property.
pub open spec fn is_white_space(c: char) -> bool {
    let n = c as u32;
    ||| 0x9 <= n <= 0xD
    ||| n == 0x20
    ||| n == 0x85
    ||| n == 0xA0
    ||| n == 0x1680
    ||| 0x2000 <= n <= 0x200A
    ||| n == 0x2028
    ||| n == 0x2029
    ||| n == 0x202F
    ||| n == 0x205F
    ||| n == 0x3000
}

/// `s` without its leading white space.
pub open spec fn trim_front(s: Seq<char>) -> Seq<char>
    decreases s.len(),
{
    if s.len() > 0 && is_white_space(s.first()) {
        trim_front(s.drop_first())
    } else {
        s
    }
}

/// `s` without its trailing white space.
pub open spec fn trim_back(s: Seq<char>) -> Seq<char>
    decreases s.len(),
{
    if s.len() > 0 && is_white_space(s.last()) {
        trim_back(s.drop_last())
    } else {
        s
    }
}

/// `s` without the white space at both ends.
pub open spec fn trimmed(s: Seq<char>) -> Seq<char> {
    trim_back(trim_front(s))
}

/// The first `max` elements of `s`, or all of `s` where it is shorter.
pub open spec fn at_most<T>(s: Seq<T>, max: nat) -> Seq<T> {
    if s.len() <= max {
        s
    } else {
        s.take(max as int)
    }
}

/// The ASCII letters and digits.
pub open spec fn is_alphanumeric(c: char) -> bool {
    'a' <= c <= 'z' || 'A' <= c <= 'Z' || '0' <= c <= '9'
}

/// `c` with an ASCII capital turned into the small letter.
pub open spec fn ascii_lower(c: char) -> char {
    if 'A' <= c <= 'Z' {
        (c as u32 + 32) as u32 as char
    } else {
        c
    }
}

/// `c` with an ASCII small letter turned into the capital.
pub open spec fn ascii_upper(c: char) -> char {
    if 'a' <= c <= 'z' {
        (c as u32 - 32) as u32 as char
    } else {
        c
    }
}

/// `s` with every ASCII capital turned into the small letter.
pub open spec fn lowercase(s: Seq<char>) -> Seq<char> {
    s.map_values(|c: char| ascii_lower(c))
}

/// `s` and `t` differ at most in the case of ASCII letters.
pub open spec fn same_ignoring_case(s: Seq<char>, t: Seq<char>) -> bool {
    lowercase(s) == lowercase(t)
}

/// The control characters: general category `Cc`.
pub open spec fn is_control_char(c: char) -> bool {
    c as u32 <= 0x1F || 0x7F <= c as u32 <= 0x9F
}

/// The number of characters of `s` before the first `c`, or all of them.
pub open spec fn position(s: Seq<char>, c: char) -> nat
    decreases s.len(),
{
    if s.len() == 0 || s.first() == c {
        0
    } else {
        1 + position(s.drop_first(), c)
    }
}

/// A decimal digit.
pub open spec fn is_digit(c: char) -> bool {
    '0' <= c <= '9'
}

/// One digit or more, and nothing else.
pub open spec fn all_digits(s: Seq<char>) -> bool {
    s.len() > 0 && forall|i: int| 0 <= i < s.len() ==> is_digit(#[trigger] s[i])
}

/// The number that the digits `s` write in base ten.
pub open spec fn digits_value(s: Seq<char>) -> int
    decreases s.len(),
{
    if s.len() == 0 {
        0
    } else {
        10 * digits_value(s.drop_last()) + (s.last() as int - '0' as int)
    }
}

/// The number that `s` writes with an optional `+`.
pub open spec fn unsigned_number(s: Seq<char>) -> Option<int> {
    if s.len() > 0 && s.first() == '+' {
        if all_digits(s.drop_first()) {
            Some(digits_value(s.drop_first()))
        } else {
            None
        }
    } else if all_digits(s) {
        Some(digits_value(s))
    } else {
        None
    }
}

/// The number that `s` writes with an optional `+` or `-`.
pub open spec fn signed_number(s: Seq<char>) -> Option<int> {
    if s.len() > 0 && s.first() == '-' {
        if all_digits(s.drop_first()) {
            Some(-digits_value(s.drop_first()))
        } else {
            None
        }
    } else {
        unsigned_number(s)
    }
}

/// The base ten digits of `n`.
pub open spec fn digits_of(n: nat) -> Seq<char>
    decreases n,
{
    let last = ('0' as u32 + n % 10) as u32 as char;
    if n < 10 {
        seq![last]
    } else {
        digits_of(n / 10).push(last)
    }
}

/// The base ten notation of `n`, with `-` before a negative number.
pub open spec fn decimal(n: int) -> Seq<char> {
    if n < 0 {
        seq!['-'] + digits_of((-n) as nat)
    } else {
        digits_of(n as nat)
    }
}

/// `part` occurs in `s`.
pub open spec fn occurs_in(part: Seq<char>, s: Seq<char>) -> bool {
    exists|i: int|
        0 <= i <= s.len() - part.len() && #[trigger] s.subrange(i, i + part.len()) == part
}

/// What `str::to_uppercase` returns: the Unicode upper case of the text.
pub uninterp spec fn uppercase(s: Seq<char>) -> Seq<char>;

/// `str::trim`: what is left has no white space at either end, and white space
/// is the Unicode `White_Space` property.
pub assume_specification[ str::trim ](s: &str) -> (r: &str)
    ensures
        r@ == trimmed(s@),
;

/// `str::eq_ignore_ascii_case`: the texts are equal once ASCII letters are
/// brought to one case; other characters are compared as they are.
pub assume_specification[ str::eq_ignore_ascii_case ](a: &str, b: &str) -> (r: bool)
    ensures
        r == same_ignoring_case(a@, b@),
;

/// `str::to_ascii_lowercase`: ASCII capitals become small letters, nothing
/// else changes.
pub assume_specification[ str::to_ascii_lowercase ](s: &str) -> (r: String)
    ensures
        r@ == lowercase(s@),
;

/// `str::to_uppercase`: the Unicode upper case, which on a text of ASCII
/// letters and digits turns small letters into capitals and keeps the rest.
pub assume_specification[ str::to_uppercase ](s: &str) -> (r: String)
    ensures
        r@ == uppercase(s@),
        (forall|i: int| 0 <= i < s@.len() ==> is_alphanumeric(#[trigger] s@[i])) ==> r@
            == s@.map_values(|c: char| ascii_upper(c)),
;

/// `str`'s `==`: the same characters in the same order.
pub assume_specification[ <str as PartialEq>::eq ](a: &str, b: &str) -> (r: bool)
    ensures
        r == (a@ == b@),
;

/// `String::push`: the character goes to the end.
pub assume_specification[ String::push ](s: &mut String, c: char)
    ensures
        final(s)@ == old(s)@.push(c),
;

/// `char::is_control`: general category `Cc`.
pub assume_specification[ char::is_control ](c: char) -> (r: bool)
    ensures
        r == is_control_char(c),
;

/// `str::strip_prefix`: what follows `prefix`, or `None` where the text does
/// not start with it.
#[verifier::external_body]
pub(crate) fn strip_prefix<'a>(text: &'a str, prefix: &str) -> (r: Option<&'a str>)
    ensures
        match r {
            Some(rest) => text@ == prefix@ + rest@,
            None => !prefix@.is_prefix_of(text@),
        },
{
    text.strip_prefix(prefix)
}

/// `str::split_once` on a character: what stands before and after its first
/// occurrence, or `None` where it does not occur.
#[verifier::external_body]
pub(crate) fn split_once<'a>(text: &'a str, delimiter: char) -> (r: Option<(&'a str, &'a str)>)
    ensures
        match r {
            Some((before, after)) => text@ == before@.push(delimiter) + after@
                && !before@.contains(delimiter),
            None => !text@.contains(delimiter),
        },
{
    text.split_once(delimiter)
}

/// `str::contains` on a text: whether `part` occurs in it.
#[verifier::external_body]
pub(crate) fn contains_text(text: &str, part: &str) -> (r: bool)
    ensures
        r == occurs_in(part@, text@),
{
    text.contains(part)
}

/// `str::parse::<i64>`: an optional sign and one digit or more, in range.
#[verifier::external_body]
pub(crate) fn parse_i64(s: &str) -> (r: Option<i64>)
    ensures
        match r {
            Some(n) => signed_number(s@) == Some(n as int),
            None => signed_number(s@) matches Some(n) ==> n < i64::MIN || n > i64::MAX,
        },
{
    s.parse::<i64>().ok()
}

/// `str::parse::<u16>`: an optional `+` and one digit or more, in range.
#[verifier::external_body]
pub(crate) fn parse_u16(s: &str) -> (r: Option<u16>)
    ensures
        match r {
            Some(n) => unsigned_number(s@) == Some(n as int),
            None => unsigned_number(s@) matches Some(n) ==> n > u16::MAX,
        },
{
    s.parse::<u16>().ok()
}

/// Whether two texts are equal.
pub fn same_text(a: &str, b: &str) -> (r: bool)
    ensures
        r == (a@ == b@),
{
    *a == *b
}

/// The text of an optional string, the empty text where there is none.
pub fn text_or_empty(value: &Option<String>) -> (r: &str)
    ensures
        r@ == optional_text(*value),
{
    match value {
        Some(text) => text.as_str(),
        None => {
            proof {
                reveal_strlit("");
                assert(""@ =~= Seq::<char>::empty());
            }
            ""
        },
    }
}

/// The characters of an optional string, none where there is no string.
pub open spec fn optional_text(value: Option<String>) -> Seq<char> {
    match value {
        Some(text) => text@,
        None => Seq::empty(),
    }
}

/// The text without white space at its ends, cut after `max` characters.
pub fn clean(value: &str, max: usize) -> (r: String)
    ensures
        r@ == at_most(trimmed(value@), max as nat),
{
    let text: &str = value.trim();
    let length: usize = text.unicode_len();
    if length <= max {
        text.to_owned()
    } else {
        text.substring_char(0, max).to_owned()
    }
}

/// A user name that can be stored: not empty, and free of control characters.
pub fn valid_username(username: &str) -> (r: bool)
    ensures
        r == (username@.len() > 0 && forall|i: int|
            0 <= i < username@.len() ==> !is_control_char(#[trigger] username@[i])),
{
    if username.is_empty() {
        return false;
    }
    for c in it: username.chars()
        invariant
            it.seq() == username@,
            forall|i: int| 0 <= i < it.index() ==> !is_control_char(#[trigger] username@[i]),
    {
        if c.is_control() {
            assert(is_control_char(username@[it.index() as int]));
            return false;
        }
    }
    true
}

/// Whether two texts are equal, found out by a pass over every byte of both
/// wherever their lengths agree.
pub fn constant_time_eq(left: &str, right: &str) -> (r: bool)
    ensures
        r == (left@ == right@),
{
    let a: &[u8] = left.as_bytes();
    let b: &[u8] = right.as_bytes();
    proof {
        vstd::utf8::encode_utf8_decode_utf8(left@);
        vstd::utf8::encode_utf8_decode_utf8(right@);
    }
    if a.len() != b.len() {
        return false;
    }
    let mut diff: u8 = 0;
    for i in 0..a.len()
        invariant
            a@.len() == b@.len(),
            diff == 0 <==> forall|j: int| 0 <= j < i ==> #[trigger] a@[j] == b@[j],
    {
        let x: u8 = a[i];
        let y: u8 = b[i];
        assert((diff | (x ^ y)) == 0 <==> diff == 0 && x == y) by (bit_vector);
        diff = diff | (x ^ y);
    }
    assert(diff == 0 <==> a@ =~= b@);
    diff == 0
}

/// Appends the base ten notation of `n`.
pub fn push_decimal(out: &mut String, n: i64)
    ensures
        final(out)@ == old(out)@ + decimal(n as int),
{
    if n < 0 {
        out.push('-');
        let magnitude: u64 = (-(n + 1)) as u64 + 1;
        push_digits(out, magnitude);
        assert(out@ =~= old(out)@ + decimal(n as int));
    } else {
        push_digits(out, n as u64);
    }
}

fn push_digits(out: &mut String, n: u64)
    ensures
        final(out)@ == old(out)@ + digits_of(n as nat),
    decreases n,
{
    let last: char = (48 + (n % 10) as u8) as char;
    if n >= 10 {
        push_digits(out, n / 10);
    }
    out.push(last);
    assert(out@ =~= old(out)@ + digits_of(n as nat));
}

proof fn lemma_trim_front(s: Seq<char>)
    ensures
        trim_front(s).len() > 0 ==> !is_white_space(trim_front(s).first()),
    decreases s.len(),
{
    if s.len() > 0 && is_white_space(s.first()) {
        lemma_trim_front(s.drop_first());
    }
}

proof fn lemma_trim_back(s: Seq<char>)
    ensures
        trim_back(s).len() > 0 ==> !is_white_space(trim_back(s).last()),
        trim_back(s).is_prefix_of(s),
    decreases s.len(),
{
    if s.len() > 0 && is_white_space(s.last()) {
        lemma_trim_back(s.drop_last());
        assert(trim_back(s).is_prefix_of(s));
    }
}

/// A text without white space at its ends is left as it is.
pub proof fn lemma_trimmed_again(s: Seq<char>)
    ensures
        trimmed(trimmed(s)) == trimmed(s),
{
    lemma_trim_front(s);
    lemma_trim_back(trim_front(s));
    let t = trimmed(s);
    if t.len() > 0 {
        assert(t.first() == trim_front(s).first());
    }
}

proof fn lemma_digits(n: nat)
    ensures
        all_digits(digits_of(n)),
        digits_value(digits_of(n)) == n,
        digits_of(n).first() == '0' ==> n == 0,
    decreases n,
{
    let last = ('0' as u32 + n % 10) as u32 as char;
    assert(is_digit(last));
    assert(last as int - '0' as int == n % 10);
    if n < 10 {
        assert(digits_of(n).drop_last() =~= Seq::empty());
        assert(digits_value(digits_of(n).drop_last()) == 0);
    } else {
        lemma_digits(n / 10);
        let front = digits_of(n / 10);
        assert(digits_of(n).drop_last() =~= front);
        assert(digits_of(n).first() == front.first());
    }
}

/// A number is read back from its notation, which has no zero in front of it.
pub proof fn law_decimal_reads_back(n: int)
    ensures
        signed_number(decimal(n)) == Some(n),
        decimal(n).first() == '0' ==> n == 0,
        n >= 0 ==> unsigned_number(decimal(n)) == Some(n),
{
    if n < 0 {
        lemma_digits((-n) as nat);
        assert(decimal(n).drop_first() =~= digits_of((-n) as nat));
    } else {
        lemma_digits(n as nat);
        assert(is_digit(digits_of(n as nat)[0]));
    }
}

/// A cut takes off nothing but what is too much, from the end.
pub proof fn law_cuts<T>(s: Seq<T>, max: nat)
    ensures
        at_most(s, max).is_prefix_of(s),
        s.len() <= max ==> at_most(s, max).len() == s.len(),
        s.len() > max ==> at_most(s, max).len() == max,
{
}

proof fn lemma_trim_front_cut(s: Seq<char>) -> (i: int)
    ensures
        0 <= i <= s.len(),
        trim_front(s) == s.skip(i),
        forall|k: int| 0 <= k < i ==> is_white_space(#[trigger] s[k]),
    decreases s.len(),
{
    if s.len() > 0 && is_white_space(s.first()) {
        let rest = s.drop_first();
        let i = lemma_trim_front_cut(rest) + 1;
        assert(rest.skip(i - 1) =~= s.skip(i));
        assert forall|k: int| 0 <= k < i implies is_white_space(#[trigger] s[k]) by {
            if k > 0 {
                assert(is_white_space(rest[k - 1]));
            }
        }
        i
    } else {
        assert(s.skip(0) =~= s);
        0
    }
}

proof fn lemma_trim_back_cut(s: Seq<char>) -> (j: int)
    ensures
        0 <= j <= s.len(),
        trim_back(s) == s.take(j),
        forall|k: int| j <= k < s.len() ==> is_white_space(#[trigger] s[k]),
    decreases s.len(),
{
    if s.len() > 0 && is_white_space(s.last()) {
        let front = s.drop_last();
        let j = lemma_trim_back_cut(front);
        assert(front.take(j) =~= s.take(j));
        assert forall|k: int| j <= k < s.len() implies is_white_space(#[trigger] s[k]) by {
            if k < front.len() {
                assert(is_white_space(front[k]));
            }
        }
        j
    } else {
        assert(s.take(s.len() as int) =~= s);
        s.len() as int
    }
}

/// What is left of a trimmed text is a stretch of it, unchanged: only white space
/// stands before and behind it, and none at its own ends.
pub proof fn law_trimming_keeps_the_rest(s: Seq<char>)
    ensures
        exists|i: int, j: int|
            #![trigger s.subrange(i, j)]
            {
                &&& 0 <= i <= j <= s.len()
                &&& trimmed(s) == s.subrange(i, j)
                &&& forall|k: int| 0 <= k < i ==> is_white_space(#[trigger] s[k])
                &&& forall|k: int| j <= k < s.len() ==> is_white_space(#[trigger] s[k])
            },
        trimmed(s).len() > 0 ==> !is_white_space(trimmed(s).first()) && !is_white_space(
            trimmed(s).last(),
        ),
{
    lemma_trim_front(s);
    lemma_trim_back(trim_front(s));
    let i = lemma_trim_front_cut(s);
    let rest = trim_front(s);
    let n = lemma_trim_back_cut(rest);
    let j = i + n;
    assert(trimmed(s) =~= s.subrange(i, j));
    assert forall|k: int| j <= k < s.len() implies is_white_space(#[trigger] s[k]) by {
        assert(is_white_space(rest[k - i]));
    }
    if trimmed(s).len() > 0 {
        assert(trimmed(s).first() == rest.first());
    }
}

/// No text and an empty text are the same, and any other text is itself.
pub proof fn law_optional_texts(text: String)
    ensures
        optional_text(None) == Seq::<char>::empty(),
        optional_text(Some(text)) == text@,
{
}

} // verus!
