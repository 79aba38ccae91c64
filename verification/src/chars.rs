//! Character classes of the assembly language, and the few text operations
//! of the standard library that the lexer builds on.

use vstd::prelude::*;

verus! {

/// Whether the standard library counts `c` as white space.
pub uninterp spec fn char_is_whitespace(c: char) -> bool;

/// Whether the standard library counts `c` as alphabetic.
pub uninterp spec fn char_is_alphabetic(c: char) -> bool;

/// Whether the standard library counts `c` as alphabetic or numeric.
pub uninterp spec fn char_is_alphanumeric(c: char) -> bool;

/// `char::is_whitespace` tells whether a character has the Unicode property
/// White_Space. The property is a table of the standard library: the contract
/// only gives the answer a name.
pub assume_specification[ char::is_whitespace ](c: char) -> (b: bool)
    ensures
        b == char_is_whitespace(c),
;

/// `char::is_alphabetic` tells whether a character has the Unicode property
/// Alphabetic. The contract only gives the answer a name.
pub assume_specification[ char::is_alphabetic ](c: char) -> (b: bool)
    ensures
        b == char_is_alphabetic(c),
;

/// `char::is_alphanumeric` tells whether a character is alphabetic or
/// numeric by the Unicode tables of the standard library. The contract only
/// gives the answer a name.
pub assume_specification[ char::is_alphanumeric ](c: char) -> (b: bool)
    ensures
        b == char_is_alphanumeric(c),
;

/// The text that the standard library gives as the lower case of `text`.
pub uninterp spec fn lowercase_of(text: Seq<char>) -> Seq<char>;

/// `str::to_lowercase` returns the lower case of a text as a new string,
/// following the Unicode tables of the standard library. The contract only
/// gives the result a name.
pub assume_specification[ str::to_lowercase ](s: &str) -> (r: String)
    ensures
        r@ == lowercase_of(s@),
;

/// `String::push` appends one character to the end of a string.
pub assume_specification[ String::push ](s: &mut String, c: char)
    ensures
        final(s)@ == old(s)@.push(c),
;

/// A decimal digit.
pub open spec fn is_digit(c: char) -> bool {
    '0' <= c <= '9'
}

/// A digit of base 16, in either case.
pub open spec fn is_hex_digit(c: char) -> bool {
    ('0' <= c <= '9') || ('a' <= c <= 'f') || ('A' <= c <= 'F')
}

/// A digit of base 8.
pub open spec fn is_octal_digit(c: char) -> bool {
    '0' <= c <= '7'
}

/// A digit of base 2.
pub open spec fn is_binary_digit(c: char) -> bool {
    c == '0' || c == '1'
}

/// An ASCII punctuation character: any printable ASCII character that is
/// neither a letter, nor a digit, nor the space.
pub open spec fn is_punct(c: char) -> bool {
    ('!' <= c <= '/') || (':' <= c <= '@') || ('[' <= c <= '`') || ('{' <= c <= '~')
}

/// A character that can begin an identifier.
pub open spec fn is_ident_start(c: char) -> bool {
    char_is_alphabetic(c) || c == '_'
}

/// A character that can continue an identifier: any that can begin one, and
/// the alphanumeric ones.
pub open spec fn is_ident_char(c: char) -> bool {
    is_ident_start(c) || char_is_alphanumeric(c)
}

/// Whether `c` is a digit of the given base: 2, 8, 10 or 16.
pub open spec fn is_digit_of(c: char, radix: u64) -> bool {
    if radix == 2 {
        is_binary_digit(c)
    } else if radix == 8 {
        is_octal_digit(c)
    } else if radix == 10 {
        is_digit(c)
    } else {
        is_hex_digit(c)
    }
}

/// The value of a digit of base 16 or less.
pub open spec fn digit_value(c: char) -> nat {
    if '0' <= c <= '9' {
        (c as u32 - '0' as u32) as nat
    } else if 'a' <= c <= 'f' {
        (c as u32 - 'a' as u32 + 10) as nat
    } else if 'A' <= c <= 'F' {
        (c as u32 - 'A' as u32 + 10) as nat
    } else {
        0
    }
}

/// The number that `digits` write in base `radix`, most significant first.
pub open spec fn number_of(digits: Seq<char>, radix: nat) -> nat
    decreases digits.len(),
{
    if digits.len() == 0 {
        0
    } else {
        number_of(digits.drop_last(), radix) * radix + digit_value(digits.last())
    }
}

/// Length of the longest prefix of `s` whose characters all satisfy `p`.
pub open spec fn run_len(s: Seq<char>, p: spec_fn(char) -> bool) -> nat
    decreases s.len(),
{
    if s.len() > 0 && p(s[0]) {
        1 + run_len(s.drop_first(), p)
    } else {
        0
    }
}

/// A run is a prefix, every character of it satisfies the predicate, and the
/// character after it, if any, does not.
pub proof fn lemma_run_len(s: Seq<char>, p: spec_fn(char) -> bool)
    ensures
        run_len(s, p) <= s.len(),
        forall|i: int| 0 <= i < run_len(s, p) ==> p(#[trigger] s[i]),
        run_len(s, p) < s.len() ==> !p(s[run_len(s, p) as int]),
    decreases s.len(),
{
    if s.len() > 0 && p(s[0]) {
        let tail = s.drop_first();
        lemma_run_len(tail, p);
        assert forall|i: int| 0 <= i < run_len(s, p) implies p(#[trigger] s[i]) by {
            if i > 0 {
                assert(s[i] == tail[i - 1]);
            }
        }
        if run_len(s, p) < s.len() {
            assert(s[run_len(s, p) as int] == tail[run_len(tail, p) as int]);
        }
    }
}

/// A prefix whose characters all satisfy the predicate, followed by none or by
/// one that does not, is the run.
pub proof fn lemma_run_is(s: Seq<char>, p: spec_fn(char) -> bool, n: nat)
    requires
        n <= s.len(),
        forall|i: int| 0 <= i < n ==> p(#[trigger] s[i]),
        n < s.len() ==> !p(s[n as int]),
    ensures
        run_len(s, p) == n,
    decreases s.len(),
{
    if n > 0 {
        let tail = s.drop_first();
        assert(p(s[0]));
        assert forall|i: int| 0 <= i < n - 1 implies p(#[trigger] tail[i]) by {
            assert(tail[i] == s[i + 1]);
        }
        if n - 1 < tail.len() {
            assert(tail[n - 1] == s[n as int]);
        }
        lemma_run_is(tail, p, (n - 1) as nat);
    }
}

/// Tests for a decimal digit.
pub fn is_ascii_digit(c: char) -> (b: bool)
    ensures
        b == is_digit(c),
{
    c >= '0' && c <= '9'
}

/// Tests for a digit of the given base.
pub fn is_digit_in(c: char, radix: u64) -> (b: bool)
    ensures
        b == is_digit_of(c, radix),
{
    if radix == 2 {
        c == '0' || c == '1'
    } else if radix == 8 {
        c >= '0' && c <= '7'
    } else if radix == 10 {
        c >= '0' && c <= '9'
    } else {
        (c >= '0' && c <= '9') || (c >= 'a' && c <= 'f') || (c >= 'A' && c <= 'F')
    }
}

/// Tests for an ASCII punctuation character.
pub fn is_ascii_punctuation(c: char) -> (b: bool)
    ensures
        b == is_punct(c),
{
    (c >= '!' && c <= '/') || (c >= ':' && c <= '@') || (c >= '[' && c <= '`') || (c >= '{' && c
        <= '~')
}

/// The value of a digit.
pub fn value_of_digit(c: char) -> (v: u64)
    requires
        is_hex_digit(c),
    ensures
        v == digit_value(c),
        v < 16,
{
    if c >= '0' && c <= '9' {
        (c as u32 - '0' as u32) as u64
    } else if c >= 'a' && c <= 'f' {
        (c as u32 - 'a' as u32 + 10) as u64
    } else {
        (c as u32 - 'A' as u32 + 10) as u64
    }
}

/// The characters of a text, in order.
pub fn chars_of(text: &str) -> (chars: Vec<char>)
    ensures
        chars@ == text@,
{
    let mut chars: Vec<char> = Vec::new();
    for c in it: text.chars()
        invariant
            it.seq() == text@,
            chars@ == text@.take(it.index() as int),
    {
        chars.push(c);
        assert(text@.take(it.index() + 1) =~= text@.take(it.index() as int).push(c));
    }
    assert(text@.take(text@.len() as int) =~= text@);
    chars
}

/// The text made of the given characters.
pub fn string_of(chars: &Vec<char>) -> (text: String)
    ensures
        text@ == chars@,
{
    let mut text = String::new();
    let mut i: usize = 0;
    while i < chars.len()
        invariant
            i <= chars.len(),
            text@ == chars@.take(i as int),
        decreases chars.len() - i,
    {
        text.push(chars[i]);
        assert(chars@.take(i + 1) =~= chars@.take(i as int).push(chars@[i as int]));
        i += 1;
    }
    assert(chars@.take(chars@.len() as int) =~= chars@);
    text
}

/// Whether two texts are the same.
pub fn str_eq(a: &str, b: &str) -> (r: bool)
    ensures
        r == (a@ == b@),
{
    let x = a.as_bytes();
    let y = b.as_bytes();
    proof {
        vstd::utf8::encode_utf8_decode_utf8(a@);
        vstd::utf8::encode_utf8_decode_utf8(b@);
    }
    if x.len() != y.len() {
        return false;
    }
    let mut i: usize = 0;
    while i < x.len()
        invariant
            i <= x.len(),
            x.len() == y.len(),
            x@ == vstd::utf8::encode_utf8(a@),
            y@ == vstd::utf8::encode_utf8(b@),
            forall|k: int| 0 <= k < i ==> x@[k] == y@[k],
        decreases x.len() - i,
    {
        if x[i] != y[i] {
            return false;
        }
        i += 1;
    }
    assert(x@ =~= y@);
    true
}

} // verus!
