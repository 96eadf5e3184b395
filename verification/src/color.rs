//! Hex colours: which strings are colours, and their `#`-prefixed form.

use vstd::prelude::*;
use crate::error::{Error, ErrorView};
use crate::text::{str_chars, string_from_chars};

verus! {

/// `c` is an ASCII hex digit, as `char::is_ascii_hexdigit` answers.
pub open spec fn is_hex_digit(c: char) -> bool {
    ('0' <= c <= '9') || ('a' <= c <= 'f') || ('A' <= c <= 'F')
}

/// `s` without its leading `#`s, as `str::trim_start_matches('#')` gives it.
pub open spec fn strip_hashes(s: Seq<char>) -> Seq<char>
    decreases s.len(),
{
    if s.len() > 0 && s[0] == '#' {
        strip_hashes(s.drop_first())
    } else {
        s
    }
}

/// `c` is a colour: six hex digits after any number of leading `#`s.
pub open spec fn valid_hex(c: Seq<char>) -> bool {
    let s = strip_hashes(c);
    s.len() == 6 && forall|i: int| 0 <= i < 6 ==> is_hex_digit(#[trigger] s[i])
}

/// `c` with a `#` in front unless it already starts with one.
pub open spec fn normalized(c: Seq<char>) -> Seq<char> {
    if c.len() > 0 && c[0] == '#' {
        c
    } else {
        seq!['#'] + c
    }
}

fn is_hex_digit_exec(c: char) -> (r: bool)
    ensures
        r == is_hex_digit(c),
{
    ('0' <= c && c <= '9') || ('a' <= c && c <= 'f') || ('A' <= c && c <= 'F')
}

/// Whether `c` is a colour.
pub fn is_valid_hex(c: &str) -> (r: bool)
    ensures
        r == valid_hex(c@),
{
    let cs = str_chars(c);
    let n = cs.len();
    let mut start: usize = 0;
    assert(cs@.subrange(0, n as int) =~= cs@);
    while start < n && cs[start] == '#'
        invariant
            n == cs@.len(),
            start <= n,
            strip_hashes(cs@) == strip_hashes(cs@.subrange(start as int, n as int)),
        decreases n - start,
    {
        assert(cs@.subrange(start as int, n as int).drop_first() =~= cs@.subrange(
            start + 1,
            n as int,
        ));
        start = start + 1;
    }
    let ghost s = cs@.subrange(start as int, n as int);
    assert(strip_hashes(cs@) == s);
    if n - start != 6 {
        return false;
    }
    let mut i: usize = start;
    while i < n
        invariant
            n == cs@.len(),
            start <= i <= n,
            n - start == 6,
            cs@ == c@,
            strip_hashes(c@) == s,
            s == cs@.subrange(start as int, n as int),
            forall|j: int| 0 <= j < i - start ==> is_hex_digit(#[trigger] s[j]),
        decreases n - i,
    {
        if !is_hex_digit_exec(cs[i]) {
            assert(s[i - start] == cs@[i as int]);
            return false;
        }
        assert(s[i - start] == cs@[i as int]);
        i = i + 1;
    }
    true
}

/// Accepts `c` when it is a colour; refuses it with `InvalidHex` otherwise.
pub fn validate_hex(c: &str) -> (r: Result<(), Error>)
    ensures
        r is Ok <==> valid_hex(c@),
        r matches Err(e) ==> e@ == ErrorView::InvalidHex(c@),
{
    if is_valid_hex(c) {
        Ok(())
    } else {
        Err(Error::InvalidHex(string_from_chars(str_chars(c).as_slice())))
    }
}

/// `c` with a `#` in front unless it already starts with one.
pub fn normalize_color(c: &str) -> (r: String)
    ensures
        r@ == normalized(c@),
{
    let cs = str_chars(c);
    if cs.len() > 0 && cs[0] == '#' {
        string_from_chars(cs.as_slice())
    } else {
        let mut out: Vec<char> = Vec::new();
        out.push('#');
        crate::text::append_chars(&mut out, cs.as_slice());
        assert(out@ =~= seq!['#'] + c@);
        string_from_chars(out.as_slice())
    }
}

/// Normalizing keeps a colour a colour.
pub proof fn lemma_normalized_valid(c: Seq<char>)
    requires
        valid_hex(c),
    ensures
        valid_hex(normalized(c)),
        strip_hashes(normalized(c)) == strip_hashes(c),
{
    if !(c.len() > 0 && c[0] == '#') {
        assert((seq!['#'] + c).drop_first() =~= c);
    }
}

/// Normalizing twice is normalizing once.
pub proof fn law_normalize_color_idempotent(c: Seq<char>)
    ensures
        normalized(normalized(c)) == normalized(c),
{
    if !(c.len() > 0 && c[0] == '#') {
        assert((seq!['#'] + c)[0] == '#');
    }
}

/// Stripping leading `#`s drops a prefix of `#`s.
pub proof fn lemma_strip_hashes(s: Seq<char>) -> (k: int)
    ensures
        0 <= k <= s.len(),
        strip_hashes(s) == s.skip(k),
        forall|i: int| 0 <= i < k ==> s[i] == '#',
    decreases s.len(),
{
    if s.len() > 0 && s[0] == '#' {
        let k1 = lemma_strip_hashes(s.drop_first());
        assert(s.drop_first().skip(k1) =~= s.skip(k1 + 1));
        assert forall|i: int| 0 <= i < k1 + 1 implies s[i] == '#' by {
            if i > 0 {
                assert(s[i] == s.drop_first()[i - 1]);
            }
        }
        k1 + 1
    } else {
        assert(s.skip(0) =~= s);
        0
    }
}

/// A character of a colour: `#` or an ASCII hex digit.
pub open spec fn is_color_char(c: char) -> bool {
    c == '#' || is_hex_digit(c)
}

/// A colour, and its normalized form, are made of `#`s and hex digits; the
/// normalized form starts with `#` and is at least seven characters long.
pub proof fn lemma_valid_hex_chars(c: Seq<char>)
    requires
        valid_hex(c),
    ensures
        forall|i: int| 0 <= i < c.len() ==> is_color_char(#[trigger] c[i]),
        forall|i: int| 0 <= i < normalized(c).len() ==> is_color_char(#[trigger] normalized(c)[i]),
        normalized(c).len() >= 7,
        normalized(c)[0] == '#',
{
    let k = lemma_strip_hashes(c);
    let s = strip_hashes(c);
    assert forall|i: int| 0 <= i < c.len() implies is_color_char(#[trigger] c[i]) by {
        if i >= k {
            assert(c[i] == s[i - k]);
        }
    }
    let n = normalized(c);
    assert(c.len() == k + 6);
    if c.len() > 0 && c[0] == '#' && k == 0 {
        assert(s[0] == c[0]);
        assert(is_hex_digit(s[0]));
    }
    if !(c.len() > 0 && c[0] == '#') {
        assert forall|i: int| 0 <= i < n.len() implies is_color_char(#[trigger] n[i]) by {
            if i > 0 {
                assert(n[i] == c[i - 1]);
            }
        }
    }
}

} // verus!
