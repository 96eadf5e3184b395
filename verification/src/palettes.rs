//! The built-in palettes, how a name finds one, and how they are listed.

use vstd::prelude::*;
use crate::palette_data::palette_table;
use crate::text::{
    append_chars, append_str, ascii_lower, chars_eq, is_white_space, is_whitespace, join,
    str_chars, string_from_chars,
};

verus! {

/// A named palette: its colours and the backgrounds that suit it.
pub struct BuiltinPalette {
    pub name: &'static str,
    pub aliases: Vec<&'static str>,
    pub colors: Vec<&'static str>,
    pub backgrounds: Vec<&'static str>,
}

/// The model of a palette: its strings as character sequences.
pub struct PaletteView {
    pub name: Seq<char>,
    pub aliases: Seq<Seq<char>>,
    pub colors: Seq<Seq<char>>,
    pub backgrounds: Seq<Seq<char>>,
}

/// The character sequences of a list of strings.
pub open spec fn strs_view(v: Seq<&'static str>) -> Seq<Seq<char>> {
    v.map_values(|s: &'static str| s@)
}

impl View for BuiltinPalette {
    type V = PaletteView;

    open spec fn view(&self) -> PaletteView {
        PaletteView {
            name: self.name@,
            aliases: strs_view(self.aliases@),
            colors: strs_view(self.colors@),
            backgrounds: strs_view(self.backgrounds@),
        }
    }
}

// ---------------------------------------------------------------------------
// Name keys
// ---------------------------------------------------------------------------

/// What `char::to_lowercase` yields for `c` (the Unicode lower-case mapping).
pub uninterp spec fn lowercase_of(c: char) -> Seq<char>;

/// The lower case of `c`: for ASCII, `A`..`Z` become `a`..`z` and every other
/// character stays; beyond ASCII, the Unicode mapping `lowercase_of`.
pub open spec fn char_lower(c: char) -> Seq<char> {
    if (c as u32) < 128 {
        seq![ascii_lower(c)]
    } else {
        lowercase_of(c)
    }
}

/// `char::to_lowercase`, collected. The contract claims the ASCII part of the
/// Unicode lower-case mapping (`A`..`Z` to `a`..`z`, every other ASCII character
/// to itself) and names the rest `lowercase_of`, saying nothing of its content.
#[verifier::external_body]
fn char_lowercase(c: char) -> (r: Vec<char>)
    ensures
        (c as u32) < 128 ==> r@ == seq![ascii_lower(c)],
        (c as u32) >= 128 ==> r@ == lowercase_of(c),
{
    c.to_lowercase().collect()
}

/// `c` is ASCII punctuation, as `char::is_ascii_punctuation` answers:
/// one of ``!"#$%&'()*+,-./:;<=>?@[\]^_`{|}~``.
pub open spec fn is_ascii_punct(c: char) -> bool {
    (33 <= (c as u32) <= 47) || (58 <= (c as u32) <= 64) || (91 <= (c as u32) <= 96) || (123
        <= (c as u32) <= 126)
}

/// Whether `c` is ASCII punctuation.
pub fn is_ascii_punctuation(c: char) -> (r: bool)
    ensures
        r == is_ascii_punct(c),
{
    let u = c as u32;
    (33 <= u && u <= 47) || (58 <= u && u <= 64) || (91 <= u && u <= 96) || (123 <= u && u
        <= 126)
}

/// A character that survives into a name key: neither white space nor ASCII
/// punctuation.
pub open spec fn key_keeps(c: char) -> bool {
    !is_white_space(c) && !is_ascii_punct(c)
}

/// The key by which a palette name is matched: white space and ASCII punctuation
/// dropped, every other character lower-cased.
pub open spec fn name_key(s: Seq<char>) -> Seq<char>
    decreases s.len(),
{
    if s.len() == 0 {
        Seq::<char>::empty()
    } else {
        name_key(s.drop_last()) + if key_keeps(s.last()) {
            char_lower(s.last())
        } else {
            Seq::<char>::empty()
        }
    }
}

/// The key by which `s` is matched against palette names.
pub fn normalize_key(s: &str) -> (r: String)
    ensures
        r@ == name_key(s@),
{
    let k = key_chars(s);
    string_from_chars(k.as_slice())
}

/// The key by which `s` is matched against palette names, as characters.
fn key_chars(s: &str) -> (r: Vec<char>)
    ensures
        r@ == name_key(s@),
{
    let cs = str_chars(s);
    let mut r: Vec<char> = Vec::new();
    let mut i: usize = 0;
    while i < cs.len()
        invariant
            cs@ == s@,
            i <= cs@.len(),
            r@ == name_key(cs@.take(i as int)),
        decreases cs@.len() - i,
    {
        let c = cs[i];
        proof {
            assert(cs@.take(i + 1).drop_last() =~= cs@.take(i as int));
        }
        if !is_whitespace(c) && !is_ascii_punctuation(c) {
            let low = char_lowercase(c);
            append_chars(&mut r, low.as_slice());
        } else {
            assert(r@ =~= r@ + Seq::<char>::empty());
        }
        i = i + 1;
    }
    assert(cs@.take(cs@.len() as int) =~= cs@);
    r
}

/// Keys are built character by character.
pub proof fn lemma_name_key_concat(a: Seq<char>, b: Seq<char>)
    ensures
        name_key(a + b) == name_key(a) + name_key(b),
    decreases b.len(),
{
    if b.len() == 0 {
        assert(a + b =~= a);
        assert(name_key(a) + name_key(b) =~= name_key(a));
    } else {
        lemma_name_key_concat(a, b.drop_last());
        assert((a + b).drop_last() =~= a + b.drop_last());
        assert((a + b).last() == b.last());
        assert(name_key(a + b) =~= name_key(a) + name_key(b));
    }
}

/// White space and ASCII punctuation make no difference to a key.
pub proof fn lemma_name_key_ignores_separator(a: Seq<char>, c: char, b: Seq<char>)
    requires
        is_white_space(c) || is_ascii_punct(c),
    ensures
        name_key(a + seq![c] + b) == name_key(a + b),
{
    lemma_name_key_concat(a + seq![c], b);
    lemma_name_key_concat(a, seq![c]);
    lemma_name_key_concat(a, b);
    assert(seq![c].drop_last() =~= Seq::<char>::empty());
    assert(name_key(Seq::<char>::empty()) == Seq::<char>::empty());
    assert(name_key(seq![c]) == name_key(seq![c].drop_last()) + Seq::<char>::empty());
    assert(name_key(seq![c]) =~= Seq::<char>::empty());
    assert(name_key(a) + Seq::<char>::empty() =~= name_key(a));
}

/// `s` is ASCII.
pub open spec fn is_ascii_seq(s: Seq<char>) -> bool {
    forall|i: int| 0 <= i < s.len() ==> (#[trigger] s[i] as u32) < 128
}

/// For ASCII text, the key does not depend on letter case.
pub proof fn lemma_name_key_ascii_case(s: Seq<char>)
    requires
        is_ascii_seq(s),
    ensures
        name_key(crate::text::ascii_lower_seq(s)) == name_key(s),
    decreases s.len(),
{
    let l = crate::text::ascii_lower_seq(s);
    if s.len() > 0 {
        let s1 = s.drop_last();
        assert(is_ascii_seq(s1)) by {
            assert forall|i: int| 0 <= i < s1.len() implies (#[trigger] s1[i] as u32) < 128 by {
                assert(s1[i] == s[i]);
            }
        }
        lemma_name_key_ascii_case(s1);
        assert(l.drop_last() =~= crate::text::ascii_lower_seq(s1));
        let c = s.last();
        assert((c as u32) < 128);
        assert(l.last() == ascii_lower(c));
        assert(char_lower(ascii_lower(c)) == char_lower(c));
        assert(key_keeps(ascii_lower(c)) == key_keeps(c));
    }
}

// ---------------------------------------------------------------------------
// Lookup
// ---------------------------------------------------------------------------

/// The palette answers to `key` by its name or by one of its aliases.
pub open spec fn answers_to(p: PaletteView, key: Seq<char>) -> bool {
    name_key(p.name) == key || exists|j: int|
        0 <= j < p.aliases.len() && name_key(#[trigger] p.aliases[j]) == key
}

/// The index of the first palette at or after `i` that answers to `key`.
pub open spec fn first_answering(key: Seq<char>, i: int) -> Option<int>
    decreases palette_table().len() - i,
{
    if i < 0 || i >= palette_table().len() {
        None
    } else if answers_to(palette_table()[i], key) {
        Some(i)
    } else {
        first_answering(key, i + 1)
    }
}

/// The index of the built-in palette that `name` finds: the first whose name or
/// alias has the same key as `name`.
pub open spec fn lookup_index(name: Seq<char>) -> Option<int> {
    first_answering(name_key(name), 0)
}

/// Lookup ignores ASCII letter case: two ASCII names that differ only in case
/// find the same palette, or both find none.
pub proof fn law_lookup_ignores_ascii_case(a: Seq<char>, b: Seq<char>)
    requires
        is_ascii_seq(a),
        is_ascii_seq(b),
        crate::text::ascii_lower_seq(a) == crate::text::ascii_lower_seq(b),
    ensures
        lookup_index(a) == lookup_index(b),
{
    lemma_name_key_ascii_case(a);
    lemma_name_key_ascii_case(b);
}

/// Lookup ignores white space and punctuation: inserting a white-space or ASCII
/// punctuation character anywhere in a name finds the same palette, or none as
/// before.
pub proof fn law_lookup_ignores_separators(a: Seq<char>, c: char, b: Seq<char>)
    requires
        is_white_space(c) || is_ascii_punct(c),
    ensures
        lookup_index(a + seq![c] + b) == lookup_index(a + b),
{
    lemma_name_key_ignores_separator(a, c, b);
}

/// The built-in palettes, in the order in which they are matched: each one's name,
/// aliases, colours and backgrounds; the first is found by its name.
pub proof fn law_builtin_palettes()
    ensures
        palette_table().len() == 16,
        lookup_index("Modern Noir"@) == Some(0int),
        palette_table()[0] == (PaletteView {
            name: "Modern Noir"@,
            aliases: seq![],
            colors: seq!["#FF6B00"@, "#007065"@, "#FFC700"@, "#FF95CA"@, "#4172D1"@, "#FFFFFF"@],
            backgrounds: seq!["#1A1A1A"@, "#000000"@],
        }),
        palette_table()[1] == (PaletteView {
            name: "Exhibition 1923"@,
            aliases: seq![],
            colors: seq!["#2c2c2c"@, "#e64f99"@, "#f6c000"@, "#3b7b9e"@, "#e65f3e"@, "#3c8b67"@],
            backgrounds: seq!["#f3eee1"@],
        }),
        palette_table()[2] == (PaletteView {
            name: "Primary"@,
            aliases: seq![],
            colors: seq!["#dd1f26"@, "#f5d600"@, "#006ab2"@, "#231f20"@],
            backgrounds: seq!["#e7e7e7"@, "#ffffff"@],
        }),
        palette_table()[3] == (PaletteView {
            name: "Kandinsky"@,
            aliases: seq![],
            colors: seq!["#4a90e2"@, "#f5a623"@, "#d0021b"@, "#50e3c2"@, "#232323"@],
            backgrounds: seq!["#fafafa"@, "#f0e9d6"@],
        }),
        palette_table()[4] == (PaletteView {
            name: "Sunset"@,
            aliases: seq![],
            colors: seq!["#F94144"@, "#F3722C"@, "#F8961E"@, "#F9C74F"@, "#90BE6D"@],
            backgrounds: seq!["#43AA8B"@, "#577590"@],
        }),
        palette_table()[5] == (PaletteView {
            name: "Ocean"@,
            aliases: seq![],
            colors: seq!["#001219"@, "#005f73"@, "#0a9396"@, "#94d2bd"@, "#e9d8a6"@, "#ee9b00"@],
            backgrounds: seq!["#ca6702"@, "#bb3e03"@, "#ae2012"@, "#9b2226"@],
        }),
        palette_table()[6] == (PaletteView {
            name: "Albers"@,
            aliases: seq![],
            colors: seq!["#a60303"@, "#3a54a4"@, "#f7d80d"@, "#231f20"@, "#d88b02"@],
            backgrounds: seq!["#e8e8e8"@, "#fdfdfd"@],
        }),
        palette_table()[7] == (PaletteView {
            name: "Moholy-Nagy"@,
            aliases: seq![],
            colors: seq!["#c1272d"@, "#009245"@, "#f7931e"@, "#00a99d"@, "#2e3192"@],
            backgrounds: seq!["#f1f1f2"@],
        }),
        palette_table()[8] == (PaletteView {
            name: "Spring"@,
            aliases: seq![],
            colors: seq!["#F9C5D5"@, "#A3D977"@, "#FFE066"@, "#7BC8E2"@, "#C5A3E0"@, "#FF8FA3"@],
            backgrounds: seq!["#FFFBF0"@, "#F5F5DC"@],
        }),
        palette_table()[9] == (PaletteView {
            name: "Summer"@,
            aliases: seq![],
            colors: seq!["#FFD700"@, "#FF6B35"@, "#00B4D8"@, "#06D6A0"@, "#FF006E"@, "#FFFFFF"@],
            backgrounds: seq!["#FFE5B4"@, "#90E0EF"@],
        }),
        palette_table()[10] == (PaletteView {
            name: "Autumn"@,
            aliases: seq!["Fall"@],
            colors: seq!["#D9480F"@, "#8B2500"@, "#E1A100"@, "#6B4423"@, "#7C8B3D"@, "#C8552A"@],
            backgrounds: seq!["#F4E4C1"@, "#5C3A21"@],
        }),
        palette_table()[11] == (PaletteView {
            name: "Winter"@,
            aliases: seq![],
            colors: seq!["#1E3A5F"@, "#A7C7E7"@, "#2E5D3B"@, "#8B95A1"@, "#D6E5F0"@, "#7A0019"@],
            backgrounds: seq!["#F0F4F8"@, "#0F1419"@],
        }),
        palette_table()[12] == (PaletteView {
            name: "Monochrome"@,
            aliases: seq!["Grayscale"@],
            colors: seq!["#000000"@, "#333333"@, "#666666"@, "#999999"@, "#CCCCCC"@, "#FFFFFF"@],
            backgrounds: seq!["#F0F0F0"@, "#FFFFFF"@],
        }),
        palette_table()[13] == (PaletteView {
            name: "Vibrant"@,
            aliases: seq![],
            colors: seq!["#e6194b"@, "#3cb44b"@, "#ffe119"@, "#4363d8"@, "#f58231"@, "#911eb4"@],
            backgrounds: seq!["#42d4f4"@, "#f032e6"@],
        }),
        palette_table()[14] == (PaletteView {
            name: "Comiskey01"@,
            aliases: seq!["barrett01"@],
            colors: seq!["#efefee"@, "#f7bd18"@, "#ee6c15"@, "#1f3a61"@, "#1a2b43"@, "#3ca1a1"@, "#fefefe"@],
            backgrounds: seq!["#efefee"@, "#000000"@, "#fefefe"@],
        }),
        palette_table()[15] == (PaletteView {
            name: "Comiskey02"@,
            aliases: seq!["barrett02"@],
            colors: seq!["#fefefe"@, "#40aaaa"@, "#181c17"@, "#214345"@, "#ee6c15"@, "#f1bb13"@, "#d8c8aa"@],
            backgrounds: seq!["#d8c8aa"@, "#000000"@, "#fefefe"@],
        }),
{
    assert(answers_to(palette_table()[0], name_key("Modern Noir"@)));
}

pub proof fn lemma_first_answering(key: Seq<char>, i: int)
    requires
        0 <= i,
    ensures
        first_answering(key, i) matches Some(k) ==> i <= k < palette_table().len()
            && answers_to(palette_table()[k], key) && forall|j: int|
            i <= j < k ==> !answers_to(#[trigger] palette_table()[j], key),
        first_answering(key, i) is None ==> forall|j: int|
            i <= j < palette_table().len() ==> !answers_to(#[trigger] palette_table()[j], key),
    decreases palette_table().len() - i,
{
    if i < palette_table().len() && !answers_to(palette_table()[i], key) {
        lemma_first_answering(key, i + 1);
    }
}

/// Whether `p` answers to `key`.
fn palette_answers(p: &BuiltinPalette, key: &[char]) -> (r: bool)
    ensures
        r == answers_to(p@, key@),
{
    let k = key_chars(p.name);
    if chars_eq(k.as_slice(), key) {
        return true;
    }
    let mut j: usize = 0;
    while j < p.aliases.len()
        invariant
            j <= p.aliases@.len(),
            name_key(p.name@) != key@,
            forall|t: int| 0 <= t < j ==> name_key(#[trigger] p@.aliases[t]) != key@,
        decreases p.aliases@.len() - j,
    {
        let ka = key_chars(p.aliases[j]);
        if chars_eq(ka.as_slice(), key) {
            assert(name_key(p@.aliases[j as int]) == key@);
            return true;
        }
        j = j + 1;
    }
    assert forall|t: int| 0 <= t < p@.aliases.len() implies name_key(#[trigger] p@.aliases[t])
        != key@ by {}
    false
}

/// The built-in palette that `name` finds, ignoring case, white space and
/// punctuation: the first whose name or one of whose aliases has the same key as `name`.
pub fn lookup(name: &str) -> (r: Option<BuiltinPalette>)
    ensures
        match r {
            Some(p) => lookup_index(name@) matches Some(i) && p@ == palette_table()[i],
            None => lookup_index(name@) is None,
        },
{
    let key = key_chars(name);
    let mut all = crate::palette_data::palettes();
    let mut i: usize = 0;
    while i < all.len()
        invariant
            all@.len() == palette_table().len(),
            forall|t: int| 0 <= t < all@.len() ==> #[trigger] all@[t]@ == palette_table()[t],
            i <= all@.len(),
            lookup_index(name@) == first_answering(key@, i as int),
        decreases all@.len() - i,
    {
        if palette_answers(&all[i], key.as_slice()) {
            let p = all.remove(i);
            return Some(p);
        }
        i = i + 1;
    }
    None
}

// ---------------------------------------------------------------------------
// Names and listing
// ---------------------------------------------------------------------------

/// The strings `xs` joined with `sep` between neighbours.
fn join_static(xs: &[&'static str], sep: &str) -> (r: Vec<char>)
    ensures
        r@ == join(strs_view(xs@), sep@),
{
    let ghost parts = strs_view(xs@);
    let sep_chars = str_chars(sep);
    let mut r: Vec<char> = Vec::new();
    let mut i: usize = 0;
    while i < xs.len()
        invariant
            i <= xs@.len(),
            parts == strs_view(xs@),
            sep_chars@ == sep@,
            r@ == join(parts.take(i as int), sep@),
        decreases xs@.len() - i,
    {
        let piece = str_chars(xs[i]);
        if i > 0 {
            append_chars(&mut r, sep_chars.as_slice());
        }
        append_chars(&mut r, piece.as_slice());
        proof {
            assert(parts.take(i + 1).drop_last() =~= parts.take(i as int));
            if i == 0 {
                assert(parts.take(0) =~= Seq::<Seq<char>>::empty());
            }
        }
        i = i + 1;
    }
    assert(parts.take(xs@.len() as int) =~= parts);
    r
}

/// How a palette is named in listings: its name, followed by its aliases when it has any.
pub open spec fn palette_label(p: PaletteView) -> Seq<char> {
    if p.aliases.len() == 0 {
        p.name
    } else {
        p.name + " (aka "@ + join(p.aliases, ", "@) + ")"@
    }
}

fn label_chars(p: &BuiltinPalette) -> (r: Vec<char>)
    ensures
        r@ == palette_label(p@),
{
    let mut r = str_chars(p.name);
    if p.aliases.len() > 0 {
        append_str(&mut r, " (aka ");
        let al = join_static(p.aliases.as_slice(), ", ");
        append_chars(&mut r, al.as_slice());
        append_str(&mut r, ")");
    }
    r
}

/// The labels of the built-in palettes, in table order.
pub fn names() -> (r: Vec<String>)
    ensures
        r@.len() == palette_table().len(),
        forall|i: int| 0 <= i < r@.len() ==> #[trigger] r@[i]@ == palette_label(palette_table()[i]),
{
    let all = crate::palette_data::palettes();
    let mut r: Vec<String> = Vec::new();
    let mut i: usize = 0;
    while i < all.len()
        invariant
            all@.len() == palette_table().len(),
            forall|t: int| 0 <= t < all@.len() ==> #[trigger] all@[t]@ == palette_table()[t],
            i <= all@.len(),
            r@.len() == i,
            forall|t: int| 0 <= t < i ==> #[trigger] r@[t]@ == palette_label(palette_table()[t]),
        decreases all@.len() - i,
    {
        let l = label_chars(&all[i]);
        r.push(string_from_chars(l.as_slice()));
        i = i + 1;
    }
    r
}

/// `s` followed by spaces up to `width` characters, as `{:<width}` formats it.
pub open spec fn pad_right(s: Seq<char>, width: nat) -> Seq<char> {
    if s.len() >= width {
        s
    } else {
        s + Seq::new((width - s.len()) as nat, |i: int| ' ')
    }
}

/// The line that lists a palette: its label in a 28-wide column, then its colours
/// and backgrounds.
pub open spec fn listing_line(p: PaletteView) -> Seq<char> {
    pad_right(palette_label(p), 28) + " colors: "@ + join(p.colors, ", "@) + "  backgrounds: "@
        + join(p.backgrounds, ", "@)
}

/// The listing of the built-in palettes, one line per palette, in table order.
pub fn palette_listing() -> (r: Vec<String>)
    ensures
        r@.len() == palette_table().len(),
        forall|i: int| 0 <= i < r@.len() ==> #[trigger] r@[i]@ == listing_line(palette_table()[i]),
{
    let all = crate::palette_data::palettes();
    let mut r: Vec<String> = Vec::new();
    let mut i: usize = 0;
    while i < all.len()
        invariant
            all@.len() == palette_table().len(),
            forall|t: int| 0 <= t < all@.len() ==> #[trigger] all@[t]@ == palette_table()[t],
            i <= all@.len(),
            r@.len() == i,
            forall|t: int| 0 <= t < i ==> #[trigger] r@[t]@ == listing_line(palette_table()[t]),
        decreases all@.len() - i,
    {
        let p = &all[i];
        let mut line = label_chars(p);
        let ghost label = line@;
        while line.len() < 28
            invariant
                line@.len() >= label.len(),
                line@.len() <= 28 || line@.len() == label.len(),
                line@.subrange(0, label.len() as int) == label,
                forall|t: int| label.len() <= t < line@.len() ==> line@[t] == ' ',
            decreases 28 - line@.len(),
        {
            line.push(' ');
        }
        assert(line@ =~= pad_right(label, 28));
        append_str(&mut line, " colors: ");
        let cs = join_static(p.colors.as_slice(), ", ");
        append_chars(&mut line, cs.as_slice());
        append_str(&mut line, "  backgrounds: ");
        let bs = join_static(p.backgrounds.as_slice(), ", ");
        append_chars(&mut line, bs.as_slice());
        r.push(string_from_chars(line.as_slice()));
        i = i + 1;
    }
    r
}

} // verus!
