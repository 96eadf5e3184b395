//! The data of the built-in palettes.

use vstd::prelude::*;
use crate::color::{is_hex_digit, strip_hashes, valid_hex};
use crate::palettes::{BuiltinPalette, PaletteView};

verus! {

pub open spec fn entry_modern_noir() -> PaletteView {
    PaletteView {
        name: "Modern Noir"@,
        aliases: seq![],
        colors: seq!["#FF6B00"@, "#007065"@, "#FFC700"@, "#FF95CA"@, "#4172D1"@, "#FFFFFF"@],
        backgrounds: seq!["#1A1A1A"@, "#000000"@],
    }
}

fn palette_modern_noir() -> (r: BuiltinPalette)
    ensures
        r@ == entry_modern_noir(),
{
    let r = BuiltinPalette {
        name: "Modern Noir",
        aliases: vec![],
        colors: vec!["#FF6B00", "#007065", "#FFC700", "#FF95CA", "#4172D1", "#FFFFFF"],
        backgrounds: vec!["#1A1A1A", "#000000"],
    };
    assert(r@.aliases =~= entry_modern_noir().aliases);
    assert(r@.colors =~= entry_modern_noir().colors);
    assert(r@.backgrounds =~= entry_modern_noir().backgrounds);
    r
}

pub open spec fn entry_exhibition_1923() -> PaletteView {
    PaletteView {
        name: "Exhibition 1923"@,
        aliases: seq![],
        colors: seq!["#2c2c2c"@, "#e64f99"@, "#f6c000"@, "#3b7b9e"@, "#e65f3e"@, "#3c8b67"@],
        backgrounds: seq!["#f3eee1"@],
    }
}

fn palette_exhibition_1923() -> (r: BuiltinPalette)
    ensures
        r@ == entry_exhibition_1923(),
{
    let r = BuiltinPalette {
        name: "Exhibition 1923",
        aliases: vec![],
        colors: vec!["#2c2c2c", "#e64f99", "#f6c000", "#3b7b9e", "#e65f3e", "#3c8b67"],
        backgrounds: vec!["#f3eee1"],
    };
    assert(r@.aliases =~= entry_exhibition_1923().aliases);
    assert(r@.colors =~= entry_exhibition_1923().colors);
    assert(r@.backgrounds =~= entry_exhibition_1923().backgrounds);
    r
}

pub open spec fn entry_primary() -> PaletteView {
    PaletteView {
        name: "Primary"@,
        aliases: seq![],
        colors: seq!["#dd1f26"@, "#f5d600"@, "#006ab2"@, "#231f20"@],
        backgrounds: seq!["#e7e7e7"@, "#ffffff"@],
    }
}

fn palette_primary() -> (r: BuiltinPalette)
    ensures
        r@ == entry_primary(),
{
    let r = BuiltinPalette {
        name: "Primary",
        aliases: vec![],
        colors: vec!["#dd1f26", "#f5d600", "#006ab2", "#231f20"],
        backgrounds: vec!["#e7e7e7", "#ffffff"],
    };
    assert(r@.aliases =~= entry_primary().aliases);
    assert(r@.colors =~= entry_primary().colors);
    assert(r@.backgrounds =~= entry_primary().backgrounds);
    r
}

pub open spec fn entry_kandinsky() -> PaletteView {
    PaletteView {
        name: "Kandinsky"@,
        aliases: seq![],
        colors: seq!["#4a90e2"@, "#f5a623"@, "#d0021b"@, "#50e3c2"@, "#232323"@],
        backgrounds: seq!["#fafafa"@, "#f0e9d6"@],
    }
}

fn palette_kandinsky() -> (r: BuiltinPalette)
    ensures
        r@ == entry_kandinsky(),
{
    let r = BuiltinPalette {
        name: "Kandinsky",
        aliases: vec![],
        colors: vec!["#4a90e2", "#f5a623", "#d0021b", "#50e3c2", "#232323"],
        backgrounds: vec!["#fafafa", "#f0e9d6"],
    };
    assert(r@.aliases =~= entry_kandinsky().aliases);
    assert(r@.colors =~= entry_kandinsky().colors);
    assert(r@.backgrounds =~= entry_kandinsky().backgrounds);
    r
}

pub open spec fn entry_sunset() -> PaletteView {
    PaletteView {
        name: "Sunset"@,
        aliases: seq![],
        colors: seq!["#F94144"@, "#F3722C"@, "#F8961E"@, "#F9C74F"@, "#90BE6D"@],
        backgrounds: seq!["#43AA8B"@, "#577590"@],
    }
}

fn palette_sunset() -> (r: BuiltinPalette)
    ensures
        r@ == entry_sunset(),
{
    let r = BuiltinPalette {
        name: "Sunset",
        aliases: vec![],
        colors: vec!["#F94144", "#F3722C", "#F8961E", "#F9C74F", "#90BE6D"],
        backgrounds: vec!["#43AA8B", "#577590"],
    };
    assert(r@.aliases =~= entry_sunset().aliases);
    assert(r@.colors =~= entry_sunset().colors);
    assert(r@.backgrounds =~= entry_sunset().backgrounds);
    r
}

pub open spec fn entry_ocean() -> PaletteView {
    PaletteView {
        name: "Ocean"@,
        aliases: seq![],
        colors: seq!["#001219"@, "#005f73"@, "#0a9396"@, "#94d2bd"@, "#e9d8a6"@, "#ee9b00"@],
        backgrounds: seq!["#ca6702"@, "#bb3e03"@, "#ae2012"@, "#9b2226"@],
    }
}

fn palette_ocean() -> (r: BuiltinPalette)
    ensures
        r@ == entry_ocean(),
{
    let r = BuiltinPalette {
        name: "Ocean",
        aliases: vec![],
        colors: vec!["#001219", "#005f73", "#0a9396", "#94d2bd", "#e9d8a6", "#ee9b00"],
        backgrounds: vec!["#ca6702", "#bb3e03", "#ae2012", "#9b2226"],
    };
    assert(r@.aliases =~= entry_ocean().aliases);
    assert(r@.colors =~= entry_ocean().colors);
    assert(r@.backgrounds =~= entry_ocean().backgrounds);
    r
}

pub open spec fn entry_albers() -> PaletteView {
    PaletteView {
        name: "Albers"@,
        aliases: seq![],
        colors: seq!["#a60303"@, "#3a54a4"@, "#f7d80d"@, "#231f20"@, "#d88b02"@],
        backgrounds: seq!["#e8e8e8"@, "#fdfdfd"@],
    }
}

fn palette_albers() -> (r: BuiltinPalette)
    ensures
        r@ == entry_albers(),
{
    let r = BuiltinPalette {
        name: "Albers",
        aliases: vec![],
        colors: vec!["#a60303", "#3a54a4", "#f7d80d", "#231f20", "#d88b02"],
        backgrounds: vec!["#e8e8e8", "#fdfdfd"],
    };
    assert(r@.aliases =~= entry_albers().aliases);
    assert(r@.colors =~= entry_albers().colors);
    assert(r@.backgrounds =~= entry_albers().backgrounds);
    r
}

pub open spec fn entry_moholy_nagy() -> PaletteView {
    PaletteView {
        name: "Moholy-Nagy"@,
        aliases: seq![],
        colors: seq!["#c1272d"@, "#009245"@, "#f7931e"@, "#00a99d"@, "#2e3192"@],
        backgrounds: seq!["#f1f1f2"@],
    }
}

fn palette_moholy_nagy() -> (r: BuiltinPalette)
    ensures
        r@ == entry_moholy_nagy(),
{
    let r = BuiltinPalette {
        name: "Moholy-Nagy",
        aliases: vec![],
        colors: vec!["#c1272d", "#009245", "#f7931e", "#00a99d", "#2e3192"],
        backgrounds: vec!["#f1f1f2"],
    };
    assert(r@.aliases =~= entry_moholy_nagy().aliases);
    assert(r@.colors =~= entry_moholy_nagy().colors);
    assert(r@.backgrounds =~= entry_moholy_nagy().backgrounds);
    r
}

pub open spec fn entry_spring() -> PaletteView {
    PaletteView {
        name: "Spring"@,
        aliases: seq![],
        colors: seq!["#F9C5D5"@, "#A3D977"@, "#FFE066"@, "#7BC8E2"@, "#C5A3E0"@, "#FF8FA3"@],
        backgrounds: seq!["#FFFBF0"@, "#F5F5DC"@],
    }
}

fn palette_spring() -> (r: BuiltinPalette)
    ensures
        r@ == entry_spring(),
{
    let r = BuiltinPalette {
        name: "Spring",
        aliases: vec![],
        colors: vec!["#F9C5D5", "#A3D977", "#FFE066", "#7BC8E2", "#C5A3E0", "#FF8FA3"],
        backgrounds: vec!["#FFFBF0", "#F5F5DC"],
    };
    assert(r@.aliases =~= entry_spring().aliases);
    assert(r@.colors =~= entry_spring().colors);
    assert(r@.backgrounds =~= entry_spring().backgrounds);
    r
}

pub open spec fn entry_summer() -> PaletteView {
    PaletteView {
        name: "Summer"@,
        aliases: seq![],
        colors: seq!["#FFD700"@, "#FF6B35"@, "#00B4D8"@, "#06D6A0"@, "#FF006E"@, "#FFFFFF"@],
        backgrounds: seq!["#FFE5B4"@, "#90E0EF"@],
    }
}

fn palette_summer() -> (r: BuiltinPalette)
    ensures
        r@ == entry_summer(),
{
    let r = BuiltinPalette {
        name: "Summer",
        aliases: vec![],
        colors: vec!["#FFD700", "#FF6B35", "#00B4D8", "#06D6A0", "#FF006E", "#FFFFFF"],
        backgrounds: vec!["#FFE5B4", "#90E0EF"],
    };
    assert(r@.aliases =~= entry_summer().aliases);
    assert(r@.colors =~= entry_summer().colors);
    assert(r@.backgrounds =~= entry_summer().backgrounds);
    r
}

pub open spec fn entry_autumn() -> PaletteView {
    PaletteView {
        name: "Autumn"@,
        aliases: seq!["Fall"@],
        colors: seq!["#D9480F"@, "#8B2500"@, "#E1A100"@, "#6B4423"@, "#7C8B3D"@, "#C8552A"@],
        backgrounds: seq!["#F4E4C1"@, "#5C3A21"@],
    }
}

fn palette_autumn() -> (r: BuiltinPalette)
    ensures
        r@ == entry_autumn(),
{
    let r = BuiltinPalette {
        name: "Autumn",
        aliases: vec!["Fall"],
        colors: vec!["#D9480F", "#8B2500", "#E1A100", "#6B4423", "#7C8B3D", "#C8552A"],
        backgrounds: vec!["#F4E4C1", "#5C3A21"],
    };
    assert(r@.aliases =~= entry_autumn().aliases);
    assert(r@.colors =~= entry_autumn().colors);
    assert(r@.backgrounds =~= entry_autumn().backgrounds);
    r
}

pub open spec fn entry_winter() -> PaletteView {
    PaletteView {
        name: "Winter"@,
        aliases: seq![],
        colors: seq!["#1E3A5F"@, "#A7C7E7"@, "#2E5D3B"@, "#8B95A1"@, "#D6E5F0"@, "#7A0019"@],
        backgrounds: seq!["#F0F4F8"@, "#0F1419"@],
    }
}

fn palette_winter() -> (r: BuiltinPalette)
    ensures
        r@ == entry_winter(),
{
    let r = BuiltinPalette {
        name: "Winter",
        aliases: vec![],
        colors: vec!["#1E3A5F", "#A7C7E7", "#2E5D3B", "#8B95A1", "#D6E5F0", "#7A0019"],
        backgrounds: vec!["#F0F4F8", "#0F1419"],
    };
    assert(r@.aliases =~= entry_winter().aliases);
    assert(r@.colors =~= entry_winter().colors);
    assert(r@.backgrounds =~= entry_winter().backgrounds);
    r
}

pub open spec fn entry_monochrome() -> PaletteView {
    PaletteView {
        name: "Monochrome"@,
        aliases: seq!["Grayscale"@],
        colors: seq!["#000000"@, "#333333"@, "#666666"@, "#999999"@, "#CCCCCC"@, "#FFFFFF"@],
        backgrounds: seq!["#F0F0F0"@, "#FFFFFF"@],
    }
}

fn palette_monochrome() -> (r: BuiltinPalette)
    ensures
        r@ == entry_monochrome(),
{
    let r = BuiltinPalette {
        name: "Monochrome",
        aliases: vec!["Grayscale"],
        colors: vec!["#000000", "#333333", "#666666", "#999999", "#CCCCCC", "#FFFFFF"],
        backgrounds: vec!["#F0F0F0", "#FFFFFF"],
    };
    assert(r@.aliases =~= entry_monochrome().aliases);
    assert(r@.colors =~= entry_monochrome().colors);
    assert(r@.backgrounds =~= entry_monochrome().backgrounds);
    r
}

pub open spec fn entry_vibrant() -> PaletteView {
    PaletteView {
        name: "Vibrant"@,
        aliases: seq![],
        colors: seq!["#e6194b"@, "#3cb44b"@, "#ffe119"@, "#4363d8"@, "#f58231"@, "#911eb4"@],
        backgrounds: seq!["#42d4f4"@, "#f032e6"@],
    }
}

fn palette_vibrant() -> (r: BuiltinPalette)
    ensures
        r@ == entry_vibrant(),
{
    let r = BuiltinPalette {
        name: "Vibrant",
        aliases: vec![],
        colors: vec!["#e6194b", "#3cb44b", "#ffe119", "#4363d8", "#f58231", "#911eb4"],
        backgrounds: vec!["#42d4f4", "#f032e6"],
    };
    assert(r@.aliases =~= entry_vibrant().aliases);
    assert(r@.colors =~= entry_vibrant().colors);
    assert(r@.backgrounds =~= entry_vibrant().backgrounds);
    r
}

pub open spec fn entry_comiskey01() -> PaletteView {
    PaletteView {
        name: "Comiskey01"@,
        aliases: seq!["barrett01"@],
        colors: seq!["#efefee"@, "#f7bd18"@, "#ee6c15"@, "#1f3a61"@, "#1a2b43"@, "#3ca1a1"@, "#fefefe"@],
        backgrounds: seq!["#efefee"@, "#000000"@, "#fefefe"@],
    }
}

fn palette_comiskey01() -> (r: BuiltinPalette)
    ensures
        r@ == entry_comiskey01(),
{
    let r = BuiltinPalette {
        name: "Comiskey01",
        aliases: vec!["barrett01"],
        colors: vec!["#efefee", "#f7bd18", "#ee6c15", "#1f3a61", "#1a2b43", "#3ca1a1", "#fefefe"],
        backgrounds: vec!["#efefee", "#000000", "#fefefe"],
    };
    assert(r@.aliases =~= entry_comiskey01().aliases);
    assert(r@.colors =~= entry_comiskey01().colors);
    assert(r@.backgrounds =~= entry_comiskey01().backgrounds);
    r
}

pub open spec fn entry_comiskey02() -> PaletteView {
    PaletteView {
        name: "Comiskey02"@,
        aliases: seq!["barrett02"@],
        colors: seq!["#fefefe"@, "#40aaaa"@, "#181c17"@, "#214345"@, "#ee6c15"@, "#f1bb13"@, "#d8c8aa"@],
        backgrounds: seq!["#d8c8aa"@, "#000000"@, "#fefefe"@],
    }
}

fn palette_comiskey02() -> (r: BuiltinPalette)
    ensures
        r@ == entry_comiskey02(),
{
    let r = BuiltinPalette {
        name: "Comiskey02",
        aliases: vec!["barrett02"],
        colors: vec!["#fefefe", "#40aaaa", "#181c17", "#214345", "#ee6c15", "#f1bb13", "#d8c8aa"],
        backgrounds: vec!["#d8c8aa", "#000000", "#fefefe"],
    };
    assert(r@.aliases =~= entry_comiskey02().aliases);
    assert(r@.colors =~= entry_comiskey02().colors);
    assert(r@.backgrounds =~= entry_comiskey02().backgrounds);
    r
}

/// The built-in palettes as data.
pub open spec fn palette_table() -> Seq<PaletteView> {
    seq![
        entry_modern_noir(),
        entry_exhibition_1923(),
        entry_primary(),
        entry_kandinsky(),
        entry_sunset(),
        entry_ocean(),
        entry_albers(),
        entry_moholy_nagy(),
        entry_spring(),
        entry_summer(),
        entry_autumn(),
        entry_winter(),
        entry_monochrome(),
        entry_vibrant(),
        entry_comiskey01(),
        entry_comiskey02(),
    ]
}

/// The built-in palettes, in the order in which names are matched and listed.
pub fn palettes() -> (r: Vec<BuiltinPalette>)
    ensures
        r@.len() == palette_table().len(),
        forall|i: int| 0 <= i < r@.len() ==> #[trigger] r@[i]@ == palette_table()[i],
{
    let mut r: Vec<BuiltinPalette> = Vec::new();
    r.push(palette_modern_noir());
    r.push(palette_exhibition_1923());
    r.push(palette_primary());
    r.push(palette_kandinsky());
    r.push(palette_sunset());
    r.push(palette_ocean());
    r.push(palette_albers());
    r.push(palette_moholy_nagy());
    r.push(palette_spring());
    r.push(palette_summer());
    r.push(palette_autumn());
    r.push(palette_winter());
    r.push(palette_monochrome());
    r.push(palette_vibrant());
    r.push(palette_comiskey01());
    r.push(palette_comiskey02());
    assert(r@.len() == palette_table().len());
    r
}

/// A `#` and six hex digits make a colour.
proof fn lemma_hash6_valid(c: Seq<char>)
    requires
        c.len() == 7,
        c[0] == '#',
        forall|i: int| 1 <= i < 7 ==> is_hex_digit(#[trigger] c[i]),
    ensures
        valid_hex(c),
{
    let t = c.drop_first();
    assert(t[0] != '#') by {
        assert(is_hex_digit(c[1]));
    }
    assert(strip_hashes(t) == t);
    assert(strip_hashes(c) == strip_hashes(t));
    assert forall|i: int| 0 <= i < 6 implies is_hex_digit(#[trigger] t[i]) by {
        assert(t[i] == c[i + 1]);
    }
}

proof fn lemma_entry_modern_noir_valid()
    ensures
        palette_entry_valid(entry_modern_noir()),
{
    reveal_strlit("#000000");
    lemma_hash6_valid("#000000"@);
    reveal_strlit("#007065");
    lemma_hash6_valid("#007065"@);
    reveal_strlit("#1A1A1A");
    lemma_hash6_valid("#1A1A1A"@);
    reveal_strlit("#4172D1");
    lemma_hash6_valid("#4172D1"@);
    reveal_strlit("#FF6B00");
    lemma_hash6_valid("#FF6B00"@);
    reveal_strlit("#FF95CA");
    lemma_hash6_valid("#FF95CA"@);
    reveal_strlit("#FFC700");
    lemma_hash6_valid("#FFC700"@);
    reveal_strlit("#FFFFFF");
    lemma_hash6_valid("#FFFFFF"@);
}

proof fn lemma_entry_exhibition_1923_valid()
    ensures
        palette_entry_valid(entry_exhibition_1923()),
{
    reveal_strlit("#2c2c2c");
    lemma_hash6_valid("#2c2c2c"@);
    reveal_strlit("#3b7b9e");
    lemma_hash6_valid("#3b7b9e"@);
    reveal_strlit("#3c8b67");
    lemma_hash6_valid("#3c8b67"@);
    reveal_strlit("#e64f99");
    lemma_hash6_valid("#e64f99"@);
    reveal_strlit("#e65f3e");
    lemma_hash6_valid("#e65f3e"@);
    reveal_strlit("#f3eee1");
    lemma_hash6_valid("#f3eee1"@);
    reveal_strlit("#f6c000");
    lemma_hash6_valid("#f6c000"@);
}

proof fn lemma_entry_primary_valid()
    ensures
        palette_entry_valid(entry_primary()),
{
    reveal_strlit("#006ab2");
    lemma_hash6_valid("#006ab2"@);
    reveal_strlit("#231f20");
    lemma_hash6_valid("#231f20"@);
    reveal_strlit("#dd1f26");
    lemma_hash6_valid("#dd1f26"@);
    reveal_strlit("#e7e7e7");
    lemma_hash6_valid("#e7e7e7"@);
    reveal_strlit("#f5d600");
    lemma_hash6_valid("#f5d600"@);
    reveal_strlit("#ffffff");
    lemma_hash6_valid("#ffffff"@);
}

proof fn lemma_entry_kandinsky_valid()
    ensures
        palette_entry_valid(entry_kandinsky()),
{
    reveal_strlit("#232323");
    lemma_hash6_valid("#232323"@);
    reveal_strlit("#4a90e2");
    lemma_hash6_valid("#4a90e2"@);
    reveal_strlit("#50e3c2");
    lemma_hash6_valid("#50e3c2"@);
    reveal_strlit("#d0021b");
    lemma_hash6_valid("#d0021b"@);
    reveal_strlit("#f0e9d6");
    lemma_hash6_valid("#f0e9d6"@);
    reveal_strlit("#f5a623");
    lemma_hash6_valid("#f5a623"@);
    reveal_strlit("#fafafa");
    lemma_hash6_valid("#fafafa"@);
}

proof fn lemma_entry_sunset_valid()
    ensures
        palette_entry_valid(entry_sunset()),
{
    reveal_strlit("#43AA8B");
    lemma_hash6_valid("#43AA8B"@);
    reveal_strlit("#577590");
    lemma_hash6_valid("#577590"@);
    reveal_strlit("#90BE6D");
    lemma_hash6_valid("#90BE6D"@);
    reveal_strlit("#F3722C");
    lemma_hash6_valid("#F3722C"@);
    reveal_strlit("#F8961E");
    lemma_hash6_valid("#F8961E"@);
    reveal_strlit("#F94144");
    lemma_hash6_valid("#F94144"@);
    reveal_strlit("#F9C74F");
    lemma_hash6_valid("#F9C74F"@);
}

proof fn lemma_entry_ocean_valid()
    ensures
        palette_entry_valid(entry_ocean()),
{
    reveal_strlit("#001219");
    lemma_hash6_valid("#001219"@);
    reveal_strlit("#005f73");
    lemma_hash6_valid("#005f73"@);
    reveal_strlit("#0a9396");
    lemma_hash6_valid("#0a9396"@);
    reveal_strlit("#94d2bd");
    lemma_hash6_valid("#94d2bd"@);
    reveal_strlit("#9b2226");
    lemma_hash6_valid("#9b2226"@);
    reveal_strlit("#ae2012");
    lemma_hash6_valid("#ae2012"@);
    reveal_strlit("#bb3e03");
    lemma_hash6_valid("#bb3e03"@);
    reveal_strlit("#ca6702");
    lemma_hash6_valid("#ca6702"@);
    reveal_strlit("#e9d8a6");
    lemma_hash6_valid("#e9d8a6"@);
    reveal_strlit("#ee9b00");
    lemma_hash6_valid("#ee9b00"@);
}

proof fn lemma_entry_albers_valid()
    ensures
        palette_entry_valid(entry_albers()),
{
    reveal_strlit("#231f20");
    lemma_hash6_valid("#231f20"@);
    reveal_strlit("#3a54a4");
    lemma_hash6_valid("#3a54a4"@);
    reveal_strlit("#a60303");
    lemma_hash6_valid("#a60303"@);
    reveal_strlit("#d88b02");
    lemma_hash6_valid("#d88b02"@);
    reveal_strlit("#e8e8e8");
    lemma_hash6_valid("#e8e8e8"@);
    reveal_strlit("#f7d80d");
    lemma_hash6_valid("#f7d80d"@);
    reveal_strlit("#fdfdfd");
    lemma_hash6_valid("#fdfdfd"@);
}

proof fn lemma_entry_moholy_nagy_valid()
    ensures
        palette_entry_valid(entry_moholy_nagy()),
{
    reveal_strlit("#009245");
    lemma_hash6_valid("#009245"@);
    reveal_strlit("#00a99d");
    lemma_hash6_valid("#00a99d"@);
    reveal_strlit("#2e3192");
    lemma_hash6_valid("#2e3192"@);
    reveal_strlit("#c1272d");
    lemma_hash6_valid("#c1272d"@);
    reveal_strlit("#f1f1f2");
    lemma_hash6_valid("#f1f1f2"@);
    reveal_strlit("#f7931e");
    lemma_hash6_valid("#f7931e"@);
}

proof fn lemma_entry_spring_valid()
    ensures
        palette_entry_valid(entry_spring()),
{
    reveal_strlit("#7BC8E2");
    lemma_hash6_valid("#7BC8E2"@);
    reveal_strlit("#A3D977");
    lemma_hash6_valid("#A3D977"@);
    reveal_strlit("#C5A3E0");
    lemma_hash6_valid("#C5A3E0"@);
    reveal_strlit("#F5F5DC");
    lemma_hash6_valid("#F5F5DC"@);
    reveal_strlit("#F9C5D5");
    lemma_hash6_valid("#F9C5D5"@);
    reveal_strlit("#FF8FA3");
    lemma_hash6_valid("#FF8FA3"@);
    reveal_strlit("#FFE066");
    lemma_hash6_valid("#FFE066"@);
    reveal_strlit("#FFFBF0");
    lemma_hash6_valid("#FFFBF0"@);
}

proof fn lemma_entry_summer_valid()
    ensures
        palette_entry_valid(entry_summer()),
{
    reveal_strlit("#00B4D8");
    lemma_hash6_valid("#00B4D8"@);
    reveal_strlit("#06D6A0");
    lemma_hash6_valid("#06D6A0"@);
    reveal_strlit("#90E0EF");
    lemma_hash6_valid("#90E0EF"@);
    reveal_strlit("#FF006E");
    lemma_hash6_valid("#FF006E"@);
    reveal_strlit("#FF6B35");
    lemma_hash6_valid("#FF6B35"@);
    reveal_strlit("#FFD700");
    lemma_hash6_valid("#FFD700"@);
    reveal_strlit("#FFE5B4");
    lemma_hash6_valid("#FFE5B4"@);
    reveal_strlit("#FFFFFF");
    lemma_hash6_valid("#FFFFFF"@);
}

proof fn lemma_entry_autumn_valid()
    ensures
        palette_entry_valid(entry_autumn()),
{
    reveal_strlit("#5C3A21");
    lemma_hash6_valid("#5C3A21"@);
    reveal_strlit("#6B4423");
    lemma_hash6_valid("#6B4423"@);
    reveal_strlit("#7C8B3D");
    lemma_hash6_valid("#7C8B3D"@);
    reveal_strlit("#8B2500");
    lemma_hash6_valid("#8B2500"@);
    reveal_strlit("#C8552A");
    lemma_hash6_valid("#C8552A"@);
    reveal_strlit("#D9480F");
    lemma_hash6_valid("#D9480F"@);
    reveal_strlit("#E1A100");
    lemma_hash6_valid("#E1A100"@);
    reveal_strlit("#F4E4C1");
    lemma_hash6_valid("#F4E4C1"@);
}

proof fn lemma_entry_winter_valid()
    ensures
        palette_entry_valid(entry_winter()),
{
    reveal_strlit("#0F1419");
    lemma_hash6_valid("#0F1419"@);
    reveal_strlit("#1E3A5F");
    lemma_hash6_valid("#1E3A5F"@);
    reveal_strlit("#2E5D3B");
    lemma_hash6_valid("#2E5D3B"@);
    reveal_strlit("#7A0019");
    lemma_hash6_valid("#7A0019"@);
    reveal_strlit("#8B95A1");
    lemma_hash6_valid("#8B95A1"@);
    reveal_strlit("#A7C7E7");
    lemma_hash6_valid("#A7C7E7"@);
    reveal_strlit("#D6E5F0");
    lemma_hash6_valid("#D6E5F0"@);
    reveal_strlit("#F0F4F8");
    lemma_hash6_valid("#F0F4F8"@);
}

proof fn lemma_entry_monochrome_valid()
    ensures
        palette_entry_valid(entry_monochrome()),
{
    reveal_strlit("#000000");
    lemma_hash6_valid("#000000"@);
    reveal_strlit("#333333");
    lemma_hash6_valid("#333333"@);
    reveal_strlit("#666666");
    lemma_hash6_valid("#666666"@);
    reveal_strlit("#999999");
    lemma_hash6_valid("#999999"@);
    reveal_strlit("#CCCCCC");
    lemma_hash6_valid("#CCCCCC"@);
    reveal_strlit("#F0F0F0");
    lemma_hash6_valid("#F0F0F0"@);
    reveal_strlit("#FFFFFF");
    lemma_hash6_valid("#FFFFFF"@);
}

proof fn lemma_entry_vibrant_valid()
    ensures
        palette_entry_valid(entry_vibrant()),
{
    reveal_strlit("#3cb44b");
    lemma_hash6_valid("#3cb44b"@);
    reveal_strlit("#42d4f4");
    lemma_hash6_valid("#42d4f4"@);
    reveal_strlit("#4363d8");
    lemma_hash6_valid("#4363d8"@);
    reveal_strlit("#911eb4");
    lemma_hash6_valid("#911eb4"@);
    reveal_strlit("#e6194b");
    lemma_hash6_valid("#e6194b"@);
    reveal_strlit("#f032e6");
    lemma_hash6_valid("#f032e6"@);
    reveal_strlit("#f58231");
    lemma_hash6_valid("#f58231"@);
    reveal_strlit("#ffe119");
    lemma_hash6_valid("#ffe119"@);
}

proof fn lemma_entry_comiskey01_valid()
    ensures
        palette_entry_valid(entry_comiskey01()),
{
    reveal_strlit("#000000");
    lemma_hash6_valid("#000000"@);
    reveal_strlit("#1a2b43");
    lemma_hash6_valid("#1a2b43"@);
    reveal_strlit("#1f3a61");
    lemma_hash6_valid("#1f3a61"@);
    reveal_strlit("#3ca1a1");
    lemma_hash6_valid("#3ca1a1"@);
    reveal_strlit("#ee6c15");
    lemma_hash6_valid("#ee6c15"@);
    reveal_strlit("#efefee");
    lemma_hash6_valid("#efefee"@);
    reveal_strlit("#f7bd18");
    lemma_hash6_valid("#f7bd18"@);
    reveal_strlit("#fefefe");
    lemma_hash6_valid("#fefefe"@);
}

proof fn lemma_entry_comiskey02_valid()
    ensures
        palette_entry_valid(entry_comiskey02()),
{
    reveal_strlit("#000000");
    lemma_hash6_valid("#000000"@);
    reveal_strlit("#181c17");
    lemma_hash6_valid("#181c17"@);
    reveal_strlit("#214345");
    lemma_hash6_valid("#214345"@);
    reveal_strlit("#40aaaa");
    lemma_hash6_valid("#40aaaa"@);
    reveal_strlit("#d8c8aa");
    lemma_hash6_valid("#d8c8aa"@);
    reveal_strlit("#ee6c15");
    lemma_hash6_valid("#ee6c15"@);
    reveal_strlit("#f1bb13");
    lemma_hash6_valid("#f1bb13"@);
    reveal_strlit("#fefefe");
    lemma_hash6_valid("#fefefe"@);
}

/// Every colour and background of a palette is a colour, and it has a colour.
pub open spec fn palette_entry_valid(p: PaletteView) -> bool {
    &&& p.colors.len() >= 1
    &&& forall|i: int| 0 <= i < p.colors.len() ==> valid_hex(#[trigger] p.colors[i])
    &&& forall|i: int| 0 <= i < p.backgrounds.len() ==> valid_hex(#[trigger] p.backgrounds[i])
}

/// The colours and backgrounds of every built-in palette are colours.
pub proof fn lemma_palette_table_valid()
    ensures
        forall|i: int| 0 <= i < palette_table().len() ==> palette_entry_valid(
            #[trigger] palette_table()[i],
        ),
{
    lemma_entry_modern_noir_valid();
    lemma_entry_exhibition_1923_valid();
    lemma_entry_primary_valid();
    lemma_entry_kandinsky_valid();
    lemma_entry_sunset_valid();
    lemma_entry_ocean_valid();
    lemma_entry_albers_valid();
    lemma_entry_moholy_nagy_valid();
    lemma_entry_spring_valid();
    lemma_entry_summer_valid();
    lemma_entry_autumn_valid();
    lemma_entry_winter_valid();
    lemma_entry_monochrome_valid();
    lemma_entry_vibrant_valid();
    lemma_entry_comiskey01_valid();
    lemma_entry_comiskey02_valid();
}

} // verus!
