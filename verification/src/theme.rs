//! Theme metadata: the settings a generated SVG records about itself, and how a
//! theme SVG is read back into settings.

use vstd::prelude::*;
use crate::color::{
    is_color_char, lemma_normalized_valid, lemma_valid_hex_chars, normalize_color,
    normalized, strip_hashes, valid_hex,
};
use crate::config::{
    dims_check, first_invalid_hex, overrides_outcome, overrides_rest, palette_outcome,
    standalone_finish, standalone_outcome, validate_all_hex, validate_dims, with_palette,
    ConfigView, Resolved, ResolvedView,
};
use crate::error::{Error, ErrorView, Field};
use crate::method::{method_name, parse_method, Method};
use crate::text::{
    append_chars, append_str, ascii_lower_seq, char_vecs_view, chars_eq_str, decimal,
    decimal_exec, find, find_char, find_char_exec, find_exec, join, join_char_vecs, parse_u32,
    parse_u32_exec, slice_chars, split_char, split_char_exec, str_chars, string_from_chars,
    strings_view, trim, trim_chars, IntErrorKind, all_chars, is_white_space, lacks,
    no_white_space, is_digit,
};

verus! {

// ---------------------------------------------------------------------------
// Writing metadata
// ---------------------------------------------------------------------------

/// How a flag is written.
pub open spec fn bool_text(b: bool) -> Seq<char> {
    if b {
        "true"@
    } else {
        "false"@
    }
}

/// How a component limit is written: the number, or `none`.
pub open spec fn limit_text(l: Option<u32>) -> Seq<char> {
    match l {
        Some(n) => decimal(n as nat),
        None => "none"@,
    }
}

/// How a background is written: the `#`-prefixed colour, or `none`.
pub open spec fn background_text(b: Option<Seq<char>>) -> Seq<char> {
    match b {
        Some(c) => normalized(c),
        None => "none"@,
    }
}

/// A metadata line `key=value`.
pub open spec fn key_line(key: Seq<char>, value: Seq<char>) -> Seq<char> {
    key + seq!['='] + value
}

/// The colours, each `#`-prefixed.
pub open spec fn normalized_colors(cs: Seq<Seq<char>>) -> Seq<Seq<char>> {
    cs.map_values(|c: Seq<char>| normalized(c))
}

/// The lines of the metadata body, between an empty first and an empty last line.
pub open spec fn metadata_lines(r: ResolvedView) -> Seq<Seq<char>> {
    seq![
        Seq::<char>::empty(),
        key_line("columns"@, decimal(r.columns as nat)),
        key_line("rows"@, decimal(r.rows as nat)),
        key_line("size"@, decimal(r.size as nat)),
        key_line("supersize"@, bool_text(r.supersize)),
        key_line("lines"@, bool_text(r.lines)),
        key_line("limit"@, limit_text(r.limit)),
        key_line("method"@, method_name(r.method)),
        key_line("palette"@, join(normalized_colors(r.colors), seq![','])),
        key_line("background"@, background_text(r.background)),
        Seq::<char>::empty(),
    ]
}

/// The metadata body: the settings one per line, each line ended by a newline.
pub open spec fn metadata_body(r: ResolvedView) -> Seq<char> {
    join(metadata_lines(r), seq!['\n'])
}

/// The metadata element that a generated SVG carries for the settings `r`.
pub open spec fn metadata_text(r: ResolvedView) -> Seq<char> {
    "  "@ + "<desc>bauhaus"@ + metadata_body(r) + "</desc>"@ + "\n"@
}

fn key_line_exec(key: &str, value: &[char]) -> (r: Vec<char>)
    ensures
        r@ == key_line(key@, value@),
{
    let mut r = str_chars(key);
    r.push('=');
    append_chars(&mut r, value);
    r
}

fn bool_chars(b: bool) -> (r: Vec<char>)
    ensures
        r@ == bool_text(b),
{
    if b {
        str_chars("true")
    } else {
        str_chars("false")
    }
}

fn normalized_color_vecs(cs: &Vec<String>) -> (r: Vec<Vec<char>>)
    ensures
        char_vecs_view(r@) == normalized_colors(strings_view(cs@)),
{
    let ghost target = normalized_colors(strings_view(cs@));
    let mut r: Vec<Vec<char>> = Vec::new();
    let mut i: usize = 0;
    while i < cs.len()
        invariant
            i <= cs@.len(),
            r@.len() == i,
            target == normalized_colors(strings_view(cs@)),
            char_vecs_view(r@) == target.take(i as int),
        decreases cs@.len() - i,
    {
        let n = normalize_color(cs[i].as_str());
        let v = str_chars(n.as_str());
        let ghost old_r = r@;
        r.push(v);
        proof {
            assert forall|j: int| 0 <= j < i + 1 implies #[trigger] char_vecs_view(r@)[j]
                == target.take(i + 1)[j] by {
                if j < i {
                    assert(char_vecs_view(old_r)[j] == target.take(i as int)[j]);
                }
            }
        }
        i = i + 1;
        assert(char_vecs_view(r@) =~= target.take(i as int));
    }
    assert(target.take(cs@.len() as int) =~= target);
    r
}

/// The metadata element recording the settings `r`, as a generated SVG carries it.
pub fn metadata_block(r: &Resolved) -> (s: String)
    ensures
        s@ == metadata_text(r@),
{
    let mut lines: Vec<Vec<char>> = Vec::new();
    lines.push(Vec::new());
    lines.push(key_line_exec("columns", decimal_exec(r.columns).as_slice()));
    lines.push(key_line_exec("rows", decimal_exec(r.rows).as_slice()));
    lines.push(key_line_exec("size", decimal_exec(r.size).as_slice()));
    lines.push(key_line_exec("supersize", bool_chars(r.supersize).as_slice()));
    lines.push(key_line_exec("lines", bool_chars(r.lines).as_slice()));
    let limit = match r.limit {
        Some(n) => decimal_exec(n),
        None => str_chars("none"),
    };
    lines.push(key_line_exec("limit", limit.as_slice()));
    lines.push(key_line_exec("method", str_chars(r.method.as_str()).as_slice()));
    let colors = normalized_color_vecs(&r.colors);
    let palette = join_char_vecs(&colors, ',');
    lines.push(key_line_exec("palette", palette.as_slice()));
    let bg = match &r.background {
        Some(b) => str_chars(normalize_color(b.as_str()).as_str()),
        None => str_chars("none"),
    };
    lines.push(key_line_exec("background", bg.as_slice()));
    lines.push(Vec::new());
    assert(char_vecs_view(lines@) =~= metadata_lines(r@));
    let body = join_char_vecs(&lines, '\n');
    let mut out = str_chars("  ");
    append_str(&mut out, "<desc>bauhaus");
    append_chars(&mut out, body.as_slice());
    append_str(&mut out, "</desc>");
    append_str(&mut out, "\n");
    string_from_chars(out.as_slice())
}

// ---------------------------------------------------------------------------
// The SVG document around the metadata
// ---------------------------------------------------------------------------

/// The opening `<svg>` tag of a `w` by `h` pattern.
pub open spec fn svg_header(w: u32, h: u32) -> Seq<char> {
    "<svg xmlns=\"http://www.w3.org/2000/svg\" viewBox=\"0 0 "@ + decimal(w as nat) + " "@
        + decimal(h as nat) + "\" width=\""@ + decimal(w as nat) + "\" height=\""@ + decimal(
        h as nat,
    ) + "\" style=\"overflow:hidden\">\n"@
}

/// A `w` by `h` SVG document with the given body.
pub open spec fn svg_text(w: u32, h: u32, body: Seq<char>) -> Seq<char> {
    svg_header(w, h) + body + "</svg>\n"@
}

/// The SVG document of a `w` by `h` pattern around `body`.
pub fn svg_document(w: u32, h: u32, body: &str) -> (r: String)
    ensures
        r@ == svg_text(w, h, body@),
{
    let ws = decimal_exec(w);
    let hs = decimal_exec(h);
    let mut out = str_chars("<svg xmlns=\"http://www.w3.org/2000/svg\" viewBox=\"0 0 ");
    append_chars(&mut out, ws.as_slice());
    append_str(&mut out, " ");
    append_chars(&mut out, hs.as_slice());
    append_str(&mut out, "\" width=\"");
    append_chars(&mut out, ws.as_slice());
    append_str(&mut out, "\" height=\"");
    append_chars(&mut out, hs.as_slice());
    append_str(&mut out, "\" style=\"overflow:hidden\">\n");
    append_str(&mut out, body);
    append_str(&mut out, "</svg>\n");
    string_from_chars(out.as_slice())
}

/// The background rectangle covering a `w` by `h` pattern.
pub open spec fn background_rect_text(w: u32, h: u32, bg: Seq<char>) -> Seq<char> {
    "  <rect width=\""@ + decimal(w as nat) + "\" height=\""@ + decimal(h as nat) + "\" fill=\""@
        + normalized(bg) + "\"/>\n"@
}

/// The background rectangle spans the pattern and is filled with `bg` as a colour
/// with one leading `#`: `bg` itself when it already starts with `#`, else `#` and
/// `bg`; a valid colour gives a valid fill with the same hex digits.
pub proof fn law_background_fill(w: u32, h: u32, bg: Seq<char>)
    ensures
        bg.len() > 0 && bg[0] == '#' ==> background_rect_text(w, h, bg) == "  <rect width=\""@
            + decimal(w as nat) + "\" height=\""@ + decimal(h as nat) + "\" fill=\""@ + bg
            + "\"/>\n"@,
        !(bg.len() > 0 && bg[0] == '#') ==> background_rect_text(w, h, bg) == "  <rect width=\""@
            + decimal(w as nat) + "\" height=\""@ + decimal(h as nat) + "\" fill=\""@ + seq!['#']
            + bg + "\"/>\n"@,
        valid_hex(bg) ==> valid_hex(normalized(bg)) && strip_hashes(normalized(bg))
            == strip_hashes(bg),
{
    if !(bg.len() > 0 && bg[0] == '#') {
        let n = seq!['#'] + bg;
        assert(n.drop_first() =~= bg);
    }
}

/// The background rectangle covering a `w` by `h` pattern in colour `bg`.
pub fn background_rect(w: u32, h: u32, bg: &str) -> (r: String)
    ensures
        r@ == background_rect_text(w, h, bg@),
{
    let mut out = str_chars("  <rect width=\"");
    append_chars(&mut out, decimal_exec(w).as_slice());
    append_str(&mut out, "\" height=\"");
    append_chars(&mut out, decimal_exec(h).as_slice());
    append_str(&mut out, "\" fill=\"");
    append_str(&mut out, normalize_color(bg).as_str());
    append_str(&mut out, "\"/>\n");
    string_from_chars(out.as_slice())
}

// ---------------------------------------------------------------------------
// Reading metadata
// ---------------------------------------------------------------------------

/// The settings read so far from theme metadata.
pub struct ThemeAcc {
    pub columns: Option<u32>,
    pub rows: Option<u32>,
    pub size: Option<u32>,
    pub supersize: bool,
    pub lines: bool,
    pub limit: Option<u32>,
    pub method: Method,
    pub colors: Seq<Seq<char>>,
    pub background: Option<Seq<char>>,
}

/// What is known before the first metadata line: nothing set, flags off, grid method.
pub open spec fn theme_start() -> ThemeAcc {
    ThemeAcc {
        columns: None,
        rows: None,
        size: None,
        supersize: false,
        lines: false,
        limit: None,
        method: Method::Grid,
        colors: Seq::<Seq<char>>::empty(),
        background: None,
    }
}

/// The colours of a `palette=` value split at commas: each piece trimmed, empty ones dropped.
pub open spec fn palette_items(ps: Seq<Seq<char>>) -> Seq<Seq<char>>
    decreases ps.len(),
{
    if ps.len() == 0 {
        Seq::<Seq<char>>::empty()
    } else {
        (if trim(ps[0]).len() == 0 {
            Seq::<Seq<char>>::empty()
        } else {
            seq![trim(ps[0])]
        }) + palette_items(ps.drop_first())
    }
}

/// A number setting read from `v`.
pub open spec fn number_setting(v: Seq<char>, field: Field) -> Result<u32, ErrorView> {
    match parse_u32(v) {
        Ok(n) => Ok(n),
        Err(k) => Err(ErrorView::MetadataNumber(field, k)),
    }
}

/// `v` stands for no value: it is empty or `none`.
pub open spec fn is_none_text(v: Seq<char>) -> bool {
    v.len() == 0 || v == "none"@
}

/// Applies the setting `k` with value `v` to `acc`. Unknown settings are skipped.
pub open spec fn theme_setting(acc: ThemeAcc, k: Seq<char>, v: Seq<char>) -> Result<
    ThemeAcc,
    ErrorView,
> {
    if k == "columns"@ {
        match number_setting(v, Field::Columns) {
            Ok(n) => Ok(ThemeAcc { columns: Some(n), ..acc }),
            Err(e) => Err(e),
        }
    } else if k == "rows"@ {
        match number_setting(v, Field::Rows) {
            Ok(n) => Ok(ThemeAcc { rows: Some(n), ..acc }),
            Err(e) => Err(e),
        }
    } else if k == "size"@ {
        match number_setting(v, Field::Size) {
            Ok(n) => Ok(ThemeAcc { size: Some(n), ..acc }),
            Err(e) => Err(e),
        }
    } else if k == "supersize"@ {
        Ok(ThemeAcc { supersize: v == "true"@, ..acc })
    } else if k == "lines"@ {
        Ok(ThemeAcc { lines: v == "true"@, ..acc })
    } else if k == "limit"@ {
        if is_none_text(v) {
            Ok(ThemeAcc { limit: None, ..acc })
        } else {
            match number_setting(v, Field::Limit) {
                Ok(n) => Ok(ThemeAcc { limit: Some(n), ..acc }),
                Err(e) => Err(e),
            }
        }
    } else if k == "method"@ {
        match parse_method(v) {
            Ok(m) => Ok(ThemeAcc { method: m, ..acc }),
            Err(_) => Err(ErrorView::MetadataMethod(ascii_lower_seq(trim(v)))),
        }
    } else if k == "palette"@ {
        Ok(ThemeAcc { colors: palette_items(split_char(v, ',')), ..acc })
    } else if k == "background"@ {
        Ok(
            ThemeAcc {
                background: if is_none_text(v) {
                    None
                } else {
                    Some(v)
                },
                ..acc
            },
        )
    } else {
        Ok(acc)
    }
}

/// Reads one metadata line into `acc`. The line is trimmed; lines that are empty or
/// have no `=` are skipped; otherwise the text before the first `=` names the setting
/// and the text after it gives its value.
pub open spec fn theme_line(acc: ThemeAcc, line: Seq<char>) -> Result<ThemeAcc, ErrorView> {
    let t = trim(line);
    if t.len() == 0 {
        Ok(acc)
    } else {
        match find_char(t, '=') {
            None => Ok(acc),
            Some(i) => theme_setting(acc, t.take(i), t.skip(i + 1)),
        }
    }
}

/// Reads the metadata lines `ls` in order into `acc`, stopping at the first refusal.
pub open spec fn theme_lines(acc: ThemeAcc, ls: Seq<Seq<char>>) -> Result<ThemeAcc, ErrorView>
    decreases ls.len(),
{
    if ls.len() == 0 {
        Ok(acc)
    } else {
        match theme_line(acc, ls[0]) {
            Err(e) => Err(e),
            Ok(a) => theme_lines(a, ls.drop_first()),
        }
    }
}

/// The settings of a theme once all metadata lines are read: columns, rows, size and
/// a palette are required (in that order); every colour and the background must be
/// colours, and the grid in range.
pub open spec fn finish_theme(acc: ThemeAcc) -> Result<ResolvedView, ErrorView> {
    if acc.columns is None {
        Err(ErrorView::ThemeMissing(Field::Columns))
    } else if acc.rows is None {
        Err(ErrorView::ThemeMissing(Field::Rows))
    } else if acc.size is None {
        Err(ErrorView::ThemeMissing(Field::Size))
    } else if acc.colors.len() == 0 {
        Err(ErrorView::ThemeMissing(Field::Palette))
    } else if first_invalid_hex(acc.colors) is Some {
        Err(ErrorView::InvalidHex(first_invalid_hex(acc.colors).unwrap()))
    } else if acc.background matches Some(bg) && !valid_hex(bg) {
        Err(ErrorView::InvalidHex(acc.background.unwrap()))
    } else if dims_check(acc.columns.unwrap(), acc.rows.unwrap(), acc.size.unwrap()) is Err {
        Err(dims_check(acc.columns.unwrap(), acc.rows.unwrap(), acc.size.unwrap())->Err_0)
    } else {
        Ok(
            ResolvedView {
                colors: acc.colors,
                background: acc.background,
                supersize: acc.supersize,
                lines: acc.lines,
                limit: acc.limit,
                method: acc.method,
                columns: acc.columns.unwrap(),
                rows: acc.rows.unwrap(),
                size: acc.size.unwrap(),
            },
        )
    }
}

/// The settings that the theme SVG `raw` records: the body between the first
/// `<desc>bauhaus` and the next `</desc>`, read line by line.
pub open spec fn theme_settings(raw: Seq<char>) -> Result<ResolvedView, ErrorView> {
    match find(raw, "<desc>bauhaus"@) {
        None => Err(ErrorView::NoMetadata),
        Some(o) => {
            let rest = raw.skip(o + "<desc>bauhaus"@.len());
            match find(rest, "</desc>"@) {
                None => Err(ErrorView::UnclosedMetadata),
                Some(e) => match theme_lines(theme_start(), split_char(rest.take(e), '\n')) {
                    Err(x) => Err(x),
                    Ok(acc) => finish_theme(acc),
                },
            }
        },
    }
}

/// The settings read so far, as the reader holds them.
struct ThemeState {
    columns: Option<u32>,
    rows: Option<u32>,
    size: Option<u32>,
    supersize: bool,
    lines: bool,
    limit: Option<u32>,
    method: Method,
    colors: Vec<String>,
    background: Option<String>,
}

impl View for ThemeState {
    type V = ThemeAcc;

    closed spec fn view(&self) -> ThemeAcc {
        ThemeAcc {
            columns: self.columns,
            rows: self.rows,
            size: self.size,
            supersize: self.supersize,
            lines: self.lines,
            limit: self.limit,
            method: self.method,
            colors: strings_view(self.colors@),
            background: crate::text::opt_string_view(self.background),
        }
    }
}

fn number_setting_exec(v: &[char], field: Field) -> (r: Result<u32, Error>)
    ensures
        match r {
            Ok(n) => number_setting(v@, field) == Ok::<u32, ErrorView>(n),
            Err(e) => number_setting(v@, field) == Err::<u32, ErrorView>(e@),
        },
{
    match parse_u32_exec(v) {
        Ok(n) => Ok(n),
        Err(k) => Err(Error::MetadataNumber(field, k)),
    }
}

fn is_none_text_exec(v: &[char]) -> (r: bool)
    ensures
        r == is_none_text(v@),
{
    v.len() == 0 || chars_eq_str(v, "none")
}

fn palette_items_exec(v: &[char]) -> (r: Vec<String>)
    ensures
        strings_view(r@) == palette_items(split_char(v@, ',')),
{
    let pieces = split_char_exec(v, ',');
    let ghost all = split_char(v@, ',');
    let mut out: Vec<String> = Vec::new();
    let mut i: usize = 0;
    assert(all.skip(0) =~= all);
    assert(strings_view(out@) =~= Seq::<Seq<char>>::empty());
    while i < pieces.len()
        invariant
            pieces@.len() == all.len(),
            forall|j: int| 0 <= j < pieces@.len() ==> #[trigger] pieces@[j]@ == all[j],
            i <= pieces@.len(),
            palette_items(all) == strings_view(out@) + palette_items(all.skip(i as int)),
        decreases pieces@.len() - i,
    {
        let t = trim_chars(pieces[i].as_slice());
        let ghost old_out = out@;
        proof {
            assert(all.skip(i as int).drop_first() =~= all.skip(i + 1));
            assert(all.skip(i as int)[0] == all[i as int]);
        }
        if t.len() > 0 {
            let s = string_from_chars(t.as_slice());
            out.push(s);
            assert(strings_view(out@) =~= strings_view(old_out) + seq![t@]);
        } else {
            assert(strings_view(out@) =~= strings_view(old_out) + Seq::<Seq<char>>::empty());
        }
        i = i + 1;
    }
    assert(all.skip(i as int) =~= Seq::<Seq<char>>::empty());
    assert(strings_view(out@) + Seq::<Seq<char>>::empty() =~= strings_view(out@));
    out
}

/// The model of a step of the reader.
spec fn state_result_view(r: Result<ThemeState, Error>) -> Result<ThemeAcc, ErrorView> {
    match r {
        Ok(s) => Ok(s@),
        Err(e) => Err(e@),
    }
}

fn theme_line_exec(acc: ThemeState, line: &[char]) -> (r: Result<ThemeState, Error>)
    ensures
        state_result_view(r) == theme_line(acc@, line@),
{
    let t = trim_chars(line);
    if t.len() == 0 {
        return Ok(acc);
    }
    let i = match find_char_exec(t.as_slice(), '=') {
        None => {
            return Ok(acc);
        },
        Some(i) => i,
    };
    proof {
        crate::text::lemma_find_char(t@, '=');
    }
    let k = slice_chars(t.as_slice(), 0, i);
    let v = slice_chars(t.as_slice(), i + 1, t.len());
    assert(k@ =~= t@.take(i as int));
    assert(v@ =~= t@.skip(i + 1));
    let mut acc = acc;
    if chars_eq_str(k.as_slice(), "columns") {
        match number_setting_exec(v.as_slice(), Field::Columns) {
            Ok(n) => {
                acc.columns = Some(n);
            },
            Err(e) => {
                return Err(e);
            },
        }
    } else if chars_eq_str(k.as_slice(), "rows") {
        match number_setting_exec(v.as_slice(), Field::Rows) {
            Ok(n) => {
                acc.rows = Some(n);
            },
            Err(e) => {
                return Err(e);
            },
        }
    } else if chars_eq_str(k.as_slice(), "size") {
        match number_setting_exec(v.as_slice(), Field::Size) {
            Ok(n) => {
                acc.size = Some(n);
            },
            Err(e) => {
                return Err(e);
            },
        }
    } else if chars_eq_str(k.as_slice(), "supersize") {
        acc.supersize = chars_eq_str(v.as_slice(), "true");
    } else if chars_eq_str(k.as_slice(), "lines") {
        acc.lines = chars_eq_str(v.as_slice(), "true");
    } else if chars_eq_str(k.as_slice(), "limit") {
        if is_none_text_exec(v.as_slice()) {
            acc.limit = None;
        } else {
            match number_setting_exec(v.as_slice(), Field::Limit) {
                Ok(n) => {
                    acc.limit = Some(n);
                },
                Err(e) => {
                    return Err(e);
                },
            }
        }
    } else if chars_eq_str(k.as_slice(), "method") {
        let vs = string_from_chars(v.as_slice());
        match Method::parse(vs.as_str()) {
            Ok(m) => {
                acc.method = m;
            },
            Err(_) => {
                let low = crate::text::ascii_lower_chars(trim_chars(v.as_slice()).as_slice());
                return Err(Error::MetadataMethod(string_from_chars(low.as_slice())));
            },
        }
    } else if chars_eq_str(k.as_slice(), "palette") {
        acc.colors = palette_items_exec(v.as_slice());
    } else if chars_eq_str(k.as_slice(), "background") {
        if is_none_text_exec(v.as_slice()) {
            acc.background = None;
        } else {
            acc.background = Some(string_from_chars(v.as_slice()));
        }
    }
    Ok(acc)
}

fn finish_theme_exec(acc: ThemeState) -> (r: Result<Resolved, Error>)
    ensures
        crate::config::resolved_result_view(r) == finish_theme(acc@),
{
    let columns = match acc.columns {
        Some(v) => v,
        None => {
            return Err(Error::ThemeMissing(Field::Columns));
        },
    };
    let rows = match acc.rows {
        Some(v) => v,
        None => {
            return Err(Error::ThemeMissing(Field::Rows));
        },
    };
    let size = match acc.size {
        Some(v) => v,
        None => {
            return Err(Error::ThemeMissing(Field::Size));
        },
    };
    if acc.colors.len() == 0 {
        return Err(Error::ThemeMissing(Field::Palette));
    }
    match validate_all_hex(&acc.colors) {
        Ok(_) => {},
        Err(e) => {
            return Err(e);
        },
    }
    if let Some(bg) = &acc.background {
        match crate::color::validate_hex(bg.as_str()) {
            Ok(_) => {},
            Err(e) => {
                return Err(e);
            },
        }
    }
    match validate_dims(columns, rows, size) {
        Ok(_) => {},
        Err(e) => {
            return Err(e);
        },
    }
    Ok(
        Resolved {
            colors: acc.colors,
            background: acc.background,
            supersize: acc.supersize,
            lines: acc.lines,
            limit: acc.limit,
            method: acc.method,
            columns,
            rows,
            size,
        },
    )
}

/// Reads the settings that a theme SVG records in its `<desc>bauhaus` metadata.
pub fn parse_theme(raw: &str) -> (r: Result<Resolved, Error>)
    ensures
        crate::config::resolved_result_view(r) == theme_settings(raw@),
{
    let cs = str_chars(raw);
    let open_tag = str_chars("<desc>bauhaus");
    let close_tag = str_chars("</desc>");
    let o = match find_exec(cs.as_slice(), open_tag.as_slice()) {
        None => {
            return Err(Error::NoMetadata);
        },
        Some(o) => o,
    };
    proof {
        crate::text::lemma_find_from_some(cs@, open_tag@, 0);
    }
    let n = cs.len();
    assert(o + open_tag@.len() <= n);
    let bs = o + open_tag.len();
    let rest = slice_chars(cs.as_slice(), bs, cs.len());
    assert(rest@ =~= raw@.skip(o + "<desc>bauhaus"@.len()));
    let e = match find_exec(rest.as_slice(), close_tag.as_slice()) {
        None => {
            return Err(Error::UnclosedMetadata);
        },
        Some(e) => e,
    };
    proof {
        crate::text::lemma_find_from_some(rest@, close_tag@, 0);
    }
    let body = slice_chars(rest.as_slice(), 0, e);
    assert(body@ =~= rest@.take(e as int));
    let lines = split_char_exec(body.as_slice(), '\n');
    let ghost all = split_char(body@, '\n');
    let mut acc = ThemeState {
        columns: None,
        rows: None,
        size: None,
        supersize: false,
        lines: false,
        limit: None,
        method: Method::Grid,
        colors: Vec::new(),
        background: None,
    };
    assert(acc@ == theme_start()) by {
        assert(strings_view(acc.colors@) =~= Seq::<Seq<char>>::empty());
    }
    let mut i: usize = 0;
    assert(all.skip(0) =~= all);
    assert(theme_settings(raw@) == match theme_lines(theme_start(), all) {
        Err(x) => Err(x),
        Ok(a) => finish_theme(a),
    });
    while i < lines.len()
        invariant
            theme_settings(raw@) == match theme_lines(theme_start(), all) {
                Err(x) => Err(x),
                Ok(a) => finish_theme(a),
            },
            lines@.len() == all.len(),
            forall|j: int| 0 <= j < lines@.len() ==> #[trigger] lines@[j]@ == all[j],
            i <= lines@.len(),
            theme_lines(theme_start(), all) == theme_lines(acc@, all.skip(i as int)),
        decreases lines@.len() - i,
    {
        proof {
            assert(all.skip(i as int).drop_first() =~= all.skip(i + 1));
            assert(all.skip(i as int)[0] == all[i as int]);
        }
        acc = match theme_line_exec(acc, lines[i].as_slice()) {
            Ok(a) => a,
            Err(e) => {
                return Err(e);
            },
        };
        i = i + 1;
    }
    assert(all.skip(i as int) =~= Seq::<Seq<char>>::empty());
    finish_theme_exec(acc)
}

// ---------------------------------------------------------------------------
// Reading back what was written
// ---------------------------------------------------------------------------

/// Settings that a theme may record: at least one colour, every colour and the
/// background valid, the grid in range.
pub open spec fn theme_valid(r: ResolvedView) -> bool {
    &&& r.colors.len() >= 1
    &&& forall|i: int| 0 <= i < r.colors.len() ==> valid_hex(#[trigger] r.colors[i])
    &&& (r.background matches Some(b) ==> valid_hex(b))
    &&& dims_check(r.columns, r.rows, r.size) is Ok
}

/// The settings as metadata records them: colours and background `#`-prefixed.
pub open spec fn as_recorded(r: ResolvedView) -> ResolvedView {
    ResolvedView {
        colors: normalized_colors(r.colors),
        background: match r.background {
            Some(b) => Some(normalized(b)),
            None => None,
        },
        ..r
    }
}

/// A lower-case ASCII letter.
pub open spec fn is_lower_letter(c: char) -> bool {
    'a' <= c <= 'z'
}

/// A character of a metadata item: an ASCII letter or digit, or `#`.
pub open spec fn is_item_char(c: char) -> bool {
    ('0' <= c <= '9') || ('a' <= c <= 'z') || ('A' <= c <= 'Z') || c == '#'
}

/// A character of a metadata value: an item character or `,`.
pub open spec fn is_value_char(c: char) -> bool {
    is_item_char(c) || c == ','
}

/// A character of a metadata line: a value character or `=`.
pub open spec fn is_line_char(c: char) -> bool {
    is_value_char(c) || c == '='
}

proof fn lemma_line_chars_plain(s: Seq<char>)
    requires
        all_chars(s, |c: char| is_line_char(c)),
    ensures
        no_white_space(s),
        lacks(s, '\n'),
        lacks(s, '<'),
{
    assert forall|i: int| 0 <= i < s.len() implies !is_white_space(#[trigger] s[i]) by {
        assert(is_line_char(s[i]));
    }
    assert forall|i: int| 0 <= i < s.len() implies #[trigger] s[i] != '\n' by {
        assert(is_line_char(s[i]));
    }
    assert forall|i: int| 0 <= i < s.len() implies #[trigger] s[i] != '<' by {
        assert(is_line_char(s[i]));
    }
}

/// A line `key=value` reads as the setting `key` with value `value`.
proof fn lemma_key_line(acc: ThemeAcc, key: Seq<char>, v: Seq<char>)
    requires
        key.len() > 0,
        all_chars(key, |c: char| is_lower_letter(c)),
        all_chars(v, |c: char| is_value_char(c)),
    ensures
        theme_line(acc, key_line(key, v)) == theme_setting(acc, key, v),
        all_chars(key_line(key, v), |c: char| is_line_char(c)),
{
    let l = key_line(key, v);
    assert forall|i: int| 0 <= i < l.len() implies is_line_char(#[trigger] l[i]) by {
        if i < key.len() {
            assert(l[i] == key[i]);
            assert(is_lower_letter(key[i]));
        } else if i > key.len() {
            assert(l[i] == v[i - key.len() - 1]);
            assert(is_value_char(v[i - key.len() - 1]));
        }
    }
    lemma_line_chars_plain(l);
    crate::text::lemma_trim_no_white_space(l);
    assert(l[key.len() as int] == '=');
    assert forall|j: int| 0 <= j < key.len() implies l[j] != '=' by {
        assert(l[j] == key[j]);
        assert(is_lower_letter(key[j]));
    }
    crate::text::lemma_find_char_at(l, '=', key.len() as int);
    assert(l.take(key.len() as int) =~= key);
    assert(l.skip(key.len() + 1int) =~= v);
}

/// Reading the lines from `acc` steps over one line.
proof fn lemma_theme_lines_step(acc: ThemeAcc, ls: Seq<Seq<char>>, a: ThemeAcc)
    requires
        ls.len() > 0,
        theme_line(acc, ls[0]) == Ok::<ThemeAcc, ErrorView>(a),
    ensures
        theme_lines(acc, ls) == theme_lines(a, ls.drop_first()),
{
}

proof fn lemma_decimal_value(n: u32)
    ensures
        all_chars(decimal(n as nat), |c: char| is_value_char(c)),
        decimal(n as nat).len() > 0,
        is_digit(decimal(n as nat)[0]),
        parse_u32(decimal(n as nat)) == Ok::<u32, IntErrorKind>(n),
{
    crate::text::lemma_decimal_props(n as nat);
    crate::text::lemma_parse_decimal(n);
    let d = decimal(n as nat);
    assert forall|i: int| 0 <= i < d.len() implies is_value_char(#[trigger] d[i]) by {
        assert(is_digit(d[i]));
    }
}

proof fn lemma_keys_revealed()
    ensures
        all_chars("columns"@, |c: char| is_lower_letter(c)) && "columns"@.len() > 0,
        all_chars("rows"@, |c: char| is_lower_letter(c)) && "rows"@.len() > 0,
        all_chars("size"@, |c: char| is_lower_letter(c)) && "size"@.len() > 0,
        all_chars("supersize"@, |c: char| is_lower_letter(c)) && "supersize"@.len() > 0,
        all_chars("lines"@, |c: char| is_lower_letter(c)) && "lines"@.len() > 0,
        all_chars("limit"@, |c: char| is_lower_letter(c)) && "limit"@.len() > 0,
        all_chars("method"@, |c: char| is_lower_letter(c)) && "method"@.len() > 0,
        all_chars("palette"@, |c: char| is_lower_letter(c)) && "palette"@.len() > 0,
        all_chars("background"@, |c: char| is_lower_letter(c)) && "background"@.len() > 0,
        all_chars("true"@, |c: char| is_value_char(c)),
        all_chars("false"@, |c: char| is_value_char(c)),
        all_chars("none"@, |c: char| is_value_char(c)),
        "false"@ != "true"@,
        is_none_text("none"@),
        "none"@[0] == 'n',
{
    reveal_strlit("columns");
    reveal_strlit("rows");
    reveal_strlit("size");
    reveal_strlit("supersize");
    reveal_strlit("lines");
    reveal_strlit("limit");
    reveal_strlit("method");
    reveal_strlit("palette");
    reveal_strlit("background");
    reveal_strlit("true");
    reveal_strlit("false");
    reveal_strlit("none");
    assert("false"@.len() != "true"@.len());
}

/// The settings as metadata records them, before the final checks.
pub open spec fn recorded_acc(r: ResolvedView) -> ThemeAcc {
    ThemeAcc {
        columns: Some(r.columns),
        rows: Some(r.rows),
        size: Some(r.size),
        supersize: r.supersize,
        lines: r.lines,
        limit: r.limit,
        method: r.method,
        colors: normalized_colors(r.colors),
        background: match r.background {
            Some(b) => Some(normalized(b)),
            None => None,
        },
    }
}

proof fn lemma_palette_items_plain(xs: Seq<Seq<char>>)
    requires
        forall|i: int| 0 <= i < xs.len() ==> (#[trigger] xs[i]).len() > 0 && no_white_space(
            xs[i],
        ),
    ensures
        palette_items(xs) == xs,
    decreases xs.len(),
{
    if xs.len() > 0 {
        let t = xs.drop_first();
        assert forall|i: int| 0 <= i < t.len() implies (#[trigger] t[i]).len() > 0
            && no_white_space(t[i]) by {
            assert(t[i] == xs[i + 1]);
        }
        lemma_palette_items_plain(t);
        assert(xs[0].len() > 0 && no_white_space(xs[0]));
        crate::text::lemma_trim_no_white_space(xs[0]);
        assert(seq![xs[0]] + t =~= xs);
    }
}

/// The recorded colours, read back from the `palette=` value.
proof fn lemma_palette_value(colors: Seq<Seq<char>>)
    requires
        colors.len() >= 1,
        forall|i: int| 0 <= i < colors.len() ==> valid_hex(#[trigger] colors[i]),
    ensures
        all_chars(join(normalized_colors(colors), seq![',']), |c: char| is_value_char(c)),
        palette_items(split_char(join(normalized_colors(colors), seq![',']), ','))
            == normalized_colors(colors),
{
    let ncs = normalized_colors(colors);
    assert forall|i: int| 0 <= i < ncs.len() implies all_chars(
        #[trigger] ncs[i],
        |c: char| is_value_char(c),
    ) && lacks(ncs[i], ',') && ncs[i].len() > 0 && no_white_space(ncs[i]) by {
        assert(valid_hex(colors[i]));
        lemma_valid_hex_chars(colors[i]);
        assert(ncs[i] == normalized(colors[i]));
        assert forall|k: int| 0 <= k < ncs[i].len() implies is_value_char(#[trigger] ncs[i][k])
            && ncs[i][k] != ',' && !is_white_space(ncs[i][k]) by {
            assert(is_color_char(ncs[i][k]));
        }
    }
    assert(all_chars(seq![','], |c: char| is_value_char(c)));
    crate::text::lemma_join_chars(ncs, seq![','], |c: char| is_value_char(c));
    crate::text::lemma_split_join(ncs, ',');
    lemma_palette_items_plain(ncs);
}

proof fn lemma_reveal_keys()
    ensures
        "columns"@ == seq!['c', 'o', 'l', 'u', 'm', 'n', 's'],
        "rows"@ == seq!['r', 'o', 'w', 's'],
        "size"@ == seq!['s', 'i', 'z', 'e'],
        "supersize"@ == seq!['s', 'u', 'p', 'e', 'r', 's', 'i', 'z', 'e'],
        "lines"@ == seq!['l', 'i', 'n', 'e', 's'],
        "limit"@ == seq!['l', 'i', 'm', 'i', 't'],
        "method"@ == seq!['m', 'e', 't', 'h', 'o', 'd'],
        "palette"@ == seq!['p', 'a', 'l', 'e', 't', 't', 'e'],
        "background"@ == seq!['b', 'a', 'c', 'k', 'g', 'r', 'o', 'u', 'n', 'd'],
{
    reveal_strlit("columns");
    reveal_strlit("rows");
    reveal_strlit("size");
    reveal_strlit("supersize");
    reveal_strlit("lines");
    reveal_strlit("limit");
    reveal_strlit("method");
    reveal_strlit("palette");
    reveal_strlit("background");
}

proof fn lemma_line_columns(acc: ThemeAcc, n: u32)
    ensures
        theme_line(acc, key_line("columns"@, decimal(n as nat))) == Ok::<ThemeAcc, ErrorView>(
            ThemeAcc { columns: Some(n), ..acc },
        ),
        all_chars(key_line("columns"@, decimal(n as nat)), |c: char| is_line_char(c)),
{
    lemma_keys_revealed();
    lemma_reveal_keys();
    lemma_decimal_value(n);
    lemma_key_line(acc, "columns"@, decimal(n as nat));
}

proof fn lemma_line_rows(acc: ThemeAcc, n: u32)
    ensures
        theme_line(acc, key_line("rows"@, decimal(n as nat))) == Ok::<ThemeAcc, ErrorView>(
            ThemeAcc { rows: Some(n), ..acc },
        ),
        all_chars(key_line("rows"@, decimal(n as nat)), |c: char| is_line_char(c)),
{
    lemma_keys_revealed();
    lemma_reveal_keys();
    lemma_decimal_value(n);
    lemma_key_line(acc, "rows"@, decimal(n as nat));
}

proof fn lemma_line_size(acc: ThemeAcc, n: u32)
    ensures
        theme_line(acc, key_line("size"@, decimal(n as nat))) == Ok::<ThemeAcc, ErrorView>(
            ThemeAcc { size: Some(n), ..acc },
        ),
        all_chars(key_line("size"@, decimal(n as nat)), |c: char| is_line_char(c)),
{
    lemma_keys_revealed();
    lemma_reveal_keys();
    lemma_decimal_value(n);
    lemma_key_line(acc, "size"@, decimal(n as nat));
}

proof fn lemma_line_supersize(acc: ThemeAcc, b: bool)
    ensures
        theme_line(acc, key_line("supersize"@, bool_text(b))) == Ok::<ThemeAcc, ErrorView>(
            ThemeAcc { supersize: b, ..acc },
        ),
        all_chars(key_line("supersize"@, bool_text(b)), |c: char| is_line_char(c)),
{
    lemma_keys_revealed();
    lemma_reveal_keys();
    lemma_key_line(acc, "supersize"@, bool_text(b));
}

proof fn lemma_line_lines(acc: ThemeAcc, b: bool)
    ensures
        theme_line(acc, key_line("lines"@, bool_text(b))) == Ok::<ThemeAcc, ErrorView>(
            ThemeAcc { lines: b, ..acc },
        ),
        all_chars(key_line("lines"@, bool_text(b)), |c: char| is_line_char(c)),
{
    lemma_keys_revealed();
    lemma_reveal_keys();
    lemma_key_line(acc, "lines"@, bool_text(b));
}

proof fn lemma_line_limit(acc: ThemeAcc, l: Option<u32>)
    ensures
        theme_line(acc, key_line("limit"@, limit_text(l))) == Ok::<ThemeAcc, ErrorView>(
            ThemeAcc { limit: l, ..acc },
        ),
        all_chars(key_line("limit"@, limit_text(l)), |c: char| is_line_char(c)),
{
    lemma_keys_revealed();
    lemma_reveal_keys();
    match l {
        Some(n) => {
            lemma_decimal_value(n);
            assert(!is_none_text(decimal(n as nat)));
        },
        None => {},
    }
    lemma_key_line(acc, "limit"@, limit_text(l));
}

proof fn lemma_line_method(acc: ThemeAcc, m: Method)
    ensures
        theme_line(acc, key_line("method"@, method_name(m))) == Ok::<ThemeAcc, ErrorView>(
            ThemeAcc { method: m, ..acc },
        ),
        all_chars(key_line("method"@, method_name(m)), |c: char| is_line_char(c)),
{
    lemma_reveal_keys();
    crate::method::lemma_method_name_plain(m);
    crate::method::law_method_name_round_trip(m);
    let mn = method_name(m);
    assert forall|i: int| 0 <= i < mn.len() implies is_value_char(#[trigger] mn[i]) by {
        assert('a' <= mn[i] <= 'z');
    }
    lemma_keys_revealed();
    lemma_key_line(acc, "method"@, mn);
}

proof fn lemma_line_palette(acc: ThemeAcc, colors: Seq<Seq<char>>)
    requires
        colors.len() >= 1,
        forall|i: int| 0 <= i < colors.len() ==> valid_hex(#[trigger] colors[i]),
    ensures
        theme_line(acc, key_line("palette"@, join(normalized_colors(colors), seq![','])))
            == Ok::<ThemeAcc, ErrorView>(ThemeAcc { colors: normalized_colors(colors), ..acc }),
        all_chars(
            key_line("palette"@, join(normalized_colors(colors), seq![','])),
            |c: char| is_line_char(c),
        ),
{
    lemma_keys_revealed();
    lemma_reveal_keys();
    lemma_palette_value(colors);
    lemma_key_line(acc, "palette"@, join(normalized_colors(colors), seq![',']));
}

proof fn lemma_line_background(acc: ThemeAcc, bg: Option<Seq<char>>)
    requires
        bg matches Some(b) ==> valid_hex(b),
    ensures
        theme_line(acc, key_line("background"@, background_text(bg))) == Ok::<ThemeAcc, ErrorView>(
            ThemeAcc {
                background: match bg {
                    Some(b) => Some(normalized(b)),
                    None => None,
                },
                ..acc
            },
        ),
        all_chars(key_line("background"@, background_text(bg)), |c: char| is_line_char(c)),
{
    lemma_keys_revealed();
    lemma_reveal_keys();
    match bg {
        Some(b) => {
            lemma_valid_hex_chars(b);
            let nb = normalized(b);
            assert forall|k: int| 0 <= k < nb.len() implies is_value_char(#[trigger] nb[k]) by {
                assert(is_color_char(nb[k]));
            }
            assert(!is_none_text(nb));
        },
        None => {},
    }
    lemma_key_line(acc, "background"@, background_text(bg));
}

/// The metadata lines of valid settings read back as the recorded settings.
#[verifier::spinoff_prover]
#[verifier::rlimit(60)]
proof fn lemma_read_metadata_lines(r: ResolvedView)
    requires
        theme_valid(r),
    ensures
        theme_lines(theme_start(), metadata_lines(r)) == Ok::<ThemeAcc, ErrorView>(
            recorded_acc(r),
        ),
        forall|i: int| 0 <= i < metadata_lines(r).len() ==> all_chars(
            #[trigger] metadata_lines(r)[i],
            |c: char| is_line_char(c),
        ),
{
    let ls = metadata_lines(r);
    let a0 = theme_start();
    let a1 = ThemeAcc { columns: Some(r.columns), ..a0 };
    let a2 = ThemeAcc { rows: Some(r.rows), ..a1 };
    let a3 = ThemeAcc { size: Some(r.size), ..a2 };
    let a4 = ThemeAcc { supersize: r.supersize, ..a3 };
    let a5 = ThemeAcc { lines: r.lines, ..a4 };
    let a6 = ThemeAcc { limit: r.limit, ..a5 };
    let a7 = ThemeAcc { method: r.method, ..a6 };
    let a8 = ThemeAcc { colors: normalized_colors(r.colors), ..a7 };
    let a9 = recorded_acc(r);
    lemma_line_columns(a0, r.columns);
    lemma_line_rows(a1, r.rows);
    lemma_line_size(a2, r.size);
    lemma_line_supersize(a3, r.supersize);
    lemma_line_lines(a4, r.lines);
    lemma_line_limit(a5, r.limit);
    lemma_line_method(a6, r.method);
    lemma_line_palette(a7, r.colors);
    lemma_line_background(a8, r.background);
    assert(a9 == ThemeAcc {
        background: match r.background {
            Some(b) => Some(normalized(b)),
            None => None,
        },
        ..a8
    });
    let accs = seq![a0, a0, a1, a2, a3, a4, a5, a6, a7, a8, a9, a9];
    assert forall|j: int| 0 <= j < ls.len() implies theme_line(accs[j], #[trigger] ls[j]) == Ok::<
        ThemeAcc,
        ErrorView,
    >(accs[j + 1]) by {
        if j == 0 || j == 10 {
            assert(ls[j] =~= Seq::<char>::empty());
            assert(accs[j] == accs[j + 1]);
        }
    }
    lemma_fold_from(accs, ls, 0);
    assert(ls.skip(0) =~= ls);
    assert(ls.skip(11) =~= Seq::<Seq<char>>::empty());
    assert forall|i: int| 0 <= i < ls.len() implies all_chars(
        #[trigger] ls[i],
        |c: char| is_line_char(c),
    ) by {
        if i == 0 || i == 10 {
            assert(ls[i] =~= Seq::<char>::empty());
        }
    }
}

/// Stepping through lines whose readings are given in turn by `accs`.
proof fn lemma_fold_from(accs: Seq<ThemeAcc>, ls: Seq<Seq<char>>, k: int)
    requires
        accs.len() == ls.len() + 1,
        0 <= k <= ls.len(),
        forall|j: int| 0 <= j < ls.len() ==> theme_line(accs[j], #[trigger] ls[j]) == Ok::<
            ThemeAcc,
            ErrorView,
        >(accs[j + 1]),
    ensures
        theme_lines(accs[k], ls.skip(k)) == theme_lines(accs[ls.len() as int], ls.skip(
            ls.len() as int,
        )),
    decreases ls.len() - k,
{
    if k < ls.len() {
        assert(ls.skip(k)[0] == ls[k]);
        assert(ls.skip(k).drop_first() =~= ls.skip(k + 1));
        lemma_theme_lines_step(accs[k], ls.skip(k), accs[k + 1]);
        lemma_fold_from(accs, ls, k + 1);
    }
}

/// The recorded settings of valid settings pass the final checks.
proof fn lemma_finish_recorded(r: ResolvedView)
    requires
        theme_valid(r),
    ensures
        finish_theme(recorded_acc(r)) == Ok::<ResolvedView, ErrorView>(as_recorded(r)),
{
    let ncs = normalized_colors(r.colors);
    assert forall|i: int| 0 <= i < ncs.len() implies valid_hex(#[trigger] ncs[i]) by {
        assert(valid_hex(r.colors[i]));
        lemma_normalized_valid(r.colors[i]);
    }
    crate::config::lemma_first_invalid_hex(ncs);
    if let Some(b) = r.background {
        lemma_normalized_valid(b);
    }
    assert(finish_theme(recorded_acc(r)) == Ok::<ResolvedView, ErrorView>(as_recorded(r)));
}

proof fn lemma_concat_chars(a: Seq<char>, b: Seq<char>, p: spec_fn(char) -> bool)
    requires
        all_chars(a, p),
        all_chars(b, p),
    ensures
        all_chars(a + b, p),
{
    assert forall|k: int| 0 <= k < (a + b).len() implies p(#[trigger] (a + b)[k]) by {
        if k < a.len() {
            assert((a + b)[k] == a[k]);
        } else {
            assert((a + b)[k] == b[k - a.len()]);
        }
    }
}

proof fn lemma_decimal_no_lt(n: u32)
    ensures
        all_chars(decimal(n as nat), |c: char| c != '<'),
{
    crate::text::lemma_decimal_props(n as nat);
    let d = decimal(n as nat);
    assert forall|i: int| 0 <= i < d.len() implies #[trigger] d[i] != '<' by {
        assert(is_digit(d[i]));
    }
}

/// The SVG header holds a `<` only at its start, followed by `s`.
proof fn lemma_header_shape(w: u32, h: u32)
    ensures
        svg_header(w, h).len() >= 2,
        svg_header(w, h)[0] == '<',
        svg_header(w, h)[1] == 's',
        forall|j: int| 1 <= j < svg_header(w, h).len() ==> #[trigger] svg_header(w, h)[j] != '<',
{
    let l1 = "<svg xmlns=\"http://www.w3.org/2000/svg\" viewBox=\"0 0 "@;
    let l2 = " "@;
    let l3 = "\" width=\""@;
    let l4 = "\" height=\""@;
    let l5 = "\" style=\"overflow:hidden\">\n"@;
    reveal_strlit("<svg xmlns=\"http://www.w3.org/2000/svg\" viewBox=\"0 0 ");
    reveal_strlit(" ");
    reveal_strlit("\" width=\"");
    reveal_strlit("\" height=\"");
    reveal_strlit("\" style=\"overflow:hidden\">\n");
    let dw = decimal(w as nat);
    let dh = decimal(h as nat);
    lemma_decimal_no_lt(w);
    lemma_decimal_no_lt(h);
    let p = |c: char| c != '<';
    assert(all_chars(l1.skip(1), p)) by {
        assert forall|i: int| 0 <= i < l1.skip(1).len() implies #[trigger] l1.skip(1)[i] != '<' by {
            assert(l1.skip(1)[i] == l1[i + 1]);
        }
    }
    assert(all_chars(l2, p));
    assert(all_chars(l3, p));
    assert(all_chars(l4, p));
    assert(all_chars(l5, p));
    let tail = l1.skip(1) + dw + l2 + dh + l3 + dw + l4 + dh + l5;
    lemma_concat_chars(l1.skip(1), dw, p);
    lemma_concat_chars(l1.skip(1) + dw, l2, p);
    lemma_concat_chars(l1.skip(1) + dw + l2, dh, p);
    lemma_concat_chars(l1.skip(1) + dw + l2 + dh, l3, p);
    lemma_concat_chars(l1.skip(1) + dw + l2 + dh + l3, dw, p);
    lemma_concat_chars(l1.skip(1) + dw + l2 + dh + l3 + dw, l4, p);
    lemma_concat_chars(l1.skip(1) + dw + l2 + dh + l3 + dw + l4, dh, p);
    lemma_concat_chars(l1.skip(1) + dw + l2 + dh + l3 + dw + l4 + dh, l5, p);
    let hd = svg_header(w, h);
    assert(hd =~= seq![l1[0]] + tail);
    assert forall|j: int| 1 <= j < hd.len() implies #[trigger] hd[j] != '<' by {
        assert(hd[j] == tail[j - 1]);
    }
}

/// The metadata body holds no `<`.
proof fn lemma_body_shape(r: ResolvedView)
    requires
        theme_valid(r),
    ensures
        all_chars(metadata_body(r), |c: char| c != '<'),
        split_char(metadata_body(r), '\n') == metadata_lines(r),
{
    lemma_read_metadata_lines(r);
    let ls = metadata_lines(r);
    assert forall|i: int| 0 <= i < ls.len() implies all_chars(#[trigger] ls[i], |c: char| c != '<')
        && lacks(ls[i], '\n') by {
        assert(all_chars(ls[i], |c: char| is_line_char(c)));
        lemma_line_chars_plain(ls[i]);
    }
    assert(all_chars(seq!['\n'], |c: char| c != '<'));
    crate::text::lemma_join_chars(ls, seq!['\n'], |c: char| c != '<');
    crate::text::lemma_split_join(ls, '\n');
}

/// Reading a theme from an SVG whose body begins with the metadata of valid settings
/// gives those settings back, with colours and background `#`-prefixed.
pub proof fn law_theme_round_trip(r: ResolvedView, w: u32, h: u32, rest: Seq<char>)
    requires
        theme_valid(r),
    ensures
        theme_settings(svg_text(w, h, metadata_text(r) + rest)) == Ok::<ResolvedView, ErrorView>(
            as_recorded(r),
        ),
{
    let open = "<desc>bauhaus"@;
    let close = "</desc>"@;
    let sp = "  "@;
    let nl = "\n"@;
    reveal_strlit("<desc>bauhaus");
    reveal_strlit("</desc>");
    reveal_strlit("  ");
    reveal_strlit("\n");
    let hd = svg_header(w, h);
    let b = metadata_body(r);
    let raw = svg_text(w, h, metadata_text(r) + rest);
    let t = "</svg>\n"@;
    lemma_header_shape(w, h);
    lemma_body_shape(r);
    let p: int = hd.len() + 2int;
    assert(raw =~= hd + sp + open + b + close + nl + rest + t);
    // the opening tag
    assert(raw.subrange(p, p + open.len() as int) =~= open);
    assert forall|j: int| 0 <= j < p implies !crate::text::occurs_at(raw, open, j) by {
        if crate::text::occurs_at(raw, open, j) {
            assert(raw.subrange(j, j + open.len())[0] == open[0]);
            assert(raw.subrange(j, j + open.len())[1] == open[1]);
            assert(raw[j] == '<');
            if j == 0 {
                assert(raw[1] == hd[1]);
            } else if j < hd.len() {
                assert(raw[j] == hd[j]);
            } else {
                assert(raw[j] == sp[j - hd.len()]);
            }
        }
    }
    crate::text::lemma_find_from_at(raw, open, 0, p);
    // the closing tag
    let rest2 = raw.skip(p + open.len() as int);
    assert(rest2 =~= b + close + nl + rest + t);
    assert(rest2.subrange(b.len() as int, b.len() + close.len() as int) =~= close);
    assert forall|j: int| 0 <= j < b.len() implies !crate::text::occurs_at(rest2, close, j) by {
        if crate::text::occurs_at(rest2, close, j) {
            assert(rest2.subrange(j, j + close.len())[0] == close[0]);
            assert(rest2[j] == b[j]);
            assert(b[j] != '<');
        }
    }
    crate::text::lemma_find_from_at(rest2, close, 0, b.len() as int);
    assert(rest2.take(b.len() as int) =~= b);
    lemma_read_metadata_lines(r);
    lemma_finish_recorded(r);
}

// ---------------------------------------------------------------------------
// What every resolution keeps
// ---------------------------------------------------------------------------

/// A palette that resolves gives at least one colour, all of them colours, and a
/// suggested background that is a colour.
proof fn lemma_palette_outcome_valid(
    p: crate::config::PaletteSpecView,
    colors: Seq<Seq<char>>,
    pbg: Option<Seq<char>>,
)
    requires
        palette_outcome(p, Ok((colors, pbg))),
    ensures
        colors.len() >= 1,
        forall|i: int| 0 <= i < colors.len() ==> valid_hex(#[trigger] colors[i]),
        pbg matches Some(b) ==> valid_hex(b),
{
    match p {
        crate::config::PaletteSpecView::Named(name) => {
            let k = crate::palettes::lookup_index(name).unwrap();
            crate::palettes::lemma_first_answering(crate::palettes::name_key(name), 0);
            crate::palette_data::lemma_palette_table_valid();
            let pal = crate::palette_data::palette_table()[k];
            assert(crate::palette_data::palette_entry_valid(pal));
            if let Some(b) = pbg {
                let j = choose|j: int| 0 <= j < pal.backgrounds.len() && pal.backgrounds[j] == b;
                assert(valid_hex(pal.backgrounds[j]));
            }
        },
        crate::config::PaletteSpecView::Inline(v) => {
            crate::config::lemma_first_invalid_hex(v);
        },
    }
}

/// Settings resolved from a standalone config are valid theme settings: at least
/// one colour, every colour and the background valid, the grid in range.
pub proof fn law_standalone_result_valid(cfg: ConfigView, r: ResolvedView)
    requires
        standalone_outcome(cfg, Ok(r)),
    ensures
        theme_valid(r),
{
    let pr = choose|pr: Result<(Seq<Seq<char>>, Option<Seq<char>>), ErrorView>|
        #[trigger] palette_outcome(cfg.palette.unwrap(), pr) && Ok::<ResolvedView, ErrorView>(r)
            == match pr {
            Err(e) => Err(e),
            Ok((colors, pbg)) => standalone_finish(cfg, colors, pbg),
        };
    let (colors, pbg) = pr->Ok_0;
    lemma_palette_outcome_valid(cfg.palette.unwrap(), colors, pbg);
}

/// Applying a config's overrides to valid theme settings keeps them valid.
pub proof fn law_overrides_keep_valid(b: ResolvedView, cfg: ConfigView, r: ResolvedView)
    requires
        theme_valid(b),
        overrides_outcome(b, cfg, Ok(r)),
    ensures
        theme_valid(r),
{
    match cfg.palette {
        None => {},
        Some(p) => {
            let pr = choose|pr: Result<(Seq<Seq<char>>, Option<Seq<char>>), ErrorView>|
                #[trigger] palette_outcome(p, pr) && Ok::<ResolvedView, ErrorView>(r) == match pr {
                    Err(e) => Err(e),
                    Ok((colors, pbg)) => overrides_rest(with_palette(b, colors, pbg), cfg),
                };
            let (colors, pbg) = pr->Ok_0;
            lemma_palette_outcome_valid(p, colors, pbg);
        },
    }
}

/// Settings read from a theme are valid theme settings.
pub proof fn law_theme_settings_valid(raw: Seq<char>, r: ResolvedView)
    requires
        theme_settings(raw) == Ok::<ResolvedView, ErrorView>(r),
    ensures
        theme_valid(r),
{
    let o = find(raw, "<desc>bauhaus"@).unwrap();
    let rest = raw.skip(o + "<desc>bauhaus"@.len());
    let e = find(rest, "</desc>"@).unwrap();
    let acc = theme_lines(theme_start(), split_char(rest.take(e), '\n'))->Ok_0;
    crate::config::lemma_first_invalid_hex(acc.colors);
}

/// A pattern generated from a standalone config carries its settings: reading its
/// SVG back as a theme gives the same settings, with colours `#`-prefixed.
pub proof fn law_config_survives_theme(
    cfg: ConfigView,
    r: ResolvedView,
    w: u32,
    h: u32,
    rest: Seq<char>,
)
    requires
        standalone_outcome(cfg, Ok(r)),
    ensures
        theme_settings(svg_text(w, h, metadata_text(r) + rest)) == Ok::<ResolvedView, ErrorView>(
            as_recorded(r),
        ),
{
    law_standalone_result_valid(cfg, r);
    law_theme_round_trip(r, w, h, rest);
}

} // verus!
