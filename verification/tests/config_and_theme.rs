use bauhaus::config::{
    apply_overrides, overrides_ignore_dims, resolve_palette_spec, resolve_standalone,
    validate_dims, Config, PaletteSpec, Resolved,
};
use bauhaus::error::{Error, Field};
use bauhaus::method::Method;
use bauhaus::text::IntErrorKind;
use bauhaus::theme::{background_rect, metadata_block, parse_theme, svg_document};

fn strings(v: &[&str]) -> Vec<String> {
    v.iter().map(|s| s.to_string()).collect()
}

fn base() -> Resolved {
    Resolved {
        colors: strings(&["#112233", "aabbcc"]),
        background: Some("000000".to_string()),
        supersize: true,
        lines: false,
        limit: Some(5),
        method: Method::Spiral,
        columns: 12,
        rows: 8,
        size: 40,
    }
}

fn full_config() -> Config {
    let mut c = Config::default();
    c.palette = Some(PaletteSpec::Inline(strings(&["#FF0000", "00ff00"])));
    c.columns = Some(12);
    c.rows = Some(8);
    c.size = Some(40);
    c
}

#[test]
fn dims_ranges() {
    assert_eq!(validate_dims(4, 4, 20), Ok(()));
    assert_eq!(validate_dims(20, 20, 50), Ok(()));
    assert_eq!(validate_dims(3, 8, 40), Err(Error::ColumnsOutOfRange(3)));
    assert_eq!(validate_dims(21, 8, 40), Err(Error::ColumnsOutOfRange(21)));
    assert_eq!(validate_dims(12, 3, 40), Err(Error::RowsOutOfRange(3)));
    assert_eq!(validate_dims(12, 8, 19), Err(Error::SizeOutOfRange(19)));
    assert_eq!(validate_dims(12, 8, 51), Err(Error::SizeOutOfRange(51)));
    assert_eq!(validate_dims(0, 0, 0), Err(Error::ColumnsOutOfRange(0)));
}

#[test]
fn inline_palette_checks() {
    let mut rng = rand::thread_rng();
    assert_eq!(
        resolve_palette_spec(PaletteSpec::Inline(vec![]), &mut rng),
        Err(Error::PaletteLength(0))
    );
    let eleven = strings(&["#000000"; 11]);
    assert_eq!(
        resolve_palette_spec(PaletteSpec::Inline(eleven), &mut rng),
        Err(Error::PaletteLength(11))
    );
    assert_eq!(
        resolve_palette_spec(PaletteSpec::Inline(strings(&["#000000", "nope", "#12"])), &mut rng),
        Err(Error::InvalidHex("nope".to_string()))
    );
    let ten = strings(&["#010101"; 10]);
    assert_eq!(
        resolve_palette_spec(PaletteSpec::Inline(ten.clone()), &mut rng),
        Ok((ten, None))
    );
}

#[test]
fn named_palette_gives_colors_and_a_background() {
    let mut rng = rand::thread_rng();
    for _ in 0..20 {
        let (colors, bg) =
            resolve_palette_spec(PaletteSpec::Named("ocean".to_string()), &mut rng).unwrap();
        assert_eq!(colors, strings(&["#001219", "#005f73", "#0a9396", "#94d2bd", "#e9d8a6", "#ee9b00"]));
        let bg = bg.unwrap();
        assert!(["#ca6702", "#bb3e03", "#ae2012", "#9b2226"].contains(&bg.as_str()));
    }
    assert_eq!(
        resolve_palette_spec(PaletteSpec::Named("Neon".to_string()), &mut rng),
        Err(Error::UnknownPalette("Neon".to_string()))
    );
}

#[test]
fn standalone_requires_fields_in_order() {
    assert_eq!(resolve_standalone(Config::default()).err(), Some(Error::ConfigMissing(Field::Palette)));
    let mut c = full_config();
    c.columns = None;
    c.rows = None;
    assert_eq!(resolve_standalone(c).err(), Some(Error::ConfigMissing(Field::Columns)));
    let mut c = full_config();
    c.rows = None;
    assert_eq!(resolve_standalone(c).err(), Some(Error::ConfigMissing(Field::Rows)));
    let mut c = full_config();
    c.size = None;
    assert_eq!(resolve_standalone(c).err(), Some(Error::ConfigMissing(Field::Size)));
}

#[test]
fn standalone_defaults() {
    let r = resolve_standalone(full_config()).unwrap();
    assert_eq!(r.colors, strings(&["#FF0000", "00ff00"]));
    assert_eq!(r.background, None);
    assert!(!r.supersize);
    assert!(!r.lines);
    assert_eq!(r.limit, None);
    assert_eq!(r.method, Method::Grid);
    assert_eq!((r.columns, r.rows, r.size), (12, 8, 40));
}

#[test]
fn standalone_refusals() {
    let mut c = full_config();
    c.background = Some("#zzzzzz".to_string());
    assert_eq!(resolve_standalone(c).err(), Some(Error::InvalidHex("#zzzzzz".to_string())));
    let mut c = full_config();
    c.size = Some(60);
    assert_eq!(resolve_standalone(c).err(), Some(Error::SizeOutOfRange(60)));
    let mut c = full_config();
    c.limit = Some(0);
    assert_eq!(resolve_standalone(c).err(), Some(Error::LimitTooSmall(0)));
    let mut c = full_config();
    c.palette = Some(PaletteSpec::Inline(vec![]));
    c.background = Some("bad".to_string());
    assert_eq!(resolve_standalone(c).err(), Some(Error::PaletteLength(0)));
}

#[test]
fn standalone_named_background_and_overrides() {
    let mut c = full_config();
    c.palette = Some(PaletteSpec::Named("Primary".to_string()));
    c.method = Some(Method::Wave);
    c.supersize = Some(true);
    c.limit = Some(3);
    let r = resolve_standalone(c).unwrap();
    assert!(r.background == Some("#e7e7e7".to_string()) || r.background == Some("#ffffff".to_string()));
    assert_eq!(r.method, Method::Wave);
    assert!(r.supersize);
    assert_eq!(r.limit, Some(3));
    let mut c = full_config();
    c.palette = Some(PaletteSpec::Named("Primary".to_string()));
    c.background = Some("123456".to_string());
    assert_eq!(resolve_standalone(c).unwrap().background, Some("123456".to_string()));
}

#[test]
fn empty_overrides_keep_theme() {
    let r = apply_overrides(base(), Config::default()).unwrap();
    let b = base();
    assert_eq!(r.colors, b.colors);
    assert_eq!(r.background, b.background);
    assert_eq!((r.supersize, r.lines, r.limit, r.method), (b.supersize, b.lines, b.limit, b.method));
    assert_eq!((r.columns, r.rows, r.size), (b.columns, b.rows, b.size));
}

#[test]
fn overrides_replace_given_settings() {
    let mut c = Config::default();
    c.lines = Some(true);
    c.method = Some(Method::Deflection);
    c.columns = Some(5);
    assert!(overrides_ignore_dims(&c));
    let r = apply_overrides(base(), c).unwrap();
    assert!(r.lines);
    assert_eq!(r.method, Method::Deflection);
    assert_eq!(r.columns, 12);
    assert!(!overrides_ignore_dims(&Config::default()));
}

#[test]
fn overrides_palette_keeps_background_for_inline() {
    let mut c = Config::default();
    c.palette = Some(PaletteSpec::Inline(strings(&["#abcdef"])));
    let r = apply_overrides(base(), c).unwrap();
    assert_eq!(r.colors, strings(&["#abcdef"]));
    assert_eq!(r.background, Some("000000".to_string()));
}

#[test]
fn overrides_refusals() {
    let mut c = Config::default();
    c.background = Some("xyz".to_string());
    assert_eq!(apply_overrides(base(), c).err(), Some(Error::InvalidHex("xyz".to_string())));
    let mut c = Config::default();
    c.limit = Some(0);
    assert_eq!(apply_overrides(base(), c).err(), Some(Error::LimitTooSmall(0)));
    let mut c = Config::default();
    c.palette = Some(PaletteSpec::Named("nothing".to_string()));
    assert_eq!(apply_overrides(base(), c).err(), Some(Error::UnknownPalette("nothing".to_string())));
}

#[test]
fn metadata_block_text() {
    assert_eq!(
        metadata_block(&base()),
        "  <desc>bauhaus\ncolumns=12\nrows=8\nsize=40\nsupersize=true\nlines=false\nlimit=5\nmethod=spiral\npalette=#112233,#aabbcc\nbackground=#000000\n</desc>\n"
    );
    let mut b = base();
    b.limit = None;
    b.background = None;
    let m = metadata_block(&b);
    assert!(m.contains("\nlimit=none\n"));
    assert!(m.contains("\nbackground=none\n"));
}

#[test]
fn svg_document_text() {
    assert_eq!(
        svg_document(480, 320, "X"),
        "<svg xmlns=\"http://www.w3.org/2000/svg\" viewBox=\"0 0 480 320\" width=\"480\" height=\"320\" style=\"overflow:hidden\">\nX</svg>\n"
    );
    assert_eq!(
        background_rect(480, 320, "ffffff"),
        "  <rect width=\"480\" height=\"320\" fill=\"#ffffff\"/>\n"
    );
}

#[test]
fn theme_round_trip() {
    let b = base();
    let body = format!("{}  <g>{{{{C}}}}</g>\n", metadata_block(&b));
    let svg = svg_document(480, 320, &body);
    let r = parse_theme(&svg).unwrap();
    assert_eq!(r.colors, strings(&["#112233", "#aabbcc"]));
    assert_eq!(r.background, Some("#000000".to_string()));
    assert_eq!((r.supersize, r.lines, r.limit, r.method), (true, false, Some(5), Method::Spiral));
    assert_eq!((r.columns, r.rows, r.size), (12, 8, 40));
}

#[test]
fn theme_errors() {
    assert_eq!(parse_theme("<svg></svg>").err(), Some(Error::NoMetadata));
    assert_eq!(parse_theme("<desc>bauhaus\ncolumns=4").err(), Some(Error::UnclosedMetadata));
    assert_eq!(
        parse_theme("<desc>bauhaus\nrows=4\nsize=20\npalette=#000000\n</desc>").err(),
        Some(Error::ThemeMissing(Field::Columns))
    );
    assert_eq!(
        parse_theme("<desc>bauhaus\ncolumns=4\nrows=4\nsize=20\n</desc>").err(),
        Some(Error::ThemeMissing(Field::Palette))
    );
    assert_eq!(
        parse_theme("<desc>bauhaus\ncolumns=x\n</desc>").err(),
        Some(Error::MetadataNumber(Field::Columns, IntErrorKind::InvalidDigit))
    );
    assert_eq!(
        parse_theme("<desc>bauhaus\nsize=\n</desc>").err(),
        Some(Error::MetadataNumber(Field::Size, IntErrorKind::Empty))
    );
    assert_eq!(
        parse_theme("<desc>bauhaus\nlimit=4294967296\n</desc>").err(),
        Some(Error::MetadataNumber(Field::Limit, IntErrorKind::PosOverflow))
    );
    assert_eq!(
        parse_theme("<desc>bauhaus\nmethod= Zig \n</desc>").err(),
        Some(Error::MetadataMethod("zig".to_string()))
    );
    assert_eq!(
        parse_theme("<desc>bauhaus\ncolumns=4\nrows=4\nsize=20\npalette=#000000, nope\n</desc>").err(),
        Some(Error::InvalidHex("nope".to_string()))
    );
    assert_eq!(
        parse_theme("<desc>bauhaus\ncolumns=40\nrows=4\nsize=20\npalette=#000000\n</desc>").err(),
        Some(Error::ColumnsOutOfRange(40))
    );
}

#[test]
fn theme_reading_is_lenient() {
    let t = "x<desc>bauhaus\r\n  columns=+4 \nrows=4\nsize=20\njunk\nother=1\npalette= #000000 ,, ffffff ,\nlimit=none\nbackground=\nsupersize=yes\n</desc>";
    let r = parse_theme(t).unwrap();
    assert_eq!(r.columns, 4);
    assert_eq!(r.colors, strings(&["#000000", "ffffff"]));
    assert_eq!(r.limit, None);
    assert_eq!(r.background, None);
    assert!(!r.supersize);
    assert_eq!(r.method, Method::Grid);
}

#[test]
fn theme_parse_numbers_like_std() {
    for (text, want) in [("7", Ok(7u32)), ("+7", Ok(7)), ("-7", Err(IntErrorKind::InvalidDigit)), ("+", Err(IntErrorKind::InvalidDigit)), ("4294967295", Ok(u32::MAX)), ("99999999999x", Err(IntErrorKind::PosOverflow)), ("1x9999999999", Err(IntErrorKind::InvalidDigit))] {
        let t = format!("<desc>bauhaus\nlimit={text}\ncolumns=4\nrows=4\nsize=20\npalette=#000000\n</desc>");
        let got = parse_theme(&t).map(|r| r.limit.unwrap());
        let std_kind = text.parse::<u32>().map_err(|e| e.kind().clone());
        let want_err = want.map_err(|k| Error::MetadataNumber(Field::Limit, k));
        assert_eq!(got, want_err);
        match std_kind {
            Ok(n) => assert_eq!(Ok(n), parse_theme(&t).map(|r| r.limit.unwrap())),
            Err(k) => assert_eq!(format!("{:?}", k), match parse_theme(&t) { Err(Error::MetadataNumber(_, kind)) => format!("{:?}", kind), _ => String::new() }),
        }
    }
}

#[test]
fn config_survives_theme() {
    let mut c = full_config();
    c.palette = Some(PaletteSpec::Named("Kandinsky".to_string()));
    c.lines = Some(true);
    c.method = Some(Method::Inflection);
    let r = resolve_standalone(c).unwrap();
    let svg = svg_document(r.columns * r.size, r.rows * r.size, &metadata_block(&r));
    let back = parse_theme(&svg).unwrap();
    assert_eq!(back.colors, r.colors);
    assert_eq!(back.background, r.background);
    assert_eq!((back.supersize, back.lines, back.limit, back.method), (r.supersize, r.lines, r.limit, r.method));
    assert_eq!((back.columns, back.rows, back.size), (r.columns, r.rows, r.size));
}
