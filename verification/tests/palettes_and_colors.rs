use bauhaus::color::{normalize_color, validate_hex};
use bauhaus::error::Error;
use bauhaus::method::Method;
use bauhaus::palettes::{lookup, names, normalize_key, palette_listing};

#[test]
fn method_names_round_trip() {
    for m in [Method::Grid, Method::Wave, Method::Spiral, Method::Inflection, Method::Deflection] {
        assert_eq!(Method::parse(m.as_str()), Ok(m));
    }
}

#[test]
fn method_parse_ignores_case_and_spaces() {
    assert_eq!(Method::parse("  Spiral\n"), Ok(Method::Spiral));
    assert_eq!(Method::parse("WAVE"), Ok(Method::Wave));
}

#[test]
fn method_parse_refuses_unknown() {
    assert_eq!(
        Method::parse(" Zigzag "),
        Err(Error::UnknownMethod("zigzag".to_string()))
    );
}

#[test]
fn method_default_is_grid() {
    assert_eq!(Method::default(), Method::Grid);
}

#[test]
fn hex_colors_accepted() {
    assert_eq!(validate_hex("#FF6B00"), Ok(()));
    assert_eq!(validate_hex("ff6b00"), Ok(()));
    assert_eq!(validate_hex("##abcdef"), Ok(()));
}

#[test]
fn hex_colors_refused() {
    assert_eq!(validate_hex("#GG0000"), Err(Error::InvalidHex("#GG0000".to_string())));
    assert_eq!(validate_hex("#12345"), Err(Error::InvalidHex("#12345".to_string())));
    assert_eq!(validate_hex("#1234567"), Err(Error::InvalidHex("#1234567".to_string())));
    assert_eq!(validate_hex(""), Err(Error::InvalidHex(String::new())));
    assert_eq!(validate_hex("#12345é"), Err(Error::InvalidHex("#12345é".to_string())));
}

#[test]
fn normalize_color_adds_hash_once() {
    assert_eq!(normalize_color("abcdef"), "#abcdef");
    assert_eq!(normalize_color("#abcdef"), "#abcdef");
    assert_eq!(normalize_color(&normalize_color("abcdef")), "#abcdef");
}

#[test]
fn lookup_finds_builtin_names() {
    for name in ["Modern Noir", "Exhibition 1923", "Primary", "Kandinsky", "Sunset", "Ocean", "Albers", "Moholy-Nagy"] {
        let p = lookup(name).expect("built-in palette");
        assert_eq!(p.name, name);
    }
}

#[test]
fn lookup_ignores_case_and_punctuation() {
    assert_eq!(lookup("modern-noir").unwrap().name, "Modern Noir");
    assert_eq!(lookup("MODERN_NOIR").unwrap().name, "Modern Noir");
    assert_eq!(lookup("moholy nagy").unwrap().name, "Moholy-Nagy");
    assert_eq!(lookup(" exhibition1923 ").unwrap().name, "Exhibition 1923");
}

#[test]
fn lookup_finds_aliases() {
    assert_eq!(lookup("fall").unwrap().name, "Autumn");
    assert_eq!(lookup("Grayscale").unwrap().name, "Monochrome");
    assert_eq!(lookup("barrett02").unwrap().name, "Comiskey02");
}

#[test]
fn lookup_misses_unknown() {
    assert!(lookup("Neon").is_none());
    assert!(lookup("").is_none());
}

#[test]
fn lookup_gives_palette_data() {
    let p = lookup("primary").unwrap();
    assert_eq!(p.colors, vec!["#dd1f26", "#f5d600", "#006ab2", "#231f20"]);
    assert_eq!(p.backgrounds, vec!["#e7e7e7", "#ffffff"]);
    assert!(p.aliases.is_empty());
}

#[test]
fn names_label_aliases() {
    let n = names();
    assert_eq!(n.len(), 16);
    assert_eq!(n[0], "Modern Noir");
    assert!(n.contains(&"Autumn (aka Fall)".to_string()));
    assert!(n.contains(&"Comiskey01 (aka barrett01)".to_string()));
    assert_eq!(n[15], "Comiskey02 (aka barrett02)");
}

#[test]
fn listing_pads_labels() {
    let l = palette_listing();
    assert_eq!(l.len(), 16);
    assert_eq!(
        l[2],
        format!(
            "{:<28} colors: {}  backgrounds: {}",
            "Primary", "#dd1f26, #f5d600, #006ab2, #231f20", "#e7e7e7, #ffffff"
        )
    );
    assert!(l[10].starts_with(&format!("{:<28} colors: #D9480F", "Autumn (aka Fall)")));
    assert!(l[10].starts_with("Autumn (aka Fall)            colors: #D9480F"));
}

#[test]
fn name_keys() {
    assert_eq!(normalize_key("Moholy-Nagy"), "moholynagy");
    assert_eq!(normalize_key(" Exhibition_1923\t"), "exhibition1923");
    assert_eq!(normalize_key("ÉTÉ"), "été");
    assert_eq!(normalize_key("Modern.Noir!"), "modernnoir");
    assert_eq!(normalize_key("(Exhibition) 1923?"), "exhibition1923");
}

#[test]
fn lookup_ignores_punctuation() {
    let a = lookup("Modern.Noir").unwrap();
    let b = lookup("Modern Noir").unwrap();
    assert_eq!(a.name, "Modern Noir");
    assert_eq!(b.name, "Modern Noir");
    assert_eq!(lookup("moholy/nagy!").unwrap().name, "Moholy-Nagy");
    assert_eq!(lookup("'Primary'").unwrap().name, "Primary");
    assert!(lookup("Prim4ry").is_none());
}
