use bauhaus::error::Error;
use bauhaus::method::Method;
use bauhaus::output::default_output_path;
use bauhaus::svg::{
    clamp_anchor, color_for_draws, extract_svg_inner, limit_components, line_orientation, lines_count, pick_color,
    pick_rotation, place_supersize_block, substitute_colors_phased, supersize_count,
};

fn strings(v: &[&str]) -> Vec<String> {
    v.iter().map(|s| s.to_string()).collect()
}

#[test]
fn component_body_extracted() {
    let svg = "<?xml version=\"1.0\"?>\n<svg xmlns=\"http://www.w3.org/2000/svg\" viewBox=\"0 0 100 100\">\n  <rect fill=\"{{C}}\"/>\n</svg>\n";
    assert_eq!(extract_svg_inner(svg), Ok("<rect fill=\"{{C}}\"/>".to_string()));
}

#[test]
fn component_body_takes_last_close() {
    assert_eq!(extract_svg_inner("<svg a><svg>x</svg></svg>"), Ok("<svg>x</svg>".to_string()));
}

#[test]
fn component_errors() {
    assert_eq!(extract_svg_inner("<rect/>"), Err(Error::MissingSvgElement));
    assert_eq!(extract_svg_inner("<svg xmlns"), Err(Error::MalformedSvgTag));
    assert_eq!(extract_svg_inner("<svg>body"), Err(Error::MissingSvgClose));
    assert_eq!(extract_svg_inner("<svg></svg>"), Err(Error::EmptySvgBody));
    assert_eq!(extract_svg_inner("</svg><svg>"), Err(Error::EmptySvgBody));
}

#[test]
fn component_whitespace_body_is_empty_string() {
    assert_eq!(extract_svg_inner("<svg>   </svg>"), Ok(String::new()));
}

#[test]
fn substitution_without_tokens_keeps_template() {
    let mut rng = rand::thread_rng();
    let p = strings(&["#111111"]);
    assert_eq!(substitute_colors_phased("<g/>", &p, Method::Grid, 0, &mut rng), "<g/>");
}

#[test]
fn substitution_with_one_colour() {
    let mut rng = rand::thread_rng();
    let p = strings(&["abcdef"]);
    assert_eq!(
        substitute_colors_phased("a{{C}}b{{C}}{{C}}c{{C", &p, Method::Wave, 0, &mut rng),
        "a#abcdefb#abcdef#abcdefc{{C"
    );
}

#[test]
fn substitution_draws_from_neighbourhood() {
    let mut rng = rand::thread_rng();
    let p = strings(&["#000000", "#111111", "#222222", "#333333", "#444444"]);
    for _ in 0..50 {
        let out = substitute_colors_phased("{{C}}", &p, Method::Spiral, 0, &mut rng);
        assert!(["#444444", "#000000", "#111111"].contains(&out.as_str()), "{out}");
    }
}

#[test]
fn pick_color_wraps() {
    let mut rng = rand::thread_rng();
    let p = strings(&["a", "b", "c"]);
    for _ in 0..50 {
        let c = pick_color(&p, Method::Inflection, 3, &mut rng);
        assert!(["c", "a", "b"].contains(&c.as_str()));
        let c = pick_color(&p, Method::Deflection, 1, &mut rng);
        assert!(["a", "b", "c"].contains(&c.as_str()));
        let c = pick_color(&p, Method::Grid, 100, &mut rng);
        assert!(p.contains(c));
    }
}

#[test]
fn rotations() {
    let mut rng = rand::thread_rng();
    assert_eq!(pick_rotation(Method::Wave, 0, &mut rng), 0);
    assert_eq!(pick_rotation(Method::Wave, 2, &mut rng), 180);
    assert_eq!(pick_rotation(Method::Spiral, 4, &mut rng), 270);
    for _ in 0..20 {
        assert!([0, 90, 180, 270].contains(&pick_rotation(Method::Grid, 1, &mut rng)));
    }
}

#[test]
fn anchors_clamp() {
    assert_eq!(clamp_anchor(-3, 12), 0);
    assert_eq!(clamp_anchor(5, 12), 5);
    assert_eq!(clamp_anchor(12, 12), 11);
}

#[test]
fn limits() {
    let all = strings(&["a", "b", "c", "d"]);
    assert_eq!(limit_components(all.clone(), None), all);
    let two = limit_components(all.clone(), Some(2));
    assert_eq!(two.len(), 2);
    assert!(two.iter().all(|c| all.contains(c)));
    assert_ne!(two[0], two[1]);
    let mut more = limit_components(all.clone(), Some(10));
    more.sort();
    assert_eq!(more, all);
}

#[test]
fn default_output_name() {
    let p = default_output_path();
    assert!(p.starts_with("bauhaus_"));
    assert!(p.ends_with(".svg"));
    assert_eq!(p.len(), "bauhaus_".len() + 15 + ".svg".len());
    let stamp: Vec<char> = p["bauhaus_".len()..p.len() - ".svg".len()].chars().collect();
    for (i, c) in stamp.iter().enumerate() {
        if i == 8 {
            assert_eq!(*c, '_');
        } else {
            assert!(c.is_ascii_digit(), "{p}");
        }
    }
}

#[test]
fn colors_from_draws() {
    let p = strings(&["a", "b", "c", "d"]);
    assert_eq!(color_for_draws(&p, 1, true, false), "b");
    assert_eq!(color_for_draws(&p, 1, true, true), "b");
    assert_eq!(color_for_draws(&p, 1, false, true), "a");
    assert_eq!(color_for_draws(&p, 1, false, false), "c");
    assert_eq!(color_for_draws(&p, 0, false, true), "d");
    assert_eq!(color_for_draws(&p, 3, false, false), "a");
    assert_eq!(color_for_draws(&p, -1, true, false), "d");
    assert_eq!(color_for_draws(&p, 9, false, true), "a");
    assert_eq!(color_for_draws(&p, i64::MAX, false, false), "a");
    assert_eq!(color_for_draws(&p, i64::MIN, false, true), "d");
}

#[test]
fn supersize_and_line_counts() {
    let mut rng = rand::thread_rng();
    for _ in 0..50 {
        let n = supersize_count(&mut rng);
        assert!((10..=24).contains(&n));
        let m = lines_count(&mut rng);
        assert!((4..=12).contains(&m));
        let _ = line_orientation(&mut rng);
    }
}

#[test]
fn supersize_blocks_overlap_canvas() {
    let mut rng = rand::thread_rng();
    let comps = strings(&["a", "b"]);
    for _ in 0..100 {
        let (p, c) = place_supersize_block(&comps, 6, 4, &mut rng);
        assert!([3, 4, 6].contains(&p.factor));
        let f = p.factor as i32;
        assert!(1 - f <= p.col && p.col < 6);
        assert!(1 - f <= p.row && p.row < 4);
        assert_eq!(p.anchor_col, p.col.clamp(0, 5) as u32);
        assert_eq!(p.anchor_row, p.row.clamp(0, 3) as u32);
        assert!(comps.contains(c));
    }
}

#[test]
fn orientation_draws() {
    use_orientation();
}

fn use_orientation() {
    assert_eq!(bauhaus::svg::orientation_from_draw(0), bauhaus::svg::LineOrientation::Horizontal);
    assert_eq!(bauhaus::svg::orientation_from_draw(1), bauhaus::svg::LineOrientation::Vertical);
    assert_eq!(bauhaus::svg::orientation_from_draw(2), bauhaus::svg::LineOrientation::Diagonal);
    assert_eq!(bauhaus::svg::orientation_from_draw(3), bauhaus::svg::LineOrientation::AntiDiagonal);
}
