//! Configuration: what a config file may say, and how it resolves into the
//! settings of a pattern, on its own or as overrides of a theme.

use vstd::prelude::*;
use rand::rngs::ThreadRng;
use crate::color::{valid_hex, validate_hex};
use crate::error::{Error, ErrorView, Field};
use crate::method::Method;
use crate::palette_data::palette_table;
use crate::palettes::{lookup, lookup_index, strs_view};
use crate::random::{new_rng, pick_one};
use crate::text::{opt_string_view, str_to_string, strings_view};

verus! {

/// A palette as a config gives it: a built-in palette's name, or a list of colours.
#[derive(Debug)]
pub enum PaletteSpec {
    Named(String),
    Inline(Vec<String>),
}

/// The model of a [`PaletteSpec`].
pub enum PaletteSpecView {
    Named(Seq<char>),
    Inline(Seq<Seq<char>>),
}

impl View for PaletteSpec {
    type V = PaletteSpecView;

    open spec fn view(&self) -> PaletteSpecView {
        match self {
            PaletteSpec::Named(s) => PaletteSpecView::Named(s@),
            PaletteSpec::Inline(v) => PaletteSpecView::Inline(strings_view(v@)),
        }
    }
}

/// A config file's settings, each of them optional.
#[derive(Debug)]
pub struct Config {
    pub palette: Option<PaletteSpec>,
    pub background: Option<String>,
    pub supersize: Option<bool>,
    pub lines: Option<bool>,
    pub limit: Option<u32>,
    pub method: Option<Method>,
    pub columns: Option<u32>,
    pub rows: Option<u32>,
    pub size: Option<u32>,
}

/// The model of a [`Config`].
pub struct ConfigView {
    pub palette: Option<PaletteSpecView>,
    pub background: Option<Seq<char>>,
    pub supersize: Option<bool>,
    pub lines: Option<bool>,
    pub limit: Option<u32>,
    pub method: Option<Method>,
    pub columns: Option<u32>,
    pub rows: Option<u32>,
    pub size: Option<u32>,
}

impl View for Config {
    type V = ConfigView;

    open spec fn view(&self) -> ConfigView {
        ConfigView {
            palette: match self.palette {
                Some(p) => Some(p@),
                None => None,
            },
            background: opt_string_view(self.background),
            supersize: self.supersize,
            lines: self.lines,
            limit: self.limit,
            method: self.method,
            columns: self.columns,
            rows: self.rows,
            size: self.size,
        }
    }
}

impl Default for Config {
    /// A config that gives no setting at all.
    fn default() -> (r: Config)
        ensures
            r@ == empty_config(),
    {
        Config {
            palette: None,
            background: None,
            supersize: None,
            lines: None,
            limit: None,
            method: None,
            columns: None,
            rows: None,
            size: None,
        }
    }
}

/// The model of a config that gives no setting.
pub open spec fn empty_config() -> ConfigView {
    ConfigView {
        palette: None,
        background: None,
        supersize: None,
        lines: None,
        limit: None,
        method: None,
        columns: None,
        rows: None,
        size: None,
    }
}

/// The settings of a pattern.
#[derive(Debug)]
pub struct Resolved {
    pub colors: Vec<String>,
    pub background: Option<String>,
    pub supersize: bool,
    pub lines: bool,
    pub limit: Option<u32>,
    pub method: Method,
    pub columns: u32,
    pub rows: u32,
    pub size: u32,
}

/// The model of [`Resolved`].
pub struct ResolvedView {
    pub colors: Seq<Seq<char>>,
    pub background: Option<Seq<char>>,
    pub supersize: bool,
    pub lines: bool,
    pub limit: Option<u32>,
    pub method: Method,
    pub columns: u32,
    pub rows: u32,
    pub size: u32,
}

impl View for Resolved {
    type V = ResolvedView;

    open spec fn view(&self) -> ResolvedView {
        ResolvedView {
            colors: strings_view(self.colors@),
            background: opt_string_view(self.background),
            supersize: self.supersize,
            lines: self.lines,
            limit: self.limit,
            method: self.method,
            columns: self.columns,
            rows: self.rows,
            size: self.size,
        }
    }
}

// ---------------------------------------------------------------------------
// Checks
// ---------------------------------------------------------------------------

/// Grid dimensions and cell size are accepted when columns and rows lie in
/// `4..=20` and the cell size in `20..=50`; the first that does not is refused.
pub open spec fn dims_check(columns: u32, rows: u32, size: u32) -> Result<(), ErrorView> {
    if !(4 <= columns <= 20) {
        Err(ErrorView::ColumnsOutOfRange(columns))
    } else if !(4 <= rows <= 20) {
        Err(ErrorView::RowsOutOfRange(rows))
    } else if !(20 <= size <= 50) {
        Err(ErrorView::SizeOutOfRange(size))
    } else {
        Ok(())
    }
}

/// Accepts grid dimensions and a cell size, or refuses the first out of range.
pub fn validate_dims(columns: u32, rows: u32, size: u32) -> (r: Result<(), Error>)
    ensures
        match r {
            Ok(_) => dims_check(columns, rows, size) is Ok,
            Err(e) => dims_check(columns, rows, size) == Err::<(), ErrorView>(e@),
        },
{
    if !(4 <= columns && columns <= 20) {
        return Err(Error::ColumnsOutOfRange(columns));
    }
    if !(4 <= rows && rows <= 20) {
        return Err(Error::RowsOutOfRange(rows));
    }
    if !(20 <= size && size <= 50) {
        return Err(Error::SizeOutOfRange(size));
    }
    Ok(())
}

/// The first of `v` that is not a colour.
pub open spec fn first_invalid_hex(v: Seq<Seq<char>>) -> Option<Seq<char>>
    decreases v.len(),
{
    if v.len() == 0 {
        None
    } else if !valid_hex(v[0]) {
        Some(v[0])
    } else {
        first_invalid_hex(v.drop_first())
    }
}

pub proof fn lemma_first_invalid_hex(v: Seq<Seq<char>>)
    ensures
        first_invalid_hex(v) is None <==> forall|i: int| 0 <= i < v.len() ==> valid_hex(
            #[trigger] v[i],
        ),
    decreases v.len(),
{
    if v.len() > 0 {
        lemma_first_invalid_hex(v.drop_first());
        if first_invalid_hex(v) is None {
            assert forall|i: int| 0 <= i < v.len() implies valid_hex(#[trigger] v[i]) by {
                if i > 0 {
                    assert(v[i] == v.drop_first()[i - 1]);
                }
            }
        }
        if forall|i: int| 0 <= i < v.len() ==> valid_hex(#[trigger] v[i]) {
            assert forall|i: int| 0 <= i < v.drop_first().len() implies valid_hex(
                #[trigger] v.drop_first()[i],
            ) by {
                assert(v.drop_first()[i] == v[i + 1]);
            }
        }
    }
}

/// Refuses the first of `v` that is not a colour.
pub fn validate_all_hex(v: &Vec<String>) -> (r: Result<(), Error>)
    ensures
        match r {
            Ok(_) => first_invalid_hex(strings_view(v@)) is None,
            Err(e) => first_invalid_hex(strings_view(v@)) matches Some(c) && e@
                == ErrorView::InvalidHex(c),
        },
{
    let ghost all = strings_view(v@);
    let mut i: usize = 0;
    assert(all.skip(0) =~= all);
    while i < v.len()
        invariant
            all == strings_view(v@),
            i <= v@.len(),
            first_invalid_hex(all) == first_invalid_hex(all.skip(i as int)),
        decreases v@.len() - i,
    {
        proof {
            assert(all.skip(i as int).drop_first() =~= all.skip(i + 1));
            assert(all.skip(i as int)[0] == v@[i as int]@);
        }
        match validate_hex(v[i].as_str()) {
            Ok(_) => {},
            Err(e) => {
                return Err(e);
            },
        }
        i = i + 1;
    }
    assert(all.skip(i as int) =~= Seq::<Seq<char>>::empty());
    Ok(())
}

// ---------------------------------------------------------------------------
// Palettes
// ---------------------------------------------------------------------------

/// What an inline palette resolves to: its colours, once it has between one and ten
/// of them and each is a colour.
pub open spec fn inline_palette(v: Seq<Seq<char>>) -> Result<
    (Seq<Seq<char>>, Option<Seq<char>>),
    ErrorView,
> {
    if v.len() == 0 || v.len() > 10 {
        Err(ErrorView::PaletteLength(v.len() as usize))
    } else {
        match first_invalid_hex(v) {
            Some(c) => Err(ErrorView::InvalidHex(c)),
            None => Ok((v, None)),
        }
    }
}

/// `out` is an outcome of resolving the palette `p` into colours and a suggested
/// background: a named palette gives the built-in palette's colours and one of its
/// backgrounds (which one is drawn at random), or `UnknownPalette`; an inline
/// palette gives its own colours and no background, or the first refusal.
pub open spec fn palette_outcome(
    p: PaletteSpecView,
    out: Result<(Seq<Seq<char>>, Option<Seq<char>>), ErrorView>,
) -> bool {
    match p {
        PaletteSpecView::Named(name) => match lookup_index(name) {
            None => out == Err::<(Seq<Seq<char>>, Option<Seq<char>>), ErrorView>(
                ErrorView::UnknownPalette(name),
            ),
            Some(i) => {
                let pal = palette_table()[i];
                &&& out is Ok
                &&& out->Ok_0.0 == pal.colors
                &&& match out->Ok_0.1 {
                    None => pal.backgrounds.len() == 0,
                    Some(b) => pal.backgrounds.contains(b),
                }
            },
        },
        PaletteSpecView::Inline(v) => out == inline_palette(v),
    }
}

/// The model of a resolved palette.
pub open spec fn palette_result_view(r: Result<(Vec<String>, Option<String>), Error>) -> Result<
    (Seq<Seq<char>>, Option<Seq<char>>),
    ErrorView,
> {
    match r {
        Ok((c, b)) => Ok((strings_view(c@), opt_string_view(b))),
        Err(e) => Err(e@),
    }
}

/// Owned copies of static strings.
fn static_strs_to_strings(v: &Vec<&'static str>) -> (r: Vec<String>)
    ensures
        strings_view(r@) == strs_view(v@),
{
    let mut r: Vec<String> = Vec::new();
    let mut i: usize = 0;
    while i < v.len()
        invariant
            i <= v@.len(),
            r@.len() == i,
            strings_view(r@) == strs_view(v@).take(i as int),
        decreases v@.len() - i,
    {
        let ghost old_r = r@;
        let s = str_to_string(v[i]);
        r.push(s);
        proof {
            assert(r@ == old_r.push(s));
            assert forall|j: int| 0 <= j < i + 1 implies #[trigger] strings_view(r@)[j]
                == strs_view(v@).take(i + 1)[j] by {
                if j < i {
                    assert(strings_view(old_r)[j] == strs_view(v@).take(i as int)[j]);
                }
            }
        }
        i = i + 1;
        assert(strings_view(r@) =~= strs_view(v@).take(i as int));
    }
    assert(strs_view(v@).take(v@.len() as int) =~= strs_view(v@));
    r
}

/// Resolves a palette into its colours and, for a built-in palette, a background
/// drawn at random from those that suit it.
pub fn resolve_palette_spec(p: PaletteSpec, rng: &mut ThreadRng) -> (r: Result<
    (Vec<String>, Option<String>),
    Error,
>)
    ensures
        palette_outcome(p@, palette_result_view(r)),
{
    match p {
        PaletteSpec::Named(name) => {
            match lookup(name.as_str()) {
                None => Err(Error::UnknownPalette(name)),
                Some(pal) => {
                    let colors = static_strs_to_strings(&pal.colors);
                    let bg = match pick_one(pal.backgrounds.as_slice(), rng) {
                        Some(x) => {
                            let b = str_to_string(*x);
                            proof {
                                let k = choose|k: int|
                                    0 <= k < pal.backgrounds@.len() && pal.backgrounds@[k] == *x;
                                assert(strs_view(pal.backgrounds@)[k] == b@);
                            }
                            Some(b)
                        },
                        None => None,
                    };
                    Ok((colors, bg))
                },
            }
        },
        PaletteSpec::Inline(v) => {
            if v.len() == 0 || v.len() > 10 {
                return Err(Error::PaletteLength(v.len()));
            }
            match validate_all_hex(&v) {
                Ok(_) => Ok((v, None)),
                Err(e) => Err(e),
            }
        },
    }
}

// ---------------------------------------------------------------------------
// Standalone configs
// ---------------------------------------------------------------------------

/// The settings of a standalone config once its palette resolved to `colors`
/// with suggested background `pbg`: its own background must be a colour, the
/// dimensions in range and the limit at least one; unset flags are off, the
/// method defaults to grid, and the config's background wins over the palette's.
pub open spec fn standalone_finish(
    cfg: ConfigView,
    colors: Seq<Seq<char>>,
    pbg: Option<Seq<char>>,
) -> Result<ResolvedView, ErrorView> {
    let columns = cfg.columns.unwrap();
    let rows = cfg.rows.unwrap();
    let size = cfg.size.unwrap();
    if cfg.background matches Some(bg) && !valid_hex(bg) {
        Err(ErrorView::InvalidHex(cfg.background.unwrap()))
    } else if dims_check(columns, rows, size) is Err {
        Err(dims_check(columns, rows, size)->Err_0)
    } else if cfg.limit matches Some(l) && l < 1 {
        Err(ErrorView::LimitTooSmall(cfg.limit.unwrap()))
    } else {
        Ok(
            ResolvedView {
                colors,
                background: if cfg.background is Some {
                    cfg.background
                } else {
                    pbg
                },
                supersize: match cfg.supersize {
                    Some(b) => b,
                    None => false,
                },
                lines: match cfg.lines {
                    Some(b) => b,
                    None => false,
                },
                limit: cfg.limit,
                method: match cfg.method {
                    Some(m) => m,
                    None => Method::Grid,
                },
                columns,
                rows,
                size,
            },
        )
    }
}

/// `out` is an outcome of resolving a standalone config: it must give a palette,
/// columns, rows and size (refused in that order); then its palette resolves as
/// `palette_outcome` says, and the rest as `standalone_finish` says.
pub open spec fn standalone_outcome(cfg: ConfigView, out: Result<ResolvedView, ErrorView>) -> bool {
    if cfg.palette is None {
        out == Err::<ResolvedView, ErrorView>(ErrorView::ConfigMissing(Field::Palette))
    } else if cfg.columns is None {
        out == Err::<ResolvedView, ErrorView>(ErrorView::ConfigMissing(Field::Columns))
    } else if cfg.rows is None {
        out == Err::<ResolvedView, ErrorView>(ErrorView::ConfigMissing(Field::Rows))
    } else if cfg.size is None {
        out == Err::<ResolvedView, ErrorView>(ErrorView::ConfigMissing(Field::Size))
    } else {
        exists|pr: Result<(Seq<Seq<char>>, Option<Seq<char>>), ErrorView>|
            #[trigger] palette_outcome(cfg.palette.unwrap(), pr) && out == match pr {
                Err(e) => Err(e),
                Ok((colors, pbg)) => standalone_finish(cfg, colors, pbg),
            }
    }
}

/// The model of a resolution result.
pub open spec fn resolved_result_view(r: Result<Resolved, Error>) -> Result<ResolvedView, ErrorView> {
    match r {
        Ok(x) => Ok(x@),
        Err(e) => Err(e@),
    }
}

/// Resolves a config given without a theme: it must specify the palette and the
/// grid, and everything it gives must be valid.
pub fn resolve_standalone(cfg: Config) -> (r: Result<Resolved, Error>)
    ensures
        standalone_outcome(cfg@, resolved_result_view(r)),
{
    let mut rng = new_rng();
    let ghost c = cfg@;
    let Config { palette, background, supersize, lines, limit, method, columns, rows, size } = cfg;
    let palette = match palette {
        Some(p) => p,
        None => {
            return Err(Error::ConfigMissing(Field::Palette));
        },
    };
    let columns = match columns {
        Some(v) => v,
        None => {
            return Err(Error::ConfigMissing(Field::Columns));
        },
    };
    let rows = match rows {
        Some(v) => v,
        None => {
            return Err(Error::ConfigMissing(Field::Rows));
        },
    };
    let size = match size {
        Some(v) => v,
        None => {
            return Err(Error::ConfigMissing(Field::Size));
        },
    };
    let pr = resolve_palette_spec(palette, &mut rng);
    let ghost prv = palette_result_view(pr);
    assert(palette_outcome(c.palette.unwrap(), prv));
    let (colors, palette_bg) = match pr {
        Ok(x) => x,
        Err(e) => {
            return Err(e);
        },
    };
    let ghost colors_v = strings_view(colors@);
    let ghost pbg_v = opt_string_view(palette_bg);
    if let Some(bg) = &background {
        match validate_hex(bg.as_str()) {
            Ok(_) => {},
            Err(e) => {
                assert(resolved_result_view(Err(e)) == standalone_finish(c, colors_v, pbg_v));
                return Err(e);
            },
        }
    }
    match validate_dims(columns, rows, size) {
        Ok(_) => {},
        Err(e) => {
            return Err(e);
        },
    }
    if let Some(lim) = limit {
        if lim < 1 {
            return Err(Error::LimitTooSmall(lim));
        }
    }
    let background = match background {
        Some(b) => Some(b),
        None => palette_bg,
    };
    let r = Resolved {
        colors,
        background,
        supersize: match supersize {
            Some(b) => b,
            None => false,
        },
        lines: match lines {
            Some(b) => b,
            None => false,
        },
        limit,
        method: match method {
            Some(m) => m,
            None => Method::Grid,
        },
        columns,
        rows,
        size,
    };
    assert(resolved_result_view(Ok(r)) == standalone_finish(c, colors_v, pbg_v));
    Ok(r)
}

// ---------------------------------------------------------------------------
// Overrides of a theme
// ---------------------------------------------------------------------------

/// Applies the config's settings other than the palette to `b`: a background
/// must be a colour and a limit at least one (refused in that order); each
/// setting the config gives replaces the base's, the others stay.
pub open spec fn overrides_rest(b: ResolvedView, cfg: ConfigView) -> Result<ResolvedView, ErrorView> {
    if cfg.background matches Some(bg) && !valid_hex(bg) {
        Err(ErrorView::InvalidHex(cfg.background.unwrap()))
    } else if cfg.limit matches Some(l) && l < 1 {
        Err(ErrorView::LimitTooSmall(cfg.limit.unwrap()))
    } else {
        Ok(
            ResolvedView {
                colors: b.colors,
                background: if cfg.background is Some {
                    cfg.background
                } else {
                    b.background
                },
                supersize: match cfg.supersize {
                    Some(x) => x,
                    None => b.supersize,
                },
                lines: match cfg.lines {
                    Some(x) => x,
                    None => b.lines,
                },
                limit: if cfg.limit is Some {
                    cfg.limit
                } else {
                    b.limit
                },
                method: match cfg.method {
                    Some(m) => m,
                    None => b.method,
                },
                columns: b.columns,
                rows: b.rows,
                size: b.size,
            },
        )
    }
}

/// `b` with the colours of a resolved palette, and its suggested background when it has one.
pub open spec fn with_palette(
    b: ResolvedView,
    colors: Seq<Seq<char>>,
    pbg: Option<Seq<char>>,
) -> ResolvedView {
    ResolvedView {
        colors,
        background: if pbg is Some {
            pbg
        } else {
            b.background
        },
        ..b
    }
}

/// `out` is an outcome of applying a config's overrides to a theme's settings `b`:
/// a palette, when given, resolves as `palette_outcome` says and replaces the colours
/// (and the background, when it suggests one); then `overrides_rest` applies. The
/// grid (columns, rows, size) always stays the theme's.
pub open spec fn overrides_outcome(
    b: ResolvedView,
    cfg: ConfigView,
    out: Result<ResolvedView, ErrorView>,
) -> bool {
    match cfg.palette {
        None => out == overrides_rest(b, cfg),
        Some(p) => exists|pr: Result<(Seq<Seq<char>>, Option<Seq<char>>), ErrorView>|
            #[trigger] palette_outcome(p, pr) && out == match pr {
                Err(e) => Err(e),
                Ok((colors, pbg)) => overrides_rest(with_palette(b, colors, pbg), cfg),
            },
    }
}

/// Applies the settings a config gives on top of a theme's settings.
pub fn apply_overrides(base: Resolved, cfg: Config) -> (r: Result<Resolved, Error>)
    ensures
        overrides_outcome(base@, cfg@, resolved_result_view(r)),
{
    let mut rng = new_rng();
    let ghost c = cfg@;
    let ghost b0 = base@;
    let mut base = base;
    let Config { palette, background, supersize, lines, limit, method, columns, rows, size } = cfg;
    let ghost mut after_palette = b0;
    if let Some(p) = palette {
        let pr = resolve_palette_spec(p, &mut rng);
        let ghost prv = palette_result_view(pr);
        assert(palette_outcome(c.palette.unwrap(), prv));
        match pr {
            Ok((colors, palette_bg)) => {
                base.colors = colors;
                if let Some(bg) = palette_bg {
                    base.background = Some(bg);
                }
                proof {
                    after_palette = with_palette(b0, prv->Ok_0.0, prv->Ok_0.1);
                }
            },
            Err(e) => {
                return Err(e);
            },
        }
    }
    assert(base@ == after_palette);
    if let Some(bg) = background {
        match validate_hex(bg.as_str()) {
            Ok(_) => {},
            Err(e) => {
                assert(resolved_result_view(Err(e)) == overrides_rest(after_palette, c));
                return Err(e);
            },
        }
        base.background = Some(bg);
    }
    if let Some(ss) = supersize {
        base.supersize = ss;
    }
    if let Some(ln) = lines {
        base.lines = ln;
    }
    if let Some(lim) = limit {
        if lim < 1 {
            assert(resolved_result_view(Err(Error::LimitTooSmall(lim))) == overrides_rest(
                after_palette,
                c,
            ));
            return Err(Error::LimitTooSmall(lim));
        }
        base.limit = Some(lim);
    }
    if let Some(m) = method {
        base.method = m;
    }
    assert(resolved_result_view(Ok(base)) == overrides_rest(after_palette, c));
    Ok(base)
}

/// Whether the config gives grid settings, which a theme's grid overrides.
pub fn overrides_ignore_dims(cfg: &Config) -> (r: bool)
    ensures
        r == (cfg.columns is Some || cfg.rows is Some || cfg.size is Some),
{
    cfg.columns.is_some() || cfg.rows.is_some() || cfg.size.is_some()
}

/// A config that gives nothing leaves a theme's settings as they are.
pub proof fn law_empty_overrides_keep_base(b: ResolvedView, out: Result<ResolvedView, ErrorView>)
    requires
        overrides_outcome(b, empty_config(), out),
    ensures
        out == Ok::<ResolvedView, ErrorView>(b),
{
}

/// With a theme, the grid (columns, rows and cell size) always comes from the theme,
/// whatever the config gives.
pub proof fn law_overrides_keep_grid(b: ResolvedView, cfg: ConfigView, r: ResolvedView)
    requires
        overrides_outcome(b, cfg, Ok(r)),
    ensures
        r.columns == b.columns,
        r.rows == b.rows,
        r.size == b.size,
{
    if let Some(p) = cfg.palette {
        let pr = choose|pr: Result<(Seq<Seq<char>>, Option<Seq<char>>), ErrorView>|
            #[trigger] palette_outcome(p, pr) && Ok::<ResolvedView, ErrorView>(r) == match pr {
                Err(e) => Err(e),
                Ok((colors, pbg)) => overrides_rest(with_palette(b, colors, pbg), cfg),
            };
        assert(pr is Ok);
    }
}

/// A standalone config that names a built-in palette and gives no background gets
/// one of that palette's backgrounds.
pub proof fn law_named_palette_picks_background(cfg: ConfigView, name: Seq<char>, r: ResolvedView)
    requires
        standalone_outcome(cfg, Ok(r)),
        cfg.palette == Some(PaletteSpecView::Named(name)),
        cfg.background is None,
    ensures
        lookup_index(name) is Some,
        r.background is Some,
        palette_table()[lookup_index(name).unwrap()].backgrounds.contains(r.background.unwrap()),
{
    let pr = choose|pr: Result<(Seq<Seq<char>>, Option<Seq<char>>), ErrorView>|
        #[trigger] palette_outcome(cfg.palette.unwrap(), pr) && Ok::<ResolvedView, ErrorView>(r)
            == match pr {
            Err(e) => Err(e),
            Ok((colors, pbg)) => standalone_finish(cfg, colors, pbg),
        };
    assert(pr is Ok);
    let k = lookup_index(name).unwrap();
    crate::palettes::lemma_first_answering(crate::palettes::name_key(name), 0);
    lemma_every_palette_has_background(k);
}

/// A standalone config that resolves keeps what it gives: a flag is on exactly when
/// the config turns it on, the limit is the config's, the method the config's (grid
/// when it gives none), the grid the config's and within range, a background it
/// gives is the result's, and an inline palette's colours are the result's colours.
pub proof fn law_standalone_keeps_settings(cfg: ConfigView, r: ResolvedView)
    requires
        standalone_outcome(cfg, Ok(r)),
    ensures
        r.lines == (cfg.lines == Some(true)),
        r.supersize == (cfg.supersize == Some(true)),
        r.limit == cfg.limit,
        cfg.method matches Some(m) ==> r.method == m,
        cfg.method is None ==> r.method == Method::Grid,
        cfg.columns == Some(r.columns),
        cfg.rows == Some(r.rows),
        cfg.size == Some(r.size),
        4 <= r.columns <= 20,
        4 <= r.rows <= 20,
        20 <= r.size <= 50,
        cfg.background is Some ==> r.background == cfg.background,
        cfg.palette matches Some(PaletteSpecView::Inline(v)) ==> r.colors == v,
{
    let pr = choose|pr: Result<(Seq<Seq<char>>, Option<Seq<char>>), ErrorView>|
        #[trigger] palette_outcome(cfg.palette.unwrap(), pr) && Ok::<ResolvedView, ErrorView>(r)
            == match pr {
            Err(e) => Err(e),
            Ok((colors, pbg)) => standalone_finish(cfg, colors, pbg),
        };
    assert(pr is Ok);
}

/// A standalone config with an inline palette of one to ten colours, a grid within
/// range, no background or a colour, and no limit or one of at least one resolves.
pub proof fn law_standalone_inline_resolves(
    cfg: ConfigView,
    v: Seq<Seq<char>>,
    out: Result<ResolvedView, ErrorView>,
)
    requires
        cfg.palette == Some(PaletteSpecView::Inline(v)),
        1 <= v.len() <= 10,
        forall|i: int| 0 <= i < v.len() ==> valid_hex(#[trigger] v[i]),
        cfg.columns matches Some(c) && 4 <= c <= 20,
        cfg.rows matches Some(rw) && 4 <= rw <= 20,
        cfg.size matches Some(sz) && 20 <= sz <= 50,
        cfg.background matches Some(bg) ==> valid_hex(bg),
        cfg.limit matches Some(l) ==> l >= 1,
        standalone_outcome(cfg, out),
    ensures
        out is Ok,
        out->Ok_0.colors == v,
{
    lemma_first_invalid_hex(v);
}

/// Each setting that a config gives replaces the theme's, and each that it leaves
/// out stays the theme's: the flags, the limit, the method, the background and,
/// for an inline palette, the colours.
pub proof fn law_overrides_replace_given(b: ResolvedView, cfg: ConfigView, r: ResolvedView)
    requires
        overrides_outcome(b, cfg, Ok(r)),
    ensures
        cfg.supersize matches Some(x) ==> r.supersize == x,
        cfg.supersize is None ==> r.supersize == b.supersize,
        cfg.lines matches Some(x) ==> r.lines == x,
        cfg.lines is None ==> r.lines == b.lines,
        cfg.limit is Some ==> r.limit == cfg.limit,
        cfg.limit is None ==> r.limit == b.limit,
        cfg.method matches Some(m) ==> r.method == m,
        cfg.method is None ==> r.method == b.method,
        cfg.background is Some ==> r.background == cfg.background,
        cfg.palette is None && cfg.background is None ==> r.background == b.background,
        cfg.palette is None ==> r.colors == b.colors,
        cfg.palette matches Some(PaletteSpecView::Inline(v)) ==> r.colors == v,
{
    if let Some(p) = cfg.palette {
        let pr = choose|pr: Result<(Seq<Seq<char>>, Option<Seq<char>>), ErrorView>|
            #[trigger] palette_outcome(p, pr) && Ok::<ResolvedView, ErrorView>(r) == match pr {
                Err(e) => Err(e),
                Ok((colors, pbg)) => overrides_rest(with_palette(b, colors, pbg), cfg),
            };
        assert(pr is Ok);
    }
}

/// Every built-in palette has a background.
proof fn lemma_every_palette_has_background(k: int)
    requires
        0 <= k < palette_table().len(),
    ensures
        palette_table()[k].backgrounds.len() > 0,
{
}

} // verus!
