//! The colour/rotation layout methods and their names.

use vstd::prelude::*;
use crate::error::{Error, ErrorView};
use crate::text::{
    ascii_lower_chars, ascii_lower_seq, chars_eq_str, no_white_space, str_chars,
    string_from_chars, trim, trim_chars, lemma_trim_no_white_space,
};

verus! {

/// How cells pick their colours and rotations.
#[derive(PartialEq, Eq, Structural, Clone, Copy, Debug)]
pub enum Method {
    Grid,
    Wave,
    Spiral,
    Inflection,
    Deflection,
}

impl Default for Method {
    fn default() -> (r: Self)
        ensures
            r == Method::Grid,
    {
        Method::Grid
    }
}

/// The name under which a method is written.
pub open spec fn method_name(m: Method) -> Seq<char> {
    match m {
        Method::Grid => "grid"@,
        Method::Wave => "wave"@,
        Method::Spiral => "spiral"@,
        Method::Inflection => "inflection"@,
        Method::Deflection => "deflection"@,
    }
}

/// The method that `s` names, after trimming white space and lower-casing ASCII;
/// `UnknownMethod` with that trimmed, lower-cased text for any other name.
pub open spec fn parse_method(s: Seq<char>) -> Result<Method, ErrorView> {
    let t = ascii_lower_seq(trim(s));
    if t == "grid"@ {
        Ok(Method::Grid)
    } else if t == "wave"@ {
        Ok(Method::Wave)
    } else if t == "spiral"@ {
        Ok(Method::Spiral)
    } else if t == "inflection"@ {
        Ok(Method::Inflection)
    } else if t == "deflection"@ {
        Ok(Method::Deflection)
    } else {
        Err(ErrorView::UnknownMethod(t))
    }
}

impl Method {
    /// The name under which the method is written.
    pub fn as_str(self) -> (r: &'static str)
        ensures
            r@ == method_name(self),
    {
        match self {
            Method::Grid => "grid",
            Method::Wave => "wave",
            Method::Spiral => "spiral",
            Method::Inflection => "inflection",
            Method::Deflection => "deflection",
        }
    }

    /// The method that `s` names, ignoring surrounding white space and ASCII case.
    pub fn parse(s: &str) -> (r: Result<Method, Error>)
        ensures
            match r {
                Ok(m) => parse_method(s@) == Ok::<Method, ErrorView>(m),
                Err(e) => parse_method(s@) == Err::<Method, ErrorView>(e@),
            },
    {
        let cs = str_chars(s);
        let trimmed = trim_chars(cs.as_slice());
        let t = ascii_lower_chars(trimmed.as_slice());
        if chars_eq_str(t.as_slice(), "grid") {
            Ok(Method::Grid)
        } else if chars_eq_str(t.as_slice(), "wave") {
            Ok(Method::Wave)
        } else if chars_eq_str(t.as_slice(), "spiral") {
            Ok(Method::Spiral)
        } else if chars_eq_str(t.as_slice(), "inflection") {
            Ok(Method::Inflection)
        } else if chars_eq_str(t.as_slice(), "deflection") {
            Ok(Method::Deflection)
        } else {
            Err(Error::UnknownMethod(string_from_chars(t.as_slice())))
        }
    }
}

/// The names of the methods are lower-case ASCII letters.
pub proof fn lemma_method_name_plain(m: Method)
    ensures
        no_white_space(method_name(m)),
        ascii_lower_seq(method_name(m)) == method_name(m),
        method_name(m).len() > 0,
        forall|i: int| 0 <= i < method_name(m).len() ==> 'a' <= #[trigger] method_name(m)[i] <= 'z',
{
    reveal_strlit("grid");
    reveal_strlit("wave");
    reveal_strlit("spiral");
    reveal_strlit("inflection");
    reveal_strlit("deflection");
    let n = method_name(m);
    assert(ascii_lower_seq(n) =~= n);
}

/// Reading a method's name gives the method back.
pub proof fn law_method_name_round_trip(m: Method)
    ensures
        parse_method(method_name(m)) == Ok::<Method, ErrorView>(m),
{
    lemma_method_name_plain(m);
    lemma_trim_no_white_space(method_name(m));
    reveal_strlit("grid");
    reveal_strlit("wave");
    reveal_strlit("spiral");
    reveal_strlit("inflection");
    reveal_strlit("deflection");
    assert("grid"@[0] != "wave"@[0]);
    assert("inflection"@[0] != "deflection"@[0]);
    assert("grid"@.len() == 4 && "wave"@.len() == 4 && "spiral"@.len() == 6);
    assert("inflection"@.len() == 10 && "deflection"@.len() == 10);
}

} // verus!
