//! Where a generated pattern goes when no output path is given.

use vstd::prelude::*;
use crate::text::{append_str, is_digit, str_chars, string_from_chars};

verus! {

/// The timestamp pattern of default output names: date and time, `YYYYMMDD_HHMMSS`.
pub open spec fn stamp_pattern() -> Seq<char> {
    "%Y%m%d_%H%M%S"@
}

/// Every character of `s` is an ASCII decimal digit.
pub open spec fn all_digits(s: Seq<char>) -> bool {
    forall|i: int| 0 <= i < s.len() ==> is_digit(#[trigger] s[i])
}

/// The text of a year as `%Y` writes it: four digits for years `0..=9999`, else a
/// sign and at least four digits.
pub open spec fn is_year_text(y: Seq<char>) -> bool {
    (y.len() == 4 && all_digits(y)) || (y.len() >= 5 && (y[0] == '+' || y[0] == '-')
        && all_digits(y.drop_first()))
}

/// The shape of a timestamp in the pattern `stamp_pattern()`: the year, two digits
/// each of month and day, `_`, and two digits each of hour, minute and second.
pub open spec fn is_stamp(s: Seq<char>) -> bool {
    &&& s.len() >= 15
    &&& is_year_text(s.take(s.len() - 11))
    &&& all_digits(s.subrange(s.len() - 11, s.len() - 7))
    &&& s[s.len() - 7] == '_'
    &&& all_digits(s.subrange(s.len() - 6, s.len() as int))
}

/// `chrono::Local::now()` formatted by `DateTime::format` with the strftime `pattern`.
/// The pattern is limited to the one this library uses, which chrono formats without
/// error. The contract claims the shape of the text (`%Y` as four digits, or a sign
/// and more digits beyond `0..=9999`; `%m`, `%d`, `%H`, `%M`, `%S` as two digits
/// each); which date and time it holds depends on the clock and the time zone and is
/// not claimed.
#[verifier::external_body]
fn local_time_formatted(pattern: &str) -> (r: String)
    requires
        pattern@ == stamp_pattern(),
    ensures
        is_stamp(r@),
{
    chrono::Local::now().format(pattern).to_string()
}

/// The default output file name: `bauhaus_`, the local date and time as
/// `YYYYMMDD_HHMMSS`, `.svg`.
pub fn default_output_path() -> (r: String)
    ensures
        exists|stamp: Seq<char>| is_stamp(stamp) && r@ == "bauhaus_"@ + stamp + ".svg"@,
{
    let stamp = local_time_formatted("%Y%m%d_%H%M%S");
    let mut out = str_chars("bauhaus_");
    append_str(&mut out, stamp.as_str());
    append_str(&mut out, ".svg");
    string_from_chars(out.as_slice())
}

} // verus!
