//! Calendar dates, read by `chrono`.

use vstd::prelude::*;

verus! {

/// What `chrono::NaiveDate::parse_from_str` makes of `text` under the format
/// `format`: the date it reads, written the way `chrono` displays a date, or
/// nothing where it reports an error.
pub uninterp spec fn calendar_date(text: Seq<char>, format: Seq<char>) -> Option<Seq<char>>;

/// Calls `chrono::NaiveDate::parse_from_str` and, where it yields a date, turns
/// the date into text with its `Display` form.
///
/// Not proved: that the result is `calendar_date` of the two arguments, that
/// is, that it depends on them alone.
#[verifier::external_body]
pub(crate) fn parse_date(text: &str, format: &str) -> (date: Option<String>)
    ensures
        match date {
            Some(d) => calendar_date(text@, format@) == Some(d@),
            None => calendar_date(text@, format@) is None,
        },
{
    match chrono::NaiveDate::parse_from_str(text, format) {
        Ok(day) => Some(day.to_string()),
        Err(_) => None,
    }
}

} // verus!
