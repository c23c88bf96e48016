//! Publish-date validation. Feed items carry their date as RFC 2822 text;
//! a record whose date does not parse is skipped by the reconciler rather
//! than aborting the batch, and an accepted date is stored in its
//! normalized display form.
use vstd::prelude::*;

verus! {

/// What parsing RFC 2822 date text and displaying the parsed value
/// returns: `None` when the text is not a valid RFC 2822 date, else its
/// normalized form. The result is a function of the text alone.
pub uninterp spec fn spec_rfc2822_normalized(date: Seq<char>) -> Option<Seq<char>>;

/// Relies on `time::OffsetDateTime::parse` with the well-known RFC 2822
/// format, and on the `Display` form of the parsed value: both are
/// functions of the input text alone.
#[verifier::external_body]
fn parse_rfc2822(date: &str) -> (r: Option<String>)
    ensures
        r.deep_view() == spec_rfc2822_normalized(date@),
{
    match time::OffsetDateTime::parse(date, &time::format_description::well_known::Rfc2822) {
        Ok(parsed) => Some(parsed.to_string()),
        Err(_) => None,
    }
}

/// The normalized form of an RFC 2822 publish date, or `None` when the
/// text is not one.
pub fn normalize_publish_date(date: &str) -> (r: Option<String>)
    ensures
        r.deep_view() == spec_rfc2822_normalized(date@),
{
    parse_rfc2822(date)
}

} // verus!
