//! Instants as storage hands them over, and their text form at the boundary.

use vstd::prelude::*;

verus! {

/// What `time::OffsetDateTime` shows (`to_string`) for the instant that lies
/// `nanos` nanoseconds after the Unix epoch, taken at offset UTC; `None`
/// where `OffsetDateTime::from_unix_timestamp_nanos` refuses the instant as
/// out of its range.
pub uninterp spec fn timestamp_text(nanos: i128) -> Option<Seq<char>>;

/// The view of a text that may be absent.
pub open spec fn text_view(text: Option<String>) -> Option<Seq<char>> {
    match text {
        Some(text) => Some(text@),
        None => None,
    }
}

/// Calls `time::OffsetDateTime::from_unix_timestamp_nanos` and, where that
/// gives a date-time, its `to_string`. Neither the range of instants that
/// are accepted nor the layout of the text is claimed: the result is only
/// given its name.
#[verifier::external_body]
fn format_timestamp(nanos: i128) -> (text: Option<String>)
    ensures
        text_view(text) == timestamp_text(nanos),
{
    match time::OffsetDateTime::from_unix_timestamp_nanos(nanos) {
        Ok(at) => Some(at.to_string()),
        Err(_) => None,
    }
}

/// An instant: nanoseconds since the Unix epoch, at offset UTC.
#[derive(Clone, Copy, Debug, PartialEq, Eq, Structural)]
pub struct Timestamp {
    pub nanos: i128,
}

impl Timestamp {
    /// Whether the instant has a text form.
    pub open spec fn representable(self) -> bool {
        timestamp_text(self.nanos) is Some
    }

    /// The text form of a representable instant.
    pub open spec fn text(self) -> Seq<char> {
        timestamp_text(self.nanos)->Some_0
    }

    /// Renders the instant in the canonical text form used at the boundary,
    /// or `None` for an instant that has none.
    pub fn to_text(&self) -> (text: Option<String>)
        ensures
            text is Some <==> self.representable(),
            text matches Some(t) ==> t@ == self.text(),
    {
        format_timestamp(self.nanos)
    }
}

} // verus!
