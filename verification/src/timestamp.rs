//! Points in time, counted in microseconds since the Unix epoch.

use vstd::prelude::*;

verus! {

/// The RFC 3339 text of the UTC time that lies `micros` microseconds after
/// the Unix epoch; `None` where that time is outside the range of
/// `chrono::DateTime`.
pub uninterp spec fn rfc3339_text(micros: i64) -> Option<Seq<char>>;

/// Builds the time with `chrono::DateTime::from_timestamp_micros` and
/// writes it with `chrono::DateTime::to_rfc3339`. The claim: the outcome
/// depends on the count alone, and is named `rfc3339_text`.
#[verifier::external_body]
fn format_micros(micros: i64) -> (text: Option<String>)
    ensures
        match text {
            Some(t) => rfc3339_text(micros) == Some(t@),
            None => rfc3339_text(micros) is None,
        },
{
    chrono::DateTime::from_timestamp_micros(micros).map(|time| time.to_rfc3339())
}

/// A point in time that can be written as a date.
#[derive(Clone, Copy, Debug)]
pub struct Timestamp {
    micros: i64,
}

impl View for Timestamp {
    type V = i64;

    closed spec fn view(&self) -> i64 {
        self.micros
    }
}

impl DeepView for Timestamp {
    type V = i64;

    open spec fn deep_view(&self) -> i64 {
        self@
    }
}

impl Timestamp {
    #[verifier::type_invariant]
    closed spec fn representable(self) -> bool {
        rfc3339_text(self.micros) is Some
    }

    /// The time `micros` microseconds after the Unix epoch, if it is in range.
    pub fn from_micros(micros: i64) -> (r: Option<Timestamp>)
        ensures
            r is Some <==> rfc3339_text(micros) is Some,
            r matches Some(t) ==> t@ == micros,
    {
        match format_micros(micros) {
            Some(_) => Some(Timestamp { micros }),
            None => None,
        }
    }

    /// Microseconds since the Unix epoch.
    pub fn micros(&self) -> (m: i64)
        ensures
            m == self@,
    {
        self.micros
    }

    /// The time as RFC 3339 text.
    pub fn to_rfc3339(&self) -> (text: String)
        ensures
            rfc3339_text(self@) == Some(text@),
    {
        proof {
            use_type_invariant(self);
        }
        match format_micros(self.micros) {
            Some(text) => text,
            None => String::new(),
        }
    }

    /// Whether `self` is no earlier than `other`.
    pub fn at_or_after(&self, other: &Timestamp) -> (r: bool)
        ensures
            r == (self@ >= other@),
    {
        self.micros >= other.micros
    }
}

} // verus!
