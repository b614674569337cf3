//! The watermark timestamp: a fixed-offset instant obtained from a feed's
//! modification-time header, compared and persisted per source.

use vstd::prelude::*;

verus! {

/// A fixed-offset timestamp, held as plain values: the instant as seconds
/// since the Unix epoch, and the local offset from UTC in seconds. Ordering
/// (and so the staleness guard) goes by the instant alone; the offset is
/// kept only so the textual form can be reproduced when the watermark is
/// persisted.
#[derive(Clone, Copy, Debug, PartialEq, Eq, Structural)]
pub struct Timestamp {
    pub secs: i64,
    pub offset_secs: i32,
}

impl Timestamp {
    /// One instant is strictly before another; offsets play no part.
    pub open spec fn spec_lt(self, other: Timestamp) -> bool {
        self.secs < other.secs
    }

    pub fn is_before(&self, other: &Timestamp) -> (r: bool)
        ensures
            r == self.spec_lt(*other),
    {
        self.secs < other.secs
    }
}

/// What chrono's RFC-2822 parser makes of a header value: `None` where the
/// text is not a well-formed RFC-2822 date, otherwise the instant and offset
/// it denotes. The result depends on the text alone.
pub uninterp spec fn rfc2822_timestamp(s: Seq<char>) -> Option<Timestamp>;

/// The error chrono reports for a malformed date text.
#[verifier::external_type_specification]
#[verifier::external_body]
pub struct ExChronoParseError(chrono::format::ParseError);

/// Relies on chrono's `DateTime::parse_from_rfc2822`: a deterministic parse
/// of the text, whose instant `timestamp()` and offset `local_minus_utc()`
/// are read out as plain integers.
#[verifier::external_body]
pub(crate) fn parse_rfc2822(s: &str) -> (r: Result<Timestamp, chrono::format::ParseError>)
    ensures
        r is Ok <==> rfc2822_timestamp(s@) is Some,
        r is Ok ==> r->Ok_0 == rfc2822_timestamp(s@)->Some_0,
{
    chrono::DateTime::parse_from_rfc2822(s).map(
        |dt| Timestamp { secs: dt.timestamp(), offset_secs: dt.offset().local_minus_utc() },
    )
}

} // verus!
