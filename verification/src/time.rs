//! Instants in UTC.

use vstd::prelude::*;

use crate::outside::format_rfc3339;

verus! {

/// The last second that a calendar date can be given for.
pub const MAX_SECS: i64 = 8_210_266_876_799;

/// The first second that a calendar date can be given for.
pub const MIN_SECS: i64 = -8_334_601_228_800;

/// An instant: whole seconds since the start of 1970 in UTC, and the
/// nanoseconds past them.
#[derive(Clone, Copy, Debug, PartialEq, Eq, Structural)]
pub struct Timestamp {
    pub secs: i64,
    pub nanos: u32,
}

impl Timestamp {
    /// Whether a calendar date can be given for this instant.
    pub open spec fn wf(self) -> bool {
        MIN_SECS <= self.secs <= MAX_SECS && self.nanos < 1_000_000_000
    }

    /// Nanoseconds since the start of 1970.
    pub open spec fn instant(self) -> int {
        self.secs * 1_000_000_000 + self.nanos
    }

    /// The instant `seconds` later.
    pub open spec fn later(self, seconds: int) -> Timestamp {
        Timestamp { secs: (self.secs + seconds) as i64, nanos: self.nanos }
    }

    /// The RFC 3339 text of this instant.
    pub open spec fn text(self) -> Seq<char> {
        crate::outside::rfc3339_text(self.secs, self.nanos)
    }

    /// The RFC 3339 text of this instant.
    pub fn to_rfc3339(self) -> (r: String)
        requires
            self.wf(),
        ensures
            r@ == self.text(),
    {
        format_rfc3339(self.secs, self.nanos)
    }

    /// Whether this instant comes before the other.
    pub fn before(self, other: Timestamp) -> (r: bool)
        requires
            self.wf(),
            other.wf(),
        ensures
            r == (self.instant() < other.instant()),
    {
        self.secs < other.secs || (self.secs == other.secs && self.nanos < other.nanos)
    }

    /// The instant `seconds` later.
    pub fn plus(self, seconds: i64) -> (r: Timestamp)
        requires
            self.wf(),
            MIN_SECS <= self.secs + seconds <= MAX_SECS,
        ensures
            r == self.later(seconds as int),
            r.wf(),
            r.instant() == self.instant() + seconds * 1_000_000_000,
    {
        Timestamp { secs: self.secs + seconds, nanos: self.nanos }
    }

    /// The whole milliseconds from an earlier instant to this one.
    pub fn millis_since(self, earlier: Timestamp) -> (r: i64)
        requires
            self.wf(),
            earlier.wf(),
            earlier.instant() <= self.instant(),
        ensures
            r == (self.instant() - earlier.instant()) / 1_000_000,
            0 <= r <= 17_000_000_000_000_000,
    {
        if self.nanos >= earlier.nanos {
            let nanos: i64 = (self.nanos - earlier.nanos) as i64;
            (self.secs - earlier.secs) * 1000 + nanos / 1_000_000
        } else {
            let nanos: i64 = (1_000_000_000 + self.nanos - earlier.nanos) as i64;
            (self.secs - 1 - earlier.secs) * 1000 + nanos / 1_000_000
        }
    }
}

} // verus!
