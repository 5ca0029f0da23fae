//! Journal timestamps: whole microseconds since the Unix epoch, written in
//! decimal, and the UTC instants they denote.

use crate::error::{Error, ErrorView};
use crate::text::{
    chars_of, decimal_text, is_digit, lemma_decimal_text_reads_back, parse_unsigned,
    unsigned_of_text,
};
use vstd::prelude::*;

verus! {

/// Whether `chrono` has a UTC date and time for the instant `secs` seconds
/// and `nanos` nanoseconds after the Unix epoch.
pub uninterp spec fn utc_representable(secs: int, nanos: int) -> bool;

/// Asks `chrono::DateTime::from_timestamp` whether it can build the instant.
/// The function returns `None` for seconds outside the calendar that
/// `chrono` covers and for a nanosecond count that is not valid; the result
/// here is whether it returned a date and time.
#[verifier::external_body]
fn has_utc_date_time(secs: i64, nanos: u32) -> (known: bool)
    ensures
        known == utc_representable(secs as int, nanos as int),
{
    chrono::DateTime::from_timestamp(secs, nanos).is_some()
}

/// A point in time on the UTC time line, counted from the Unix epoch.
#[derive(Clone, Copy, Debug, PartialEq, Eq)]
pub struct UtcInstant {
    secs: i64,
    nanos: u32,
}

impl UtcInstant {
    /// Every instant has a date and time in `chrono`'s calendar, and its
    /// nanoseconds stay below one second.
    #[verifier::type_invariant]
    spec fn well_formed(self) -> bool {
        self.nanos < 1_000_000_000 && utc_representable(self.secs as int, self.nanos as int)
    }

    /// Whole seconds since the Unix epoch.
    pub closed spec fn seconds(self) -> int {
        self.secs as int
    }

    /// Nanoseconds since the last whole second.
    pub closed spec fn subsec_nanos(self) -> int {
        self.nanos as int
    }

    /// The instant `secs` seconds and `nanos` nanoseconds after the epoch,
    /// if `nanos` is less than a second and the calendar reaches that far.
    pub fn new(secs: i64, nanos: u32) -> (instant: Option<UtcInstant>)
        ensures
            instant is Some <==> nanos < 1_000_000_000 && utc_representable(
                secs as int,
                nanos as int,
            ),
            instant matches Some(t) ==> t.seconds() == secs && t.subsec_nanos() == nanos,
    {
        if nanos < 1_000_000_000 && has_utc_date_time(secs, nanos) {
            Some(UtcInstant { secs, nanos })
        } else {
            None
        }
    }

    /// Whole seconds since the Unix epoch.
    pub fn timestamp(&self) -> (secs: i64)
        ensures
            secs == self.seconds(),
    {
        self.secs
    }

    /// Nanoseconds since the last whole second.
    pub fn timestamp_subsec_nanos(&self) -> (nanos: u32)
        ensures
            nanos == self.subsec_nanos(),
            nanos < 1_000_000_000,
            utc_representable(self.seconds(), nanos as int),
    {
        proof {
            use_type_invariant(self);
        }
        self.nanos
    }
}

/// Whole seconds in a count of microseconds.
pub open spec fn seconds_of_micros(micros: nat) -> int {
    (micros / 1_000_000) as int
}

/// What is left of a count of microseconds after its whole seconds, in
/// nanoseconds.
pub open spec fn nanos_of_micros(micros: nat) -> int {
    ((micros % 1_000_000) * 1_000) as int
}

/// Splits a count of microseconds into its whole seconds and, as
/// nanoseconds, the rest.
pub fn split_micros(micros: u64) -> (parts: (i64, u32))
    ensures
        parts.0 == seconds_of_micros(micros as nat),
        parts.1 == nanos_of_micros(micros as nat),
        parts.1 < 1_000_000_000,
{
    ((micros / 1_000_000) as i64, (micros % 1_000_000) as u32 * 1_000)
}

/// The microseconds that a journal timestamp writes, if it is an unsigned
/// decimal that fits 64 bits.
pub open spec fn micros_of_text(ts: Seq<char>) -> Option<nat> {
    unsigned_of_text(ts, u64::MAX as nat)
}

/// The instant that a journal timestamp denotes, as whole seconds since the
/// epoch and nanoseconds after them.
///
/// Text that is not an unsigned 64-bit decimal, and a count that the
/// calendar does not reach, is a malformed record.
pub open spec fn decoded_timestamp(ts: Seq<char>) -> Result<(int, int), ErrorView> {
    match micros_of_text(ts) {
        None => Err(ErrorView::MalformedRecord("timestamp is not an unsigned decimal"@)),
        Some(micros) => if utc_representable(seconds_of_micros(micros), nanos_of_micros(micros)) {
            Ok((seconds_of_micros(micros), nanos_of_micros(micros)))
        } else {
            Err(ErrorView::MalformedRecord("timestamp is out of range"@))
        },
    }
}

/// Whether a result holds the instant or the failure that `expected`
/// describes.
pub open spec fn instant_matches(
    found: Result<UtcInstant, Error>,
    expected: Result<(int, int), ErrorView>,
) -> bool {
    match found {
        Ok(t) => expected == Ok::<(int, int), ErrorView>((t.seconds(), t.subsec_nanos())),
        Err(e) => expected == Err::<(int, int), ErrorView>(e@),
    }
}

/// Decodes a journal timestamp into the instant it denotes, as
/// [`decoded_timestamp`] defines it: its whole seconds, and the rest as
/// nanoseconds.
pub fn realtime_timestamp_to_datetime(ts: &str) -> (decoded: Result<UtcInstant, Error>)
    ensures
        instant_matches(decoded, decoded_timestamp(ts@)),
{
    let chars = chars_of(ts);
    match parse_unsigned(&chars, u64::MAX) {
        None => Err(
            Error::MalformedRecord(String::from_str("timestamp is not an unsigned decimal")),
        ),
        Some(micros) => {
            let (secs, nanos) = split_micros(micros);
            match UtcInstant::new(secs, nanos) {
                Some(t) => Ok(t),
                None => Err(Error::MalformedRecord(String::from_str("timestamp is out of range"))),
            }
        },
    }
}

/// Round trip: the decimal text of a count of microseconds that fits 64 bits
/// and that the calendar reaches decodes to the instant with exactly the
/// count's whole seconds and, as nanoseconds, its remainder.
pub proof fn lemma_timestamp_round_trip(micros: nat)
    requires
        micros <= u64::MAX,
        utc_representable(seconds_of_micros(micros), nanos_of_micros(micros)),
    ensures
        decoded_timestamp(decimal_text(micros)) == Ok::<(int, int), ErrorView>(
            (seconds_of_micros(micros), nanos_of_micros(micros)),
        ),
{
    lemma_decimal_text_reads_back(micros);
    let text = decimal_text(micros);
    assert(is_digit(text[0]));
}

} // verus!
