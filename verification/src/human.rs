//! Sizes and durations in the form people read them.

use vstd::prelude::*;

verus! {

/// The text that stands for a byte count: a number and a binary unit, such
/// as `1.46 KiB` for 1500 bytes.
pub uninterp spec fn human_bytes_text(bytes: u64) -> Seq<char>;

/// The text that stands for a span of time of `secs` seconds and `nanos`
/// nanoseconds: a rounded count of the largest unit that fits, such as
/// `2 minutes`.
pub uninterp spec fn human_duration_text(secs: u32, nanos: u32) -> Seq<char>;

/// Formats a byte count with `indicatif::HumanBytes`.
///
/// Trusted: the text depends on the count alone, and `human_bytes_text` is
/// the name of that text.
#[verifier::external_body]
pub(crate) fn human_bytes(bytes: u64) -> (text: String)
    ensures
        text@ == human_bytes_text(bytes),
{
    format!("{}", indicatif::HumanBytes(bytes))
}

/// Formats a span of time with `indicatif::HumanDuration`.
///
/// Trusted: the text depends on the span alone, and `human_duration_text` is
/// the name of that text. Seconds are taken as 32 bits, so that the span
/// can be built whatever the nanoseconds are.
#[verifier::external_body]
pub(crate) fn human_duration(secs: u32, nanos: u32) -> (text: String)
    ensures
        text@ == human_duration_text(secs, nanos),
{
    format!("{}", indicatif::HumanDuration(std::time::Duration::new(secs as u64, nanos)))
}

} // verus!
