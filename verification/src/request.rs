use crate::decimal::{decimal, digits_value, lemma_decimal_round_trip, push_decimal};
use crate::error::{Error, Result};
use core::ops::Range;
use vstd::prelude::*;

verus! {

/// The value of the `Range` header that requests the bytes `start..=last`.
pub open spec fn range_header_text(start: u64, last: u64) -> Seq<char> {
    "bytes="@ + decimal(start as nat) + "-"@ + decimal(last as nat)
}

/// The value of the `Range` header that requests the bytes from `start` to the end.
pub open spec fn range_from_header_text(start: u64) -> Seq<char> {
    "bytes="@ + decimal(start as nat) + "-"@
}

/// Whether an HTTP status reports success (`2xx`).
pub open spec fn is_success(status: u16) -> bool {
    200 <= status < 300
}

/// The `Range` header for the bytes `range.start..range.end`; HTTP names the last byte,
/// so the header reads `bytes=START-(END - 1)`.
///
/// The end must be at least 1.
pub fn byte_range_header(range: &Range<u64>) -> (header: String)
    requires
        range.end >= 1,
    ensures
        header@ == range_header_text(range.start, (range.end - 1) as u64),
        header@ == "bytes="@ + decimal(range.start as nat) + "-"@ + decimal((range.end - 1) as nat),
{
    let mut header = String::from_str("bytes=");
    push_decimal(&mut header, range.start);
    header.append("-");
    push_decimal(&mut header, range.end - 1);
    header
}

/// The `Range` header for the bytes from `start` to the end of the resource:
/// `bytes=START-`.
pub fn byte_range_from_header(start: u64) -> (header: String)
    ensures
        header@ == range_from_header_text(start),
        header@ == "bytes="@ + decimal(start as nat) + "-"@,
{
    let mut header = String::from_str("bytes=");
    push_decimal(&mut header, start);
    header.append("-");
    header
}

/// Accepts a response status: success statuses pass, any other fails with
/// `Error::HttpFailed` carrying the status.
pub fn check_status(status: u16) -> (res: Result<()>)
    ensures
        res is Ok <==> is_success(status),
        res is Ok <==> 200 <= status && status <= 299,
        res is Err ==> (res matches Err(Error::HttpFailed { status: s }) && s == status),
{
    if 200 <= status && status < 300 {
        Ok(())
    } else {
        Err(Error::HttpFailed { status })
    }
}

/// The header for `start..end` names `start` as its first byte and `end - 1` as its
/// last: read back as numbers, its two bounds give `start` and one less than `end`, so
/// a server honouring it returns the `end - start` bytes of the range.
pub proof fn lemma_range_header_names_the_range(start: u64, end: u64)
    requires
        end >= 1,
    ensures
        range_header_text(start, (end - 1) as u64) == "bytes="@ + decimal(start as nat) + "-"@
            + decimal((end - 1) as nat),
        digits_value(decimal(start as nat)) == start,
        digits_value(decimal((end - 1) as nat)) + 1 == end,
{
    lemma_decimal_round_trip(start as nat);
    lemma_decimal_round_trip((end - 1) as nat);
}

/// The open-ended header for `start` names `start` as its first byte and no last byte.
pub proof fn lemma_range_from_header_names_the_start(start: u64)
    ensures
        range_from_header_text(start) == "bytes="@ + decimal(start as nat) + "-"@,
        digits_value(decimal(start as nat)) == start,
{
    lemma_decimal_round_trip(start as nat);
}

/// Exactly the statuses 200 to 299 count as success: every informational,
/// redirection, client-error or server-error status is refused.
pub proof fn lemma_success_is_2xx(status: u16)
    ensures
        is_success(status) <==> 200 <= status && status <= 299,
        status >= 400 ==> !is_success(status),
        status < 200 ==> !is_success(status),
{
}

} // verus!
