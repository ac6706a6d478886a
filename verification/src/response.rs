//! Classification of HTTP responses: status handling and the
//! content-length header.

use vstd::prelude::*;
use vstd::string::StringExecFns;
use crate::decimal::{dec_digits, decimal_string};
use crate::errors::DownloadError;

verus! {

/// The message reported for a non-success response: the status code in
/// decimal, a separator, then the full response body.
pub open spec fn status_message(status: u16, body: Seq<char>) -> Seq<char> {
    dec_digits(status as nat) + ": "@ + body
}

/// Classifies a response: status 200 is the only success; any other status
/// becomes an error carrying the status code and the full body text.
pub fn raise_for_status(status: u16, body: String) -> (r: Result<(), DownloadError>)
    ensures
        r is Ok <==> status == 200,
        r matches Err(e) ==> e.0@ == status_message(status, body@),
{
    if status == 200 {
        Ok(())
    } else {
        let mut msg = decimal_string(status as u64);
        msg.append(": ");
        msg.append(body.as_str());
        proof {
            assert(msg@ =~= status_message(status, body@));
        }
        Err(DownloadError(msg))
    }
}

/// Reads the resource's total length from the content-length header; a
/// response without one is rejected.
pub fn parse_content_length(content_length: Option<u64>) -> (r: Result<u64, DownloadError>)
    ensures
        content_length matches Some(n) ==> (r matches Ok(m) && m == n),
        content_length is None ==> (r matches Err(e) && e.0@
            == "server did not provide a content length!"@),
{
    match content_length {
        Some(n) => Ok(n),
        None => Err(DownloadError("server did not provide a content length!".to_owned())),
    }
}

/// Resolves the probe step in one go: a non-success status or a missing
/// content-length header fails the download; otherwise the header's value
/// is the resource's total length.
pub fn probe_size(status: u16, body: String, content_length: Option<u64>) -> (r: Result<
    u64,
    DownloadError,
>)
    ensures
        r is Ok <==> status == 200 && content_length is Some,
        r matches Ok(n) ==> content_length == Some(n),
        status != 200 ==> (r matches Err(e) && e.0@ == status_message(status, body@)),
        status == 200 && content_length is None ==> (r matches Err(e) && e.0@
            == "server did not provide a content length!"@),
{
    match raise_for_status(status, body) {
        Ok(()) => parse_content_length(content_length),
        Err(e) => Err(e),
    }
}

} // verus!
