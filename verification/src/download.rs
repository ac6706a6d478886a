//! The download configuration and the orchestrator's decisions: what to
//! probe, which file to pre-size, which range each worker fetches, and how
//! the workers' outcomes combine into one result.

use vstd::prelude::*;
use vstd::string::StringExecFns;
use crate::decimal::{dec_digits, decimal_string};
use crate::errors::DownloadError;
use crate::filename::{
    default_file_name, file_part, resolved_raw_name, spec_valid_name, DispositionParam,
};
use crate::reporter::Reporter;
use crate::segment::{plan, seg_end, seg_start, Segment};

verus! {

/// Where the downloaded bytes go.
#[derive(Clone)]
pub enum DownloadTarget {
    /// Download the file to a given path.
    File(String),
    /// Download the file to stdout.
    StdOut,
    /// Download the file to a path suggested by the server or derived
    /// from the url.
    Default,
}

/// How the download is orchestrated.
#[derive(Clone)]
pub enum DownloadMode {
    /// Download the file serially, in one piece.
    Serial,
    /// Download the file in parallel, over this many workers.
    Parallel(u8),
}

/// The configuration of one download: the source, the destination, the
/// request headers, the orchestration mode and the progress consumer.
pub struct Download<R: Reporter> {
    /// The url to download from.
    pub url: String,
    /// The path to stream the download to.
    pub target: DownloadTarget,
    /// Headers to be applied to the request.
    pub headers: Vec<(String, String)>,
    /// The mode in which this file will be downloaded.
    pub mode: DownloadMode,
    /// Reporter for reporting download progress.
    pub reporter: R,
}

impl<R: Reporter> Download<R> {
    /// Create a new Download: serial, server-named, with no headers.
    pub fn new(url: String) -> (d: Download<R>)
        ensures
            d.url@ == url@,
            d.headers@ == Seq::<(String, String)>::empty(),
            d.mode is Serial,
            d.target is Default,
    {
        Download {
            headers: Vec::new(),
            mode: DownloadMode::Serial,
            url,
            target: DownloadTarget::Default,
            reporter: R::new(),
        }
    }

    /// Set the headers of the Download.
    pub fn headers(self, headers: Vec<(String, String)>) -> (d: Download<R>)
        ensures
            d.url == self.url,
            d.headers == headers,
            d.mode == self.mode,
            d.target == self.target,
    {
        Download { headers, ..self }
    }

    /// Set the target of the Download.
    pub fn target(self, target: DownloadTarget) -> (d: Download<R>)
        ensures
            d.url == self.url,
            d.headers == self.headers,
            d.mode == self.mode,
            d.target == target,
    {
        Download { target, ..self }
    }

    /// Set the mode of the Download.
    pub fn mode(self, mode: DownloadMode) -> (d: Download<R>)
        ensures
            d.url == self.url,
            d.headers == self.headers,
            d.mode == mode,
            d.target == self.target,
    {
        Download { mode, ..self }
    }

    /// The probe that learns the resource's length: a HEAD request in
    /// parallel mode, so the body is not downloaded twice, and a GET in
    /// serial mode, whose response is then streamed directly.
    pub fn probe_request(&self) -> (r: ProbeRequest)
        ensures
            r.use_head == self.mode matches DownloadMode::Parallel(_),
            r.url@ == self.url@,
            r.headers@ == self.headers@,
    {
        ProbeRequest {
            use_head: matches!(self.mode, DownloadMode::Parallel(_)),
            url: self.url.clone(),
            headers: clone_headers(&self.headers),
        }
    }
}

/// The request that learns the resource's total length.
pub struct ProbeRequest {
    pub use_head: bool,
    pub url: String,
    pub headers: Vec<(String, String)>,
}

fn clone_headers(headers: &Vec<(String, String)>) -> (r: Vec<(String, String)>)
    ensures
        r@ == headers@,
{
    let mut r: Vec<(String, String)> = Vec::new();
    let mut i: usize = 0;
    while i < headers.len()
        invariant
            i <= headers@.len(),
            r@ == headers@.subrange(0, i as int),
        decreases headers@.len() - i,
    {
        let pair = &headers[i];
        r.push((pair.0.clone(), pair.1.clone()));
        proof {
            assert(headers@.subrange(0, i as int).push(headers@[i as int]) =~= headers@.subrange(
                0,
                i as int + 1,
            ));
        }
        i = i + 1;
    }
    proof {
        assert(headers@.subrange(0, headers@.len() as int) =~= headers@);
    }
    r
}

/// The byte-range header for a nonempty segment, with the inclusive last
/// offset the header convention asks for.
pub open spec fn range_header_value(start: u64, end: u64) -> Seq<char> {
    "bytes="@ + dec_digits(start as nat) + "-"@ + dec_digits((end - 1) as nat)
}

/// Renders the range header for a segment: `bytes=<start>-<end - 1>`,
/// the segment being half-open.  An empty segment has no header: the
/// worker fetches nothing.
pub fn range_header(segment: &Segment) -> (r: Option<String>)
    ensures
        segment.start < segment.end ==> (r matches Some(s) && s@ == range_header_value(
            segment.start,
            segment.end,
        )),
        segment.start >= segment.end ==> r is None,
{
    if segment.start < segment.end {
        let mut s = "bytes=".to_owned();
        s.append(decimal_string(segment.start).as_str());
        s.append("-");
        s.append(decimal_string(segment.end - 1).as_str());
        proof {
            assert(s@ =~= range_header_value(segment.start, segment.end));
        }
        Some(s)
    } else {
        None
    }
}

/// Everything one worker needs: the url, the caller's headers, the
/// segment it owns, and the range header to add — absent for an empty
/// segment, which is a no-op fetch.
pub struct WorkerRequest {
    pub url: String,
    pub headers: Vec<(String, String)>,
    pub segment: Segment,
    pub range: Option<String>,
}

/// Builds one request per planned segment, each carrying the caller's
/// headers and its own byte-range header.
pub fn worker_requests(
    url: &String,
    headers: &Vec<(String, String)>,
    total_length: u64,
    worker_count: u8,
) -> (requests: Vec<WorkerRequest>)
    requires
        worker_count >= 1,
    ensures
        requests@.len() == worker_count as int,
        forall|i: int|
            0 <= i < worker_count as int ==> {
                let r = #[trigger] requests@[i];
                &&& r.url@ == url@
                &&& r.headers@ == headers@
                &&& r.segment.start == seg_start(total_length, worker_count, i)
                &&& r.segment.end == seg_end(total_length, worker_count, i)
                &&& (r.segment.start < r.segment.end ==> (r.range matches Some(s) && s@
                    == range_header_value(r.segment.start, r.segment.end)))
                &&& (r.segment.start >= r.segment.end ==> r.range is None)
            },
{
    let segments = plan(total_length, worker_count);
    let mut requests: Vec<WorkerRequest> = Vec::new();
    let mut i: usize = 0;
    while i < segments.len()
        invariant
            i <= segments@.len(),
            segments@.len() == worker_count as int,
            forall|j: int|
                0 <= j < segments@.len() ==> (#[trigger] segments@[j]).start == seg_start(
                    total_length,
                    worker_count,
                    j,
                ) && segments@[j].end == seg_end(total_length, worker_count, j),
            requests@.len() == i as int,
            forall|j: int|
                0 <= j < i as int ==> {
                    let r = #[trigger] requests@[j];
                    &&& r.url@ == url@
                    &&& r.headers@ == headers@
                    &&& r.segment.start == seg_start(total_length, worker_count, j)
                    &&& r.segment.end == seg_end(total_length, worker_count, j)
                    &&& (r.segment.start < r.segment.end ==> (r.range matches Some(s) && s@
                        == range_header_value(r.segment.start, r.segment.end)))
                    &&& (r.segment.start >= r.segment.end ==> r.range is None)
                },
        decreases segments@.len() - i,
    {
        let segment = segments[i];
        let range = range_header(&segment);
        requests.push(
            WorkerRequest { url: url.clone(), headers: clone_headers(headers), segment, range },
        );
        i = i + 1;
    }
    requests
}

/// The error of the first worker, in worker order, that failed.
pub open spec fn first_error(results: Seq<Result<u64, DownloadError>>) -> Option<DownloadError>
    decreases results.len(),
{
    if results.len() == 0 {
        None
    } else {
        match results[0] {
            Ok(_) => first_error(results.skip(1)),
            Err(e) => Some(e),
        }
    }
}

/// Joins every worker's outcome into the download's result: when all
/// succeeded, the planned total length; otherwise the first error in
/// worker order is propagated.
#[verifier::loop_isolation(false)]
pub fn collect_results(total_length: u64, results: Vec<Result<u64, DownloadError>>) -> (r: Result<
    u64,
    DownloadError,
>)
    ensures
        match first_error(results@) {
            None => r matches Ok(n) && n == total_length,
            Some(e) => r matches Err(e2) && e2 == e,
        },
{
    let ghost orig = results@;
    let mut rest = results;
    while rest.len() > 0
        invariant
            first_error(orig) == first_error(rest@),
        decreases rest@.len(),
    {
        let ghost before = rest@;
        let first = rest.remove(0);
        proof {
            assert(rest@ =~= before.skip(1));
        }
        match first {
            Ok(_) => {},
            Err(e) => {
                proof {
                    assert(before[0] == Err::<u64, DownloadError>(e));
                    assert(first_error(before) == Some(e));
                }
                return Err(e);
            },
        }
    }
    Ok(total_length)
}

/// Decides the sizing step, before any worker is spawned: which file, if
/// any, must be pre-sized to the total length.  Stdout cannot seek, so a
/// parallel download to stdout is rejected here; a serial download to
/// stdout needs no sizing and streams from offset zero.
pub fn sizing_plan(
    target: &DownloadTarget,
    mode: &DownloadMode,
    disposition: &Option<Vec<DispositionParam>>,
    url_path_segments: &Vec<String>,
) -> (r: Result<Option<String>, DownloadError>)
    requires
        url_path_segments@.len() >= 1,
    ensures
        match target {
            DownloadTarget::StdOut => match mode {
                DownloadMode::Serial => r matches Ok(p) && p is None,
                DownloadMode::Parallel(_) => r matches Err(e) && e.0@
                    == "Cannot take offset on stdout"@,
            },
            DownloadTarget::File(path) => r matches Ok(p) && p matches Some(q) && q@ == path@,
            DownloadTarget::Default => ({
                let raw = file_part(resolved_raw_name(*disposition, url_path_segments@));
                &&& spec_valid_name(raw) ==> (r matches Ok(p) && p matches Some(q) && q@ == raw)
                &&& !spec_valid_name(raw) ==> (r matches Err(e) && e.0@ == "invalid file name"@)
            }),
        },
{
    match target {
        DownloadTarget::StdOut => match mode {
            DownloadMode::Serial => Ok(None),
            DownloadMode::Parallel(_) => Err(
                DownloadError("Cannot take offset on stdout".to_owned()),
            ),
        },
        DownloadTarget::File(path) => Ok(Some(path.clone())),
        DownloadTarget::Default => match default_file_name(disposition, url_path_segments) {
            Ok(name) => Ok(Some(name)),
            Err(e) => Err(e),
        },
    }
}

} // verus!
