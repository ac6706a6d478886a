use sledge::download::{
    collect_results, range_header, sizing_plan, worker_requests, Download, DownloadMode,
    DownloadTarget,
};
use sledge::errors::DownloadError;
use sledge::filename::DispositionParam;
use sledge::reporter::{CompletedSegment, NullReporter, Reporter, TallyReporter};
use sledge::segment::Segment;

fn segments(parts: &[&str]) -> Vec<String> {
    parts.iter().map(|p| p.to_string()).collect()
}

#[test]
fn builder_starts_serial_and_server_named() {
    let d: Download<NullReporter> = Download::new("http://host/file.bin".to_string());
    assert_eq!(d.url, "http://host/file.bin");
    assert!(d.headers.is_empty());
    assert!(matches!(d.mode, DownloadMode::Serial));
    assert!(matches!(d.target, DownloadTarget::Default));
}

#[test]
fn builder_setters_replace_fields() {
    let d: Download<NullReporter> = Download::new("http://host/f".to_string())
        .headers(vec![("x-auth".to_string(), "token".to_string())])
        .mode(DownloadMode::Parallel(4))
        .target(DownloadTarget::File("out.bin".to_string()));
    assert_eq!(d.headers, vec![("x-auth".to_string(), "token".to_string())]);
    assert!(matches!(d.mode, DownloadMode::Parallel(4)));
    assert!(matches!(d.target, DownloadTarget::File(ref p) if p == "out.bin"));
}

#[test]
fn probe_uses_head_only_in_parallel() {
    let serial: Download<NullReporter> = Download::new("http://host/f".to_string());
    assert!(!serial.probe_request().use_head);
    let parallel = serial.mode(DownloadMode::Parallel(2));
    let probe = parallel.probe_request();
    assert!(probe.use_head);
    assert_eq!(probe.url, "http://host/f");
    assert!(probe.headers.is_empty());
}

#[test]
fn probe_carries_the_headers() {
    let d: Download<NullReporter> = Download::new("http://host/f".to_string())
        .headers(vec![("authorization".to_string(), "bearer-token".to_string())]);
    let probe = d.probe_request();
    assert_eq!(probe.headers.len(), 1);
    assert_eq!(probe.headers[0].0, "authorization");
}

#[test]
fn range_headers_are_inclusive() {
    assert_eq!(range_header(&Segment { start: 0, end: 3 }).unwrap(), "bytes=0-2");
    assert_eq!(range_header(&Segment { start: 6, end: 10 }).unwrap(), "bytes=6-9");
    assert!(range_header(&Segment { start: 3, end: 3 }).is_none());
}

#[test]
fn worker_requests_cover_the_plan() {
    let url = "http://host/big".to_string();
    let headers = vec![("x-auth".to_string(), "token".to_string())];
    let requests = worker_requests(&url, &headers, 10, 3);
    assert_eq!(requests.len(), 3);
    let expected = ["bytes=0-2", "bytes=3-5", "bytes=6-9"];
    for (i, request) in requests.iter().enumerate() {
        assert_eq!(request.url, url);
        assert_eq!(request.headers, headers);
        assert_eq!(request.range.as_deref().unwrap(), expected[i]);
    }
    assert_eq!(requests[2].segment, Segment { start: 6, end: 10 });
}

#[test]
fn worker_requests_for_empty_resource_fetch_nothing() {
    let url = "http://host/empty".to_string();
    let requests = worker_requests(&url, &vec![], 0, 4);
    assert_eq!(requests.len(), 4);
    for request in &requests {
        assert!(request.range.is_none());
        assert_eq!(request.segment.start, request.segment.end);
    }
}

#[test]
fn all_workers_ok_reports_the_total() {
    let results: Vec<Result<u64, DownloadError>> = vec![Ok(3), Ok(3), Ok(4)];
    assert_eq!(collect_results(10, results).unwrap(), 10);
}

#[test]
fn first_worker_error_is_propagated() {
    let results: Vec<Result<u64, DownloadError>> = vec![
        Ok(3),
        Err(DownloadError("segment two failed".to_string())),
        Err(DownloadError("segment three failed".to_string())),
    ];
    let err = collect_results(10, results).unwrap_err();
    assert_eq!(err.0, "segment two failed");
}

#[test]
fn stdout_parallel_sizing_is_rejected() {
    let url = segments(&["file.bin"]);
    let err = sizing_plan(&DownloadTarget::StdOut, &DownloadMode::Parallel(4), &None, &url)
        .unwrap_err();
    assert_eq!(err.0, "Cannot take offset on stdout");
}

#[test]
fn stdout_serial_needs_no_sizing() {
    let url = segments(&["file.bin"]);
    let plan = sizing_plan(&DownloadTarget::StdOut, &DownloadMode::Serial, &None, &url).unwrap();
    assert!(plan.is_none());
}

#[test]
fn named_file_is_sized_in_place() {
    let url = segments(&["file.bin"]);
    let target = DownloadTarget::File("chosen.dat".to_string());
    let plan = sizing_plan(&target, &DownloadMode::Parallel(2), &None, &url).unwrap();
    assert_eq!(plan.unwrap(), "chosen.dat");
}

#[test]
fn server_named_file_follows_disposition() {
    let url = segments(&["other.bin"]);
    let disposition = Some(vec![DispositionParam::Filename(b"report.csv".to_vec())]);
    let plan = sizing_plan(&DownloadTarget::Default, &DownloadMode::Serial, &disposition, &url)
        .unwrap();
    assert_eq!(plan.unwrap(), "report.csv");
}

#[test]
fn tally_reporter_sums_event_lengths() {
    let mut reporter = TallyReporter::new();
    let events = vec![
        CompletedSegment { start: 5, len: 5, md5: String::new() },
        CompletedSegment { start: 8, len: 3, md5: String::new() },
    ];
    reporter.listen(10, &events);
    assert_eq!(reporter.total, 8);
    reporter.listen(10, &vec![CompletedSegment { start: 10, len: 2, md5: String::new() }]);
    assert_eq!(reporter.total, 10);
}

#[test]
fn tally_reporter_saturates_instead_of_wrapping() {
    let mut reporter = TallyReporter { total: u64::MAX - 1 };
    let events = vec![CompletedSegment { start: 5, len: 5, md5: String::new() }];
    reporter.accumulate(&events);
    assert_eq!(reporter.total, u64::MAX);
}

#[test]
fn null_reporter_discards_events() {
    let mut reporter = NullReporter::new();
    reporter.listen(10, &vec![CompletedSegment { start: 1, len: 1, md5: String::new() }]);
}
