//! The buffered-copy controller: it decides, for each outcome of a read
//! from the response body, whether the copy finishes, writes and reports a
//! chunk, retries, or aborts, and it accounts for every byte written.

use vstd::prelude::*;
use crate::errors::DownloadError;
use crate::reporter::{events_total, CompletedSegment};

verus! {

/// The outcome of one read from the response body: a chunk of `n` bytes
/// (zero meaning the body is exhausted), an interrupted read to be retried,
/// or a failure carrying its message.
pub enum ReadEvent {
    Chunk(u64),
    Interrupted,
    Failed(String),
}

/// What the copy loop does next after one read.
pub enum CopyAction {
    /// The body is exhausted: the copy is complete, having written this
    /// many bytes.
    Finish(u64),
    /// Write the chunk, advance the byte count to the first field, and
    /// report the event.
    Write(u64, CompletedSegment),
    /// The read was interrupted: read again, with nothing written.
    Retry,
    /// A read failed: abort the copy with this error.
    Abort(DownloadError),
}

/// Decides one step of the copy loop.  A chunk of zero bytes ends the
/// copy; a chunk of `n` bytes is written and reported as one event whose
/// `len` is `n` and whose `start` is the new byte count; an interrupted
/// read is retried transparently; any other failure aborts.
pub fn copy_step(written: u64, event: ReadEvent) -> (action: CopyAction)
    requires
        event matches ReadEvent::Chunk(n) ==> written + n <= u64::MAX,
    ensures
        match event {
            ReadEvent::Chunk(n) => if n == 0 {
                action matches CopyAction::Finish(w) && w == written
            } else {
                action matches CopyAction::Write(w, e) && w == written + n && e.start == written
                    + n && e.len == n && e.md5@ == Seq::<char>::empty()
            },
            ReadEvent::Interrupted => action is Retry,
            ReadEvent::Failed(m) => action matches CopyAction::Abort(err) && err.0@ == m@,
        },
{
    match event {
        ReadEvent::Chunk(n) => {
            if n == 0 {
                CopyAction::Finish(written)
            } else {
                let w = written + n;
                CopyAction::Write(w, CompletedSegment { start: w, len: n, md5: String::new() })
            }
        },
        ReadEvent::Interrupted => CopyAction::Retry,
        ReadEvent::Failed(m) => CopyAction::Abort(DownloadError(m)),
    }
}

/// The bytes carried by a sequence of read outcomes, summed over every
/// chunk.
pub open spec fn chunks_total(reads: Seq<ReadEvent>) -> int
    decreases reads.len(),
{
    if reads.len() == 0 {
        0
    } else {
        (match reads[0] {
            ReadEvent::Chunk(n) => n as int,
            _ => 0,
        }) + chunks_total(reads.skip(1))
    }
}

pub proof fn lemma_chunks_total_nonneg(reads: Seq<ReadEvent>)
    ensures
        chunks_total(reads) >= 0,
    decreases reads.len(),
{
    if reads.len() > 0 {
        lemma_chunks_total_nonneg(reads.skip(1));
    }
}

/// What a copy that starts with `written` bytes already counted makes of
/// the read outcomes `reads`, in order: either the final byte count with
/// the reported events as `(start, len)` pairs, or the failure message.
/// A chunk of zero bytes or the end of `reads` completes the copy.
pub open spec fn copy_model(written: int, reads: Seq<ReadEvent>) -> Result<
    (int, Seq<(int, int)>),
    Seq<char>,
>
    decreases reads.len(),
{
    if reads.len() == 0 {
        Ok((written, Seq::empty()))
    } else {
        match reads[0] {
            ReadEvent::Chunk(n) => if n == 0 {
                Ok((written, Seq::empty()))
            } else {
                match copy_model(written + n, reads.skip(1)) {
                    Ok(p) => Ok((p.0, seq![(written + n as int, n as int)] + p.1)),
                    Err(m) => Err(m),
                }
            },
            ReadEvent::Interrupted => copy_model(written, reads.skip(1)),
            ReadEvent::Failed(m) => Err(m@),
        }
    }
}

/// The `(start, len)` pairs of a sequence of events.
pub open spec fn event_pairs(events: Seq<CompletedSegment>) -> Seq<(int, int)> {
    events.map_values(|e: CompletedSegment| (e.start as int, e.len as int))
}

proof fn lemma_events_total_push(events: Seq<CompletedSegment>, e: CompletedSegment)
    ensures
        events_total(events.push(e)) == events_total(events) + e.len,
    decreases events.len(),
{
    if events.len() == 0 {
        assert(events.push(e)[0] == e);
        assert(events.push(e).skip(1) =~= Seq::<CompletedSegment>::empty());
        assert(events_total(events.push(e)) == e.len + events_total(
            Seq::<CompletedSegment>::empty(),
        ));
    } else {
        assert(events.push(e)[0] == events[0]);
        assert(events.push(e).skip(1) =~= events.skip(1).push(e));
        lemma_events_total_push(events.skip(1), e);
        assert(events_total(events.push(e)) == events[0].len + events_total(
            events.skip(1).push(e),
        ));
    }
}

/// Runs the whole copy over the read outcomes `reads`, as
/// `copy_model(0, reads)` describes: it returns the bytes written together
/// with one progress event per nonempty chunk, or the first failure.  The
/// events' lengths always sum to exactly the bytes written.
pub fn copy_with_reporter(reads: &Vec<ReadEvent>) -> (r: Result<
    (u64, Vec<CompletedSegment>),
    DownloadError,
>)
    requires
        chunks_total(reads@) <= u64::MAX,
    ensures
        match copy_model(0, reads@) {
            Ok(p) => r matches Ok(q) && q.0 as int == p.0 && event_pairs(q.1@) == p.1
                && events_total(q.1@) == q.0 && (forall|i: int|
                0 <= i < q.1@.len() ==> (#[trigger] q.1@[i]).md5@ == Seq::<char>::empty()),
            Err(m) => r matches Err(e) && e.0@ == m,
        },
{
    let mut written: u64 = 0;
    let mut events: Vec<CompletedSegment> = Vec::new();
    let mut i: usize = 0;
    proof {
        assert(reads@.skip(0) =~= reads@);
    }
    while i < reads.len()
        invariant
            i <= reads@.len(),
            written as int + chunks_total(reads@.skip(i as int)) <= u64::MAX,
            events_total(events@) == written,
            forall|j: int| 0 <= j < events@.len() ==> (#[trigger] events@[j]).md5@ == Seq::<
                char,
            >::empty(),
            match copy_model(written as int, reads@.skip(i as int)) {
                Ok(p) => copy_model(0, reads@) matches Ok(q) && q.0 == p.0 && q.1 == event_pairs(
                    events@,
                ) + p.1,
                Err(m) => copy_model(0, reads@) == Err::<(int, Seq<(int, int)>), Seq<char>>(m),
            },
        decreases reads@.len() - i,
    {
        proof {
            assert(reads@.skip(i as int)[0] == reads@[i as int]);
            assert(reads@.skip(i as int).skip(1) =~= reads@.skip(i as int + 1));
            lemma_chunks_total_nonneg(reads@.skip(i as int + 1));
        }
        let ev: &ReadEvent = &reads[i];
        match ev {
            ReadEvent::Chunk(n) => {
                if *n == 0 {
                    proof {
                        assert(event_pairs(events@) + Seq::<(int, int)>::empty() =~= event_pairs(
                            events@,
                        ));
                    }
                    return Ok((written, events));
                } else {
                    let ghost evs0 = events@;
                    written = written + *n;
                    let e = CompletedSegment { start: written, len: *n, md5: String::new() };
                    events.push(e);
                    proof {
                        lemma_events_total_push(evs0, e);
                        assert(event_pairs(events@) =~= event_pairs(evs0) + seq![
                            (written as int, *n as int),
                        ]);
                        match copy_model(written as int, reads@.skip(i as int + 1)) {
                            Ok(p1) => {
                                assert((event_pairs(evs0) + seq![(written as int, *n as int)])
                                    + p1.1 =~= event_pairs(evs0) + (seq![
                                    (written as int, *n as int),
                                ] + p1.1));
                            },
                            Err(_) => {},
                        }
                    }
                }
            },
            ReadEvent::Interrupted => {},
            ReadEvent::Failed(m) => {
                return Err(DownloadError(m.clone()));
            },
        }
        i = i + 1;
    }
    proof {
        assert(reads@.skip(reads@.len() as int) =~= Seq::<ReadEvent>::empty());
        assert(event_pairs(events@) + Seq::<(int, int)>::empty() =~= event_pairs(events@));
    }
    Ok((written, events))
}

} // verus!
