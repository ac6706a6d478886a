//! The range planner: it splits a resource of known length into contiguous,
//! non-overlapping byte ranges, one per worker.

use vstd::prelude::*;

verus! {

/// One contiguous byte range of the resource, half-open: it covers the
/// offsets in `[start, end)`.
#[derive(Clone, Copy, Debug, PartialEq, Eq, Structural)]
pub struct Segment {
    pub start: u64,
    pub end: u64,
}

/// The common block size: the total length divided by the worker count,
/// truncating.
pub open spec fn block_size(total_length: u64, worker_count: u8) -> int {
    total_length as int / worker_count as int
}

/// Where segment `i` begins.
pub open spec fn seg_start(total_length: u64, worker_count: u8, i: int) -> int {
    i * block_size(total_length, worker_count)
}

/// Where segment `i` ends; the final segment absorbs the remainder of the
/// truncating division, so it runs to the total length.
pub open spec fn seg_end(total_length: u64, worker_count: u8, i: int) -> int {
    if i == worker_count as int - 1 {
        total_length as int
    } else {
        (i + 1) * block_size(total_length, worker_count)
    }
}

/// Multiples of the block size up to the worker count never pass the total
/// length.
proof fn lemma_block_multiple_bound(total_length: u64, worker_count: u8, i: int)
    requires
        1 <= worker_count,
        0 <= i <= worker_count as int,
    ensures
        0 <= i * block_size(total_length, worker_count) <= total_length as int,
{
    let b = block_size(total_length, worker_count);
    let t = total_length as int;
    let w = worker_count as int;
    assert(b == t / w);
    assert(w * b <= t && b >= 0) by (nonlinear_arith)
        requires
            b == t / w,
            0 <= t,
            1 <= w,
    ;
    assert(0 <= i * b <= w * b) by (nonlinear_arith)
        requires
            0 <= i <= w,
            0 <= b,
    ;
}

/// Plans the byte ranges: exactly `worker_count` segments, segment `i`
/// running from `i * block_size` up to `(i + 1) * block_size`, with the
/// final segment running to `total_length`.
pub fn plan(total_length: u64, worker_count: u8) -> (segments: Vec<Segment>)
    requires
        worker_count >= 1,
    ensures
        segments@.len() == worker_count as int,
        forall|i: int|
            0 <= i < worker_count as int ==> (#[trigger] segments@[i]).start == seg_start(
                total_length,
                worker_count,
                i,
            ) && segments@[i].end == seg_end(total_length, worker_count, i),
{
    let block: u64 = total_length / (worker_count as u64);
    assert(block == block_size(total_length, worker_count));
    let mut segments: Vec<Segment> = Vec::new();
    let mut i: u8 = 0;
    while i < worker_count
        invariant
            i <= worker_count,
            worker_count >= 1,
            block == block_size(total_length, worker_count),
            segments@.len() == i as int,
            forall|j: int|
                0 <= j < i as int ==> (#[trigger] segments@[j]).start == seg_start(
                    total_length,
                    worker_count,
                    j,
                ) && segments@[j].end == seg_end(total_length, worker_count, j),
        decreases worker_count - i,
    {
        proof {
            lemma_block_multiple_bound(total_length, worker_count, i as int);
            lemma_block_multiple_bound(total_length, worker_count, i as int + 1);
        }
        let start: u64 = (i as u64) * block;
        let end: u64 = if i == worker_count - 1 {
            total_length
        } else {
            (i as u64 + 1) * block
        };
        segments.push(Segment { start, end });
        i = i + 1;
    }
    segments
}

/// The planned segments tile the resource: the first starts at zero, the
/// last ends at the total length, each segment ends where the next begins,
/// and no segment runs backwards.
pub proof fn lemma_plan_partition(total_length: u64, worker_count: u8)
    requires
        worker_count >= 1,
    ensures
        seg_start(total_length, worker_count, 0) == 0,
        seg_end(total_length, worker_count, worker_count as int - 1) == total_length as int,
        forall|i: int|
            0 <= i < worker_count as int ==> 0 <= #[trigger] seg_start(total_length, worker_count, i)
                <= seg_end(total_length, worker_count, i) <= total_length as int,
        forall|i: int|
            0 <= i < worker_count as int - 1 ==> #[trigger] seg_end(total_length, worker_count, i)
                == seg_start(total_length, worker_count, i + 1),
        forall|i: int, j: int|
            0 <= i <= j < worker_count as int ==> #[trigger] seg_start(total_length, worker_count, i)
                <= #[trigger] seg_start(total_length, worker_count, j),
{
    let b = block_size(total_length, worker_count);
    assert forall|i: int| 0 <= i < worker_count as int implies 0 <= #[trigger] seg_start(
        total_length,
        worker_count,
        i,
    ) <= seg_end(total_length, worker_count, i) <= total_length as int by {
        lemma_block_multiple_bound(total_length, worker_count, i);
        lemma_block_multiple_bound(total_length, worker_count, i + 1);
        assert(i * b <= (i + 1) * b) by (nonlinear_arith)
            requires
                0 <= b,
                0 <= i,
        ;
    }
    assert forall|i: int, j: int| 0 <= i <= j < worker_count as int implies #[trigger] seg_start(
        total_length,
        worker_count,
        i,
    ) <= #[trigger] seg_start(total_length, worker_count, j) by {
        lemma_block_multiple_bound(total_length, worker_count, 1);
        assert(i * b <= j * b) by (nonlinear_arith)
            requires
                0 <= i <= j,
                0 <= b,
        ;
    }
}

/// Any two distinct planned segments are disjoint: the earlier one ends no
/// later than the later one begins.
pub proof fn lemma_plan_disjoint(total_length: u64, worker_count: u8, i: int, j: int)
    requires
        worker_count >= 1,
        0 <= i < j < worker_count as int,
    ensures
        seg_end(total_length, worker_count, i) <= seg_start(total_length, worker_count, j),
{
    let b = block_size(total_length, worker_count);
    assert(0 <= b) by (nonlinear_arith)
        requires
            b == total_length as int / worker_count as int,
            0 <= total_length as int,
            1 <= worker_count as int,
    ;
    assert((i + 1) * b <= j * b) by (nonlinear_arith)
        requires
            i + 1 <= j,
            0 <= b,
    ;
}

/// Every byte offset below the total length lies in exactly one planned
/// segment; together with `lemma_plan_disjoint` this is the coverage half
/// of the planner's partition property.
pub proof fn lemma_plan_covers(total_length: u64, worker_count: u8, off: int)
    requires
        worker_count >= 1,
        0 <= off < total_length as int,
    ensures
        exists|i: int|
            0 <= i < worker_count as int && seg_start(total_length, worker_count, i) <= off
                && off < seg_end(total_length, worker_count, i),
{
    let b = block_size(total_length, worker_count);
    let w = worker_count as int;
    let t = total_length as int;
    if b == 0 {
        let i = w - 1;
        assert(seg_start(total_length, worker_count, i) == i * 0 == 0) by (nonlinear_arith)
            requires
                b == 0,
                seg_start(total_length, worker_count, i) == i * b,
        ;
        assert(seg_start(total_length, worker_count, i) <= off && off < seg_end(
            total_length,
            worker_count,
            i,
        ));
    } else {
        let q = off / b;
        let r = off % b;
        vstd::arithmetic::div_mod::lemma_fundamental_div_mod(off, b);
        vstd::arithmetic::div_mod::lemma_mod_bound(off, b);
        assert(q * b <= off < (q + 1) * b && 0 <= q) by (nonlinear_arith)
            requires
                off == b * q + r,
                0 <= r < b,
                0 <= off,
        ;
        if q < w - 1 {
            assert(seg_start(total_length, worker_count, q) <= off && off < seg_end(
                total_length,
                worker_count,
                q,
            ));
        } else {
            let i = w - 1;
            assert(i * b <= q * b) by (nonlinear_arith)
                requires
                    i <= q,
                    0 <= b,
            ;
            assert(seg_start(total_length, worker_count, i) <= off && off < seg_end(
                total_length,
                worker_count,
                i,
            ));
        }
    }
}

/// When the total length is zero every planned segment is empty, so each
/// worker has nothing to fetch.
pub proof fn lemma_plan_zero_length(worker_count: u8)
    requires
        worker_count >= 1,
    ensures
        forall|i: int|
            0 <= i < worker_count as int ==> #[trigger] seg_start(0, worker_count, i) == 0
                && seg_end(0, worker_count, i) == 0,
{
    assert forall|i: int| 0 <= i < worker_count as int implies #[trigger] seg_start(
        0,
        worker_count,
        i,
    ) == 0 && seg_end(0, worker_count, i) == 0 by {
        assert(i * block_size(0, worker_count) == 0 && (i + 1) * block_size(0, worker_count) == 0)
            by (nonlinear_arith)
            requires
                block_size(0, worker_count) == 0,
        ;
    }
}

/// The bytes of the resource covered by the first `k` planned segments,
/// concatenated in order.
pub open spec fn planned_concat(content: Seq<u8>, total_length: u64, worker_count: u8, k: int) -> Seq<
    u8,
>
    decreases k,
{
    if k <= 0 {
        Seq::empty()
    } else {
        planned_concat(content, total_length, worker_count, k - 1) + content.subrange(
            seg_start(total_length, worker_count, k - 1),
            seg_end(total_length, worker_count, k - 1),
        )
    }
}

#[verifier::rlimit(50)]
proof fn lemma_planned_concat_prefix(content: Seq<u8>, total_length: u64, worker_count: u8, k: int)
    requires
        worker_count >= 1,
        content.len() == total_length,
        0 <= k <= worker_count as int,
    ensures
        planned_concat(content, total_length, worker_count, k) == content.subrange(
            0,
            if k == worker_count as int {
                total_length as int
            } else {
                seg_start(total_length, worker_count, k)
            },
        ),
    decreases k,
{
    if k == 0 {
        assert(planned_concat(content, total_length, worker_count, 0) =~= content.subrange(0, 0));
    } else {
        let w = worker_count as int;
        let t = total_length as int;
        lemma_planned_concat_prefix(content, total_length, worker_count, k - 1);
        lemma_plan_partition(total_length, worker_count);
        lemma_block_multiple_bound(total_length, worker_count, k - 1);
        lemma_block_multiple_bound(total_length, worker_count, k);
        let s = seg_start(total_length, worker_count, k - 1);
        let e = seg_end(total_length, worker_count, k - 1);
        assert(0 <= s <= e <= t);
        assert(planned_concat(content, total_length, worker_count, k - 1) == content.subrange(
            0,
            s,
        ));
        assert(content.subrange(0, s) + content.subrange(s, e) =~= content.subrange(0, e));
        assert(e == if k == w {
            t
        } else {
            seg_start(total_length, worker_count, k)
        });
    }
}

/// Round trip: for a resource of any length split over any worker count,
/// concatenating the resource's bytes at each planned segment's range, in
/// order, reproduces the resource byte for byte.
pub proof fn lemma_segments_round_trip(content: Seq<u8>, total_length: u64, worker_count: u8)
    requires
        worker_count >= 1,
        content.len() == total_length,
    ensures
        planned_concat(content, total_length, worker_count, worker_count as int) == content,
{
    lemma_planned_concat_prefix(content, total_length, worker_count, worker_count as int);
    assert(content.subrange(0, total_length as int) =~= content);
}

} // verus!
