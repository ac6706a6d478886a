use sledge::segment::{plan, Segment};

#[test]
fn plan_10_over_3() {
    let segments = plan(10, 3);
    assert_eq!(
        segments,
        vec![
            Segment { start: 0, end: 3 },
            Segment { start: 3, end: 6 },
            Segment { start: 6, end: 10 },
        ]
    );
}

#[test]
fn plan_single_worker_covers_everything() {
    let segments = plan(10, 1);
    assert_eq!(segments, vec![Segment { start: 0, end: 10 }]);
}

#[test]
fn plan_zero_length_is_all_empty() {
    let segments = plan(0, 5);
    assert_eq!(segments.len(), 5);
    for segment in &segments {
        assert_eq!(segment.start, 0);
        assert_eq!(segment.end, 0);
    }
}

#[test]
fn plan_partitions_for_many_shapes() {
    for &total in &[0u64, 1, 2, 7, 10, 100, 1000, 65537] {
        for &count in &[1u8, 2, 3, 4, 7, 100, 255] {
            let segments = plan(total, count);
            assert_eq!(segments.len(), count as usize);
            assert_eq!(segments[0].start, 0);
            assert_eq!(segments[segments.len() - 1].end, total);
            for i in 0..segments.len() {
                assert!(segments[i].start <= segments[i].end);
                if i + 1 < segments.len() {
                    assert_eq!(segments[i].end, segments[i + 1].start);
                    assert!(segments[i].start <= segments[i + 1].start);
                }
            }
        }
    }
}

#[test]
fn plan_more_workers_than_bytes() {
    let segments = plan(2, 5);
    assert_eq!(segments[0].start, 0);
    assert_eq!(segments[4].end, 2);
    for i in 0..4 {
        assert_eq!(segments[i].end, segments[i + 1].start);
    }
}

#[test]
fn segments_reassemble_the_content() {
    let content: Vec<u8> = (0u16..500).map(|b| (b % 251) as u8).collect();
    for &count in &[1u8, 2, 3, 7, 250] {
        let segments = plan(content.len() as u64, count);
        let mut rebuilt: Vec<u8> = Vec::new();
        for segment in &segments {
            rebuilt.extend_from_slice(&content[segment.start as usize..segment.end as usize]);
        }
        assert_eq!(rebuilt, content);
    }
}
