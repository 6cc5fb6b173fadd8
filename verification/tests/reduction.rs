use slicer_rs::calculate::{chunks, reduction, Reduction, CHUNK_SIZE, PARALLEL_THRESHOLD};

#[test]
fn empty_list_is_not_reduced() {
    assert_eq!(reduction(0), Reduction::Empty);
    assert!(chunks(0).is_empty());
}

#[test]
fn short_list_is_summed_in_one_run() {
    assert_eq!(reduction(1), Reduction::Sequential);
    assert_eq!(reduction(12), Reduction::Sequential);
    assert_eq!(reduction(999), Reduction::Sequential);
}

#[test]
fn long_list_is_summed_in_chunks() {
    assert_eq!(PARALLEL_THRESHOLD, 1000);
    assert_eq!(reduction(1000), Reduction::Chunked);
    assert_eq!(reduction(1001), Reduction::Chunked);
    assert_eq!(reduction(5_000_000), Reduction::Chunked);
    assert_eq!(reduction(usize::MAX), Reduction::Chunked);
}

#[test]
fn chunks_hold_a_thousand_triangles_each() {
    assert_eq!(CHUNK_SIZE, 1000);
    assert_eq!(chunks(1), vec![(0, 1)]);
    assert_eq!(chunks(999), vec![(0, 999)]);
    assert_eq!(chunks(1000), vec![(0, 1000)]);
    assert_eq!(chunks(1001), vec![(0, 1000), (1000, 1001)]);
    assert_eq!(chunks(2500), vec![(0, 1000), (1000, 2000), (2000, 2500)]);
    assert_eq!(chunks(5000).len(), 5);
    assert_eq!(chunks(5000)[4], (4000, 5000));
}

#[test]
fn chunks_cover_the_list_end_to_end() {
    for len in [1usize, 2, 999, 1000, 1001, 1999, 2000, 2001, 12_345, 100_000] {
        let pieces = chunks(len);
        assert_eq!(pieces.len(), (len + 999) / 1000);
        assert_eq!(pieces[0].0, 0);
        assert_eq!(pieces[pieces.len() - 1].1, len);
        for k in 0..pieces.len() {
            assert!(pieces[k].0 < pieces[k].1);
            assert!(pieces[k].1 - pieces[k].0 <= 1000);
            if k > 0 {
                assert_eq!(pieces[k].0, pieces[k - 1].1);
            }
        }
    }
}
