use cft_ray_tracer::{pixel_index, SampleGrid};

fn drain(mut g: SampleGrid) -> Vec<(u64, u64)> {
    let mut out = Vec::new();
    while let Some(p) = g.next() {
        out.push(p);
    }
    out
}

#[test]
fn grid_runs_column_by_column_with_repeated_samples() {
    let got = drain(SampleGrid::new(2, 3, 2));
    let want = vec![
        (0, 0), (0, 0), (0, 1), (0, 1), (0, 2), (0, 2),
        (1, 0), (1, 0), (1, 1), (1, 1), (1, 2), (1, 2),
    ];
    assert_eq!(got, want);
}

#[test]
fn grid_with_one_sample_per_pixel() {
    assert_eq!(drain(SampleGrid::new(2, 2, 1)), vec![(0, 0), (0, 1), (1, 0), (1, 1)]);
}

#[test]
fn grid_counts_every_sample() {
    let got = drain(SampleGrid::new(5, 4, 3));
    assert_eq!(got.len(), 60);
    for w in 0..5u64 {
        for h in 0..4u64 {
            assert_eq!(got.iter().filter(|p| **p == (w, h)).count(), 3);
        }
    }
}

#[test]
fn empty_grids_yield_nothing() {
    assert!(drain(SampleGrid::new(0, 3, 2)).is_empty());
    assert!(drain(SampleGrid::new(3, 0, 2)).is_empty());
    assert!(drain(SampleGrid::new(3, 2, 0)).is_empty());
}

#[test]
fn exhausted_grid_stays_exhausted() {
    let mut g = SampleGrid::new(1, 1, 1);
    assert_eq!(g.next(), Some((0, 0)));
    assert_eq!(g.next(), None);
    assert_eq!(g.next(), None);
}

#[test]
fn pixel_index_is_row_major() {
    assert_eq!(pixel_index(0, 0, 800, 600), 0);
    assert_eq!(pixel_index(3, 2, 800, 600), 1603);
    assert_eq!(pixel_index(799, 599, 800, 600), 479_999);
}
