use blevm_prover::{SquareError, check_share_coverage, plan_share_ranges, row_span, NmtRangeProof};

#[test]
fn span_of_first_share() {
    let s = row_span(0, 1, 4).unwrap();
    assert_eq!(s.first_row, 0);
    assert_eq!(s.ods_index, 0);
    assert_eq!(s.last_row, 0);
    assert_eq!(s.share_count, 1);
}

#[test]
fn span_in_second_row() {
    // eds 4, ods 2: index 5 lies in row 1; ods position 5 - 1*2 = 3.
    let s = row_span(5, 1, 4).unwrap();
    assert_eq!(s.first_row, 1);
    assert_eq!(s.ods_index, 3);
    assert_eq!(s.last_row, 1);
}

#[test]
fn empty_blob_collapses_to_one_share() {
    let zero = row_span(2, 0, 4).unwrap();
    let one = row_span(2, 1, 4).unwrap();
    assert_eq!(zero.first_row, one.first_row);
    assert_eq!(zero.last_row, one.last_row);
    assert_eq!(zero.share_count, 1);
    assert_eq!(one.share_count, 1);
}

#[test]
fn bad_geometry_is_rejected() {
    assert!(matches!(row_span(0, 1, 0), Err(SquareError::BadSquareGeometry)));
    assert!(matches!(row_span(0, 1, 3), Err(SquareError::BadSquareGeometry)));
    // A span that runs past the square's rows.
    assert!(matches!(row_span(0, 100, 4), Err(SquareError::BadSquareGeometry)));
}

#[test]
fn planned_ranges_tile_the_blob() {
    // ods width 2, five shares starting at the row boundary.
    let r = plan_share_ranges(0, 5, 2);
    assert_eq!(r, vec![(0, 2), (2, 4), (4, 5)]);
    // one share needs exactly one range proof
    let one = plan_share_ranges(3, 1, 2);
    assert_eq!(one, vec![(0, 1)]);
    // a mid-row start splits the first range early
    let mid = plan_share_ranges(1, 4, 2);
    assert_eq!(mid, vec![(0, 1), (1, 3), (3, 4)]);
}

fn proofs_of(iv: &[(u64, u64)]) -> Vec<NmtRangeProof> {
    iv.iter()
        .map(|&(start, end)| NmtRangeProof { start, end, siblings: Vec::new() })
        .collect()
}

#[test]
fn coverage_accepts_exact_tilings() {
    assert!(check_share_coverage(&proofs_of(&[(0, 2), (2, 4), (4, 5)]), 5));
    assert!(check_share_coverage(&proofs_of(&[(0, 1)]), 1));
    assert!(check_share_coverage(&proofs_of(&[]), 0));
}

#[test]
fn coverage_rejects_gap_overlap_and_wrong_total() {
    assert!(!check_share_coverage(&proofs_of(&[(0, 2), (3, 5)]), 5));
    assert!(!check_share_coverage(&proofs_of(&[(0, 3), (2, 5)]), 5));
    assert!(!check_share_coverage(&proofs_of(&[(1, 5)]), 5));
    assert!(!check_share_coverage(&proofs_of(&[(0, 4)]), 5));
    assert!(!check_share_coverage(&proofs_of(&[(0, 5)]), 4));
    assert!(!check_share_coverage(&proofs_of(&[]), 1));
}
