use meme_bingo::grid::{BingoField, BingoGrid, GridError, QBingoGrid};

fn names(v: &[&str]) -> Vec<String> {
    v.iter().map(|s| s.to_string()).collect()
}

fn cells(n: usize) -> Vec<BingoField> {
    (0..n)
        .map(|i| BingoField { name: format!("c{}", i), range: (i % 256) as u8 })
        .collect()
}

#[test]
fn size_three_gives_nine_blank_cells() {
    let g = BingoGrid::new_from_size(3).unwrap();
    assert_eq!(g.size, 3);
    assert_eq!(g.fields.len(), 9);
    for f in &g.fields {
        assert_eq!(f.name, "");
        assert_eq!(f.range, 0);
    }
}

#[test]
fn every_allowed_size_is_blank_and_square() {
    for side in 0u8..=15 {
        let g = BingoGrid::new_from_size(side).unwrap();
        assert_eq!(g.size, side);
        assert_eq!(g.fields.len(), side as usize * side as usize);
        assert!(g.fields.iter().all(|f| f.name.is_empty() && f.range == 0));
    }
}

#[test]
fn size_sixteen_is_too_large() {
    assert_eq!(BingoGrid::new_from_size(16), Err(GridError::SizeTooLarge));
}

#[test]
fn every_size_above_fifteen_is_too_large() {
    for side in 16u8..=255 {
        assert_eq!(BingoGrid::new_from_size(side), Err(GridError::SizeTooLarge));
    }
}

#[test]
fn size_zero_is_an_empty_card() {
    let g = BingoGrid::new_from_size(0).unwrap();
    assert_eq!(g.size, 0);
    assert!(g.fields.is_empty());
}

#[test]
fn perfect_square_counts_give_their_root() {
    for side in 0usize..=15 {
        let input = cells(side * side);
        let g = BingoGrid::new_from_fields(input.clone()).unwrap();
        assert_eq!(g.size as usize, side);
        assert_eq!(g.fields, input);
    }
}

#[test]
fn counts_above_the_cap_are_too_many() {
    for n in [226usize, 256, 300, 1000] {
        assert_eq!(BingoGrid::new_from_fields(cells(n)), Err(GridError::TooManyCells));
    }
}

#[test]
fn non_square_counts_are_not_square() {
    for n in [2usize, 3, 5, 10, 224] {
        assert_eq!(BingoGrid::new_from_fields(cells(n)), Err(GridError::NotSquare));
    }
}

#[test]
fn four_names_make_a_two_by_two_card() {
    let g = BingoGrid::new_from_names_and_ranges(names(&["A", "B", "C", "D"]), vec![1, 2, 3, 4])
        .unwrap();
    assert_eq!(g.size, 2);
    let got: Vec<(String, u8)> = g.fields.iter().map(|f| (f.name.clone(), f.range)).collect();
    assert_eq!(
        got,
        vec![
            ("A".to_string(), 1),
            ("B".to_string(), 2),
            ("C".to_string(), 3),
            ("D".to_string(), 4)
        ]
    );
}

#[test]
fn unequal_lists_are_a_length_mismatch() {
    assert_eq!(
        BingoGrid::new_from_names_and_ranges(names(&["A", "B", "C"]), vec![1, 2]),
        Err(GridError::LengthMismatch)
    );
    assert_eq!(
        BingoGrid::new_from_names_and_ranges(names(&[]), vec![7]),
        Err(GridError::LengthMismatch)
    );
}

#[test]
fn five_names_are_not_square() {
    assert_eq!(
        BingoGrid::new_from_names_and_ranges(names(&["a", "b", "c", "d", "e"]), vec![1, 2, 3, 4, 5]),
        Err(GridError::NotSquare)
    );
}

#[test]
fn too_many_names_are_too_many_cells() {
    let n: Vec<String> = (0..226).map(|i| format!("n{}", i)).collect();
    let r: Vec<u8> = (0..226).map(|i| (i % 256) as u8).collect();
    assert_eq!(BingoGrid::new_from_names_and_ranges(n, r), Err(GridError::TooManyCells));
}

#[test]
fn largest_card_from_lists() {
    let n: Vec<String> = (0..225).map(|i| format!("n{}", i)).collect();
    let r: Vec<u8> = (0..225).map(|i| (i % 256) as u8).collect();
    let g = BingoGrid::new_from_names_and_ranges(n.clone(), r.clone()).unwrap();
    assert_eq!(g.size, 15);
    for i in 0..225 {
        assert_eq!(g.fields[i].name, n[i]);
        assert_eq!(g.fields[i].range, r[i]);
    }
}

#[test]
fn empty_lists_make_an_empty_card() {
    let g = BingoGrid::new_from_names_and_ranges(Vec::new(), Vec::new()).unwrap();
    assert_eq!(g.size, 0);
    assert!(g.fields.is_empty());
}

#[test]
fn building_twice_gives_the_same_card() {
    assert_eq!(BingoGrid::new_from_size(4), BingoGrid::new_from_size(4));
    assert_eq!(BingoGrid::new_from_fields(cells(9)), BingoGrid::new_from_fields(cells(9)));
    let a = BingoGrid::new_from_names_and_ranges(names(&["x", "y", "z", "w"]), vec![9, 8, 7, 6]);
    let b = BingoGrid::new_from_names_and_ranges(names(&["x", "y", "z", "w"]), vec![9, 8, 7, 6]);
    assert_eq!(a, b);
}

#[test]
fn query_size_wins_over_lists() {
    let q = QBingoGrid {
        size: Some(2),
        names: Some(names(&["A"])),
        ranges: Some(vec![1, 2]),
    };
    let g = BingoGrid::from_query(q).unwrap();
    assert_eq!(g.size, 2);
    assert!(g.fields.iter().all(|f| f.name.is_empty() && f.range == 0));
}

#[test]
fn query_with_lists_builds_from_them() {
    let q = QBingoGrid { size: None, names: Some(names(&["A"])), ranges: Some(vec![5]) };
    let g = BingoGrid::from_query(q).unwrap();
    assert_eq!(g.size, 1);
    assert_eq!(g.fields, vec![BingoField { name: "A".to_string(), range: 5 }]);
}

#[test]
fn query_errors_are_passed_on() {
    let q = QBingoGrid { size: Some(20), names: None, ranges: None };
    assert_eq!(BingoGrid::from_query(q), Err(GridError::SizeTooLarge));
    let q = QBingoGrid { size: None, names: Some(names(&["A", "B"])), ranges: Some(vec![1]) };
    assert_eq!(BingoGrid::from_query(q), Err(GridError::LengthMismatch));
}

#[test]
fn query_missing_names() {
    let q = QBingoGrid { size: None, names: None, ranges: Some(vec![1]) };
    assert_eq!(BingoGrid::from_query(q), Err(GridError::MissingNames));
}

#[test]
fn query_missing_both_lists() {
    let q = QBingoGrid { size: None, names: None, ranges: None };
    assert_eq!(BingoGrid::from_query(q), Err(GridError::MissingNamesAndRanges));
}

#[test]
fn query_missing_ranges() {
    let q = QBingoGrid { size: None, names: Some(names(&["A"])), ranges: None };
    assert_eq!(BingoGrid::from_query(q), Err(GridError::MissingRanges));
}

#[test]
fn every_error_has_its_reason() {
    assert_eq!(GridError::SizeTooLarge.reason(), "Bingo size must not be larger than 15.");
    assert_eq!(GridError::TooManyCells.reason(), "Length of fields must not exceed 225.");
    assert_eq!(
        GridError::NotSquare.reason(),
        "Taking the square root of the length of fields must yield a whole number."
    );
    assert_eq!(GridError::LengthMismatch.reason(), "names and ranges must be of the same length.");
    assert_eq!(GridError::MissingNames.reason(), "No size or name query parameters.");
    assert_eq!(GridError::MissingRanges.reason(), "No size or range query parameters.");
    assert_eq!(
        GridError::MissingNamesAndRanges.reason(),
        "No size, name or range query parameters."
    );
}
