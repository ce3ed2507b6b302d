use loghew::marking::{find_marks, highlight_pieces, mark_pieces, selected_pieces, Piece};

fn piece(start: usize, end: usize, marked: bool) -> Piece {
    Piece { start, end, marked }
}

#[test]
fn a_stretch_is_parted_by_the_ranges() {
    let ranges = vec![(2, 4), (6, 10)];
    assert_eq!(
        mark_pieces(0, 10, &ranges),
        vec![piece(0, 2, false), piece(2, 4, true), piece(4, 6, false), piece(6, 10, true)]
    );
    assert_eq!(
        mark_pieces(3, 8, &ranges),
        vec![piece(3, 4, true), piece(4, 6, false), piece(6, 8, true)]
    );
    assert_eq!(mark_pieces(4, 6, &ranges), vec![piece(4, 6, false)]);
    assert_eq!(mark_pieces(2, 4, &ranges), vec![piece(2, 4, true)]);
    assert_eq!(mark_pieces(0, 12, &ranges), vec![
        piece(0, 2, false),
        piece(2, 4, true),
        piece(4, 6, false),
        piece(6, 10, true),
        piece(10, 12, false),
    ]);
    assert_eq!(mark_pieces(5, 5, &ranges), vec![piece(5, 5, false)]);
    assert_eq!(mark_pieces(0, 3, &Vec::new()), vec![piece(0, 3, false)]);
    assert_eq!(
        mark_pieces(0, 6, &vec![(1, 1), (2, 4), (4, 5)]),
        vec![piece(0, 2, false), piece(2, 4, true), piece(4, 5, true), piece(5, 6, false)]
    );
}

#[test]
fn matches_are_marked_in_a_line() {
    let re = regex::Regex::new("b+").unwrap();
    assert_eq!(find_marks(&re, "abbcb"), vec![(1, 3), (4, 5)]);
    assert_eq!(find_marks(&re, "xyz"), Vec::new());
    assert_eq!(
        highlight_pieces(&re, "abbcb"),
        vec![piece(0, 1, false), piece(1, 3, true), piece(3, 4, false), piece(4, 5, true)]
    );
    assert_eq!(highlight_pieces(&re, "xyz"), vec![piece(0, 3, false)]);
    assert_eq!(highlight_pieces(&re, ""), vec![piece(0, 0, false)]);
    assert_eq!(highlight_pieces(&re, "bb"), vec![piece(0, 2, true)]);
    let accents = regex::Regex::new("(?i)\u{e9}t").unwrap();
    assert_eq!(
        highlight_pieces(&accents, "l'\u{c9}t\u{e9}"),
        vec![piece(0, 2, false), piece(2, 5, true), piece(5, 7, false)]
    );
}

#[test]
fn a_selection_is_marked_in_a_line() {
    let line = "h\u{e9}llo";
    assert_eq!(
        selected_pieces(line, 1, 3),
        vec![piece(0, 1, false), piece(1, 4, true), piece(4, 6, false)]
    );
    assert_eq!(selected_pieces(line, 0, 5), vec![piece(0, 6, true)]);
    assert_eq!(selected_pieces(line, 0, 99), vec![piece(0, 6, true)]);
    assert_eq!(selected_pieces(line, 2, 99), vec![piece(0, 3, false), piece(3, 6, true)]);
    assert_eq!(selected_pieces(line, 3, 3), vec![piece(0, 6, false)]);
    assert_eq!(selected_pieces(line, 4, 2), vec![piece(0, 6, false)]);
    assert_eq!(selected_pieces(line, 9, 12), vec![piece(0, 6, false)]);
    assert_eq!(selected_pieces("", 0, 1), vec![piece(0, 0, false)]);
}
