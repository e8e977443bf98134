use satnogs_monitor::layout::{cut_rows, inner_area, split, Area, Constraint, Direction, Edges};

fn area(x: u16, y: u16, width: u16, height: u16) -> Area {
    Area { x, y, width, height }
}

#[test]
fn a_length_comes_first_and_the_rest_follows() {
    for height in 0..90u16 {
        for n in [0u16, 1, 2, 4, 7, 13, 40, 89, 1000] {
            let whole = area(3, 5, 11, height);
            let (one, other) = cut_rows(whole, n);
            let cut = n.min(height);
            assert_eq!(one, area(3, 5, 11, cut));
            assert_eq!(other, area(3, 5 + cut, 11, height - cut));
        }
    }
}

#[test]
fn columns_are_cut_like_rows() {
    for width in 0..90u16 {
        let (one, other) = split(
            Direction::Horizontal,
            Constraint::Length(40),
            Constraint::Min(0),
            area(2, 9, width, 17),
        );
        let cut = width.min(40);
        assert_eq!(one, area(2, 9, cut, 17));
        assert_eq!(other, area(2 + cut, 9, width - cut, 17));
    }
}

#[test]
fn a_length_at_the_end_is_taken_from_the_end() {
    for height in 0..60u16 {
        let (one, other) = split(
            Direction::Vertical,
            Constraint::Min(0),
            Constraint::Length(10),
            area(0, 1, 80, height),
        );
        let cut = height.min(10);
        assert_eq!(one, area(0, 1, 80, height - cut));
        assert_eq!(other, area(0, 1 + height - cut, 80, cut));
    }
}

#[test]
fn a_percentage_is_rounded_down() {
    for height in 0..70u16 {
        for share in [0u16, 1, 33, 50, 67, 99, 100] {
            let (one, other) = split(
                Direction::Vertical,
                Constraint::Percentage(share),
                Constraint::Min(0),
                area(40, 2, 60, height),
            );
            let cut = share * height / 100;
            assert_eq!(one, area(40, 2, 60, cut));
            assert_eq!(other, area(40, 2 + cut, 60, height - cut));
        }
    }
}

#[test]
fn the_largest_areas_can_be_divided() {
    let (one, other) = cut_rows(area(0, 0, 1, u16::MAX), 2);
    assert_eq!(one, area(0, 0, 1, 2));
    assert_eq!(other, area(0, 2, 1, u16::MAX - 2));
    let (one, other) = cut_rows(area(u16::MAX, u16::MAX, 0, 0), u16::MAX);
    assert_eq!(one, area(u16::MAX, u16::MAX, 0, 0));
    assert_eq!(other, area(u16::MAX, u16::MAX, 0, 0));
}

#[test]
fn a_title_and_the_edges_take_their_cells() {
    let open_below = Edges { top: true, right: true, bottom: false, left: true };
    assert_eq!(inner_area(open_below, "Log", area(5, 6, 80, 10)), area(6, 7, 78, 9));
    let bare = Edges { top: false, right: false, bottom: false, left: false };
    assert_eq!(inner_area(bare, "Log", area(5, 6, 80, 10)), area(5, 7, 80, 9));
    let full = Edges { top: true, right: true, bottom: true, left: true };
    assert_eq!(inner_area(full, "Log", area(0, 0, 2, 2)), area(1, 1, 0, 0));
    assert_eq!(inner_area(full, "Log", area(4, 4, 1, 9)), area(0, 0, 0, 0));
    assert_eq!(inner_area(full, "Log", area(4, 4, 9, 1)), area(0, 0, 0, 0));
}
