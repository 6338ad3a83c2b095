use stage_rs::layout::{
    centered_rect, conflict_areas, list_and_filter, message_and_hints, screen_areas, side_by_side_halves,
    text_and_bar, which_key_area, which_key_column_width,
};

fn near(n: i64, m: i64) -> bool {
    m - 1 <= n && n <= m + 1
}

#[test]
fn centered_rect_size_and_margins_follow_the_percentages() {
    let areas = [(0u16, 0u16, 100u16, 100u16), (3, 7, 157, 61), (0, 0, 80, 24), (10, 2, 1, 1), (0, 0, 0, 0)];
    for area in areas {
        for px in [0u16, 1, 33, 50, 51, 60, 75, 99, 100] {
            for py in [0u16, 7, 20, 25, 50, 51, 70, 100] {
                let r = centered_rect(px, py, area);
                let (w, h) = (area.2 as i64, area.3 as i64);
                assert!(near(r.2 as i64, w * px as i64 / 100), "{area:?} {px} {py} {r:?}");
                assert!(near(r.3 as i64, h * py as i64 / 100), "{area:?} {px} {py} {r:?}");
                assert!(near(r.0 as i64 - area.0 as i64, w * ((100 - px) / 2) as i64 / 100));
                assert!(near(r.1 as i64 - area.1 as i64, h * ((100 - py) / 2) as i64 / 100));
                assert!(area.0 <= r.0 && r.0 as u32 + r.2 as u32 <= area.0 as u32 + area.2 as u32);
                assert!(area.1 <= r.1 && r.1 as u32 + r.3 as u32 <= area.1 as u32 + area.3 as u32);
            }
        }
    }
}

#[test]
fn screen_is_header_body_and_footer() {
    let (header, files, diff, footer) = screen_areas((0, 0, 120, 40));
    assert_eq!(header, (0, 0, 120, 1));
    assert_eq!(files, (0, 1, 30, 38));
    assert_eq!(diff, (30, 1, 90, 38));
    assert_eq!(footer, (0, 39, 120, 1));
}

#[test]
fn halves_cover_the_width() {
    for width in [0u16, 1, 2, 7, 90, 91] {
        let (l, r) = side_by_side_halves((30, 1, width, 38));
        assert_eq!(l.0, 30);
        assert_eq!(r.0, l.0 + l.2);
        assert_eq!(r.0 + r.2, 30 + width);
        assert!(near(l.2 as i64, width as i64 * 50 / 100));
        assert!(near(r.2 as i64, width as i64 * 50 / 100));
    }
}

#[test]
fn conflict_view_has_a_status_row_and_two_panels() {
    let (status, left, right) = conflict_areas((30, 1, 91, 38));
    assert_eq!(status, (30, 1, 91, 1));
    assert_eq!((left.1, left.3, right.1, right.3), (2, 37, 2, 37));
    assert_eq!(left.0, 30);
    assert_eq!(right.0, left.0 + left.2);
    assert_eq!(right.0 + right.2, 121);
}

#[test]
fn last_rows_and_columns_are_kept_at_the_end() {
    assert_eq!(list_and_filter((1, 2, 28, 36)), ((1, 2, 28, 35), (1, 37, 28, 1)));
    assert_eq!(text_and_bar((61, 1, 60, 38)), ((61, 1, 59, 38), (120, 1, 1, 38)));
    assert_eq!(message_and_hints((5, 6, 40, 10)), ((5, 6, 40, 8), (5, 14, 40, 2)));
}

#[test]
fn command_popup_sits_above_the_footer() {
    assert_eq!(which_key_area(7, (0, 0, 80, 24)), (0, 18, 80, 5));
    assert_eq!(which_key_area(0, (0, 0, 80, 24)), (0, 21, 80, 2));
    assert_eq!(which_key_area(9, (0, 0, 80, 3)), (0, 0, 80, 5));
    assert_eq!(which_key_column_width(78), 26);
}
