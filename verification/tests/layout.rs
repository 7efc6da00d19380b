use mmm::layout::ElementGeometry;
use mmm::terminal::layout::MmmLayout;
use mmm::types::{MmmError, Vec2d};

fn v(col: u16, row: u16) -> Vec2d {
    Vec2d { col, row }
}

fn too_small(result: Result<MmmLayout, MmmError>) -> bool {
    match result {
        Err(MmmError::General(text)) => text == "display too small",
        _ => false,
    }
}

#[test]
fn terminal_below_the_minimum_has_no_layout() {
    assert!(too_small(MmmLayout::from_size(v(9, 4))));
    assert!(too_small(MmmLayout::from_size(v(10, 3))));
    assert!(too_small(MmmLayout::from_size(v(0, 0))));
    assert!(too_small(MmmLayout::from_size(v(9, 100))));
    assert!(too_small(MmmLayout::from_size(v(100, 3))));
}

#[test]
fn smallest_terminal_is_laid_out() {
    let layout = MmmLayout::from_size(v(10, 4)).unwrap();
    assert_eq!(
        layout,
        MmmLayout {
            term_size: v(10, 4),
            app_pos: v(0, 0),
            app_size: v(10, 4),
            parent_pos: v(1, 3),
            parent_size: v(3, 0),
            vert_sep_pos: v(4, 2),
            vert_sep_size: v(1, 2),
            horiz_sep_pos: v(0, 2),
            horiz_sep_size: v(10, 1),
            current_pos: v(5, 3),
            current_size: v(4, 0),
            path_disp_pos: v(1, 1),
            path_disp_width: 0,
            search_width: 8,
        }
    );
}

#[test]
fn common_terminal_is_laid_out() {
    let layout = MmmLayout::from_size(v(80, 24)).unwrap();
    assert_eq!(
        layout,
        MmmLayout {
            term_size: v(80, 24),
            app_pos: v(0, 0),
            app_size: v(80, 24),
            parent_pos: v(1, 3),
            parent_size: v(25, 20),
            vert_sep_pos: v(26, 2),
            vert_sep_size: v(1, 22),
            horiz_sep_pos: v(0, 2),
            horiz_sep_size: v(80, 1),
            current_pos: v(27, 3),
            current_size: v(52, 20),
            path_disp_pos: v(1, 1),
            path_disp_width: 58,
            search_width: 20,
        }
    );
}

#[test]
fn large_terminal_centres_the_frame() {
    let layout = MmmLayout::from_size(v(200, 50)).unwrap();
    assert_eq!(
        layout,
        MmmLayout {
            term_size: v(200, 50),
            app_pos: v(51, 5),
            app_size: v(98, 40),
            parent_pos: v(52, 8),
            parent_size: v(31, 36),
            vert_sep_pos: v(83, 7),
            vert_sep_size: v(1, 38),
            horiz_sep_pos: v(51, 7),
            horiz_sep_size: v(98, 1),
            current_pos: v(84, 8),
            current_size: v(64, 36),
            path_disp_pos: v(52, 6),
            path_disp_width: 76,
            search_width: 20,
        }
    );
}

#[test]
fn panes_share_out_the_frame_for_every_size() {
    for col in (10u16..300).chain([1000, 65535]) {
        for row in (4u16..80).chain([1000, 65535]) {
            let l = MmmLayout::from_size(v(col, row)).unwrap();
            assert!(l.app_pos.col as u32 + l.app_size.col as u32 <= col as u32);
            assert!(l.app_pos.row as u32 + l.app_size.row as u32 <= row as u32);
            assert_eq!(l.parent_size.col + 1 + l.current_size.col + 2, l.app_size.col);
            assert_eq!(l.parent_size.row + 4, l.app_size.row);
            assert_eq!(l.current_size.row, l.parent_size.row);
            assert_eq!(l.path_disp_width + l.search_width + 2, l.app_size.col as usize);
            assert_eq!(l.vert_sep_pos.col, l.parent_pos.col + l.parent_size.col);
            assert_eq!(l.current_pos.col, l.vert_sep_pos.col + 1);
        }
    }
}

#[test]
fn layout_is_the_same_on_every_call() {
    let first = MmmLayout::from_size(v(123, 45)).unwrap();
    let mut other = MmmLayout::from_size(v(10, 4)).unwrap();
    other.process_resize_event(v(200, 50)).unwrap();
    other.process_resize_event(v(123, 45)).unwrap();
    let second = MmmLayout::from_size(v(123, 45)).unwrap();
    assert_eq!(first, second);
    assert_eq!(first, other);
}

#[test]
fn resize_to_a_small_terminal_keeps_the_layout() {
    let mut layout = MmmLayout::from_size(v(80, 24)).unwrap();
    let before = layout.clone();
    assert!(matches!(layout.process_resize_event(v(5, 5)), Err(MmmError::General(_))));
    assert_eq!(layout, before);
    layout.process_resize_event(v(100, 30)).unwrap();
    assert_eq!(layout, MmmLayout::from_size(v(100, 30)).unwrap());
}

#[test]
fn default_layout_is_all_zero() {
    let layout = MmmLayout::default();
    assert_eq!(layout.term_size, v(0, 0));
    assert_eq!(layout.app_size, v(0, 0));
    assert_eq!(layout.search_width, 0);
    assert_eq!(layout.path_disp_width, 0);
}

#[test]
fn columns_for_narrow_and_wide_terminals() {
    assert_eq!(ElementGeometry::calculate_column_widths(20, 1), (0, 18, 0));
    assert_eq!(ElementGeometry::calculate_column_widths(40, 1), (19, 19, 0));
    assert_eq!(ElementGeometry::calculate_column_widths(60, 1), (19, 19, 20));
    assert_eq!(ElementGeometry::calculate_column_widths(58, 1), (18, 18, 19));
    assert_eq!(ElementGeometry::calculate_column_widths(104, 1), (34, 34, 34));
    assert_eq!(ElementGeometry::calculate_column_widths(120, 1), (34, 34, 50));
    assert_eq!(ElementGeometry::calculate_column_widths(1, 1), (0, 0, 0));
    assert_eq!(ElementGeometry::calculate_column_widths(10, 40000), (0, 0, 0));
}

#[test]
fn columns_never_exceed_the_width() {
    for width in 0u16..400 {
        for margin in 0u16..4 {
            let (a, b, c) = ElementGeometry::calculate_column_widths(width, margin);
            assert!(a as u32 + b as u32 + c as u32 + 2 * margin as u32 <= (width as u32).max(2 * margin as u32));
        }
    }
}

#[test]
fn geometry_follows_the_terminal() {
    let mut geometry = ElementGeometry::new(120, 40);
    assert_eq!(
        geometry,
        ElementGeometry {
            term_width: 120,
            term_height: 40,
            header_height: 3,
            footer_height: 3,
            margain_horizontal: 1,
            margain_vertical: 0,
            col_1_width: 34,
            col_2_width: 34,
            col_3_width: 50,
        }
    );
    geometry.recalculate(40, 10);
    assert_eq!(geometry.term_width, 40);
    assert_eq!(geometry.term_height, 10);
    assert_eq!((geometry.col_1_width, geometry.col_2_width, geometry.col_3_width), (19, 19, 0));
    geometry.term_width = 20;
    geometry.update_column_widths();
    assert_eq!((geometry.col_1_width, geometry.col_2_width, geometry.col_3_width), (0, 18, 0));
}
