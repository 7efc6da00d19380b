use mmm::filesystem::filter::FilterMatchEnum;
use mmm::filesystem::path::MmmPath;
use mmm::filesystem::{MmmDirEntry, MmmFilesys, MmmScoredDirEntry};
use mmm::terminal::buffer::{Color, Colors, StyledChar, TerminalBuffer};
use mmm::terminal::draw::{
    clamp_string, corners_of, current_dir_line, draw_background, draw_current_dir, draw_parent_dir, draw_search_str,
    parent_dir_line, parent_top_row, print_at, DrawOps,
};
use mmm::terminal::layout::MmmLayout;
use mmm::types::{MmmError, Vec2d};
use std::rc::Rc;

use FilterMatchEnum::{Match, NoMatch};

fn v(col: u16, row: u16) -> Vec2d {
    Vec2d { col, row }
}

fn path(parts: &[&str]) -> MmmPath {
    MmmPath { components: parts.iter().map(|p| p.to_string()).collect() }
}

fn file(name: &str) -> Rc<MmmDirEntry> {
    Rc::new(MmmDirEntry::File { name: name.to_string(), path: path(&["home", "user", name]), executable: false })
}

fn dir(name: &str) -> Rc<MmmDirEntry> {
    Rc::new(MmmDirEntry::Directory { name: name.to_string(), path: path(&["home", "user", name]) })
}

fn rows(buffer: &TerminalBuffer) -> Vec<String> {
    let columns = buffer.terminal_size.col as usize;
    buffer.scratch_buffer.chunks(columns).map(|row| row.iter().map(|c| c.character).collect()).collect()
}

fn cell(buffer: &TerminalBuffer, col: usize, row: usize) -> StyledChar {
    buffer.scratch_buffer[row * buffer.terminal_size.col as usize + col]
}

fn style(fg: Color, bold: bool) -> (Colors, bool) {
    (Colors::new(fg, Color::Reset), bold)
}

fn style_of(c: StyledChar) -> (Colors, bool) {
    (c.colour, c.bold)
}

fn text(cells: &[StyledChar]) -> String {
    cells.iter().map(|c| c.character).collect()
}

#[test]
fn long_strings_are_cut_to_the_width() {
    assert_eq!(clamp_string("abcdef", 3), "abc");
    assert_eq!(clamp_string("abc", 3), "abc");
    assert_eq!(clamp_string("ab", 3), "ab");
    assert_eq!(clamp_string("abc", 0), "");
    assert_eq!(clamp_string("", 4), "");
    assert_eq!(clamp_string("héllo", 2), "hé");
}

#[test]
fn draw_requests_know_whether_they_ask_for_anything() {
    assert!(!DrawOps::new(false, false, false).is_any());
    assert!(DrawOps::new(true, false, false).is_any());
    assert!(DrawOps::new(false, true, false).is_any());
    assert!(DrawOps::new(false, false, true).is_any());
    let ops = DrawOps::new(true, false, true);
    assert!(ops.background && !ops.current_dir && ops.search_box);
}

#[test]
fn cells_are_printed_at_a_row_of_the_pane() {
    let mut buffer = TerminalBuffer::new(&v(5, 3));
    let cells = mmm::terminal::buffer::to_styled_string("ab", Color::Red, Color::Reset);
    print_at(&mut buffer, v(1, 1), 1, &cells).unwrap();
    assert_eq!(rows(&buffer), ["     ", "     ", " ab  "]);
    assert_eq!(buffer.cursor_pos, 13);
    assert!(matches!(print_at(&mut buffer, v(1, 1), 3, &cells), Err(MmmError::TerminalBuffer)));
    assert!(matches!(print_at(&mut buffer, v(6, 0), 0, &cells), Err(MmmError::TerminalBuffer)));
    assert!(matches!(print_at(&mut buffer, v(0, 65535), 1, &cells), Err(MmmError::TerminalBuffer)));
    assert!(matches!(print_at(&mut buffer, v(0, 1), usize::MAX, &cells), Err(MmmError::TerminalBuffer)));
    assert_eq!(rows(&buffer), ["     ", "     ", " ab  "]);
    assert_eq!(buffer.cursor_pos, 13);
}

#[test]
fn matched_characters_are_bold_and_red() {
    let item = MmmScoredDirEntry { entry: dir("source"), filter_match: vec![Match, NoMatch, NoMatch, Match, NoMatch, NoMatch], score: 0 };
    let line = current_dir_line(&item, 5).unwrap();
    assert_eq!(text(&line), "sourc");
    assert_eq!(style_of(line[0]), style(Color::Red, true));
    assert_eq!(style_of(line[1]), style(Color::Blue, false));
    assert_eq!(style_of(line[3]), style(Color::Red, true));
    let plain_file = MmmScoredDirEntry { entry: file("ab"), filter_match: vec![NoMatch, NoMatch], score: 0 };
    let line = current_dir_line(&plain_file, 5).unwrap();
    assert_eq!(text(&line), "ab");
    assert_eq!(style_of(line[0]), style(Color::White, false));
}

#[test]
fn mask_shorter_than_the_name_is_an_error() {
    let item = MmmScoredDirEntry { entry: file("abc"), filter_match: vec![FilterMatchEnum::NoMatch], score: 0 };
    assert!(matches!(current_dir_line(&item, 5), Err(MmmError::General(text)) if text == "out of bounds of filter"));
    assert_eq!(text(&current_dir_line(&item, 1).unwrap()), "a");
    let mut buffer = TerminalBuffer::new(&v(6, 3));
    let good = MmmScoredDirEntry { entry: file("ok"), filter_match: vec![FilterMatchEnum::NoMatch; 2], score: 0 };
    let result = draw_current_dir(&mut buffer, &[good, item], v(1, 0), v(4, 3));
    assert!(matches!(result, Err(MmmError::General(text)) if text == "out of bounds of filter"));
    assert_eq!(rows(&buffer), [" ok   ", "      ", "      "]);
}

#[test]
fn current_pane_lists_the_top_entries() {
    let state = MmmFilesys::from_path(
        path(&["home", "user"]),
        vec![file("b.txt"), dir("src"), file("a-long-name.txt"), file("c")],
        None,
    )
    .unwrap();
    let mut buffer = TerminalBuffer::new(&v(10, 4));
    draw_current_dir(&mut buffer, &state.filtered_current_dir_list, v(2, 1), v(6, 3)).unwrap();
    assert_eq!(rows(&buffer), ["          ", "  a-long  ", "  b.txt   ", "  c       "]);
    assert_eq!(buffer.cursor_pos, 33);
}

#[test]
fn current_pane_off_the_terminal_is_an_error() {
    let state = MmmFilesys::from_path(path(&["home", "user"]), vec![file("a"), file("b")], None).unwrap();
    let mut buffer = TerminalBuffer::new(&v(4, 2));
    let result = draw_current_dir(&mut buffer, &state.filtered_current_dir_list, v(0, 2), v(4, 2));
    assert!(matches!(result, Err(MmmError::TerminalBuffer)));
    assert_eq!(rows(&buffer), ["    ", "    "]);
    let mut buffer = TerminalBuffer::new(&v(4, 2));
    assert!(draw_current_dir(&mut buffer, &[], v(9, 9), v(4, 2)).is_ok());
}

#[test]
fn parent_pane_scrolls_to_the_selection() {
    assert_eq!(parent_top_row(0, 5, 20), 0);
    assert_eq!(parent_top_row(2, 5, 20), 0);
    assert_eq!(parent_top_row(7, 5, 20), 5);
    assert_eq!(parent_top_row(19, 5, 20), 14);
    assert_eq!(parent_top_row(3, 5, 4), 0);
    assert_eq!(parent_top_row(3, 0, 4), 3);
    assert_eq!(parent_top_row(9, 4, 10), 5);
}

#[test]
fn selected_parent_entry_is_marked_up_to_the_separator() {
    let line = parent_dir_line(&dir("user"), true, 8, false).unwrap();
    assert_eq!(text(&line), "user ───┤");
    assert_eq!(style_of(line[0]), style(Color::Red, true));
    assert_eq!(style_of(line[4]), style(Color::Reset, false));
    assert_eq!(style_of(line[8]), style(Color::Reset, false));
    assert_eq!(text(&parent_dir_line(&dir("user"), true, 4, false).unwrap()), "user┤");
    assert_eq!(text(&parent_dir_line(&dir("user"), true, 5, false).unwrap()), "user ┤");
    assert_eq!(text(&parent_dir_line(&dir("username"), true, 4, false).unwrap()), "user┤");
    let hidden = parent_dir_line(&dir(".git"), true, 6, false).unwrap();
    assert_eq!(style_of(hidden[0]), style(Color::DarkGrey, true));
    let shown = parent_dir_line(&dir(".git"), true, 6, true).unwrap();
    assert_eq!(style_of(shown[0]), style(Color::Red, true));
}

#[test]
fn other_parent_entries_have_the_colour_of_their_kind() {
    let line = parent_dir_line(&dir("user"), false, 8, false).unwrap();
    assert_eq!(text(&line), "user");
    assert_eq!(style_of(line[0]), style(Color::Blue, false));
    let line = parent_dir_line(&file("notes"), false, 3, false).unwrap();
    assert_eq!(text(&line), "not");
    assert_eq!(style_of(line[0]), style(Color::White, false));
}

#[test]
fn selected_entry_without_a_name_is_an_error() {
    let result = parent_dir_line(&dir(""), true, 4, false);
    assert!(matches!(result, Err(MmmError::General(text)) if text == "cannot index empty name"));
    assert_eq!(text(&parent_dir_line(&dir(""), true, 2, true).unwrap()), " ─┤");
    assert_eq!(text(&parent_dir_line(&dir(""), false, 2, false).unwrap()), "");
}

#[test]
fn parent_pane_shows_the_entries_around_the_selection() {
    let list: Vec<Rc<MmmDirEntry>> = ["a", "b", "c", "d", "e", "f", "g", "h"].iter().map(|n| dir(n)).collect();
    let mut buffer = TerminalBuffer::new(&v(6, 3));
    draw_parent_dir(&mut buffer, &list, 3, v(0, 0), v(4, 3), false).unwrap();
    assert_eq!(rows(&buffer), ["c     ", "d ──┤ ", "e     "]);
    let mut buffer = TerminalBuffer::new(&v(6, 3));
    draw_parent_dir(&mut buffer, &list, 7, v(0, 0), v(4, 3), false).unwrap();
    assert_eq!(rows(&buffer), ["e     ", "f     ", "g     "]);
    let mut buffer = TerminalBuffer::new(&v(6, 3));
    draw_parent_dir(&mut buffer, &list[..2], 1, v(1, 1), v(4, 3), false).unwrap();
    assert_eq!(rows(&buffer), ["      ", " a    ", " b ──┤"]);
}

#[test]
fn search_bar_shows_the_end_of_path_and_filter() {
    let mut buffer = TerminalBuffer::new(&v(24, 2));
    draw_search_str(&mut buffer, v(1, 1), 8, "/home/user", 5, "abcdefg").unwrap();
    assert_eq!(rows(&buffer)[1], " me/user/cdefg          ");
    assert_eq!(style_of(cell(&buffer, 1, 1)), style(Color::DarkGrey, false));
    assert_eq!(style_of(cell(&buffer, 8, 1)), style(Color::White, false));
    assert_eq!(style_of(cell(&buffer, 9, 1)), style(Color::Red, true));
    assert_eq!(buffer.cursor_pos, 24 + 14);
}

#[test]
fn search_bar_at_the_root_shows_the_separator_alone() {
    let mut buffer = TerminalBuffer::new(&v(8, 1));
    draw_search_str(&mut buffer, v(0, 0), 5, "/", 3, "ab").unwrap();
    assert_eq!(rows(&buffer), ["/ab     "]);
    let mut buffer = TerminalBuffer::new(&v(8, 1));
    draw_search_str(&mut buffer, v(0, 0), 0, "/home", 3, "ab").unwrap();
    assert_eq!(rows(&buffer), ["ab      "]);
    let mut buffer = TerminalBuffer::new(&v(8, 1));
    draw_search_str(&mut buffer, v(0, 0), 1, "/home", 0, "ab").unwrap();
    assert_eq!(rows(&buffer), ["/       "]);
    let mut buffer = TerminalBuffer::new(&v(8, 1));
    assert!(matches!(draw_search_str(&mut buffer, v(9, 0), 5, "/", 3, "ab"), Err(MmmError::TerminalBuffer)));
    assert_eq!(rows(&buffer), ["        "]);
}

#[test]
fn corners_lie_on_the_box() {
    assert_eq!(corners_of(v(2, 3), v(4, 1)).unwrap(), (v(2, 3), v(5, 3)));
    assert_eq!(corners_of(v(65535, 0), v(1, 1)).unwrap(), (v(65535, 0), v(65535, 0)));
    assert!(matches!(corners_of(v(2, 3), v(0, 1)), Err(MmmError::Layout)));
    assert!(matches!(corners_of(v(2, 3), v(1, 0)), Err(MmmError::Layout)));
    assert!(matches!(corners_of(v(65535, 0), v(2, 1)), Err(MmmError::Layout)));
    assert!(matches!(corners_of(v(0, 65535), v(1, 2)), Err(MmmError::Layout)));
}

#[test]
fn background_is_the_frame_and_its_separators() {
    let layout = MmmLayout::from_size(v(12, 6)).unwrap();
    let mut buffer = TerminalBuffer::new(&layout.term_size);
    draw_background(&mut buffer, &layout).unwrap();
    assert_eq!(
        rows(&buffer),
        ["┏━━━━━━━━━━┓", "┃          ┃", "┣━━━┳━━━━━━┫", "┃   ┃      ┃", "┃   ┃      ┃", "┗━━━┻━━━━━━┛"]
    );
    assert_eq!(buffer.cursor_pos, 0);
}

#[test]
fn background_without_extent_is_an_error() {
    let mut layout = MmmLayout::from_size(v(12, 6)).unwrap();
    layout.vert_sep_size = v(1, 0);
    let mut buffer = TerminalBuffer::new(&layout.term_size);
    assert!(matches!(draw_background(&mut buffer, &layout), Err(MmmError::Layout)));
    assert!(buffer.scratch_buffer.iter().all(|c| c.character == ' '));
    assert!(matches!(draw_background(&mut buffer, &MmmLayout::default()), Err(MmmError::Layout)));
}

fn in_user() -> MmmFilesys {
    let parent = vec![
        Rc::new(MmmDirEntry::Directory { name: "user".to_string(), path: path(&["home", "user"]) }),
        Rc::new(MmmDirEntry::Directory { name: "guest".to_string(), path: path(&["home", "guest"]) }),
    ];
    MmmFilesys::from_path(path(&["home", "user"]), vec![file("notes.txt"), dir("src")], Some(parent)).unwrap()
}

#[test]
fn whole_screen_is_drawn() {
    let layout = MmmLayout::from_size(v(40, 8)).unwrap();
    let mut state = in_user();
    state.filter_add_char('s');
    let mut buffer = TerminalBuffer::new(&v(1, 1));
    DrawOps::new(true, true, true).draw(&mut buffer, &state, &layout).unwrap();
    assert_eq!(buffer.terminal_size, v(40, 8));
    assert_eq!(
        rows(&buffer),
        [
            "┏━ mmm ━━━━━━━━━━━━━━━━━━━━━━━━━━━━━━━━┓",
            "┃/home/user/s                          ┃",
            "┣━━━━━━━━━━━━┳━━━━━━━━━━━━━━━━━━━━━━━━━┫",
            "┃guest       ┃src                      ┃",
            "┃user ───────┤notes.txt                ┃",
            "┃            ┃                         ┃",
            "┃            ┃                         ┃",
            "┗━━━━━━━━━━━━┻━━━━━━━━━━━━━━━━━━━━━━━━━┛",
        ]
    );
    assert_eq!(style_of(cell(&buffer, 14, 3)), style(Color::Red, true));
    assert_eq!(style_of(cell(&buffer, 15, 3)), style(Color::Blue, false));
    assert_eq!(style_of(cell(&buffer, 14, 4)), style(Color::White, false));
    assert_eq!(style_of(cell(&buffer, 18, 4)), style(Color::Red, true));
    assert_eq!(style_of(cell(&buffer, 1, 4)), style(Color::Red, true));
    assert_eq!(style_of(cell(&buffer, 1, 3)), style(Color::Blue, false));
    assert_eq!(buffer.cursor_pos, 7);
    assert!(buffer.buffer.iter().all(|c| c.character == '\u{FFFD}'));
}

#[test]
fn nothing_asked_nothing_drawn() {
    let layout = MmmLayout::from_size(v(40, 8)).unwrap();
    let mut buffer = TerminalBuffer::new(&v(40, 8));
    DrawOps::new(false, false, false).draw(&mut buffer, &in_user(), &layout).unwrap();
    assert!(buffer.scratch_buffer.iter().all(|c| c.character == ' '));
    assert_eq!(buffer.cursor_pos, 0);
}

#[test]
fn drawing_on_a_buffer_of_another_size_fails_where_a_pane_leaves_it() {
    let layout = MmmLayout::from_size(v(40, 8)).unwrap();
    let mut buffer = TerminalBuffer::new(&v(10, 2));
    let result = DrawOps::new(false, true, false).draw(&mut buffer, &in_user(), &layout);
    assert!(matches!(result, Err(MmmError::TerminalBuffer)));
    assert_eq!(buffer.terminal_size, v(10, 2));
}

#[test]
fn pane_redraw_keeps_the_frame_shown() {
    let layout = MmmLayout::from_size(v(40, 8)).unwrap();
    let state = in_user();
    let mut buffer = TerminalBuffer::new(&v(40, 8));
    DrawOps::new(true, true, true).draw(&mut buffer, &state, &layout).unwrap();
    buffer.flush();
    let shown = buffer.buffer.clone();
    DrawOps::new(false, true, false).draw(&mut buffer, &state, &layout).unwrap();
    assert_eq!(buffer.buffer, shown);
    assert_eq!(buffer.scratch_buffer, shown);
}
