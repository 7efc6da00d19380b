use mmm::filesystem::path::MmmPath;
use mmm::filesystem::{MmmDirEntry, MmmFilesys};
use mmm::terminal::draw::DrawOps;
use mmm::terminal::events::{
    decode_crossterm_event, decode_key_event, directory_to_read, get_state_update_type, next_action,
    process_state_update, DirReading, LoopAction, MmmEventType, MmmKeyCode, MmmKeyEvent, MmmStateUpdateType,
    MmmTerminalEvent,
};
use mmm::terminal::layout::MmmLayout;
use mmm::types::{MmmError, Vec2d};
use std::rc::Rc;

fn path(parts: &[&str]) -> MmmPath {
    MmmPath { components: parts.iter().map(|p| p.to_string()).collect() }
}

fn dir_in(parent: &[&str], name: &str) -> Rc<MmmDirEntry> {
    Rc::new(MmmDirEntry::Directory { name: name.to_string(), path: path(parent).join(name) })
}

fn file_in(parent: &[&str], name: &str) -> Rc<MmmDirEntry> {
    Rc::new(MmmDirEntry::File { name: name.to_string(), path: path(parent).join(name), executable: false })
}

fn user_listing() -> Vec<Rc<MmmDirEntry>> {
    vec![dir_in(&["home", "user"], "Src"), file_in(&["home", "user"], "a.txt"), file_in(&["home", "user"], ".rc")]
}

fn home_listing() -> Vec<Rc<MmmDirEntry>> {
    vec![dir_in(&["home"], "user")]
}

fn root_listing() -> Vec<Rc<MmmDirEntry>> {
    vec![dir_in(&[], "home")]
}

fn in_user() -> MmmFilesys {
    MmmFilesys::from_path(path(&["home", "user"]), user_listing(), Some(home_listing())).unwrap()
}

fn layout() -> MmmLayout {
    MmmLayout::from_size(Vec2d { col: 80, row: 24 }).unwrap()
}

fn key(code: MmmKeyCode) -> MmmKeyEvent {
    MmmKeyEvent { code, control: false }
}

fn pane_names(state: &MmmFilesys) -> Vec<String> {
    state.filtered_current_dir_list.iter().map(|e| e.entry.get_name().to_string()).collect()
}

const EVERYTHING: DrawOps = DrawOps { background: true, current_dir: true, search_box: true };
const PANE_AND_SEARCH: DrawOps = DrawOps { background: false, current_dir: true, search_box: true };
const PANE_ONLY: DrawOps = DrawOps { background: false, current_dir: true, search_box: false };

#[test]
fn keys_are_decoded() {
    assert_eq!(decode_key_event(key(MmmKeyCode::Char('a'))), Some(MmmEventType::Key('a')));
    assert_eq!(decode_key_event(key(MmmKeyCode::Char(' '))), Some(MmmEventType::Space));
    assert_eq!(decode_key_event(key(MmmKeyCode::Char('h'))), Some(MmmEventType::Key('h')));
    assert_eq!(
        decode_key_event(MmmKeyEvent { code: MmmKeyCode::Char('h'), control: true }),
        Some(MmmEventType::ToggleHidden)
    );
    assert_eq!(
        decode_key_event(MmmKeyEvent { code: MmmKeyCode::Char('x'), control: true }),
        Some(MmmEventType::Key('x'))
    );
    assert_eq!(
        decode_key_event(MmmKeyEvent { code: MmmKeyCode::Char(' '), control: true }),
        Some(MmmEventType::Space)
    );
    assert_eq!(decode_key_event(key(MmmKeyCode::Enter)), Some(MmmEventType::Enter));
    assert_eq!(decode_key_event(key(MmmKeyCode::BackTab)), Some(MmmEventType::PrevEntry));
    assert_eq!(decode_key_event(key(MmmKeyCode::Tab)), Some(MmmEventType::NextEntry));
    assert_eq!(decode_key_event(key(MmmKeyCode::Backspace)), Some(MmmEventType::Backspace));
    assert_eq!(decode_key_event(key(MmmKeyCode::Esc)), Some(MmmEventType::Escape));
    assert_eq!(decode_key_event(key(MmmKeyCode::Other)), None);
}

#[test]
fn terminal_events_are_decoded() {
    assert_eq!(decode_crossterm_event(None), None);
    assert_eq!(decode_crossterm_event(Some(MmmTerminalEvent::Other)), None);
    assert_eq!(
        decode_crossterm_event(Some(MmmTerminalEvent::Resize(80, 24))),
        Some(MmmEventType::Resize(80, 24))
    );
    assert_eq!(
        decode_crossterm_event(Some(MmmTerminalEvent::Key(key(MmmKeyCode::Tab)))),
        Some(MmmEventType::NextEntry)
    );
    assert_eq!(decode_crossterm_event(Some(MmmTerminalEvent::Key(key(MmmKeyCode::Other)))), None);
}

#[test]
fn events_ask_for_their_updates() {
    let state = in_user();
    assert_eq!(get_state_update_type(MmmEventType::Enter, &state), None);
    assert_eq!(get_state_update_type(MmmEventType::Key('q'), &state), Some(MmmStateUpdateType::AddChar('q')));
    assert_eq!(get_state_update_type(MmmEventType::Escape, &state), Some(MmmStateUpdateType::Exit));
    assert_eq!(get_state_update_type(MmmEventType::NextEntry, &state), Some(MmmStateUpdateType::NextEntry));
    assert_eq!(get_state_update_type(MmmEventType::PrevEntry, &state), Some(MmmStateUpdateType::PrevEntry));
    assert_eq!(get_state_update_type(MmmEventType::Resize(1, 2), &state), Some(MmmStateUpdateType::Resize(1, 2)));
    assert_eq!(get_state_update_type(MmmEventType::Space, &state), Some(MmmStateUpdateType::NavInto));
    assert_eq!(get_state_update_type(MmmEventType::ToggleHidden, &state), Some(MmmStateUpdateType::ToggleHidden));
}

#[test]
fn backspace_clears_the_filter_before_it_leaves() {
    let mut state = in_user();
    assert_eq!(get_state_update_type(MmmEventType::Backspace, &state), Some(MmmStateUpdateType::NavBack));
    state.filter_add_char('a');
    assert_eq!(get_state_update_type(MmmEventType::Backspace, &state), Some(MmmStateUpdateType::ClearSearch));
}

#[test]
fn updates_name_the_directory_they_need_read() {
    let mut state = in_user();
    assert!(directory_to_read(MmmStateUpdateType::NavInto, &state).unwrap().same_as(&path(&["home", "user", "Src"])));
    assert!(directory_to_read(MmmStateUpdateType::NavBack, &state).unwrap().same_as(&path(&["home"])));
    assert!(directory_to_read(MmmStateUpdateType::ToggleHidden, &state).unwrap().same_as(&path(&["home", "user"])));
    assert!(directory_to_read(MmmStateUpdateType::AddChar('a'), &state).is_none());
    assert!(directory_to_read(MmmStateUpdateType::ClearSearch, &state).is_none());
    assert!(directory_to_read(MmmStateUpdateType::NextEntry, &state).is_none());
    assert!(directory_to_read(MmmStateUpdateType::PrevEntry, &state).is_none());
    assert!(directory_to_read(MmmStateUpdateType::Resize(80, 24), &state).is_none());
    assert!(directory_to_read(MmmStateUpdateType::Exit, &state).is_none());
    state.increment_current_selected();
    assert!(directory_to_read(MmmStateUpdateType::NavInto, &state).is_none());
    let root = MmmFilesys::from_path(MmmPath::root(), root_listing(), None).unwrap();
    assert!(directory_to_read(MmmStateUpdateType::NavBack, &root).is_none());
}

#[test]
fn typing_redraws_pane_and_search_bar() {
    let mut state = in_user();
    let mut l = layout();
    let ops = process_state_update(MmmStateUpdateType::AddChar('a'), &mut l, &mut state, None).unwrap();
    assert_eq!(ops, PANE_AND_SEARCH);
    assert_eq!(state.get_filter(), "a");
    assert_eq!(pane_names(&state), ["a.txt"]);
    let ops = process_state_update(MmmStateUpdateType::ClearSearch, &mut l, &mut state, None).unwrap();
    assert_eq!(ops, PANE_AND_SEARCH);
    assert_eq!(state.get_filter(), "");
    assert_eq!(pane_names(&state), ["Src", "a.txt"]);
    assert_eq!(l, layout());
}

#[test]
fn selection_redraws_the_pane_only() {
    let mut state = in_user();
    let mut l = layout();
    let ops = process_state_update(MmmStateUpdateType::NextEntry, &mut l, &mut state, None).unwrap();
    assert_eq!(ops, PANE_ONLY);
    assert_eq!(state.selected_entry, 1);
    let ops = process_state_update(MmmStateUpdateType::PrevEntry, &mut l, &mut state, None).unwrap();
    assert_eq!(ops, PANE_ONLY);
    assert_eq!(state.selected_entry, 0);
}

#[test]
fn resize_lays_the_screen_out_anew() {
    let mut state = in_user();
    let mut l = layout();
    let ops = process_state_update(MmmStateUpdateType::Resize(100, 30), &mut l, &mut state, None).unwrap();
    assert_eq!(ops, EVERYTHING);
    assert_eq!(l, MmmLayout::from_size(Vec2d { col: 100, row: 30 }).unwrap());
    let result = process_state_update(MmmStateUpdateType::Resize(5, 30), &mut l, &mut state, None);
    assert!(matches!(result, Err(MmmError::General(text)) if text == "display too small"));
    assert_eq!(l, MmmLayout::from_size(Vec2d { col: 100, row: 30 }).unwrap());
}

#[test]
fn navigation_redraws_everything() {
    let mut state = in_user();
    let mut l = layout();
    state.filter_add_char('s');
    let reading = DirReading { listing: vec![file_in(&["home", "user", "Src"], "main.rs")], parent_listing: Some(user_listing()) };
    let ops = process_state_update(MmmStateUpdateType::NavInto, &mut l, &mut state, Some(reading)).unwrap();
    assert_eq!(ops, EVERYTHING);
    assert!(state.get_current_path().same_as(&path(&["home", "user", "Src"])));
    assert_eq!(state.get_filter(), "");
    assert_eq!(pane_names(&state), ["main.rs"]);
    let back = DirReading { listing: user_listing(), parent_listing: Some(home_listing()) };
    let ops = process_state_update(MmmStateUpdateType::NavBack, &mut l, &mut state, Some(back)).unwrap();
    assert_eq!(ops, EVERYTHING);
    assert!(state.get_current_path().same_as(&path(&["home", "user"])));
    assert_eq!(state.parent_current_entry, 0);
}

#[test]
fn backspace_at_the_root_changes_nothing() {
    let mut state = MmmFilesys::from_path(MmmPath::root(), root_listing(), None).unwrap();
    let mut l = layout();
    let ops = process_state_update(MmmStateUpdateType::NavBack, &mut l, &mut state, None).unwrap();
    assert_eq!(ops, EVERYTHING);
    assert!(state.get_current_path().same_as(&MmmPath::root()));
    assert_eq!(pane_names(&state), ["home"]);
}

#[test]
fn toggle_rebuilds_with_hidden_files() {
    let mut state = in_user();
    let mut l = layout();
    let reading = DirReading { listing: user_listing(), parent_listing: Some(home_listing()) };
    let ops = process_state_update(MmmStateUpdateType::ToggleHidden, &mut l, &mut state, Some(reading)).unwrap();
    assert_eq!(ops, EVERYTHING);
    assert!(state.show_hidden_files);
    assert_eq!(pane_names(&state), [".rc", "Src", "a.txt"]);
}

#[test]
fn move_without_a_reading_is_an_error() {
    let mut state = in_user();
    let mut l = layout();
    for update in [MmmStateUpdateType::NavInto, MmmStateUpdateType::NavBack, MmmStateUpdateType::ToggleHidden] {
        let result = process_state_update(update, &mut l, &mut state, None);
        assert!(matches!(result, Err(MmmError::General(text)) if text == "directory was not read"));
        assert!(state.get_current_path().same_as(&path(&["home", "user"])));
        assert!(!state.show_hidden_files);
    }
}

#[test]
fn failed_read_of_the_parent_leaves_the_state() {
    let mut state = in_user();
    let mut l = layout();
    let reading = DirReading { listing: vec![], parent_listing: Some(vec![]) };
    let result = process_state_update(MmmStateUpdateType::NavInto, &mut l, &mut state, Some(reading));
    assert!(matches!(result, Err(MmmError::General(text)) if text == "cannot find parent dir"));
    assert!(state.get_current_path().same_as(&path(&["home", "user"])));
    assert_eq!(pane_names(&state), ["Src", "a.txt"]);
}

#[test]
fn exit_is_no_update() {
    let mut state = in_user();
    let mut l = layout();
    let result = process_state_update(MmmStateUpdateType::Exit, &mut l, &mut state, None);
    assert!(matches!(result, Err(MmmError::General(text)) if text == "unexpected exit state"));
}

#[test]
fn loop_waits_exits_or_applies() {
    let mut state = in_user();
    assert!(matches!(next_action(None, &state), LoopAction::Wait));
    assert!(matches!(next_action(Some(MmmTerminalEvent::Other), &state), LoopAction::Wait));
    assert!(matches!(next_action(Some(MmmTerminalEvent::Key(key(MmmKeyCode::Enter))), &state), LoopAction::Wait));
    assert!(matches!(next_action(Some(MmmTerminalEvent::Key(key(MmmKeyCode::Esc))), &state), LoopAction::Exit));
    assert!(matches!(
        next_action(Some(MmmTerminalEvent::Key(key(MmmKeyCode::Char('x')))), &state),
        LoopAction::Apply { update: MmmStateUpdateType::AddChar('x'), read: None }
    ));
    assert!(matches!(
        next_action(Some(MmmTerminalEvent::Resize(90, 30)), &state),
        LoopAction::Apply { update: MmmStateUpdateType::Resize(90, 30), read: None }
    ));
    assert!(matches!(
        next_action(Some(MmmTerminalEvent::Key(key(MmmKeyCode::Char(' ')))), &state),
        LoopAction::Apply { update: MmmStateUpdateType::NavInto, read: Some(target) }
            if target.same_as(&path(&["home", "user", "Src"]))
    ));
    assert!(matches!(
        next_action(Some(MmmTerminalEvent::Key(key(MmmKeyCode::Backspace))), &state),
        LoopAction::Apply { update: MmmStateUpdateType::NavBack, read: Some(target) }
            if target.same_as(&path(&["home"]))
    ));
    state.filter_add_char('q');
    assert!(matches!(
        next_action(Some(MmmTerminalEvent::Key(key(MmmKeyCode::Backspace))), &state),
        LoopAction::Apply { update: MmmStateUpdateType::ClearSearch, read: None }
    ));
    assert!(matches!(next_action(Some(MmmTerminalEvent::Key(key(MmmKeyCode::Esc))), &state), LoopAction::Exit));
}
