use mmm::filesystem::dir_entry::{classify, NodeType};
use mmm::filesystem::dirlist::{build_parent_pane, find_path, rank_entries, sort_by_name};
use mmm::filesystem::path::{parent_path_from, MmmPath};
use mmm::filesystem::{MmmDirEntry, MmmFilesys};
use mmm::types::MmmError;
use std::rc::Rc;

fn path(parts: &[&str]) -> MmmPath {
    MmmPath { components: parts.iter().map(|p| p.to_string()).collect() }
}

fn file_in(parent: &[&str], name: &str) -> Rc<MmmDirEntry> {
    Rc::new(MmmDirEntry::File { name: name.to_string(), path: path(parent).join(name), executable: false })
}

fn dir_in(parent: &[&str], name: &str) -> Rc<MmmDirEntry> {
    Rc::new(MmmDirEntry::Directory { name: name.to_string(), path: path(parent).join(name) })
}

fn user_listing() -> Vec<Rc<MmmDirEntry>> {
    let at = ["home", "user"];
    vec![
        file_in(&at, "b.txt"),
        file_in(&at, ".hidden"),
        dir_in(&at, "src"),
        dir_in(&at, "Docs"),
        file_in(&at, "a.txt"),
    ]
}

fn home_listing() -> Vec<Rc<MmmDirEntry>> {
    let at = ["home"];
    vec![dir_in(&at, "user"), dir_in(&at, "other"), dir_in(&at, ".secret")]
}

fn root_listing() -> Vec<Rc<MmmDirEntry>> {
    vec![dir_in(&[], "usr"), dir_in(&[], "home"), dir_in(&[], "etc")]
}

fn names(list: &[Rc<MmmDirEntry>]) -> Vec<String> {
    list.iter().map(|e| e.get_name().to_string()).collect()
}

fn pane_names(state: &MmmFilesys) -> Vec<String> {
    state.filtered_current_dir_list.iter().map(|e| e.entry.get_name().to_string()).collect()
}

fn in_user() -> MmmFilesys {
    MmmFilesys::from_path(path(&["home", "user"]), user_listing(), Some(home_listing())).unwrap()
}

#[test]
fn paths_know_their_parent_and_name() {
    let p = path(&["home", "user"]);
    assert_eq!(p.parent().unwrap().components, vec!["home".to_string()]);
    assert_eq!(p.file_name(), Some("user"));
    assert_eq!(parent_path_from(&p).unwrap().components, vec!["home".to_string()]);
    let root = MmmPath::root();
    assert!(root.components.is_empty());
    assert!(root.parent().is_none());
    assert!(parent_path_from(&root).is_none());
    assert_eq!(root.file_name(), None);
    assert!(path(&["home"]).parent().unwrap().same_as(&root));
}

#[test]
fn paths_join_compare_and_print() {
    let p = path(&["home"]).join("user");
    assert!(p.same_as(&path(&["home", "user"])));
    assert!(!p.same_as(&path(&["home", "User"])));
    assert!(!p.same_as(&path(&["home"])));
    assert!(!p.same_as(&path(&["home", "user", "x"])));
    assert!(p.duplicate().same_as(&p));
    assert_eq!(p.to_string(), "/home/user");
    assert_eq!(MmmPath::root().to_string(), "/");
    assert_eq!(path(&["a"]).to_string(), "/a");
    assert_eq!(MmmPath::new(vec!["x".to_string(), "y".to_string()]).to_string(), "/x/y");
}

#[test]
fn entries_give_their_name_and_path() {
    let entries = [
        MmmDirEntry::File { name: "f".to_string(), path: path(&["d", "f"]), executable: true },
        MmmDirEntry::Directory { name: "f".to_string(), path: path(&["d", "f"]) },
        MmmDirEntry::Link { name: "f".to_string(), path: path(&["d", "f"]), linked_path: None },
        MmmDirEntry::Other { name: "f".to_string(), path: path(&["d", "f"]) },
    ];
    for entry in entries {
        assert_eq!(entry.get_name(), "f");
        assert!(entry.get_path().same_as(&path(&["d", "f"])));
    }
}

#[test]
fn nodes_are_classified_in_the_order_file_directory_link() {
    let file = NodeType { is_file: true, is_dir: false, is_symlink: false };
    let dir = NodeType { is_file: false, is_dir: true, is_symlink: false };
    let link = NodeType { is_file: false, is_dir: false, is_symlink: true };
    let other = NodeType { is_file: false, is_dir: false, is_symlink: false };
    let at = || path(&["d", "n"]);
    assert!(matches!(
        classify("n".to_string(), at(), file, Some(0o755), None),
        MmmDirEntry::File { name, executable: true, .. } if name == "n"
    ));
    assert!(matches!(
        classify("n".to_string(), at(), file, Some(0o644), None),
        MmmDirEntry::File { executable: false, .. }
    ));
    assert!(matches!(
        classify("n".to_string(), at(), file, Some(0o001), None),
        MmmDirEntry::File { executable: true, .. }
    ));
    assert!(matches!(classify("n".to_string(), at(), file, None, None), MmmDirEntry::File { executable: false, .. }));
    assert!(matches!(classify("n".to_string(), at(), dir, Some(0o755), None), MmmDirEntry::Directory { .. }));
    assert!(matches!(
        classify("n".to_string(), at(), link, None, Some(path(&["t"]))),
        MmmDirEntry::Link { linked_path: Some(target), .. } if target.same_as(&path(&["t"]))
    ));
    assert!(matches!(classify("n".to_string(), at(), link, None, None), MmmDirEntry::Link { linked_path: None, .. }));
    assert!(matches!(classify("n".to_string(), at(), other, None, None), MmmDirEntry::Other { .. }));
    let all = NodeType { is_file: true, is_dir: true, is_symlink: true };
    assert!(matches!(classify("n".to_string(), at(), all, None, None), MmmDirEntry::File { .. }));
}

#[test]
fn listing_is_sorted_by_name() {
    let sorted = sort_by_name(&user_listing());
    assert_eq!(names(&sorted), [".hidden", "Docs", "a.txt", "b.txt", "src"]);
    assert!(sort_by_name(&vec![]).is_empty());
}

#[test]
fn sorting_is_by_character_and_keeps_equal_names_in_order() {
    let at = ["d"];
    let first = file_in(&at, "same");
    let second = dir_in(&at, "same");
    let list = vec![
        file_in(&at, "é"),
        first.clone(),
        file_in(&at, "z"),
        file_in(&at, "sam"),
        second.clone(),
        file_in(&at, "Z"),
        file_in(&at, ""),
    ];
    let sorted = sort_by_name(&list);
    assert_eq!(names(&sorted), ["", "Z", "sam", "same", "same", "z", "é"]);
    assert!(Rc::ptr_eq(&sorted[3], &first));
    assert!(Rc::ptr_eq(&sorted[4], &second));
}

#[test]
fn parent_pane_keeps_the_current_directory_though_hidden() {
    let at = ["home"];
    let listing = sort_by_name(&vec![dir_in(&at, "user"), dir_in(&at, ".config"), dir_in(&at, ".cache")]);
    let pane = build_parent_pane(&listing, false, &path(&["home", ".config"]));
    assert_eq!(names(&pane), [".config", "user"]);
    assert_eq!(find_path(&pane, &path(&["home", ".config"])), Some(0));
    assert_eq!(find_path(&pane, &path(&["home", "user"])), Some(1));
    assert_eq!(find_path(&pane, &path(&["home", ".cache"])), None);
    let all = build_parent_pane(&listing, true, &path(&["home", ".config"]));
    assert_eq!(names(&all), [".cache", ".config", "user"]);
    let none = build_parent_pane(&listing, true, &MmmPath::root());
    assert!(none.is_empty());
}

#[test]
fn entering_a_directory_builds_both_panes() {
    let state = in_user();
    assert!(state.get_current_path().same_as(&path(&["home", "user"])));
    assert_eq!(state.get_filter(), "");
    assert!(state.filter_is_empty());
    assert!(!state.show_hidden_files);
    assert_eq!(pane_names(&state), ["Docs", "a.txt", "b.txt", "src"]);
    for item in &state.filtered_current_dir_list {
        assert_eq!(item.score, 0);
        assert!(item.filter_match.iter().all(|m| *m == mmm::filesystem::filter::FilterMatchEnum::NoMatch));
        assert_eq!(item.filter_match.len(), item.entry.get_name().chars().count());
    }
    assert_eq!(names(state.filtered_parent_dir_list.as_ref().unwrap()), ["other", "user"]);
    assert_eq!(state.parent_current_entry, 1);
    assert_eq!(state.get_selected_entry().unwrap().get_name(), "Docs");
}

#[test]
fn parent_pane_marks_the_current_directory() {
    let state = in_user();
    let pane = state.filtered_parent_dir_list.as_ref().unwrap();
    assert!(pane[state.parent_current_entry].get_path().same_as(state.get_current_path()));
    let hidden = MmmFilesys::from_path(
        path(&["home", ".secret"]),
        vec![],
        Some(home_listing()),
    )
    .unwrap();
    let pane = hidden.filtered_parent_dir_list.as_ref().unwrap();
    assert_eq!(names(pane), [".secret", "other", "user"]);
    assert_eq!(hidden.parent_current_entry, 0);
    assert!(pane[hidden.parent_current_entry].get_path().same_as(hidden.get_current_path()));
}

#[test]
fn root_has_no_parent_pane() {
    let state = MmmFilesys::from_path(MmmPath::root(), root_listing(), None).unwrap();
    assert!(state.filtered_parent_dir_list.is_none());
    assert_eq!(state.parent_current_entry, 0);
    assert_eq!(pane_names(&state), ["etc", "home", "usr"]);
}

#[test]
fn directory_missing_from_its_parent_is_an_error() {
    let result = MmmFilesys::from_path(path(&["home", "ghost"]), vec![], Some(home_listing()));
    assert!(matches!(result, Err(MmmError::General(text)) if text == "cannot find parent dir"));
    let at_root = MmmFilesys::from_path(MmmPath::root(), vec![], Some(root_listing()));
    assert!(matches!(at_root, Err(MmmError::General(text)) if text == "cannot find parent dir"));
    let mut state = in_user();
    let result = state.change_directory(path(&["home", "ghost"]), vec![], Some(home_listing()));
    assert!(matches!(result, Err(MmmError::General(text)) if text == "cannot find parent dir"));
    assert!(state.get_current_path().same_as(&path(&["home", "user"])));
    assert_eq!(pane_names(&state), ["Docs", "a.txt", "b.txt", "src"]);
}

#[test]
fn typing_filters_and_ranks_the_current_pane() {
    let mut state = in_user();
    state.filter_add_char('s');
    assert_eq!(state.get_filter(), "s");
    assert!(!state.filter_is_empty());
    assert_eq!(pane_names(&state), ["src", "Docs"]);
    assert_eq!(state.filtered_current_dir_list[0].score, 1_000_000 + 500 - 3);
    assert_eq!(state.filtered_current_dir_list[1].score, 1_000_000 + 485 - 4);
    state.filter_add_char('r');
    assert_eq!(pane_names(&state), ["src"]);
    state.filter_add_char('x');
    assert!(pane_names(&state).is_empty());
    assert!(state.get_selected_entry().is_none());
    state.clear_filter();
    assert_eq!(state.get_filter(), "");
    assert_eq!(pane_names(&state), ["Docs", "a.txt", "b.txt", "src"]);
}

#[test]
fn equal_scores_keep_the_order_of_the_names() {
    let mut state = in_user();
    state.filter_add_char('t');
    assert_eq!(pane_names(&state), ["a.txt", "b.txt"]);
    assert_eq!(state.filtered_current_dir_list[0].score, state.filtered_current_dir_list[1].score);
    assert_eq!(state.filtered_current_dir_list[0].score, 490 - 5);
}

#[test]
fn directories_rank_before_files() {
    let at = ["d"];
    let ranked = rank_entries(&sort_by_name(&vec![file_in(&at, "a"), dir_in(&at, "zzzzzzzzzza")]), false, "a");
    let order: Vec<&str> = ranked.iter().map(|e| e.entry.get_name()).collect();
    assert_eq!(order, ["zzzzzzzzzza", "a"]);
}

#[test]
fn selection_moves_within_the_pane() {
    let mut state = in_user();
    state.decrement_current_selected();
    assert_eq!(state.selected_entry, 0);
    state.increment_current_selected();
    assert_eq!(state.selected_entry, 1);
    assert_eq!(state.get_selected_entry().unwrap().get_name(), "a.txt");
    state.increment_current_selected();
    state.increment_current_selected();
    assert_eq!(state.selected_entry, 3);
    state.increment_current_selected();
    assert_eq!(state.selected_entry, 3);
    state.decrement_current_selected();
    assert_eq!(state.selected_entry, 2);
    let mut empty = MmmFilesys::from_path(MmmPath::root(), vec![], None).unwrap();
    empty.increment_current_selected();
    assert_eq!(empty.selected_entry, 0);
    assert!(empty.get_selected_entry().is_none());
}

#[test]
fn space_enters_the_selected_directory() {
    let mut state = in_user();
    state.filter_add_char('d');
    let target = state.nav_into_target().unwrap();
    assert!(target.same_as(&path(&["home", "user", "Docs"])));
    let docs = vec![file_in(&["home", "user", "Docs"], "cv.pdf")];
    state.try_nav_into(docs, Some(user_listing())).unwrap();
    assert!(state.get_current_path().same_as(&path(&["home", "user", "Docs"])));
    assert_eq!(state.get_filter(), "");
    assert_eq!(state.selected_entry, 0);
    assert_eq!(pane_names(&state), ["cv.pdf"]);
    assert_eq!(names(state.filtered_parent_dir_list.as_ref().unwrap()), ["Docs", "a.txt", "b.txt", "src"]);
    assert_eq!(state.parent_current_entry, 0);
}

#[test]
fn space_on_a_file_changes_nothing() {
    let mut state = in_user();
    state.increment_current_selected();
    assert!(state.nav_into_target().is_none());
    state.try_nav_into(vec![], None).unwrap();
    assert!(state.get_current_path().same_as(&path(&["home", "user"])));
    assert_eq!(state.selected_entry, 1);
    assert_eq!(pane_names(&state), ["Docs", "a.txt", "b.txt", "src"]);
}

#[test]
fn backspace_leaves_for_the_parent() {
    let mut state = in_user();
    assert!(state.nav_back_target().unwrap().same_as(&path(&["home"])));
    state.try_nav_back(home_listing(), Some(root_listing())).unwrap();
    assert!(state.get_current_path().same_as(&path(&["home"])));
    assert_eq!(pane_names(&state), ["other", "user"]);
    assert_eq!(names(state.filtered_parent_dir_list.as_ref().unwrap()), ["etc", "home", "usr"]);
    assert_eq!(state.parent_current_entry, 1);
    state.try_nav_back(root_listing(), None).unwrap();
    assert!(state.get_current_path().same_as(&MmmPath::root()));
    assert!(state.filtered_parent_dir_list.is_none());
    assert!(state.nav_back_target().is_none());
    state.try_nav_back(vec![], None).unwrap();
    assert!(state.get_current_path().same_as(&MmmPath::root()));
    assert_eq!(pane_names(&state), ["etc", "home", "usr"]);
}

#[test]
fn hidden_files_are_toggled() {
    let mut state = in_user();
    state.filter_add_char('a');
    state.toggle_show_hidden_files(user_listing(), Some(home_listing())).unwrap();
    assert!(state.show_hidden_files);
    assert_eq!(state.get_filter(), "");
    assert_eq!(pane_names(&state), [".hidden", "Docs", "a.txt", "b.txt", "src"]);
    assert_eq!(names(state.filtered_parent_dir_list.as_ref().unwrap()), [".secret", "other", "user"]);
    assert_eq!(state.parent_current_entry, 2);
    state.toggle_show_hidden_files(user_listing(), Some(home_listing())).unwrap();
    assert!(!state.show_hidden_files);
    assert_eq!(pane_names(&state), ["Docs", "a.txt", "b.txt", "src"]);
    assert_eq!(state.parent_current_entry, 1);
}

#[test]
fn failed_toggle_changes_nothing() {
    let mut state = in_user();
    let result = state.toggle_show_hidden_files(user_listing(), Some(vec![]));
    assert!(matches!(result, Err(MmmError::General(text)) if text == "cannot find parent dir"));
    assert!(!state.show_hidden_files);
    assert_eq!(state.parent_current_entry, 1);
}

#[test]
fn populating_lists_anew_under_the_filter() {
    let mut state = in_user();
    state.filter = "b".to_string();
    state.populate_filtered_list();
    assert_eq!(pane_names(&state), ["b.txt"]);
    state.show_hidden_files = true;
    state.filter = "h".to_string();
    state.populate_filtered_list();
    assert_eq!(pane_names(&state), [".hidden"]);
}

#[test]
fn selection_is_held_to_the_filtered_list() {
    let mut state = in_user();
    state.increment_current_selected();
    state.increment_current_selected();
    state.increment_current_selected();
    assert_eq!(state.selected_entry, 3);
    state.filter_add_char('t');
    assert_eq!(pane_names(&state), ["a.txt", "b.txt"]);
    assert_eq!(state.selected_entry, 1);
    assert_eq!(state.get_selected_entry().unwrap().get_name(), "b.txt");
    state.filter_add_char('x');
    state.filter_add_char('x');
    assert!(pane_names(&state).is_empty());
    assert_eq!(state.selected_entry, 0);
    state.clear_filter();
    assert_eq!(state.selected_entry, 0);
    assert_eq!(state.get_selected_entry().unwrap().get_name(), "Docs");
}
