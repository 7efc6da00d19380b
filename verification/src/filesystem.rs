//! Directory entries, the listing of the current directory and its parent,
//! and the state that navigation moves through.

pub mod dir_entry;
pub mod dirlist;
pub mod filter;
pub mod path;

use vstd::prelude::*;
use std::rc::Rc;
use crate::filesystem::dirlist::{
    build_parent_pane, find_path, first_at_path, has_path, parent_pane, rank_entries, ranked, sort_by_name,
    sorted_by_name,
};
use crate::filesystem::filter::FilterMatchEnum;
use crate::filesystem::path::MmmPath;
use crate::types::{MmmError, MmmResult};

verus! {

/// One node of the file system, as it was when its directory was read.
#[derive(Clone, Debug, PartialEq)]
pub enum MmmDirEntry {
    File { name: String, path: MmmPath, executable: bool },
    Directory { name: String, path: MmmPath },
    Link { name: String, path: MmmPath, linked_path: Option<MmmPath> },
    Other { name: String, path: MmmPath },
}

impl MmmDirEntry {
    /// The entry's name, as characters.
    pub open spec fn name(&self) -> Seq<char> {
        match self {
            MmmDirEntry::File { name, .. } => name@,
            MmmDirEntry::Directory { name, .. } => name@,
            MmmDirEntry::Link { name, .. } => name@,
            MmmDirEntry::Other { name, .. } => name@,
        }
    }

    /// The entry's path, as components.
    pub open spec fn path(&self) -> Seq<Seq<char>> {
        match self {
            MmmDirEntry::File { path, .. } => path@,
            MmmDirEntry::Directory { path, .. } => path@,
            MmmDirEntry::Link { path, .. } => path@,
            MmmDirEntry::Other { path, .. } => path@,
        }
    }

    /// The name is the last component of the path.
    pub open spec fn well_formed(&self) -> bool {
        self.path().len() > 0 && self.path().last() == self.name()
    }

    /// The name starts with a dot.
    pub open spec fn is_hidden(&self) -> bool {
        self.name().len() > 0 && self.name()[0] == '.'
    }

    /// Where the entry lies.
    pub fn get_path(&self) -> (path: &MmmPath)
        ensures
            path@ == self.path(),
    {
        match self {
            MmmDirEntry::File { path, .. } => path,
            MmmDirEntry::Directory { path, .. } => path,
            MmmDirEntry::Link { path, .. } => path,
            MmmDirEntry::Other { path, .. } => path,
        }
    }

    /// What the entry is called in its directory.
    pub fn get_name(&self) -> (name: &str)
        ensures
            name@ == self.name(),
    {
        match self {
            MmmDirEntry::File { name, .. } => name.as_str(),
            MmmDirEntry::Directory { name, .. } => name.as_str(),
            MmmDirEntry::Link { name, .. } => name.as_str(),
            MmmDirEntry::Other { name, .. } => name.as_str(),
        }
    }
}

/// `Rc::clone`: one more handle on the same entry.
#[verifier::external_body]
pub(crate) fn share(entry: &Rc<MmmDirEntry>) -> (shared: Rc<MmmDirEntry>)
    ensures
        shared == *entry,
{
    entry.clone()
}

/// An entry that passed the filter, with the characters of its name that the
/// filter matched and the score that ranks it.
#[derive(Debug)]
pub struct MmmScoredDirEntry {
    pub entry: Rc<MmmDirEntry>,
    pub filter_match: Vec<FilterMatchEnum>,
    pub score: i32,
}

/// A scored entry as contracts see it.
pub struct ScoredView {
    pub entry: Rc<MmmDirEntry>,
    pub mask: Seq<FilterMatchEnum>,
    pub score: int,
}

impl View for MmmScoredDirEntry {
    type V = ScoredView;

    open spec fn view(&self) -> ScoredView {
        ScoredView { entry: self.entry, mask: self.filter_match@, score: self.score as int }
    }
}

/// The scored entries of a list, as contracts see them.
pub open spec fn scored_views(list: Seq<MmmScoredDirEntry>) -> Seq<ScoredView> {
    Seq::new(list.len(), |i: int| list[i]@)
}

/// Where the user is: the current directory and what the filter leaves of
/// it, the parent directory with the current one marked, and the selection.
#[derive(Debug)]
pub struct MmmFilesys {
    pub filter: String,
    pub current_path: MmmPath,
    pub current_dir_list: Vec<Rc<MmmDirEntry>>,
    pub filtered_current_dir_list: Vec<MmmScoredDirEntry>,
    pub selected_entry: usize,
    pub filtered_parent_dir_list: Option<Vec<Rc<MmmDirEntry>>>,
    pub parent_current_entry: usize,
    pub show_hidden_files: bool,
}

/// A listing that may be absent, as contracts see it.
pub open spec fn listing_view(listing: Option<Vec<Rc<MmmDirEntry>>>) -> Option<Seq<Rc<MmmDirEntry>>> {
    match listing {
        Some(entries) => Some(entries@),
        None => None,
    }
}

/// Whether a rebuild at `path` fails: the parent directory was read, and what
/// the parent pane shows of it holds no entry at `path`.
pub open spec fn rebuild_fails(
    path: Seq<Seq<char>>,
    show_hidden: bool,
    parent_listing: Option<Seq<Rc<MmmDirEntry>>>,
) -> bool {
    parent_listing matches Some(entries) && !has_path(parent_pane(sorted_by_name(entries), show_hidden, path), path)
}

/// The selection held to a pane of `len` entries: on the last entry if it
/// was behind it, on the first place if the pane is empty.
pub open spec fn held_selection(selection: int, len: int) -> int {
    if selection < len {
        selection
    } else if len > 0 {
        len - 1
    } else {
        0
    }
}

/// The text of the error that a failed rebuild returns.
pub open spec fn parent_not_found() -> Seq<char> {
    "cannot find parent dir"@
}

/// After a rebuild the parent pane marks the current directory: the marked
/// entry lies at the current path, and no entry before it does.
pub proof fn lemma_rebuild_marks_current(
    state: MmmFilesys,
    path: Seq<Seq<char>>,
    show_hidden: bool,
    listing: Seq<Rc<MmmDirEntry>>,
    parent_listing: Option<Seq<Rc<MmmDirEntry>>>,
)
    requires
        state.is_rebuilt(path, show_hidden, listing, parent_listing),
    ensures
        state.filtered_parent_dir_list matches Some(pane) ==> {
            &&& state.parent_current_entry < pane.len()
            &&& pane[state.parent_current_entry as int].path() == state.path()
            &&& first_at_path(pane@, state.path(), state.parent_current_entry as int)
        },
{
}

/// A rebuild finds the current directory whenever the parent's listing
/// holds it: an entry at `path` whose name is the path's last component is
/// shown in the parent pane, hidden or not, so the rebuild does not fail.
pub proof fn lemma_rebuild_finds_current(
    path: Seq<Seq<char>>,
    show_hidden: bool,
    parent_entries: Seq<Rc<MmmDirEntry>>,
    k: int,
)
    requires
        0 <= k < parent_entries.len(),
        parent_entries[k].path() == path,
        parent_entries[k].well_formed(),
    ensures
        !rebuild_fails(path, show_hidden, Some(parent_entries)),
{
    let sorted = sorted_by_name(parent_entries);
    let at = crate::filesystem::dirlist::lemma_sorted_keeps_entry(parent_entries, k);
    let shown = crate::filesystem::dirlist::lemma_pane_keeps_entry(sorted, show_hidden, path, at);
    let pane = parent_pane(sorted, show_hidden, path);
    assert(pane[shown].path() == path);
}

impl MmmFilesys {
    /// The filter text.
    pub open spec fn filter_text(&self) -> Seq<char> {
        self.filter@
    }

    /// The current directory.
    pub open spec fn path(&self) -> Seq<Seq<char>> {
        self.current_path@
    }

    /// The entries of the current directory, ordered by name.
    pub open spec fn listing(&self) -> Seq<Rc<MmmDirEntry>> {
        self.current_dir_list@
    }

    /// The index of the selected entry in the filtered list.
    pub open spec fn selection(&self) -> int {
        self.selected_entry as int
    }

    /// What the current pane lists, as contracts see it.
    pub open spec fn current_pane(&self) -> Seq<ScoredView> {
        scored_views(self.filtered_current_dir_list@)
    }

    /// The derived values agree with what they derive from: the current pane
    /// lists the current directory under the filter, the selection lies on
    /// an entry of the pane if it has one, and the parent pane marks the
    /// first entry that lies at the current path.
    pub open spec fn well_formed(&self) -> bool {
        &&& self.current_pane() == ranked(self.listing(), self.show_hidden_files, self.filter_text())
        &&& self.selection() == held_selection(self.selection(), self.current_pane().len() as int)
        &&& match self.filtered_parent_dir_list {
            Some(pane) => first_at_path(pane@, self.path(), self.parent_current_entry as int),
            None => self.parent_current_entry == 0,
        }
    }

    /// The state is the one that a rebuild at `path` gives from the two
    /// listings: both ordered by name, the filter and the selection reset,
    /// and the parent pane marking the entry at `path`.
    pub open spec fn is_rebuilt(
        &self,
        path: Seq<Seq<char>>,
        show_hidden: bool,
        listing: Seq<Rc<MmmDirEntry>>,
        parent_listing: Option<Seq<Rc<MmmDirEntry>>>,
    ) -> bool {
        &&& self.path() == path
        &&& self.filter_text() == Seq::<char>::empty()
        &&& self.selection() == 0
        &&& self.show_hidden_files == show_hidden
        &&& self.listing() == sorted_by_name(listing)
        &&& self.current_pane() == ranked(sorted_by_name(listing), show_hidden, Seq::empty())
        &&& match parent_listing {
            Some(entries) => {
                &&& self.filtered_parent_dir_list matches Some(pane)
                &&& pane@ == parent_pane(sorted_by_name(entries), show_hidden, path)
                &&& first_at_path(pane@, path, self.parent_current_entry as int)
            },
            None => self.filtered_parent_dir_list is None && self.parent_current_entry == 0,
        }
    }

    /// The directory, its parent pane and the hidden-files flag are those of
    /// `before`.
    pub open spec fn same_directory(&self, before: MmmFilesys) -> bool {
        &&& self.path() == before.path()
        &&& self.listing() == before.listing()
        &&& self.filtered_parent_dir_list == before.filtered_parent_dir_list
        &&& self.parent_current_entry == before.parent_current_entry
        &&& self.show_hidden_files == before.show_hidden_files
    }

    /// Builds the state for the directory at `current_path` from its entries
    /// and, where it has a parent, from the parent's.
    fn rebuild(
        current_path: MmmPath,
        show_hidden_files: bool,
        listing: Vec<Rc<MmmDirEntry>>,
        parent_listing: Option<Vec<Rc<MmmDirEntry>>>,
    ) -> (state: MmmResult<MmmFilesys>)
        ensures
            state is Err <==> rebuild_fails(current_path@, show_hidden_files, listing_view(parent_listing)),
            state matches Ok(s) ==> s.is_rebuilt(
                current_path@,
                show_hidden_files,
                listing@,
                listing_view(parent_listing),
            ) && s.well_formed(),
            state matches Err(e) ==> e matches MmmError::General(text) && text@ == parent_not_found(),
    {
        let current_dir_list = sort_by_name(&listing);
        let filtered_current_dir_list = rank_entries(&current_dir_list, show_hidden_files, "");
        proof {
            reveal_strlit("");
            assert(""@ =~= Seq::<char>::empty());
        }
        let mut parent_current_entry: usize = 0;
        let filtered_parent_dir_list = match parent_listing {
            None => None,
            Some(entries) => {
                let sorted = sort_by_name(&entries);
                let pane = build_parent_pane(&sorted, show_hidden_files, &current_path);
                match find_path(&pane, &current_path) {
                    None => {
                        return Err(MmmError::General("cannot find parent dir".to_owned()));
                    },
                    Some(index) => {
                        parent_current_entry = index;
                    },
                }
                Some(pane)
            },
        };
        Ok(
            MmmFilesys {
                filter: String::new(),
                current_path,
                current_dir_list,
                filtered_current_dir_list,
                selected_entry: 0,
                filtered_parent_dir_list,
                parent_current_entry,
                show_hidden_files,
            },
        )
    }

    /// The state on entering the directory at `current_path`, hidden files
    /// not shown. `listing` holds the directory's entries and
    /// `parent_listing` those of its parent, in any order; the root has no
    /// parent listing.
    pub fn from_path(
        current_path: MmmPath,
        listing: Vec<Rc<MmmDirEntry>>,
        parent_listing: Option<Vec<Rc<MmmDirEntry>>>,
    ) -> (state: MmmResult<MmmFilesys>)
        ensures
            state is Err <==> rebuild_fails(current_path@, false, listing_view(parent_listing)),
            state matches Ok(s) ==> s.is_rebuilt(current_path@, false, listing@, listing_view(parent_listing))
                && s.well_formed(),
            state matches Err(e) ==> e matches MmmError::General(text) && text@ == parent_not_found(),
    {
        MmmFilesys::rebuild(current_path, false, listing, parent_listing)
    }

    /// Moves to the directory at `path`, whose entries are `listing` and
    /// whose parent's entries are `parent_listing`. On an error nothing
    /// changes.
    pub fn change_directory(
        &mut self,
        path: MmmPath,
        listing: Vec<Rc<MmmDirEntry>>,
        parent_listing: Option<Vec<Rc<MmmDirEntry>>>,
    ) -> (done: MmmResult<()>)
        ensures
            done is Err <==> rebuild_fails(path@, old(self).show_hidden_files, listing_view(parent_listing)),
            done is Ok ==> final(self).is_rebuilt(
                path@,
                old(self).show_hidden_files,
                listing@,
                listing_view(parent_listing),
            ) && final(self).well_formed(),
            done is Err ==> *final(self) == *old(self),
            done matches Err(e) ==> e matches MmmError::General(text) && text@ == parent_not_found(),
    {
        match MmmFilesys::rebuild(path, self.show_hidden_files, listing, parent_listing) {
            Ok(state) => {
                *self = state;
                Ok(())
            },
            Err(e) => Err(e),
        }
    }

    /// The current directory.
    pub fn get_current_path(&self) -> (path: &MmmPath)
        ensures
            path@ == self.path(),
    {
        &self.current_path
    }

    /// Moves the selection one entry down the filtered list; it stays on the
    /// last entry.
    pub fn increment_current_selected(&mut self)
        ensures
            final(self).selection() == if old(self).selection() + 1 < old(self).current_pane().len() {
                old(self).selection() + 1
            } else {
                old(self).selection()
            },
            final(self).same_directory(*old(self)),
            final(self).filter_text() == old(self).filter_text(),
            final(self).filtered_current_dir_list == old(self).filtered_current_dir_list,
            old(self).well_formed() ==> final(self).well_formed(),
    {
        if self.selected_entry < self.filtered_current_dir_list.len() && self.selected_entry + 1
            < self.filtered_current_dir_list.len() {
            self.selected_entry = self.selected_entry + 1;
        }
    }

    /// Moves the selection one entry up the filtered list; it stays on the
    /// first entry.
    pub fn decrement_current_selected(&mut self)
        ensures
            final(self).selection() == if old(self).selection() > 0 {
                old(self).selection() - 1
            } else {
                0
            },
            final(self).same_directory(*old(self)),
            final(self).filter_text() == old(self).filter_text(),
            final(self).filtered_current_dir_list == old(self).filtered_current_dir_list,
            old(self).well_formed() ==> final(self).well_formed(),
    {
        if self.selected_entry > 0 {
            self.selected_entry = self.selected_entry - 1;
        }
    }

    /// Shows hidden files if they were left out, leaves them out if they
    /// were shown, and rebuilds the lists of the current directory from the
    /// two listings. On an error nothing changes.
    pub fn toggle_show_hidden_files(
        &mut self,
        listing: Vec<Rc<MmmDirEntry>>,
        parent_listing: Option<Vec<Rc<MmmDirEntry>>>,
    ) -> (done: MmmResult<()>)
        ensures
            done is Err <==> rebuild_fails(
                old(self).path(),
                !old(self).show_hidden_files,
                listing_view(parent_listing),
            ),
            done is Ok ==> final(self).is_rebuilt(
                old(self).path(),
                !old(self).show_hidden_files,
                listing@,
                listing_view(parent_listing),
            ) && final(self).well_formed(),
            done is Err ==> *final(self) == *old(self),
            done matches Err(e) ==> e matches MmmError::General(text) && text@ == parent_not_found(),
    {
        let path = self.current_path.duplicate();
        match MmmFilesys::rebuild(path, !self.show_hidden_files, listing, parent_listing) {
            Ok(state) => {
                *self = state;
                Ok(())
            },
            Err(e) => Err(e),
        }
    }

    /// Empties the filter, so that the current pane lists every entry that
    /// is not hidden.
    pub fn clear_filter(&mut self)
        ensures
            final(self).filter_text() == Seq::<char>::empty(),
            final(self).current_pane() == ranked(
                old(self).listing(),
                old(self).show_hidden_files,
                Seq::<char>::empty(),
            ),
            final(self).selection() == held_selection(
                old(self).selection(),
                final(self).current_pane().len() as int,
            ),
            final(self).same_directory(*old(self)),
            old(self).well_formed() ==> final(self).well_formed(),
    {
        self.filter = String::new();
        self.populate_filtered_list();
    }

    /// Appends `c` to the filter and lists the current directory under the
    /// longer filter.
    pub fn filter_add_char(&mut self, c: char)
        ensures
            final(self).filter_text() == old(self).filter_text().push(c),
            final(self).current_pane() == ranked(
                old(self).listing(),
                old(self).show_hidden_files,
                old(self).filter_text().push(c),
            ),
            final(self).selection() == held_selection(
                old(self).selection(),
                final(self).current_pane().len() as int,
            ),
            final(self).same_directory(*old(self)),
            old(self).well_formed() ==> final(self).well_formed(),
    {
        self.filter.push(c);
        self.populate_filtered_list();
    }

    /// The selected entry of the current pane, if the selection lies on one.
    pub fn get_selected_entry(&self) -> (entry: Option<Rc<MmmDirEntry>>)
        ensures
            entry == if 0 <= self.selection() < self.current_pane().len() {
                Some(self.current_pane()[self.selection()].entry)
            } else {
                None
            },
    {
        if self.selected_entry < self.filtered_current_dir_list.len() {
            Some(share(&self.filtered_current_dir_list[self.selected_entry].entry))
        } else {
            None
        }
    }

    /// Whether the filter is empty.
    pub fn filter_is_empty(&self) -> (empty: bool)
        ensures
            empty == (self.filter_text().len() == 0),
    {
        self.filter.as_str().is_empty()
    }

    /// The filter text.
    pub fn get_filter(&self) -> (filter: &str)
        ensures
            filter@ == self.filter_text(),
    {
        self.filter.as_str()
    }

    /// Lists the current directory anew under the filter as it stands, and
    /// holds the selection to the new list.
    pub fn populate_filtered_list(&mut self)
        ensures
            final(self).current_pane() == ranked(
                old(self).listing(),
                old(self).show_hidden_files,
                old(self).filter_text(),
            ),
            final(self).filter_text() == old(self).filter_text(),
            final(self).selection() == held_selection(
                old(self).selection(),
                final(self).current_pane().len() as int,
            ),
            final(self).same_directory(*old(self)),
            (match old(self).filtered_parent_dir_list {
                Some(pane) => first_at_path(pane@, old(self).path(), old(self).parent_current_entry as int),
                None => old(self).parent_current_entry == 0,
            }) ==> final(self).well_formed(),
    {
        self.filtered_current_dir_list =
        rank_entries(&self.current_dir_list, self.show_hidden_files, self.filter.as_str());
        let len = self.filtered_current_dir_list.len();
        assert(len == self.current_pane().len());
        if self.selected_entry >= len {
            self.selected_entry = if len > 0 {
                len - 1
            } else {
                0
            };
        }
    }

    /// The directory that the selection leads into: the path of the selected
    /// entry, if it is a directory.
    pub open spec fn into_target(&self) -> Option<Seq<Seq<char>>> {
        if 0 <= self.selection() < self.current_pane().len() && *self.current_pane()[self.selection()].entry
            is Directory {
            Some(self.current_pane()[self.selection()].entry.path())
        } else {
            None
        }
    }

    /// The directory above the current one; the root has none.
    pub open spec fn back_target(&self) -> Option<Seq<Seq<char>>> {
        if self.path().len() > 0 {
            Some(self.path().drop_last())
        } else {
            None
        }
    }

    /// The directory to read before `try_nav_into`: the one that the
    /// selection leads into, if it leads into one.
    pub fn nav_into_target(&self) -> (target: Option<MmmPath>)
        ensures
            target is Some <==> self.into_target() is Some,
            target matches Some(path) ==> Some(path@) == self.into_target(),
    {
        if self.selected_entry < self.filtered_current_dir_list.len() {
            match &*self.filtered_current_dir_list[self.selected_entry].entry {
                MmmDirEntry::Directory { path, .. } => Some(path.duplicate()),
                _ => None,
            }
        } else {
            None
        }
    }

    /// The directory to read before `try_nav_back`: the parent of the
    /// current one, if it has one.
    pub fn nav_back_target(&self) -> (target: Option<MmmPath>)
        ensures
            target is Some <==> self.back_target() is Some,
            target matches Some(path) ==> Some(path@) == self.back_target(),
    {
        self.current_path.parent()
    }

    /// Enters the selected entry if it is a directory; `listing` holds that
    /// directory's entries and `parent_listing` those of its parent. With
    /// the selection on no directory nothing changes, and so on an error.
    pub fn try_nav_into(
        &mut self,
        listing: Vec<Rc<MmmDirEntry>>,
        parent_listing: Option<Vec<Rc<MmmDirEntry>>>,
    ) -> (done: MmmResult<()>)
        ensures
            match old(self).into_target() {
                Some(path) => {
                    &&& done is Err <==> rebuild_fails(
                        path,
                        old(self).show_hidden_files,
                        listing_view(parent_listing),
                    )
                    &&& done is Ok ==> final(self).is_rebuilt(
                        path,
                        old(self).show_hidden_files,
                        listing@,
                        listing_view(parent_listing),
                    ) && final(self).well_formed()
                },
                None => done is Ok,
            },
            done is Err || old(self).into_target() is None ==> *final(self) == *old(self),
            done matches Err(e) ==> e matches MmmError::General(text) && text@ == parent_not_found(),
    {
        match self.nav_into_target() {
            Some(path) => self.change_directory(path, listing, parent_listing),
            None => Ok(()),
        }
    }

    /// Leaves the current directory for its parent; `listing` holds the
    /// parent's entries and `parent_listing` those of the directory above
    /// it. At the root nothing changes, and so on an error.
    pub fn try_nav_back(
        &mut self,
        listing: Vec<Rc<MmmDirEntry>>,
        parent_listing: Option<Vec<Rc<MmmDirEntry>>>,
    ) -> (done: MmmResult<()>)
        ensures
            match old(self).back_target() {
                Some(path) => {
                    &&& done is Err <==> rebuild_fails(
                        path,
                        old(self).show_hidden_files,
                        listing_view(parent_listing),
                    )
                    &&& done is Ok ==> final(self).is_rebuilt(
                        path,
                        old(self).show_hidden_files,
                        listing@,
                        listing_view(parent_listing),
                    ) && final(self).well_formed()
                },
                None => done is Ok,
            },
            done is Err || old(self).back_target() is None ==> *final(self) == *old(self),
            done matches Err(e) ==> e matches MmmError::General(text) && text@ == parent_not_found(),
    {
        match self.nav_back_target() {
            Some(path) => self.change_directory(path, listing, parent_listing),
            None => Ok(()),
        }
    }
}

} // verus!
