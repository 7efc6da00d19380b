//! From terminal events to changes of state.
//!
//! An event is decoded into what the user meant, that into the change of
//! state it asks for, and the change is applied. A change that moves to
//! another directory needs that directory read first: `directory_to_read`
//! names it, and the caller hands the listings to `process_state_update`.

use vstd::prelude::*;
use std::rc::Rc;
use crate::filesystem::path::MmmPath;
use crate::filesystem::{listing_view, rebuild_fails, MmmDirEntry, MmmFilesys};
use crate::terminal::draw::DrawOps;
use crate::terminal::layout::{is_layout_result, MmmLayout};
use crate::types::{MmmError, MmmResult, Vec2d};

verus! {

/// The keys that the browser tells apart.
#[derive(Clone, Copy, Debug, PartialEq, Eq, Structural)]
pub enum MmmKeyCode {
    Char(char),
    Enter,
    BackTab,
    Tab,
    Backspace,
    Esc,
    Other,
}

/// A key press: the key, and whether Control was held.
#[derive(Clone, Copy, Debug, PartialEq, Eq, Structural)]
pub struct MmmKeyEvent {
    pub code: MmmKeyCode,
    pub control: bool,
}

/// What the terminal reports.
#[derive(Clone, Copy, Debug, PartialEq, Eq, Structural)]
pub enum MmmTerminalEvent {
    Key(MmmKeyEvent),
    Resize(u16, u16),
    Other,
}

/// What the user meant.
#[derive(Clone, Copy, Debug, PartialEq, Eq, Structural)]
pub enum MmmEventType {
    Key(char),
    Space,
    Enter,
    NextEntry,
    PrevEntry,
    Backspace,
    Escape,
    Resize(u16, u16),
    ToggleHidden,
}

/// The change of state that an event asks for.
#[derive(Clone, Copy, Debug, PartialEq, Eq, Structural)]
pub enum MmmStateUpdateType {
    NavBack,
    NavInto,
    NextEntry,
    PrevEntry,
    AddChar(char),
    ClearSearch,
    Resize(u16, u16),
    ToggleHidden,
    Exit,
}

/// The entries of a directory and of its parent, as they were read for a
/// change of directory. The root has no parent listing.
#[derive(Debug)]
pub struct DirReading {
    pub listing: Vec<Rc<MmmDirEntry>>,
    pub parent_listing: Option<Vec<Rc<MmmDirEntry>>>,
}

/// What a key press means: space navigates, Control-h toggles hidden files,
/// any other character goes to the filter.
pub open spec fn key_meaning(key_event: MmmKeyEvent) -> Option<MmmEventType> {
    match key_event.code {
        MmmKeyCode::Char(c) => if c == ' ' {
            Some(MmmEventType::Space)
        } else if c == 'h' && key_event.control {
            Some(MmmEventType::ToggleHidden)
        } else {
            Some(MmmEventType::Key(c))
        },
        MmmKeyCode::Enter => Some(MmmEventType::Enter),
        MmmKeyCode::BackTab => Some(MmmEventType::PrevEntry),
        MmmKeyCode::Tab => Some(MmmEventType::NextEntry),
        MmmKeyCode::Backspace => Some(MmmEventType::Backspace),
        MmmKeyCode::Esc => Some(MmmEventType::Escape),
        MmmKeyCode::Other => None,
    }
}

/// What a terminal event means, if anything.
pub open spec fn event_meaning(event: Option<MmmTerminalEvent>) -> Option<MmmEventType> {
    match event {
        Some(MmmTerminalEvent::Key(key_event)) => key_meaning(key_event),
        Some(MmmTerminalEvent::Resize(col, row)) => Some(MmmEventType::Resize(col, row)),
        _ => None,
    }
}

/// The change of state that `event` asks for. Backspace clears a filter
/// that holds text and leaves the directory when the filter is empty; Enter
/// asks for nothing.
pub open spec fn update_for(event: MmmEventType, filter_empty: bool) -> Option<MmmStateUpdateType> {
    match event {
        MmmEventType::Enter => None,
        MmmEventType::Key(c) => Some(MmmStateUpdateType::AddChar(c)),
        MmmEventType::Escape => Some(MmmStateUpdateType::Exit),
        MmmEventType::NextEntry => Some(MmmStateUpdateType::NextEntry),
        MmmEventType::PrevEntry => Some(MmmStateUpdateType::PrevEntry),
        MmmEventType::Resize(col, row) => Some(MmmStateUpdateType::Resize(col, row)),
        MmmEventType::Space => Some(MmmStateUpdateType::NavInto),
        MmmEventType::ToggleHidden => Some(MmmStateUpdateType::ToggleHidden),
        MmmEventType::Backspace => if filter_empty {
            Some(MmmStateUpdateType::NavBack)
        } else {
            Some(MmmStateUpdateType::ClearSearch)
        },
    }
}

/// Decodes what the terminal reported; `None` for no event and for events
/// that mean nothing to the browser.
pub fn decode_crossterm_event(event: Option<MmmTerminalEvent>) -> (meaning: Option<MmmEventType>)
    ensures
        meaning == event_meaning(event),
{
    if let Some(event) = event {
        match event {
            MmmTerminalEvent::Key(c) => decode_key_event(c),
            MmmTerminalEvent::Resize(col, row) => Some(MmmEventType::Resize(col, row)),
            _ => None,
        }
    } else {
        None
    }
}

/// Decodes a key press.
pub fn decode_key_event(key_event: MmmKeyEvent) -> (meaning: Option<MmmEventType>)
    ensures
        meaning == key_meaning(key_event),
{
    match key_event.code {
        MmmKeyCode::Char(c) => {
            if c == ' ' {
                Some(MmmEventType::Space)
            } else if c == 'h' && key_event.control {
                Some(MmmEventType::ToggleHidden)
            } else {
                Some(MmmEventType::Key(c))
            }
        },
        MmmKeyCode::Enter => Some(MmmEventType::Enter),
        MmmKeyCode::BackTab => Some(MmmEventType::PrevEntry),
        MmmKeyCode::Tab => Some(MmmEventType::NextEntry),
        MmmKeyCode::Backspace => Some(MmmEventType::Backspace),
        MmmKeyCode::Esc => Some(MmmEventType::Escape),
        _ => None,
    }
}

/// The change of state that `event` asks for in the given state.
pub fn get_state_update_type(event: MmmEventType, filesys_state: &MmmFilesys) -> (update: Option<
    MmmStateUpdateType,
>)
    ensures
        update == update_for(event, filesys_state.filter_text().len() == 0),
{
    match event {
        MmmEventType::Enter => None,
        MmmEventType::Key(c) => Some(MmmStateUpdateType::AddChar(c)),
        MmmEventType::Escape => Some(MmmStateUpdateType::Exit),
        MmmEventType::NextEntry => Some(MmmStateUpdateType::NextEntry),
        MmmEventType::PrevEntry => Some(MmmStateUpdateType::PrevEntry),
        MmmEventType::Resize(col, row) => Some(MmmStateUpdateType::Resize(col, row)),
        MmmEventType::Space => Some(MmmStateUpdateType::NavInto),
        MmmEventType::ToggleHidden => Some(MmmStateUpdateType::ToggleHidden),
        MmmEventType::Backspace => {
            if filesys_state.filter_is_empty() {
                Some(MmmStateUpdateType::NavBack)
            } else {
                Some(MmmStateUpdateType::ClearSearch)
            }
        },
    }
}

/// The directory that a change of state moves to, and that has to be read
/// before the change is applied: the selected directory, the parent, or, for
/// the hidden-files toggle, the current directory again.
pub open spec fn target_of(state_update: MmmStateUpdateType, filesys: MmmFilesys) -> Option<Seq<Seq<char>>> {
    match state_update {
        MmmStateUpdateType::NavInto => filesys.into_target(),
        MmmStateUpdateType::NavBack => filesys.back_target(),
        MmmStateUpdateType::ToggleHidden => Some(filesys.path()),
        _ => None,
    }
}

/// Whether hidden files are shown after the change of state.
pub open spec fn shows_hidden_after(state_update: MmmStateUpdateType, filesys: MmmFilesys) -> bool {
    if state_update is ToggleHidden {
        !filesys.show_hidden_files
    } else {
        filesys.show_hidden_files
    }
}

/// What is drawn again after a change of state.
pub open spec fn redraw_for(state_update: MmmStateUpdateType) -> DrawOps {
    match state_update {
        MmmStateUpdateType::NextEntry | MmmStateUpdateType::PrevEntry => DrawOps::pane_only(),
        MmmStateUpdateType::AddChar(_) | MmmStateUpdateType::ClearSearch => DrawOps::pane_and_search(),
        _ => DrawOps::everything(),
    }
}

/// The directory to read before `state_update` is applied, if it moves to
/// one.
pub fn directory_to_read(state_update: MmmStateUpdateType, filesys: &MmmFilesys) -> (target: Option<MmmPath>)
    ensures
        target is Some <==> target_of(state_update, *filesys) is Some,
        target matches Some(path) ==> Some(path@) == target_of(state_update, *filesys),
{
    match state_update {
        MmmStateUpdateType::NavInto => filesys.nav_into_target(),
        MmmStateUpdateType::NavBack => filesys.nav_back_target(),
        MmmStateUpdateType::ToggleHidden => Some(filesys.get_current_path().duplicate()),
        _ => None,
    }
}

/// What one turn of the event loop does.
#[derive(Debug)]
pub enum LoopAction {
    /// Nothing: wait for the next event.
    Wait,
    /// Leave the loop.
    Exit,
    /// Read `read`, if it names a directory, then apply `update`.
    Apply { update: MmmStateUpdateType, read: Option<MmmPath> },
}

/// The change of state that a terminal event asks for in the given state.
pub open spec fn update_of(event: Option<MmmTerminalEvent>, filesys: MmmFilesys) -> Option<MmmStateUpdateType> {
    match event_meaning(event) {
        Some(meaning) => update_for(meaning, filesys.filter_text().len() == 0),
        None => None,
    }
}

/// Decides what the event loop does with what the terminal reported: no
/// event, or one that asks for nothing, is waited out; Escape leaves the
/// loop, all at once and from any state; anything else is a change of state
/// to apply, after the directory that it moves to is read.
pub fn next_action(event: Option<MmmTerminalEvent>, filesys: &MmmFilesys) -> (action: LoopAction)
    ensures
        match update_of(event, *filesys) {
            None => action is Wait,
            Some(MmmStateUpdateType::Exit) => action is Exit,
            Some(wanted) => {
                &&& action matches LoopAction::Apply { update, read }
                &&& update == wanted
                &&& read is Some <==> target_of(wanted, *filesys) is Some
                &&& read matches Some(path) ==> Some(path@) == target_of(wanted, *filesys)
            },
        },
{
    let update = match decode_crossterm_event(event) {
        Some(meaning) => get_state_update_type(meaning, filesys),
        None => None,
    };
    match update {
        None => LoopAction::Wait,
        Some(MmmStateUpdateType::Exit) => LoopAction::Exit,
        Some(update) => LoopAction::Apply { update, read: directory_to_read(update, filesys) },
    }
}

/// The listings of a reading that may be absent, as contracts see them.
pub open spec fn reading_view(reading: Option<DirReading>) -> Option<(
    Seq<Rc<MmmDirEntry>>,
    Option<Seq<Rc<MmmDirEntry>>>,
)> {
    match reading {
        Some(r) => Some((r.listing@, listing_view(r.parent_listing))),
        None => None,
    }
}

/// Why a change of state fails, if it does:
/// - `Exit` is not a change of state;
/// - a resize to a terminal that is too small;
/// - a move to a directory that was not read;
/// - a move to a directory that its parent's listing does not show.
pub open spec fn update_fails(
    state_update: MmmStateUpdateType,
    filesys: MmmFilesys,
    reading: Option<(Seq<Rc<MmmDirEntry>>, Option<Seq<Rc<MmmDirEntry>>>)>,
) -> bool {
    match state_update {
        MmmStateUpdateType::Exit => true,
        MmmStateUpdateType::Resize(col, row) => crate::terminal::layout::too_small(Vec2d { col, row }),
        _ => match target_of(state_update, filesys) {
            Some(path) => match reading {
                Some((_, parent_listing)) => rebuild_fails(
                    path,
                    shows_hidden_after(state_update, filesys),
                    parent_listing,
                ),
                None => true,
            },
            None => false,
        },
    }
}

/// What the error of a failed change of state says.
pub open spec fn update_error(
    state_update: MmmStateUpdateType,
    filesys: MmmFilesys,
    reading: Option<(Seq<Rc<MmmDirEntry>>, Option<Seq<Rc<MmmDirEntry>>>)>,
) -> Seq<char> {
    match state_update {
        MmmStateUpdateType::Exit => "unexpected exit state"@,
        MmmStateUpdateType::Resize(_, _) => "display too small"@,
        _ => if reading is None {
            "directory was not read"@
        } else {
            crate::filesystem::parent_not_found()
        },
    }
}

/// The state after a change of state that succeeded.
pub open spec fn is_updated(
    state_update: MmmStateUpdateType,
    before: MmmFilesys,
    reading: Option<(Seq<Rc<MmmDirEntry>>, Option<Seq<Rc<MmmDirEntry>>>)>,
    after: MmmFilesys,
) -> bool {
    match state_update {
        MmmStateUpdateType::NavInto | MmmStateUpdateType::NavBack | MmmStateUpdateType::ToggleHidden => match (
            target_of(state_update, before),
            reading,
        ) {
            (Some(path), Some((listing, parent_listing))) => after.is_rebuilt(
                path,
                shows_hidden_after(state_update, before),
                listing,
                parent_listing,
            ) && after.well_formed(),
            _ => after == before,
        },
        MmmStateUpdateType::NextEntry => {
            &&& after.selection() == if before.selection() + 1 < before.current_pane().len() {
                before.selection() + 1
            } else {
                before.selection()
            }
            &&& after.same_directory(before)
            &&& after.filter_text() == before.filter_text()
            &&& after.filtered_current_dir_list == before.filtered_current_dir_list
        },
        MmmStateUpdateType::PrevEntry => {
            &&& after.selection() == if before.selection() > 0 {
                before.selection() - 1
            } else {
                0
            }
            &&& after.same_directory(before)
            &&& after.filter_text() == before.filter_text()
            &&& after.filtered_current_dir_list == before.filtered_current_dir_list
        },
        MmmStateUpdateType::AddChar(c) => {
            &&& after.filter_text() == before.filter_text().push(c)
            &&& after.current_pane() == crate::filesystem::dirlist::ranked(
                before.listing(),
                before.show_hidden_files,
                before.filter_text().push(c),
            )
            &&& after.selection() == crate::filesystem::held_selection(
                before.selection(),
                after.current_pane().len() as int,
            )
            &&& after.same_directory(before)
        },
        MmmStateUpdateType::ClearSearch => {
            &&& after.filter_text() == Seq::<char>::empty()
            &&& after.current_pane() == crate::filesystem::dirlist::ranked(
                before.listing(),
                before.show_hidden_files,
                Seq::<char>::empty(),
            )
            &&& after.selection() == crate::filesystem::held_selection(
                before.selection(),
                after.current_pane().len() as int,
            )
            &&& after.same_directory(before)
        },
        _ => after == before,
    }
}

/// Backspace on an empty filter leaves the directory: the change it asks
/// for, where it succeeds, moves to the parent of the current path with the
/// filter and the selection reset, and at the root it changes nothing.
pub proof fn lemma_backspace_leaves_directory(
    before: MmmFilesys,
    reading: Option<(Seq<Rc<MmmDirEntry>>, Option<Seq<Rc<MmmDirEntry>>>)>,
    after: MmmFilesys,
)
    requires
        before.filter_text().len() == 0,
        !update_fails(MmmStateUpdateType::NavBack, before, reading),
        is_updated(MmmStateUpdateType::NavBack, before, reading, after),
    ensures
        update_for(MmmEventType::Backspace, before.filter_text().len() == 0) == Some(MmmStateUpdateType::NavBack),
        before.path().len() > 0 ==> {
            &&& after.path() == before.path().drop_last()
            &&& after.filter_text().len() == 0
            &&& after.selection() == 0
        },
        before.path().len() == 0 ==> after == before,
{
}

/// Space on a directory enters it: the change it asks for, where it
/// succeeds, makes the selected directory's path the current path and
/// resets the filter and the selection.
pub proof fn lemma_space_enters_directory(
    before: MmmFilesys,
    filter_empty: bool,
    reading: Option<(Seq<Rc<MmmDirEntry>>, Option<Seq<Rc<MmmDirEntry>>>)>,
    after: MmmFilesys,
)
    requires
        0 <= before.selection() < before.current_pane().len(),
        *before.current_pane()[before.selection()].entry is Directory,
        !update_fails(MmmStateUpdateType::NavInto, before, reading),
        is_updated(MmmStateUpdateType::NavInto, before, reading, after),
    ensures
        update_for(MmmEventType::Space, filter_empty) == Some(MmmStateUpdateType::NavInto),
        after.path() == before.current_pane()[before.selection()].entry.path(),
        after.filter_text().len() == 0,
        after.selection() == 0,
{
}

/// Applies a change of state and says what to draw again. `reading` holds
/// the listings of the directory that `directory_to_read` named, if it named
/// one. On an error neither the layout nor the state changes.
pub fn process_state_update(
    state_update: MmmStateUpdateType,
    layout: &mut MmmLayout,
    filesys: &mut MmmFilesys,
    reading: Option<DirReading>,
) -> (draw: MmmResult<DrawOps>)
    ensures
        draw is Err <==> update_fails(state_update, *old(filesys), reading_view(reading)),
        draw matches Ok(ops) ==> {
            &&& ops == redraw_for(state_update)
            &&& is_updated(state_update, *old(filesys), reading_view(reading), *final(filesys))
            &&& old(filesys).well_formed() ==> final(filesys).well_formed()
            &&& match state_update {
                MmmStateUpdateType::Resize(col, row) => is_layout_result(
                    Vec2d { col, row },
                    Ok(*final(layout)),
                ) && final(layout).fits(),
                _ => *final(layout) == *old(layout),
            }
        },
        draw is Err ==> *final(filesys) == *old(filesys) && *final(layout) == *old(layout),
        draw matches Err(e) ==> e matches MmmError::General(text) && text@ == update_error(
            state_update,
            *old(filesys),
            reading_view(reading),
        ),
{
    match state_update {
        MmmStateUpdateType::Exit => Err(MmmError::General("unexpected exit state".to_owned())),
        MmmStateUpdateType::Resize(col, row) => {
            match layout.process_resize_event(Vec2d { col, row }) {
                Ok(()) => Ok(DrawOps::new(true, true, true)),
                Err(e) => Err(e),
            }
        },
        MmmStateUpdateType::NavInto => {
            if filesys.nav_into_target().is_some() {
                match reading {
                    Some(r) => match filesys.try_nav_into(r.listing, r.parent_listing) {
                        Ok(()) => Ok(DrawOps::new(true, true, true)),
                        Err(e) => Err(e),
                    },
                    None => Err(MmmError::General("directory was not read".to_owned())),
                }
            } else {
                Ok(DrawOps::new(true, true, true))
            }
        },
        MmmStateUpdateType::NavBack => {
            if filesys.nav_back_target().is_some() {
                match reading {
                    Some(r) => match filesys.try_nav_back(r.listing, r.parent_listing) {
                        Ok(()) => Ok(DrawOps::new(true, true, true)),
                        Err(e) => Err(e),
                    },
                    None => Err(MmmError::General("directory was not read".to_owned())),
                }
            } else {
                Ok(DrawOps::new(true, true, true))
            }
        },
        MmmStateUpdateType::NextEntry => {
            filesys.increment_current_selected();
            Ok(DrawOps::new(false, true, false))
        },
        MmmStateUpdateType::PrevEntry => {
            filesys.decrement_current_selected();
            Ok(DrawOps::new(false, true, false))
        },
        MmmStateUpdateType::AddChar(c) => {
            filesys.filter_add_char(c);
            Ok(DrawOps::new(false, true, true))
        },
        MmmStateUpdateType::ClearSearch => {
            filesys.clear_filter();
            Ok(DrawOps::new(false, true, true))
        },
        MmmStateUpdateType::ToggleHidden => {
            match reading {
                Some(r) => match filesys.toggle_show_hidden_files(r.listing, r.parent_listing) {
                    Ok(()) => Ok(DrawOps::new(true, true, true)),
                    Err(e) => Err(e),
                },
                None => Err(MmmError::General("directory was not read".to_owned())),
            }
        },
    }
}

} // verus!
