use vstd::prelude::*;
use crate::directory_tree::{EntryView, FileTreeNode, cursor_position, entries_view, get_file_cursor_index};
use crate::dispatch::{Effect, EffectView};
use crate::helper_types::{AppState, AppStateView, TrackedModifiable};
use crate::modes::{Mode, ModeView, SimpleMode, TextInput};
use crate::ranking::{is_ranked, rank_entries, ranking_pool};
use crate::viewport::{scroll_offset, scroll_offset_spec};

verus! {

/// The query that orders the listing in a mode: the typed text while searching, else none.
pub open spec fn mode_query(s: AppStateView) -> Seq<char> {
    match s.mode {
        ModeView::Text(TextInput::Search) => s.entered_text,
        _ => Seq::empty(),
    }
}

/// Orders a fresh listing for the current mode: by fuzzy score while searching, else in
/// the default order.
pub fn order_entries(state: &AppState, dir_items: &Vec<FileTreeNode>) -> (r: Vec<FileTreeNode>)
    ensures
        entries_view(r@).to_multiset() == ranking_pool(entries_view(dir_items@), mode_query(state@)).to_multiset(),
        is_ranked(entries_view(r@), mode_query(state@)),
{
    match state.mode {
        Mode::TextInputMode { text_input_type: TextInput::Search } => rank_entries(
            dir_items,
            state.entered_text.as_str(),
        ),
        _ => {
            let empty = String::new();
            rank_entries(dir_items, empty.as_str())
        },
    }
}

/// Finds the cursor row of the normal-mode list and the first row to show. Where the
/// selected entry is not listed, the first entry (or none) becomes the selection, and that
/// counts as a change.
pub fn normal_mode_view_window(
    app_state: &mut TrackedModifiable<AppState>,
    dir_items: &Vec<FileTreeNode>,
    min_distance_from_cursor_to_bottom: usize,
    height_of_list_available: usize,
) -> (r: (usize, usize))
    ensures
        ({
            let s0 = old(app_state).value()@;
            let items = entries_view(dir_items@);
            match cursor_position(s0.selected_file, items) {
                Some(i) => {
                    &&& r.0 == i
                    &&& *final(app_state) == *old(app_state)
                },
                None => {
                    &&& r.0 == 0
                    &&& final(app_state).modified()
                    &&& final(app_state).value()@ == AppStateView {
                        selected_file: if items.len() > 0 {
                            Some(items[0])
                        } else {
                            None
                        },
                        ..s0
                    }
                },
            }
        }),
        r.1 == scroll_offset_spec(
            dir_items@.len() as int,
            r.0 as int,
            height_of_list_available as int,
            min_distance_from_cursor_to_bottom as int,
        ),
{
    let ghost items = entries_view(dir_items@);
    let index = match get_file_cursor_index(&app_state.get().selected_file, dir_items) {
        Some(i) => {
            proof {
                crate::directory_tree::lemma_position_of_found(items, old(app_state).value()@.selected_file->Some_0.path);
            }
            i
        },
        None => {
            let state = app_state.get_mut();
            if dir_items.len() > 0 {
                state.selected_file = Some(dir_items[0].copy());
                assert(items[0] == dir_items@[0]@);
            } else {
                state.selected_file = None;
            }
            0
        },
    };
    let skip = scroll_offset(dir_items.len(), index, height_of_list_available, min_distance_from_cursor_to_bottom);
    (index, skip)
}

/// How long to wait for a key: not at all after a change, so that it is drawn at once, and
/// the flag is reset; else what is left of the tick.
pub fn poll_timeout(app_state: &mut TrackedModifiable<AppState>, remaining_ms: u64) -> (r: u64)
    ensures
        final(app_state).value() == old(app_state).value(),
        !final(app_state).modified(),
        r == if old(app_state).modified() {
            0
        } else {
            remaining_ms
        },
{
    if app_state.is_modified() {
        app_state.reset_modified_flag();
        0
    } else {
        remaining_ms
    }
}

/// Reports a directory that could not be read.
pub fn listing_failed(app_state: &mut TrackedModifiable<AppState>, permission_denied: bool)
    ensures
        final(app_state).modified(),
        final(app_state).value()@ == (AppStateView {
            error_popup: Some(
                if permission_denied {
                    (
                        "Permission denied"@,
                        "You do not have the permissions to access this folder or directory"@,
                    )
                } else {
                    ("Unknown error"@, "An error occurred while reading the files"@)
                },
            ),
            ..old(app_state).value()@
        }),
{
    let state = app_state.get_mut();
    if permission_denied {
        state.error_popup(
            String::from_str("Permission denied"),
            String::from_str("You do not have the permissions to access this folder or directory"),
        );
    } else {
        state.error_popup(
            String::from_str("Unknown error"),
            String::from_str("An error occurred while reading the files"),
        );
    }
}

/// The start of the message for an effect that failed.
pub open spec fn failure_prefix(e: EffectView) -> Seq<char> {
    match e {
        EffectView::OpenFile { .. } => "Error while running the editor: "@,
        EffectView::Rename { .. } => "Error while renaming: "@,
        _ => "Error while deleting: "@,
    }
}

/// Shows on the status line that an effect failed, with the host's description.
pub fn effect_failed(app_state: &mut TrackedModifiable<AppState>, effect: &Effect, message: &str)
    ensures
        final(app_state).modified(),
        final(app_state).value()@ == (AppStateView {
            error_message_line: Some(failure_prefix(effect@) + message@),
            ..old(app_state).value()@
        }),
{
    let prefix = match effect {
        Effect::OpenFile { .. } => String::from_str("Error while running the editor: "),
        Effect::Rename { .. } => String::from_str("Error while renaming: "),
        _ => String::from_str("Error while deleting: "),
    };
    let state = app_state.get_mut();
    state.error_message_line = Some(prefix.concat(message));
}

/// The line shown below the listing: the status message, else the prompt of a text mode.
pub fn bottom_text(state: &AppState) -> (r: Option<String>)
    ensures
        r matches Some(t) ==> (match state@.error_message_line {
            Some(m) => t@ == m,
            None => state@.mode is Text && t@ == seq!['/'] + state@.entered_text,
        }),
        r is None <==> (state@.error_message_line is None && !(state@.mode is Text)),
{
    match &state.error_message_line {
        Some(m) => Some(m.clone()),
        None => match &state.mode {
            Mode::TextInputMode { text_input_type } => Some(
                text_input_type.represent_text_line(state.entered_text.as_str()),
            ),
            _ => None,
        },
    }
}

/// The entry whose contents are previewed: the selection in the normal mode, the best hit
/// while searching, none in a dialog.
pub fn preview_target<'a>(state: &'a AppState, dir_items: &'a Vec<FileTreeNode>) -> (r: Option<
    &'a FileTreeNode,
>)
    ensures
        state@.mode == ModeView::Simple(SimpleMode::Normal) ==> (match r {
            Some(f) => state.selected_file == Some(*f),
            None => state.selected_file is None,
        }),
        state@.mode == ModeView::Text(TextInput::Search) ==> (match r {
            Some(f) => dir_items@.len() > 0 && *f == dir_items@[0],
            None => dir_items@.len() == 0,
        }),
        state@.mode is Overlay ==> r is None,
{
    match state.mode {
        Mode::SimpleMode(SimpleMode::Normal) => state.selected_file.as_ref(),
        Mode::TextInputMode { text_input_type: TextInput::Search } => {
            if dir_items.len() > 0 {
                Some(&dir_items[0])
            } else {
                None
            }
        },
        _ => None,
    }
}

} // verus!
