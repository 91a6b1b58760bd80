use vstd::prelude::*;
use crate::directory_tree::{
    EntryView, FileTreeNode, cursor_position, lemma_position_of_found, entries_view, get_file_cursor_index, selected_view,
};
use crate::input::InputReader;
use crate::modes::{Mode, ModeView, SimpleMode};
use crate::string_map::StringMap;
use crate::text::{copy_strings, strings_view};

verus! {

/// A value with a flag that records whether it was handed out for change since the flag
/// was last reset.
pub struct TrackedModifiable<T> {
    val: T,
    is_modified: bool,
}

impl<T> TrackedModifiable<T> {
    pub closed spec fn value(&self) -> T {
        self.val
    }

    pub closed spec fn modified(&self) -> bool {
        self.is_modified
    }

    pub fn new(val: T) -> (r: Self)
        ensures
            r.value() == val,
            !r.modified(),
    {
        TrackedModifiable { val, is_modified: false }
    }

    pub fn is_modified(&self) -> (r: bool)
        ensures
            r == self.modified(),
    {
        self.is_modified
    }

    pub fn reset_modified_flag(&mut self)
        ensures
            final(self).value() == old(self).value(),
            !final(self).modified(),
    {
        self.is_modified = false;
    }

    /// The value, for change: the flag is set.
    pub fn get_mut(&mut self) -> (r: &mut T)
        ensures
            *r == old(self).value(),
            final(self).value() == *final(r),
            final(self).modified(),
    {
        self.is_modified = true;
        &mut self.val
    }

    /// The value, to read: the flag is left as it is.
    pub fn get(&self) -> (r: &T)
        ensures
            *r == self.value(),
    {
        &self.val
    }
}

pub enum MarkType {
    Delete,
}

/// A message shown in a dialog until the next key press.
pub struct ErrorPopup {
    pub title: String,
    pub desc: String,
}

impl ErrorPopup {
    pub fn new(title: String, desc: String) -> (r: Self)
        ensures
            r.title == title,
            r.desc == desc,
    {
        ErrorPopup { title, desc }
    }
}

/// The settings read at start-up.
pub struct AppSettings {
    pub render_timeout: Option<u64>,
    pub global_key_bindings: StringMap,
    pub normal_mode_key_bindings: StringMap,
    pub text_input_mode_key_bindings: StringMap,
    pub min_distance_from_cursor_to_bottom: usize,
    pub default_file_editor_command: Option<Vec<String>>,
}

/// The whole state of a browsing session.
pub struct AppState {
    pub mode: Mode,
    pub current_dir: FileTreeNode,
    pub input_reader: InputReader,
    pub error_popup: Option<ErrorPopup>,
    pub error_message_line: Option<String>,
    pub selected_file: Option<FileTreeNode>,
    pub entered_text: String,
    pub marked_files: Vec<FileTreeNode>,
    pub mark_type: MarkType,
}

/// The mathematical value of a session.
pub struct AppStateView {
    pub mode: ModeView,
    pub current_dir: EntryView,
    pub modifier: Seq<char>,
    pub verbs: Seq<Seq<char>>,
    pub error_popup: Option<(Seq<char>, Seq<char>)>,
    pub error_message_line: Option<Seq<char>>,
    pub selected_file: Option<EntryView>,
    pub entered_text: Seq<char>,
    pub marked_files: Seq<EntryView>,
}

impl View for AppState {
    type V = AppStateView;

    open spec fn view(&self) -> AppStateView {
        AppStateView {
            mode: self.mode@,
            current_dir: self.current_dir@,
            modifier: self.input_reader.modifier_key_sequence@,
            verbs: strings_view(self.input_reader.verb_key_sequence@),
            error_popup: match self.error_popup {
                Some(p) => Some((p.title@, p.desc@)),
                None => None,
            },
            error_message_line: match self.error_message_line {
                Some(m) => Some(m@),
                None => None,
            },
            selected_file: selected_view(self.selected_file),
            entered_text: self.entered_text@,
            marked_files: entries_view(self.marked_files@),
        }
    }
}

/// Leaving for the normal mode: messages, typed text and the mode are reset.
pub open spec fn reset_view(s: AppStateView) -> AppStateView {
    AppStateView {
        error_message_line: None,
        error_popup: None,
        entered_text: Seq::empty(),
        mode: ModeView::Simple(SimpleMode::Normal),
        ..s
    }
}

/// The concatenation of the tokens.
pub open spec fn concat_tokens(tokens: Seq<Seq<char>>) -> Seq<char>
    decreases tokens.len(),
{
    if tokens.len() == 0 {
        Seq::empty()
    } else {
        concat_tokens(tokens.drop_last()) + tokens.last()
    }
}

/// The index from which a cursor move starts: the selected entry's, else the first.
pub open spec fn current_index(selected: Option<EntryView>, items: Seq<EntryView>) -> int {
    match cursor_position(selected, items) {
        Some(i) => i,
        None => 0,
    }
}

pub proof fn lemma_current_index_bound(selected: Option<EntryView>, items: Seq<EntryView>)
    requires
        items.len() > 0,
    ensures
        0 <= current_index(selected, items) < items.len(),
{
    if let Some(e) = selected {
        lemma_position_of_found(items, e.path);
    }
}

impl AppState {
    pub fn new(current_dir: FileTreeNode) -> (r: Self)
        ensures
            r@.mode == ModeView::Simple(SimpleMode::Normal),
            r@.current_dir == current_dir@,
            r@.modifier.len() == 0,
            r@.verbs.len() == 0,
            r@.error_popup is None,
            r@.error_message_line is None,
            r@.selected_file is None,
            r@.entered_text.len() == 0,
            r@.marked_files.len() == 0,
    {
        let r = AppState {
            mode: Mode::SimpleMode(SimpleMode::Normal),
            current_dir,
            input_reader: InputReader::new(),
            error_popup: None,
            error_message_line: None,
            selected_file: None,
            entered_text: String::new(),
            mark_type: MarkType::Delete,
            marked_files: Vec::new(),
        };
        assert(strings_view(r.input_reader.verb_key_sequence@).len() == 0);
        assert(entries_view(r.marked_files@).len() == 0);
        r
    }

    /// Clears messages and typed text and returns to the normal mode.
    pub fn reset_state(&mut self)
        ensures
            final(self)@ == reset_view(old(self)@),
    {
        self.error_message_line = None;
        self.error_popup = None;
        self.entered_text = String::new();
        self.mode = Mode::SimpleMode(SimpleMode::Normal);
        assert(final(self)@.entered_text =~= Seq::<char>::empty());
    }

    /// Appends the typed verb tokens to the text being entered.
    pub fn copy_input_manager_verbs_to_entered_text(&mut self)
        ensures
            final(self)@ == (AppStateView {
                entered_text: old(self)@.entered_text + concat_tokens(old(self)@.verbs),
                ..old(self)@
            }),
    {
        let ghost tokens = strings_view(self.input_reader.verb_key_sequence@);
        let verbs = &self.input_reader.verb_key_sequence;
        let mut text = String::new();
        let mut i: usize = 0;
        while i < verbs.len()
            invariant
                i <= verbs@.len(),
                tokens == strings_view(verbs@),
                text@ == concat_tokens(tokens.subrange(0, i as int)),
            decreases verbs@.len() - i,
        {
            let ghost sub = tokens.subrange(0, i + 1);
            assert(sub.drop_last() =~= tokens.subrange(0, i as int));
            text.append(verbs[i].as_str());
            assert(text@ =~= concat_tokens(sub));
            i += 1;
        }
        assert(tokens.subrange(0, tokens.len() as int) =~= tokens);
        self.entered_text.append(text.as_str());
    }

    /// Moves the cursor: the index of the selected entry, or 0 where it is not listed, goes
    /// through `get_new_index` with the length of the listing, and the entry at the result,
    /// taken modulo that length, becomes the selection. An empty listing leaves no selection.
    pub fn set_file_cursor_highlight_index<F: FnOnce(usize, usize) -> usize>(
        &mut self,
        dir_items: &Vec<FileTreeNode>,
        get_new_index: F,
    )
        requires
            forall|i: usize, n: usize| i < n ==> get_new_index.requires((i, n)),
        ensures
            dir_items@.len() == 0 ==> final(self)@ == (AppStateView {
                selected_file: None,
                ..old(self)@
            }),
            dir_items@.len() > 0 ==> exists|r: usize|
                #[trigger] get_new_index.ensures(
                    (current_index(old(self)@.selected_file, entries_view(dir_items@)) as usize, dir_items.len()),
                    r,
                ) && final(self)@ == (AppStateView {
                    selected_file: Some(entries_view(dir_items@)[(r % dir_items.len()) as int]),
                    ..old(self)@
                }),
    {
        let items_num = dir_items.len();
        let ghost items = entries_view(dir_items@);
        if items_num == 0 {
            self.selected_file = None;
            return;
        }
        let cur = match get_file_cursor_index(&self.selected_file, dir_items) {
            Some(i) => i,
            None => 0,
        };
        proof {
            if let Some(e) = selected_view(self.selected_file) {
                lemma_position_of_found(items, e.path);
            }
        }
        let raw = get_new_index(cur, items_num);
        let index = raw % items_num;
        self.selected_file = Some(dir_items[index].copy());
        assert(items[index as int] == dir_items@[index as int]@);
    }

    pub fn error_popup(&mut self, title: String, body: String)
        ensures
            final(self)@ == (AppStateView { error_popup: Some((title@, body@)), ..old(self)@ }),
    {
        self.error_popup = Some(ErrorPopup::new(title, body));
    }
}

} // verus!
