use vstd::prelude::*;
use vstd::arithmetic::div_mod::{
    lemma_add_mod_noop_right, lemma_sub_mod_noop, lemma_mod_add_multiples_vanish, lemma_mod_sub_multiples_vanish,
    lemma_small_mod, lemma_sub_mod_noop_right,
};
use crate::actions::{Action, ActionMapper, ActionResult, ActionTable, table_action};
use crate::directory_tree::{
    EntryView, FileTreeNode, display_name, entries_view, lemma_position_of, selected_view,
};
use crate::helper_types::{
    AppSettings, AppState, AppStateView, TrackedModifiable, concat_tokens, current_index, lemma_current_index_bound, reset_view,
};
use crate::input::{
    InputReaderDigestResult, Key, all_decimal_digits, digested, digits_value, is_misplaced_modifier,
    joined_tokens, parsed_count,
};
use crate::modes::{Mode, ModeView, OverlayMode, OverlayView, SimpleMode, TextInput, is_text_mode_spec};
use crate::path::{FsPath, PathView, parent_spec};
use crate::string_map::StringMap;
use crate::text::{is_prefix_of, pop_char, starts_with, strings_view};

verus! {

/// Work that an action hands to the host: running the editor, or changing the file system.
pub enum Effect {
    OpenFile { program: String, args: Vec<String>, working_dir: FsPath },
    Rename { from: FsPath, dir: FsPath, new_name: String },
    Delete { target: FileTreeNode },
    CreateFile { dir: FsPath, name: String },
    CreateDirectory { dir: FsPath, name: String },
}

pub enum EffectView {
    OpenFile { program: Seq<char>, args: Seq<Seq<char>>, working_dir: PathView },
    Rename { from: PathView, dir: PathView, new_name: Seq<char> },
    Delete { target: EntryView },
    CreateFile { dir: PathView, name: Seq<char> },
    CreateDirectory { dir: PathView, name: Seq<char> },
}

impl View for Effect {
    type V = EffectView;

    open spec fn view(&self) -> EffectView {
        match self {
            Effect::OpenFile { program, args, working_dir } => EffectView::OpenFile {
                program: program@,
                args: strings_view(args@),
                working_dir: working_dir@,
            },
            Effect::Rename { from, dir, new_name } => EffectView::Rename {
                from: from@,
                dir: dir@,
                new_name: new_name@,
            },
            Effect::Delete { target } => EffectView::Delete { target: target@ },
            Effect::CreateFile { dir, name } => EffectView::CreateFile { dir: dir@, name: name@ },
            Effect::CreateDirectory { dir, name } => EffectView::CreateDirectory {
                dir: dir@,
                name: name@,
            },
        }
    }
}

pub open spec fn effect_view(e: Option<Effect>) -> Option<EffectView> {
    match e {
        Some(x) => Some(x@),
        None => None,
    }
}

pub open spec fn result_message(r: ActionResult) -> Option<Seq<char>> {
    match r {
        ActionResult::Valid => None,
        ActionResult::Invalid(m) => Some(m@),
    }
}

/// Moving `k` entries down, wrapping around at the end.
pub open spec fn down_index(i: int, k: int, n: int) -> int {
    (i + k) % n
}

/// Moving `k` entries up, wrapping around at the start.
pub open spec fn up_index(i: int, k: int, n: int) -> int {
    (i - k) % n
}

/// The entry a count names, counting from one and clamped to the listing; without a count,
/// the last entry.
pub open spec fn go_to_index(m: Option<usize>, n: int) -> int {
    match m {
        Some(m) => if m - 1 < 0 {
            0
        } else if m - 1 > n - 1 {
            n - 1
        } else {
            m - 1
        },
        None => n - 1,
    }
}

/// The selection after moving the cursor to `target(i, n)` from the current index `i`.
pub open spec fn moved_to(s: AppStateView, items: Seq<EntryView>, target: int) -> AppStateView {
    AppStateView {
        selected_file: if items.len() == 0 {
            None
        } else {
            Some(items[target])
        },
        ..s
    }
}

pub open spec fn count_or_one(m: Option<usize>) -> int {
    match m {
        Some(k) => k as int,
        None => 1,
    }
}

/// `s` with every occurrence of `pat` replaced by `w`, from left to right.
pub open spec fn replaced(s: Seq<char>, pat: Seq<char>, w: Seq<char>) -> Seq<char>
    decreases s.len(),
{
    if s.len() == 0 {
        s
    } else if pat.len() > 0 && is_prefix_of(pat, s) {
        w + replaced(s.subrange(pat.len() as int, s.len() as int), pat, w)
    } else {
        seq![s[0]] + replaced(s.drop_first(), pat, w)
    }
}

/// The editor's arguments for a file: the placeholder `<FILE>` stands for its name.
pub open spec fn editor_args(template: Seq<Seq<char>>, file_name: Seq<char>) -> Seq<Seq<char>> {
    template.map_values(|a: Seq<char>| replaced(a, "<FILE>"@, file_name))
}

/// Replaces each `<FILE>` in `arg` by `file_name`.
pub fn substitute_file_name(arg: &str, file_name: &str) -> (r: String)
    ensures
        r@ == replaced(arg@, "<FILE>"@, file_name@),
{
    proof {
        reveal_strlit("<FILE>");
    }
    let ghost pat = "<FILE>"@;
    let ghost w = file_name@;
    let n = arg.unicode_len();
    let mut out = String::new();
    let mut i: usize = 0;
    assert(arg@.subrange(0, n as int) =~= arg@);
    assert(out@ + replaced(arg@, pat, w) =~= replaced(arg@, pat, w));
    while i < n
        invariant
            n == arg@.len(),
            i <= n,
            pat == "<FILE>"@,
            pat.len() == 6,
            w == file_name@,
            replaced(arg@, pat, w) == out@ + replaced(arg@.subrange(i as int, n as int), pat, w),
        decreases n - i,
    {
        let rest = arg.substring_char(i, n);
        let ghost sr = arg@.subrange(i as int, n as int);
        let ghost before = out@;
        assert(rest@ == sr);
        if starts_with(rest, "<FILE>") {
            let ghost tail = arg@.subrange(i + 6, n as int);
            assert(sr.subrange(6, sr.len() as int) =~= tail);
            out.append(file_name);
            assert(before + (w + replaced(tail, pat, w)) =~= out@ + replaced(tail, pat, w));
            i += 6;
        } else {
            let c = arg.get_char(i);
            let ghost tail = arg@.subrange(i + 1, n as int);
            assert(sr.drop_first() =~= tail);
            assert(sr[0] == c);
            crate::text::push_char(&mut out, c);
            assert(before + (seq![c] + replaced(tail, pat, w)) =~= out@ + replaced(tail, pat, w));
            i += 1;
        }
    }
    assert(arg@.subrange(n as int, n as int) =~= Seq::<char>::empty());
    out
}


pub open spec fn editor_view(c: Option<Vec<String>>) -> Option<Seq<Seq<char>>> {
    match c {
        Some(v) => Some(strings_view(v@)),
        None => None,
    }
}

/// The directory one level up, or the same one at a root.
pub open spec fn parent_entry(e: EntryView) -> EntryView {
    let p = match parent_spec(e.path) {
        Some(q) => q,
        None => e.path,
    };
    EntryView { path: p, name: display_name(p, true), is_dir: true }
}

/// What committing a mode does: a search selects its first hit, a dialog asks for its
/// effect; either way the normal mode returns.
pub open spec fn select_outcome(s: AppStateView, items: Seq<EntryView>) -> (
    AppStateView,
    Option<Seq<char>>,
    Option<EffectView>,
) {
    match s.mode {
        ModeView::Text(TextInput::Search) => (
            reset_view(
                if items.len() > 0 {
                    AppStateView { selected_file: Some(items[0]), ..s }
                } else {
                    s
                },
            ),
            None,
            None,
        ),
        ModeView::Overlay { overlay, .. } => (
            reset_view(s),
            None,
            Some(
                match overlay {
                    OverlayView::Rename { old_file } => EffectView::Rename {
                        from: old_file.path,
                        dir: s.current_dir.path,
                        new_name: s.entered_text,
                    },
                    OverlayView::DeleteInstantlyConfirm { file } => EffectView::Delete { target: file },
                    OverlayView::CreateFile => EffectView::CreateFile {
                        dir: s.current_dir.path,
                        name: s.entered_text,
                    },
                    OverlayView::CreateDirectory => EffectView::CreateDirectory {
                        dir: s.current_dir.path,
                        name: s.entered_text,
                    },
                },
            ),
        ),
        ModeView::Simple(_) => (s, None, None),
    }
}

/// What opening the selected entry does: enter a directory, or hand a file to the editor.
pub open spec fn right_outcome(s: AppStateView, editor: Option<Seq<Seq<char>>>) -> (
    AppStateView,
    Option<Seq<char>>,
    Option<EffectView>,
) {
    match s.selected_file {
        None => (s, Some("No file selected"@), None),
        Some(f) => if f.is_dir {
            (AppStateView { current_dir: f, ..s }, None, None)
        } else {
            match editor {
                None => (
                    s,
                    Some(
                        "Can not open the file because the config file does not contain a command to open files"@,
                    ),
                    None,
                ),
                Some(cmd) => if cmd.len() == 0 {
                    (s, Some("Found empty arguments for the default file editor"@), None)
                } else {
                    (
                        s,
                        None,
                        Some(
                            EffectView::OpenFile {
                                program: cmd[0],
                                args: editor_args(cmd.drop_first(), f.name),
                                working_dir: s.current_dir.path,
                            },
                        ),
                    )
                },
            }
        },
    }
}

/// The state, the message of an `Invalid` result, and the effect that an action leaves.
pub open spec fn action_outcome(
    a: Action,
    s: AppStateView,
    modifier: Option<usize>,
    items: Seq<EntryView>,
    editor: Option<Seq<Seq<char>>>,
) -> (AppStateView, Option<Seq<char>>, Option<EffectView>) {
    let n = items.len() as int;
    let i = current_index(s.selected_file, items);
    match a {
        Action::Quit => (AppStateView { mode: ModeView::Simple(SimpleMode::Quitting), ..s }, None, None),
        Action::NormalMode => (reset_view(s), None, None),
        Action::SearchMode => (
            AppStateView { mode: ModeView::Text(TextInput::Search), ..reset_view(s) },
            None,
            None,
        ),
        Action::Noop => (s, None, None),
        Action::Down => (moved_to(s, items, down_index(i, count_or_one(modifier), n)), None, None),
        Action::Up => (moved_to(s, items, up_index(i, count_or_one(modifier), n)), None, None),
        Action::GoToOrGoToBottom => (moved_to(s, items, go_to_index(modifier, n)), None, None),
        Action::GoToTop => (moved_to(s, items, 0), None, None),
        Action::Left => (AppStateView { current_dir: parent_entry(s.current_dir), ..s }, None, None),
        Action::Right => right_outcome(s, editor),
        Action::Rename => match s.selected_file {
            Some(f) => (
                AppStateView {
                    mode: ModeView::Overlay {
                        background: SimpleMode::Normal,
                        overlay: OverlayView::Rename { old_file: f },
                    },
                    ..reset_view(s)
                },
                None,
                None,
            ),
            None => (reset_view(s), Some("No file selected"@), None),
        },
        Action::TypeText => (
            AppStateView {
                entered_text: s.entered_text + concat_tokens(s.verbs),
                modifier: Seq::empty(),
                verbs: Seq::empty(),
                ..s
            },
            None,
            None,
        ),
        Action::DeleteLastChar => (
            AppStateView {
                entered_text: if s.entered_text.len() > 0 {
                    s.entered_text.drop_last()
                } else {
                    s.entered_text
                },
                ..s
            },
            None,
            None,
        ),
        Action::Select => select_outcome(s, items),
    }
}

fn move_down(state: &mut AppState, dir_items: &Vec<FileTreeNode>, modifier: Option<usize>)
    ensures
        final(state)@ == moved_to(
            old(state)@,
            entries_view(dir_items@),
            down_index(
                current_index(old(state)@.selected_file, entries_view(dir_items@)),
                count_or_one(modifier),
                dir_items@.len() as int,
            ),
        ),
{
    let k: usize = match modifier {
        Some(k) => k,
        None => 1,
    };
    let ghost items = entries_view(dir_items@);
    let ghost cur = current_index(old(state)@.selected_file, items);
    state.set_file_cursor_highlight_index(
        dir_items,
        (move |i: usize, n: usize| -> (r: usize)
            requires
                n > i,
            ensures
                r == down_index(i as int, k as int, n as int),
            {
                let step = k % n;
                proof {
                    lemma_add_mod_noop_right(i as int, k as int, n as int);
                }
                if step >= n - i {
                    proof {
                        lemma_mod_sub_multiples_vanish(i + step, n as int);
                        lemma_small_mod((i + step - n) as nat, n as nat);
                    }
                    step - (n - i)
                } else {
                    proof {
                        lemma_small_mod((i + step) as nat, n as nat);
                    }
                    i + step
                }
            }),
    );
    proof {
        if dir_items@.len() > 0 {
            lemma_current_index_bound(old(state)@.selected_file, items);
            let d = down_index(cur, k as int, dir_items@.len() as int);
            lemma_small_mod(d as nat, dir_items@.len() as nat);
        }
    }
}


fn move_up(state: &mut AppState, dir_items: &Vec<FileTreeNode>, modifier: Option<usize>)
    ensures
        final(state)@ == moved_to(
            old(state)@,
            entries_view(dir_items@),
            up_index(
                current_index(old(state)@.selected_file, entries_view(dir_items@)),
                count_or_one(modifier),
                dir_items@.len() as int,
            ),
        ),
{
    let k: usize = match modifier {
        Some(k) => k,
        None => 1,
    };
    let ghost items = entries_view(dir_items@);
    let ghost cur = current_index(old(state)@.selected_file, items);
    state.set_file_cursor_highlight_index(
        dir_items,
        (move |i: usize, n: usize| -> (r: usize)
            requires
                n > i,
            ensures
                r == up_index(i as int, k as int, n as int),
            {
                let step = k % n;
                proof {
                    lemma_sub_mod_noop_right(i as int, k as int, n as int);
                }
                if step <= i {
                    proof {
                        lemma_small_mod((i - step) as nat, n as nat);
                    }
                    i - step
                } else {
                    proof {
                        lemma_mod_add_multiples_vanish(i - step, n as int);
                        lemma_small_mod((n + i - step) as nat, n as nat);
                    }
                    n - (step - i)
                }
            }),
    );
    proof {
        if dir_items@.len() > 0 {
            lemma_current_index_bound(old(state)@.selected_file, items);
            let d = up_index(cur, k as int, dir_items@.len() as int);
            lemma_small_mod(d as nat, dir_items@.len() as nat);
        }
    }
}

fn move_to_line(state: &mut AppState, dir_items: &Vec<FileTreeNode>, modifier: Option<usize>)
    ensures
        final(state)@ == moved_to(
            old(state)@,
            entries_view(dir_items@),
            go_to_index(modifier, dir_items@.len() as int),
        ),
{
    let ghost items = entries_view(dir_items@);
    state.set_file_cursor_highlight_index(
        dir_items,
        (move |i: usize, n: usize| -> (r: usize)
            requires
                n > i,
            ensures
                r == go_to_index(modifier, n as int),
            {
                match modifier {
                    Some(m) => if m == 0 {
                        0
                    } else if m - 1 > n - 1 {
                        n - 1
                    } else {
                        m - 1
                    },
                    None => n - 1,
                }
            }),
    );
    proof {
        if dir_items@.len() > 0 {
            let d = go_to_index(modifier, dir_items@.len() as int);
            lemma_small_mod(d as nat, dir_items@.len() as nat);
        }
    }
}

fn move_to_top(state: &mut AppState, dir_items: &Vec<FileTreeNode>)
    ensures
        final(state)@ == moved_to(old(state)@, entries_view(dir_items@), 0),
{
    state.set_file_cursor_highlight_index(
        dir_items,
        (|i: usize, n: usize| -> (r: usize)
            requires
                n > i,
            ensures
                r == 0,
            { 0 }),
    );
    proof {
        if dir_items@.len() > 0 {
            lemma_small_mod(0, dir_items@.len() as nat);
        }
    }
}

fn go_left(state: &mut AppState)
    ensures
        final(state)@ == (AppStateView { current_dir: parent_entry(old(state)@.current_dir), ..old(state)@ }),
{
    let next = match state.current_dir.get_path_buf().parent() {
        Some(p) => p,
        None => state.current_dir.get_path_buf().copy(),
    };
    state.current_dir = FileTreeNode::from_path(next, true);
}

fn editor_arguments(template: &Vec<String>, file_name: &String) -> (r: Vec<String>)
    requires
        template@.len() > 0,
    ensures
        strings_view(r@) == editor_args(strings_view(template@).drop_first(), file_name@),
{
    let ghost t = strings_view(template@).drop_first();
    let mut r: Vec<String> = Vec::new();
    let mut i: usize = 1;
    while i < template.len()
        invariant
            1 <= i <= template@.len(),
            t == strings_view(template@).drop_first(),
            strings_view(r@) =~= editor_args(t.subrange(0, i - 1), file_name@),
        decreases template@.len() - i,
    {
        r.push(substitute_file_name(template[i].as_str(), file_name.as_str()));
        assert(t[i - 1] == template@[i as int]@);
        assert(editor_args(t.subrange(0, i as int), file_name@) =~= editor_args(
            t.subrange(0, i - 1),
            file_name@,
        ).push(replaced(t[i - 1], "<FILE>"@, file_name@)));
        i += 1;
    }
    assert(t.subrange(0, t.len() as int) =~= t);
    r
}

fn go_right(state: &mut AppState, config: &AppSettings) -> (r: (ActionResult, Option<Effect>))
    ensures
        (final(state)@, result_message(r.0), effect_view(r.1)) == right_outcome(
            old(state)@,
            editor_view(config.default_file_editor_command),
        ),
{
    match &state.selected_file {
        None => (ActionResult::Invalid(String::from_str("No file selected")), None),
        Some(selected) => {
            if selected.is_dir() {
                state.current_dir = selected.copy();
                (ActionResult::Valid, None)
            } else {
                match &config.default_file_editor_command {
                    None => (
                        ActionResult::Invalid(
                            String::from_str(
                                "Can not open the file because the config file does not contain a command to open files",
                            ),
                        ),
                        None,
                    ),
                    Some(cmd) => {
                        if cmd.len() == 0 {
                            (
                                ActionResult::Invalid(
                                    String::from_str("Found empty arguments for the default file editor"),
                                ),
                                None,
                            )
                        } else {
                            let args = editor_arguments(cmd, selected.get_simple_name());
                            let program = cmd[0].clone();
                            let working_dir = state.current_dir.get_path_buf().copy();
                            (ActionResult::Valid, Some(Effect::OpenFile { program, args, working_dir }))
                        }
                    },
                }
            }
        },
    }
}

fn start_rename(state: &mut AppState) -> (r: ActionResult)
    ensures
        (final(state)@, result_message(r)) == (match old(state)@.selected_file {
            Some(f) => (
                AppStateView {
                    mode: ModeView::Overlay {
                        background: SimpleMode::Normal,
                        overlay: OverlayView::Rename { old_file: f },
                    },
                    ..reset_view(old(state)@)
                },
                None,
            ),
            None => (reset_view(old(state)@), Some("No file selected"@)),
        }),
{
    state.reset_state();
    match &state.selected_file {
        Some(old_file) => {
            let old_file = old_file.copy();
            state.mode = Mode::OverlayMode {
                background_mode: SimpleMode::Normal,
                overlay_mode: OverlayMode::Rename { old_file },
            };
            ActionResult::Valid
        },
        None => ActionResult::Invalid(String::from_str("No file selected")),
    }
}

fn commit(state: &mut AppState, dir_items: &Vec<FileTreeNode>) -> (r: Option<Effect>)
    ensures
        (final(state)@, effect_view(r)) == ({
            let o = select_outcome(old(state)@, entries_view(dir_items@));
            (o.0, o.2)
        }),
{
    let effect = match &state.mode {
        Mode::TextInputMode { text_input_type: TextInput::Search } => {
            if dir_items.len() > 0 {
                state.selected_file = Some(dir_items[0].copy());
                assert(entries_view(dir_items@)[0] == dir_items@[0]@);
            }
            None
        },
        Mode::OverlayMode { overlay_mode, .. } => {
            let dir = state.current_dir.get_path_buf().copy();
            let name = state.entered_text.clone();
            match overlay_mode {
                OverlayMode::Rename { old_file } => Some(
                    Effect::Rename { from: old_file.get_path_buf().copy(), dir, new_name: name },
                ),
                OverlayMode::DeleteInstantlyConfirm { file } => Some(Effect::Delete { target: file.copy() }),
                OverlayMode::CreateFile => Some(Effect::CreateFile { dir, name }),
                OverlayMode::CreateDirectory => Some(Effect::CreateDirectory { dir, name }),
            }
        },
        Mode::SimpleMode(_) => {
            return None;
        },
    };
    state.reset_state();
    effect
}


/// Carries out one action on the session.
pub fn perform_action(
    action: Action,
    state: &mut AppState,
    modifier: Option<usize>,
    dir_items: &Vec<FileTreeNode>,
    config: &AppSettings,
) -> (r: (ActionResult, Option<Effect>))
    ensures
        (final(state)@, result_message(r.0), effect_view(r.1)) == action_outcome(
            action,
            old(state)@,
            modifier,
            entries_view(dir_items@),
            editor_view(config.default_file_editor_command),
        ),
{
    match action {
        Action::Quit => {
            state.mode = Mode::SimpleMode(SimpleMode::Quitting);
            (ActionResult::Valid, None)
        },
        Action::NormalMode => {
            state.reset_state();
            (ActionResult::Valid, None)
        },
        Action::SearchMode => {
            state.reset_state();
            state.mode = Mode::TextInputMode { text_input_type: TextInput::Search };
            (ActionResult::Valid, None)
        },
        Action::Noop => (ActionResult::Valid, None),
        Action::Down => {
            move_down(state, dir_items, modifier);
            (ActionResult::Valid, None)
        },
        Action::Up => {
            move_up(state, dir_items, modifier);
            (ActionResult::Valid, None)
        },
        Action::GoToOrGoToBottom => {
            move_to_line(state, dir_items, modifier);
            (ActionResult::Valid, None)
        },
        Action::GoToTop => {
            move_to_top(state, dir_items);
            (ActionResult::Valid, None)
        },
        Action::Left => {
            go_left(state);
            (ActionResult::Valid, None)
        },
        Action::Right => go_right(state, config),
        Action::Rename => (start_rename(state), None),
        Action::TypeText => {
            state.copy_input_manager_verbs_to_entered_text();
            state.input_reader.clear();
            assert(strings_view(state.input_reader.verb_key_sequence@) =~= Seq::<Seq<char>>::empty());
            assert(state.input_reader.modifier_key_sequence@ =~= Seq::<char>::empty());
            (ActionResult::Valid, None)
        },
        Action::DeleteLastChar => {
            pop_char(&mut state.entered_text);
            (ActionResult::Valid, None)
        },
        Action::Select => (ActionResult::Valid, commit(state, dir_items)),
    }
}

/// What a mode resolves an action name to: its own table, then, outside the normal mode,
/// the `select` action that commits it.
pub open spec fn mode_action(m: ModeView, name: Seq<char>) -> Option<Action> {
    match m {
        ModeView::Simple(_) => table_action(ActionTable::Normal, name),
        _ => match table_action(ActionTable::TextInput, name) {
            Some(b) => Some(b),
            None => if name == "select"@ {
                Some(Action::Select)
            } else {
                None
            },
        },
    }
}

/// The binding table that a mode reads.
pub open spec fn mode_bindings(m: ModeView, config: AppSettings) -> Map<Seq<char>, Seq<char>> {
    match m {
        ModeView::Simple(_) => config.normal_mode_key_bindings@,
        _ => config.text_input_mode_key_bindings@,
    }
}

/// The action that a canonical key sequence is bound to: the mode's bindings first, then
/// the global ones.
pub open spec fn resolved_action(m: ModeView, config: AppSettings, key: Seq<char>) -> Option<Action> {
    let local = mode_bindings(m, config);
    let global = config.global_key_bindings@;
    let from_mode = if local.contains_key(key) {
        mode_action(m, local[key])
    } else {
        None
    };
    match from_mode {
        Some(a) => Some(a),
        None => if global.contains_key(key) {
            table_action(ActionTable::Global, global[key])
        } else {
            None
        },
    }
}

/// Some binding of the mode's table or of the global one starts with `key`.
pub open spec fn awaits_more(m: ModeView, config: AppSettings, key: Seq<char>) -> bool {
    exists|k: Seq<char>|
        (#[trigger] mode_bindings(m, config).contains_key(k) || config.global_key_bindings@.contains_key(k))
            && is_prefix_of(key, k)
}

pub open spec fn cleared_input(s: AppStateView) -> AppStateView {
    AppStateView { modifier: Seq::empty(), verbs: Seq::empty(), ..s }
}

/// One key press: messages are dismissed, the key is digested, and the canonical sequence
/// either runs its action, waits for more keys while it is a prefix of some binding, or is
/// given up: as typed text in a text mode, else with a message.
pub open spec fn dispatch_outcome(
    s0: AppStateView,
    key: Key,
    items: Seq<EntryView>,
    config: AppSettings,
) -> (AppStateView, Option<EffectView>) {
    let s1 = AppStateView { error_popup: None, error_message_line: None, ..s0 };
    let text = is_text_mode_spec(s0.mode);
    let (m2, v2) = digested(s0.modifier, s0.verbs, key, text);
    let s2 = AppStateView { modifier: m2, verbs: v2, ..s1 };
    if is_misplaced_modifier(s0.verbs, key, text) {
        (AppStateView { error_message_line: Some("Can not have a verb modifier after an verb"@), ..s2 }, None)
    } else {
        let seq_key = joined_tokens(v2);
        match resolved_action(s0.mode, config, seq_key) {
            Some(a) => {
                let (s3, msg, eff) = action_outcome(
                    a,
                    s2,
                    parsed_count(m2),
                    items,
                    editor_view(config.default_file_editor_command),
                );
                (
                    cleared_input(
                        match msg {
                            Some(m) => AppStateView { error_message_line: Some(m), ..s3 },
                            None => s3,
                        },
                    ),
                    eff,
                )
            },
            None => if awaits_more(s0.mode, config, seq_key) {
                (s2, None)
            } else if text {
                (cleared_input(AppStateView { entered_text: s2.entered_text + concat_tokens(v2), ..s2 }), None)
            } else {
                (
                    cleared_input(
                        AppStateView {
                            error_message_line: Some("Could not recognise that sequence: "@ + seq_key),
                            ..s2
                        },
                    ),
                    None,
                )
            },
        }
    }
}

proof fn lemma_awaits_more_tables(m: ModeView, config: AppSettings, key: Seq<char>, tv: Seq<&StringMap>)
    requires
        tv.len() == 2,
        tv[0]@ == mode_bindings(m, config),
        tv[1]@ == config.global_key_bindings@,
    ensures
        (exists|i: int, k: Seq<char>| 0 <= i < tv.len() && #[trigger] tv[i]@.contains_key(k) && is_prefix_of(key, k))
            == awaits_more(m, config, key),
{
    if exists|i: int, k: Seq<char>| 0 <= i < tv.len() && #[trigger] tv[i]@.contains_key(k) && is_prefix_of(key, k) {
        let (i, k) = choose|i: int, k: Seq<char>|
            0 <= i < tv.len() && #[trigger] tv[i]@.contains_key(k) && is_prefix_of(key, k);
        assert(mode_bindings(m, config).contains_key(k) || config.global_key_bindings@.contains_key(k));
    }
    if awaits_more(m, config, key) {
        let k = choose|k: Seq<char>|
            (#[trigger] mode_bindings(m, config).contains_key(k) || config.global_key_bindings@.contains_key(k))
                && is_prefix_of(key, k);
        if mode_bindings(m, config).contains_key(k) {
            assert(tv[0]@.contains_key(k));
        } else {
            assert(tv[1]@.contains_key(k));
        }
    }
}

/// Handles one key press on the session and returns the effect, if any, that the host is to
/// carry out.
pub fn inputs(
    k: Key,
    dir_items: Vec<FileTreeNode>,
    config: &AppSettings,
    app_state: &mut TrackedModifiable<AppState>,
) -> (r: Option<Effect>)
    requires
        old(app_state).value()@.mode != ModeView::Simple(SimpleMode::Quitting),
    ensures
        final(app_state).modified(),
        (final(app_state).value()@, effect_view(r)) == dispatch_outcome(
            old(app_state).value()@,
            k,
            entries_view(dir_items@),
            *config,
        ),
{
    let state = app_state.get_mut();
    state.error_popup = None;
    state.error_message_line = None;
    let is_text_mode = state.mode.is_text_mode();
    let digest_result = state.input_reader.digest(k, is_text_mode);
    if let InputReaderDigestResult::DigestError(error_message) = digest_result {
        state.error_message_line = Some(error_message);
        return None;
    }
    let ghost s0 = old(app_state).value()@;
    let ghost text = is_text_mode_spec(s0.mode);
    let ghost m2 = digested(s0.modifier, s0.verbs, k, text).0;
    let ghost v2 = digested(s0.modifier, s0.verbs, k, text).1;
    let ghost s2 = AppStateView {
        modifier: m2,
        verbs: v2,
        error_popup: None,
        error_message_line: None,
        ..s0
    };
    assert(state@ == s2);
    let modifier = state.input_reader.modifier();
    let mode_key_binding = match state.mode {
        Mode::SimpleMode(_) => &config.normal_mode_key_bindings,
        Mode::OverlayMode { .. } | Mode::TextInputMode { .. } => &config.text_input_mode_key_bindings,
    };
    let mode_actions = state.mode.get_action_map();
    let global_map = ActionMapper::StaticActionMap(ActionTable::Global);
    let current_sequence = state.input_reader.get_human_friendly_verb_key_sequence();
    let from_mode = state.input_reader.get_closure_by_key_bindings(mode_key_binding, &mode_actions);
    assert(current_sequence@ == joined_tokens(v2));
    assert(mode_key_binding@ == mode_bindings(s0.mode, *config));
    let action = match from_mode {
        Some(a) => Some(a),
        None => state.input_reader.get_closure_by_key_bindings(&config.global_key_bindings, &global_map),
    };
    assert(action == resolved_action(s0.mode, *config, joined_tokens(v2)));
    match action {
        Some(a) => {
            let (result, effect) = perform_action(a, state, modifier, &dir_items, config);
            if let ActionResult::Invalid(error_message) = result {
                state.error_message_line = Some(error_message);
            }
            state.input_reader.clear();
            assert(strings_view(state.input_reader.verb_key_sequence@) =~= Seq::<Seq<char>>::empty());
            assert(state.input_reader.modifier_key_sequence@ =~= Seq::<char>::empty());
            effect
        },
        None => {
            let mut tables: Vec<&StringMap> = Vec::new();
            tables.push(mode_key_binding);
            tables.push(&config.global_key_bindings);
            let ghost tv = tables@;
            let incomplete = state.input_reader.check_incomplete_commands(
                current_sequence.as_str(),
                tables,
            );
            proof {
                let key = joined_tokens(v2);
                lemma_awaits_more_tables(s0.mode, *config, key, tv);
                assert(incomplete == awaits_more(s0.mode, *config, key));
            }
            if !incomplete {
                if state.mode.is_text_mode() {
                    state.copy_input_manager_verbs_to_entered_text();
                } else {
                    proof {
                        reveal_strlit("Could not recognise that sequence: ");
                    }
                    let message = String::from_str("Could not recognise that sequence: ").concat(
                        current_sequence.as_str(),
                    );
                    state.error_message_line = Some(message);
                }
                state.input_reader.clear();
                assert(strings_view(state.input_reader.verb_key_sequence@) =~= Seq::<Seq<char>>::empty());
                assert(state.input_reader.modifier_key_sequence@ =~= Seq::<char>::empty());
            }
            None
        },
    }
}


/// No two entries of the listing share a path.
pub open spec fn paths_distinct(items: Seq<EntryView>) -> bool {
    forall|a: int, b: int| 0 <= a < items.len() && 0 <= b < items.len() && a != b ==> items[a].path != items[b].path
}

proof fn lemma_index_of_entry(items: Seq<EntryView>, i: int)
    requires
        paths_distinct(items),
        0 <= i < items.len(),
    ensures
        current_index(Some(items[i]), items) == i,
{
    lemma_position_of(items, items[i].path, i);
}

/// Moving down by `k` and then up by `k` returns to the entry one started from.
pub proof fn lemma_down_then_up(
    s: AppStateView,
    items: Seq<EntryView>,
    i: int,
    k: usize,
    editor: Option<Seq<Seq<char>>>,
)
    requires
        items.len() > 0,
        paths_distinct(items),
        0 <= i < items.len(),
        1 <= k <= items.len(),
        s.selected_file == Some(items[i]),
    ensures
        up_index(down_index(i, k as int, items.len() as int), k as int, items.len() as int) == i,
        action_outcome(
            Action::Up,
            action_outcome(Action::Down, s, Some(k), items, editor).0,
            Some(k),
            items,
            editor,
        ).0 == s,
{
    let n = items.len() as int;
    let d = down_index(i, k as int, n);
    lemma_index_of_entry(items, i);
    lemma_sub_mod_noop_right((i + k) % n, k as int, n);
    lemma_sub_mod_noop(i + k, k as int, n);
    lemma_small_mod(i as nat, n as nat);
    lemma_small_mod(d as nat, n as nat);
    assert(0 <= d < n);
    lemma_index_of_entry(items, d);
    let s1 = action_outcome(Action::Down, s, Some(k), items, editor).0;
    assert(s1.selected_file == Some(items[d]));
    assert(up_index(d, k as int, n) == i);
    assert(action_outcome(Action::Up, s1, Some(k), items, editor).0 =~= s);
}

/// Going to the top, then to line `N` of `N` entries, then to the top again, ends on the
/// first entry, having passed over the last one.
pub proof fn lemma_top_bottom_top(s: AppStateView, items: Seq<EntryView>, editor: Option<Seq<Seq<char>>>)
    requires
        0 < items.len() <= usize::MAX,
    ensures
        ({
            let n = items.len() as usize;
            let s1 = action_outcome(Action::GoToTop, s, None, items, editor).0;
            let s2 = action_outcome(Action::GoToOrGoToBottom, s1, Some(n), items, editor).0;
            let s3 = action_outcome(Action::GoToTop, s2, None, items, editor).0;
            &&& s1.selected_file == Some(items[0])
            &&& s2.selected_file == Some(items[items.len() - 1])
            &&& s3.selected_file == Some(items[0])
        }),
{
}

/// A count typed before a verb is not an action by itself: digits only accumulate, and the
/// verb then runs once with the whole count. Here `12j`, with `j` bound to `down`, moves
/// twelve entries down.
pub proof fn lemma_count_then_verb(s: AppStateView, items: Seq<EntryView>, config: AppSettings)
    requires
        s.mode == ModeView::Simple(SimpleMode::Normal),
        s.modifier.len() == 0,
        s.verbs.len() == 0,
        config.normal_mode_key_bindings@.contains_key("j"@),
        config.normal_mode_key_bindings@["j"@] == "down"@,
        !config.normal_mode_key_bindings@.contains_key(Seq::empty()),
        !config.global_key_bindings@.contains_key(Seq::empty()),
    ensures
        ({
            let (s1, e1) = dispatch_outcome(s, Key::Char('1'), items, config);
            let (s2, e2) = dispatch_outcome(s1, Key::Char('2'), items, config);
            let (s3, e3) = dispatch_outcome(s2, Key::Char('j'), items, config);
            let quiet = AppStateView { error_popup: None, error_message_line: None, ..s };
            &&& e1 is None && e2 is None && e3 is None
            &&& s1 == AppStateView { modifier: seq!['1'], ..quiet }
            &&& s2 == AppStateView { modifier: seq!['1', '2'], ..quiet }
            &&& s3 == moved_to(
                quiet,
                items,
                down_index(current_index(s.selected_file, items), 12, items.len() as int),
            )
        }),
{
    reveal_strlit("j");
    reveal_strlit("down");
    reveal_strlit("noop");
    let quiet = AppStateView { error_popup: None, error_message_line: None, ..s };
    let e: Seq<Seq<char>> = Seq::empty();
    assert(joined_tokens(e) == Seq::<char>::empty());
    assert("j"@.subrange(0, 0) =~= Seq::<char>::empty());
    assert(is_prefix_of(Seq::<char>::empty(), "j"@));
    assert(mode_bindings(s.mode, config).contains_key("j"@));
    assert(awaits_more(s.mode, config, Seq::empty()));
    let (s1, e1) = dispatch_outcome(s, Key::Char('1'), items, config);
    assert(s.modifier.push('1') =~= seq!['1']);
    assert(s1 =~= AppStateView { modifier: seq!['1'], ..quiet });
    let (s2, e2) = dispatch_outcome(s1, Key::Char('2'), items, config);
    assert(seq!['1'].push('2') =~= seq!['1', '2']);
    assert(s2 =~= AppStateView { modifier: seq!['1', '2'], ..quiet });
    let v3 = e.push(seq!['j']);
    assert(v3.drop_last() =~= e);
    assert(joined_tokens(v3) == seq!['j']);
    assert(seq!['j'] =~= "j"@);
    assert("down"@ != "noop"@) by {
        assert("down"@[0] != "noop"@[0]);
    }
    assert(mode_action(s.mode, "down"@) == Some(Action::Down));
    assert(resolved_action(s.mode, config, "j"@) == Some(Action::Down));
    let twelve = seq!['1', '2'];
    assert(twelve.drop_last() =~= seq!['1']);
    assert(seq!['1'].drop_last() =~= Seq::<char>::empty());
    assert(digits_value(Seq::<char>::empty()) == 0);
    assert(digits_value(seq!['1']) == 1);
    assert(digits_value(twelve) == 12);
    assert(all_decimal_digits(twelve));
    assert(parsed_count(twelve) == Some(12usize));
    assert(s.modifier =~= Seq::<char>::empty());
    assert(s.verbs =~= Seq::<Seq<char>>::empty());
    let (s3, e3) = dispatch_outcome(s2, Key::Char('j'), items, config);
    let target = down_index(current_index(s.selected_file, items), 12, items.len() as int);
    assert(s3 =~= moved_to(quiet, items, target));
}


/// A sequence that only begins a binding waits for more keys: with `g g` bound and `g`
/// not, a first `g` is kept without a message or an action, and a second runs the binding
/// and empties the buffers.
pub proof fn lemma_prefix_waits_for_more(s: AppStateView, items: Seq<EntryView>, config: AppSettings)
    requires
        s.mode == ModeView::Simple(SimpleMode::Normal),
        s.modifier.len() == 0,
        s.verbs.len() == 0,
        config.normal_mode_key_bindings@.contains_key("g g"@),
        mode_action(s.mode, config.normal_mode_key_bindings@["g g"@]) is Some,
        !config.normal_mode_key_bindings@.contains_key("g"@),
        !config.global_key_bindings@.contains_key("g"@),
    ensures
        ({
            let quiet = AppStateView { error_popup: None, error_message_line: None, ..s };
            let (s1, e1) = dispatch_outcome(s, Key::Char('g'), items, config);
            let (s2, e2) = dispatch_outcome(s1, Key::Char('g'), items, config);
            let a = mode_action(s.mode, config.normal_mode_key_bindings@["g g"@])->Some_0;
            let o = action_outcome(
                a,
                AppStateView { verbs: seq![seq!['g'], seq!['g']], ..quiet },
                None,
                items,
                editor_view(config.default_file_editor_command),
            );
            &&& e1 is None
            &&& s1 == AppStateView { verbs: seq![seq!['g']], ..quiet }
            &&& s2 == cleared_input(
                match o.1 {
                    Some(m) => AppStateView { error_message_line: Some(m), ..o.0 },
                    None => o.0,
                },
            )
            &&& e2 == o.2
            &&& s2.modifier.len() == 0 && s2.verbs.len() == 0
        }),
{
    reveal_strlit("g");
    reveal_strlit("g g");
    let quiet = AppStateView { error_popup: None, error_message_line: None, ..s };
    let e: Seq<Seq<char>> = Seq::empty();
    let v1 = e.push(seq!['g']);
    let v2 = v1.push(seq!['g']);
    assert(s.verbs =~= e);
    assert(s.modifier =~= Seq::<char>::empty());
    assert(v1.drop_last() =~= e);
    assert(v2.drop_last() =~= v1);
    assert(joined_tokens(e) == Seq::<char>::empty());
    assert(joined_tokens(v1) == seq!['g']);
    assert(seq!['g'] =~= "g"@);
    assert(joined_tokens(v2) =~= "g g"@);
    assert("g g"@.subrange(0, 1) =~= "g"@);
    assert(is_prefix_of("g"@, "g g"@));
    assert(mode_bindings(s.mode, config).contains_key("g g"@));
    assert(awaits_more(s.mode, config, "g"@));
    let (s1, e1) = dispatch_outcome(s, Key::Char('g'), items, config);
    assert(v1 =~= seq![seq!['g']]);
    assert(s1 =~= AppStateView { verbs: seq![seq!['g']], ..quiet });
    assert(v2 =~= seq![seq!['g'], seq!['g']]);
    assert(parsed_count(Seq::<char>::empty()) is None);
}

} // verus!
