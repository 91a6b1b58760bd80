use fphile::actions::{Action, ActionResult};
use fphile::directory_tree::FileTreeNode;
use fphile::dispatch::{inputs, perform_action, Effect};
use fphile::helper_types::{AppSettings, AppState, TrackedModifiable};
use fphile::input::Key;
use fphile::modes::{Mode, OverlayMode, SimpleMode, TextInput};
use fphile::path::PathComponent;
use fphile::string_map::StringMap;

fn node(path: &str, is_dir: bool) -> FileTreeNode {
    let mut components = Vec::new();
    if path.starts_with('/') {
        components.push(PathComponent::RootDir);
    }
    for part in path.split('/').filter(|p| !p.is_empty()) {
        components.push(match part {
            "." => PathComponent::CurDir,
            ".." => PathComponent::ParentDir,
            name => PathComponent::Normal(name.to_string()),
        });
    }
    FileTreeNode::new(&components, is_dir)
}

fn bindings(pairs: &[(&str, &str)]) -> StringMap {
    let mut m = StringMap::new();
    for (k, v) in pairs {
        m.insert(k.to_string(), v.to_string());
    }
    m
}

fn settings() -> AppSettings {
    AppSettings {
        render_timeout: None,
        global_key_bindings: bindings(&[("q", "quit"), ("ESC", "normal_mode"), ("/", "search_mode")]),
        normal_mode_key_bindings: bindings(&[
            ("j", "down"),
            ("k", "up"),
            ("h", "left"),
            ("l", "right"),
            ("G", "go_to_or_go_to_bottom"),
            ("g g", "go_to_top"),
            ("r", "rename"),
        ]),
        text_input_mode_key_bindings: bindings(&[("ENTER", "select"), ("BACKSPACE", "delete_last_char")]),
        min_distance_from_cursor_to_bottom: 2,
        default_file_editor_command: Some(vec!["vim".to_string(), "<FILE>".to_string()]),
    }
}

fn listing() -> Vec<FileTreeNode> {
    vec![node("/d/b", true), node("/d/a.txt", false), node("/d/c.txt", false)]
}

fn state_on(selected: Option<FileTreeNode>) -> TrackedModifiable<AppState> {
    let mut state = AppState::new(node("/d", true));
    state.selected_file = selected;
    TrackedModifiable::new(state)
}

fn selected_name(state: &TrackedModifiable<AppState>) -> Option<String> {
    state.get().selected_file.as_ref().map(|f| f.get_simple_name().clone())
}

fn press(state: &mut TrackedModifiable<AppState>, key: Key, items: &Vec<FileTreeNode>, config: &AppSettings) -> Option<Effect> {
    let copy: Vec<FileTreeNode> = items.iter().map(|n| n.copy()).collect();
    inputs(key, copy, config, state)
}

#[test]
fn down_then_up_on_three_entries() {
    let items = listing();
    let config = settings();
    let mut state = state_on(Some(items[0].copy()));
    assert_eq!(selected_name(&state), Some("b/".to_string()));
    press(&mut state, Key::Char('j'), &items, &config);
    assert_eq!(selected_name(&state), Some("a.txt".to_string()));
    press(&mut state, Key::Char('k'), &items, &config);
    assert_eq!(selected_name(&state), Some("b/".to_string()));
}

#[test]
fn count_prefix_moves_twelve_down() {
    let items: Vec<FileTreeNode> = (0..5).map(|i| node(&format!("/d/f{}", i), false)).collect();
    let config = settings();
    let mut state = state_on(Some(items[1].copy()));
    assert!(press(&mut state, Key::Char('1'), &items, &config).is_none());
    assert_eq!(state.get().input_reader.modifier_key_sequence, "1");
    assert_eq!(selected_name(&state), Some("f1".to_string()));
    press(&mut state, Key::Char('2'), &items, &config);
    assert_eq!(state.get().input_reader.modifier_key_sequence, "12");
    assert_eq!(selected_name(&state), Some("f1".to_string()));
    assert!(state.get().error_message_line.is_none());
    press(&mut state, Key::Char('j'), &items, &config);
    assert_eq!(selected_name(&state), Some(format!("f{}", (1 + 12) % 5)));
    assert!(state.get().input_reader.modifier_key_sequence.is_empty());
    assert!(state.get().input_reader.verb_key_sequence.is_empty());
}

#[test]
fn prefix_of_binding_waits() {
    let items = listing();
    let config = settings();
    let mut state = state_on(Some(items[2].copy()));
    press(&mut state, Key::Char('g'), &items, &config);
    assert_eq!(state.get().input_reader.verb_key_sequence, vec!["g".to_string()]);
    assert!(state.get().error_message_line.is_none());
    assert_eq!(selected_name(&state), Some("c.txt".to_string()));
    press(&mut state, Key::Char('g'), &items, &config);
    assert!(state.get().input_reader.verb_key_sequence.is_empty());
    assert_eq!(selected_name(&state), Some("b/".to_string()));
}

#[test]
fn top_bottom_top() {
    let items = listing();
    let config = settings();
    let mut state = state_on(Some(items[1].copy()));
    press(&mut state, Key::Char('g'), &items, &config);
    press(&mut state, Key::Char('g'), &items, &config);
    assert_eq!(selected_name(&state), Some("b/".to_string()));
    press(&mut state, Key::Char('3'), &items, &config);
    press(&mut state, Key::Char('G'), &items, &config);
    assert_eq!(selected_name(&state), Some("c.txt".to_string()));
    press(&mut state, Key::Char('g'), &items, &config);
    press(&mut state, Key::Char('g'), &items, &config);
    assert_eq!(selected_name(&state), Some("b/".to_string()));
}

#[test]
fn go_to_line_clamps() {
    let items = listing();
    let config = settings();
    let mut state = state_on(None);
    press(&mut state, Key::Char('9'), &items, &config);
    press(&mut state, Key::Char('G'), &items, &config);
    assert_eq!(selected_name(&state), Some("c.txt".to_string()));
    press(&mut state, Key::Char('0'), &items, &config);
    press(&mut state, Key::Char('G'), &items, &config);
    assert_eq!(selected_name(&state), Some("b/".to_string()));
    press(&mut state, Key::Char('G'), &items, &config);
    assert_eq!(selected_name(&state), Some("c.txt".to_string()));
}

#[test]
fn up_wraps_around() {
    let items = listing();
    let config = settings();
    let mut state = state_on(Some(items[0].copy()));
    press(&mut state, Key::Char('k'), &items, &config);
    assert_eq!(selected_name(&state), Some("c.txt".to_string()));
    press(&mut state, Key::Char('4'), &items, &config);
    press(&mut state, Key::Char('j'), &items, &config);
    assert_eq!(selected_name(&state), Some("b/".to_string()));
}

#[test]
fn unlisted_selection_starts_from_first() {
    let items = listing();
    let config = settings();
    let mut state = state_on(Some(node("/elsewhere/x", false)));
    press(&mut state, Key::Char('j'), &items, &config);
    assert_eq!(selected_name(&state), Some("a.txt".to_string()));
}

#[test]
fn moves_on_empty_listing_clear_selection() {
    let items: Vec<FileTreeNode> = Vec::new();
    let config = settings();
    let mut state = state_on(Some(node("/d/x", false)));
    press(&mut state, Key::Char('j'), &items, &config);
    assert!(state.get().selected_file.is_none());
    assert!(state.is_modified());
}

#[test]
fn digit_after_verb_is_an_error() {
    let items = listing();
    let config = settings();
    let mut state = state_on(None);
    press(&mut state, Key::Char('g'), &items, &config);
    press(&mut state, Key::Char('5'), &items, &config);
    assert_eq!(
        state.get().error_message_line.as_deref(),
        Some("Can not have a verb modifier after an verb")
    );
    assert!(state.get().input_reader.verb_key_sequence.is_empty());
    assert!(state.get().input_reader.modifier_key_sequence.is_empty());
}

#[test]
fn unknown_sequence_is_reported() {
    let items = listing();
    let config = settings();
    let mut state = state_on(None);
    press(&mut state, Key::Char('z'), &items, &config);
    assert_eq!(
        state.get().error_message_line.as_deref(),
        Some("Could not recognise that sequence: z")
    );
    assert!(state.get().input_reader.verb_key_sequence.is_empty());
    press(&mut state, Key::Char('j'), &items, &config);
    assert!(state.get().error_message_line.is_none());
}

#[test]
fn search_types_text_and_selects_first_hit() {
    let items = listing();
    let config = settings();
    let mut state = state_on(None);
    press(&mut state, Key::Char('/'), &items, &config);
    assert!(matches!(
        state.get().mode,
        Mode::TextInputMode { text_input_type: TextInput::Search }
    ));
    press(&mut state, Key::Char('c'), &items, &config);
    press(&mut state, Key::Char('1'), &items, &config);
    assert_eq!(state.get().entered_text, "c1");
    press(&mut state, Key::Backspace, &items, &config);
    assert_eq!(state.get().entered_text, "c");
    let hits = vec![items[2].copy()];
    press(&mut state, Key::Enter, &hits, &config);
    assert!(matches!(state.get().mode, Mode::SimpleMode(SimpleMode::Normal)));
    assert_eq!(state.get().entered_text, "");
    assert_eq!(selected_name(&state), Some("c.txt".to_string()));
}

#[test]
fn rename_asks_for_effect() {
    let items = listing();
    let config = settings();
    let mut state = state_on(Some(items[1].copy()));
    press(&mut state, Key::Char('r'), &items, &config);
    assert!(matches!(state.get().mode, Mode::OverlayMode { overlay_mode: OverlayMode::Rename { .. }, .. }));
    for c in "new.txt".chars() {
        press(&mut state, Key::Char(c), &items, &config);
    }
    assert_eq!(state.get().entered_text, "new.txt");
    let effect = press(&mut state, Key::Enter, &items, &config);
    match effect {
        Some(Effect::Rename { from, dir, new_name }) => {
            assert_eq!(from.parts, vec!["d".to_string(), "a.txt".to_string()]);
            assert_eq!(dir.parts, vec!["d".to_string()]);
            assert_eq!(new_name, "new.txt");
        }
        _ => panic!("expected a rename"),
    }
    assert!(matches!(state.get().mode, Mode::SimpleMode(SimpleMode::Normal)));
}

#[test]
fn rename_without_selection_is_invalid() {
    let items = listing();
    let config = settings();
    let mut state = state_on(None);
    press(&mut state, Key::Char('r'), &items, &config);
    assert_eq!(state.get().error_message_line.as_deref(), Some("No file selected"));
    assert!(matches!(state.get().mode, Mode::SimpleMode(SimpleMode::Normal)));
}

#[test]
fn right_opens_directory_or_file() {
    let items = listing();
    let config = settings();
    let mut state = state_on(Some(items[0].copy()));
    assert!(press(&mut state, Key::Char('l'), &items, &config).is_none());
    assert_eq!(state.get().current_dir.get_simple_name(), "b/");
    let mut state = state_on(Some(items[1].copy()));
    match press(&mut state, Key::Char('l'), &items, &config) {
        Some(Effect::OpenFile { program, args, working_dir }) => {
            assert_eq!(program, "vim");
            assert_eq!(args, vec!["a.txt".to_string()]);
            assert_eq!(working_dir.parts, vec!["d".to_string()]);
        }
        _ => panic!("expected the editor"),
    }
}

#[test]
fn right_without_editor_is_invalid() {
    let items = listing();
    let mut config = settings();
    config.default_file_editor_command = None;
    let mut state = TrackedModifiable::new(AppState::new(node("/d", true)));
    state.get_mut().selected_file = Some(items[1].copy());
    let (result, effect) = perform_action(Action::Right, state.get_mut(), None, &items, &config);
    assert!(effect.is_none());
    match result {
        ActionResult::Invalid(m) => assert_eq!(
            m,
            "Can not open the file because the config file does not contain a command to open files"
        ),
        ActionResult::Valid => panic!("expected an error"),
    }
}

#[test]
fn left_goes_to_parent() {
    let items = listing();
    let config = settings();
    let mut state = TrackedModifiable::new(AppState::new(node("/d/e", true)));
    press(&mut state, Key::Char('h'), &items, &config);
    assert_eq!(state.get().current_dir.get_simple_name(), "d/");
    press(&mut state, Key::Char('h'), &items, &config);
    assert_eq!(state.get().current_dir.get_simple_name(), "/");
    press(&mut state, Key::Char('h'), &items, &config);
    assert_eq!(state.get().current_dir.get_simple_name(), "/");
}

#[test]
fn quit_and_escape() {
    let items = listing();
    let config = settings();
    let mut state = state_on(None);
    press(&mut state, Key::Char('/'), &items, &config);
    press(&mut state, Key::Char('x'), &items, &config);
    press(&mut state, Key::Esc, &items, &config);
    assert!(matches!(state.get().mode, Mode::SimpleMode(SimpleMode::Normal)));
    assert_eq!(state.get().entered_text, "");
    press(&mut state, Key::Char('q'), &items, &config);
    assert!(state.get().mode.is_quitting());
}

#[test]
fn delete_and_create_overlays_ask_for_effects() {
    let items = listing();
    let config = settings();
    let mut state = state_on(None);
    state.get_mut().mode = Mode::OverlayMode {
        background_mode: SimpleMode::Normal,
        overlay_mode: OverlayMode::DeleteInstantlyConfirm { file: items[1].copy() },
    };
    match press(&mut state, Key::Enter, &items, &config) {
        Some(Effect::Delete { target }) => assert_eq!(target.get_simple_name(), "a.txt"),
        _ => panic!("expected a delete"),
    }
    state.get_mut().mode = Mode::OverlayMode {
        background_mode: SimpleMode::Normal,
        overlay_mode: OverlayMode::CreateDirectory,
    };
    press(&mut state, Key::Char('n'), &items, &config);
    match press(&mut state, Key::Enter, &items, &config) {
        Some(Effect::CreateDirectory { dir, name }) => {
            assert_eq!(dir.parts, vec!["d".to_string()]);
            assert_eq!(name, "n");
        }
        _ => panic!("expected a new directory"),
    }
    state.get_mut().mode = Mode::OverlayMode {
        background_mode: SimpleMode::Normal,
        overlay_mode: OverlayMode::CreateFile,
    };
    press(&mut state, Key::Char('f'), &items, &config);
    assert!(matches!(press(&mut state, Key::Enter, &items, &config), Some(Effect::CreateFile { .. })));
}
