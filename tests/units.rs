use fphile::directory_tree::{get_file_cursor_index, FileTreeNode};
use fphile::dispatch::{substitute_file_name, Effect};
use fphile::frame::{
    bottom_text, effect_failed, listing_failed, normal_mode_view_window, order_entries, poll_timeout,
};
use fphile::helper_types::{AppState, TrackedModifiable};
use fphile::input::{parse_count, InputReader, InputReaderDigestResult, Key};
use fphile::helper_types::AppSettings;
use fphile::modes::{delete_confirmation_text, Mode, OverlayMode, TextInput};
use fphile::path::{normalize_path, FsPath, PathComponent};
use fphile::ranking::{cmp_by_dir_and_path, rank_entries};
use fphile::string_map::{FindKeyByActionName, StringMap};
use fphile::viewport::scroll_offset;
use std::cmp::Ordering;

fn node(path: &str, is_dir: bool) -> FileTreeNode {
    let mut components = Vec::new();
    if path.starts_with('/') {
        components.push(PathComponent::RootDir);
    }
    for part in path.split('/').filter(|p| !p.is_empty()) {
        components.push(match part {
            "." => PathComponent::CurDir,
            ".." => PathComponent::ParentDir,
            name => PathComponent::Normal(name.to_string()),
        });
    }
    FileTreeNode::new(&components, is_dir)
}

fn names(items: &[FileTreeNode]) -> Vec<String> {
    items.iter().map(|n| n.get_simple_name().clone()).collect()
}

#[test]
fn scroll_offset_keeps_cursor_in_view() {
    assert_eq!(scroll_offset(5, 4, 10, 2), 0);
    assert_eq!(scroll_offset(100, 3, 10, 2), 0);
    assert_eq!(scroll_offset(100, 20, 10, 2), 12);
    assert_eq!(scroll_offset(100, 99, 10, 2), 90);
    assert_eq!(scroll_offset(0, 0, 10, 2), 0);
    for n in 1..30usize {
        for h in 1..12usize {
            for s in 1..=h {
                for c in 0..n {
                    let off = scroll_offset(n, c, h, s);
                    assert!(off <= n.saturating_sub(h));
                    assert!(off <= c && c < off + h);
                }
            }
        }
    }
}

#[test]
fn normalize_resolves_dots() {
    let p = normalize_path(&vec![
        PathComponent::RootDir,
        PathComponent::Normal("a".to_string()),
        PathComponent::CurDir,
        PathComponent::Normal("b".to_string()),
        PathComponent::ParentDir,
        PathComponent::Normal("c".to_string()),
    ]);
    assert!(p.rooted);
    assert_eq!(p.parts, vec!["a".to_string(), "c".to_string()]);
    let q = normalize_path(&vec![PathComponent::RootDir, PathComponent::ParentDir]);
    assert!(q.rooted);
    assert!(q.parts.is_empty());
    let r = normalize_path(&vec![PathComponent::Normal("x".to_string()), PathComponent::RootDir]);
    assert!(r.rooted && r.parts.is_empty());
}

#[test]
fn entry_names() {
    assert_eq!(node("/d/b", true).get_simple_name(), "b/");
    assert_eq!(node("/d/a.txt", false).get_simple_name(), "a.txt");
    assert_eq!(node("/", true).get_simple_name(), "/");
    assert_eq!(node("/d/./x/../y", false).get_simple_name(), "y");
    assert!(node("/d/b", true) == node("/d/b", false));
    assert!(node("/d/b", true) != node("/d/c", true));
}

#[test]
fn parent_of_paths() {
    let p = FsPath { rooted: true, parts: vec!["a".to_string(), "b".to_string()] };
    let up = p.parent().unwrap();
    assert_eq!(up.parts, vec!["a".to_string()]);
    assert!(FsPath { rooted: true, parts: vec![] }.parent().is_none());
}

#[test]
fn cursor_index_by_path() {
    let items = vec![node("/d/b", true), node("/d/a.txt", false)];
    assert_eq!(get_file_cursor_index(&Some(node("/d/a.txt", false)), &items), Some(1));
    assert_eq!(get_file_cursor_index(&Some(node("/d/z", false)), &items), None);
    assert_eq!(get_file_cursor_index(&None, &items), None);
}

#[test]
fn default_order_puts_directories_first() {
    let items = vec![
        node("/d/c.txt", false),
        node("/d/z", true),
        node("/d/a.txt", false),
        node("/d/b", true),
    ];
    let ranked = rank_entries(&items, "");
    assert_eq!(names(&ranked), vec!["b/", "z/", "a.txt", "c.txt"]);
    assert_eq!(cmp_by_dir_and_path(&items[1], &items[0]), Ordering::Less);
    assert_eq!(cmp_by_dir_and_path(&items[0], &items[2]), Ordering::Greater);
    assert_eq!(cmp_by_dir_and_path(&items[0], &node("/d/c.txt", false)), Ordering::Equal);
}

#[test]
fn path_order_is_component_wise() {
    let a = node("/a/b", false);
    let b = node("/a-b", false);
    assert_eq!(cmp_by_dir_and_path(&a, &b), Ordering::Less);
    assert_eq!(cmp_by_dir_and_path(&node("/x", false), &node("/x.y", false)), Ordering::Less);
}

#[test]
fn query_keeps_matches_best_first() {
    let items = vec![
        node("/d/readme.md", false),
        node("/d/main.rs", false),
        node("/d/Cargo.toml", false),
        node("/d/src", true),
    ];
    let ranked = rank_entries(&items, "main.rs");
    assert_eq!(names(&ranked)[0], "main.rs");
    assert!(!names(&ranked).contains(&"Cargo.toml".to_string()));
    let none = rank_entries(&items, "qqqq");
    assert!(none.is_empty());
    for w in ranked.windows(2) {
        assert!(w[0].compute_score("main.rs") >= w[1].compute_score("main.rs"));
    }
}

#[test]
fn score_of_names() {
    let n = node("/d/main.rs", false);
    assert_eq!(n.compute_score(""), 0);
    assert!(n.compute_score("mrs") > 0);
    assert_eq!(n.compute_score("xyz"), 0);
    assert!(n.compute_score("main.rs") >= node("/d/main.rs.bak", false).compute_score("main.rs"));
}

#[test]
fn digest_collects_modifier_and_verbs() {
    let mut r = InputReader::new();
    assert!(matches!(r.digest(Key::Char('3'), false), InputReaderDigestResult::DigestSuccessful));
    assert!(matches!(r.digest(Key::Char('d'), false), InputReaderDigestResult::DigestSuccessful));
    assert!(matches!(r.digest(Key::Esc, false), InputReaderDigestResult::DigestSuccessful));
    assert!(matches!(r.digest(Key::Enter, false), InputReaderDigestResult::DigestSuccessful));
    assert!(matches!(r.digest(Key::Backspace, false), InputReaderDigestResult::DigestSuccessful));
    assert!(matches!(r.digest(Key::Other, false), InputReaderDigestResult::DigestSuccessful));
    assert_eq!(r.modifier_key_sequence, "3");
    assert_eq!(r.get_human_friendly_verb_key_sequence(), "d ESC ENTER BACKSPACE");
    assert_eq!(r.modifier(), Some(3));
    assert!(matches!(r.digest(Key::Char('7'), true), InputReaderDigestResult::DigestSuccessful));
    assert_eq!(r.get_human_friendly_verb_key_sequence(), "d ESC ENTER BACKSPACE 7");
    match r.digest(Key::Char('7'), false) {
        InputReaderDigestResult::DigestError(m) => {
            assert_eq!(m, "Can not have a verb modifier after an verb")
        }
        _ => panic!("expected an error"),
    }
    assert!(r.modifier_key_sequence.is_empty() && r.verb_key_sequence.is_empty());
    r.digest(Key::Char('x'), false);
    r.clear();
    assert!(r.verb_key_sequence.is_empty());
}

#[test]
fn incomplete_commands() {
    let mut a = StringMap::new();
    a.insert("g g".to_string(), "go_to_top".to_string());
    let b = StringMap::new();
    let r = InputReader::new();
    assert!(r.check_incomplete_commands("g", vec![&a, &b]));
    assert!(r.check_incomplete_commands("g g", vec![&b, &a]));
    assert!(!r.check_incomplete_commands("g g g", vec![&a, &b]));
    assert!(!r.check_incomplete_commands("x", vec![&a]));
    assert!(!r.check_incomplete_commands("", vec![&b]));
}

#[test]
fn counts_parse_like_usize() {
    assert_eq!(parse_count("12"), Some(12));
    assert_eq!(parse_count("+7"), Some(7));
    assert_eq!(parse_count(""), None);
    assert_eq!(parse_count("+"), None);
    assert_eq!(parse_count("1a"), None);
    assert_eq!(parse_count("18446744073709551615"), Some(usize::MAX));
    assert_eq!(parse_count("18446744073709551616"), None);
    assert_eq!(parse_count("99999999999999999999999"), None);
}

#[test]
fn string_map_binds_and_finds() {
    let mut m = StringMap::new();
    m.insert("q".to_string(), "quit".to_string());
    m.insert("z".to_string(), "select".to_string());
    m.insert("ENTER".to_string(), "select".to_string());
    m.insert("q".to_string(), "noop".to_string());
    assert_eq!(m.get("q").map(|s| s.as_str()), Some("noop"));
    assert_eq!(m.get("x"), None);
    assert_eq!(FindKeyByActionName::find_key_by_action_name(&m, "select"), Some("ENTER"));
    assert_eq!(FindKeyByActionName::find_key_by_action_name(&m, "quit"), None);
    assert!(m.has_key_starting_with("EN"));
    assert!(!m.has_key_starting_with("y"));
}

#[test]
fn editor_placeholder_is_replaced() {
    assert_eq!(substitute_file_name("<FILE>", "a.txt"), "a.txt");
    assert_eq!(substitute_file_name("--open=<FILE>:<FILE>", "x"), "--open=x:x");
    assert_eq!(substitute_file_name("<FIL", "x"), "<FIL");
    assert_eq!(substitute_file_name("", "x"), "");
}

#[test]
fn view_window_resets_missing_selection() {
    let items: Vec<FileTreeNode> = (0..20).map(|i| node(&format!("/d/f{:02}", i), false)).collect();
    let mut state = TrackedModifiable::new(AppState::new(node("/d", true)));
    let (c, skip) = normal_mode_view_window(&mut state, &items, 2, 5);
    assert_eq!((c, skip), (0, 0));
    assert!(state.is_modified());
    assert_eq!(state.get().selected_file.as_ref().unwrap().get_simple_name(), "f00");
    state.reset_modified_flag();
    state.get_mut().selected_file = Some(items[10].copy());
    state.reset_modified_flag();
    let (c, skip) = normal_mode_view_window(&mut state, &items, 2, 5);
    assert_eq!((c, skip), (10, 7));
    assert!(!state.is_modified());
}

#[test]
fn poll_timeout_follows_the_flag() {
    let mut state = TrackedModifiable::new(AppState::new(node("/d", true)));
    assert_eq!(poll_timeout(&mut state, 250), 250);
    state.get_mut();
    assert_eq!(poll_timeout(&mut state, 250), 0);
    assert!(!state.is_modified());
}

#[test]
fn messages_for_failures() {
    let mut state = TrackedModifiable::new(AppState::new(node("/d", true)));
    listing_failed(&mut state, true);
    assert_eq!(state.get().error_popup.as_ref().unwrap().title, "Permission denied");
    listing_failed(&mut state, false);
    assert_eq!(state.get().error_popup.as_ref().unwrap().desc, "An error occurred while reading the files");
    let effect = Effect::Rename {
        from: FsPath { rooted: true, parts: vec!["a".to_string()] },
        dir: FsPath { rooted: true, parts: vec![] },
        new_name: "b".to_string(),
    };
    effect_failed(&mut state, &effect, "exists");
    assert_eq!(state.get().error_message_line.as_deref(), Some("Error while renaming: exists"));
    assert_eq!(bottom_text(state.get()).as_deref(), Some("Error while renaming: exists"));
}

#[test]
fn prompt_and_titles() {
    let mut state = AppState::new(node("/d", true));
    assert!(bottom_text(&state).is_none());
    state.mode = Mode::TextInputMode { text_input_type: TextInput::Search };
    state.entered_text = "ab".to_string();
    assert_eq!(bottom_text(&state).as_deref(), Some("/ab"));
    assert_eq!(TextInput::Search.represent_text_line("q"), "/q");
    let rename = OverlayMode::Rename { old_file: node("/d/a.txt", false) };
    assert_eq!(rename.get_popup_title(), "Renaming 'a.txt'");
    assert_eq!(OverlayMode::CreateFile.get_popup_title(), "Creating a new file");
    assert!(state.mode.is_text_mode());
}

#[test]
fn order_follows_mode() {
    let items = vec![node("/d/zeta", false), node("/d/alpha", false), node("/d/dir", true)];
    let mut state = AppState::new(node("/d", true));
    assert_eq!(names(&order_entries(&state, &items)), vec!["dir/", "alpha", "zeta"]);
    state.mode = Mode::TextInputMode { text_input_type: TextInput::Search };
    state.entered_text = "zeta".to_string();
    assert_eq!(names(&order_entries(&state, &items)), vec!["zeta"]);
}

#[test]
fn marks_are_found_by_path() {
    let marks = vec![node("/d/a", false)];
    assert!(node("/d/a", true).is_marked(&marks));
    assert!(!node("/d/b", false).is_marked(&marks));
}

#[test]
fn delete_prompt_names_least_keys() {
    let mut global = StringMap::new();
    global.insert("q".to_string(), "normal_mode".to_string());
    global.insert("ESC".to_string(), "normal_mode".to_string());
    let mut text = StringMap::new();
    text.insert("ENTER".to_string(), "select".to_string());
    let mut config = AppSettings {
        render_timeout: None,
        global_key_bindings: global,
        normal_mode_key_bindings: StringMap::new(),
        text_input_mode_key_bindings: text,
        min_distance_from_cursor_to_bottom: 0,
        default_file_editor_command: None,
    };
    assert_eq!(
        delete_confirmation_text(&config).as_deref(),
        Some("If you want to cancel, press 'ESC'. Otherwise, press 'ENTER' to confirm")
    );
    config.text_input_mode_key_bindings = StringMap::new();
    assert!(delete_confirmation_text(&config).is_none());
}
