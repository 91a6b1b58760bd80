use vstd::prelude::*;
use crate::actions::{Action, ActionMapper, ActionTable};
use crate::directory_tree::{EntryView, FileTreeNode};
use crate::helper_types::AppSettings;
use crate::string_map::is_least_key_for;

verus! {

/// The modal state of the browser.
pub enum Mode {
    SimpleMode(SimpleMode),
    OverlayMode { background_mode: SimpleMode, overlay_mode: OverlayMode },
    TextInputMode { text_input_type: TextInput },
}

#[derive(PartialEq, Eq, Structural, Clone, Copy, Debug)]
pub enum SimpleMode {
    Normal,
    Quitting,
}

#[derive(PartialEq, Eq, Structural, Clone, Copy, Debug)]
pub enum TextInput {
    Search,
}

/// A dialog shown over the listing, with the data it was opened on.
pub enum OverlayMode {
    CreateDirectory,
    CreateFile,
    Rename { old_file: FileTreeNode },
    DeleteInstantlyConfirm { file: FileTreeNode },
}

pub enum OverlayView {
    CreateDirectory,
    CreateFile,
    Rename { old_file: EntryView },
    DeleteInstantlyConfirm { file: EntryView },
}

pub enum ModeView {
    Simple(SimpleMode),
    Overlay { background: SimpleMode, overlay: OverlayView },
    Text(TextInput),
}

impl View for OverlayMode {
    type V = OverlayView;

    open spec fn view(&self) -> OverlayView {
        match self {
            OverlayMode::CreateDirectory => OverlayView::CreateDirectory,
            OverlayMode::CreateFile => OverlayView::CreateFile,
            OverlayMode::Rename { old_file } => OverlayView::Rename { old_file: old_file@ },
            OverlayMode::DeleteInstantlyConfirm { file } => OverlayView::DeleteInstantlyConfirm {
                file: file@,
            },
        }
    }
}

impl View for Mode {
    type V = ModeView;

    open spec fn view(&self) -> ModeView {
        match self {
            Mode::SimpleMode(m) => ModeView::Simple(*m),
            Mode::OverlayMode { background_mode, overlay_mode } => ModeView::Overlay {
                background: *background_mode,
                overlay: overlay_mode@,
            },
            Mode::TextInputMode { text_input_type } => ModeView::Text(*text_input_type),
        }
    }
}

/// Modes in which typed keys are text rather than commands.
pub open spec fn is_text_mode_spec(m: ModeView) -> bool {
    !(m is Simple)
}

/// The action table that a mode reads its bindings through.
pub open spec fn mode_action_table(m: ModeView) -> ActionTable {
    match m {
        ModeView::Simple(_) => ActionTable::Normal,
        _ => ActionTable::TextInput,
    }
}

/// The title of a dialog.
pub open spec fn popup_title_spec(o: OverlayView) -> Seq<char> {
    match o {
        OverlayView::Rename { old_file } => "Renaming '"@ + old_file.name + "'"@,
        OverlayView::DeleteInstantlyConfirm { file } => "Deleting '"@ + file.name + "'"@,
        OverlayView::CreateDirectory => "Creating a new directory"@,
        OverlayView::CreateFile => "Creating a new file"@,
    }
}

/// The text that asks to confirm a deletion, naming the keys that cancel and confirm.
pub open spec fn delete_prompt(cancel: Seq<char>, confirm: Seq<char>) -> Seq<char> {
    "If you want to cancel, press '"@ + cancel + "'. Otherwise, press '"@ + confirm + "' to confirm"@
}

/// The deletion prompt, with the least key bound to `normal_mode` among the global bindings
/// and the least key bound to `select` among the text bindings; `None` where one is missing.
pub fn delete_confirmation_text(config: &AppSettings) -> (r: Option<String>)
    ensures
        r matches Some(t) ==> exists|cancel: Seq<char>, confirm: Seq<char>|
            #[trigger] is_least_key_for(config.global_key_bindings@, "normal_mode"@, cancel)
                && #[trigger] is_least_key_for(config.text_input_mode_key_bindings@, "select"@, confirm)
                && t@ == delete_prompt(cancel, confirm),
        r is None <==> (!exists|k: Seq<char>|
            #[trigger] config.global_key_bindings@.contains_key(k) && config.global_key_bindings@[k]
                == "normal_mode"@) || (!exists|k: Seq<char>|
            #[trigger] config.text_input_mode_key_bindings@.contains_key(k)
                && config.text_input_mode_key_bindings@[k] == "select"@),
{
    let cancel = config.global_key_bindings.find_key_by_action_name("normal_mode");
    let confirm = config.text_input_mode_key_bindings.find_key_by_action_name("select");
    match (cancel, confirm) {
        (Some(c), Some(s)) => {
            let t = String::from_str("If you want to cancel, press '").concat(c.as_str()).concat(
                "'. Otherwise, press '",
            ).concat(s.as_str()).concat("' to confirm");
            proof {
                assert(is_least_key_for(config.global_key_bindings@, "normal_mode"@, c@));
                assert(is_least_key_for(config.text_input_mode_key_bindings@, "select"@, s@));
            }
            Some(t)
        },
        _ => None,
    }
}

impl OverlayMode {
    pub fn get_popup_title(&self) -> (r: String)
        ensures
            r@ == popup_title_spec(self@),
    {
        match self {
            OverlayMode::Rename { old_file } => String::from_str("Renaming '").concat(
                old_file.get_simple_name().as_str(),
            ).concat("'"),
            OverlayMode::DeleteInstantlyConfirm { file } => String::from_str("Deleting '").concat(
                file.get_simple_name().as_str(),
            ).concat("'"),
            OverlayMode::CreateDirectory => String::from_str("Creating a new directory"),
            OverlayMode::CreateFile => String::from_str("Creating a new file"),
        }
    }
}

impl Mode {
    /// The actions of this mode: the normal-mode table, or the text table with a `select`
    /// action that commits whatever the mode is about.
    pub fn get_action_map(&self) -> (r: ActionMapper)
        requires
            self@ != ModeView::Simple(SimpleMode::Quitting),
        ensures
            self@ is Simple ==> r == ActionMapper::StaticActionMap(ActionTable::Normal),
            !(self@ is Simple) ==> (r matches ActionMapper::StaticActionMapWithCallback(t, name, a)
                && t == ActionTable::TextInput && name@ == "select"@ && a == Action::Select),
    {
        match self {
            Mode::SimpleMode(_) => ActionMapper::StaticActionMap(ActionTable::Normal),
            _ => ActionMapper::new_dynamic(String::from_str("select"), Action::Select),
        }
    }

    pub fn is_text_mode(&self) -> (r: bool)
        ensures
            r == is_text_mode_spec(self@),
    {
        match self {
            Mode::SimpleMode(_) => false,
            Mode::OverlayMode { .. } | Mode::TextInputMode { .. } => true,
        }
    }

    /// Whether the browser is about to exit.
    pub fn is_quitting(&self) -> (r: bool)
        ensures
            r == (self@ == ModeView::Simple(SimpleMode::Quitting) || self@ matches ModeView::Overlay {
                background: SimpleMode::Quitting,
                ..
            }),
    {
        match self {
            Mode::SimpleMode(SimpleMode::Quitting) => true,
            Mode::OverlayMode { background_mode: SimpleMode::Quitting, .. } => true,
            _ => false,
        }
    }
}

impl TextInput {
    /// The prompt line of a text mode: `/` and the typed text, for a search.
    pub fn represent_text_line(&self, text_line: &str) -> (r: String)
        ensures
            r@ == seq!['/'] + text_line@,
    {
        proof {
            reveal_strlit("/");
        }
        match self {
            TextInput::Search => String::from_str("/").concat(text_line),
        }
    }
}

} // verus!
