use vstd::prelude::*;

verus! {

/// How an action ended: `Invalid` carries a message for the status line.
pub enum ActionResult {
    Valid,
    Invalid(String),
}

/// The named operations that bindings refer to.
#[derive(PartialEq, Eq, Structural, Clone, Copy, Debug)]
pub enum Action {
    Quit,
    NormalMode,
    SearchMode,
    Noop,
    Down,
    Up,
    Left,
    Right,
    GoToOrGoToBottom,
    GoToTop,
    Rename,
    TypeText,
    DeleteLastChar,
    Select,
}

/// The fixed action tables.
#[derive(PartialEq, Eq, Structural, Clone, Copy, Debug)]
pub enum ActionTable {
    Global,
    Normal,
    TextInput,
}

/// The action that a name denotes in a table.
pub open spec fn table_action(t: ActionTable, name: Seq<char>) -> Option<Action> {
    match t {
        ActionTable::Global => if name == "quit"@ {
            Some(Action::Quit)
        } else if name == "normal_mode"@ {
            Some(Action::NormalMode)
        } else if name == "search_mode"@ {
            Some(Action::SearchMode)
        } else {
            None
        },
        ActionTable::Normal => if name == "noop"@ {
            Some(Action::Noop)
        } else if name == "down"@ {
            Some(Action::Down)
        } else if name == "up"@ {
            Some(Action::Up)
        } else if name == "left"@ {
            Some(Action::Left)
        } else if name == "right"@ {
            Some(Action::Right)
        } else if name == "go_to_or_go_to_bottom"@ {
            Some(Action::GoToOrGoToBottom)
        } else if name == "go_to_top"@ {
            Some(Action::GoToTop)
        } else if name == "rename"@ {
            Some(Action::Rename)
        } else {
            None
        },
        ActionTable::TextInput => if name == "noop"@ {
            Some(Action::TypeText)
        } else if name == "delete_last_char"@ {
            Some(Action::DeleteLastChar)
        } else {
            None
        },
    }
}

fn is_name(s: &String, name: &str) -> (r: bool)
    ensures
        r == (s@ == name@),
{
    let n = String::from_str(name);
    *s == n
}

/// Looks a name up in one of the fixed tables.
pub fn find_in_table(t: ActionTable, name: &String) -> (r: Option<Action>)
    ensures
        r == table_action(t, name@),
{
    match t {
        ActionTable::Global => if is_name(name, "quit") {
            Some(Action::Quit)
        } else if is_name(name, "normal_mode") {
            Some(Action::NormalMode)
        } else if is_name(name, "search_mode") {
            Some(Action::SearchMode)
        } else {
            None
        },
        ActionTable::Normal => if is_name(name, "noop") {
            Some(Action::Noop)
        } else if is_name(name, "down") {
            Some(Action::Down)
        } else if is_name(name, "up") {
            Some(Action::Up)
        } else if is_name(name, "left") {
            Some(Action::Left)
        } else if is_name(name, "right") {
            Some(Action::Right)
        } else if is_name(name, "go_to_or_go_to_bottom") {
            Some(Action::GoToOrGoToBottom)
        } else if is_name(name, "go_to_top") {
            Some(Action::GoToTop)
        } else if is_name(name, "rename") {
            Some(Action::Rename)
        } else {
            None
        },
        ActionTable::TextInput => if is_name(name, "noop") {
            Some(Action::TypeText)
        } else if is_name(name, "delete_last_char") {
            Some(Action::DeleteLastChar)
        } else {
            None
        },
    }
}

/// A fixed table, possibly with one more action bound when a mode is entered.
pub enum ActionMapper {
    StaticActionMap(ActionTable),
    StaticActionMapWithCallback(ActionTable, String, Action),
}

/// What a mapper resolves a name to: the fixed table first, then the extra binding.
pub open spec fn mapper_action(m: ActionMapper, name: Seq<char>) -> Option<Action> {
    match m {
        ActionMapper::StaticActionMap(t) => table_action(t, name),
        ActionMapper::StaticActionMapWithCallback(t, extra, a) => match table_action(t, name) {
            Some(b) => Some(b),
            None => if name == extra@ {
                Some(a)
            } else {
                None
            },
        },
    }
}

impl ActionMapper {
    pub fn find_action(&self, search_term: &String) -> (r: Option<Action>)
        ensures
            r == mapper_action(*self, search_term@),
    {
        match self {
            ActionMapper::StaticActionMap(t) => find_in_table(*t, search_term),
            ActionMapper::StaticActionMapWithCallback(t, extra, a) => match find_in_table(
                *t,
                search_term,
            ) {
                Some(b) => Some(b),
                None => if *search_term == *extra {
                    Some(*a)
                } else {
                    None
                },
            },
        }
    }

    /// The text table with `action` bound to `name` as well.
    pub fn new_dynamic(name: String, action: Action) -> (r: Self)
        ensures
            r matches ActionMapper::StaticActionMapWithCallback(t, n, a) && t == ActionTable::TextInput
                && n@ == name@ && a == action,
    {
        ActionMapper::StaticActionMapWithCallback(ActionTable::TextInput, name, action)
    }
}

} // verus!
