//! The decisions of the terminal model manager: what each key press does to
//! the screen's state, and which effect it asks of the program around it.
use vstd::prelude::*;
use crate::cli::settings::{parse_i32, parse_i32_spec};
use crate::text::{
    char_len, is_ws, is_ws_exec, leading_ws, lemma_trim_start_shape, push_all, slice_chars,
    string_from_chars, to_chars, trim, trim_exec, trim_start, utf8_len,
};

verus! {

broadcast use vstd::string::group_string_axioms;

/// Which screen is shown.
#[derive(Debug, Clone, Copy, PartialEq, Eq, Structural)]
pub enum Screen {
    /// The model list and its settings.
    Manager,
    /// A chat with the loaded model.
    Chat,
}

/// Which pane of the manager has the focus.
#[derive(Debug, Clone, Copy, PartialEq, Eq, Structural)]
pub enum Focus {
    List,
    Settings,
}

/// What a confirmation dialog confirms.
#[derive(Debug, Clone, Copy, PartialEq, Eq, Structural)]
pub enum ConfirmAction {
    Remove,
}

/// What the keyboard is doing in the manager.
#[derive(Debug, Clone, Copy, PartialEq, Eq, Structural)]
pub enum Mode {
    Normal,
    /// Typing a new value for the selected setting.
    Editing,
    /// Typing the path of a model to import.
    ImportPath,
    /// Typing the name under which it is imported.
    ImportName,
    Confirm(ConfirmAction),
}

/// A key, as far as the manager tells keys apart.
#[derive(Debug, Clone, Copy, PartialEq, Eq, Structural)]
pub enum KeyInput {
    Char(char),
    Enter,
    Esc,
    Backspace,
    Tab,
    Up,
    Down,
    Left,
    Right,
    PageUp,
    PageDown,
    Other,
}

/// A key press with the modifiers the manager reads.
#[derive(Debug, Clone, Copy, PartialEq, Eq, Structural)]
pub struct KeyPress {
    pub key: KeyInput,
    pub ctrl: bool,
    pub shift: bool,
}

/// The number of settings shown for a model.
pub const FIELD_COUNT: usize = 5;

/// The state that key presses change.
pub struct TuiState {
    pub screen: Screen,
    pub focus: Focus,
    /// The selected setting (0 to `FIELD_COUNT - 1`).
    pub field_sel: usize,
    pub mode: Mode,
    pub edit_buf: String,
    pub import_path: String,
    pub chat_input: String,
    /// How many lines the chat is scrolled up from the bottom.
    pub chat_scroll: usize,
    /// The selected model in the list.
    pub selected: Option<usize>,
}

/// The state, with its texts as character sequences.
pub struct TuiView {
    pub screen: Screen,
    pub focus: Focus,
    pub field_sel: usize,
    pub mode: Mode,
    pub edit_buf: Seq<char>,
    pub import_path: Seq<char>,
    pub chat_input: Seq<char>,
    pub chat_scroll: usize,
    pub selected: Option<usize>,
}

impl View for TuiState {
    type V = TuiView;

    open spec fn view(&self) -> TuiView {
        TuiView {
            screen: self.screen,
            focus: self.focus,
            field_sel: self.field_sel,
            mode: self.mode,
            edit_buf: self.edit_buf@,
            import_path: self.import_path@,
            chat_input: self.chat_input@,
            chat_scroll: self.chat_scroll,
            selected: self.selected,
        }
    }
}

/// What the program is asked to do after a key press.
pub enum TuiAction {
    Nothing,
    Quit,
    /// Send this (trimmed, non-empty) message in the chat.
    SendChat(String),
    /// A model path was entered: propose a name for it in `edit_buf`.
    ProposeName,
    /// Register the model at `path` under `name`, then save.
    Import { name: String, path: String },
    /// Remove the model at this position of the list, then save.
    RemoveAt(usize),
    /// Set setting `field` from the typed `text`.
    CommitEdit { field: usize, text: String },
    /// Save the model list.
    Save,
    /// Step setting `field` down (`-1`) or up (`1`), finely when `fine`.
    StepField { field: usize, dir: i32, fine: bool },
    /// Load the selected model and open the chat.
    LoadSelected,
    /// Put the current value of setting `field` in `edit_buf` to be edited.
    BeginEdit(usize),
}

/// An action, with its texts as character sequences.
pub enum ActionView {
    Nothing,
    Quit,
    SendChat(Seq<char>),
    ProposeName,
    Import(Seq<char>, Seq<char>),
    RemoveAt(usize),
    CommitEdit(usize, Seq<char>),
    Save,
    StepField(usize, i32, bool),
    LoadSelected,
    BeginEdit(usize),
}

impl View for TuiAction {
    type V = ActionView;

    open spec fn view(&self) -> ActionView {
        match self {
            TuiAction::Nothing => ActionView::Nothing,
            TuiAction::Quit => ActionView::Quit,
            TuiAction::SendChat(s) => ActionView::SendChat(s@),
            TuiAction::ProposeName => ActionView::ProposeName,
            TuiAction::Import { name, path } => ActionView::Import(name@, path@),
            TuiAction::RemoveAt(i) => ActionView::RemoveAt(*i),
            TuiAction::CommitEdit { field, text } => ActionView::CommitEdit(*field, text@),
            TuiAction::Save => ActionView::Save,
            TuiAction::StepField { field, dir, fine } => ActionView::StepField(*field, *dir, *fine),
            TuiAction::LoadSelected => ActionView::LoadSelected,
            TuiAction::BeginEdit(f) => ActionView::BeginEdit(*f),
        }
    }
}

/// A text with its last character removed, if it has one.
pub open spec fn backspace(s: Seq<char>) -> Seq<char> {
    if s.len() > 0 {
        s.drop_last()
    } else {
        s
    }
}

/// What a key does on the chat screen.
pub open spec fn chat_step(v: TuiView, k: KeyPress) -> (TuiView, ActionView) {
    match k.key {
        KeyInput::Esc => (TuiView { screen: Screen::Manager, ..v }, ActionView::Nothing),
        KeyInput::Enter => if trim(v.chat_input).len() == 0 {
            (v, ActionView::Nothing)
        } else {
            (
                TuiView { chat_input: Seq::empty(), chat_scroll: 0, ..v },
                ActionView::SendChat(trim(v.chat_input)),
            )
        },
        KeyInput::Backspace => (
            TuiView { chat_input: backspace(v.chat_input), ..v },
            ActionView::Nothing,
        ),
        KeyInput::PageUp => (
            TuiView { chat_scroll: sat_add(v.chat_scroll, 5), ..v },
            ActionView::Nothing,
        ),
        KeyInput::PageDown => (
            TuiView { chat_scroll: sat_sub(v.chat_scroll, 5), ..v },
            ActionView::Nothing,
        ),
        KeyInput::Up => (TuiView { chat_scroll: sat_add(v.chat_scroll, 1), ..v }, ActionView::Nothing),
        KeyInput::Down => (
            TuiView { chat_scroll: sat_sub(v.chat_scroll, 1), ..v },
            ActionView::Nothing,
        ),
        KeyInput::Char(c) => if c == 'c' && k.ctrl {
            (v, ActionView::Quit)
        } else {
            (TuiView { chat_input: v.chat_input.push(c), ..v }, ActionView::Nothing)
        },
        _ => (v, ActionView::Nothing),
    }
}

/// `a + b`, stopping at `usize::MAX`.
pub open spec fn sat_add(a: usize, b: usize) -> usize {
    if a + b > usize::MAX {
        usize::MAX
    } else {
        (a + b) as usize
    }
}

/// `a - b`, stopping at 0.
pub open spec fn sat_sub(a: usize, b: usize) -> usize {
    if a < b {
        0
    } else {
        (a - b) as usize
    }
}

/// What a key does while a text is typed in a dialog (`Editing`,
/// `ImportPath` or `ImportName`).
pub open spec fn typing_step(v: TuiView, k: KeyPress) -> (TuiView, ActionView) {
    match k.key {
        KeyInput::Esc => (
            TuiView {
                mode: Mode::Normal,
                edit_buf: Seq::empty(),
                import_path: if v.mode == Mode::ImportName {
                    Seq::empty()
                } else {
                    v.import_path
                },
                ..v
            },
            ActionView::Nothing,
        ),
        KeyInput::Backspace => (TuiView { edit_buf: backspace(v.edit_buf), ..v }, ActionView::Nothing),
        KeyInput::Enter => if v.mode == Mode::Editing {
            (
                TuiView { mode: Mode::Normal, edit_buf: Seq::empty(), ..v },
                ActionView::CommitEdit(v.field_sel, v.edit_buf),
            )
        } else if v.edit_buf.len() == 0 {
            (v, ActionView::Nothing)
        } else if v.mode == Mode::ImportPath {
            (
                TuiView { mode: Mode::ImportName, import_path: v.edit_buf, ..v },
                ActionView::ProposeName,
            )
        } else {
            (
                TuiView {
                    mode: Mode::Normal,
                    edit_buf: Seq::empty(),
                    import_path: Seq::empty(),
                    ..v
                },
                ActionView::Import(v.edit_buf, v.import_path),
            )
        },
        KeyInput::Char(c) => (TuiView { edit_buf: v.edit_buf.push(c), ..v }, ActionView::Nothing),
        _ => (v, ActionView::Nothing),
    }
}

/// What a key does in the confirmation dialog.
pub open spec fn confirm_step(v: TuiView, k: KeyPress, names_len: usize) -> (TuiView, ActionView) {
    match k.key {
        KeyInput::Char(c) => if c == 'y' || c == 'Y' {
            (
                TuiView { mode: Mode::Normal, ..v },
                match v.selected {
                    Some(i) => if i < names_len {
                        ActionView::RemoveAt(i)
                    } else {
                        ActionView::Nothing
                    },
                    None => ActionView::Nothing,
                },
            )
        } else if c == 'n' || c == 'N' {
            (TuiView { mode: Mode::Normal, ..v }, ActionView::Nothing)
        } else {
            (v, ActionView::Nothing)
        },
        KeyInput::Esc => (TuiView { mode: Mode::Normal, ..v }, ActionView::Nothing),
        _ => (v, ActionView::Nothing),
    }
}

/// What a key does in the manager when no dialog is open. `names_len` is the
/// length of the model list, `has_entry` whether a model is selected.
pub open spec fn normal_step(v: TuiView, k: KeyPress, names_len: usize, has_entry: bool) -> (
    TuiView,
    ActionView,
) {
    let cur = match v.selected {
        Some(i) => i,
        None => 0,
    };
    match k.key {
        KeyInput::Char(c) if c == 'q' || c == 'Q' => (v, ActionView::Quit),
        KeyInput::Char(c) if c == 'c' && k.ctrl => (v, ActionView::Quit),
        KeyInput::Tab => (
            TuiView {
                focus: if v.focus == Focus::List {
                    Focus::Settings
                } else {
                    Focus::List
                },
                ..v
            },
            ActionView::Nothing,
        ),
        KeyInput::Char(c) if c == 'i' || c == 'I' => (
            TuiView { edit_buf: Seq::empty(), mode: Mode::ImportPath, ..v },
            ActionView::Nothing,
        ),
        KeyInput::Char(c) if c == 's' || c == 'S' => (v, ActionView::Save),
        KeyInput::Char(c) if c == 'd' || c == 'D' => if has_entry {
            (TuiView { mode: Mode::Confirm(ConfirmAction::Remove), ..v }, ActionView::Nothing)
        } else {
            (v, ActionView::Nothing)
        },
        KeyInput::Up if v.focus == Focus::List => list_up(v, cur),
        KeyInput::Char(c) if c == 'k' && v.focus == Focus::List => list_up(v, cur),
        KeyInput::Down if v.focus == Focus::List => list_down(v, cur, names_len),
        KeyInput::Char(c) if c == 'j' && v.focus == Focus::List => list_down(v, cur, names_len),
        KeyInput::Enter if v.focus == Focus::List => (v, ActionView::LoadSelected),
        KeyInput::Up => field_up(v),
        KeyInput::Char(c) if c == 'k' => field_up(v),
        KeyInput::Down => field_down(v),
        KeyInput::Char(c) if c == 'j' => field_down(v),
        KeyInput::Left if v.focus == Focus::Settings => (
            v,
            ActionView::StepField(v.field_sel, -1i32, k.shift),
        ),
        KeyInput::Right if v.focus == Focus::Settings => (
            v,
            ActionView::StepField(v.field_sel, 1i32, k.shift),
        ),
        KeyInput::Enter => if has_entry {
            (TuiView { mode: Mode::Editing, ..v }, ActionView::BeginEdit(v.field_sel))
        } else {
            (v, ActionView::Nothing)
        },
        _ => (v, ActionView::Nothing),
    }
}

/// Moves the list selection up from `cur`, if it can move.
pub open spec fn list_up(v: TuiView, cur: usize) -> (TuiView, ActionView) {
    if cur > 0 {
        (TuiView { selected: Some((cur - 1) as usize), ..v }, ActionView::Nothing)
    } else {
        (v, ActionView::Nothing)
    }
}

/// Moves the list selection down from `cur`, if it can move.
pub open spec fn list_down(v: TuiView, cur: usize, names_len: usize) -> (TuiView, ActionView) {
    if cur + 1 < names_len {
        (TuiView { selected: Some((cur + 1) as usize), ..v }, ActionView::Nothing)
    } else {
        (v, ActionView::Nothing)
    }
}

/// Selects the setting above, if there is one.
pub open spec fn field_up(v: TuiView) -> (TuiView, ActionView) {
    if v.field_sel > 0 {
        (TuiView { field_sel: (v.field_sel - 1) as usize, ..v }, ActionView::Nothing)
    } else {
        (v, ActionView::Nothing)
    }
}

/// Selects the setting below, if there is one.
pub open spec fn field_down(v: TuiView) -> (TuiView, ActionView) {
    if v.field_sel + 1 < FIELD_COUNT {
        (TuiView { field_sel: (v.field_sel + 1) as usize, ..v }, ActionView::Nothing)
    } else {
        (v, ActionView::Nothing)
    }
}

/// What a key press does (see the steps above): the chat screen first, then
/// the open dialog, then the manager.
pub open spec fn tui_step(v: TuiView, k: KeyPress, names_len: usize, has_entry: bool) -> (
    TuiView,
    ActionView,
) {
    if v.screen == Screen::Chat {
        chat_step(v, k)
    } else if v.mode == Mode::ImportPath || v.mode == Mode::ImportName || v.mode == Mode::Editing {
        typing_step(v, k)
    } else if v.mode is Confirm {
        confirm_step(v, k, names_len)
    } else {
        normal_step(v, k, names_len, has_entry)
    }
}

impl TuiState {
    /// The manager as it opens, with the first model selected if there is one.
    pub fn new(names_len: usize) -> (s: Self)
        ensures
            s@.screen == Screen::Manager,
            s@.focus == Focus::List,
            s@.field_sel == 0,
            s@.mode == Mode::Normal,
            s@.edit_buf.len() == 0,
            s@.import_path.len() == 0,
            s@.chat_input.len() == 0,
            s@.chat_scroll == 0,
            s@.selected == (if names_len > 0 { Some(0usize) } else { None }),
    {
        TuiState {
            screen: Screen::Manager,
            focus: Focus::List,
            field_sel: 0,
            mode: Mode::Normal,
            edit_buf: String::new(),
            import_path: String::new(),
            chat_input: String::new(),
            chat_scroll: 0,
            selected: if names_len > 0 { Some(0) } else { None },
        }
    }
}

/// `s` with `c` appended.
fn push_char(s: &String, c: char) -> (r: String)
    ensures
        r@ == s@.push(c),
{
    let mut v = to_chars(s.as_str());
    v.push(c);
    string_from_chars(&v)
}

/// `s` without its last character.
fn pop_char(s: &String) -> (r: String)
    ensures
        r@ == backspace(s@),
{
    let mut v = to_chars(s.as_str());
    if v.len() > 0 {
        v.pop();
    }
    string_from_chars(&v)
}

/// Handles a key press (see `tui_step`). `names_len` is the length of the
/// model list and `has_entry` whether a model is selected.
pub fn handle_key(state: &mut TuiState, k: KeyPress, names_len: usize, has_entry: bool) -> (r:
    TuiAction)
    ensures
        (final(state)@, r@) == tui_step(old(state)@, k, names_len, has_entry),
{
    if state.screen == Screen::Chat {
        match k.key {
            KeyInput::Esc => {
                state.screen = Screen::Manager;
            },
            KeyInput::Enter => {
                let t = trim_exec(&to_chars(state.chat_input.as_str()));
                if t.len() == 0 {
                    return TuiAction::Nothing;
                }
                state.chat_input = String::new();
                state.chat_scroll = 0;
                return TuiAction::SendChat(string_from_chars(&t));
            },
            KeyInput::Backspace => {
                state.chat_input = pop_char(&state.chat_input);
            },
            KeyInput::PageUp => {
                state.chat_scroll = state.chat_scroll.saturating_add(5);
            },
            KeyInput::PageDown => {
                state.chat_scroll = state.chat_scroll.saturating_sub(5);
            },
            KeyInput::Up => {
                state.chat_scroll = state.chat_scroll.saturating_add(1);
            },
            KeyInput::Down => {
                state.chat_scroll = state.chat_scroll.saturating_sub(1);
            },
            KeyInput::Char(c) => {
                if c == 'c' && k.ctrl {
                    return TuiAction::Quit;
                }
                state.chat_input = push_char(&state.chat_input, c);
            },
            _ => {},
        }
        return TuiAction::Nothing;
    }
    if state.mode == Mode::ImportPath || state.mode == Mode::ImportName || state.mode
        == Mode::Editing {
        match k.key {
            KeyInput::Esc => {
                if state.mode == Mode::ImportName {
                    state.import_path = String::new();
                }
                state.mode = Mode::Normal;
                state.edit_buf = String::new();
            },
            KeyInput::Backspace => {
                state.edit_buf = pop_char(&state.edit_buf);
            },
            KeyInput::Enter => {
                if state.mode == Mode::Editing {
                    let text = state.edit_buf.clone();
                    state.mode = Mode::Normal;
                    state.edit_buf = String::new();
                    return TuiAction::CommitEdit { field: state.field_sel, text };
                }
                if state.edit_buf.as_str().is_empty() {
                    return TuiAction::Nothing;
                }
                if state.mode == Mode::ImportPath {
                    state.import_path = state.edit_buf.clone();
                    state.mode = Mode::ImportName;
                    return TuiAction::ProposeName;
                }
                let name = state.edit_buf.clone();
                let path = state.import_path.clone();
                state.mode = Mode::Normal;
                state.edit_buf = String::new();
                state.import_path = String::new();
                return TuiAction::Import { name, path };
            },
            KeyInput::Char(c) => {
                state.edit_buf = push_char(&state.edit_buf, c);
            },
            _ => {},
        }
        return TuiAction::Nothing;
    }
    if let Mode::Confirm(_) = state.mode {
        match k.key {
            KeyInput::Char(c) => {
                if c == 'y' || c == 'Y' {
                    state.mode = Mode::Normal;
                    if let Some(i) = state.selected {
                        if i < names_len {
                            return TuiAction::RemoveAt(i);
                        }
                    }
                    return TuiAction::Nothing;
                }
                if c == 'n' || c == 'N' {
                    state.mode = Mode::Normal;
                }
            },
            KeyInput::Esc => {
                state.mode = Mode::Normal;
            },
            _ => {},
        }
        return TuiAction::Nothing;
    }
    let cur: usize = match state.selected {
        Some(i) => i,
        None => 0,
    };
    let list = state.focus == Focus::List;
    match k.key {
        KeyInput::Char(c) => {
            if c == 'q' || c == 'Q' {
                return TuiAction::Quit;
            }
            if c == 'c' && k.ctrl {
                return TuiAction::Quit;
            }
            if c == 'i' || c == 'I' {
                state.edit_buf = String::new();
                state.mode = Mode::ImportPath;
                return TuiAction::Nothing;
            }
            if c == 's' || c == 'S' {
                return TuiAction::Save;
            }
            if c == 'd' || c == 'D' {
                if has_entry {
                    state.mode = Mode::Confirm(ConfirmAction::Remove);
                }
                return TuiAction::Nothing;
            }
            if c == 'k' {
                if list {
                    if cur > 0 {
                        state.selected = Some(cur - 1);
                    }
                } else if state.field_sel > 0 {
                    state.field_sel = state.field_sel - 1;
                }
                return TuiAction::Nothing;
            }
            if c == 'j' {
                if list {
                    if cur < names_len && cur + 1 < names_len {
                        state.selected = Some(cur + 1);
                    }
                } else if state.field_sel < FIELD_COUNT && state.field_sel + 1 < FIELD_COUNT {
                    state.field_sel = state.field_sel + 1;
                }
                return TuiAction::Nothing;
            }
            TuiAction::Nothing
        },
        KeyInput::Tab => {
            state.focus = if list {
                Focus::Settings
            } else {
                Focus::List
            };
            TuiAction::Nothing
        },
        KeyInput::Up => {
            if list {
                if cur > 0 {
                    state.selected = Some(cur - 1);
                }
            } else if state.field_sel > 0 {
                state.field_sel = state.field_sel - 1;
            }
            TuiAction::Nothing
        },
        KeyInput::Down => {
            if list {
                if cur < names_len && cur + 1 < names_len {
                    state.selected = Some(cur + 1);
                }
            } else if state.field_sel < FIELD_COUNT && state.field_sel + 1 < FIELD_COUNT {
                state.field_sel = state.field_sel + 1;
            }
            TuiAction::Nothing
        },
        KeyInput::Enter => {
            if list {
                return TuiAction::LoadSelected;
            }
            if has_entry {
                state.mode = Mode::Editing;
                return TuiAction::BeginEdit(state.field_sel);
            }
            TuiAction::Nothing
        },
        KeyInput::Left => {
            if list {
                return TuiAction::Nothing;
            }
            TuiAction::StepField { field: state.field_sel, dir: -1, fine: k.shift }
        },
        KeyInput::Right => {
            if list {
                return TuiAction::Nothing;
            }
            TuiAction::StepField { field: state.field_sel, dir: 1, fine: k.shift }
        },
        _ => TuiAction::Nothing,
    }
}

// ---------------------------------------------------------------------------
// Settings
// ---------------------------------------------------------------------------

/// What kind of value a setting holds.
#[derive(Debug, Clone, Copy, PartialEq, Eq, Structural)]
pub enum FieldKind {
    Int,
    Float,
    Str,
}

/// The kind of each setting: GPU layers, context size, temperature, max
/// tokens, system prompt.
pub open spec fn field_kind_spec(field: usize) -> FieldKind {
    if field == 0 || field == 1 || field == 3 {
        FieldKind::Int
    } else if field == 2 {
        FieldKind::Float
    } else {
        FieldKind::Str
    }
}

/// The kind of setting `field`.
pub fn field_kind(field: usize) -> (k: FieldKind)
    ensures
        k == field_kind_spec(field),
{
    if field == 0 || field == 1 || field == 3 {
        FieldKind::Int
    } else if field == 2 {
        FieldKind::Float
    } else {
        FieldKind::Str
    }
}

/// The lowest value an integer setting takes.
pub open spec fn int_min(field: usize) -> i32 {
    if field == 1 {
        128
    } else if field == 3 {
        16
    } else {
        0
    }
}

/// The highest value an integer setting takes.
pub open spec fn int_max(field: usize) -> i32 {
    if field == 0 {
        999
    } else if field == 1 {
        131072
    } else if field == 3 {
        32768
    } else {
        0
    }
}

/// The value an integer setting has when the model's entry sets none: all
/// layers on the GPU (999), a 2048-token context, 512 tokens per reply.
pub open spec fn int_default(field: usize) -> i32 {
    if field == 0 {
        999
    } else if field == 1 {
        2048
    } else if field == 3 {
        512
    } else {
        0
    }
}

/// The value shown for integer setting `field`: the one stored, else its
/// default.
pub fn int_field_value(field: usize, stored: Option<i32>) -> (r: i32)
    ensures
        r == (match stored {
            Some(v) => v,
            None => int_default(field),
        }),
{
    match stored {
        Some(v) => v,
        None => if field == 0 {
            999
        } else if field == 1 {
            2048
        } else if field == 3 {
            512
        } else {
            0
        },
    }
}

/// How far one step moves an integer setting: coarse, or fine with Shift.
pub open spec fn int_step(field: usize, fine: bool) -> i32 {
    if field == 0 {
        if fine { 1 } else { 10 }
    } else if field == 1 {
        if fine { 128 } else { 256 }
    } else if field == 3 {
        if fine { 16 } else { 128 }
    } else {
        1
    }
}

/// `v` brought within `lo..=hi`.
pub open spec fn clamp(v: int, lo: int, hi: int) -> int {
    if v < lo {
        lo
    } else if v > hi {
        hi
    } else {
        v
    }
}

/// How far one step moves integer setting `field`.
pub fn field_step(field: usize, fine: bool) -> (r: i32)
    ensures
        r == int_step(field, fine),
{
    if field == 0 {
        if fine { 1 } else { 10 }
    } else if field == 1 {
        if fine { 128 } else { 256 }
    } else if field == 3 {
        if fine { 16 } else { 128 }
    } else {
        1
    }
}

/// The bounds of setting `field`.
fn int_bounds(field: usize) -> (r: (i32, i32))
    ensures
        r == (int_min(field), int_max(field)),
{
    if field == 0 {
        (0, 999)
    } else if field == 1 {
        (128, 131072)
    } else if field == 3 {
        (16, 32768)
    } else {
        (0, 0)
    }
}

/// An integer setting moved one step down (`dir == -1`) or up (`dir == 1`)
/// from `cur`, and kept within its bounds.
pub fn step_int_field(field: usize, cur: i32, dir: i32, fine: bool) -> (r: i32)
    requires
        dir == 1 || dir == -1,
        i32::MIN <= cur + dir * int_step(field, fine) <= i32::MAX,
    ensures
        r == clamp(cur + dir * int_step(field, fine), int_min(field) as int, int_max(field) as int),
{
    let step = field_step(field, fine);
    let (lo, hi) = int_bounds(field);
    let v = if dir == 1 { cur + step } else { cur - step };
    if v < lo {
        lo
    } else if v > hi {
        hi
    } else {
        v
    }
}

/// A typed integer setting: read as an `i32` and kept within the bounds;
/// `None` when the text is not an integer.
pub fn commit_int_field(field: usize, text: &str) -> (r: Option<i32>)
    ensures
        r == (match parse_i32_spec(text@) {
            Some(v) => Some(clamp(v as int, int_min(field) as int, int_max(field) as int) as i32),
            None => None,
        }),
{
    let (lo, hi) = int_bounds(field);
    match parse_i32(text) {
        Some(v) => Some(
            if v < lo {
                lo
            } else if v > hi {
                hi
            } else {
                v
            },
        ),
        None => None,
    }
}

// ---------------------------------------------------------------------------
// The model list
// ---------------------------------------------------------------------------

/// The first position of `name` in `names`.
pub fn position_of(names: &[String], name: &str) -> (r: Option<usize>)
    ensures
        r matches Some(i) ==> i < names@.len() && names@[i as int]@ == name@ && forall|j: int|
            0 <= j < i ==> names@[j]@ != name@,
        r is None ==> forall|j: int| 0 <= j < names@.len() ==> names@[j]@ != name@,
{
    let mut i: usize = 0;
    while i < names.len()
        invariant
            i <= names@.len(),
            forall|j: int| 0 <= j < i ==> names@[j]@ != name@,
        decreases names@.len() - i,
    {
        if crate::text::text_eq(names[i].as_str(), name) {
            return Some(i);
        }
        i = i + 1;
    }
    None
}

/// Which model is selected once the list has been rebuilt: the one
/// selected before if it is still there, else the first; none in an empty list.
pub fn reselect(names: &[String], previous: Option<&String>) -> (r: Option<usize>)
    ensures
        names@.len() == 0 ==> r is None,
        names@.len() > 0 ==> (r matches Some(i) && i < names@.len()),
        (names@.len() > 0 && previous is Some && exists|j: int|
            0 <= j < names@.len() && names@[j]@ == previous->0@) ==> (r matches Some(i)
            && names@[i as int]@ == previous->0@ && forall|j: int|
            0 <= j < i ==> names@[j]@ != previous->0@),
        (names@.len() > 0 && (previous is None || forall|j: int|
            0 <= j < names@.len() ==> names@[j]@ != previous->0@)) ==> r == Some(0usize),
{
    if names.len() == 0 {
        return None;
    }
    let idx = match previous {
        Some(p) => match position_of(names, p.as_str()) {
            Some(i) => i,
            None => 0,
        },
        None => 0,
    };
    Some(if idx < names.len() - 1 { idx } else { names.len() - 1 })
}

// ---------------------------------------------------------------------------
// The chat view
// ---------------------------------------------------------------------------

/// The first of `total` lines shown in a window of `visible` lines that is
/// scrolled `scroll` lines up from the bottom (never above the top).
pub fn chat_view_start(total: usize, visible: usize, scroll: usize) -> (r: usize)
    ensures
        r == sat_sub(sat_sub(total, visible), if scroll < sat_sub(total, visible) {
            scroll
        } else {
            sat_sub(total, visible)
        }),
{
    let top = total.saturating_sub(visible);
    let off = if scroll < top { scroll } else { top };
    top.saturating_sub(off)
}

// ---------------------------------------------------------------------------
// Laws
// ---------------------------------------------------------------------------

/// Law: a key press never moves the list selection out of the list, and
/// never selects a setting that does not exist.
pub proof fn law_selection_stays_in_range(v: TuiView, k: KeyPress, names_len: usize, has_entry: bool)
    requires
        v.selected matches Some(i) ==> i < names_len,
        v.field_sel < FIELD_COUNT,
    ensures
        tui_step(v, k, names_len, has_entry).0.selected matches Some(i) ==> i < names_len,
        tui_step(v, k, names_len, has_entry).0.field_sel < FIELD_COUNT,
{
}

/// Law: Esc always closes a dialog of the manager, and the typed text is dropped.
pub proof fn law_escape_closes_dialogs(v: TuiView, ctrl: bool, shift: bool, names_len: usize, has_entry: bool)
    requires
        v.screen == Screen::Manager,
        v.mode != Mode::Normal,
    ensures
        ({
            let r = tui_step(v, KeyPress { key: KeyInput::Esc, ctrl, shift }, names_len, has_entry);
            &&& r.0.mode == Mode::Normal
            &&& r.1 is Nothing
            &&& v.mode != Mode::Confirm(ConfirmAction::Remove) ==> r.0.edit_buf.len() == 0
        }),
{
}

/// Law: typing in a dialog or in the chat never quits; only `q` in the
/// manager, or Ctrl+C, does.
pub proof fn law_quit_keys(v: TuiView, k: KeyPress, names_len: usize, has_entry: bool)
    ensures
        tui_step(v, k, names_len, has_entry).1 is Quit ==> (k.key == KeyInput::Char('c') && k.ctrl)
            || (v.screen == Screen::Manager && v.mode == Mode::Normal && (k.key == KeyInput::Char(
            'q',
        ) || k.key == KeyInput::Char('Q'))),
{
}

/// Law: in the manager's settings pane, Right asks for a step up and Left
/// for a step down of the selected setting, finely with Shift, and the
/// screen's state stays as it is.
pub proof fn law_arrows_step_the_selected_setting(
    v: TuiView,
    ctrl: bool,
    shift: bool,
    names_len: usize,
    has_entry: bool,
)
    requires
        v.screen == Screen::Manager,
        v.mode == Mode::Normal,
        v.focus == Focus::Settings,
    ensures
        tui_step(v, KeyPress { key: KeyInput::Right, ctrl, shift }, names_len, has_entry) == (
            v,
            ActionView::StepField(v.field_sel, 1i32, shift),
        ),
        tui_step(v, KeyPress { key: KeyInput::Left, ctrl, shift }, names_len, has_entry) == (
            v,
            ActionView::StepField(v.field_sel, -1i32, shift),
        ),
{
}

/// Law: a step up never lowers an integer setting and a step down never
/// raises it; from within its bounds, a step up moves it up by its step, or
/// to its highest value, and a step down moves it down by its step, or to
/// its lowest value.
pub proof fn law_step_direction(field: usize, cur: i32, fine: bool)
    requires
        field_kind_spec(field) == FieldKind::Int,
        int_min(field) <= cur <= int_max(field),
    ensures
        ({
            let up = clamp(cur + int_step(field, fine), int_min(field) as int, int_max(field) as int);
            let down = clamp(cur - int_step(field, fine), int_min(field) as int, int_max(field) as int);
            &&& cur <= up && (up == cur + int_step(field, fine) || up == int_max(field))
            &&& down <= cur && (down == cur - int_step(field, fine) || down == int_min(field))
            &&& cur < int_max(field) ==> cur < up
            &&& cur > int_min(field) ==> down < cur
        }),
{
}

// ---------------------------------------------------------------------------
// Wrapping chat messages
// ---------------------------------------------------------------------------

/// How many characters the first word of `t` has: its longest prefix
/// without white space.
pub open spec fn first_word_len(t: Seq<char>) -> nat
    decreases t.len(),
{
    if t.len() > 0 && !is_ws(t[0]) {
        1 + first_word_len(t.drop_first())
    } else {
        0
    }
}

/// The first word is a non-empty run of non-space characters when `t` does not begin with white space.
pub proof fn lemma_first_word_len(t: Seq<char>)
    ensures
        first_word_len(t) <= t.len(),
        t.len() > 0 && !is_ws(t[0]) ==> first_word_len(t) >= 1,
        forall|j: int| 0 <= j < first_word_len(t) ==> !is_ws(#[trigger] t[j]),
        first_word_len(t) < t.len() ==> is_ws(t[first_word_len(t) as int]),
    decreases t.len(),
{
    if t.len() > 0 && !is_ws(t[0]) {
        lemma_first_word_len(t.drop_first());
        assert forall|j: int| 0 <= j < first_word_len(t) implies !is_ws(#[trigger] t[j]) by {
            if j > 0 {
                assert(t[j] == t.drop_first()[j - 1]);
            }
        }
    }
}

/// The words of `s`, as `str::split_whitespace` gives them.
pub open spec fn words(s: Seq<char>) -> Seq<Seq<char>>
    decreases s.len(),
{
    let t = trim_start(s);
    if t.len() == 0 {
        Seq::empty()
    } else {
        proof {
            lemma_trim_start_shape(s);
            lemma_first_word_len(t);
        }
        let n = first_word_len(t);
        seq![t.take(n as int)] + words(t.skip(n as int))
    }
}

/// The lines that `ws` fill, after the line `cur` begun so far: a word joins
/// the line after a space while the line stays within `max_w` bytes; a word
/// that begins a line stands there whatever its length.
pub open spec fn wrap_lines(ws: Seq<Seq<char>>, max_w: int, cur: Seq<char>) -> Seq<Seq<char>>
    decreases ws.len(),
{
    if ws.len() == 0 {
        if cur.len() > 0 {
            seq![cur]
        } else {
            Seq::empty()
        }
    } else if cur.len() == 0 {
        wrap_lines(ws.drop_first(), max_w, ws[0])
    } else if utf8_len(cur) + 1 + utf8_len(ws[0]) <= max_w {
        wrap_lines(ws.drop_first(), max_w, cur + " "@ + ws[0])
    } else {
        seq![cur] + wrap_lines(ws.drop_first(), max_w, ws[0])
    }
}

/// The lines of a chat message shown `max_w` bytes wide.
pub open spec fn wrapped(s: Seq<char>, max_w: int) -> Seq<Seq<char>> {
    wrap_lines(words(s), max_w, Seq::empty())
}

proof fn lemma_utf8_len_concat(a: Seq<char>, b: Seq<char>)
    ensures
        utf8_len(a + b) == utf8_len(a) + utf8_len(b),
    decreases b.len(),
{
    if b.len() == 0 {
        assert(a + b =~= a);
    } else {
        lemma_utf8_len_concat(a, b.drop_last());
        assert((a + b).drop_last() =~= a + b.drop_last());
    }
}

/// How many bytes `s` takes in UTF-8.
fn utf8_len_exec(s: &[char]) -> (n: u128)
    ensures
        n == utf8_len(s@),
{
    let mut n: u128 = 0;
    let mut i: usize = 0;
    while i < s.len()
        invariant
            i <= s@.len(),
            n == utf8_len(s@.take(i as int)),
            n <= 4 * i,
        decreases s@.len() - i,
    {
        assert(s@.take(i + 1).drop_last() =~= s@.take(i as int));
        n = n + char_len(s[i]) as u128;
        i = i + 1;
    }
    assert(s@.take(s@.len() as int) =~= s@);
    n
}

/// The words of `s` (see `words`).
fn split_words(s: &[char]) -> (r: Vec<Vec<char>>)
    ensures
        r@.map_values(|w: Vec<char>| w@) == words(s@),
{
    let mut out: Vec<Vec<char>> = Vec::new();
    let mut i: usize = 0;
    assert(s@.skip(0) =~= s@);
    loop
        invariant
            i <= s@.len(),
            out@.map_values(|w: Vec<char>| w@) + words(s@.skip(i as int)) == words(s@),
        decreases s@.len() - i,
    {
        let rest = slice_chars(s, i, s.len());
        assert(rest@ == s@.skip(i as int));
        let k = leading_ws(&rest);
        if k == rest.len() {
            proof {
                assert(trim_start(rest@).len() == 0);
                assert(words(rest@) =~= Seq::<Seq<char>>::empty());
                assert(out@.map_values(|w: Vec<char>| w@) + words(s@.skip(i as int)) =~= out@.map_values(
                    |w: Vec<char>| w@,
                ));
            }
            return out;
        }
        let mut n: usize = 0;
        let rlen = rest.len();
        while k + n < rlen && !is_ws_exec(rest[k + n])
            invariant
                rlen == rest@.len(),
                k < rest@.len(),
                k + n <= rest@.len(),
                forall|j: int| k <= j < k + n ==> !is_ws(rest@[j]),
            decreases rest@.len() - k - n,
        {
            n = n + 1;
        }
        let ghost t = rest@.skip(k as int);
        proof {
            lemma_trim_start_shape(rest@);
            lemma_first_word_len(t);
            assert(t.len() > 0);
            lemma_first_word_exact(t, n as int);
        }
        let word = slice_chars(&rest, k, k + n);
        assert(word@ =~= t.take(n as int));
        let ghost before = out@;
        out.push(word);
        proof {
            assert(t.skip(n as int) =~= s@.skip(i + k + n));
            assert(words(rest@) == seq![t.take(n as int)] + words(t.skip(n as int)));
            assert(out@.map_values(|w: Vec<char>| w@) =~= before.map_values(|w: Vec<char>| w@).push(
                t.take(n as int),
            ));
            assert(out@.map_values(|w: Vec<char>| w@) + words(s@.skip(i + k + n)) =~= before.map_values(
                |w: Vec<char>| w@,
            ) + words(rest@));
        }
        i = i + k + n;
    }
}

proof fn lemma_first_word_exact(t: Seq<char>, n: int)
    requires
        0 <= n <= t.len(),
        forall|j: int| 0 <= j < n ==> !is_ws(t[j]),
        n == t.len() || is_ws(t[n]),
    ensures
        first_word_len(t) == n,
    decreases n,
{
    if n > 0 {
        lemma_first_word_exact(t.drop_first(), n - 1);
    }
}

/// Wraps a chat message into lines at most `max_w` bytes wide, word by word
/// (a single word longer than that stands on a line of its own).
pub fn wrap_words(content: &str, max_w: usize) -> (r: Vec<String>)
    ensures
        r@.map_values(|l: String| l@) == wrapped(content@, max_w as int),
{
    let ws = split_words(&to_chars(content));
    let ghost wv = ws@.map_values(|w: Vec<char>| w@);
    let mut out: Vec<String> = Vec::new();
    let mut cur: Vec<char> = Vec::new();
    let mut cur_bytes: u128 = 0;
    let mut j: usize = 0;
    assert(wv.skip(0) =~= wv);
    while j < ws.len()
        invariant
            j <= ws@.len(),
            wv == ws@.map_values(|w: Vec<char>| w@),
            cur_bytes == utf8_len(cur@),
            out@.map_values(|l: String| l@) + wrap_lines(wv.skip(j as int), max_w as int, cur@)
                == wrap_lines(wv, max_w as int, Seq::empty()),
        decreases ws@.len() - j,
    {
        let w = &ws[j];
        let wb = utf8_len_exec(w);
        let ghost rest = wv.skip(j as int);
        assert(rest[0] == w@);
        assert(rest.drop_first() =~= wv.skip(j + 1));
        if cur.len() == 0 {
            proof {
                assert(cur@ =~= Seq::<char>::empty());
                assert(wrap_lines(rest, max_w as int, cur@) == wrap_lines(
                    rest.drop_first(),
                    max_w as int,
                    w@,
                ));
            }
            cur = slice_chars(w, 0, w.len());
            assert(cur@ =~= w@);
            cur_bytes = wb;
        } else if wb <= max_w as u128 && cur_bytes < max_w as u128 - wb {
            let ghost old_cur = cur@;
            cur.push(' ');
            push_all(&mut cur, w);
            proof {
                reveal_strlit(" ");
                assert(cur@ =~= old_cur + " "@ + w@);
                lemma_utf8_len_concat(old_cur, " "@);
                lemma_utf8_len_concat(old_cur + " "@, w@);
                assert(" "@.drop_last() =~= Seq::<char>::empty());
                assert(utf8_len(Seq::<char>::empty()) == 0);
                assert(utf8_len(" "@) == 1);
                assert(wrap_lines(rest, max_w as int, old_cur) == wrap_lines(
                    rest.drop_first(),
                    max_w as int,
                    old_cur + " "@ + w@,
                ));
            }
            cur_bytes = cur_bytes + 1 + wb;
        } else {
            let ghost before = out@;
            let line = string_from_chars(&cur);
            out.push(line);
            proof {
                assert(out@.map_values(|l: String| l@) =~= before.map_values(|l: String| l@).push(
                    cur@,
                ));
                assert(seq![cur@] + wrap_lines(wv.skip(j + 1), max_w as int, w@) =~= seq![cur@]
                    + wrap_lines(wv.skip(j + 1), max_w as int, w@));
                assert(before.map_values(|l: String| l@) + (seq![cur@] + wrap_lines(
                    wv.skip(j + 1),
                    max_w as int,
                    w@,
                )) =~= out@.map_values(|l: String| l@) + wrap_lines(wv.skip(j + 1), max_w as int, w@));
            }
            cur = slice_chars(w, 0, w.len());
            assert(cur@ =~= w@);
            cur_bytes = wb;
        }
        j = j + 1;
    }
    if cur.len() > 0 {
        let ghost before = out@;
        out.push(string_from_chars(&cur));
        assert(out@.map_values(|l: String| l@) =~= before.map_values(|l: String| l@) + seq![cur@]);
    } else {
        assert(out@.map_values(|l: String| l@) + Seq::<Seq<char>>::empty() =~= out@.map_values(
            |l: String| l@,
        ));
    }
    out
}

/// `w` is a word: not empty, and without white space.
pub open spec fn is_word(w: Seq<char>) -> bool {
    w.len() > 0 && forall|j: int| 0 <= j < w.len() ==> !is_ws(#[trigger] w[j])
}

/// Every item of `words(s)` is a word.
proof fn lemma_words_are_words(s: Seq<char>)
    ensures
        forall|i: int| 0 <= i < words(s).len() ==> is_word(#[trigger] words(s)[i]),
    decreases s.len(),
{
    let t = trim_start(s);
    if t.len() > 0 {
        lemma_trim_start_shape(s);
        lemma_first_word_len(t);
        let n = first_word_len(t);
        lemma_words_are_words(t.skip(n as int));
        let ws = words(s);
        assert(ws == seq![t.take(n as int)] + words(t.skip(n as int)));
        assert forall|i: int| 0 <= i < ws.len() implies is_word(#[trigger] ws[i]) by {
            if i == 0 {
                assert(ws[0] == t.take(n as int));
                assert forall|j: int| 0 <= j < ws[0].len() implies !is_ws(#[trigger] ws[0][j]) by {
                    assert(ws[0][j] == t[j]);
                }
            } else {
                assert(ws[i] == words(t.skip(n as int))[i - 1]);
            }
        }
    }
}

/// A line that either fits in `max_w` bytes or is a single word.
pub open spec fn fits_or_word(l: Seq<char>, max_w: int) -> bool {
    utf8_len(l) <= max_w || is_word(l)
}

proof fn lemma_wrap_lines_fit(ws: Seq<Seq<char>>, max_w: int, cur: Seq<char>)
    requires
        forall|i: int| 0 <= i < ws.len() ==> is_word(#[trigger] ws[i]),
        cur.len() == 0 || fits_or_word(cur, max_w),
    ensures
        forall|i: int| 0 <= i < wrap_lines(ws, max_w, cur).len() ==> fits_or_word(
            #[trigger] wrap_lines(ws, max_w, cur)[i],
            max_w,
        ),
    decreases ws.len(),
{
    if ws.len() == 0 {
        if cur.len() > 0 {
            assert(wrap_lines(ws, max_w, cur) =~= seq![cur]);
        } else {
            assert(wrap_lines(ws, max_w, cur) =~= Seq::<Seq<char>>::empty());
        }
    } else {
        let rest = ws.drop_first();
        assert forall|i: int| 0 <= i < rest.len() implies is_word(#[trigger] rest[i]) by {
            assert(rest[i] == ws[i + 1]);
        }
        assert(is_word(ws[0]));
        if cur.len() == 0 {
            lemma_wrap_lines_fit(rest, max_w, ws[0]);
            assert(wrap_lines(ws, max_w, cur) == wrap_lines(rest, max_w, ws[0]));
        } else if utf8_len(cur) + 1 + utf8_len(ws[0]) <= max_w {
            lemma_utf8_len_concat(cur, " "@);
            lemma_utf8_len_concat(cur + " "@, ws[0]);
            reveal_strlit(" ");
            assert(" "@.drop_last() =~= Seq::<char>::empty());
            assert(utf8_len(Seq::<char>::empty()) == 0);
            assert(utf8_len(" "@) == 1);
            lemma_wrap_lines_fit(rest, max_w, cur + " "@ + ws[0]);
            assert(wrap_lines(ws, max_w, cur) == wrap_lines(rest, max_w, cur + " "@ + ws[0]));
        } else {
            lemma_wrap_lines_fit(rest, max_w, ws[0]);
            let tail = wrap_lines(rest, max_w, ws[0]);
            assert forall|i: int| 0 <= i < wrap_lines(ws, max_w, cur).len() implies fits_or_word(
                #[trigger] wrap_lines(ws, max_w, cur)[i],
                max_w,
            ) by {
                assert(wrap_lines(ws, max_w, cur) == seq![cur] + tail);
                if i > 0 {
                    assert(wrap_lines(ws, max_w, cur)[i] == tail[i - 1]);
                } else {
                    assert(wrap_lines(ws, max_w, cur)[i] == cur);
                }
            }
        }
    }
}

/// Law: every line of a wrapped message fits in the width, except a line
/// that holds one word too long to fit anywhere.
pub proof fn law_wrapped_lines_fit(s: Seq<char>, max_w: int)
    ensures
        forall|i: int| 0 <= i < wrapped(s, max_w).len() ==> fits_or_word(
            #[trigger] wrapped(s, max_w)[i],
            max_w,
        ),
{
    lemma_words_are_words(s);
    lemma_wrap_lines_fit(words(s), max_w, Seq::empty());
}

/// The lines `ls` joined into one text, one space between each two.
pub open spec fn join_with_spaces(ls: Seq<Seq<char>>) -> Seq<char>
    decreases ls.len(),
{
    if ls.len() == 0 {
        Seq::empty()
    } else if ls.len() == 1 {
        ls[0]
    } else {
        ls[0] + " "@ + join_with_spaces(ls.drop_first())
    }
}

/// Joining a first line `a` in front of the non-empty `rest`.
proof fn lemma_join_front(a: Seq<char>, rest: Seq<Seq<char>>)
    ensures
        join_with_spaces(seq![a] + rest) == (if rest.len() == 0 {
            a
        } else {
            a + " "@ + join_with_spaces(rest)
        }),
{
    let l = seq![a] + rest;
    assert(l[0] == a);
    assert(l.drop_first() =~= rest);
    if rest.len() == 0 {
        assert(l.len() == 1);
    }
}

/// A line begun is never lost: with `cur` non-empty, some line comes out.
proof fn lemma_wrap_lines_nonempty(ws: Seq<Seq<char>>, max_w: int, cur: Seq<char>)
    requires
        cur.len() > 0,
    ensures
        wrap_lines(ws, max_w, cur).len() > 0,
    decreases ws.len(),
{
    if ws.len() > 0 && utf8_len(cur) + 1 + utf8_len(ws[0]) <= max_w {
        lemma_wrap_lines_nonempty(ws.drop_first(), max_w, cur + " "@ + ws[0]);
    }
}

/// The lines that `wrap_lines` makes, joined by spaces, give the line begun
/// and the words that follow it, joined by spaces.
proof fn lemma_wrap_lines_join(ws: Seq<Seq<char>>, max_w: int, cur: Seq<char>)
    requires
        forall|i: int| 0 <= i < ws.len() ==> is_word(#[trigger] ws[i]),
    ensures
        cur.len() > 0 ==> join_with_spaces(wrap_lines(ws, max_w, cur)) == join_with_spaces(
            seq![cur] + ws,
        ),
        cur.len() == 0 ==> join_with_spaces(wrap_lines(ws, max_w, cur)) == join_with_spaces(ws),
    decreases ws.len(),
{
    if ws.len() == 0 {
        if cur.len() > 0 {
            assert(wrap_lines(ws, max_w, cur) =~= seq![cur]);
            assert(seq![cur] + ws =~= seq![cur]);
        }
    } else {
        let rest = ws.drop_first();
        let w0 = ws[0];
        assert(is_word(w0));
        assert forall|i: int| 0 <= i < rest.len() implies is_word(#[trigger] rest[i]) by {
            assert(rest[i] == ws[i + 1]);
        }
        assert(seq![w0] + rest =~= ws);
        lemma_join_front(w0, rest);
        if cur.len() == 0 {
            lemma_wrap_lines_join(rest, max_w, w0);
        } else {
            lemma_join_front(cur, ws);
            if utf8_len(cur) + 1 + utf8_len(w0) <= max_w {
                let c2 = cur + " "@ + w0;
                lemma_wrap_lines_join(rest, max_w, c2);
                lemma_join_front(c2, rest);
                if rest.len() > 0 {
                    assert(c2 + " "@ + join_with_spaces(rest) =~= cur + " "@ + (w0 + " "@
                        + join_with_spaces(rest)));
                }
            } else {
                let x = wrap_lines(rest, max_w, w0);
                lemma_wrap_lines_nonempty(rest, max_w, w0);
                lemma_wrap_lines_join(rest, max_w, w0);
                assert(wrap_lines(ws, max_w, cur) == seq![cur] + x);
                lemma_join_front(cur, x);
            }
        }
    }
}

/// Law: the lines of a wrapped message, joined by single spaces, give back
/// its words joined by single spaces: wrapping loses, adds and reorders no
/// word.
pub proof fn law_wrapped_lines_rejoin(s: Seq<char>, max_w: int)
    ensures
        join_with_spaces(wrapped(s, max_w)) == join_with_spaces(words(s)),
{
    lemma_words_are_words(s);
    lemma_wrap_lines_join(words(s), max_w, Seq::empty());
}

} // verus!
