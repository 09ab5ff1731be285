//! Plain data behind the interactive front end: screens, actions, the
//! command palette's list and selection, and status-bar hints.

use vstd::prelude::*;
use crate::filter::{regex_compiles, CompiledFilter};
use crate::text::{chars_of, contains_chars, lower_of, lowercase, seq_contains};

verus! {

/// A screen of the application.
#[derive(Clone, Copy, Debug, PartialEq, Eq, Structural)]
pub enum Screen {
    ContextSelect,
    NamespaceSelect,
    DeploymentSelect,
    LogViewer,
}

/// Where a key press is interpreted.
#[derive(Clone, Copy, Debug, PartialEq, Eq, Hash, Structural)]
pub enum KeyContext {
    Global,
    ListNavigation,
    LogViewer,
    FilterInput,
    CommandPalette,
    JsonKeyFilter,
}

/// Something the user asked for.
#[derive(Clone, Debug)]
pub enum Action {
    Navigate(Screen),
    GoBack,
    Quit,
    SelectContext(String),
    SelectNamespace(String),
    SelectDeployment(String),
    ToggleCommandPalette,
    ToggleHelp,
    PaletteUp,
    PaletteDown,
    PaletteSelect,
    PaletteInput(char),
    PaletteBackspace,
    PaletteClose,
    ListUp,
    ListDown,
    ListSelect,
    OpenSearch,
    CloseSearch,
    SearchInput(char),
    SearchBackspace,
    SearchClear,
    ApplyFilter,
    ClearFilter,
    ToggleCaseSensitive,
    RefreshContexts,
    RefreshNamespaces,
    RefreshDeployments,
    ScrollUp(usize),
    ScrollDown(usize),
    ScrollToTop,
    ScrollToBottom,
    PageUp,
    PageDown,
    ToggleAutoScroll,
    ToggleTimestamps,
    ToggleLocalTime,
    TogglePodNames,
    ToggleJsonPrettyPrint,
    ToggleStats,
    ToggleJsonKeyFilter,
    JsonKeyUp,
    JsonKeyDown,
    JsonKeyToggle,
    JsonKeySelectAll,
    JsonKeyClearAll,
    JsonKeyInput(char),
    JsonKeyBackspace,
    JsonKeyClearSearch,
    JsonKeySelectPattern,
    ClearLogs,
    ExportLogs,
    CycleTimeRange,
    CycleTimeRangeBack,
    ShowError(String),
    DismissError,
    Tick,
    Render,
}

/// A command offered by the palette.
#[derive(Clone, Debug)]
pub struct Command {
    pub name: &'static str,
    pub description: &'static str,
    pub key_hint: &'static str,
    pub action: Action,
}

fn command(name: &'static str, description: &'static str, key_hint: &'static str, action: Action) -> (r: Command)
    ensures
        r.name == name,
        r.description == description,
        r.key_hint == key_hint,
        r.action == action,
{
    Command { name, description, key_hint, action }
}

/// The log viewer's palette: name, description, key hint and action of
/// each command, in order.
pub open spec fn viewer_command_table() -> Seq<(&'static str, &'static str, &'static str, Action)> {
    seq![
        ("Toggle Follow", "Auto-scroll to new logs", "f", Action::ToggleAutoScroll),
        ("Toggle Timestamps", "Show/hide timestamps", "t", Action::ToggleTimestamps),
        ("Toggle Local Time", "Switch local/UTC time", "T", Action::ToggleLocalTime),
        ("Toggle Pod Names", "Show/hide pod names", "p", Action::TogglePodNames),
        ("Toggle JSON", "Pretty print JSON logs", "J", Action::ToggleJsonPrettyPrint),
        ("JSON Key Filter", "Filter by JSON keys", "K", Action::ToggleJsonKeyFilter),
        ("Toggle Stats", "Show/hide stats bar", "s", Action::ToggleStats),
        ("Cycle Time Range", "Change log time window", "r", Action::CycleTimeRange),
        ("Search/Filter", "Filter logs with regex", "/", Action::OpenSearch),
        ("Clear Filter", "Remove active filter", "n", Action::ClearFilter),
        ("Toggle Case Sensitive", "Case sensitive search", "i", Action::ToggleCaseSensitive),
        ("Clear Logs", "Clear all log entries", "c", Action::ClearLogs),
        ("Export Logs", "Save logs to file", "e", Action::ExportLogs),
        ("Show Help", "Display keybindings", "?", Action::ToggleHelp),
        ("Scroll to Top", "Jump to first log", "g", Action::ScrollToTop),
        ("Scroll to Bottom", "Jump to latest log", "G", Action::ScrollToBottom),
        ("Go Back", "Return to deployment list", "Esc", Action::GoBack),
        ("Quit", "Exit kubescope", "q", Action::Quit),
    ]
}

/// The commands of the log viewer, in palette order.
pub fn log_viewer_commands() -> (r: Vec<Command>)
    ensures
        r@.map_values(|c: Command| (c.name, c.description, c.key_hint, c.action)) == viewer_command_table(),
{
    let mut v: Vec<Command> = Vec::new();
    v.push(command("Toggle Follow", "Auto-scroll to new logs", "f", Action::ToggleAutoScroll));
    v.push(command("Toggle Timestamps", "Show/hide timestamps", "t", Action::ToggleTimestamps));
    v.push(command("Toggle Local Time", "Switch local/UTC time", "T", Action::ToggleLocalTime));
    v.push(command("Toggle Pod Names", "Show/hide pod names", "p", Action::TogglePodNames));
    v.push(command("Toggle JSON", "Pretty print JSON logs", "J", Action::ToggleJsonPrettyPrint));
    v.push(command("JSON Key Filter", "Filter by JSON keys", "K", Action::ToggleJsonKeyFilter));
    v.push(command("Toggle Stats", "Show/hide stats bar", "s", Action::ToggleStats));
    v.push(command("Cycle Time Range", "Change log time window", "r", Action::CycleTimeRange));
    v.push(command("Search/Filter", "Filter logs with regex", "/", Action::OpenSearch));
    v.push(command("Clear Filter", "Remove active filter", "n", Action::ClearFilter));
    v.push(command("Toggle Case Sensitive", "Case sensitive search", "i", Action::ToggleCaseSensitive));
    v.push(command("Clear Logs", "Clear all log entries", "c", Action::ClearLogs));
    v.push(command("Export Logs", "Save logs to file", "e", Action::ExportLogs));
    v.push(command("Show Help", "Display keybindings", "?", Action::ToggleHelp));
    v.push(command("Scroll to Top", "Jump to first log", "g", Action::ScrollToTop));
    v.push(command("Scroll to Bottom", "Jump to latest log", "G", Action::ScrollToBottom));
    v.push(command("Go Back", "Return to deployment list", "Esc", Action::GoBack));
    v.push(command("Quit", "Exit kubescope", "q", Action::Quit));
    assert(v@.map_values(|c: Command| (c.name, c.description, c.key_hint, c.action)) =~= viewer_command_table());
    v
}

/// The index before `i` in a list of `len` items, wrapping to the last.
pub open spec fn wrap_up(i: Option<usize>, len: nat) -> usize {
    match i {
        Some(i) => if i == 0 { (len - 1) as usize } else { (i - 1) as usize },
        None => 0,
    }
}

/// The index after `i` in a list of `len` items, wrapping to the first.
pub open spec fn wrap_down(i: Option<usize>, len: nat) -> usize {
    match i {
        Some(i) => if i >= len - 1 { 0 } else { (i + 1) as usize },
        None => 0,
    }
}

/// Moves a list selection up by one, wrapping around; an empty list keeps
/// its selection.
pub fn select_up(selected: Option<usize>, len: usize) -> (r: Option<usize>)
    ensures
        r == if len == 0 { selected } else { Some(wrap_up(selected, len as nat)) },
{
    if len == 0 {
        return selected;
    }
    match selected {
        Some(i) => if i == 0 { Some(len - 1) } else { Some(i - 1) },
        None => Some(0),
    }
}

/// Moves a list selection down by one, wrapping around; an empty list keeps
/// its selection.
pub fn select_down(selected: Option<usize>, len: usize) -> (r: Option<usize>)
    ensures
        r == if len == 0 { selected } else { Some(wrap_down(selected, len as nat)) },
{
    if len == 0 {
        return selected;
    }
    match selected {
        Some(i) => if i >= len - 1 { Some(0) } else { Some(i + 1) },
        None => Some(0),
    }
}

/// Whether a palette command matches a lower-cased query: every command
/// matches an empty query, else its lower-cased name or description must
/// contain it.
pub open spec fn command_matches(c: Command, lower_query: Seq<char>) -> bool {
    lower_query.len() == 0 || seq_contains(lower_of(c.name@), lower_query) || seq_contains(
        lower_of(c.description@),
        lower_query,
    )
}

/// The indices of the commands that match, in order.
pub open spec fn matching_indices(cmds: Seq<Command>, lower_query: Seq<char>) -> Seq<usize>
    decreases cmds.len(),
{
    if cmds.len() == 0 {
        Seq::empty()
    } else if command_matches(cmds.last(), lower_query) {
        matching_indices(cmds.drop_last(), lower_query).push((cmds.len() - 1) as usize)
    } else {
        matching_indices(cmds.drop_last(), lower_query)
    }
}

/// The command palette: its input, the commands matching it, and the
/// selected row among those.
pub struct CommandPaletteState {
    pub visible: bool,
    pub search_input: String,
    pub selected: Option<usize>,
    pub filtered_indices: Vec<usize>,
}

impl Default for CommandPaletteState {
    fn default() -> (r: Self)
        ensures
            !r.visible,
            r.selected == Some(0usize),
    {
        CommandPaletteState::new()
    }
}

impl CommandPaletteState {
    /// A hidden palette with the first row selected.
    pub fn new() -> (r: Self)
        ensures
            !r.visible,
            r.search_input@.len() == 0,
            r.selected == Some(0usize),
            r.filtered_indices@.len() == 0,
    {
        CommandPaletteState { visible: false, search_input: String::new(), selected: Some(0), filtered_indices: Vec::new() }
    }

    /// Shows the palette with an empty input and every command listed.
    pub fn open(&mut self, commands: &Vec<Command>)
        ensures
            final(self).visible,
            final(self).search_input@.len() == 0,
            final(self).filtered_indices@ == matching_indices(commands@, lower_of(Seq::empty())),
            final(self).filtered_indices@.len() > 0 ==> final(self).selected == Some(0usize),
            final(self).filtered_indices@.len() == 0 ==> final(self).selected is None,
    {
        self.visible = true;
        self.search_input = String::new();
        self.selected = Some(0);
        self.update_filtered(commands);
    }

    /// Hides the palette and clears its input.
    pub fn close(&mut self)
        ensures
            !final(self).visible,
            final(self).search_input@.len() == 0,
            final(self).selected == old(self).selected,
            final(self).filtered_indices == old(self).filtered_indices,
    {
        self.visible = false;
        self.search_input = String::new();
    }

    /// Recomputes the matching commands for the current input; the selection
    /// is cleared when nothing matches and reset to the first row when it
    /// falls outside the list.
    pub fn update_filtered(&mut self, commands: &Vec<Command>)
        ensures
            final(self).visible == old(self).visible,
            final(self).search_input == old(self).search_input,
            final(self).filtered_indices@ == matching_indices(commands@, lower_of(old(self).search_input@)),
            final(self).selected == if final(self).filtered_indices@.len() == 0 {
                None
            } else {
                match old(self).selected {
                    Some(i) => if i >= final(self).filtered_indices@.len() { Some(0usize) } else { Some(i) },
                    None => Some(0usize),
                }
            },
    {
        let query = lowercase(self.search_input.as_str());
        let q = chars_of(query.as_str());
        let mut out: Vec<usize> = Vec::new();
        let mut i: usize = 0;
        while i < commands.len()
            invariant
                i <= commands@.len(),
                q@ == lower_of(old(self).search_input@),
                out@ == matching_indices(commands@.subrange(0, i as int), q@),
            decreases commands@.len() - i,
        {
            proof {
                assert(commands@.subrange(0, i + 1).drop_last() =~= commands@.subrange(0, i as int));
                assert(commands@.subrange(0, i + 1).last() == commands@[i as int]);
            }
            let hit = if q.len() == 0 {
                true
            } else {
                let name = chars_of(lowercase(commands[i].name).as_str());
                let desc = chars_of(lowercase(commands[i].description).as_str());
                contains_chars(&name, &q) || contains_chars(&desc, &q)
            };
            if hit {
                out.push(i);
            }
            i = i + 1;
        }
        assert(commands@.subrange(0, i as int) =~= commands@);
        self.filtered_indices = out;
        if self.filtered_indices.len() == 0 {
            self.selected = None;
        } else {
            let current = match self.selected {
                Some(c) => c,
                None => 0,
            };
            if current >= self.filtered_indices.len() {
                self.selected = Some(0);
            } else {
                self.selected = Some(current);
            }
        }
    }

    /// Moves the selection up, wrapping around.
    pub fn move_up(&mut self)
        ensures
            final(self).selected == if old(self).filtered_indices@.len() == 0 {
                old(self).selected
            } else {
                Some(wrap_up(old(self).selected, old(self).filtered_indices@.len()))
            },
            final(self).filtered_indices == old(self).filtered_indices,
    {
        self.selected = select_up(self.selected, self.filtered_indices.len());
    }

    /// Moves the selection down, wrapping around.
    pub fn move_down(&mut self)
        ensures
            final(self).selected == if old(self).filtered_indices@.len() == 0 {
                old(self).selected
            } else {
                Some(wrap_down(old(self).selected, old(self).filtered_indices@.len()))
            },
            final(self).filtered_indices == old(self).filtered_indices,
    {
        self.selected = select_down(self.selected, self.filtered_indices.len());
    }

    /// The index, among `commands`, of the selected command.
    pub fn selected_command(&self, commands: &Vec<Command>) -> (r: Option<usize>)
        ensures
            r == match self.selected {
                Some(s) => if s < self.filtered_indices@.len() && self.filtered_indices@[s as int]
                    < commands@.len() {
                    Some(self.filtered_indices@[s as int])
                } else {
                    None
                },
                None => None,
            },
    {
        match self.selected {
            Some(s) => if s < self.filtered_indices.len() {
                let k = self.filtered_indices[s];
                if k < commands.len() {
                    Some(k)
                } else {
                    None
                }
            } else {
                None
            },
            None => None,
        }
    }
}

/// Key hints shown at the bottom of a screen, with optional text on the
/// right.
pub struct StatusBar<'a> {
    pub hints: Vec<(&'a str, &'a str)>,
    pub right_text: Option<String>,
}

impl<'a> StatusBar<'a> {
    /// A bar without hints or right-hand text.
    pub fn new() -> (r: Self)
        ensures
            r.hints@.len() == 0,
            r.right_text is None,
    {
        StatusBar { hints: Vec::new(), right_text: None }
    }

    /// The same bar with the given (key, description) hints.
    pub fn hints(self, hints: Vec<(&'a str, &'a str)>) -> (r: Self)
        ensures
            r.hints == hints,
            r.right_text == self.right_text,
    {
        StatusBar { hints, ..self }
    }

    /// The same bar with `text` on the right.
    pub fn right(self, text: String) -> (r: Self)
        ensures
            r.hints == self.hints,
            r.right_text == Some(text),
    {
        StatusBar { right_text: Some(text), ..self }
    }
}

/// Hints for the list-navigation screens.
pub fn list_nav_hints() -> (r: Vec<(&'static str, &'static str)>)
    ensures
        r@ == seq![("↑/k", "Up"), ("↓/j", "Down"), ("Enter", "Select"), ("Esc", "Back"), ("q", "Quit")],
{
    let r = vec![("↑/k", "Up"), ("↓/j", "Down"), ("Enter", "Select"), ("Esc", "Back"), ("q", "Quit")];
    assert(r@ =~= seq![("↑/k", "Up"), ("↓/j", "Down"), ("Enter", "Select"), ("Esc", "Back"), ("q", "Quit")]);
    r
}

/// The screen shown, the screens to go back to, and the selected row of the
/// current list.
pub struct Navigation {
    pub current_screen: Screen,
    pub screen_stack: Vec<Screen>,
    pub selected: Option<usize>,
}

impl Navigation {
    /// Starts on the context list with its first row selected.
    pub fn new() -> (r: Self)
        ensures
            r.current_screen == Screen::ContextSelect,
            r.screen_stack@.len() == 0,
            r.selected == Some(0usize),
    {
        Navigation { current_screen: Screen::ContextSelect, screen_stack: Vec::new(), selected: Some(0) }
    }

    /// Shows `screen`, remembering the current one.
    pub fn navigate_to(&mut self, screen: Screen)
        ensures
            final(self).screen_stack@ == old(self).screen_stack@.push(old(self).current_screen),
            final(self).current_screen == screen,
            final(self).selected == Some(0usize),
    {
        self.screen_stack.push(self.current_screen);
        self.current_screen = screen;
        self.selected = Some(0);
    }

    /// Returns to the previous screen, if there is one.
    pub fn go_back(&mut self) -> (r: bool)
        ensures
            r == (old(self).screen_stack@.len() > 0),
            r ==> final(self).current_screen == old(self).screen_stack@.last()
                && final(self).screen_stack@ == old(self).screen_stack@.drop_last()
                && final(self).selected == Some(0usize),
            !r ==> *final(self) == *old(self),
    {
        if self.screen_stack.len() == 0 {
            return false;
        }
        match self.screen_stack.pop() {
            Some(prev) => {
                self.current_screen = prev;
                self.selected = Some(0);
                true
            },
            None => false,
        }
    }

    /// Moves the selection up in a list of `len` rows.
    pub fn list_up(&mut self, len: usize)
        ensures
            final(self).selected == if len == 0 { old(self).selected } else { Some(wrap_up(old(self).selected, len as nat)) },
            final(self).current_screen == old(self).current_screen,
            final(self).screen_stack == old(self).screen_stack,
    {
        self.selected = select_up(self.selected, len);
    }

    /// Moves the selection down in a list of `len` rows.
    pub fn list_down(&mut self, len: usize)
        ensures
            final(self).selected == if len == 0 { old(self).selected } else { Some(wrap_down(old(self).selected, len as nat)) },
            final(self).current_screen == old(self).current_screen,
            final(self).screen_stack == old(self).screen_stack,
    {
        self.selected = select_down(self.selected, len);
    }
}

/// The number of rows of the list shown on `screen`, given the sizes of the
/// context, namespace and deployment lists (the log viewer has none).
pub fn current_list_len(screen: Screen, contexts: usize, namespaces: usize, deployments: usize) -> (r: usize)
    ensures
        r == match screen {
            Screen::ContextSelect => contexts,
            Screen::NamespaceSelect => namespaces,
            Screen::DeploymentSelect => deployments,
            Screen::LogViewer => 0,
        },
{
    match screen {
        Screen::ContextSelect => contexts,
        Screen::NamespaceSelect => namespaces,
        Screen::DeploymentSelect => deployments,
        Screen::LogViewer => 0,
    }
}

/// The filter that a search input asks for: none for an empty input, else
/// the input compiled with or without case sensitivity; fails when the
/// pattern is invalid.
pub fn compile_search(input: &str, case_insensitive: bool) -> (r: Result<Option<CompiledFilter>, regex::Error>)
    ensures
        input@.len() == 0 ==> r matches Ok(None),
        input@.len() > 0 ==> (r is Err <==> !regex_compiles(
            if case_insensitive { "(?i)"@ + input@ } else { input@ },
        )),
        r matches Ok(Some(f)) ==> f@.pattern == input@ && f@.case_insensitive == case_insensitive
            && f@.source == Some(if case_insensitive { "(?i)"@ + input@ } else { input@ }),
{
    if input.is_empty() {
        return Ok(None);
    }
    let compiled = if case_insensitive {
        CompiledFilter::new_case_insensitive(input)
    } else {
        CompiledFilter::new(input)
    };
    match compiled {
        Ok(f) => Ok(Some(f)),
        Err(e) => Err(e),
    }
}

} // verus!
