//! The session engine: modes, line editing, history, and the handling of
//! key events.

use vstd::prelude::*;
use vstd::string::*;
use crate::bookmarks::{abbreviate_home, abbreviated, home_dir, touched, ShortcutManager};
use crate::browser::{enter_target_of, DirEntry, NavigationState};
use crate::executor::{CommandResult, ExecutorError};
use crate::git::{GitMessage, GitStatus};
use crate::parser::{classify, parse_command, trim_str, trimmed, CommandView, ParsedCommand};
use crate::text::{append_str, decimal, decimal_string, insert_char_at, remove_char_at};

verus! {

/// What the session is doing.
#[derive(Debug, Clone, Copy, PartialEq, Eq, Structural)]
pub enum AppMode {
    /// Editing a command line.
    Normal,
    /// Browsing directories.
    NavigationList,
    /// Picking a bookmark.
    ShortcutSelection,
}

/// A key event, as the session sees it.
#[derive(Debug, Clone, Copy, PartialEq, Eq, Structural)]
pub enum Key {
    /// A character typed without a modifier other than shift.
    Char(char),
    /// A character typed with the control modifier.
    Ctrl(char),
    Enter,
    Backspace,
    Left,
    Right,
    Up,
    Down,
    Home,
    End,
    Tab,
    Esc,
    /// Any other key.
    Other,
}

/// Outside work that a handled key asks for. Each names what to do and the
/// method that takes the result back.
#[derive(Debug)]
pub enum Effect {
    /// Nothing.
    Nothing,
    /// Resolve the target against the working directory, then `finish_cd`.
    ChangeDirectory(String),
    /// List the directory, then `enter_navigation_mode`.
    OpenNavigator(String),
    /// List the directory, then `navigation_state.enter_selected`.
    EnterDirectory(String),
    /// List the directory, then `navigation_state.go_up`.
    LeaveDirectory(String),
    /// Run the command line in the working directory, then `finish_shell`.
    RunShell(String),
    /// Take the time, then `save_bookmark_at`, then store the bookmarks.
    SaveBookmark,
    /// Check that the directory exists and take the time, then `finish_jump`.
    JumpBookmark(String),
}

/// Label of a repository status in the prompt: branch, `*` when dirty,
/// ahead and behind counts when not zero, and a space.
pub open spec fn git_label(g: Option<GitStatus>) -> Seq<char> {
    match g {
        Some(s) => if s.branch@.len() > 0 {
            s.branch@ + (if s.is_dirty {
                "*"@
            } else {
                Seq::empty()
            }) + (if s.ahead > 0 {
                " \u{2191}"@ + decimal(s.ahead as nat)
            } else {
                Seq::empty()
            }) + (if s.behind > 0 {
                " \u{2193}"@ + decimal(s.behind as nat)
            } else {
                Seq::empty()
            }) + " "@
        } else {
            Seq::empty()
        },
        None => Seq::empty(),
    }
}

pub open spec fn opt_view(o: Option<String>) -> Option<Seq<char>> {
    match o {
        Some(s) => Some(s@),
        None => None,
    }
}

/// The prompt: the directory with the home directory shown as `~`, the
/// repository label, and `$ `.
pub open spec fn prompt_of(dir: Seq<char>, home: Option<Seq<char>>, g: Option<GitStatus>) -> Seq<
    char,
> {
    abbreviated(dir, home) + " "@ + git_label(g) + "$ "@
}

/// No entry of the history repeats the one before it.
pub open spec fn no_repeats(h: Seq<String>) -> bool {
    forall|i: int| 0 <= i < h.len() - 1 ==> (#[trigger] h[i])@ != h[i + 1]@
}

/// The history after entering `line`: its trimmed text is added unless it
/// is empty or equal to the newest entry.
pub open spec fn history_after(h: Seq<String>, line: Seq<char>, added: String) -> Seq<String> {
    if trimmed(line).len() == 0 || (h.len() > 0 && h.last()@ == trimmed(line)) {
        h
    } else {
        h.push(added)
    }
}

/// The bookmark slots shown: at most nine.
pub open spec fn slot_count(m: ShortcutManager) -> int {
    if m.items().len() < 9 {
        m.items().len() as int
    } else {
        9
    }
}

/// State of a running session.
pub struct App {
    /// The working directory.
    pub current_dir: String,
    /// Entered lines, oldest first.
    pub history: Vec<String>,
    /// The history entry shown in the input, if any.
    pub history_index: Option<usize>,
    /// The line being edited.
    pub input: String,
    /// Edit cursor, in characters.
    pub cursor_pos: usize,
    /// The scrollback.
    pub output: Vec<String>,
    pub mode: AppMode,
    pub navigation_state: NavigationState,
    pub shortcuts: ShortcutManager,
    /// Highlighted slot of the bookmark picker, from 0.
    pub selected_shortcut_index: usize,
    /// Set when the user asked to end the session.
    pub should_quit: bool,
    /// The latest repository status.
    pub git_status: Option<GitStatus>,
    /// The home directory, shown as `~`.
    pub home: Option<String>,
    /// The directory whose status was last asked for.
    pub status_dir: Option<String>,
}

impl App {
    /// The session's invariant.
    pub open spec fn wf(&self) -> bool {
        &&& self.cursor_pos <= self.input@.len()
        &&& (self.history_index matches Some(i) ==> i < self.history@.len())
        &&& no_repeats(self.history@)
        &&& self.navigation_state.wf()
        &&& self.shortcuts.wf()
        &&& (self.mode == AppMode::ShortcutSelection ==> self.selected_shortcut_index < slot_count(
            self.shortcuts,
        ))
    }

    /// A session in `current_dir` with the given bookmarks and home directory.
    pub fn with_home(current_dir: String, shortcuts: ShortcutManager, home: Option<String>) -> (r: App)
        requires
            shortcuts.wf(),
        ensures
            r.wf(),
            r.current_dir == current_dir,
            r.shortcuts == shortcuts,
            r.home == home,
            r.mode == AppMode::Normal,
            r.output@.len() == 0,
            r.history@.len() == 0,
            r.input@.len() == 0,
            r.cursor_pos == 0,
            r.history_index is None,
            r.git_status is None,
            r.status_dir is None,
            !r.should_quit,
    {
        App {
            current_dir,
            history: Vec::new(),
            history_index: None,
            input: String::new(),
            cursor_pos: 0,
            output: Vec::new(),
            mode: AppMode::Normal,
            navigation_state: NavigationState::new(),
            shortcuts,
            selected_shortcut_index: 0,
            should_quit: false,
            git_status: None,
            home,
            status_dir: None,
        }
    }

    /// A session in `current_dir` with the given bookmarks.
    pub fn new(current_dir: String, shortcuts: ShortcutManager) -> (r: App)
        requires
            shortcuts.wf(),
        ensures
            r.wf(),
            r.current_dir == current_dir,
            r.shortcuts == shortcuts,
            r.mode == AppMode::Normal,
            r.output@.len() == 0,
            r.input@.len() == 0,
    {
        App::with_home(current_dir, shortcuts, home_dir())
    }

    /// The prompt as plain text.
    pub fn prompt_string(&self) -> (r: String)
        ensures
            r@ == prompt_of(self.current_dir@, opt_view(self.home), self.git_status),
    {
        let mut r = abbreviate_home(self.current_dir.as_str(), &self.home);
        append_str(&mut r, " ");
        match &self.git_status {
            Some(g) => {
                if g.branch.as_str().unicode_len() > 0 {
                    append_str(&mut r, g.branch.as_str());
                    if g.is_dirty {
                        append_str(&mut r, "*");
                    }
                    if g.ahead > 0 {
                        append_str(&mut r, " \u{2191}");
                        let d = decimal_string(g.ahead as u64);
                        append_str(&mut r, d.as_str());
                    }
                    if g.behind > 0 {
                        append_str(&mut r, " \u{2193}");
                        let d = decimal_string(g.behind as u64);
                        append_str(&mut r, d.as_str());
                    }
                    append_str(&mut r, " ");
                }
            },
            None => {},
        }
        append_str(&mut r, "$ ");
        proof {
            let g = self.git_status;
            assert(r@ =~= prompt_of(self.current_dir@, opt_view(self.home), g));
        }
        r
    }

    /// The prompt as plain text.
    pub fn prompt(&self) -> (r: String)
        ensures
            r@ == prompt_of(self.current_dir@, opt_view(self.home), self.git_status),
    {
        self.prompt_string()
    }

    /// Appends a line to the scrollback.
    pub fn add_output(&mut self, line: &str)
        ensures
            final(self).output@.len() == old(self).output@.len() + 1,
            final(self).output@.last()@ == line@,
            final(self).output@.drop_last() == old(self).output@,
            *final(self) == (App { output: final(self).output, ..*old(self) }),
    {
        let ghost before = self.output@;
        self.output.push(String::from_str(line));
        assert(self.output@.drop_last() =~= before);
    }

    /// Appends the prompt followed by `command` to the scrollback.
    pub fn add_command_to_output(&mut self, command: &str)
        ensures
            final(self).output@ == old(self).output@.push(final(self).output@.last()),
            final(self).output@.last()@ == prompt_of(old(self).current_dir@, opt_view(old(self).home), old(self).git_status) + command@,
            *final(self) == (App { output: final(self).output, ..*old(self) }),
    {
        let mut line = self.prompt();
        append_str(&mut line, command);
        self.add_output(line.as_str());
        assert(self.output@ =~= old(self).output@.push(self.output@.last()));
    }

    /// Empties the input and leaves history navigation.
    pub fn clear_input(&mut self)
        requires
            old(self).wf(),
        ensures
            final(self).wf(),
            final(self).input@.len() == 0,
            *final(self) == (App { input: final(self).input, cursor_pos: 0, history_index: None, ..*old(self) }),
    {
        self.input = String::new();
        self.cursor_pos = 0;
        self.history_index = None;
    }

    /// Adds the trimmed `command` to the history unless it is empty or
    /// repeats the newest entry.
    pub fn add_to_history(&mut self, command: &str)
        requires
            old(self).wf(),
        ensures
            final(self).wf(),
            trimmed(command@).len() == 0 || (old(self).history@.len() > 0
                && old(self).history@.last()@ == trimmed(command@)) ==> final(self).history@
                == old(self).history@,
            !(trimmed(command@).len() == 0 || (old(self).history@.len() > 0
                && old(self).history@.last()@ == trimmed(command@))) ==> final(self).history@.len()
                == old(self).history@.len() + 1 && final(self).history@.drop_last()
                == old(self).history@ && final(self).history@.last()@ == trimmed(command@),
            *final(self) == (App { history: final(self).history, ..*old(self) }),
    {
        let t = trim_str(command);
        if t.as_str().unicode_len() == 0 {
            return;
        }
        let n = self.history.len();
        if n > 0 && self.history[n - 1] == t {
            return;
        }
        let ghost before = self.history@;
        self.history.push(t);
        proof {
            assert(self.history@.drop_last() =~= before);
            assert forall|i: int| 0 <= i < self.history@.len() - 1 implies (#[trigger] self.history@[i])@
                != self.history@[i + 1]@ by {
                if i < before.len() - 1 {
                    assert(self.history@[i] == before[i] && self.history@[i + 1] == before[i + 1]);
                } else {
                    assert(self.history@[i] == before.last());
                }
            }
        }
    }

    /// Shows the previous history entry: the newest when not navigating,
    /// staying at the oldest.
    pub fn history_prev(&mut self)
        requires
            old(self).wf(),
        ensures
            final(self).wf(),
            old(self).history@.len() == 0 ==> *final(self) == *old(self),
            old(self).history@.len() > 0 ==> {
                let i = match old(self).history_index {
                    None => old(self).history@.len() - 1,
                    Some(j) => if j == 0 {
                        0
                    } else {
                        j - 1
                    },
                };
                &&& final(self).history_index == Some(i as usize)
                &&& final(self).input@ == old(self).history@[i]@
                &&& final(self).cursor_pos == final(self).input@.len()
            },
            *final(self) == (App { input: final(self).input, cursor_pos: final(self).cursor_pos, history_index: final(self).history_index, ..*old(self) }),
    {
        let n = self.history.len();
        if n == 0 {
            return;
        }
        let i: usize = match self.history_index {
            None => n - 1,
            Some(j) => if j == 0 {
                0
            } else {
                j - 1
            },
        };
        self.history_index = Some(i);
        self.input = self.history[i].clone();
        self.cursor_pos = self.input.as_str().unicode_len();
    }

    /// Shows the next history entry; past the newest, empties the input and
    /// leaves history navigation.
    pub fn history_next(&mut self)
        requires
            old(self).wf(),
        ensures
            final(self).wf(),
            match old(self).history_index {
                None => *final(self) == *old(self),
                Some(i) => if i + 1 >= old(self).history@.len() {
                    final(self).history_index is None && final(self).input@.len() == 0
                        && final(self).cursor_pos == 0
                } else {
                    &&& final(self).history_index == Some((i + 1) as usize)
                    &&& final(self).input@ == old(self).history@[i + 1]@
                    &&& final(self).cursor_pos == final(self).input@.len()
                },
            },
            *final(self) == (App { input: final(self).input, cursor_pos: final(self).cursor_pos, history_index: final(self).history_index, ..*old(self) }),
    {
        match self.history_index {
            None => {},
            Some(i) => {
                let n = self.history.len();
                if i + 1 >= n {
                    self.history_index = None;
                    self.input = String::new();
                    self.cursor_pos = 0;
                } else {
                    self.history_index = Some(i + 1);
                    self.input = self.history[i + 1].clone();
                    self.cursor_pos = self.input.as_str().unicode_len();
                }
            },
        }
    }

    /// Inserts `c` at the cursor and moves the cursor past it.
    pub fn insert_char(&mut self, c: char)
        requires
            old(self).wf(),
            old(self).input@.len() < usize::MAX,
        ensures
            final(self).wf(),
            final(self).input@ == old(self).input@.insert(old(self).cursor_pos as int, c),
            *final(self) == (App { input: final(self).input, cursor_pos: (old(self).cursor_pos + 1) as usize, ..*old(self) }),
    {
        self.input = insert_char_at(self.input.as_str(), self.cursor_pos, c);
        self.cursor_pos = self.cursor_pos + 1;
    }

    /// Deletes the character before the cursor.
    pub fn delete_char(&mut self)
        requires
            old(self).wf(),
        ensures
            final(self).wf(),
            old(self).cursor_pos == 0 ==> *final(self) == *old(self),
            old(self).cursor_pos > 0 ==> final(self).input@ == old(self).input@.remove(
                old(self).cursor_pos - 1,
            ) && final(self).cursor_pos == old(self).cursor_pos - 1,
            *final(self) == (App { input: final(self).input, cursor_pos: final(self).cursor_pos, ..*old(self) }),
    {
        if self.cursor_pos > 0 {
            self.cursor_pos = self.cursor_pos - 1;
            self.input = remove_char_at(self.input.as_str(), self.cursor_pos);
        }
    }

    /// Moves the cursor one character left, stopping at the start.
    pub fn cursor_left(&mut self)
        requires
            old(self).wf(),
        ensures
            final(self).wf(),
            *final(self) == (App { cursor_pos: (if old(self).cursor_pos > 0 {
                old(self).cursor_pos - 1
            } else {
                0
            }) as usize, ..*old(self) }),
    {
        if self.cursor_pos > 0 {
            self.cursor_pos = self.cursor_pos - 1;
        }
    }

    /// Moves the cursor one character right, stopping at the end.
    pub fn cursor_right(&mut self)
        requires
            old(self).wf(),
        ensures
            final(self).wf(),
            *final(self) == (App { cursor_pos: (if old(self).cursor_pos < old(self).input@.len() {
                old(self).cursor_pos + 1
            } else {
                old(self).cursor_pos as int
            }) as usize, ..*old(self) }),
    {
        if self.cursor_pos < self.input.as_str().unicode_len() {
            self.cursor_pos = self.cursor_pos + 1;
        }
    }

    /// Moves the cursor to the start of the input.
    pub fn cursor_home(&mut self)
        requires
            old(self).wf(),
        ensures
            final(self).wf(),
            *final(self) == (App { cursor_pos: 0, ..*old(self) }),
    {
        self.cursor_pos = 0;
    }

    /// Moves the cursor to the end of the input.
    pub fn cursor_end(&mut self)
        requires
            old(self).wf(),
        ensures
            final(self).wf(),
            *final(self) == (App { cursor_pos: old(self).input@.len() as usize, ..*old(self) }),
    {
        self.cursor_pos = self.input.as_str().unicode_len();
    }
}


/// The status that the newest status update among `msgs` carries, or
/// `cur` when there is none.
pub open spec fn last_status(msgs: Seq<GitMessage>, cur: Option<GitStatus>) -> Option<GitStatus>
    decreases msgs.len(),
{
    if msgs.len() == 0 {
        cur
    } else {
        match msgs.last() {
            GitMessage::StatusUpdate(st) => st,
            _ => last_status(msgs.drop_last(), cur),
        }
    }
}

/// Milliseconds between two requests that synchronize with the remote.
pub const FETCH_INTERVAL_MS: u64 = 30000;

/// The effect that an entered line of intent `c` asks for, in `dir`.
pub open spec fn effect_for(e: Effect, c: CommandView, dir: Seq<char>) -> bool {
    match c {
        CommandView::Cd(None) => e matches Effect::ChangeDirectory(t) && t@ == "~"@,
        CommandView::Cd(Some(p)) => e matches Effect::ChangeDirectory(t) && t@ == p,
        CommandView::CdList => e matches Effect::OpenNavigator(t) && t@ == dir,
        CommandView::JermSave => e is SaveBookmark,
        CommandView::Shell(cmd) => e matches Effect::RunShell(t) && t@ == cmd,
        _ => e is Nothing,
    }
}

/// `n` is `o` after confirming the navigator: the commit target becomes the
/// working directory and `cd <path>` is echoed; the mode returns to Normal.
pub open spec fn navigation_committed(o: App, n: App) -> bool {
    match crate::browser::commit_target_of(o.navigation_state) {
        Some(t) => {
            &&& n == (App { mode: AppMode::Normal, current_dir: n.current_dir, output: n.output, ..o })
            &&& n.current_dir@ == t
            &&& n.output@.len() == o.output@.len() + 1
            &&& n.output@.drop_last() == o.output@
            &&& n.output@.last()@ == "cd "@ + t
        },
        None => n == (App { mode: AppMode::Normal, ..o }),
    }
}

/// `n` is `o` after the input line was executed: the line is echoed after
/// the prompt (or the scrollback cleared), recorded in the history, the
/// input emptied, and the intent's own change made.
pub open spec fn executed(o: App, n: App) -> bool {
    let c = classify(o.input@);
    let skip = trimmed(o.input@).len() == 0 || (o.history@.len() > 0 && o.history@.last()@
        == trimmed(o.input@));
    let goto = c is JermGoto && o.shortcuts.items().len() > 0;
    &&& n == (App {
        output: n.output,
        history: n.history,
        input: n.input,
        cursor_pos: 0,
        history_index: None,
        should_quit: (o.should_quit || c is Exit),
        mode: (if goto {
            AppMode::ShortcutSelection
        } else {
            o.mode
        }),
        selected_shortcut_index: (if goto {
            0
        } else {
            o.selected_shortcut_index
        }),
        ..o
    })
    &&& n.input@.len() == 0
    &&& (skip ==> n.history@ == o.history@)
    &&& (!skip ==> n.history@.len() == o.history@.len() + 1 && n.history@.drop_last() == o.history@
        && n.history@.last()@ == trimmed(o.input@))
    &&& (c is Clear ==> n.output@.len() == 0)
    &&& (!(c is Clear) ==> {
        &&& n.output@.len() == o.output@.len() + 1
        &&& n.output@.drop_last() == o.output@
        &&& n.output@.last()@ == prompt_of(o.current_dir@, opt_view(o.home), o.git_status) + o.input@
    })
}

fn copy_status(s: &Option<GitStatus>) -> (r: Option<GitStatus>)
    ensures
        r == *s,
{
    match s {
        Some(g) => Some(
            GitStatus {
                branch: g.branch.clone(),
                is_detached: g.is_detached,
                is_dirty: g.is_dirty,
                ahead: g.ahead,
                behind: g.behind,
            },
        ),
        None => None,
    }
}

impl App {
    /// Opens the navigator at the working directory, whose listing is
    /// `listing`.
    pub fn enter_navigation_mode(&mut self, listing: &Vec<DirEntry>)
        requires
            old(self).wf(),
        ensures
            final(self).wf(),
            final(self).navigation_state.current_path@ == old(self).current_dir@,
            crate::browser::entries_for(old(self).current_dir@, listing@, final(self).navigation_state.entries@),
            final(self).navigation_state.selected_index == 0,
            final(self).navigation_state.scroll_offset == 0,
            *final(self) == (App { mode: AppMode::NavigationList, navigation_state: final(self).navigation_state, ..*old(self) }),
    {
        self.mode = AppMode::NavigationList;
        self.navigation_state.start_navigation(self.current_dir.clone(), listing);
    }

    /// Leaves the navigator without changing directory.
    pub fn exit_navigation_mode(&mut self)
        requires
            old(self).wf(),
        ensures
            final(self).wf(),
            *final(self) == (App { mode: AppMode::Normal, ..*old(self) }),
    {
        self.mode = AppMode::Normal;
    }

    /// Leaves the navigator, adopting its commit target as the working
    /// directory and echoing `cd <path>`.
    pub fn confirm_navigation(&mut self)
        requires
            old(self).wf(),
        ensures
            final(self).wf(),
            navigation_committed(*old(self), *final(self)),
    {
        match self.navigation_state.commit_target() {
            Some(p) => {
                let mut line = String::from_str("cd ");
                append_str(&mut line, p.as_str());
                self.add_output(line.as_str());
                self.current_dir = p;
            },
            None => {},
        }
        self.mode = AppMode::Normal;
    }

    /// Opens the bookmark picker at the first slot, when there are bookmarks.
    pub fn enter_goto_mode(&mut self)
        requires
            old(self).wf(),
        ensures
            final(self).wf(),
            old(self).shortcuts.items().len() > 0 ==> *final(self) == (App {
                mode: AppMode::ShortcutSelection,
                selected_shortcut_index: 0,
                ..*old(self)
            }),
            old(self).shortcuts.items().len() == 0 ==> *final(self) == *old(self),
    {
        if !self.shortcuts.is_empty() {
            self.mode = AppMode::ShortcutSelection;
            self.selected_shortcut_index = 0;
        }
    }

    /// Leaves the bookmark picker.
    pub fn exit_goto_mode(&mut self)
        requires
            old(self).wf(),
        ensures
            final(self).wf(),
            *final(self) == (App { mode: AppMode::Normal, ..*old(self) }),
    {
        self.mode = AppMode::Normal;
    }

    /// Highlights the previous slot, stopping at the first.
    pub fn goto_move_up(&mut self)
        requires
            old(self).wf(),
        ensures
            final(self).wf(),
            *final(self) == (App { selected_shortcut_index: (if old(self).selected_shortcut_index > 0 {
                old(self).selected_shortcut_index - 1
            } else {
                0
            }) as usize, ..*old(self) }),
    {
        if self.selected_shortcut_index > 0 {
            self.selected_shortcut_index = self.selected_shortcut_index - 1;
        }
    }

    /// Highlights the next slot, stopping at the last shown one.
    pub fn goto_move_down(&mut self)
        requires
            old(self).wf(),
        ensures
            final(self).wf(),
            *final(self) == (App { selected_shortcut_index: (if old(self).selected_shortcut_index + 1
                < slot_count(old(self).shortcuts) {
                old(self).selected_shortcut_index + 1
            } else {
                old(self).selected_shortcut_index as int
            }) as usize, ..*old(self) }),
    {
        let n = self.shortcuts.len();
        let count = if n < 9 {
            n
        } else {
            9
        };
        if count > 0 && self.selected_shortcut_index < count - 1 {
            self.selected_shortcut_index = self.selected_shortcut_index + 1;
        }
    }

    /// Leaves the picker; asks to jump to the highlighted bookmark.
    pub fn confirm_goto(&mut self) -> (r: Effect)
        requires
            old(self).wf(),
        ensures
            final(self).wf(),
            *final(self) == (App { mode: AppMode::Normal, ..*old(self) }),
            old(self).selected_shortcut_index < slot_count(old(self).shortcuts) ==> (r matches Effect::JumpBookmark(p)
                && p@ == crate::bookmarks::recency_order(old(self).shortcuts.items())[old(
                self,
            ).selected_shortcut_index as int].path@),
            old(self).selected_shortcut_index >= slot_count(old(self).shortcuts) ==> r is Nothing,
    {
        let slot = self.shortcuts.get_shortcut(if self.selected_shortcut_index < 9 {
            self.selected_shortcut_index + 1
        } else {
            0
        });
        self.mode = AppMode::Normal;
        match slot {
            Some(s) => Effect::JumpBookmark(s.path),
            None => Effect::Nothing,
        }
    }

    /// Completes a jump to the bookmark of `path`: when the directory
    /// `exists`, adopts it, echoes `cd <path>` and records the access at
    /// `now`; otherwise reports it missing.
    pub fn finish_jump(&mut self, path: String, exists: bool, now: i64)
        requires
            old(self).wf(),
        ensures
            final(self).wf(),
            final(self).output@.len() == old(self).output@.len() + 1,
            final(self).output@.drop_last() == old(self).output@,
            exists ==> {
                &&& *final(self) == (App {
                    current_dir: final(self).current_dir,
                    output: final(self).output,
                    shortcuts: final(self).shortcuts,
                    ..*old(self)
                })
                &&& final(self).current_dir@ == path@
                &&& final(self).output@.last()@ == "cd "@ + path@
                &&& final(self).shortcuts.items() == touched(old(self).shortcuts.items(), path@, now)
            },
            !exists ==> {
                &&& *final(self) == (App { output: final(self).output, ..*old(self) })
                &&& final(self).output@.last()@ == "Error: "@ + path@ + " no longer exists"@
            },
    {
        if exists {
            let mut line = String::from_str("cd ");
            append_str(&mut line, path.as_str());
            self.add_output(line.as_str());
            self.shortcuts.touch_shortcut_at(path.as_str(), now);
            proof {
                assert(self.shortcuts.items().len() == old(self).shortcuts.items().len());
            }
            self.current_dir = path;
        } else {
            let mut line = String::from_str("Error: ");
            append_str(&mut line, path.as_str());
            append_str(&mut line, " no longer exists");
            self.add_output(line.as_str());
        }
    }

    /// Bookmarks the working directory at time `now` and reports it.
    pub fn save_bookmark_at(&mut self, now: i64)
        requires
            old(self).wf(),
        ensures
            final(self).wf(),
            *final(self) == (App { output: final(self).output, shortcuts: final(self).shortcuts, ..*old(self) }),
            final(self).output@.len() == old(self).output@.len() + 1,
            final(self).output@.drop_last() == old(self).output@,
            final(self).output@.last()@ == "Shortcut saved: "@ + old(self).current_dir@,
            final(self).shortcuts.items() == crate::bookmarks::added(
                old(self).shortcuts.items(),
                old(self).current_dir,
                now,
            ),
    {
        self.shortcuts.add_shortcut_at(self.current_dir.clone(), now);
        let mut line = String::from_str("Shortcut saved: ");
        append_str(&mut line, self.current_dir.as_str());
        self.add_output(line.as_str());
    }

    /// Executes the input line: echoes it after the prompt, records it in the
    /// history, empties the input, and acts on its intent.
    pub fn execute_input(&mut self) -> (r: Effect)
        requires
            old(self).wf(),
        ensures
            final(self).wf(),
            executed(*old(self), *final(self)),
            effect_for(r, classify(old(self).input@), old(self).current_dir@),
    {
        let line = self.input.clone();
        self.add_command_to_output(line.as_str());
        proof {
            assert(self.output@.drop_last() =~= old(self).output@);
        }
        self.add_to_history(line.as_str());
        self.clear_input();
        let cmd = parse_command(line.as_str());
        match cmd {
            ParsedCommand::Empty => Effect::Nothing,
            ParsedCommand::Cd(p) => match p {
                Some(t) => Effect::ChangeDirectory(t),
                None => Effect::ChangeDirectory(String::from_str("~")),
            },
            ParsedCommand::CdList => Effect::OpenNavigator(self.current_dir.clone()),
            ParsedCommand::Clear => {
                self.output = Vec::new();
                Effect::Nothing
            },
            ParsedCommand::Exit => {
                self.should_quit = true;
                Effect::Nothing
            },
            ParsedCommand::JermSave => Effect::SaveBookmark,
            ParsedCommand::JermGoto => {
                self.enter_goto_mode();
                Effect::Nothing
            },
            ParsedCommand::Shell(c) => Effect::RunShell(c),
        }
    }

    /// Completes a change of directory: adopts the resolved directory, or
    /// reports the error as `cd: <message>`.
    pub fn finish_cd(&mut self, result: Result<String, ExecutorError>)
        requires
            old(self).wf(),
        ensures
            final(self).wf(),
            match result {
                Ok(p) => *final(self) == (App { current_dir: p, ..*old(self) }),
                Err(e) => *final(self) == (App { output: final(self).output, ..*old(self) })
                    && final(self).output@.len() == old(self).output@.len() + 1
                    && final(self).output@.drop_last() == old(self).output@
                    && final(self).output@.last()@ == "cd: "@ + crate::executor::error_text(e),
            },
    {
        match result {
            Ok(p) => {
                self.current_dir = p;
            },
            Err(e) => {
                let mut line = String::from_str("cd: ");
                let m = e.message();
                append_str(&mut line, m.as_str());
                self.add_output(line.as_str());
            },
        }
    }

    /// Completes a shell command: appends its output lines, standard output
    /// first, or reports why it could not run.
    pub fn finish_shell(&mut self, result: Result<CommandResult, ExecutorError>)
        requires
            old(self).wf(),
        ensures
            final(self).wf(),
            *final(self) == (App { output: final(self).output, ..*old(self) }),
            match result {
                Ok(c) => final(self).output@ == old(self).output@ + c.stdout@ + c.stderr@,
                Err(e) => final(self).output@.len() == old(self).output@.len() + 1
                    && final(self).output@.drop_last() == old(self).output@
                    && final(self).output@.last()@ == "Error: "@ + crate::executor::error_text(e),
            },
    {
        match result {
            Ok(c) => {
                let lines = c.all_lines();
                let mut i: usize = 0;
                let ghost start = self.output@;
                while i < lines.len()
                    invariant
                        i <= lines@.len(),
                        self.output@ == start + lines@.subrange(0, i as int),
                        *self == (App { output: self.output, ..*old(self) }),
                    decreases lines@.len() - i,
                {
                    self.output.push(lines[i].clone());
                    proof {
                        assert(self.output@ =~= start + lines@.subrange(0, i + 1));
                    }
                    i = i + 1;
                }
                proof {
                    assert(lines@.subrange(0, lines@.len() as int) =~= lines@);
                    assert(start + (c.stdout@ + c.stderr@) =~= start + c.stdout@ + c.stderr@);
                }
            },
            Err(e) => {
                let mut line = String::from_str("Error: ");
                let m = e.message();
                append_str(&mut line, m.as_str());
                self.add_output(line.as_str());
            },
        }
    }

    /// The status request owed after a change of working directory: one for
    /// each directory the session moves to, without synchronizing.
    pub fn status_request(&mut self) -> (r: Option<GitMessage>)
        requires
            old(self).wf(),
        ensures
            final(self).wf(),
            *final(self) == (App { status_dir: Some(old(self).current_dir), ..*old(self) }),
            (old(self).status_dir matches Some(d) && d@ == old(self).current_dir@) ==> r is None,
            !(old(self).status_dir matches Some(d) && d@ == old(self).current_dir@) ==> (r matches Some(
                GitMessage::UpdateStatus { dir, with_fetch },
            ) && dir@ == old(self).current_dir@ && !with_fetch),
    {
        let same = match &self.status_dir {
            Some(d) => *d == self.current_dir,
            None => false,
        };
        if same {
            let ghost d = self.status_dir;
            assert(d matches Some(x) && x@ == self.current_dir@);
            self.status_dir = Some(self.current_dir.clone());
            None
        } else {
            self.status_dir = Some(self.current_dir.clone());
            Some(GitMessage::UpdateStatus { dir: self.current_dir.clone(), with_fetch: false })
        }
    }

    /// Takes in the worker's messages, the newest status winning, and asks
    /// for a synchronizing refresh once `elapsed_ms` since the last such
    /// request reaches the interval.
    pub fn poll_git_updates(&mut self, msgs: &Vec<GitMessage>, elapsed_ms: u64) -> (r: Option<GitMessage>)
        requires
            old(self).wf(),
        ensures
            final(self).wf(),
            *final(self) == (App { git_status: last_status(msgs@, old(self).git_status), ..*old(self) }),
            elapsed_ms >= FETCH_INTERVAL_MS ==> (r matches Some(
                GitMessage::UpdateStatus { dir, with_fetch },
            ) && dir@ == old(self).current_dir@ && with_fetch),
            elapsed_ms < FETCH_INTERVAL_MS ==> r is None,
    {
        let mut i: usize = 0;
        while i < msgs.len()
            invariant
                i <= msgs@.len(),
                self.git_status == last_status(msgs@.subrange(0, i as int), old(self).git_status),
                *self == (App { git_status: self.git_status, ..*old(self) }),
            decreases msgs@.len() - i,
        {
            proof {
                assert(msgs@.subrange(0, i + 1).drop_last() =~= msgs@.subrange(0, i as int));
            }
            match &msgs[i] {
                GitMessage::StatusUpdate(st) => {
                    self.git_status = copy_status(st);
                },
                _ => {},
            }
            i = i + 1;
        }
        proof {
            assert(msgs@.subrange(0, msgs@.len() as int) =~= msgs@);
        }
        if elapsed_ms >= FETCH_INTERVAL_MS {
            Some(GitMessage::UpdateStatus { dir: self.current_dir.clone(), with_fetch: true })
        } else {
            None
        }
    }
}


/// The bookmark slot that control and a digit from 1 to 9 jump to.
pub open spec fn slot_key(key: Key) -> Option<int> {
    match key {
        Key::Ctrl(c) => if '1' <= c && c <= '9' {
            Some(c as int - '0' as int)
        } else {
            None
        },
        _ => None,
    }
}

/// The jump that bookmark slot `slot` asks for: none when the slot is empty.
pub open spec fn jump_for(e: Effect, m: ShortcutManager, slot: int) -> bool {
    if slot <= m.items().len() {
        e matches Effect::JumpBookmark(p) && p@ == crate::bookmarks::recency_order(m.items())[slot
            - 1].path@
    } else {
        e is Nothing
    }
}

/// A control key that does nothing.
pub open spec fn idle_ctrl(c: char) -> bool {
    !('1' <= c && c <= '9') && c != 'c' && c != 'd' && c != 'l' && c != 'a' && c != 'e' && c
        != 'u'
}

/// What a key does while a command line is edited (`o` before, `n` after).
pub open spec fn normal_key_post(o: App, n: App, key: Key, r: Effect) -> bool {
    &&& (key is Enter ==> executed(o, n) && effect_for(r, classify(o.input@), o.current_dir@))
    &&& (slot_key(key) is Some ==> jump_for(r, o.shortcuts, slot_key(key)->0) && n == o)
    &&& (!(key is Enter) && slot_key(key) is None ==> r is Nothing)
    &&& (key == Key::Ctrl('c') && o.input@.len() == 0 ==> n == (App { should_quit: true, ..o }))
    &&& (key == Key::Ctrl('c') && o.input@.len() > 0 ==> {
        &&& n == (App {
            output: n.output,
            input: n.input,
            cursor_pos: 0,
            history_index: None,
            ..o
        })
        &&& n.input@.len() == 0
        &&& n.output@.len() == o.output@.len() + 1
        &&& n.output@.drop_last() == o.output@
        &&& n.output@.last()@ == prompt_of(o.current_dir@, opt_view(o.home), o.git_status)
            + o.input@ + "^C"@
    })
    &&& (key == Key::Ctrl('d') ==> n == (App {
        should_quit: (o.should_quit || o.input@.len() == 0),
        ..o
    }))
    &&& (key == Key::Ctrl('l') ==> n == (App { output: n.output, ..o }) && n.output@.len() == 0)
    &&& (key == Key::Ctrl('u') || key is Esc ==> n == (App {
        input: n.input,
        cursor_pos: 0,
        history_index: None,
        ..o
    }) && n.input@.len() == 0)
    &&& (key == Key::Ctrl('a') || key is Home ==> n == (App { cursor_pos: 0, ..o }))
    &&& (key == Key::Ctrl('e') || key is End ==> n == (App {
        cursor_pos: o.input@.len() as usize,
        ..o
    }))
    &&& (key is Left ==> n == (App {
        cursor_pos: (if o.cursor_pos > 0 {
            o.cursor_pos - 1
        } else {
            0
        }) as usize,
        ..o
    }))
    &&& (key is Right ==> n == (App {
        cursor_pos: (if o.cursor_pos < o.input@.len() {
            o.cursor_pos + 1
        } else {
            o.cursor_pos as int
        }) as usize,
        ..o
    }))
    &&& (key is Backspace && o.cursor_pos > 0 ==> n == (App {
        input: n.input,
        cursor_pos: (o.cursor_pos - 1) as usize,
        ..o
    }) && n.input@ == o.input@.remove(o.cursor_pos - 1))
    &&& (key is Backspace && o.cursor_pos == 0 ==> n == o)
    &&& (key is Up && o.history@.len() == 0 ==> n == o)
    &&& (key is Up && o.history@.len() > 0 ==> ({
        let i = match o.history_index {
            None => o.history@.len() - 1,
            Some(j) => if j == 0 {
                0
            } else {
                j - 1
            },
        };
        &&& n == (App {
            input: n.input,
            cursor_pos: n.cursor_pos,
            history_index: Some(i as usize),
            ..o
        })
        &&& n.input@ == o.history@[i]@
        &&& n.cursor_pos == n.input@.len()
    }))
    &&& (key is Down ==> match o.history_index {
        None => n == o,
        Some(i) => if i + 1 >= o.history@.len() {
            n == (App { input: n.input, cursor_pos: 0, history_index: None, ..o })
                && n.input@.len() == 0
        } else {
            &&& n == (App {
                input: n.input,
                cursor_pos: n.cursor_pos,
                history_index: Some((i + 1) as usize),
                ..o
            })
            &&& n.input@ == o.history@[i + 1]@
            &&& n.cursor_pos == n.input@.len()
        },
    })
    &&& (key matches Key::Char(c) ==> n == (App {
        input: n.input,
        cursor_pos: (o.cursor_pos + 1) as usize,
        ..o
    }) && n.input@ == o.input@.insert(o.cursor_pos as int, c))
    &&& (key is Tab || key is Other || (key matches Key::Ctrl(c) && idle_ctrl(c)) ==> n == o)
}

/// What a key does in the directory navigator (`o` before, `n` after).
pub open spec fn navigation_key_post(o: App, n: App, key: Key, r: Effect) -> bool {
    let nav = o.navigation_state;
    &&& (key is Up ==> {
        &&& n == (App { navigation_state: n.navigation_state, ..o })
        &&& n.navigation_state.current_path == nav.current_path
        &&& n.navigation_state.entries == nav.entries
        &&& n.navigation_state.selected_index == (if nav.selected_index > 0 {
            nav.selected_index - 1
        } else {
            0
        })
        &&& n.navigation_state.scroll_offset == (if nav.selected_index > 0
            && n.navigation_state.selected_index < nav.scroll_offset {
            n.navigation_state.selected_index
        } else {
            nav.scroll_offset
        })
    })
    &&& (key is Down ==> {
        &&& n == (App { navigation_state: n.navigation_state, ..o })
        &&& n.navigation_state.current_path == nav.current_path
        &&& n.navigation_state.entries == nav.entries
        &&& n.navigation_state.selected_index == (if nav.selected_index + 1
            < nav.entries@.len() {
            nav.selected_index + 1
        } else {
            nav.selected_index as int
        })
        &&& n.navigation_state.scroll_offset == nav.scroll_offset
    })
    &&& (key is Right ==> n == o && match enter_target_of(nav) {
        Some(t) => r matches Effect::EnterDirectory(p) && p@ == t,
        None => r is Nothing,
    })
    &&& (key is Left ==> n == o && match crate::browser::parent_of(nav.current_path@) {
        Some(t) => r matches Effect::LeaveDirectory(p) && p@ == t,
        None => r is Nothing,
    })
    &&& (!(key is Right) && !(key is Left) ==> r is Nothing)
    &&& (key is Enter ==> navigation_committed(o, n))
    &&& (key is Esc ==> n == (App { mode: AppMode::Normal, ..o }))
    &&& (!(key is Up) && !(key is Down) && !(key is Right) && !(key is Left) && !(key is Enter)
        && !(key is Esc) ==> n == o)
}

/// What a key does in the bookmark picker (`o` before, `n` after).
pub open spec fn goto_key_post(o: App, n: App, key: Key, r: Effect) -> bool {
    &&& (key is Up ==> n == (App {
        selected_shortcut_index: (if o.selected_shortcut_index > 0 {
            o.selected_shortcut_index - 1
        } else {
            0
        }) as usize,
        ..o
    }))
    &&& (key is Down ==> n == (App {
        selected_shortcut_index: (if o.selected_shortcut_index + 1 < slot_count(o.shortcuts) {
            o.selected_shortcut_index + 1
        } else {
            o.selected_shortcut_index as int
        }) as usize,
        ..o
    }))
    &&& (key is Enter ==> n == (App { mode: AppMode::Normal, ..o }) && (r matches Effect::JumpBookmark(
        p,
    ) && p@ == crate::bookmarks::recency_order(
        o.shortcuts.items(),
    )[o.selected_shortcut_index as int].path@))
    &&& (key is Esc ==> n == (App { mode: AppMode::Normal, ..o }) && r is Nothing)
    &&& (!(key is Enter) ==> r is Nothing)
    &&& (!(key is Up) && !(key is Down) && !(key is Enter) && !(key is Esc) ==> n == o)
}

impl App {
    /// Key handling while editing a command line.
    fn handle_normal_key(&mut self, key: Key) -> (r: Effect)
        requires
            old(self).wf(),
            old(self).mode == AppMode::Normal,
            old(self).input@.len() < usize::MAX,
        ensures
            final(self).wf(),
            normal_key_post(*old(self), *final(self), key, r),
    {
        match key {
            Key::Ctrl(c) => {
                if '1' <= c && c <= '9' {
                    let slot = (c as u32 - '0' as u32) as usize;
                    match self.shortcuts.get_shortcut(slot) {
                        Some(s) => Effect::JumpBookmark(s.path),
                        None => Effect::Nothing,
                    }
                } else if c == 'c' {
                    if self.input.as_str().unicode_len() == 0 {
                        self.should_quit = true;
                    } else {
                        let mut line = self.prompt();
                        append_str(&mut line, self.input.as_str());
                        append_str(&mut line, "^C");
                        self.add_output(line.as_str());
                        self.clear_input();
                    }
                    Effect::Nothing
                } else if c == 'd' {
                    if self.input.as_str().unicode_len() == 0 {
                        self.should_quit = true;
                    }
                    Effect::Nothing
                } else if c == 'l' {
                    self.output = Vec::new();
                    Effect::Nothing
                } else if c == 'a' {
                    self.cursor_home();
                    Effect::Nothing
                } else if c == 'e' {
                    self.cursor_end();
                    Effect::Nothing
                } else if c == 'u' {
                    self.clear_input();
                    Effect::Nothing
                } else {
                    Effect::Nothing
                }
            },
            Key::Enter => self.execute_input(),
            Key::Backspace => {
                self.delete_char();
                Effect::Nothing
            },
            Key::Left => {
                self.cursor_left();
                Effect::Nothing
            },
            Key::Right => {
                self.cursor_right();
                Effect::Nothing
            },
            Key::Up => {
                self.history_prev();
                Effect::Nothing
            },
            Key::Down => {
                self.history_next();
                Effect::Nothing
            },
            Key::Home => {
                self.cursor_home();
                Effect::Nothing
            },
            Key::End => {
                self.cursor_end();
                Effect::Nothing
            },
            Key::Esc => {
                self.clear_input();
                Effect::Nothing
            },
            Key::Char(c) => {
                self.insert_char(c);
                Effect::Nothing
            },
            Key::Tab | Key::Other => Effect::Nothing,
        }
    }

    /// Key handling in the directory navigator.
    fn handle_navigation_key(&mut self, key: Key) -> (r: Effect)
        requires
            old(self).wf(),
            old(self).mode == AppMode::NavigationList,
        ensures
            final(self).wf(),
            navigation_key_post(*old(self), *final(self), key, r),
    {
        match key {
            Key::Up => {
                self.navigation_state.move_up();
                Effect::Nothing
            },
            Key::Down => {
                self.navigation_state.move_down();
                Effect::Nothing
            },
            Key::Right => match self.navigation_state.enter_target() {
                Some(t) => Effect::EnterDirectory(t),
                None => Effect::Nothing,
            },
            Key::Left => match self.navigation_state.go_up_target() {
                Some(p) => Effect::LeaveDirectory(p),
                None => Effect::Nothing,
            },
            Key::Enter => {
                self.confirm_navigation();
                Effect::Nothing
            },
            Key::Esc => {
                self.exit_navigation_mode();
                Effect::Nothing
            },
            _ => Effect::Nothing,
        }
    }

    /// Key handling in the bookmark picker.
    fn handle_goto_key(&mut self, key: Key) -> (r: Effect)
        requires
            old(self).wf(),
            old(self).mode == AppMode::ShortcutSelection,
        ensures
            final(self).wf(),
            goto_key_post(*old(self), *final(self), key, r),
    {
        match key {
            Key::Up => {
                self.goto_move_up();
                Effect::Nothing
            },
            Key::Down => {
                self.goto_move_down();
                Effect::Nothing
            },
            Key::Enter => self.confirm_goto(),
            Key::Esc => {
                self.exit_goto_mode();
                Effect::Nothing
            },
            _ => Effect::Nothing,
        }
    }

    /// Handles one key event in the current mode, and names the outside
    /// work that it asks for.
    pub fn handle_key(&mut self, key: Key) -> (r: Effect)
        requires
            old(self).wf(),
            old(self).input@.len() < usize::MAX,
        ensures
            final(self).wf(),
            old(self).mode == AppMode::Normal ==> normal_key_post(*old(self), *final(self), key, r),
            old(self).mode == AppMode::NavigationList ==> navigation_key_post(
                *old(self),
                *final(self),
                key,
                r,
            ),
            old(self).mode == AppMode::ShortcutSelection ==> goto_key_post(
                *old(self),
                *final(self),
                key,
                r,
            ),
    {
        match self.mode {
            AppMode::Normal => self.handle_normal_key(key),
            AppMode::NavigationList => self.handle_navigation_key(key),
            AppMode::ShortcutSelection => self.handle_goto_key(key),
        }
    }
}

/// How a piece of the prompt is drawn.
#[derive(Debug, Clone, Copy, PartialEq, Eq, Structural)]
pub enum PromptPart {
    /// Directory, separators and the final `$ `.
    Plain,
    /// Branch name and dirty marker.
    Branch,
    /// Ahead and behind counts.
    Counts,
}

/// The pieces of the repository label, in order.
pub open spec fn git_segments(g: Option<GitStatus>) -> Seq<(Seq<char>, PromptPart)> {
    match g {
        Some(s) => if s.branch@.len() > 0 {
            seq![(s.branch@, PromptPart::Branch)] + (if s.is_dirty {
                seq![("*"@, PromptPart::Branch)]
            } else {
                Seq::empty()
            }) + (if s.ahead > 0 {
                seq![(" "@, PromptPart::Plain), ("\u{2191}"@ + decimal(s.ahead as nat), PromptPart::Counts)]
            } else {
                Seq::empty()
            }) + (if s.behind > 0 {
                seq![(" "@, PromptPart::Plain), ("\u{2193}"@ + decimal(s.behind as nat), PromptPart::Counts)]
            } else {
                Seq::empty()
            }) + seq![(" "@, PromptPart::Plain)]
        } else {
            Seq::empty()
        },
        None => Seq::empty(),
    }
}

/// The prompt in pieces: the directory and a space, the repository label,
/// and `$ `.
pub open spec fn prompt_segments_of(
    dir: Seq<char>,
    home: Option<Seq<char>>,
    g: Option<GitStatus>,
) -> Seq<(Seq<char>, PromptPart)> {
    seq![(abbreviated(dir, home) + " "@, PromptPart::Plain)] + git_segments(g) + seq![("$ "@, PromptPart::Plain)]
}

pub open spec fn segment_views(v: Seq<(String, PromptPart)>) -> Seq<(Seq<char>, PromptPart)> {
    v.map_values(|p: (String, PromptPart)| (p.0@, p.1))
}

fn push_segment(v: &mut Vec<(String, PromptPart)>, text: String, part: PromptPart)
    ensures
        segment_views(final(v)@) == segment_views(old(v)@).push((text@, part)),
{
    let ghost before = v@;
    v.push((text, part));
    assert(segment_views(v@) =~= segment_views(before).push((text@, part)));
}

impl App {
    /// The prompt in pieces, each with how it is drawn.
    pub fn prompt_segments(&self) -> (r: Vec<(String, PromptPart)>)
        ensures
            segment_views(r@) == prompt_segments_of(self.current_dir@, opt_view(self.home), self.git_status),
    {
        let mut r: Vec<(String, PromptPart)> = Vec::new();
        let mut dir = abbreviate_home(self.current_dir.as_str(), &self.home);
        append_str(&mut dir, " ");
        push_segment(&mut r, dir, PromptPart::Plain);
        let ghost head = segment_views(r@);
        match &self.git_status {
            Some(g) => {
                if g.branch.as_str().unicode_len() > 0 {
                    push_segment(&mut r, g.branch.clone(), PromptPart::Branch);
                    if g.is_dirty {
                        push_segment(&mut r, String::from_str("*"), PromptPart::Branch);
                    }
                    if g.ahead > 0 {
                        push_segment(&mut r, String::from_str(" "), PromptPart::Plain);
                        let mut t = String::from_str("\u{2191}");
                        let d = decimal_string(g.ahead as u64);
                        append_str(&mut t, d.as_str());
                        push_segment(&mut r, t, PromptPart::Counts);
                    }
                    if g.behind > 0 {
                        push_segment(&mut r, String::from_str(" "), PromptPart::Plain);
                        let mut t = String::from_str("\u{2193}");
                        let d = decimal_string(g.behind as u64);
                        append_str(&mut t, d.as_str());
                        push_segment(&mut r, t, PromptPart::Counts);
                    }
                    push_segment(&mut r, String::from_str(" "), PromptPart::Plain);
                }
            },
            None => {},
        }
        push_segment(&mut r, String::from_str("$ "), PromptPart::Plain);
        proof {
            let g = self.git_status;
            assert(segment_views(r@) =~= prompt_segments_of(self.current_dir@, opt_view(self.home), g));
        }
        r
    }
}

/// The texts of prompt pieces, joined.
pub open spec fn segments_text(v: Seq<(Seq<char>, PromptPart)>) -> Seq<char>
    decreases v.len(),
{
    if v.len() == 0 {
        Seq::empty()
    } else {
        v[0].0 + segments_text(v.drop_first())
    }
}

proof fn lemma_segments_text_append(a: Seq<(Seq<char>, PromptPart)>, b: Seq<(Seq<char>, PromptPart)>)
    ensures
        segments_text(a + b) == segments_text(a) + segments_text(b),
    decreases a.len(),
{
    if a.len() == 0 {
        assert(a + b =~= b);
    } else {
        lemma_segments_text_append(a.drop_first(), b);
        assert((a + b).drop_first() =~= a.drop_first() + b);
    }
}

proof fn lemma_segments_text_one(t: Seq<char>, p: PromptPart)
    ensures
        segments_text(seq![(t, p)]) == t,
{
    let s1 = seq![(t, p)];
    let e = Seq::<(Seq<char>, PromptPart)>::empty();
    assert(s1.drop_first() =~= e);
    assert(segments_text(e) == Seq::<char>::empty());
    assert(segments_text(s1) == s1[0].0 + segments_text(s1.drop_first()));
    assert(t + Seq::<char>::empty() =~= t);
}

proof fn lemma_segments_text_two(t: Seq<char>, p: PromptPart, u: Seq<char>, q: PromptPart)
    ensures
        segments_text(seq![(t, p), (u, q)]) == t + u,
{
    assert(seq![(t, p), (u, q)] =~= seq![(t, p)] + seq![(u, q)]);
    lemma_segments_text_append(seq![(t, p)], seq![(u, q)]);
    lemma_segments_text_one(t, p);
    lemma_segments_text_one(u, q);
}

/// The prompt's pieces, joined, are the prompt.
pub proof fn lemma_prompt_segments_text(dir: Seq<char>, home: Option<Seq<char>>, g: Option<GitStatus>)
    ensures
        segments_text(prompt_segments_of(dir, home, g)) == prompt_of(dir, home, g),
{
    let first = seq![(abbreviated(dir, home) + " "@, PromptPart::Plain)];
    let last = seq![("$ "@, PromptPart::Plain)];
    lemma_segments_text_append(first + git_segments(g), last);
    lemma_segments_text_append(first, git_segments(g));
    lemma_segments_text_one(abbreviated(dir, home) + " "@, PromptPart::Plain);
    lemma_segments_text_one("$ "@, PromptPart::Plain);
    let e = Seq::<(Seq<char>, PromptPart)>::empty();
    assert(segments_text(e) == Seq::<char>::empty());
    match g {
        Some(st) => {
            if st.branch@.len() > 0 {
                let b = seq![(st.branch@, PromptPart::Branch)];
                let d = if st.is_dirty {
                    seq![("*"@, PromptPart::Branch)]
                } else {
                    e
                };
                let a = if st.ahead > 0 {
                    seq![(" "@, PromptPart::Plain), ("\u{2191}"@ + decimal(st.ahead as nat), PromptPart::Counts)]
                } else {
                    e
                };
                let h = if st.behind > 0 {
                    seq![(" "@, PromptPart::Plain), ("\u{2193}"@ + decimal(st.behind as nat), PromptPart::Counts)]
                } else {
                    e
                };
                let sp = seq![(" "@, PromptPart::Plain)];
                lemma_segments_text_append(b + d + a + h, sp);
                lemma_segments_text_append(b + d + a, h);
                lemma_segments_text_append(b + d, a);
                lemma_segments_text_append(b, d);
                lemma_segments_text_one(st.branch@, PromptPart::Branch);
                lemma_segments_text_one("*"@, PromptPart::Branch);
                lemma_segments_text_one(" "@, PromptPart::Plain);
                lemma_segments_text_two(" "@, PromptPart::Plain, "\u{2191}"@ + decimal(st.ahead as nat), PromptPart::Counts);
                lemma_segments_text_two(" "@, PromptPart::Plain, "\u{2193}"@ + decimal(st.behind as nat), PromptPart::Counts);
                assert(" "@ + ("\u{2191}"@ + decimal(st.ahead as nat)) =~= " \u{2191}"@ + decimal(st.ahead as nat)) by {
                    reveal_strlit(" ");
                    reveal_strlit("\u{2191}");
                    reveal_strlit(" \u{2191}");
                }
                assert(" "@ + ("\u{2193}"@ + decimal(st.behind as nat)) =~= " \u{2193}"@ + decimal(st.behind as nat)) by {
                    reveal_strlit(" ");
                    reveal_strlit("\u{2193}");
                    reveal_strlit(" \u{2193}");
                }
            }
        },
        None => {},
    }
    assert(segments_text(prompt_segments_of(dir, home, g)) =~= prompt_of(dir, home, g));
}

} // verus!
