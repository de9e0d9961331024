//! Interactive editor state machine.
//!
//! `App` holds the edit buffer and cursor; [`App::handle`] applies an
//! [`Action`] as a pure state transition (no terminal, no repository),
//! so the whole interaction is specified here: [`handle_spec`] says what
//! each action does to the editor's abstract state.

use vstd::prelude::*;
use crate::cli::{mode_name, EditMode};
use crate::datetime::{format_civil, parse_error_message, parse_spec, wall_clock, Component, Stamp};
use crate::input::{context_action, Action, Context, KeyCode, KeyEvent};
use crate::model::{
    bump_accepts, bump_all_spec, can_distribute, copy_from_previous_spec, distribute_fits,
    distribute_spec, reset_spec, set_accepts, set_all_spec, some_changed, EditableCommit, Target,
};
use crate::text::{pop_char, push_char};

verus! {

/// Which of a commit's two timestamps is focused (when expanded).
#[derive(Clone, Copy, Debug, PartialEq, Eq, Structural)]
pub enum SubField {
    Author,
    Committer,
}

/// What a confirmation prompt will do if accepted.
#[derive(Clone, Copy, Debug, PartialEq, Eq, Structural)]
pub enum ConfirmKind {
    Write,
    Quit,
}

/// Top-level interaction mode.
#[derive(Clone, Debug, PartialEq, Eq)]
pub enum Mode {
    Navigate,
    /// Typing an absolute date into the focused field.
    Editing { buffer: String },
    /// Awaiting y/N for a write or a discard-and-quit.
    Confirm { kind: ConfirmKind },
}

/// The interactive editor state.
pub struct App {
    pub commits: Vec<EditableCommit>,
    pub selected: usize,
    pub component: Component,
    pub sub: SubField,
    pub edit_mode: EditMode,
    pub mode: Mode,
    pub dry_run: bool,
    pub message: Option<String>,
    pub show_help: bool,
    pub quit: bool,
    pub write_requested: bool,
}

/// The abstract value of a [`Mode`].
pub enum ModeView {
    Navigate,
    Editing { buffer: Seq<char> },
    Confirm { kind: ConfirmKind },
}

/// The abstract value of an [`App`].
pub struct AppView {
    pub commits: Seq<EditableCommit>,
    pub selected: int,
    pub component: Component,
    pub sub: SubField,
    pub edit_mode: EditMode,
    pub mode: ModeView,
    pub dry_run: bool,
    pub message: Option<Seq<char>>,
    pub show_help: bool,
    pub quit: bool,
    pub write_requested: bool,
}

/// The abstract value of a mode.
pub open spec fn mode_view(m: Mode) -> ModeView {
    match m {
        Mode::Navigate => ModeView::Navigate,
        Mode::Editing { buffer } => ModeView::Editing { buffer: buffer@ },
        Mode::Confirm { kind } => ModeView::Confirm { kind },
    }
}

impl View for App {
    type V = AppView;

    open spec fn view(&self) -> AppView {
        AppView {
            commits: self.commits@,
            selected: self.selected as int,
            component: self.component,
            sub: self.sub,
            edit_mode: self.edit_mode,
            mode: mode_view(self.mode),
            dry_run: self.dry_run,
            message: match self.message {
                Some(m) => Some(m@),
                None => None,
            },
            show_help: self.show_help,
            quit: self.quit,
            write_requested: self.write_requested,
        }
    }
}

/// The selected commit is expanded.
pub open spec fn expanded_spec(v: AppView) -> bool {
    0 <= v.selected < v.commits.len() && v.commits[v.selected].expanded
}

/// The datetime fields the cursor moves through, collapsed vs expanded
/// (the offset is only editable in the expanded view).
pub open spec fn components_spec(expanded: bool) -> Seq<Component> {
    if expanded {
        seq![
            Component::Year,
            Component::Month,
            Component::Day,
            Component::Hour,
            Component::Minute,
            Component::Offset,
        ]
    } else {
        seq![Component::Year, Component::Month, Component::Day, Component::Hour, Component::Minute]
    }
}

/// Where `c` stands in the field cycle, or 0 when it is not in it.
pub open spec fn component_index(c: Component, expanded: bool) -> int {
    match c {
        Component::Year => 0,
        Component::Month => 1,
        Component::Day => 2,
        Component::Hour => 3,
        Component::Minute => 4,
        Component::Offset => if expanded { 5 } else { 0 },
    }
}

/// The field `delta` steps along the cycle from the current one.
pub open spec fn moved_component(v: AppView, delta: int) -> Component {
    let comps = components_spec(expanded_spec(v));
    let len = comps.len() as int;
    comps[(component_index(v.component, expanded_spec(v)) + delta) % len]
}

/// Which timestamp(s) an edit targets given the current view.
pub open spec fn target_spec(v: AppView) -> Target {
    if expanded_spec(v) {
        match v.sub {
            SubField::Author => Target::Author,
            SubField::Committer => Target::Committer,
        }
    } else {
        Target::Both
    }
}

/// The stamp currently under the cursor.
pub open spec fn focused_spec(v: AppView) -> Option<Stamp> {
    if 0 <= v.selected < v.commits.len() {
        Some(
            if expanded_spec(v) && v.sub == SubField::Committer {
                v.commits[v.selected].committer
            } else {
                v.commits[v.selected].author
            },
        )
    } else {
        None
    }
}

/// Shift mode cascades edits to newer commits.
pub open spec fn cascade_spec(v: AppView) -> bool {
    v.edit_mode == EditMode::Shift
}

/// The keymap for the current mode.
pub open spec fn context_spec(v: AppView) -> Context {
    match v.mode {
        ModeView::Editing { .. } => Context::Editing,
        ModeView::Confirm { .. } => Context::Confirm,
        ModeView::Navigate => Context::Navigate,
    }
}

/// `w` writes straight through with nothing to confirm, else prompts.
pub open spec fn request_write_spec(v: AppView, force: bool) -> AppView {
    if force || !some_changed(v.commits) {
        AppView { write_requested: true, quit: true, ..v }
    } else {
        AppView { mode: ModeView::Confirm { kind: ConfirmKind::Write }, ..v }
    }
}

/// `q` quits straight through with nothing to discard, else prompts.
pub open spec fn request_quit_spec(v: AppView, force: bool) -> AppView {
    if force || !some_changed(v.commits) {
        AppView { quit: true, ..v }
    } else {
        AppView { mode: ModeView::Confirm { kind: ConfirmKind::Quit }, ..v }
    }
}

/// Expanding or collapsing the selected row.
pub open spec fn toggle_expand_spec(v: AppView) -> AppView {
    let commits = if 0 <= v.selected < v.commits.len() {
        v.commits.update(
            v.selected,
            EditableCommit { expanded: !v.commits[v.selected].expanded, ..v.commits[v.selected] },
        )
    } else {
        v.commits
    };
    let w = AppView { commits, sub: SubField::Author, ..v };
    // Leaving the expanded view drops the offset field from the cycle.
    if !expanded_spec(w) && w.component == Component::Offset {
        AppView { component: Component::Minute, ..w }
    } else {
        w
    }
}

/// The editor after an action in navigation mode.
pub open spec fn navigate_spec(v: AppView, action: Action) -> AppView {
    match action {
        Action::PrevRow => AppView { selected: if v.selected > 0 { v.selected - 1 } else { 0 }, ..v },
        Action::NextRow => if v.selected + 1 < v.commits.len() {
            AppView { selected: v.selected + 1, ..v }
        } else {
            v
        },
        Action::PrevComponent => AppView { component: moved_component(v, -1), ..v },
        Action::NextComponent => AppView { component: moved_component(v, 1), ..v },
        Action::Increment => AppView {
            commits: bump_all_spec(v.commits, v.selected, target_spec(v), v.component, 1, cascade_spec(v)),
            ..v
        },
        Action::Decrement => AppView {
            commits: bump_all_spec(v.commits, v.selected, target_spec(v), v.component, -1, cascade_spec(v)),
            ..v
        },
        Action::ToggleExpand => toggle_expand_spec(v),
        Action::ToggleSubField => if expanded_spec(v) {
            AppView {
                sub: match v.sub {
                    SubField::Author => SubField::Committer,
                    SubField::Committer => SubField::Author,
                },
                ..v
            }
        } else {
            v
        },
        Action::ToggleMode => {
            let m = match v.edit_mode {
                EditMode::Single => EditMode::Shift,
                EditMode::Shift => EditMode::Single,
            };
            AppView { edit_mode: m, message: Some("mode: "@ + mode_name(m)), ..v }
        },
        Action::CopyPrevious => AppView { commits: copy_from_previous_spec(v.commits, v.selected), ..v },
        Action::Distribute => AppView {
            commits: distribute_spec(v.commits),
            message: Some("distributed evenly"@),
            ..v
        },
        Action::ResetRow => AppView { commits: reset_spec(v.commits, v.selected), ..v },
        Action::BeginEdit => match focused_spec(v) {
            Some(s) => AppView { mode: ModeView::Editing { buffer: format_civil(wall_clock(s)) }, ..v },
            None => v,
        },
        Action::ToggleHelp => AppView { show_help: !v.show_help, ..v },
        Action::Write => request_write_spec(v, false),
        Action::WriteForce => request_write_spec(v, true),
        Action::Quit => request_quit_spec(v, false),
        _ => v,
    }
}

/// The offset a typed date is read in: that of the focused stamp.
pub open spec fn edit_offset(v: AppView) -> int {
    match focused_spec(v) {
        Some(s) => s.offset as int,
        None => 0,
    }
}

/// The editor after an action while typing a date.
pub open spec fn editing_spec(v: AppView, buffer: Seq<char>, action: Action) -> AppView {
    match action {
        Action::Char(c) => AppView { mode: ModeView::Editing { buffer: buffer.push(c) }, ..v },
        Action::Backspace => if buffer.len() > 0 {
            AppView { mode: ModeView::Editing { buffer: buffer.drop_last() }, ..v }
        } else {
            v
        },
        Action::CancelEdit => AppView { mode: ModeView::Navigate, ..v },
        Action::CommitEdit => match parse_spec(buffer, edit_offset(v)) {
            Ok(stamp) => AppView {
                commits: set_all_spec(v.commits, v.selected, target_spec(v), stamp, cascade_spec(v)),
                mode: ModeView::Navigate,
                ..v
            },
            // Stay in edit mode so the user can fix the text.
            Err(text) => AppView { message: Some(parse_error_message(text)), ..v },
        },
        _ => v,
    }
}

/// The editor after an action at a confirmation prompt.
pub open spec fn confirm_spec(v: AppView, kind: ConfirmKind, action: Action) -> AppView {
    match action {
        Action::ConfirmYes => match kind {
            ConfirmKind::Write => AppView { write_requested: true, quit: true, ..v },
            ConfirmKind::Quit => AppView { quit: true, ..v },
        },
        Action::ConfirmNo => AppView { mode: ModeView::Navigate, ..v },
        _ => v,
    }
}

/// What [`App::handle`] does: the message is cleared, a hard abort quits
/// from any mode, and otherwise the current mode's keymap applies.
pub open spec fn handle_spec(v: AppView, action: Action) -> AppView {
    let v = AppView { message: None, ..v };
    if action == Action::QuitForce {
        AppView { quit: true, ..v }
    } else {
        match v.mode {
            ModeView::Editing { buffer } => editing_spec(v, buffer, action),
            ModeView::Confirm { kind } => confirm_spec(v, kind, action),
            ModeView::Navigate => navigate_spec(v, action),
        }
    }
}

/// The actions [`App::handle`] accepts in a state: those whose date
/// arithmetic stays within `i64` (the others overflow).
pub open spec fn handle_ok(v: AppView, action: Action) -> bool {
    action == Action::QuitForce || match v.mode {
        ModeView::Editing { buffer } => action == Action::CommitEdit ==> match parse_spec(
            buffer,
            edit_offset(v),
        ) {
            Ok(stamp) => set_accepts(v.commits, v.selected, target_spec(v), stamp),
            Err(_) => true,
        },
        ModeView::Confirm { .. } => true,
        ModeView::Navigate => match action {
            Action::Increment => bump_accepts(v.commits, v.selected, target_spec(v), v.component, 1),
            Action::Decrement => bump_accepts(v.commits, v.selected, target_spec(v), v.component, -1),
            Action::NextRow => v.selected < usize::MAX,
            Action::Distribute => v.commits.len() <= i64::MAX && distribute_fits(v.commits),
            _ => true,
        },
    }
}

/// The commits with every row expanded.
pub open spec fn all_expanded(commits: Seq<EditableCommit>) -> Seq<EditableCommit> {
    commits.map_values(|c: EditableCommit| EditableCommit { expanded: true, ..c })
}

impl App {
    /// Build the editor over the loaded commits.
    pub fn new(commits: Vec<EditableCommit>, edit_mode: EditMode, dry_run: bool, separate: bool) -> (app: Self)
        ensures
            app@ == (AppView {
                commits: if separate { all_expanded(commits@) } else { commits@ },
                selected: 0,
                component: Component::Minute,
                sub: SubField::Author,
                edit_mode,
                mode: ModeView::Navigate,
                dry_run,
                message: None,
                show_help: false,
                quit: false,
                write_requested: false,
            }),
    {
        let mut commits = commits;
        if separate {
            let ghost start = commits@;
            let mut k: usize = 0;
            while k < commits.len()
                invariant
                    commits@.len() == start.len(),
                    k <= start.len(),
                    forall|j: int|
                        0 <= j < start.len() ==> #[trigger] commits@[j] == if j < k {
                            EditableCommit { expanded: true, ..start[j] }
                        } else {
                            start[j]
                        },
                decreases start.len() - k,
            {
                commits[k].expanded = true;
                k = k + 1;
            }
            assert(commits@ =~= all_expanded(start));
        }
        App {
            commits,
            selected: 0,
            component: Component::Minute,
            sub: SubField::Author,
            edit_mode,
            mode: Mode::Navigate,
            dry_run,
            message: None,
            show_help: false,
            quit: false,
            write_requested: false,
        }
    }

    pub fn is_editing(&self) -> (b: bool)
        ensures
            b == (self@.mode is Editing),
    {
        match self.mode {
            Mode::Editing { .. } => true,
            _ => false,
        }
    }

    /// The input keymap that applies to the current mode.
    pub fn context(&self) -> (c: Context)
        ensures
            c == context_spec(self@),
    {
        match self.mode {
            Mode::Editing { .. } => Context::Editing,
            Mode::Confirm { .. } => Context::Confirm,
            Mode::Navigate => Context::Navigate,
        }
    }

    /// Whether the selected row is expanded.
    pub fn expanded(&self) -> (b: bool)
        ensures
            b == expanded_spec(self@),
    {
        self.selected < self.commits.len() && self.commits[self.selected].expanded
    }

    /// The datetime fields the cursor moves through in the current view.
    pub fn components(&self) -> (r: Vec<Component>)
        ensures
            r@ == components_spec(expanded_spec(self@)),
    {
        let mut r = Vec::new();
        r.push(Component::Year);
        r.push(Component::Month);
        r.push(Component::Day);
        r.push(Component::Hour);
        r.push(Component::Minute);
        if self.expanded() {
            r.push(Component::Offset);
        }
        assert(r@ =~= components_spec(expanded_spec(self@)));
        r
    }

    /// Which timestamp(s) an edit targets given the current view.
    pub fn target(&self) -> (t: Target)
        ensures
            t == target_spec(self@),
    {
        if self.expanded() {
            match self.sub {
                SubField::Author => Target::Author,
                SubField::Committer => Target::Committer,
            }
        } else {
            Target::Both
        }
    }

    /// The stamp currently under the cursor (for text-edit seeding).
    pub fn focused_stamp(&self) -> (r: Option<Stamp>)
        ensures
            r == focused_spec(self@),
    {
        if self.selected >= self.commits.len() {
            return None;
        }
        let expanded = self.expanded();
        let c = &self.commits[self.selected];
        Some(
            if expanded && self.sub == SubField::Committer {
                c.committer
            } else {
                c.author
            },
        )
    }

    /// Whether edits cascade to newer commits (shift mode).
    pub fn cascade(&self) -> (b: bool)
        ensures
            b == cascade_spec(self@),
    {
        self.edit_mode == EditMode::Shift
    }

    /// Whether [`App::handle`] accepts `action` now: false only where the
    /// date arithmetic of the action would overflow.
    pub fn can_handle(&self, action: Action) -> (b: bool)
        ensures
            b == handle_ok(self@, action),
    {
        if action == Action::QuitForce {
            return true;
        }
        match &self.mode {
            Mode::Editing { buffer } => {
                if action != Action::CommitEdit {
                    return true;
                }
                let offset = match self.focused_stamp() {
                    Some(s) => s.offset,
                    None => 0,
                };
                match crate::datetime::parse_in_offset(buffer.as_str(), offset) {
                    Ok(stamp) => self.set_fits(stamp),
                    Err(_) => true,
                }
            },
            Mode::Confirm { .. } => true,
            Mode::Navigate => match action {
                Action::Increment => self.bump_fits(1),
                Action::Decrement => self.bump_fits(-1),
                Action::NextRow => self.selected < usize::MAX,
                Action::Distribute => can_distribute(self.commits.as_slice()),
                _ => true,
            },
        }
    }

    /// Whether setting the focused field to `stamp` keeps the delta in
    /// range.
    fn set_fits(&self, stamp: Stamp) -> (b: bool)
        ensures
            b == set_accepts(self@.commits, self@.selected, target_spec(self@), stamp),
    {
        if self.selected >= self.commits.len() {
            return true;
        }
        let target = self.target();
        let c = &self.commits[self.selected];
        let before = match target {
            Target::Committer => c.committer.seconds,
            _ => c.author.seconds,
        };
        let delta = stamp.seconds as i128 - before as i128;
        i64::MIN as i128 <= delta && delta <= i64::MAX as i128
    }

    /// Whether bumping the focused field by `steps` keeps the delta in
    /// range.
    fn bump_fits(&self, steps: i64) -> (b: bool)
        requires
            steps == 1 || steps == -1,
        ensures
            b == bump_accepts(self@.commits, self@.selected, target_spec(self@), self@.component, steps as int),
    {
        if self.selected >= self.commits.len() {
            return true;
        }
        let target = self.target();
        let c = &self.commits[self.selected];
        let before = match target {
            Target::Committer => c.committer,
            _ => c.author,
        };
        let after = crate::datetime::bump(before, self.component, steps);
        let delta = after.seconds as i128 - before.seconds as i128;
        i64::MIN as i128 <= delta && delta <= i64::MAX as i128
    }

    /// Apply an action as a state transition.
    pub fn handle(&mut self, action: Action)
        requires
            handle_ok(old(self)@, action),
        ensures
            final(self)@ == handle_spec(old(self)@, action),
    {
        self.message = None;
        // A hard abort (Ctrl-C) quits immediately from any mode.
        if action == Action::QuitForce {
            self.quit = true;
            return;
        }
        match self.context() {
            Context::Editing => self.handle_editing(action),
            Context::Confirm => self.handle_confirm(action),
            Context::Navigate => self.handle_navigate(action),
        }
    }

    fn handle_navigate(&mut self, action: Action)
        requires
            old(self)@.mode is Navigate,
            action != Action::QuitForce,
            handle_ok(old(self)@, action),
        ensures
            final(self)@ == navigate_spec(old(self)@, action),
    {
        match action {
            Action::PrevRow => self.selected = if self.selected > 0 {
                self.selected - 1
            } else {
                0
            },
            Action::NextRow => {
                if self.selected + 1 < self.commits.len() {
                    self.selected = self.selected + 1;
                }
            },
            Action::PrevComponent => self.move_component(-1),
            Action::NextComponent => self.move_component(1),
            Action::Increment => self.bump(1),
            Action::Decrement => self.bump(-1),
            Action::ToggleExpand => self.toggle_expand(),
            Action::ToggleSubField => {
                if self.expanded() {
                    self.sub = match self.sub {
                        SubField::Author => SubField::Committer,
                        SubField::Committer => SubField::Author,
                    };
                }
            },
            Action::ToggleMode => {
                self.edit_mode = match self.edit_mode {
                    EditMode::Single => EditMode::Shift,
                    EditMode::Shift => EditMode::Single,
                };
                let mut m = String::from_str("mode: ");
                m.append(self.edit_mode.to_string().as_str());
                self.message = Some(m);
            },
            Action::CopyPrevious => {
                crate::model::copy_from_previous(self.commits.as_mut_slice(), self.selected);
            },
            Action::Distribute => {
                crate::model::distribute(self.commits.as_mut_slice());
                self.message = Some(String::from_str("distributed evenly"));
            },
            Action::ResetRow => crate::model::reset(self.commits.as_mut_slice(), self.selected),
            Action::BeginEdit => self.begin_edit(),
            Action::ToggleHelp => self.show_help = !self.show_help,
            Action::Write => self.request_write(false),
            Action::WriteForce => self.request_write(true),
            Action::Quit => self.request_quit(false),
            _ => {},
        }
    }

    /// `w` prompts before writing when there are edits; `W` (force) and
    /// a no-op (nothing changed) write straight through.
    fn request_write(&mut self, force: bool)
        ensures
            final(self)@ == request_write_spec(old(self)@, force),
    {
        if force || !crate::model::any_changed(self.commits.as_slice()) {
            self.write_requested = true;
            self.quit = true;
        } else {
            self.mode = Mode::Confirm { kind: ConfirmKind::Write };
        }
    }

    /// `q`/`Esc` prompt before discarding edits; `Q` (force) and a clean
    /// tree quit straight through.
    fn request_quit(&mut self, force: bool)
        ensures
            final(self)@ == request_quit_spec(old(self)@, force),
    {
        if force || !crate::model::any_changed(self.commits.as_slice()) {
            self.quit = true;
        } else {
            self.mode = Mode::Confirm { kind: ConfirmKind::Quit };
        }
    }

    fn handle_confirm(&mut self, action: Action)
        requires
            old(self)@.mode is Confirm,
        ensures
            final(self)@ == confirm_spec(old(self)@, old(self)@.mode->kind, action),
    {
        let kind = match &self.mode {
            Mode::Confirm { kind } => *kind,
            _ => return,
        };
        match action {
            Action::ConfirmYes => match kind {
                ConfirmKind::Write => {
                    self.write_requested = true;
                    self.quit = true;
                },
                ConfirmKind::Quit => self.quit = true,
            },
            Action::ConfirmNo => self.mode = Mode::Navigate,
            _ => {},
        }
    }

    fn handle_editing(&mut self, action: Action)
        requires
            old(self)@.mode is Editing,
            handle_ok(old(self)@, action),
            action != Action::QuitForce,
        ensures
            final(self)@ == editing_spec(old(self)@, old(self)@.mode->buffer, action),
    {
        let mut buffer = match &self.mode {
            Mode::Editing { buffer } => buffer.clone(),
            _ => return,
        };
        match action {
            Action::Char(c) => {
                push_char(&mut buffer, c);
                self.mode = Mode::Editing { buffer };
            },
            Action::Backspace => {
                pop_char(&mut buffer);
                self.mode = Mode::Editing { buffer };
            },
            Action::CancelEdit => self.mode = Mode::Navigate,
            Action::CommitEdit => self.commit_edit(&buffer),
            _ => {},
        }
    }

    fn commit_edit(&mut self, text: &String)
        requires
            old(self)@.mode is Editing,
            text@ == old(self)@.mode->buffer,
            handle_ok(old(self)@, Action::CommitEdit),
        ensures
            final(self)@ == editing_spec(old(self)@, text@, Action::CommitEdit),
    {
        let offset = match self.focused_stamp() {
            Some(s) => s.offset,
            None => 0,
        };
        match crate::datetime::parse_in_offset(text.as_str(), offset) {
            Ok(stamp) => {
                let target = self.target();
                let cascade = self.cascade();
                crate::model::set(self.commits.as_mut_slice(), self.selected, target, stamp, cascade);
                self.mode = Mode::Navigate;
            },
            Err(e) => {
                self.message = Some(e.message());
                // Stay in edit mode so the user can fix the text.
            },
        }
    }

    fn begin_edit(&mut self)
        ensures
            final(self)@ == navigate_spec(old(self)@, Action::BeginEdit),
    {
        if let Some(stamp) = self.focused_stamp() {
            self.mode = Mode::Editing { buffer: crate::datetime::format(stamp) };
        }
    }

    fn move_component(&mut self, delta: i32)
        requires
            delta == 1 || delta == -1,
        ensures
            final(self)@ == (AppView { component: moved_component(old(self)@, delta as int), ..old(self)@ }),
    {
        let expanded = self.expanded();
        let comps = self.components();
        let idx: i32 = match self.component {
            Component::Year => 0,
            Component::Month => 1,
            Component::Day => 2,
            Component::Hour => 3,
            Component::Minute => 4,
            Component::Offset => if expanded {
                5
            } else {
                0
            },
        };
        let len: i32 = if expanded {
            6
        } else {
            5
        };
        let sum = idx + delta;
        let next: i32 = if sum < 0 {
            sum + len
        } else if sum >= len {
            sum - len
        } else {
            sum
        };
        assert(next == (idx + delta) % (len as int));
        self.component = comps[next as usize];
    }

    fn bump(&mut self, steps: i64)
        requires
            steps == 1 || steps == -1,
            bump_accepts(old(self)@.commits, old(self)@.selected, target_spec(old(self)@), old(self)@.component, steps as int),
        ensures
            final(self)@ == (AppView {
                commits: bump_all_spec(
                    old(self)@.commits,
                    old(self)@.selected,
                    target_spec(old(self)@),
                    old(self)@.component,
                    steps as int,
                    cascade_spec(old(self)@),
                ),
                ..old(self)@
            }),
    {
        let target = self.target();
        let component = self.component;
        let cascade = self.cascade();
        crate::model::bump(self.commits.as_mut_slice(), self.selected, target, component, steps, cascade);
    }

    fn toggle_expand(&mut self)
        ensures
            final(self)@ == toggle_expand_spec(old(self)@),
    {
        if self.selected < self.commits.len() {
            let e = self.commits[self.selected].expanded;
            self.commits[self.selected].expanded = !e;
        }
        self.sub = SubField::Author;
        // Leaving the expanded view drops the offset field from the cycle.
        if !self.expanded() && self.component == Component::Offset {
            self.component = Component::Minute;
        }
    }
}


/// The selection points at a commit (or at 0 when there are none).
pub open spec fn selection_valid(v: AppView) -> bool {
    if v.commits.len() == 0 {
        v.selected == 0
    } else {
        0 <= v.selected < v.commits.len()
    }
}

/// A hard abort quits from any mode, requests no write and leaves the
/// commits as they were.
pub proof fn lemma_force_quit_aborts(v: AppView)
    ensures
        handle_spec(v, Action::QuitForce).quit,
        handle_spec(v, Action::QuitForce).write_requested == v.write_requested,
        handle_spec(v, Action::QuitForce).commits == v.commits,
{
}

/// Ctrl-C quits from every mode, through the keymap of that mode, and
/// requests no write.
pub proof fn lemma_ctrl_c_quits(v: AppView, key: KeyEvent)
    requires
        key.modifiers.control,
        key.code == KeyCode::Char('c'),
    ensures
        handle_spec(v, context_action(key, context_spec(v))).quit,
        handle_spec(v, context_action(key, context_spec(v))).write_requested == v.write_requested,
        handle_spec(v, context_action(key, context_spec(v))).commits == v.commits,
{
}

/// With no unsaved edits, `w` writes and `q` quits without a prompt.
pub proof fn lemma_clean_tree_skips_prompt(v: AppView)
    requires
        v.mode is Navigate,
        !some_changed(v.commits),
    ensures
        handle_spec(v, Action::Write).write_requested,
        handle_spec(v, Action::Write).quit,
        handle_spec(v, Action::Quit).quit,
        handle_spec(v, Action::Quit).write_requested == v.write_requested,
{
}

/// With unsaved edits, `w` and `q` only open a prompt. Accepting the
/// write prompt writes and quits; accepting the quit prompt quits without
/// writing; declining either returns to navigation with the edits kept.
pub proof fn lemma_dirty_tree_prompts(v: AppView)
    requires
        v.mode is Navigate,
        some_changed(v.commits),
        !v.quit,
        !v.write_requested,
    ensures
        ({
            let w = handle_spec(v, Action::Write);
            &&& w.mode == ModeView::Confirm { kind: ConfirmKind::Write }
            &&& !w.quit && !w.write_requested && w.commits == v.commits
            &&& handle_spec(w, Action::ConfirmYes).write_requested
            &&& handle_spec(w, Action::ConfirmYes).quit
            &&& handle_spec(w, Action::ConfirmNo).mode is Navigate
            &&& !handle_spec(w, Action::ConfirmNo).quit
            &&& !handle_spec(w, Action::ConfirmNo).write_requested
            &&& handle_spec(w, Action::ConfirmNo).commits == v.commits
        }),
        ({
            let q = handle_spec(v, Action::Quit);
            &&& q.mode == ModeView::Confirm { kind: ConfirmKind::Quit }
            &&& !q.quit && !q.write_requested && q.commits == v.commits
            &&& handle_spec(q, Action::ConfirmYes).quit
            &&& !handle_spec(q, Action::ConfirmYes).write_requested
            &&& handle_spec(q, Action::ConfirmNo).mode is Navigate
            &&& !handle_spec(q, Action::ConfirmNo).quit
        }),
{
}

/// A write is requested only by `W`, by `w` with nothing to confirm, or
/// by accepting the write prompt.
pub proof fn lemma_write_needs_consent(v: AppView, action: Action)
    requires
        !v.write_requested,
        handle_spec(v, action).write_requested,
    ensures
        (v.mode is Navigate && (action == Action::WriteForce || (action == Action::Write
            && !some_changed(v.commits)))) || (v.mode == ModeView::Confirm { kind: ConfirmKind::Write }
            && action == Action::ConfirmYes),
{
}

/// Every action keeps the number of commits, and keeps the selection on
/// a commit.
pub proof fn lemma_handle_keeps_selection(v: AppView, action: Action)
    requires
        selection_valid(v),
    ensures
        handle_spec(v, action).commits.len() == v.commits.len(),
        selection_valid(handle_spec(v, action)),
{
    let u = AppView { message: None, ..v };
    if action != Action::QuitForce {
        match u.mode {
            ModeView::Editing { buffer } => {
                if action == Action::CommitEdit {
                    if let Ok(stamp) = parse_spec(buffer, edit_offset(u)) {
                        lemma_set_all_len(u.commits, u.selected, target_spec(u), stamp, cascade_spec(u));
                    }
                }
            },
            ModeView::Confirm { .. } => {},
            ModeView::Navigate => lemma_navigate_keeps_selection(u, action),
        }
    }
}

proof fn lemma_set_all_len(commits: Seq<EditableCommit>, i: int, target: Target, stamp: Stamp, cascade: bool)
    ensures
        set_all_spec(commits, i, target, stamp, cascade).len() == commits.len(),
{
}

proof fn lemma_navigate_keeps_selection(v: AppView, action: Action)
    requires
        selection_valid(v),
    ensures
        navigate_spec(v, action).commits.len() == v.commits.len(),
        selection_valid(navigate_spec(v, action)),
{
    match action {
        Action::Increment => {
            assert(bump_all_spec(v.commits, v.selected, target_spec(v), v.component, 1, cascade_spec(v)).len()
                == v.commits.len());
        },
        Action::Decrement => {
            assert(bump_all_spec(v.commits, v.selected, target_spec(v), v.component, -1, cascade_spec(v)).len()
                == v.commits.len());
        },
        Action::ToggleExpand => {
            assert(toggle_expand_spec(v).commits.len() == v.commits.len());
        },
        Action::Distribute => {
            assert(distribute_spec(v.commits).len() == v.commits.len());
        },
        Action::CopyPrevious => {
            assert(copy_from_previous_spec(v.commits, v.selected).len() == v.commits.len());
        },
        Action::ResetRow => {
            assert(reset_spec(v.commits, v.selected).len() == v.commits.len());
        },
        _ => {},
    }
}

/// Row motion clamps at the ends: in navigation, `PrevRow` steps up to
/// the first row and stops there, `NextRow` steps down to the last row
/// and stops there, and neither changes a commit. Both actions are
/// always accepted by [`App::handle`] on a valid selection.
pub proof fn lemma_row_motion_clamps(v: AppView)
    requires
        v.mode is Navigate,
        selection_valid(v),
        v.commits.len() > 0,
        v.selected <= usize::MAX,
    ensures
        handle_spec(v, Action::PrevRow).selected == if v.selected > 0 { v.selected - 1 } else { 0 },
        handle_spec(v, Action::NextRow).selected == if v.selected + 1 < v.commits.len() {
            v.selected + 1
        } else {
            v.commits.len() - 1
        },
        handle_spec(v, Action::PrevRow).commits == v.commits,
        handle_spec(v, Action::NextRow).commits == v.commits,
        handle_ok(v, Action::PrevRow),
        v.commits.len() <= usize::MAX ==> handle_ok(v, Action::NextRow),
{
}

/// The date on display for editing: the selected commit's committer date
/// when its row is expanded with the committer line focused, its author
/// date otherwise.
pub open spec fn shown_date(c: EditableCommit, sub: SubField) -> Stamp {
    if c.expanded && sub == SubField::Committer {
        c.committer
    } else {
        c.author
    }
}

/// Typing a date edits the date on display: `BeginEdit` seeds the text
/// with that date's wall clock, and a typed text that parses in that
/// date's own offset replaces exactly that date of the selected commit
/// (both dates in the collapsed view) and leaves typing; one that does not
/// parse changes no commit.
pub proof fn lemma_edit_targets_the_shown_date(v: AppView, buffer: Seq<char>)
    requires
        0 <= v.selected < v.commits.len(),
    ensures
        v.mode is Navigate ==> handle_spec(v, Action::BeginEdit).mode == (ModeView::Editing {
            buffer: format_civil(wall_clock(shown_date(v.commits[v.selected], v.sub))),
        }),
        ({
            let c = v.commits[v.selected];
            let d = shown_date(c, v.sub);
            let w = handle_spec(v, Action::CommitEdit);
            v.mode == (ModeView::Editing { buffer }) ==> match parse_spec(buffer, d.offset as int) {
                Ok(st) => {
                    &&& w.mode is Navigate
                    &&& w.commits.len() == v.commits.len()
                    &&& c.expanded && v.sub == SubField::Committer ==> w.commits[v.selected].committer == st
                        && w.commits[v.selected].author == c.author
                    &&& c.expanded && v.sub == SubField::Author ==> w.commits[v.selected].author == st
                        && w.commits[v.selected].committer == c.committer
                    &&& !c.expanded ==> w.commits[v.selected].author == st && w.commits[v.selected].committer
                        == st
                },
                Err(_) => w.commits == v.commits && w.mode == v.mode,
            }
        }),
{
}

/// A typed date that does not parse leaves the editor typing, shows the
/// error and changes no commit; cancelling drops the text and changes no
/// commit either.
pub proof fn lemma_edit_rejects_or_cancels_cleanly(v: AppView, buffer: Seq<char>)
    requires
        v.mode == (ModeView::Editing { buffer }),
    ensures
        parse_spec(buffer, edit_offset(v)) is Err ==> handle_spec(v, Action::CommitEdit).mode == v.mode,
        parse_spec(buffer, edit_offset(v)) is Err ==> handle_spec(v, Action::CommitEdit).commits == v.commits,
        parse_spec(buffer, edit_offset(v)) is Err ==> (handle_spec(v, Action::CommitEdit).message is Some),
        (handle_spec(v, Action::CancelEdit).mode is Navigate),
        handle_spec(v, Action::CancelEdit).commits == v.commits,
{
}

} // verus!
