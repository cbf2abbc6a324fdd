//! The state of the board as the user moves through it, and the moves that
//! change it.
use vstd::prelude::*;

use crate::config::ConfigToml;
use crate::project::Project;
use crate::task::{
    are_rows_of, current_p, current_t, current_task, find_status, is_board_sort_of,
    only_task_replaced, selected_project, status_position, Task, TaskRow, TASK_COSTS,
    TASK_PRIORITIES, TASK_TIMES,
};
use crate::util::{first_index_from, level_in, priority_indicator};

verus! {

/// Which screen or dialog has the keyboard.
#[derive(Clone, Copy, Debug, PartialEq, Eq, Structural)]
pub enum ViewMode {
    ViewProjects,
    RenameProject,
    AddProject,
    DeleteProject,
    GitCommit,
    ViewTasks,
    RenameTask,
    ChangeStatusTask,
    ChangePriorityTask,
    ChangeCostTask,
    ChangeTimeTask,
    AddTask,
    DeleteTask,
}

/// How the tasks of a project are laid out.
#[derive(Clone, Copy, Debug, PartialEq, Eq, Structural)]
pub enum TaskViewMode {
    List,
    Kanban,
}

impl Default for ViewMode {
    fn default() -> (r: Self)
        ensures
            r == ViewMode::ViewProjects,
    {
        ViewMode::ViewProjects
    }
}

impl Default for TaskViewMode {
    fn default() -> (r: Self)
        ensures
            r == TaskViewMode::List,
    {
        TaskViewMode::List
    }
}

/// Everything the board remembers between two keys.
pub struct App {
    pub selected_project_index: Option<usize>,
    pub selected_task_index: Option<usize>,
    pub selected_status_task_index: Option<usize>,
    pub selected_priority_task_index: Option<usize>,
    pub selected_cost_task_index: Option<usize>,
    pub selected_time_task_index: Option<usize>,
    pub view_mode: ViewMode,
    pub task_view_mode: TaskViewMode,
    pub projects: Vec<Project>,
    pub config: ConfigToml,
    pub is_git_repo: bool,
    pub git_has_changes: bool,
    pub git_commit_message: String,
    pub show_help: bool,
}

/// The selection list that a view mode moves through.
#[derive(Clone, Copy, Debug, PartialEq, Eq, Structural)]
pub enum ListSlot {
    Projects,
    Tasks,
    Statuses,
    Priorities,
    Costs,
    Times,
}

/// The list whose selection the keys move in a view mode.
pub open spec fn slot_of(mode: ViewMode) -> ListSlot {
    match mode {
        ViewMode::ViewProjects | ViewMode::RenameProject | ViewMode::AddProject
        | ViewMode::DeleteProject | ViewMode::GitCommit => ListSlot::Projects,
        ViewMode::ViewTasks | ViewMode::RenameTask | ViewMode::AddTask
        | ViewMode::DeleteTask => ListSlot::Tasks,
        ViewMode::ChangeStatusTask => ListSlot::Statuses,
        ViewMode::ChangePriorityTask => ListSlot::Priorities,
        ViewMode::ChangeCostTask => ListSlot::Costs,
        ViewMode::ChangeTimeTask => ListSlot::Times,
    }
}

/// The index after `sel` in a list of `len` items, wrapping to the first.
pub open spec fn next_index(sel: Option<usize>, len: nat) -> usize {
    match sel {
        Some(i) => if i + 1 >= len {
            0
        } else {
            (i + 1) as usize
        },
        None => 0,
    }
}

/// The index before `sel` in a list of `len` items, wrapping to the last.
pub open spec fn previous_index(sel: Option<usize>, len: nat) -> usize {
    match sel {
        Some(i) => if i == 0 {
            (len - 1) as usize
        } else {
            (i - 1) as usize
        },
        None => 0,
    }
}

/// The selection one item up, as a list does it without knowing its length:
/// none selected gives the largest index.
pub open spec fn selection_above(sel: Option<usize>) -> Option<usize> {
    match sel {
        Some(i) => Some(if i == 0 { 0usize } else { (i - 1) as usize }),
        None => Some(usize::MAX),
    }
}

impl App {
    /// The selection in a list.
    pub open spec fn selection_of(self, slot: ListSlot) -> Option<usize> {
        match slot {
            ListSlot::Projects => self.selected_project_index,
            ListSlot::Tasks => self.selected_task_index,
            ListSlot::Statuses => self.selected_status_task_index,
            ListSlot::Priorities => self.selected_priority_task_index,
            ListSlot::Costs => self.selected_cost_task_index,
            ListSlot::Times => self.selected_time_task_index,
        }
    }

    /// `self` with the selection in a list replaced.
    pub open spec fn with_selection(self, slot: ListSlot, sel: Option<usize>) -> App {
        match slot {
            ListSlot::Projects => App { selected_project_index: sel, ..self },
            ListSlot::Tasks => App { selected_task_index: sel, ..self },
            ListSlot::Statuses => App { selected_status_task_index: sel, ..self },
            ListSlot::Priorities => App { selected_priority_task_index: sel, ..self },
            ListSlot::Costs => App { selected_cost_task_index: sel, ..self },
            ListSlot::Times => App { selected_time_task_index: sel, ..self },
        }
    }

    /// The selection of the list that the current view moves through.
    pub fn use_state(&self) -> (r: Option<usize>)
        ensures
            r == self.selection_of(slot_of(self.view_mode)),
    {
        match self.view_mode {
            ViewMode::ViewProjects | ViewMode::RenameProject | ViewMode::AddProject
            | ViewMode::DeleteProject | ViewMode::GitCommit => self.selected_project_index,
            ViewMode::ViewTasks | ViewMode::RenameTask | ViewMode::AddTask
            | ViewMode::DeleteTask => self.selected_task_index,
            ViewMode::ChangeStatusTask => self.selected_status_task_index,
            ViewMode::ChangePriorityTask => self.selected_priority_task_index,
            ViewMode::ChangeCostTask => self.selected_cost_task_index,
            ViewMode::ChangeTimeTask => self.selected_time_task_index,
        }
    }

    /// Replaces the selection of the list that the current view moves
    /// through.
    pub fn select(&mut self, sel: Option<usize>)
        ensures
            *final(self) == old(self).with_selection(slot_of(old(self).view_mode), sel),
    {
        match self.view_mode {
            ViewMode::ViewProjects | ViewMode::RenameProject | ViewMode::AddProject
            | ViewMode::DeleteProject | ViewMode::GitCommit => self.selected_project_index = sel,
            ViewMode::ViewTasks | ViewMode::RenameTask | ViewMode::AddTask
            | ViewMode::DeleteTask => self.selected_task_index = sel,
            ViewMode::ChangeStatusTask => self.selected_status_task_index = sel,
            ViewMode::ChangePriorityTask => self.selected_priority_task_index = sel,
            ViewMode::ChangeCostTask => self.selected_cost_task_index = sel,
            ViewMode::ChangeTimeTask => self.selected_time_task_index = sel,
        }
    }

    /// Moves the current view's selection to the next of `len` items,
    /// wrapping around at the end.
    pub fn next(&mut self, len: usize)
        requires
            old(self).selection_of(slot_of(old(self).view_mode)) is Some ==> len > 0,
        ensures
            *final(self) == old(self).with_selection(
                slot_of(old(self).view_mode),
                Some(next_index(old(self).selection_of(slot_of(old(self).view_mode)), len as nat)),
            ),
    {
        let i = match self.use_state() {
            Some(i) => {
                if i >= len - 1 {
                    0
                } else {
                    i + 1
                }
            },
            None => 0,
        };
        self.select(Some(i))
    }

    /// Moves the current view's selection to the previous of `len` items,
    /// wrapping around at the start.
    pub fn previous(&mut self, len: usize)
        requires
            old(self).selection_of(slot_of(old(self).view_mode)) is Some ==> len > 0,
        ensures
            *final(self) == old(self).with_selection(
                slot_of(old(self).view_mode),
                Some(previous_index(old(self).selection_of(slot_of(old(self).view_mode)), len as nat)),
            ),
    {
        let i = match self.use_state() {
            Some(i) => {
                if i == 0 {
                    len - 1
                } else {
                    i - 1
                }
            },
            None => 0,
        };
        self.select(Some(i))
    }

    /// Switches to another view.
    pub fn change_view(&mut self, mode: ViewMode)
        ensures
            *final(self) == (App { view_mode: mode, ..*old(self) }),
    {
        self.view_mode = mode;
    }
}

/// A key the board reacts to.
#[derive(Clone, Copy, Debug, PartialEq, Eq, Structural)]
pub enum Key {
    Char(char),
    Enter,
    Esc,
    Left,
    Right,
    Up,
    Down,
    Tab,
    BackTab,
    Other,
}

/// What the caller does once a key has been handled.
pub enum Action {
    /// Nothing more.
    Nothing,
    /// Leave the board.
    Quit,
    /// Show these rows as the list (the tasks of the selected project).
    ShowTasks(Vec<TaskRow>),
    /// Show the projects as the list.
    ShowProjects,
    /// Clear the text input.
    ResetInput,
    /// Put this text in the text input.
    SetInput(String),
    /// Let the text input take the key.
    ForwardToInput,
    /// Rename the selected project to the input's text, then clear the input.
    RenameProject,
    /// Create a project named by the input's text, then call
    /// `App::select_created_project`.
    CreateProject,
    /// Delete the project at this index (the selection), reload the
    /// projects, then call `App::select_previous_project`.
    DeleteProject(Option<usize>),
    /// Commit all changes with the input's text as message, report the
    /// outcome with `App::record_commit`, then clear the input.
    CommitAll,
    /// Let the user edit the selected task's notes, then reload the tasks.
    EditNotes,
    /// Rename the selected task to the input's text, clear the input, then
    /// reload the tasks.
    RenameTask,
    /// Write task (project, task) to its file, then reload the tasks.
    SaveTask(usize, usize),
    /// The selected task's cost was chosen.
    ChangeCost(u8),
    /// The selected task's time estimate was chosen.
    ChangeTime(u8),
    /// Create a task titled by the input's text in the selected project,
    /// then reload the tasks.
    CreateTask,
    /// Delete task (project, task), reload the tasks, then call
    /// `App::select_previous_task`.
    DeleteTask(usize, usize),
}

/// The length of the list that the keys move through in `a`'s view, the
/// main list having `n` items.
pub open spec fn list_len(a: App, n: usize) -> nat {
    match slot_of(a.view_mode) {
        ListSlot::Projects | ListSlot::Tasks => n as nat,
        ListSlot::Statuses => a.config.statuses@.len(),
        ListSlot::Priorities | ListSlot::Costs | ListSlot::Times => 4,
    }
}

/// `a` with the current view's selection moved down.
pub open spec fn moved_next(a: App, n: usize) -> App {
    let slot = slot_of(a.view_mode);
    a.with_selection(slot, Some(next_index(a.selection_of(slot), list_len(a, n))))
}

/// `a` with the current view's selection moved up.
pub open spec fn moved_previous(a: App, n: usize) -> App {
    let slot = slot_of(a.view_mode);
    a.with_selection(slot, Some(previous_index(a.selection_of(slot), list_len(a, n))))
}

/// `a` in another view.
pub open spec fn in_view(a: App, m: ViewMode) -> App {
    App { view_mode: m, ..a }
}

/// A move through the current list is safe: a list with a selection is not
/// empty.
pub open spec fn can_move(a: App, n: usize) -> bool {
    a.selection_of(slot_of(a.view_mode)) is Some ==> list_len(a, n) > 0
}

pub open spec fn is_down(key: Key) -> bool {
    key == Key::Down || key == Key::Tab || key == Key::Char('j')
}

pub open spec fn is_up(key: Key) -> bool {
    key == Key::Up || key == Key::BackTab || key == Key::Char('k')
}

/// In the small pickers the tab keys go the other way.
pub open spec fn is_picker_down(key: Key) -> bool {
    key == Key::Down || key == Key::BackTab || key == Key::Char('j')
}

pub open spec fn is_picker_up(key: Key) -> bool {
    key == Key::Up || key == Key::Tab || key == Key::Char('k')
}

/// The index of the first place in `scale` that holds `v`.
pub open spec fn scale_position(scale: Seq<u8>, v: u8) -> usize {
    first_index_from(scale, v, 0) as usize
}

pub open spec fn scale_holds(scale: Seq<u8>, v: u8) -> bool {
    exists|i: int| 0 <= i < scale.len() && scale[i] == v
}

/// The selection names one of the first `n` entries.
pub open spec fn selects_below(sel: Option<usize>, n: nat) -> bool {
    match sel {
        Some(i) => i < n,
        None => false,
    }
}

/// The keys that `a` can take without failing: those that reach a project,
/// task or list entry only where the selections name one.
pub open spec fn can_take(a: App, key: Key, n: usize, input_empty: bool) -> bool {
    if a.show_help {
        true
    } else {
        match a.view_mode {
            ViewMode::ViewProjects => {
                &&& (key == Key::Enter || key == Key::Right || key == Key::Char('l') || key
                    == Key::Char('r')) && n > 0 ==> selected_project(a) is Some
                &&& (is_down(key) || is_up(key)) ==> can_move(a, n)
            },
            ViewMode::ViewTasks => {
                &&& (key == Key::Enter || key == Key::Char('r') || key == Key::Char('p')) && n
                    > 0 ==> current_task(a) is Some
                &&& key == Key::Char('p') && n > 0 && current_task(a) is Some ==> scale_holds(
                    TASK_PRIORITIES@,
                    a.projects@[current_p(a)].tasks@[current_t(a)].priority,
                )
                &&& (is_down(key) || is_up(key)) ==> can_move(a, n)
            },
            ViewMode::ChangeStatusTask => {
                &&& key == Key::Enter ==> current_task(a) is Some && selects_below(
                    a.selected_status_task_index,
                    a.config.statuses@.len(),
                )
                &&& (is_picker_down(key) || is_picker_up(key)) ==> can_move(a, n)
            },
            ViewMode::ChangePriorityTask => key == Key::Enter ==> current_task(a) is Some
                && selects_below(a.selected_priority_task_index, 4),
            ViewMode::ChangeCostTask => key == Key::Enter ==> selects_below(
                a.selected_cost_task_index,
                4,
            ),
            ViewMode::ChangeTimeTask => key == Key::Enter ==> selects_below(
                a.selected_time_task_index,
                4,
            ),
            ViewMode::AddTask => key == Key::Enter && !input_empty ==> selected_project(a) is Some,
            ViewMode::DeleteTask => key == Key::Char('y') ==> current_task(a) is Some,
            _ => true,
        }
    }
}

/// `b` and `act` are what key `key` makes of `a` (the main list having `n`
/// items, the text input being empty or not).
pub open spec fn key_step(a: App, b: App, key: Key, n: usize, input_empty: bool, act: Action) -> bool {
    if a.show_help {
        &&& act is Nothing
        &&& if key == Key::Esc || key == Key::Char('q') || key == Key::Char('?') {
            b == (App { show_help: false, ..a })
        } else {
            b == a
        }
    } else {
        match a.view_mode {
            ViewMode::ViewProjects => if key == Key::Enter || key == Key::Right || key == Key::Char(
                'l',
            ) {
                if n == 0 {
                    b == a && act is Nothing
                } else {
                    let p = selected_project(a)->0;
                    let after = b.projects@[p].tasks@;
                    &&& b == (App {
                        projects: b.projects,
                        selected_task_index: Some(0),
                        view_mode: ViewMode::ViewTasks,
                        ..a
                    })
                    &&& projects_same_but_tasks(a.projects@, b.projects@, p)
                    &&& is_board_sort_of(a.config.statuses@, after, a.projects@[p].tasks@)
                    &&& act matches Action::ShowTasks(rows) && are_rows_of(a.config.statuses@, after, rows@)
                }
            } else if key == Key::Char('r') {
                if n == 0 {
                    b == a && act is Nothing
                } else {
                    &&& b == in_view(a, ViewMode::RenameProject)
                    &&& act matches Action::SetInput(t) && t@ == a.projects@[selected_project(a)->0].title@
                }
            } else if key == Key::Char('n') {
                b == in_view(a, ViewMode::AddProject) && act is ResetInput
            } else if key == Key::Char('d') {
                if n == 0 {
                    b == a && act is Nothing
                } else {
                    b == in_view(a, ViewMode::DeleteProject) && act is Nothing
                }
            } else if key == Key::Char('c') {
                if a.is_git_repo && a.git_has_changes {
                    b == in_view(a, ViewMode::GitCommit) && act is ResetInput
                } else {
                    b == a && act is Nothing
                }
            } else if is_down(key) {
                b == moved_next(a, n) && act is Nothing
            } else if is_up(key) {
                b == moved_previous(a, n) && act is Nothing
            } else if key == Key::Char('q') {
                b == a && act is Quit
            } else if key == Key::Char('?') {
                b == (App { show_help: true, ..a }) && act is Nothing
            } else {
                b == a && act is Nothing
            },
            ViewMode::RenameProject => if key == Key::Enter {
                b == in_view(a, ViewMode::ViewProjects) && act is RenameProject
            } else if key == Key::Esc {
                b == in_view(a, ViewMode::ViewProjects) && act is ResetInput
            } else {
                b == a && act is ForwardToInput
            },
            ViewMode::AddProject => if key == Key::Esc {
                b == in_view(a, ViewMode::ViewProjects) && act is Nothing
            } else if key == Key::Enter {
                b == in_view(a, ViewMode::ViewProjects) && act is CreateProject
            } else {
                b == a && act is ForwardToInput
            },
            ViewMode::DeleteProject => if key == Key::Char('y') {
                &&& b == in_view(a, ViewMode::ViewProjects)
                &&& act == Action::DeleteProject(a.selected_project_index)
            } else if key == Key::Char('n') {
                b == in_view(a, ViewMode::ViewProjects) && act is Nothing
            } else {
                b == a && act is Nothing
            },
            ViewMode::GitCommit => if key == Key::Enter {
                &&& b == in_view(a, ViewMode::ViewProjects)
                &&& if input_empty {
                    act is ResetInput
                } else {
                    act is CommitAll
                }
            } else if key == Key::Esc {
                &&& b == (App {
                    git_commit_message: b.git_commit_message,
                    view_mode: ViewMode::ViewProjects,
                    ..a
                })
                &&& b.git_commit_message@.len() == 0
                &&& act is ResetInput
            } else {
                b == a && act is ForwardToInput
            },
            ViewMode::ViewTasks => if key == Key::Esc || key == Key::Left || key == Key::Char('h') {
                b == in_view(a, ViewMode::ViewProjects) && act is ShowProjects
            } else if key == Key::Enter {
                if n == 0 {
                    b == a && act is Nothing
                } else {
                    let cur = a.projects@[current_p(a)].tasks@[current_t(a)];
                    let idx: usize = match find_status(a.config.statuses@, cur.status@) {
                        Some(i) => i as usize,
                        None => 0,
                    };
                    &&& b == (App {
                        selected_status_task_index: Some(idx),
                        view_mode: ViewMode::ChangeStatusTask,
                        ..a
                    })
                    &&& act is Nothing
                }
            } else if key == Key::Char('p') {
                if n == 0 {
                    b == a && act is Nothing
                } else {
                    let cur = a.projects@[current_p(a)].tasks@[current_t(a)];
                    &&& b == (App {
                        selected_priority_task_index: Some(
                            scale_position(TASK_PRIORITIES@, cur.priority),
                        ),
                        view_mode: ViewMode::ChangePriorityTask,
                        ..a
                    })
                    &&& act is Nothing
                }
            } else if key == Key::Char('r') {
                if n == 0 {
                    b == a && act is Nothing
                } else {
                    &&& b == in_view(a, ViewMode::RenameTask)
                    &&& act matches Action::SetInput(t) && t@ == a.projects@[current_p(a)].tasks@[current_t(
                        a,
                    )].title@
                }
            } else if key == Key::Char('n') {
                b == in_view(a, ViewMode::AddTask) && act is ResetInput
            } else if key == Key::Char('d') {
                if n == 0 {
                    b == a && act is Nothing
                } else {
                    b == in_view(a, ViewMode::DeleteTask) && act is Nothing
                }
            } else if key == Key::Char('e') {
                if n == 0 {
                    b == a && act is Nothing
                } else {
                    b == a && act is EditNotes
                }
            } else if key == Key::Char('v') {
                &&& b == (App {
                    task_view_mode: match a.task_view_mode {
                        TaskViewMode::List => TaskViewMode::Kanban,
                        TaskViewMode::Kanban => TaskViewMode::List,
                    },
                    ..a
                })
                &&& act is Nothing
            } else if is_down(key) {
                b == moved_next(a, n) && act is Nothing
            } else if is_up(key) {
                b == moved_previous(a, n) && act is Nothing
            } else if key == Key::Char('q') {
                b == a && act is Quit
            } else if key == Key::Char('?') {
                b == (App { show_help: true, ..a }) && act is Nothing
            } else {
                b == a && act is Nothing
            },
            ViewMode::RenameTask => if key == Key::Enter {
                b == in_view(a, ViewMode::ViewTasks) && act is RenameTask
            } else if key == Key::Esc {
                b == in_view(a, ViewMode::ViewTasks) && act is ResetInput
            } else {
                b == a && act is ForwardToInput
            },
            ViewMode::ChangeStatusTask => if key == Key::Enter {
                let p = current_p(a);
                let t = current_t(a);
                let before = a.projects@[p].tasks@[t];
                let after = b.projects@[p].tasks@[t];
                let label = a.config.statuses@[a.selected_status_task_index->0 as int].label;
                &&& b == (App {
                    projects: b.projects,
                    selected_status_task_index: Some(0),
                    view_mode: ViewMode::ViewTasks,
                    ..a
                })
                &&& only_task_replaced(a.projects@, b.projects@, p, t, after)
                &&& after.status@ == label@
                &&& after.title == before.title && after.priority == before.priority
                    && after.markdown == before.markdown
                &&& act == Action::SaveTask(p as usize, t as usize)
            } else if is_picker_down(key) {
                b == moved_next(a, n) && act is Nothing
            } else if is_picker_up(key) {
                b == moved_previous(a, n) && act is Nothing
            } else if key == Key::Esc {
                b == in_view(a, ViewMode::ViewTasks) && act is Nothing
            } else {
                b == a && act is Nothing
            },
            ViewMode::ChangePriorityTask => if key == Key::Enter {
                let p = current_p(a);
                let t = current_t(a);
                let value = TASK_PRIORITIES@[a.selected_priority_task_index->0 as int];
                &&& b == (App {
                    projects: b.projects,
                    selected_priority_task_index: Some(0),
                    view_mode: ViewMode::ViewTasks,
                    ..a
                })
                &&& only_task_replaced(
                    a.projects@,
                    b.projects@,
                    p,
                    t,
                    Task { priority: value, ..a.projects@[p].tasks@[t] },
                )
                &&& act == Action::SaveTask(p as usize, t as usize)
            } else if is_picker_down(key) {
                b == moved_next(a, n) && act is Nothing
            } else if is_picker_up(key) {
                b == moved_previous(a, n) && act is Nothing
            } else if key == Key::Esc {
                b == in_view(a, ViewMode::ViewTasks) && act is Nothing
            } else {
                b == a && act is Nothing
            },
            ViewMode::ChangeCostTask => if key == Key::Enter {
                &&& b == (App {
                    selected_cost_task_index: Some(0),
                    view_mode: ViewMode::ViewTasks,
                    ..a
                })
                &&& act == Action::ChangeCost(TASK_COSTS@[a.selected_cost_task_index->0 as int])
            } else if is_picker_down(key) {
                b == moved_next(a, n) && act is Nothing
            } else if is_picker_up(key) {
                b == moved_previous(a, n) && act is Nothing
            } else if key == Key::Esc {
                b == in_view(a, ViewMode::ViewTasks) && act is Nothing
            } else {
                b == a && act is Nothing
            },
            ViewMode::ChangeTimeTask => if key == Key::Enter {
                &&& b == (App {
                    selected_time_task_index: Some(0),
                    view_mode: ViewMode::ViewTasks,
                    ..a
                })
                &&& act == Action::ChangeTime(TASK_TIMES@[a.selected_time_task_index->0 as int])
            } else if is_picker_down(key) {
                b == moved_next(a, n) && act is Nothing
            } else if is_picker_up(key) {
                b == moved_previous(a, n) && act is Nothing
            } else if key == Key::Esc {
                b == in_view(a, ViewMode::ViewTasks) && act is Nothing
            } else {
                b == a && act is Nothing
            },
            ViewMode::AddTask => if key == Key::Enter {
                &&& b == in_view(a, ViewMode::ViewTasks)
                &&& if input_empty {
                    act is Nothing
                } else {
                    act is CreateTask
                }
            } else if key == Key::Esc {
                b == in_view(a, ViewMode::ViewTasks) && act is Nothing
            } else {
                b == a && act is ForwardToInput
            },
            ViewMode::DeleteTask => if key == Key::Char('y') {
                &&& b == in_view(a, ViewMode::ViewTasks)
                &&& act == Action::DeleteTask(current_p(a) as usize, current_t(a) as usize)
            } else if key == Key::Char('n') {
                b == in_view(a, ViewMode::ViewTasks) && act is Nothing
            } else {
                b == a && act is Nothing
            },
        }
    }
}

/// `new` holds the projects of `old`, only the tasks of project `p` being
/// different.
pub open spec fn projects_same_but_tasks(old: Seq<Project>, new: Seq<Project>, p: int) -> bool {
    &&& new.len() == old.len()
    &&& forall|q: int| 0 <= q < old.len() && q != p ==> #[trigger] new[q] == old[q]
    &&& new[p].title == old[p].title
}

fn scale_index(scale: &[u8; 4], v: u8) -> (r: usize)
    requires
        scale_holds(scale@, v),
    ensures
        r == scale_position(scale@, v),
        r < 4,
{
    let mut i: usize = 0;
    while i < 4
        invariant
            i <= 4,
            scale@.len() == 4,
            first_index_from(scale@, v, 0) == first_index_from(scale@, v, i as nat),
            forall|k: int| 0 <= k < i ==> scale@[k] != v,
        decreases 4 - i,
    {
        if scale[i] == v {
            assert(first_index_from(scale@, v, i as nat) == i);
            return i;
        }
        i = i + 1;
    }
    0
}

fn is_down_key(key: Key) -> (r: bool)
    ensures
        r == is_down(key),
{
    match key {
        Key::Down | Key::Tab | Key::Char('j') => true,
        _ => false,
    }
}

fn is_up_key(key: Key) -> (r: bool)
    ensures
        r == is_up(key),
{
    match key {
        Key::Up | Key::BackTab | Key::Char('k') => true,
        _ => false,
    }
}

fn is_picker_down_key(key: Key) -> (r: bool)
    ensures
        r == is_picker_down(key),
{
    match key {
        Key::Down | Key::BackTab | Key::Char('j') => true,
        _ => false,
    }
}

fn is_picker_up_key(key: Key) -> (r: bool)
    ensures
        r == is_picker_up(key),
{
    match key {
        Key::Up | Key::Tab | Key::Char('k') => true,
        _ => false,
    }
}

impl App {
    /// A board that shows the projects, with the first entry of each list
    /// selected and no dialog open.
    pub fn setup(projects: Vec<Project>, config: ConfigToml, is_git_repo: bool, git_has_changes: bool) -> (r: App)
        ensures
            r.selected_project_index == Some(0usize),
            r.selected_task_index == Some(0usize),
            r.selected_status_task_index == Some(0usize),
            r.selected_priority_task_index == Some(0usize),
            r.selected_cost_task_index == Some(0usize),
            r.selected_time_task_index == Some(0usize),
            r.view_mode == ViewMode::ViewProjects,
            r.task_view_mode == TaskViewMode::List,
            r.projects == projects,
            r.config == config,
            r.is_git_repo == is_git_repo,
            r.git_has_changes == (is_git_repo && git_has_changes),
            r.git_commit_message@.len() == 0,
            !r.show_help,
    {
        App {
            selected_project_index: Some(0),
            selected_task_index: Some(0),
            selected_status_task_index: Some(0),
            selected_priority_task_index: Some(0),
            selected_cost_task_index: Some(0),
            selected_time_task_index: Some(0),
            view_mode: ViewMode::ViewProjects,
            task_view_mode: TaskViewMode::List,
            projects,
            config,
            is_git_repo,
            git_has_changes: is_git_repo && git_has_changes,
            git_commit_message: String::new(),
            show_help: false,
        }
    }

    /// The length of the list that the keys move through, the main list
    /// having `n` items.
    pub fn list_len(&self, n: usize) -> (r: usize)
        ensures
            r as nat == list_len(*self, n),
    {
        match self.view_mode {
            ViewMode::ChangeStatusTask => self.config.statuses.len(),
            ViewMode::ChangePriorityTask | ViewMode::ChangeCostTask | ViewMode::ChangeTimeTask => 4,
            _ => n,
        }
    }

    /// Whether the board can take `key` without failing.
    pub fn can_take_key(&self, key: Key, n: usize, input_empty: bool) -> (r: bool)
        ensures
            r == can_take(*self, key, n, input_empty),
    {
        if self.show_help {
            return true;
        }
        let project_ok = match self.selected_project_index {
            Some(p) => p < self.projects.len(),
            None => false,
        };
        let task_ok = project_ok && match (self.selected_project_index, self.selected_task_index) {
            (Some(p), Some(t)) => t < self.projects[p].tasks.len(),
            _ => false,
        };
        let move_ok = self.use_state().is_none() || self.list_len(n) > 0;
        let moving = is_down_key(key) || is_up_key(key);
        let picking = is_picker_down_key(key) || is_picker_up_key(key);
        match self.view_mode {
            ViewMode::ViewProjects => {
                let opening = match key {
                    Key::Enter | Key::Right | Key::Char('l') | Key::Char('r') => true,
                    _ => false,
                };
                (!(opening && n > 0) || project_ok) && (!moving || move_ok)
            },
            ViewMode::ViewTasks => {
                let needs_task = match key {
                    Key::Enter | Key::Char('r') | Key::Char('p') => true,
                    _ => false,
                };
                if needs_task && n > 0 && !task_ok {
                    return false;
                }
                if key == Key::Char('p') && n > 0 {
                    let prio = Task::get_current(self).priority;
                    let mut found = false;
                    let mut i: usize = 0;
                    while i < 4
                        invariant
                            i <= 4,
                            found == exists|k: int| 0 <= k < i && TASK_PRIORITIES@[k] == prio,
                        decreases 4 - i,
                    {
                        if TASK_PRIORITIES[i] == prio {
                            found = true;
                        }
                        i = i + 1;
                    }
                    if !found {
                        return false;
                    }
                }
                !moving || move_ok
            },
            ViewMode::ChangeStatusTask => {
                let sel_ok = match self.selected_status_task_index {
                    Some(i) => i < self.config.statuses.len(),
                    None => false,
                };
                (key != Key::Enter || (task_ok && sel_ok)) && (!picking || move_ok)
            },
            ViewMode::ChangePriorityTask => {
                let sel_ok = match self.selected_priority_task_index {
                    Some(i) => i < 4,
                    None => false,
                };
                key != Key::Enter || (task_ok && sel_ok)
            },
            ViewMode::ChangeCostTask => {
                key != Key::Enter || match self.selected_cost_task_index {
                    Some(i) => i < 4,
                    None => false,
                }
            },
            ViewMode::ChangeTimeTask => {
                key != Key::Enter || match self.selected_time_task_index {
                    Some(i) => i < 4,
                    None => false,
                }
            },
            ViewMode::AddTask => !(key == Key::Enter && !input_empty) || project_ok,
            ViewMode::DeleteTask => key != Key::Char('y') || task_ok,
            _ => true,
        }
    }

    /// Reacts to a key: changes the board and says what the caller does
    /// next. `n` is the number of items in the main list, `input_empty`
    /// whether the text input is empty.
    pub fn handle_key(&mut self, key: Key, n: usize, input_empty: bool) -> (act: Action)
        requires
            can_take(*old(self), key, n, input_empty),
        ensures
            key_step(*old(self), *final(self), key, n, input_empty, act),
    {
        if self.show_help {
            match key {
                Key::Esc | Key::Char('q') | Key::Char('?') => {
                    self.show_help = false;
                },
                _ => {},
            }
            return Action::Nothing;
        }
        match self.view_mode {
            ViewMode::ViewProjects => match key {
                Key::Enter | Key::Right | Key::Char('l') => {
                    if n == 0 {
                        return Action::Nothing;
                    }
                    let rows = Task::load_items(self);
                    self.selected_task_index = Some(0);
                    self.view_mode = ViewMode::ViewTasks;
                    Action::ShowTasks(rows)
                },
                Key::Char('r') => {
                    if n == 0 {
                        return Action::Nothing;
                    }
                    let title = Project::get_current(self).title.clone();
                    self.view_mode = ViewMode::RenameProject;
                    Action::SetInput(title)
                },
                Key::Char('n') => {
                    self.view_mode = ViewMode::AddProject;
                    Action::ResetInput
                },
                Key::Char('d') => {
                    if n == 0 {
                        return Action::Nothing;
                    }
                    self.view_mode = ViewMode::DeleteProject;
                    Action::Nothing
                },
                Key::Char('c') => {
                    if self.is_git_repo && self.git_has_changes {
                        self.view_mode = ViewMode::GitCommit;
                        Action::ResetInput
                    } else {
                        Action::Nothing
                    }
                },
                Key::Down | Key::Tab | Key::Char('j') => {
                    self.next(n);
                    Action::Nothing
                },
                Key::Up | Key::BackTab | Key::Char('k') => {
                    self.previous(n);
                    Action::Nothing
                },
                Key::Char('q') => Action::Quit,
                Key::Char('?') => {
                    self.show_help = true;
                    Action::Nothing
                },
                _ => Action::Nothing,
            },
            ViewMode::RenameProject => match key {
                Key::Enter => {
                    self.view_mode = ViewMode::ViewProjects;
                    Action::RenameProject
                },
                Key::Esc => {
                    self.view_mode = ViewMode::ViewProjects;
                    Action::ResetInput
                },
                _ => Action::ForwardToInput,
            },
            ViewMode::AddProject => match key {
                Key::Esc => {
                    self.view_mode = ViewMode::ViewProjects;
                    Action::Nothing
                },
                Key::Enter => {
                    self.view_mode = ViewMode::ViewProjects;
                    Action::CreateProject
                },
                _ => Action::ForwardToInput,
            },
            ViewMode::DeleteProject => match key {
                Key::Char('y') => {
                    self.view_mode = ViewMode::ViewProjects;
                    Action::DeleteProject(self.selected_project_index)
                },
                Key::Char('n') => {
                    self.view_mode = ViewMode::ViewProjects;
                    Action::Nothing
                },
                _ => Action::Nothing,
            },
            ViewMode::GitCommit => match key {
                Key::Enter => {
                    self.view_mode = ViewMode::ViewProjects;
                    if input_empty {
                        Action::ResetInput
                    } else {
                        Action::CommitAll
                    }
                },
                Key::Esc => {
                    self.git_commit_message = String::new();
                    self.view_mode = ViewMode::ViewProjects;
                    Action::ResetInput
                },
                _ => Action::ForwardToInput,
            },
            ViewMode::ViewTasks => match key {
                Key::Esc | Key::Left | Key::Char('h') => {
                    self.view_mode = ViewMode::ViewProjects;
                    Action::ShowProjects
                },
                Key::Enter => {
                    if n == 0 {
                        return Action::Nothing;
                    }
                    let cur = Task::get_current(self);
                    let idx = match status_position(&self.config.statuses, cur.status.as_str()) {
                        Some(i) => i,
                        None => 0,
                    };
                    self.selected_status_task_index = Some(idx);
                    self.view_mode = ViewMode::ChangeStatusTask;
                    Action::Nothing
                },
                Key::Char('p') => {
                    if n == 0 {
                        return Action::Nothing;
                    }
                    let prio = Task::get_current(self).priority;
                    let idx = scale_index(&TASK_PRIORITIES, prio);
                    self.selected_priority_task_index = Some(idx);
                    self.view_mode = ViewMode::ChangePriorityTask;
                    Action::Nothing
                },
                Key::Char('r') => {
                    if n == 0 {
                        return Action::Nothing;
                    }
                    let title = Task::get_current(self).title.clone();
                    self.view_mode = ViewMode::RenameTask;
                    Action::SetInput(title)
                },
                Key::Char('n') => {
                    self.view_mode = ViewMode::AddTask;
                    Action::ResetInput
                },
                Key::Char('d') => {
                    if n == 0 {
                        return Action::Nothing;
                    }
                    self.view_mode = ViewMode::DeleteTask;
                    Action::Nothing
                },
                Key::Char('e') => {
                    if n == 0 {
                        return Action::Nothing;
                    }
                    Action::EditNotes
                },
                Key::Char('v') => {
                    self.task_view_mode = match self.task_view_mode {
                        TaskViewMode::List => TaskViewMode::Kanban,
                        TaskViewMode::Kanban => TaskViewMode::List,
                    };
                    Action::Nothing
                },
                Key::Down | Key::Tab | Key::Char('j') => {
                    self.next(n);
                    Action::Nothing
                },
                Key::Up | Key::BackTab | Key::Char('k') => {
                    self.previous(n);
                    Action::Nothing
                },
                Key::Char('q') => Action::Quit,
                Key::Char('?') => {
                    self.show_help = true;
                    Action::Nothing
                },
                _ => Action::Nothing,
            },
            ViewMode::RenameTask => match key {
                Key::Enter => {
                    self.view_mode = ViewMode::ViewTasks;
                    Action::RenameTask
                },
                Key::Esc => {
                    self.view_mode = ViewMode::ViewTasks;
                    Action::ResetInput
                },
                _ => Action::ForwardToInput,
            },
            ViewMode::ChangeStatusTask => match key {
                Key::Enter => {
                    let i = match self.selected_status_task_index {
                        Some(i) => i,
                        None => 0,
                    };
                    let label = self.config.statuses[i].label.clone();
                    let p = match self.selected_project_index {
                        Some(p) => p,
                        None => 0,
                    };
                    let t = match self.selected_task_index {
                        Some(t) => t,
                        None => 0,
                    };
                    Task::change_status(self, label.as_str());
                    self.selected_status_task_index = Some(0);
                    self.view_mode = ViewMode::ViewTasks;
                    Action::SaveTask(p, t)
                },
                Key::Down | Key::BackTab | Key::Char('j') => {
                    let len = self.config.statuses.len();
                    self.next(len);
                    Action::Nothing
                },
                Key::Up | Key::Tab | Key::Char('k') => {
                    let len = self.config.statuses.len();
                    self.previous(len);
                    Action::Nothing
                },
                Key::Esc => {
                    self.view_mode = ViewMode::ViewTasks;
                    Action::Nothing
                },
                _ => Action::Nothing,
            },
            ViewMode::ChangePriorityTask => match key {
                Key::Enter => {
                    let i = match self.selected_priority_task_index {
                        Some(i) => i,
                        None => 0,
                    };
                    let value = TASK_PRIORITIES[i];
                    let p = match self.selected_project_index {
                        Some(p) => p,
                        None => 0,
                    };
                    let t = match self.selected_task_index {
                        Some(t) => t,
                        None => 0,
                    };
                    Task::change_priority(self, value);
                    self.selected_priority_task_index = Some(0);
                    self.view_mode = ViewMode::ViewTasks;
                    Action::SaveTask(p, t)
                },
                Key::Down | Key::BackTab | Key::Char('j') => {
                    self.next(4);
                    Action::Nothing
                },
                Key::Up | Key::Tab | Key::Char('k') => {
                    self.previous(4);
                    Action::Nothing
                },
                Key::Esc => {
                    self.view_mode = ViewMode::ViewTasks;
                    Action::Nothing
                },
                _ => Action::Nothing,
            },
            ViewMode::ChangeCostTask => match key {
                Key::Enter => {
                    let i = match self.selected_cost_task_index {
                        Some(i) => i,
                        None => 0,
                    };
                    let value = TASK_COSTS[i];
                    self.selected_cost_task_index = Some(0);
                    self.view_mode = ViewMode::ViewTasks;
                    Action::ChangeCost(value)
                },
                Key::Down | Key::BackTab | Key::Char('j') => {
                    self.next(4);
                    Action::Nothing
                },
                Key::Up | Key::Tab | Key::Char('k') => {
                    self.previous(4);
                    Action::Nothing
                },
                Key::Esc => {
                    self.view_mode = ViewMode::ViewTasks;
                    Action::Nothing
                },
                _ => Action::Nothing,
            },
            ViewMode::ChangeTimeTask => match key {
                Key::Enter => {
                    let i = match self.selected_time_task_index {
                        Some(i) => i,
                        None => 0,
                    };
                    let value = TASK_TIMES[i];
                    self.selected_time_task_index = Some(0);
                    self.view_mode = ViewMode::ViewTasks;
                    Action::ChangeTime(value)
                },
                Key::Down | Key::BackTab | Key::Char('j') => {
                    self.next(4);
                    Action::Nothing
                },
                Key::Up | Key::Tab | Key::Char('k') => {
                    self.previous(4);
                    Action::Nothing
                },
                Key::Esc => {
                    self.view_mode = ViewMode::ViewTasks;
                    Action::Nothing
                },
                _ => Action::Nothing,
            },
            ViewMode::AddTask => match key {
                Key::Enter => {
                    self.view_mode = ViewMode::ViewTasks;
                    if input_empty {
                        Action::Nothing
                    } else {
                        Action::CreateTask
                    }
                },
                Key::Esc => {
                    self.view_mode = ViewMode::ViewTasks;
                    Action::Nothing
                },
                _ => Action::ForwardToInput,
            },
            ViewMode::DeleteTask => match key {
                Key::Char('y') => {
                    let p = match self.selected_project_index {
                        Some(p) => p,
                        None => 0,
                    };
                    let t = match self.selected_task_index {
                        Some(t) => t,
                        None => 0,
                    };
                    self.view_mode = ViewMode::ViewTasks;
                    Action::DeleteTask(p, t)
                },
                Key::Char('n') => {
                    self.view_mode = ViewMode::ViewTasks;
                    Action::Nothing
                },
                _ => Action::Nothing,
            },
        }
    }

    /// After a project was deleted: select the entry above (the first where
    /// the first was selected; the largest index where none was).
    pub fn select_previous_project(&mut self)
        ensures
            *final(self) == (App {
                selected_project_index: selection_above(old(self).selected_project_index),
                ..*old(self)
            }),
    {
        self.selected_project_index = match self.selected_project_index {
            Some(i) => Some(if i == 0 { 0 } else { i - 1 }),
            None => Some(usize::MAX),
        };
    }

    /// After a task was deleted and the tasks reloaded: select the entry
    /// above (the first where the first was selected; the largest index
    /// where none was).
    pub fn select_previous_task(&mut self)
        ensures
            *final(self) == (App {
                selected_task_index: selection_above(old(self).selected_task_index),
                ..*old(self)
            }),
    {
        self.selected_task_index = match self.selected_task_index {
            Some(i) => Some(if i == 0 { 0 } else { i - 1 }),
            None => Some(usize::MAX),
        };
    }

    /// After a project was created: select the entry after the last project.
    pub fn select_created_project(&mut self)
        ensures
            *final(self) == (App { selected_project_index: Some(old(self).projects@.len() as usize), ..*old(self) }),
    {
        self.selected_project_index = Some(self.projects.len());
    }

    /// Records how a commit went: on success whether changes remain, on
    /// failure the message to show.
    pub fn record_commit(&mut self, outcome: Result<bool, String>)
        ensures
            match outcome {
                Ok(changes) => final(self).git_has_changes == changes
                    && final(self).git_commit_message@.len() == 0
                    && *final(self) == (App {
                        git_has_changes: changes,
                        git_commit_message: final(self).git_commit_message,
                        ..*old(self)
                    }),
                Err(e) => *final(self) == (App { git_commit_message: e, ..*old(self) }),
            },
    {
        match outcome {
            Ok(changes) => {
                self.git_has_changes = changes;
                self.git_commit_message = String::new();
            },
            Err(e) => {
                self.git_commit_message = e;
            },
        }
    }
}

/// Stepping forward and then back over a list of `len` items returns to
/// the item one started from, and so does stepping back then forward.
pub proof fn lemma_next_previous_inverse(i: usize, len: nat)
    requires
        i < len,
        len <= usize::MAX,
    ensures
        previous_index(Some(next_index(Some(i), len)), len) == i,
        next_index(Some(previous_index(Some(i), len)), len) == i,
{
}

/// Moving forward always lands inside a non-empty list; moving back does
/// too unless the selection already lay beyond the item after the last.
pub proof fn lemma_moves_stay_in_list(sel: Option<usize>, len: nat)
    requires
        len > 0,
        len <= usize::MAX,
    ensures
        next_index(sel, len) < len,
        (sel matches Some(i) ==> i <= len) ==> previous_index(sel, len) < len,
{
}

/// With nothing typed, no key asks the caller to commit or to create a
/// task: an empty message commits nothing, and an empty title makes no task.
pub proof fn lemma_empty_input_commits_and_creates_nothing(
    a: App,
    b: App,
    key: Key,
    n: usize,
    act: Action,
)
    requires
        key_step(a, b, key, n, true, act),
    ensures
        !(act is CommitAll),
        !(act is CreateTask),
{
}

/// Picking entry `i` of the priority picker and then opening the picker
/// again lands on entry `i`: the task gets the priority that the entry
/// stands for, one of `1`, `2`, `3` or none (`0`), and shows that entry's
/// marks.
pub proof fn lemma_priority_pick_round_trip(
    a: App,
    b: App,
    c: App,
    i: usize,
    n: usize,
    input_empty: bool,
    act1: Action,
    act2: Action,
)
    requires
        !a.show_help,
        a.view_mode == ViewMode::ChangePriorityTask,
        a.selected_priority_task_index == Some(i),
        i < 4,
        current_task(a) is Some,
        n > 0,
        key_step(a, b, Key::Enter, n, input_empty, act1),
        key_step(b, c, Key::Char('p'), n, input_empty, act2),
    ensures
        ({
            let pr = b.projects@[current_p(a)].tasks@[current_t(a)].priority;
            &&& pr == 0 || 1 <= pr <= 3
            &&& priority_indicator(level_in(TASK_PRIORITIES@, pr)) == priority_indicator(
                level_in(TASK_PRIORITIES@, TASK_PRIORITIES@[i as int]),
            )
        }),
        c.view_mode == ViewMode::ChangePriorityTask,
        c.selected_priority_task_index == Some(i),
{
    let p = current_p(a);
    let t = current_t(a);
    assert(current_task(b) == current_task(a));
    let pr = b.projects@[p].tasks@[t].priority;
    assert(TASK_PRIORITIES@ =~= seq![1u8, 2u8, 3u8, 0u8]);
    assert(pr == TASK_PRIORITIES@[i as int]);
    reveal_with_fuel(first_index_from, 5);
    assert(first_index_from(TASK_PRIORITIES@, pr, 0) == i);
}

/// Opening the help over the project or task list and closing it again
/// leaves the board as it was, and neither key asks the caller for anything.
pub proof fn lemma_help_round_trip(
    a: App,
    b: App,
    c: App,
    close: Key,
    n: usize,
    input_empty: bool,
    act1: Action,
    act2: Action,
)
    requires
        !a.show_help,
        a.view_mode == ViewMode::ViewProjects || a.view_mode == ViewMode::ViewTasks,
        close == Key::Esc || close == Key::Char('q') || close == Key::Char('?'),
        key_step(a, b, Key::Char('?'), n, input_empty, act1),
        key_step(b, c, close, n, input_empty, act2),
    ensures
        c == a,
        act1 is Nothing,
        act2 is Nothing,
{
}

/// Switching the task layout twice gives back the layout one started with,
/// and nothing else changes.
pub proof fn lemma_layout_toggle_round_trip(
    a: App,
    b: App,
    c: App,
    n: usize,
    input_empty: bool,
    act1: Action,
    act2: Action,
)
    requires
        !a.show_help,
        a.view_mode == ViewMode::ViewTasks,
        key_step(a, b, Key::Char('v'), n, input_empty, act1),
        key_step(b, c, Key::Char('v'), n, input_empty, act2),
    ensures
        b.task_view_mode != a.task_view_mode,
        c == a,
{
}

/// Opening the rename, new-item or delete dialog over a non-empty list and
/// cancelling it (`Esc`, or `n` for the delete question) leaves the board as
/// it was.
pub proof fn lemma_cancelled_dialog_changes_nothing(
    a: App,
    b: App,
    c: App,
    open: Key,
    cancel: Key,
    n: usize,
    input_empty: bool,
    act1: Action,
    act2: Action,
)
    requires
        !a.show_help,
        a.view_mode == ViewMode::ViewProjects || a.view_mode == ViewMode::ViewTasks,
        n > 0,
        (open == Key::Char('r') && cancel == Key::Esc) || (open == Key::Char('n') && cancel
            == Key::Esc) || (open == Key::Char('d') && cancel == Key::Char('n')),
        key_step(a, b, open, n, input_empty, act1),
        key_step(b, c, cancel, n, input_empty, act2),
    ensures
        b.view_mode != a.view_mode,
        c == a,
{
}

} // verus!
