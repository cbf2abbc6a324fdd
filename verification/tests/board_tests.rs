use taskboard::app::{Action, App, Key, TaskViewMode, ViewMode};
use taskboard::config::{Config, StatusColor};
use taskboard::project::Project;
use taskboard::task::Task;

fn task(title: &str, status: &str, priority: u8) -> Task {
    Task {
        title: title.to_string(),
        status: status.to_string(),
        priority,
        markdown: None,
    }
}

fn titles(tasks: &[Task]) -> Vec<&str> {
    tasks.iter().map(|t| t.title.as_str()).collect()
}

fn board(tasks: Vec<Task>) -> App {
    let projects = vec![
        Project {
            title: "Home".to_string(),
            tasks,
        },
        Project {
            title: "Work".to_string(),
            tasks: vec![],
        },
    ];
    App::setup(projects, Config::get_default(), true, true)
}

#[test]
fn tasks_sort_by_status_then_priority_keeping_ties() {
    let statuses = Config::get_default().statuses;
    let mut tasks = vec![
        task("d1", "Done", 1),
        task("u0", "UpNext", 0),
        task("x", "Elsewhere", 1),
        task("o3", "OnGoing", 3),
        task("u2", "UpNext", 2),
        task("o1", "OnGoing", 1),
        task("u2b", "UpNext", 2),
        task("o0", "OnGoing", 0),
    ];
    Task::sort_tasks(&mut tasks, &statuses);
    assert_eq!(
        titles(&tasks),
        vec!["u2", "u2b", "u0", "o1", "o3", "o0", "d1", "x"]
    );
}

#[test]
fn sorting_sorted_tasks_changes_nothing() {
    let statuses = Config::get_default().statuses;
    let mut tasks = vec![task("a", "UpNext", 1), task("b", "UpNext", 0), task("c", "Done", 2)];
    Task::sort_tasks(&mut tasks, &statuses);
    let first = titles(&tasks).iter().map(|s| s.to_string()).collect::<Vec<_>>();
    Task::sort_tasks(&mut tasks, &statuses);
    assert_eq!(titles(&tasks), first);
}

#[test]
fn load_items_sorts_and_keeps_the_selected_task() {
    let mut app = board(vec![
        task("late", "Done", 0),
        task("urgent", "UpNext", 1),
        task("soon", "OnGoing", 2),
    ]);
    app.selected_task_index = Some(2);
    let rows = Task::load_items(&mut app);
    assert_eq!(titles(&app.projects[0].tasks), vec!["urgent", "soon", "late"]);
    assert_eq!(app.selected_task_index, Some(1));
    assert_eq!(rows.len(), 3);
    assert_eq!(rows[0].priority.as_deref(), Some("[[!!!]] "));
    assert_eq!(rows[0].status, "[UpNext] ");
    assert_eq!(rows[0].color, StatusColor::LightMagenta);
    assert!(!rows[0].crossed_out);
    assert_eq!(rows[1].priority.as_deref(), Some("[[!!] ] "));
    assert_eq!(rows[1].color, StatusColor::Yellow);
    assert_eq!(rows[2].priority, None);
    assert_eq!(rows[2].title, "late");
    assert!(rows[2].crossed_out);
    assert_eq!(rows[2].color, StatusColor::LightGreen);
}

#[test]
fn load_items_selects_first_when_nothing_matches() {
    let mut app = board(vec![task("a", "Unknown", 0)]);
    app.selected_task_index = Some(7);
    let rows = Task::load_items(&mut app);
    assert_eq!(app.selected_task_index, Some(0));
    assert_eq!(rows[0].color, StatusColor::Gray);
    assert!(!rows[0].crossed_out);
}

#[test]
fn change_status_and_priority_touch_only_the_selected_task() {
    let mut app = board(vec![task("a", "UpNext", 0), task("b", "UpNext", 0)]);
    app.selected_task_index = Some(1);
    Task::change_status(&mut app, "Done");
    Task::change_priority(&mut app, 3);
    assert_eq!(app.projects[0].tasks[1].status, "Done");
    assert_eq!(app.projects[0].tasks[1].priority, 3);
    assert_eq!(app.projects[0].tasks[0].status, "UpNext");
    assert_eq!(Task::get_current(&app).title, "b");
}

#[test]
fn status_and_priority_picker_entries() {
    let items = Task::load_statues_items(&Config::get_default());
    assert_eq!(items.len(), 3);
    assert_eq!(items[0].0, "UpNext");
    assert_eq!(items[0].1, StatusColor::LightMagenta);
    assert_eq!(items[2].1, StatusColor::LightGreen);
    assert_eq!(
        Task::load_priority_items(),
        vec!["[!!!]", "[!!] ", "[!]  ", "[]  "]
    );
}

#[test]
fn moving_wraps_around_both_ends() {
    let mut app = board(vec![]);
    app.selected_project_index = Some(2);
    app.next(3);
    assert_eq!(app.selected_project_index, Some(0));
    app.previous(3);
    assert_eq!(app.selected_project_index, Some(2));
    app.previous(3);
    assert_eq!(app.selected_project_index, Some(1));
    app.selected_project_index = None;
    app.next(3);
    assert_eq!(app.selected_project_index, Some(0));
}

#[test]
fn help_opens_and_closes_without_other_change() {
    let mut app = board(vec![]);
    assert!(matches!(app.handle_key(Key::Char('?'), 2, true), Action::Nothing));
    assert!(app.show_help);
    assert!(matches!(app.handle_key(Key::Char('n'), 2, true), Action::Nothing));
    assert_eq!(app.view_mode, ViewMode::ViewProjects);
    assert!(app.show_help);
    app.handle_key(Key::Esc, 2, true);
    assert!(!app.show_help);
}

#[test]
fn opening_a_project_shows_its_sorted_tasks() {
    let mut app = board(vec![task("b", "Done", 0), task("a", "UpNext", 0)]);
    app.selected_task_index = Some(1);
    match app.handle_key(Key::Enter, 2, true) {
        Action::ShowTasks(rows) => {
            assert_eq!(rows.len(), 2);
            assert_eq!(rows[0].title, "a");
        }
        _ => panic!("expected the task list"),
    }
    assert_eq!(app.view_mode, ViewMode::ViewTasks);
    assert_eq!(app.selected_task_index, Some(0));
    assert!(matches!(app.handle_key(Key::Esc, 2, true), Action::ShowProjects));
    assert_eq!(app.view_mode, ViewMode::ViewProjects);
}

#[test]
fn empty_lists_ignore_opening_keys() {
    let mut app = board(vec![]);
    assert!(matches!(app.handle_key(Key::Enter, 0, true), Action::Nothing));
    assert!(matches!(app.handle_key(Key::Char('d'), 0, true), Action::Nothing));
    assert_eq!(app.view_mode, ViewMode::ViewProjects);
}

#[test]
fn quitting_from_the_lists() {
    let mut app = board(vec![]);
    assert!(matches!(app.handle_key(Key::Char('q'), 2, true), Action::Quit));
    app.view_mode = ViewMode::ViewTasks;
    assert!(matches!(app.handle_key(Key::Char('q'), 0, true), Action::Quit));
}

#[test]
fn changing_a_status_through_the_picker() {
    let mut app = board(vec![task("a", "OnGoing", 0)]);
    app.view_mode = ViewMode::ViewTasks;
    app.handle_key(Key::Enter, 1, true);
    assert_eq!(app.view_mode, ViewMode::ChangeStatusTask);
    assert_eq!(app.selected_status_task_index, Some(1));
    app.handle_key(Key::Char('j'), 1, true);
    assert_eq!(app.selected_status_task_index, Some(2));
    match app.handle_key(Key::Enter, 1, true) {
        Action::SaveTask(p, t) => assert_eq!((p, t), (0, 0)),
        _ => panic!("expected a save"),
    }
    assert_eq!(app.projects[0].tasks[0].status, "Done");
    assert_eq!(app.selected_status_task_index, Some(0));
    assert_eq!(app.view_mode, ViewMode::ViewTasks);
}

#[test]
fn changing_a_priority_through_the_picker() {
    let mut app = board(vec![task("a", "UpNext", 2)]);
    app.view_mode = ViewMode::ViewTasks;
    app.handle_key(Key::Char('p'), 1, true);
    assert_eq!(app.view_mode, ViewMode::ChangePriorityTask);
    assert_eq!(app.selected_priority_task_index, Some(1));
    app.handle_key(Key::Tab, 1, true);
    assert_eq!(app.selected_priority_task_index, Some(0));
    app.handle_key(Key::Enter, 1, true);
    assert_eq!(app.projects[0].tasks[0].priority, 1);
}

#[test]
fn an_unknown_priority_cannot_be_picked() {
    let app = {
        let mut a = board(vec![task("a", "UpNext", 9)]);
        a.view_mode = ViewMode::ViewTasks;
        a
    };
    assert!(!app.can_take_key(Key::Char('p'), 1, true));
    assert!(app.can_take_key(Key::Char('j'), 1, true));
}

#[test]
fn deleting_moves_the_selection_up() {
    let mut app = board(vec![task("a", "UpNext", 0), task("b", "UpNext", 0), task("c", "UpNext", 0)]);
    app.view_mode = ViewMode::DeleteTask;
    app.selected_task_index = Some(2);
    match app.handle_key(Key::Char('y'), 3, true) {
        Action::DeleteTask(p, t) => assert_eq!((p, t), (0, 2)),
        _ => panic!("expected a delete"),
    }
    assert_eq!(app.view_mode, ViewMode::ViewTasks);
    assert_eq!(app.selected_task_index, Some(2));
    // The file is gone and the tasks are reloaded: the selection names no
    // task any more, so the reload selects the first, and moving up keeps it.
    app.projects[0].tasks.remove(2);
    Task::load_items(&mut app);
    app.select_previous_task();
    assert_eq!(app.selected_task_index, Some(0));

    let mut app = board(vec![task("a", "UpNext", 0), task("b", "UpNext", 0), task("c", "UpNext", 0)]);
    app.view_mode = ViewMode::DeleteTask;
    app.selected_task_index = Some(1);
    app.handle_key(Key::Char('y'), 3, true);
    app.projects[0].tasks.remove(1);
    Task::load_items(&mut app);
    assert_eq!(app.selected_task_index, Some(1));
    app.select_previous_task();
    assert_eq!(app.selected_task_index, Some(0));

    app.view_mode = ViewMode::DeleteProject;
    app.selected_project_index = None;
    match app.handle_key(Key::Char('y'), 2, true) {
        Action::DeleteProject(before) => assert_eq!(before, None),
        _ => panic!("expected a delete"),
    }
    assert_eq!(app.selected_project_index, None);
    app.select_previous_project();
    assert_eq!(app.selected_project_index, Some(usize::MAX));
}

#[test]
fn commit_dialog_flow() {
    let mut app = board(vec![]);
    assert!(matches!(app.handle_key(Key::Char('c'), 2, true), Action::ResetInput));
    assert_eq!(app.view_mode, ViewMode::GitCommit);
    assert!(matches!(app.handle_key(Key::Char('x'), 2, false), Action::ForwardToInput));
    assert!(matches!(app.handle_key(Key::Enter, 2, false), Action::CommitAll));
    app.record_commit(Err("nothing added".to_string()));
    assert_eq!(app.git_commit_message, "nothing added");
    app.record_commit(Ok(false));
    assert!(!app.git_has_changes);
    assert_eq!(app.git_commit_message, "");
    // Without changes the dialog does not open.
    assert!(matches!(app.handle_key(Key::Char('c'), 2, true), Action::Nothing));
    assert_eq!(app.view_mode, ViewMode::ViewProjects);
}

#[test]
fn adding_items() {
    let mut app = board(vec![]);
    assert!(matches!(app.handle_key(Key::Char('n'), 2, true), Action::ResetInput));
    assert!(matches!(app.handle_key(Key::Enter, 2, false), Action::CreateProject));
    app.select_created_project();
    assert_eq!(app.selected_project_index, Some(2));
    app.view_mode = ViewMode::AddTask;
    assert!(matches!(app.handle_key(Key::Enter, 0, true), Action::Nothing));
    app.view_mode = ViewMode::AddTask;
    app.selected_project_index = Some(0);
    assert!(matches!(app.handle_key(Key::Enter, 0, false), Action::CreateTask));
}

#[test]
fn renaming_puts_the_title_in_the_input() {
    let mut app = board(vec![task("write report", "UpNext", 0)]);
    match app.handle_key(Key::Char('r'), 2, true) {
        Action::SetInput(t) => assert_eq!(t, "Home"),
        _ => panic!("expected the title"),
    }
    assert!(matches!(app.handle_key(Key::Esc, 2, true), Action::ResetInput));
    app.view_mode = ViewMode::ViewTasks;
    match app.handle_key(Key::Char('r'), 1, true) {
        Action::SetInput(t) => assert_eq!(t, "write report"),
        _ => panic!("expected the title"),
    }
    assert!(matches!(app.handle_key(Key::Enter, 1, true), Action::RenameTask));
}

#[test]
fn toggling_the_task_layout() {
    let mut app = board(vec![]);
    app.view_mode = ViewMode::ViewTasks;
    app.handle_key(Key::Char('v'), 0, true);
    assert_eq!(app.task_view_mode, TaskViewMode::Kanban);
    app.handle_key(Key::Char('v'), 0, true);
    assert_eq!(app.task_view_mode, TaskViewMode::List);
}

#[test]
fn cancelled_dialogs_change_nothing() {
    let mut app = board(vec![task("a", "UpNext", 1)]);
    for (open, cancel) in [
        (Key::Char('r'), Key::Esc),
        (Key::Char('n'), Key::Esc),
        (Key::Char('d'), Key::Char('n')),
    ] {
        app.handle_key(open, 2, true);
        assert_ne!(app.view_mode, ViewMode::ViewProjects);
        app.handle_key(cancel, 2, true);
        assert_eq!(app.view_mode, ViewMode::ViewProjects);
        assert_eq!(app.selected_project_index, Some(0));
    }
    app.change_view(ViewMode::ViewTasks);
    for (open, cancel) in [
        (Key::Char('r'), Key::Esc),
        (Key::Char('n'), Key::Esc),
        (Key::Char('d'), Key::Char('n')),
    ] {
        app.handle_key(open, 1, true);
        assert_ne!(app.view_mode, ViewMode::ViewTasks);
        app.handle_key(cancel, 1, true);
        assert_eq!(app.view_mode, ViewMode::ViewTasks);
        assert_eq!(app.selected_task_index, Some(0));
        assert_eq!(app.projects[0].tasks.len(), 1);
    }
}

#[test]
fn change_view_switches_only_the_view() {
    let mut app = board(vec![task("a", "UpNext", 1)]);
    app.change_view(ViewMode::DeleteTask);
    assert_eq!(app.view_mode, ViewMode::DeleteTask);
    assert_eq!(app.task_view_mode, TaskViewMode::List);
    assert_eq!(app.selected_project_index, Some(0));
}
