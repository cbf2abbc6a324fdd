use taskboard::app::{App, TaskViewMode, ViewMode};
use taskboard::config::{Config, StatusColor};
use taskboard::project::Project;
use taskboard::task::Task;
use taskboard::ui::Ui;
use taskboard::view::{Area, ItemsDisplay, Overlay, View};

fn task(title: &str, status: &str, priority: u8) -> Task {
    Task {
        title: title.to_string(),
        status: status.to_string(),
        priority,
        markdown: None,
    }
}

fn board(tasks: Vec<Task>) -> App {
    let projects = vec![Project {
        title: "Home".to_string(),
        tasks,
    }];
    App::setup(projects, Config::get_default(), false, false)
}

fn area(x: u16, y: u16, width: u16, height: u16) -> Area {
    Area { x, y, width, height }
}

#[test]
fn kanban_places_cards_per_status() {
    let mut app = board(vec![
        task("done", "Done", 0),
        task("next-low", "UpNext", 3),
        task("next-high", "UpNext", 1),
        task("doing", "OnGoing", 0),
    ]);
    app.selected_task_index = Some(1);
    let areas = vec![area(1, 2, 20, 10), area(22, 2, 20, 10), area(43, 2, 20, 10)];
    let cols = View::kanban_columns(&app, &areas, true).unwrap();
    assert_eq!(cols.len(), 3);
    assert_eq!(cols[0].title, " UpNext ");
    assert_eq!(cols[0].color, StatusColor::LightMagenta);
    assert_eq!(cols[0].cards.len(), 2);
    assert_eq!(cols[0].cards[0].title, "next-high");
    assert_eq!(cols[0].cards[0].area, area(1, 2, 20, 3));
    assert_eq!(cols[0].cards[0].priority.as_deref(), Some("[[!!!]] "));
    assert!(!cols[0].cards[0].selected);
    assert_eq!(cols[0].cards[1].area, area(1, 6, 20, 3));
    assert!(cols[0].cards[1].selected);
    assert_eq!(cols[0].fill, Some(area(1, 10, 20, 2)));
    assert_eq!(cols[1].cards[0].task, 2);
    assert_eq!(cols[1].cards[0].priority, None);
    assert!(cols[2].crossed_out);
    assert!(!cols[0].crossed_out);
    assert_eq!(cols[2].cards[0].task, 3);
}

#[test]
fn kanban_skips_cards_that_do_not_fit() {
    let app = board(vec![
        task("a", "UpNext", 0),
        task("b", "UpNext", 0),
        task("c", "OnGoing", 0),
    ]);
    let areas = vec![area(0, 0, 10, 5), area(10, 0, 10, 2)];
    let cols = View::kanban_columns(&app, &areas, false).unwrap();
    assert_eq!(cols.len(), 2);
    assert_eq!(cols[0].cards.len(), 1);
    assert_eq!(cols[0].fill, Some(area(0, 4, 10, 1)));
    assert_eq!(cols[1].cards.len(), 0);
    assert_eq!(cols[1].fill, Some(area(10, 0, 10, 2)));
    assert!(cols.iter().all(|c| c.cards.iter().all(|k| !k.selected)));
}

#[test]
fn kanban_of_a_missing_project_draws_nothing() {
    let mut app = board(vec![]);
    app.selected_project_index = Some(3);
    assert!(View::kanban_columns(&app, &vec![area(0, 0, 5, 5)], true).is_none());
}

#[test]
fn help_lists_the_commit_key_only_in_a_repository() {
    let with_git = View::help_lines(true);
    let without = View::help_lines(false);
    assert_eq!(with_git.len(), without.len() + 1);
    assert_eq!(with_git[0], "Help");
    assert!(with_git.iter().any(|l| l.contains("Git commit")));
    assert!(!without.iter().any(|l| l.contains("Git commit")));
    assert_eq!(without.last().unwrap(), "  <?>                   - Toggle this help");
}

#[test]
fn status_picker_title_and_size() {
    assert_eq!(View::status_modal_title(0, 3), "  1/3 \u{25bc}");
    assert_eq!(View::status_modal_title(1, 3), "\u{25b2} 2/3 \u{25bc}");
    assert_eq!(View::status_modal_title(2, 3), "\u{25b2} 3/3  ");
    assert_eq!(View::status_modal_height(3), 5);
    assert_eq!(View::status_modal_height(9), 6);
    assert_eq!(View::status_content_width(&Config::get_default().statuses), 15);
    assert_eq!(View::status_content_width(&vec![]), 18);
}

#[test]
fn commit_dialog_lines() {
    let files: Vec<String> = vec!["a.rs", "a-very-long-file-name.rs", "c", "d", "e"]
        .into_iter()
        .map(String::from)
        .collect();
    let height = View::git_commit_modal_height(files.len());
    assert_eq!(height, 10);
    let lines = View::git_commit_modal_lines(&files, height, 20, "fix it", "");
    assert_eq!(
        lines,
        vec![
            "Git Commit",
            "",
            "  \u{2022} a.rs",
            "  \u{2022} a-very-long...",
            "  \u{2022} c",
            "  \u{2022} d",
            "  ... and 1 more",
            "",
            "> fix it",
        ]
    );
    let short = View::git_commit_modal_lines(&vec![], View::git_commit_modal_height(0), 6, "message", "failed");
    assert_eq!(short, vec!["Git Commit", "", "", "> ", "", "Error: failed"]);
}

#[test]
fn delete_dialog_names_the_item() {
    let mut app = board(vec![task("Pay rent", "UpNext", 0)]);
    app.view_mode = ViewMode::DeleteTask;
    let (q, subject, title) = View::delete_modal_text(&app);
    assert_eq!(q, "Are you sure to delete?");
    assert_eq!(subject, "\"Pay rent\"");
    assert_eq!(title, "Delete");
    app.view_mode = ViewMode::DeleteProject;
    assert_eq!(View::delete_modal_text(&app).1, "\"Home\"");
}

#[test]
fn main_list_title_and_display() {
    let mut app = board(vec![]);
    assert_eq!(View::list_title(&app), None);
    assert_eq!(View::items_display(&app), ItemsDisplay::List);
    app.view_mode = ViewMode::ViewTasks;
    assert_eq!(View::list_title(&app).as_deref(), Some(" Home "));
    app.task_view_mode = TaskViewMode::Kanban;
    assert_eq!(View::items_display(&app), ItemsDisplay::Cards);
    app.view_mode = ViewMode::ChangePriorityTask;
    assert_eq!(View::items_display(&app), ItemsDisplay::CardsBackground);
    app.task_view_mode = TaskViewMode::List;
    assert_eq!(View::items_display(&app), ItemsDisplay::ListBackground);
    assert_eq!(View::overlay(&app), Overlay::PriorityPicker);
    app.view_mode = ViewMode::AddProject;
    assert_eq!(View::overlay(&app), Overlay::NewItem);
    app.view_mode = ViewMode::ViewProjects;
    assert_eq!(View::overlay(&app), Overlay::NoDialog);
}

#[test]
fn screen_layout_and_footer() {
    assert_eq!(View::main_layout(true), (2, 93, 5));
    assert_eq!(View::main_layout(false), (2, 98, 0));
    assert_eq!(View::footer_text(), "<?> help | <q> quit");
}

#[test]
fn dialog_sizes() {
    assert_eq!(Ui::question_modal_size("Are you sure to delete?", "\"x\"", "Delete", None, 100), (30, 4));
    let long = "x".repeat(60);
    assert_eq!(Ui::question_modal_size(&long, "", "", Some("tip"), 100), (66, 6));
    assert_eq!(Ui::question_modal_size(&long, "", "", None, 50), (50, 4));
    assert_eq!(Ui::input_modal_width("abc", "New", "Enter to save", 100), 35);
    assert_eq!(Ui::input_modal_width(&long, "New", "", 100), 70);
    let (input, tip) = Ui::input_modal_parts(area(5, 7, 40, 5));
    assert_eq!(input, area(5, 7, 40, 3));
    assert_eq!(tip, area(5, 10, 40, 1));
    assert_eq!(Ui::input_text_width(area(0, 0, 2, 3)), 0);
    assert_eq!(Ui::input_text_width(area(0, 0, 40, 3)), 37);
    assert_eq!(Ui::input_cursor(input, 4, 1), (9, 8));
    assert_eq!(Ui::input_cursor(input, 0, 3), (6, 8));
}

#[test]
fn kanban_uses_the_last_rows_of_the_screen() {
    let app = board(vec![task("a", "UpNext", 0)]);
    let areas = vec![area(0, 65530, 10, 5)];
    let cols = View::kanban_columns(&app, &areas, true).unwrap();
    assert_eq!(cols[0].cards.len(), 1);
    assert_eq!(cols[0].cards[0].area, area(0, 65530, 10, 3));
    assert_eq!(cols[0].fill, Some(area(0, 65534, 10, 1)));
}

#[test]
fn board_behind_a_dialog_ignores_the_selection() {
    let tasks = || vec![task("a", "UpNext", 2), task("b", "UpNext", 1), task("c", "Done", 0)];
    let mut first = board(tasks());
    let mut second = board(tasks());
    first.selected_task_index = Some(0);
    second.selected_task_index = Some(2);
    let areas = vec![area(0, 0, 10, 12), area(10, 0, 10, 12), area(20, 0, 10, 12)];
    let one = View::kanban_columns(&first, &areas, false).unwrap();
    let two = View::kanban_columns(&second, &areas, false).unwrap();
    assert_eq!(one.len(), two.len());
    for (x, y) in one.iter().zip(two.iter()) {
        assert_eq!(x.title, y.title);
        assert_eq!(x.fill, y.fill);
        assert_eq!(x.cards.len(), y.cards.len());
        for (p, q) in x.cards.iter().zip(y.cards.iter()) {
            assert_eq!((p.task, p.area, p.selected), (q.task, q.area, q.selected));
            assert_eq!(p.title, q.title);
            assert!(!p.selected);
        }
    }
}

#[test]
fn ascii_file_names_are_cut_in_a_narrow_dialog() {
    let files = vec!["abcdefghijkl.rs".to_string()];
    let lines = View::git_commit_modal_lines(&files, View::git_commit_modal_height(1), 9, "", "");
    assert_eq!(lines[2], "  \u{2022} ...");
    let lines = View::git_commit_modal_lines(&files, View::git_commit_modal_height(1), 12, "", "");
    assert_eq!(lines[2], "  \u{2022} abc...");
}
