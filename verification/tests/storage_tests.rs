use taskboard::app::App;
use taskboard::config::Config;
use taskboard::git::Git;
use taskboard::project::Project;
use taskboard::storage::{Storage, TaskMetadata};
use taskboard::task::Task;

fn task(title: &str, status: &str, priority: u8, markdown: Option<&str>) -> Task {
    Task {
        title: title.to_string(),
        status: status.to_string(),
        priority,
        markdown: markdown.map(|m| m.to_string()),
    }
}

#[test]
fn file_names_from_titles() {
    assert_eq!(Storage::title_file_name("Buy more milk"), "Buy_more_milk.md");
    assert_eq!(Storage::title_file_name(""), ".md");
    assert_eq!(
        Storage::task_file_name(&task("Buy milk", "UpNext", 0, None)),
        "Buy_milk.md"
    );
    assert_eq!(
        Storage::task_file_name(&task("Buy milk", "UpNext", 0, Some("milk.md"))),
        "milk.md"
    );
}

#[test]
fn front_matter_and_new_files() {
    assert_eq!(
        Storage::front_matter("OnGoing", 2),
        "---\nstatus: OnGoing\npriority: 2\n---\n\n"
    );
    assert_eq!(
        Storage::front_matter("Done", 255),
        "---\nstatus: Done\npriority: 255\n---\n\n"
    );
    assert_eq!(
        Storage::new_task_content("Call Bob", "UpNext"),
        "---\nstatus: UpNext\npriority: 0\n---\n\n# Call Bob\n"
    );
}

#[test]
fn splitting_front_matter() {
    assert_eq!(
        Storage::split_front_matter("---\nstatus: Done\n---\nbody"),
        Some(("\nstatus: Done\n".to_string(), "\nbody".to_string()))
    );
    assert_eq!(Storage::split_front_matter("no front matter"), None);
    assert_eq!(Storage::split_front_matter("---\nunterminated"), None);
    assert_eq!(
        Storage::front_matter_yaml("---\n  status: Done\n\n---\n"),
        Some("status: Done".to_string())
    );
    assert_eq!(Storage::front_matter_yaml("# title"), None);
}

#[test]
fn saving_keeps_the_notes_and_is_stable() {
    let t = task("Report", "OnGoing", 1, None);
    let old = "---\nstatus: UpNext\npriority: 0\n---\n\n\n  # Report\nnotes\n";
    let once = Storage::task_file_content(&t, Some(old));
    assert_eq!(once, "---\nstatus: OnGoing\npriority: 1\n---\n\n# Report\nnotes\n");
    let twice = Storage::task_file_content(&t, Some(&once));
    assert_eq!(twice, once);
    assert_eq!(
        Storage::task_file_content(&t, None),
        "---\nstatus: OnGoing\npriority: 1\n---\n\n"
    );
    assert_eq!(
        Storage::task_file_content(&t, Some("plain notes")),
        "---\nstatus: OnGoing\npriority: 1\n---\n\n"
    );
}

#[test]
fn written_front_matter_reads_back() {
    let t = task("Report", "Blocked", 3, None);
    let file = Storage::task_file_content(&t, None);
    assert_eq!(
        Storage::front_matter_yaml(&file),
        Some("status: Blocked\npriority: 3".to_string())
    );
}

#[test]
fn tasks_read_from_files() {
    let t = Storage::task_from_file(
        "Report".to_string(),
        "Report.md".to_string(),
        Some(TaskMetadata {
            status: "Done".to_string(),
            priority: 2,
        }),
    );
    assert_eq!(t.title, "Report");
    assert_eq!(t.status, "Done");
    assert_eq!(t.priority, 2);
    assert_eq!(t.markdown.as_deref(), Some("Report.md"));
    let plain = Storage::task_from_file("x".to_string(), "x.md".to_string(), None);
    assert_eq!(plain.status, "UpNext");
    assert_eq!(plain.priority, 0);
}

#[test]
fn notes_file_name_is_recorded_on_the_selected_task() {
    let projects = vec![Project {
        title: "Home".to_string(),
        tasks: vec![task("a", "UpNext", 0, None), task("b", "UpNext", 0, None)],
    }];
    let mut app = App::setup(projects, Config::get_default(), false, false);
    app.selected_task_index = Some(1);
    Storage::save_markdown_path(&mut app, "b-notes.md".to_string());
    assert_eq!(app.projects[0].tasks[1].markdown.as_deref(), Some("b-notes.md"));
    assert_eq!(app.projects[0].tasks[0].markdown, None);
}

#[test]
fn porcelain_output_lists_paths() {
    let out = " M src/lib.rs\r\n?? \"with space.md\"\n\nA  new file\nR\n M caf\u{e9}.md";
    let files = Git::get_modified_files(out);
    assert_eq!(
        files,
        vec!["src/lib.rs", "with space.md", "new file", "R", "caf\u{e9}.md"]
    );
    assert!(Git::has_changes(&files));
    assert!(Git::get_modified_files("").is_empty());
    assert!(!Git::has_changes(&Git::get_modified_files("\n\n")));
}

#[test]
fn porcelain_keeps_a_trailing_carriage_return_without_newline() {
    assert_eq!(Git::get_modified_files("ab\r"), vec!["ab\r"]);
    assert_eq!(Git::get_modified_files("?? x\r"), vec!["x\r"]);
}

#[test]
fn new_tasks_start_in_the_origin_status() {
    let projects = vec![Project { title: "Home".to_string(), tasks: vec![] }];
    let app = App::setup(projects, Config::get_default(), false, false);
    assert!(Task::create(&app, "").is_none());
    let (name, content) = Task::create(&app, "Call Bob").unwrap();
    assert_eq!(name, "Call_Bob.md");
    assert_eq!(content, "---\nstatus: UpNext\npriority: 0\n---\n\n# Call Bob\n");

    let mut config = Config::get_default();
    config.statuses[0].origin = None;
    config.statuses[1].origin = Some(true);
    let projects = vec![Project { title: "Home".to_string(), tasks: vec![] }];
    let app = App::setup(projects, config, false, false);
    let (_, content) = Task::create(&app, "Plan").unwrap();
    assert_eq!(content, "---\nstatus: OnGoing\npriority: 0\n---\n\n# Plan\n");
}
