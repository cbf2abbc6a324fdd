//! Projects: a named folder of tasks.
use vstd::prelude::*;

use crate::app::App;
use crate::task::{selected_project, Task};

verus! {

/// A project and the tasks it holds.
pub struct Project {
    pub title: String,
    pub tasks: Vec<Task>,
}

impl Project {
    /// The selected project.
    pub fn get_current(app: &App) -> (r: &Project)
        requires
            selected_project(*app) is Some,
        ensures
            *r == app.projects@[selected_project(*app)->0],
    {
        let p = match app.selected_project_index {
            Some(p) => p,
            None => 0,
        };
        &app.projects[p]
    }
}

} // verus!
