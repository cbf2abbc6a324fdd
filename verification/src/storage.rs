//! How tasks are kept on disk: one markdown file per task, in a folder per
//! project, starting with a front matter block that holds the task's status
//! and priority.
use vstd::prelude::*;
use vstd::string::*;

use crate::app::App;
use crate::task::{Task, selected_project};
use crate::text::{
    chars_of, decimal_digits, is_unicode_whitespace, lemma_decimal_digits,
    lemma_strip_leading_at, lemma_strip_leading_idempotent, lemma_strip_leading_prefix,
    lemma_strip_trailing_at, push_all, push_char, push_decimal, string_of_range, strip_leading,
    trim_start_whitespace, trim_whitespace, trim_whitespace_str,
};

verus! {

/// The part of a task file's front matter that the board reads.
pub struct TaskMetadata {
    pub status: String,
    pub priority: u8,
}

pub struct Storage;

/// `s` with each space replaced by an underscore.
pub open spec fn spaces_to_underscores(s: Seq<char>) -> Seq<char> {
    s.map_values(|c: char| if c == ' ' { '_' } else { c })
}

/// The file name derived from a title: spaces as underscores, then `.md`.
pub open spec fn title_file_name(title: Seq<char>) -> Seq<char> {
    spaces_to_underscores(title) + ".md"@
}

/// The file a task is kept in: the one it names, or the one derived from
/// its title.
pub open spec fn task_file_name(t: Task) -> Seq<char> {
    match t.markdown {
        Some(m) => m@,
        None => title_file_name(t.title@),
    }
}

/// The front matter written for a task.
pub open spec fn front_matter(status: Seq<char>, priority: u8) -> Seq<char> {
    "---\nstatus: "@ + status + "\npriority: "@ + decimal_digits(priority as nat) + "\n---\n\n"@
}

/// The content of a new task file: the front matter of a task in `status`
/// without priority, then the title as a heading.
pub open spec fn new_task_content(title: Seq<char>, status: Seq<char>) -> Seq<char> {
    front_matter(status, 0) + "# "@ + title + "\n"@
}

/// `s` holds three dashes at `i`.
pub open spec fn dashes_at(s: Seq<char>, i: int) -> bool {
    0 <= i && i + 3 <= s.len() && s[i] == '-' && s[i + 1] == '-' && s[i + 2] == '-'
}

/// The first index at `i` or later where three dashes start.
pub open spec fn dashes_from(s: Seq<char>, i: int) -> Option<int>
    decreases s.len() - i,
{
    if i < 0 || i + 3 > s.len() {
        None
    } else if dashes_at(s, i) {
        Some(i)
    } else {
        dashes_from(s, i + 1)
    }
}

/// A file's front matter and the text after it: the file starts with three
/// dashes, and the front matter runs up to the next three dashes.
pub open spec fn split_front_matter_spec(content: Seq<char>) -> Option<(Seq<char>, Seq<char>)> {
    if !dashes_at(content, 0) {
        None
    } else {
        let rest = content.subrange(3, content.len() as int);
        match dashes_from(rest, 0) {
            Some(k) => Some((rest.subrange(0, k), rest.subrange(k + 3, rest.len() as int))),
            None => None,
        }
    }
}

/// What a task file holds after its front matter, without leading
/// whitespace; nothing where it has no front matter.
pub open spec fn task_body(content: Option<Seq<char>>) -> Seq<char> {
    match content {
        Some(c) => match split_front_matter_spec(c) {
            Some((_, body)) => strip_leading(body, |ch: char| is_unicode_whitespace(ch)),
            None => Seq::empty(),
        },
        None => Seq::empty(),
    }
}

/// No three dashes in a row anywhere in `s`.
pub open spec fn has_no_triple_dash(s: Seq<char>) -> bool {
    forall|i: int| !dashes_at(s, i)
}

proof fn lemma_dashes_from_first(s: Seq<char>, i: int, k: int)
    requires
        0 <= i <= k,
        forall|j: int| i <= j < k ==> !dashes_at(s, j),
        dashes_at(s, k),
    ensures
        dashes_from(s, i) == Some(k),
    decreases k - i,
{
    if i < k {
        lemma_dashes_from_first(s, i + 1, k);
    }
}

/// The front matter as the file holds it between its two dash lines.
pub open spec fn front_matter_block(status: Seq<char>, priority: u8) -> Seq<char> {
    "\nstatus: "@ + status + "\npriority: "@ + decimal_digits(priority as nat) + "\n"@
}

proof fn lemma_block_dash_in_status(status: Seq<char>, priority: u8, m: int)
    requires
        0 <= m < front_matter_block(status, priority).len(),
        front_matter_block(status, priority)[m] == '-',
    ensures
        9 <= m < 9 + status.len(),
{
    reveal_strlit("\nstatus: ");
    reveal_strlit("\npriority: ");
    reveal_strlit("\n");
    let d = decimal_digits(priority as nat);
    lemma_decimal_digits(priority as nat);
    let blk = front_matter_block(status, priority);
    let sl = status.len() as int;
    if m < 9 {
        assert(blk[m] == "\nstatus: "@[m]);
    } else if m >= 9 + sl && m < 9 + sl + 11 {
        assert(blk[m] == "\npriority: "@[m - 9 - sl]);
    } else if m >= 9 + sl + 11 && m < 9 + sl + 11 + d.len() {
        assert(blk[m] == d[m - 9 - sl - 11]);
    } else if m >= 9 + sl {
        assert(blk[m] == '\n');
    }
}

/// What a task file written by the board gives back when read: its front
/// matter block is the one written (whose YAML text is `status: ...` and
/// `priority: ...` on two lines), and the text after it is the body it was
/// written with. The status must not hold three dashes in a row, which
/// would end the front matter early.
pub proof fn lemma_read_back_written_file(status: Seq<char>, priority: u8, body: Seq<char>)
    requires
        has_no_triple_dash(status),
    ensures
        split_front_matter_spec(front_matter(status, priority) + body) == Some(
            (front_matter_block(status, priority), "\n\n"@ + body),
        ),
        trim_whitespace(front_matter_block(status, priority)) == "status: "@ + status
            + "\npriority: "@ + decimal_digits(priority as nat),
{
    reveal_strlit("---\nstatus: ");
    reveal_strlit("\npriority: ");
    reveal_strlit("\n---\n\n");
    reveal_strlit("\nstatus: ");
    reveal_strlit("\n");
    reveal_strlit("---");
    reveal_strlit("\n\n");
    reveal_strlit("status: ");
    let d = decimal_digits(priority as nat);
    lemma_decimal_digits(priority as nat);
    let blk = front_matter_block(status, priority);
    let file = front_matter(status, priority) + body;
    assert(front_matter(status, priority) =~= seq!['-', '-', '-'] + blk + seq!['-', '-', '-', '\n', '\n']);
    let rest = file.subrange(3, file.len() as int);
    assert(rest =~= blk + (seq!['-', '-', '-', '\n', '\n'] + body));
    let k = blk.len() as int;
    let sl = status.len() as int;
    assert(blk.len() == 9 + sl + 11 + d.len() + 1);
    assert forall|j: int| 0 <= j < k implies !dashes_at(rest, j) by {
        if dashes_at(rest, j) {
            if j + 2 >= k {
                assert(rest[k - 1] == '\n');
            } else {
                // All three dashes lie in the front matter block; only the
                // status can hold a dash.
                assert(rest[j] == blk[j] && rest[j + 1] == blk[j + 1] && rest[j + 2] == blk[j + 2]);
                lemma_block_dash_in_status(status, priority, j);
                lemma_block_dash_in_status(status, priority, j + 1);
                lemma_block_dash_in_status(status, priority, j + 2);
                assert(rest[j] == status[j - 9]);
                assert(rest[j + 1] == status[j - 9 + 1]);
                assert(rest[j + 2] == status[j - 9 + 2]);
                assert(dashes_at(status, j - 9));
            }
        }
    }
    assert(dashes_at(rest, k));
    lemma_dashes_from_first(rest, 0, k);
    assert(rest.subrange(0, k) =~= blk);
    assert(rest.subrange(k + 3, rest.len() as int) =~= "\n\n"@ + body);
    // Trimming: one newline goes at each end, then a letter and a digit stop it.
    let ws = |c: char| is_unicode_whitespace(c);
    let inner = "status: "@ + status + "\npriority: "@ + d;
    assert(blk =~= seq!['\n'] + inner + seq!['\n']);
    lemma_strip_leading_at(blk, ws, 1);
    let lead = blk.subrange(1, blk.len() as int);
    assert(lead =~= inner + seq!['\n']);
    assert(inner[inner.len() - 1] == d[d.len() - 1]);
    lemma_strip_trailing_at(lead, ws, lead.len() - 1);
    assert(lead.subrange(0, lead.len() - 1) =~= inner);
}

/// Saving a task twice leaves its file as saving it once: the body that a
/// save keeps is already stripped of the whitespace that the front matter
/// puts before it. (The status must not hold three dashes in a row.)
pub proof fn lemma_save_is_idempotent(task: Task, existing: Option<Seq<char>>)
    requires
        has_no_triple_dash(task.status@),
    ensures
        ({
            let once = front_matter(task.status@, task.priority) + task_body(existing);
            front_matter(task.status@, task.priority) + task_body(Some(once)) == once
        }),
{
    let b = task_body(existing);
    let ws = |c: char| is_unicode_whitespace(c);
    lemma_read_back_written_file(task.status@, task.priority, b);
    reveal_strlit("\n\n");
    assert forall|k: int| 0 <= k < "\n\n"@.len() implies ws(#[trigger] "\n\n"@[k]) by {}
    lemma_strip_leading_prefix("\n\n"@, b, ws);
    match existing {
        Some(c) => match split_front_matter_spec(c) {
            Some((_, body)) => {
                lemma_strip_leading_idempotent(body, ws);
            },
            None => {},
        },
        None => {},
    }
}


impl Storage {
    /// The file name derived from a title: spaces as underscores, then `.md`.
    pub fn title_file_name(title: &str) -> (r: String)
        ensures
            r@ == title_file_name(title@),
    {
        let v = chars_of(title);
        let mut r = String::new();
        let mut i: usize = 0;
        while i < v.len()
            invariant
                i <= v.len(),
                r@ == spaces_to_underscores(v@.take(i as int)),
            decreases v.len() - i,
        {
            let c = v[i];
            push_char(&mut r, if c == ' ' { '_' } else { c });
            assert(spaces_to_underscores(v@.take(i + 1)) =~= spaces_to_underscores(
                v@.take(i as int),
            ).push(if c == ' ' { '_' } else { c }));
            i = i + 1;
        }
        assert(v@.take(v.len() as int) =~= v@);
        push_all(&mut r, ".md");
        r
    }

    /// The file a task is kept in.
    pub fn task_file_name(task: &Task) -> (r: String)
        ensures
            r@ == task_file_name(*task),
    {
        match &task.markdown {
            Some(m) => m.clone(),
            None => Storage::title_file_name(task.title.as_str()),
        }
    }

    /// The front matter written for a task with this status and priority.
    pub fn front_matter(status: &str, priority: u8) -> (r: String)
        ensures
            r@ == front_matter(status@, priority),
    {
        let mut r = String::new();
        push_all(&mut r, "---\nstatus: ");
        push_all(&mut r, status);
        push_all(&mut r, "\npriority: ");
        push_decimal(&mut r, priority as u64);
        push_all(&mut r, "\n---\n\n");
        r
    }

    /// The content of a new task file: front matter with `status` and no
    /// priority, then the title as a heading.
    pub fn new_task_content(title: &str, status: &str) -> (r: String)
        ensures
            r@ == new_task_content(title@, status@),
    {
        let mut r = Storage::front_matter(status, 0);
        push_all(&mut r, "# ");
        push_all(&mut r, title);
        push_all(&mut r, "\n");
        r
    }

    /// A file's front matter and the text after it, where the file starts
    /// with one.
    pub fn split_front_matter(content: &str) -> (r: Option<(String, String)>)
        ensures
            match split_front_matter_spec(content@) {
                Some((fm, body)) => r matches Some((a, b)) && a@ == fm && b@ == body,
                None => r is None,
            },
    {
        let v = chars_of(content);
        let n = v.len();
        if !(n >= 3 && v[0] == '-' && v[1] == '-' && v[2] == '-') {
            return None;
        }
        let ghost rest = v@.subrange(3, n as int);
        let mut i: usize = 3;
        while n - i >= 3
            invariant
                3 <= i <= n == v.len(),
                v@ == content@,
                dashes_at(v@, 0),
                rest == v@.subrange(3, n as int),
                dashes_from(rest, 0) == dashes_from(rest, i - 3),
            decreases n - i,
        {
            if v[i] == '-' && v[i + 1] == '-' && v[i + 2] == '-' {
                assert(dashes_at(rest, i - 3));
                let fm = string_of_range(&v, 3, i);
                let body = string_of_range(&v, i + 3, n);
                assert(rest.subrange(0, i - 3) =~= v@.subrange(3, i as int));
                assert(rest.subrange(i - 3 + 3, rest.len() as int) =~= v@.subrange(
                    i + 3,
                    n as int,
                ));
                return Some((fm, body));
            }
            assert(!dashes_at(rest, i - 3));
            i = i + 1;
        }
        None
    }

    /// The front matter of a task file without surrounding whitespace, ready
    /// to be read as YAML; `None` where the file has none.
    pub fn front_matter_yaml(content: &str) -> (r: Option<String>)
        ensures
            match split_front_matter_spec(content@) {
                Some((fm, _)) => r matches Some(y) && y@ == trim_whitespace(fm),
                None => r is None,
            },
    {
        match Storage::split_front_matter(content) {
            Some((fm, _)) => Some(trim_whitespace_str(fm.as_str())),
            None => None,
        }
    }

    /// The new content of a task's file: its current front matter, then
    /// what the file held after its old front matter (`existing` is the old
    /// content, where the file could be read).
    pub fn task_file_content(task: &Task, existing: Option<&str>) -> (r: String)
        ensures
            r@ == front_matter(task.status@, task.priority) + task_body(
                match existing {
                    Some(e) => Some(e@),
                    None => None,
                },
            ),
    {
        let mut r = Storage::front_matter(task.status.as_str(), task.priority);
        match existing {
            Some(e) => match Storage::split_front_matter(e) {
                Some((_, body)) => {
                    push_all(&mut r, trim_start_whitespace(body.as_str()).as_str());
                },
                None => {},
            },
            None => {},
        }
        proof {
            match existing {
                Some(e) => {
                    if split_front_matter_spec(e@) is None {
                        assert(r@ =~= front_matter(task.status@, task.priority) + Seq::<char>::empty());
                    }
                },
                None => {
                    assert(r@ =~= front_matter(task.status@, task.priority) + Seq::<char>::empty());
                },
            }
        }
        r
    }

    /// The task that a file holds: titled by the file's stem, with the
    /// status and priority of its front matter where that could be read,
    /// `UpNext` and no priority otherwise.
    pub fn task_from_file(stem: String, file_name: String, metadata: Option<TaskMetadata>) -> (r: Task)
        ensures
            r.title == stem,
            r.markdown == Some(file_name),
            match metadata {
                Some(m) => r.status == m.status && r.priority == m.priority,
                None => r.status@ == "UpNext"@ && r.priority == 0,
            },
    {
        match metadata {
            Some(m) => Task { title: stem, status: m.status, priority: m.priority, markdown: Some(file_name) },
            None => Task {
                title: stem,
                status: String::from_str("UpNext"),
                priority: 0,
                markdown: Some(file_name),
            },
        }
    }

    /// Records the file name of the selected task's notes.
    pub fn save_markdown_path(app: &mut App, file_name: String)
        requires
            ({
                let a = *old(app);
                &&& selected_project(a) matches Some(p)
                &&& a.selected_task_index matches Some(t)
                &&& t < a.projects@[p].tasks@.len()
            }),
        ensures
            ({
                let a = *old(app);
                let p = selected_project(a)->0;
                let t = a.selected_task_index->0 as int;
                let old_task = a.projects@[p].tasks@[t];
                let new_task = final(app).projects@[p].tasks@[t];
                &&& final(app).projects@.len() == a.projects@.len()
                &&& forall|q: int| 0 <= q < a.projects@.len() && q != p ==> #[trigger] final(app).projects@[q] == a.projects@[q]
                &&& final(app).projects@[p].title == a.projects@[p].title
                &&& final(app).projects@[p].tasks@.len() == a.projects@[p].tasks@.len()
                &&& forall|k: int| 0 <= k < a.projects@[p].tasks@.len() && k != t ==> #[trigger] final(app).projects@[p].tasks@[k] == a.projects@[p].tasks@[k]
                &&& new_task == (Task { markdown: Some(file_name), ..old_task })
                &&& *final(app) == (App { projects: final(app).projects, ..a })
            }),
    {
        let p = match app.selected_project_index {
            Some(p) => p,
            None => 0,
        };
        let t = match app.selected_task_index {
            Some(t) => t,
            None => 0,
        };
        let mut projects: Vec<crate::project::Project> = Vec::new();
        std::mem::swap(&mut projects, &mut app.projects);
        let mut project = projects.remove(p);
        let mut task = project.tasks.remove(t);
        task.markdown = Some(file_name);
        project.tasks.insert(t, task);
        projects.insert(p, project);
        app.projects = projects;
    }
}

} // verus!
