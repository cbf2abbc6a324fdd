//! Tasks, their scales, and how a project's tasks are ordered and shown.
use vstd::prelude::*;

use crate::app::App;
use crate::config::{color_of_name, origin_label_from, Config, ConfigToml, StatusColor, StatusConfig};
use crate::storage::{new_task_content, title_file_name, Storage};
use crate::project::Project;
use crate::text::{lowercase_of, push_all, push_char, same_str, same_text};
use vstd::string::*;
use crate::util::{level_in, priority_indicator, Util};

verus! {

/// The statuses a task has where no configuration says otherwise.
pub const TASK_STATUSES: [&'static str; 3] = ["UpNext", "OnGoing", "Done"];

/// Priorities in the order they are offered: highest first, none last.
pub const TASK_PRIORITIES: [u8; 4] = [1, 2, 3, 0];

/// Costs in the order they are offered: highest first, none last.
pub const TASK_COSTS: [u8; 4] = [1, 2, 3, 0];

/// Time estimates in the order they are offered: longest first, none last.
pub const TASK_TIMES: [u8; 4] = [1, 2, 3, 0];

/// How one task is shown in the task list.
pub struct TaskRow {
    /// The priority marks in brackets and a space, for a task with a
    /// priority.
    pub priority: Option<String>,
    /// The status in brackets and a space.
    pub status: String,
    pub title: String,
    /// The color of the task's status.
    pub color: StatusColor,
    /// Whether the task's status is terminal (the row is struck through).
    pub crossed_out: bool,
}

/// One task of a project.
pub struct Task {
    pub title: String,
    pub status: String,
    /// `1` is the highest priority, `3` the lowest, `0` none.
    pub priority: u8,
    /// The name of the task's markdown file, where known.
    pub markdown: Option<String>,
}

// ---------------------------------------------------------------------------
// Ordering: the model
// ---------------------------------------------------------------------------

/// The index of the first status at `i` or later labelled `label`.
pub open spec fn find_status_from(statuses: Seq<StatusConfig>, label: Seq<char>, i: int) -> Option<
    int,
>
    decreases statuses.len() - i,
{
    if i < 0 || i >= statuses.len() {
        None
    } else if statuses[i].label@ == label {
        Some(i)
    } else {
        find_status_from(statuses, label, i + 1)
    }
}

proof fn lemma_find_status_bounds(statuses: Seq<StatusConfig>, label: Seq<char>, i: int)
    requires
        0 <= i,
    ensures
        match find_status_from(statuses, label, i) {
            Some(k) => i <= k < statuses.len() && statuses[k].label@ == label,
            None => true,
        },
    decreases statuses.len() - i,
{
    if i < statuses.len() && statuses[i].label@ != label {
        lemma_find_status_bounds(statuses, label, i + 1);
    }
}

/// The index of the first status labelled `label`.
pub open spec fn find_status(statuses: Seq<StatusConfig>, label: Seq<char>) -> Option<int> {
    find_status_from(statuses, label, 0)
}

/// Where a task's status stands in the configured order; unknown statuses
/// come after all known ones.
pub open spec fn status_rank(statuses: Seq<StatusConfig>, t: Task) -> int {
    match find_status(statuses, t.status@) {
        Some(i) => i,
        None => usize::MAX as int,
    }
}

/// Where a priority stands: `1`, `2`, `3` in that order, then `0` (none).
pub open spec fn priority_rank(p: u8) -> int {
    if p == 0 {
        256
    } else {
        p as int
    }
}

/// `a` may come before `b`: its status comes first, or the status is the
/// same and its priority comes first or is the same.
pub open spec fn ranks_before_or_with(statuses: Seq<StatusConfig>, a: Task, b: Task) -> bool {
    status_rank(statuses, a) < status_rank(statuses, b) || (status_rank(statuses, a)
        == status_rank(statuses, b) && priority_rank(a.priority) <= priority_rank(b.priority))
}

/// `a` and `b` have the same place in the order.
pub open spec fn same_rank(statuses: Seq<StatusConfig>, a: Task, b: Task) -> bool {
    status_rank(statuses, a) == status_rank(statuses, b) && priority_rank(a.priority)
        == priority_rank(b.priority)
}

/// The tasks are in board order.
pub open spec fn is_in_board_order(statuses: Seq<StatusConfig>, s: Seq<Task>) -> bool {
    forall|i: int, j: int|
        0 <= i < j < s.len() ==> ranks_before_or_with(statuses, #[trigger] s[i], #[trigger] s[j])
}

/// Some entry of `perm` is `j`.
pub open spec fn takes_value(perm: Seq<int>, j: int) -> bool {
    exists|k: int| 0 <= k < perm.len() && perm[k] == j
}

/// `perm` says where each task of `out` was in `inp`: it is one-to-one and
/// keeps tasks of the same rank in their first order.
pub open spec fn is_stable_arrangement(
    statuses: Seq<StatusConfig>,
    out: Seq<Task>,
    inp: Seq<Task>,
    perm: Seq<int>,
) -> bool {
    &&& out.len() == inp.len()
    &&& perm.len() == inp.len()
    &&& forall|k: int| 0 <= k < perm.len() ==> 0 <= #[trigger] perm[k] < inp.len()
    &&& forall|a: int, b: int| 0 <= a < b < perm.len() ==> #[trigger] perm[a] != #[trigger] perm[b]
    &&& forall|j: int| 0 <= j < inp.len() ==> #[trigger] takes_value(perm, j)
    &&& forall|k: int| 0 <= k < out.len() ==> #[trigger] out[k] == inp[perm[k]]
    &&& forall|a: int, b: int|
        0 <= a < b < out.len() && same_rank(statuses, #[trigger] out[a], #[trigger] out[b])
            ==> perm[a] < perm[b]
}

/// `out` is `inp` in board order, tasks of the same rank keeping their first
/// order: the one stable sort of `inp`.
pub open spec fn is_board_sort_of(statuses: Seq<StatusConfig>, out: Seq<Task>, inp: Seq<Task>) -> bool {
    &&& is_in_board_order(statuses, out)
    &&& exists|perm: Seq<int>| is_stable_arrangement(statuses, out, inp, perm)
}

proof fn lemma_increasing_lower(perm: Seq<int>, k: int)
    requires
        0 <= k < perm.len(),
        forall|i: int| 0 <= i < perm.len() ==> 0 <= #[trigger] perm[i],
        forall|a: int, b: int| 0 <= a < b < perm.len() ==> #[trigger] perm[a] < #[trigger] perm[b],
    ensures
        perm[k] >= k,
    decreases k,
{
    if k > 0 {
        lemma_increasing_lower(perm, k - 1);
        assert(perm[k - 1] < perm[k]);
    }
}

proof fn lemma_increasing_upper(perm: Seq<int>, k: int)
    requires
        0 <= k < perm.len(),
        forall|i: int| 0 <= i < perm.len() ==> #[trigger] perm[i] < perm.len(),
        forall|a: int, b: int| 0 <= a < b < perm.len() ==> #[trigger] perm[a] < #[trigger] perm[b],
    ensures
        perm[k] <= k,
    decreases perm.len() - k,
{
    if k < perm.len() - 1 {
        lemma_increasing_upper(perm, k + 1);
        assert(perm[k] < perm[k + 1]);
    }
}

/// Putting tasks that are already in board order into board order leaves
/// them as they are: reloading a sorted list does not move any task.
pub proof fn lemma_sorting_sorted_tasks_keeps_them(
    statuses: Seq<StatusConfig>,
    out: Seq<Task>,
    inp: Seq<Task>,
)
    requires
        is_board_sort_of(statuses, out, inp),
        is_in_board_order(statuses, inp),
    ensures
        out == inp,
{
    let perm = choose|perm: Seq<int>| is_stable_arrangement(statuses, out, inp, perm);
    let n = inp.len() as int;
    assert forall|a: int, b: int| 0 <= a < b < n implies #[trigger] perm[a] < #[trigger] perm[b] by {
        assert(out[a] == inp[perm[a]]);
        assert(out[b] == inp[perm[b]]);
        assert(ranks_before_or_with(statuses, out[a], out[b]));
        if !same_rank(statuses, out[a], out[b]) && perm[b] < perm[a] {
            assert(ranks_before_or_with(statuses, inp[perm[b]], inp[perm[a]]));
        }
    }
    assert forall|k: int| 0 <= k < n implies #[trigger] out[k] == inp[k] by {
        lemma_increasing_lower(perm, k);
        lemma_increasing_upper(perm, k);
    }
    assert(out =~= inp);
}

/// The board order of a list of tasks is unique: two stable sorts of the
/// same tasks are the same list, so the task list and the kanban board show
/// the tasks of a project in one order.
pub proof fn lemma_board_sort_is_unique(
    statuses: Seq<StatusConfig>,
    out1: Seq<Task>,
    out2: Seq<Task>,
    inp: Seq<Task>,
)
    requires
        is_board_sort_of(statuses, out1, inp),
        is_board_sort_of(statuses, out2, inp),
    ensures
        out1 == out2,
{
    let p1 = choose|perm: Seq<int>| is_stable_arrangement(statuses, out1, inp, perm);
    let p2 = choose|perm: Seq<int>| is_stable_arrangement(statuses, out2, inp, perm);
    let n = inp.len() as int;
    let inv = Seq::new(n as nat, |j: int| choose|k: int| 0 <= k < n && p1[k] == j);
    assert forall|j: int| 0 <= j < n implies 0 <= #[trigger] inv[j] < n && p1[inv[j]] == j by {
        assert(takes_value(p1, j));
    }
    let q = Seq::new(n as nat, |k: int| inv[p2[k]]);
    assert forall|k: int| 0 <= k < n implies 0 <= #[trigger] q[k] < n && p1[q[k]] == p2[k] by {
        assert(0 <= p2[k] < n);
        assert(0 <= inv[p2[k]] < n);
    }
    assert forall|a: int, b: int| 0 <= a < b < n implies #[trigger] q[a] != #[trigger] q[b] by {
        assert(p1[q[a]] == p2[a]);
        assert(p1[q[b]] == p2[b]);
        assert(p2[a] != p2[b]);
    }
    assert forall|j: int| 0 <= j < n implies #[trigger] takes_value(q, j) by {
        assert(0 <= p1[j] < n);
        assert(takes_value(p2, p1[j]));
        let k = choose|k: int| 0 <= k < p2.len() && p2[k] == p1[j];
        assert(p1[q[k]] == p1[j]);
        if q[k] != j {
            if q[k] < j {
                assert(p1[q[k]] != p1[j]);
            } else {
                assert(p1[j] != p1[q[k]]);
            }
        }
        assert(q[k] == j);
    }
    assert forall|k: int| 0 <= k < n implies #[trigger] out2[k] == out1[q[k]] by {
        assert(out2[k] == inp[p2[k]]);
        assert(out1[q[k]] == inp[p1[q[k]]]);
    }
    assert forall|a: int, b: int|
        0 <= a < b < n && same_rank(statuses, #[trigger] out2[a], #[trigger] out2[b]) implies q[a]
        < q[b] by {
        let i = q[a];
        let j = q[b];
        assert(p1[i] == p2[a]);
        assert(p1[j] == p2[b]);
        assert(p2[a] < p2[b]);
        assert(out1[i] == out2[a]);
        assert(out1[j] == out2[b]);
        if j < i {
            assert(same_rank(statuses, out1[j], out1[i]));
            assert(p1[j] < p1[i]);
        }
        assert(i != j);
    }
    assert(is_stable_arrangement(statuses, out2, out1, q));
    lemma_sorting_sorted_tasks_keeps_them(statuses, out2, out1);
}

proof fn lemma_find_status_at_most(statuses: Seq<StatusConfig>, label: Seq<char>, i: int, x: int)
    requires
        0 <= i <= x < statuses.len(),
        statuses[x].label@ == label,
    ensures
        find_status_from(statuses, label, i) matches Some(z) && i <= z <= x && statuses[z].label@
            == label,
    decreases x - i,
{
    if statuses[i].label@ != label {
        lemma_find_status_at_most(statuses, label, i + 1, x);
    }
}

/// The board follows the configured order of statuses: a task that comes
/// before a task whose status is configured at position `x` has a status
/// configured at `x` or earlier (so tasks with an unconfigured status come
/// after all others).
pub proof fn lemma_board_order_follows_statuses(
    statuses: Seq<StatusConfig>,
    out: Seq<Task>,
    inp: Seq<Task>,
    i: int,
    j: int,
    x: int,
)
    requires
        is_board_sort_of(statuses, out, inp),
        0 <= i < j < out.len(),
        0 <= x < statuses.len(),
        statuses[x].label@ == out[j].status@,
        statuses.len() <= usize::MAX,
    ensures
        exists|z: int| 0 <= z <= x && #[trigger] statuses[z].label@ == out[i].status@,
{
    assert(ranks_before_or_with(statuses, out[i], out[j]));
    lemma_find_status_at_most(statuses, out[j].status@, 0, x);
    lemma_find_status_bounds(statuses, out[i].status@, 0);
    let z = status_rank(statuses, out[i]);
    assert(find_status(statuses, out[i].status@) is Some);
    assert(statuses[z].label@ == out[i].status@);
}

/// Within one status the board shows priority `1` (`!!!`) first, then `2`,
/// then `3`, and tasks without priority (`0`) last: of two tasks of the same
/// status, the later one has priority `1` only if the earlier one has, has
/// a priority from `1` to `3` only if the earlier one has one no larger, and
/// a task without priority is followed only by tasks without priority.
pub proof fn lemma_board_order_ranks_priorities(
    statuses: Seq<StatusConfig>,
    out: Seq<Task>,
    inp: Seq<Task>,
    i: int,
    j: int,
)
    requires
        is_board_sort_of(statuses, out, inp),
        0 <= i < j < out.len(),
        out[i].status@ == out[j].status@,
    ensures
        1 <= out[j].priority <= 3 ==> 1 <= out[i].priority <= out[j].priority,
        out[i].priority == 0 ==> out[j].priority == 0,
{
    assert(ranks_before_or_with(statuses, out[i], out[j]));
    assert(status_rank(statuses, out[i]) == status_rank(statuses, out[j]));
}

pub open spec fn key_le(a: (int, int), b: (int, int)) -> bool {
    a.0 < b.0 || (a.0 == b.0 && a.1 <= b.1)
}

pub open spec fn rank_key(statuses: Seq<StatusConfig>, t: Task) -> (int, int) {
    (status_rank(statuses, t), priority_rank(t.priority))
}

// ---------------------------------------------------------------------------
// Ordering: executable
// ---------------------------------------------------------------------------

/// Index of the first status labelled `label`.
pub fn status_position(statuses: &Vec<StatusConfig>, label: &str) -> (r: Option<usize>)
    ensures
        match r {
            Some(k) => find_status(statuses@, label@) == Some(k as int),
            None => find_status(statuses@, label@) is None,
        },
        r matches Some(k) ==> k < statuses.len(),
{
    let mut i: usize = 0;
    while i < statuses.len()
        invariant
            i <= statuses.len(),
            find_status(statuses@, label@) == find_status_from(statuses@, label@, i as int),
        decreases statuses.len() - i,
    {
        if same_str(statuses[i].label.as_str(), label) {
            return Some(i);
        }
        i = i + 1;
    }
    None
}

fn key_of(statuses: &Vec<StatusConfig>, t: &Task) -> (k: (usize, u16))
    ensures
        k.0 as int == rank_key(statuses@, *t).0,
        k.1 as int == rank_key(statuses@, *t).1,
{
    proof {
        lemma_find_status_bounds(statuses@, t.status@, 0);
    }
    let pos = status_position(statuses, t.status.as_str());
    let s: usize = match pos {
        Some(i) => {
            assert(find_status(statuses@, t.status@) == Some(i as int));
            i
        },
        None => {
            assert(find_status(statuses@, t.status@) is None);
            usize::MAX
        },
    };
    let p: u16 = if t.priority == 0 {
        256
    } else {
        t.priority as u16
    };
    (s, p)
}

fn key_gt(a: (usize, u16), b: (usize, u16)) -> (r: bool)
    ensures
        r == !key_le((a.0 as int, a.1 as int), (b.0 as int, b.1 as int)),
{
    a.0 > b.0 || (a.0 == b.0 && a.1 > b.1)
}

/// Moving the element at `i` to `p <= i` shifts the ones between right.
#[verifier::spinoff_prover]
proof fn lemma_move<A>(s: Seq<A>, i: int, p: int)
    requires
        0 <= p <= i < s.len(),
    ensures
        s.remove(i).insert(p, s[i]).len() == s.len(),
        forall|k: int| 0 <= k < p ==> #[trigger] s.remove(i).insert(p, s[i])[k] == s[k],
        s.remove(i).insert(p, s[i])[p] == s[i],
        forall|k: int| p < k <= i ==> #[trigger] s.remove(i).insert(p, s[i])[k] == s[k - 1],
        forall|k: int| i < k < s.len() ==> #[trigger] s.remove(i).insert(p, s[i])[k] == s[k],
{
    let r = s.remove(i);
    s.remove_ensures(i);
    r.insert_ensures(p, s[i]);
    let t = r.insert(p, s[i]);
    assert forall|k: int| 0 <= k < p implies #[trigger] t[k] == s[k] by {
        assert(t[k] == r[k]);
        assert(r[k] == s[k]);
    }
    assert forall|k: int| p < k <= i implies #[trigger] t[k] == s[k - 1] by {
        let j = k - 1;
        assert(p <= j < r.len());
        assert(t[j + 1] == r[j]);
        assert(r[j] == s[j]);
    }
    assert forall|k: int| i < k < s.len() implies #[trigger] t[k] == s[k] by {
        let j = k - 1;
        assert(p <= j < r.len());
        assert(t[j + 1] == r[j]);
        assert(i <= j);
        assert(r[j] == s[j + 1]);
    }
}

// ---------------------------------------------------------------------------
// The task list: the model
// ---------------------------------------------------------------------------

/// The color a task with this status is shown in: that of the first status
/// with its label, gray for an unknown status.
pub open spec fn status_color(statuses: Seq<StatusConfig>, label: Seq<char>) -> StatusColor {
    match find_status(statuses, label) {
        Some(i) => color_of_name(lowercase_of(statuses[i].color@)),
        None => StatusColor::Gray,
    }
}

/// Whether a task with this status is finished: the first status with its
/// label is terminal.
pub open spec fn status_is_terminal(statuses: Seq<StatusConfig>, label: Seq<char>) -> bool {
    match find_status(statuses, label) {
        Some(i) => statuses[i].terminal,
        None => false,
    }
}

/// The priority column of a task's row: its marks in brackets, then a space.
pub open spec fn priority_column(p: u8) -> Seq<char> {
    seq!['['] + priority_indicator(level_in(TASK_PRIORITIES@, p)) + seq![']', ' ']
}

/// `r` shows task `t`.
pub open spec fn is_row_of(statuses: Seq<StatusConfig>, t: Task, r: TaskRow) -> bool {
    &&& r.title@ == t.title@
    &&& r.status@ == seq!['['] + t.status@ + seq![']', ' ']
    &&& match r.priority {
        Some(p) => t.priority != 0 && p@ == priority_column(t.priority),
        None => t.priority == 0,
    }
    &&& r.color == status_color(statuses, t.status@)
    &&& r.crossed_out == status_is_terminal(statuses, t.status@)
}

/// Each row shows the task at the same place.
pub open spec fn are_rows_of(statuses: Seq<StatusConfig>, ts: Seq<Task>, rows: Seq<TaskRow>) -> bool {
    &&& rows.len() == ts.len()
    &&& forall|k: int| 0 <= k < ts.len() ==> is_row_of(statuses, #[trigger] ts[k], rows[k])
}

/// The title of the selected task (the first where none is selected), or
/// nothing where there is no such task.
pub open spec fn selected_title(ts: Seq<Task>, sel: Option<usize>) -> Seq<char> {
    let k = match sel {
        Some(k) => k as int,
        None => 0,
    };
    if k < ts.len() {
        ts[k].title@
    } else {
        Seq::empty()
    }
}

/// The index of the first task at `i` or later titled `title`.
pub open spec fn title_position_from(ts: Seq<Task>, title: Seq<char>, i: int) -> Option<int>
    decreases ts.len() - i,
{
    if i < 0 || i >= ts.len() {
        None
    } else if ts[i].title@ == title {
        Some(i)
    } else {
        title_position_from(ts, title, i + 1)
    }
}

/// The index to select after reordering: the first task with the title that
/// was selected, or the first task.
pub open spec fn reselected_index(ts: Seq<Task>, title: Seq<char>) -> int {
    match title_position_from(ts, title, 0) {
        Some(k) => k,
        None => 0,
    }
}

proof fn lemma_title_position_bounds(ts: Seq<Task>, title: Seq<char>, i: int)
    requires
        0 <= i,
    ensures
        match title_position_from(ts, title, i) {
            Some(k) => i <= k < ts.len(),
            None => true,
        },
    decreases ts.len() - i,
{
    if i < ts.len() && ts[i].title@ != title {
        lemma_title_position_bounds(ts, title, i + 1);
    }
}

proof fn lemma_title_position_found(ts: Seq<Task>, title: Seq<char>, i: int, j: int)
    requires
        0 <= i <= j < ts.len(),
        ts[j].title@ == title,
    ensures
        title_position_from(ts, title, i) matches Some(k) && i <= k <= j && ts[k].title@ == title,
    decreases j - i,
{
    if ts[i].title@ != title {
        lemma_title_position_found(ts, title, i + 1, j);
    }
}

/// Reordering keeps the selection on the same task: where the selection
/// named a task, the task selected afterwards has its title (the first task
/// with that title, which is that task where titles are unique).
pub proof fn lemma_reselect_keeps_title(
    statuses: Seq<StatusConfig>,
    before: Seq<Task>,
    after: Seq<Task>,
    sel: Option<usize>,
)
    requires
        is_board_sort_of(statuses, after, before),
        (match sel {
            Some(k) => k as int,
            None => 0,
        }) < before.len(),
    ensures
        0 <= reselected_index(after, selected_title(before, sel)) < after.len(),
        after[reselected_index(after, selected_title(before, sel))].title@ == selected_title(before, sel),
{
    let s = match sel {
        Some(k) => k as int,
        None => 0,
    };
    let perm = choose|perm: Seq<int>| is_stable_arrangement(statuses, after, before, perm);
    assert(takes_value(perm, s));
    let j = choose|j: int| 0 <= j < perm.len() && perm[j] == s;
    assert(after[j] == before[s]);
    lemma_title_position_found(after, selected_title(before, sel), 0, j);
}

/// The index of the selected project, where it names one.
pub open spec fn selected_project(app: App) -> Option<int> {
    match app.selected_project_index {
        Some(p) => if p < app.projects@.len() {
            Some(p as int)
        } else {
            None
        },
        None => None,
    }
}

/// `new` is `old` with only the task list of project `p` and the task
/// selection changed.
pub open spec fn only_tasks_changed(old: App, new: App, p: int) -> bool {
    &&& new.projects@.len() == old.projects@.len()
    &&& forall|q: int| 0 <= q < old.projects@.len() && q != p ==> #[trigger] new.projects@[q] == old.projects@[q]
    &&& new.projects@[p].title == old.projects@[p].title
    &&& new == (App { projects: new.projects, selected_task_index: new.selected_task_index, ..old })
}

/// The selected task of the selected project, where both selections name
/// one.
pub open spec fn current_task(app: App) -> Option<(int, int)> {
    match (selected_project(app), app.selected_task_index) {
        (Some(p), Some(t)) => if t < app.projects@[p].tasks@.len() {
            Some((p, t as int))
        } else {
            None
        },
        _ => None,
    }
}

/// The project index of the current task.
pub open spec fn current_p(app: App) -> int {
    match current_task(app) {
        Some((p, _)) => p,
        None => 0,
    }
}

/// The task index of the current task.
pub open spec fn current_t(app: App) -> int {
    match current_task(app) {
        Some((_, t)) => t,
        None => 0,
    }
}

/// `new` holds the projects of `old` with task `t` of project `p` replaced
/// by `task`.
pub open spec fn only_task_replaced(old: Seq<Project>, new: Seq<Project>, p: int, t: int, task: Task) -> bool {
    &&& new.len() == old.len()
    &&& forall|q: int| 0 <= q < old.len() && q != p ==> #[trigger] new[q] == old[q]
    &&& new[p].title == old[p].title
    &&& new[p].tasks@.len() == old[p].tasks@.len()
    &&& forall|k: int| 0 <= k < old[p].tasks@.len() && k != t ==> #[trigger] new[p].tasks@[k] == old[p].tasks@[k]
    &&& new[p].tasks@[t] == task
}

impl Task {
    /// Puts the tasks in board order: by the position of their status among
    /// the configured statuses (unknown statuses last), then by priority
    /// `1`, `2`, `3`, then none; tasks of the same rank keep their order.
    pub fn sort_tasks(tasks: &mut Vec<Task>, statuses: &Vec<StatusConfig>)
        ensures
            is_board_sort_of(statuses@, final(tasks)@, old(tasks)@),
    {
        let n = tasks.len();
        let ghost orig = tasks@;
        let ghost st = statuses@;
        let mut keys: Vec<(usize, u16)> = Vec::new();
        let mut j: usize = 0;
        while j < n
            invariant
                j <= n == tasks.len(),
                tasks@ == orig,
                st == statuses@,
                keys.len() == j,
                forall|k: int|
                    0 <= k < j ==> (#[trigger] keys@[k]).0 as int == rank_key(st, tasks@[k]).0
                        && keys@[k].1 as int == rank_key(st, tasks@[k]).1,
            decreases n - j,
        {
            let k = key_of(statuses, &tasks[j]);
            keys.push(k);
            j = j + 1;
        }
        let ghost mut perm: Seq<int> = Seq::new(n as nat, |k: int| k);
        assert forall|jj: int| 0 <= jj < n implies #[trigger] takes_value(perm, jj) by {
            assert(perm[jj] == jj);
        }
        let mut i: usize = 0;
        while i < n
            invariant
                i <= n == tasks.len() == keys.len(),
                st == statuses@,
                orig.len() == n,
                forall|k: int|
                    0 <= k < n ==> (#[trigger] keys@[k]).0 as int == rank_key(st, tasks@[k]).0
                        && keys@[k].1 as int == rank_key(st, tasks@[k]).1,
                perm.len() == n,
                forall|k: int| 0 <= k < n ==> 0 <= #[trigger] perm[k] < n,
                forall|k: int| 0 <= k < i ==> #[trigger] perm[k] < i,
                forall|k: int| i <= k < n ==> #[trigger] perm[k] == k,
                forall|a: int, b: int| 0 <= a < b < n ==> #[trigger] perm[a] != #[trigger] perm[b],
                forall|j: int| 0 <= j < n ==> #[trigger] takes_value(perm, j),
                forall|k: int| 0 <= k < n ==> #[trigger] tasks@[k] == orig[perm[k]],
                forall|a: int, b: int|
                    0 <= a < b < i ==> ranks_before_or_with(st, #[trigger] tasks@[a], #[trigger] tasks@[b]),
                forall|a: int, b: int|
                    0 <= a < b < i && same_rank(st, #[trigger] tasks@[a], #[trigger] tasks@[b])
                        ==> perm[a] < perm[b],
            decreases n - i,
        {
            let kx = keys[i];
            let mut p: usize = 0;
            while p < i && !key_gt(keys[p], kx)
                invariant
                    p <= i < n == keys.len(),
                    kx == keys@[i as int],
                    forall|k: int|
                        0 <= k < p ==> key_le(
                            ((#[trigger] keys@[k]).0 as int, keys@[k].1 as int),
                            (kx.0 as int, kx.1 as int),
                        ),
                decreases i - p,
            {
                p = p + 1;
            }
            let ghost old_tasks = tasks@;
            let ghost old_keys = keys@;
            let ghost old_perm = perm;
            let x = tasks.remove(i);
            tasks.insert(p, x);
            let kk = keys.remove(i);
            keys.insert(p, kk);
            proof {
                lemma_move(old_tasks, i as int, p as int);
                lemma_move(old_keys, i as int, p as int);
                lemma_move(old_perm, i as int, p as int);
                perm = old_perm.remove(i as int).insert(p as int, old_perm[i as int]);
                assert(tasks@ =~= old_tasks.remove(i as int).insert(p as int, old_tasks[i as int]));
                assert(keys@ =~= old_keys.remove(i as int).insert(p as int, old_keys[i as int]));
                // Everything kept before the gap is not after x; everything after is.
                assert forall|k: int| p < k <= i implies !key_le(
                    ((#[trigger] old_keys[k - 1]).0 as int, old_keys[k - 1].1 as int),
                    (kx.0 as int, kx.1 as int),
                ) by {
                    if p < i {
                        assert(ranks_before_or_with(st, old_tasks[p as int], old_tasks[k - 1])
                            || p as int == k - 1);
                    }
                }
                assert forall|a: int, b: int| 0 <= a < b < i + 1 implies ranks_before_or_with(
                    st,
                    #[trigger] tasks@[a],
                    #[trigger] tasks@[b],
                ) by {
                    let oa = if a < p { a } else if a == p { i as int } else { a - 1 };
                    let ob = if b < p { b } else if b == p { i as int } else { b - 1 };
                    assert(tasks@[a] == old_tasks[oa]);
                    assert(tasks@[b] == old_tasks[ob]);
                    if a != p && b != p {
                        assert(ranks_before_or_with(st, old_tasks[oa], old_tasks[ob]));
                    } else if b == p {
                        assert(key_le(((old_keys[oa]).0 as int, old_keys[oa].1 as int), (kx.0 as int, kx.1 as int)));
                    } else {
                        assert(!key_le(((old_keys[ob]).0 as int, old_keys[ob].1 as int), (kx.0 as int, kx.1 as int)));
                    }
                }
                assert forall|a: int, b: int|
                    0 <= a < b < i + 1 && same_rank(st, #[trigger] tasks@[a], #[trigger] tasks@[b])
                        implies perm[a] < perm[b] by {
                    let oa = if a < p { a } else if a == p { i as int } else { a - 1 };
                    let ob = if b < p { b } else if b == p { i as int } else { b - 1 };
                    assert(tasks@[a] == old_tasks[oa]);
                    assert(tasks@[b] == old_tasks[ob]);
                    assert(perm[a] == old_perm[oa]);
                    assert(perm[b] == old_perm[ob]);
                    if a == p {
                        assert(!key_le(((old_keys[ob]).0 as int, old_keys[ob].1 as int), (kx.0 as int, kx.1 as int)));
                    }
                }
                assert forall|jj: int| 0 <= jj < n implies #[trigger] takes_value(perm, jj) by {
                    assert(takes_value(old_perm, jj));
                    let k = choose|k: int| 0 <= k < old_perm.len() && old_perm[k] == jj;
                    let k2 = if k < p { k } else if k == i { p as int } else if k < i { k + 1 } else { k };
                    assert(perm[k2] == old_perm[k]);
                }
                assert forall|x1: int, x2: int| 0 <= x1 < x2 < n implies #[trigger] perm[x1] != #[trigger] perm[x2] by {
                    let o1 = if x1 < p { x1 } else if x1 == p { i as int } else if x1 <= i { x1 - 1 } else { x1 };
                    let o2 = if x2 < p { x2 } else if x2 == p { i as int } else if x2 <= i { x2 - 1 } else { x2 };
                    assert(perm[x1] == old_perm[o1]);
                    assert(perm[x2] == old_perm[o2]);
                    if o1 < o2 {
                        assert(old_perm[o1] != old_perm[o2]);
                    } else {
                        assert(old_perm[o2] != old_perm[o1]);
                    }
                }
            }
            i = i + 1;
        }
        proof {
            assert(is_stable_arrangement(st, tasks@, orig, perm));
        }
    }

    /// The row that shows a task.
    pub fn row_of(statuses: &Vec<StatusConfig>, t: &Task) -> (r: TaskRow)
        ensures
            is_row_of(statuses@, *t, r),
    {
        let pos = status_position(statuses, t.status.as_str());
        let (color, crossed_out) = match pos {
            Some(i) => (statuses[i].to_color(), statuses[i].terminal),
            None => (StatusColor::Gray, false),
        };
        let mut status = String::new();
        push_char(&mut status, '[');
        push_all(&mut status, t.status.as_str());
        push_char(&mut status, ']');
        push_char(&mut status, ' ');
        let priority = if t.priority != 0 {
            let ind = Util::get_priority_indicator(t.priority);
            let mut p = String::new();
            push_char(&mut p, '[');
            push_all(&mut p, ind.as_str());
            push_char(&mut p, ']');
            push_char(&mut p, ' ');
            assert(p@ =~= priority_column(t.priority));
            Some(p)
        } else {
            None
        };
        assert(status@ =~= seq!['['] + t.status@ + seq![']', ' ']);
        TaskRow { priority, status, title: t.title.clone(), color, crossed_out }
    }

    /// Reorders a project's tasks into board order and gives the rows that
    /// show them, with the index to select: that of the task whose title was
    /// selected before.
    pub fn arrange(tasks: &mut Vec<Task>, statuses: &Vec<StatusConfig>, selected: Option<usize>) -> (r: (
        Vec<TaskRow>,
        usize,
    ))
        ensures
            is_board_sort_of(statuses@, final(tasks)@, old(tasks)@),
            are_rows_of(statuses@, final(tasks)@, r.0@),
            r.1 as int == reselected_index(final(tasks)@, selected_title(old(tasks)@, selected)),
    {
        let k = match selected {
            Some(k) => k,
            None => 0,
        };
        let last_title = if k < tasks.len() {
            tasks[k].title.clone()
        } else {
            String::new()
        };
        Task::sort_tasks(tasks, statuses);
        let mut new_index: usize = 0;
        let mut found = false;
        let mut rows: Vec<TaskRow> = Vec::new();
        let mut i: usize = 0;
        proof {
            lemma_title_position_bounds(tasks@, last_title@, 0);
        }
        while i < tasks.len()
            invariant
                i <= tasks.len(),
                rows.len() == i,
                forall|q: int| 0 <= q < i ==> is_row_of(statuses@, #[trigger] tasks@[q], rows@[q]),
                found ==> title_position_from(tasks@, last_title@, 0) == Some(new_index as int),
                !found ==> title_position_from(tasks@, last_title@, 0) == title_position_from(
                    tasks@,
                    last_title@,
                    i as int,
                ),
                !found ==> new_index == 0,
            decreases tasks.len() - i,
        {
            if !found && same_text(&tasks[i].title, &last_title) {
                found = true;
                new_index = i;
            }
            let row = Task::row_of(statuses, &tasks[i]);
            rows.push(row);
            i = i + 1;
        }
        (rows, new_index)
    }

    /// Reorders the tasks of the selected project into board order, selects
    /// the task that was selected before (by title), and gives the rows that
    /// show the tasks.
    pub fn load_items(app: &mut App) -> (rows: Vec<TaskRow>)
        requires
            selected_project(*old(app)) is Some,
        ensures
            ({
                let p = selected_project(*old(app))->0;
                let before = old(app).projects@[p].tasks@;
                let after = final(app).projects@[p].tasks@;
                &&& only_tasks_changed(*old(app), *final(app), p)
                &&& is_board_sort_of(old(app).config.statuses@, after, before)
                &&& are_rows_of(old(app).config.statuses@, after, rows@)
                &&& final(app).selected_task_index == Some(
                    reselected_index(after, selected_title(before, old(app).selected_task_index)) as usize,
                )
            }),
    {
        let p = match app.selected_project_index {
            Some(p) => p,
            None => 0,
        };
        let mut projects: Vec<Project> = Vec::new();
        std::mem::swap(&mut projects, &mut app.projects);
        let mut project = projects.remove(p);
        let (rows, new_index) = Task::arrange(&mut project.tasks, &app.config.statuses, app.selected_task_index);
        projects.insert(p, project);
        app.projects = projects;
        app.selected_task_index = Some(new_index);
        proof {
            assert(only_tasks_changed(*old(app), *final(app), p as int));
        }
        rows
    }

    /// The file for a new task titled `value`: its name and its content, the
    /// task starting in the configuration's origin status without priority.
    /// An empty title makes no task.
    pub fn create(app: &App, value: &str) -> (r: Option<(String, String)>)
        ensures
            value@.len() == 0 <==> r is None,
            r matches Some((name, content)) ==> name@ == title_file_name(value@) && content@
                == new_task_content(value@, origin_label_from(app.config.statuses@, 0)),
    {
        if value.is_empty() {
            return None;
        }
        let status = Config::get_origin_status(&app.config);
        let name = Storage::title_file_name(value);
        let content = Storage::new_task_content(value, status.as_str());
        Some((name, content))
    }

    /// The selected task of the selected project.
    pub fn get_current(app: &App) -> (r: &Task)
        requires
            current_task(*app) is Some,
        ensures
            *r == app.projects@[current_p(*app)].tasks@[current_t(*app)],
    {
        let p = match app.selected_project_index {
            Some(p) => p,
            None => 0,
        };
        let t = match app.selected_task_index {
            Some(t) => t,
            None => 0,
        };
        &app.projects[p].tasks[t]
    }

    /// Replaces the selected task by `task`.
    fn replace_current(app: &mut App, task: Task)
        requires
            current_task(*old(app)) is Some,
        ensures
            only_task_replaced(
                old(app).projects@,
                final(app).projects@,
                current_p(*old(app)),
                current_t(*old(app)),
                task,
            ),
            *final(app) == (App { projects: final(app).projects, ..*old(app) }),
    {
        let p = match app.selected_project_index {
            Some(p) => p,
            None => 0,
        };
        let t = match app.selected_task_index {
            Some(t) => t,
            None => 0,
        };
        let mut projects: Vec<Project> = Vec::new();
        std::mem::swap(&mut projects, &mut app.projects);
        let mut project = projects.remove(p);
        let _ = project.tasks.remove(t);
        project.tasks.insert(t, task);
        projects.insert(p, project);
        app.projects = projects;
    }

    /// Gives the selected task another status.
    pub fn change_status(app: &mut App, value: &str)
        requires
            current_task(*old(app)) is Some,
        ensures
            ({
                let p = current_p(*old(app));
                let t = current_t(*old(app));
                let before = old(app).projects@[p].tasks@[t];
                let after = final(app).projects@[p].tasks@[t];
                &&& only_task_replaced(old(app).projects@, final(app).projects@, p, t, after)
                &&& after.status@ == value@
                &&& after.title == before.title
                &&& after.priority == before.priority
                &&& after.markdown == before.markdown
                &&& *final(app) == (App { projects: final(app).projects, ..*old(app) })
            }),
    {
        let cur = Task::get_current(app);
        let task = Task {
            title: cur.title.clone(),
            status: String::from_str(value),
            priority: cur.priority,
            markdown: match &cur.markdown {
                Some(m) => Some(m.clone()),
                None => None,
            },
        };
        Task::replace_current(app, task);
    }

    /// Gives the selected task another priority.
    pub fn change_priority(app: &mut App, value: u8)
        requires
            current_task(*old(app)) is Some,
        ensures
            ({
                let p = current_p(*old(app));
                let t = current_t(*old(app));
                let before = old(app).projects@[p].tasks@[t];
                let after = final(app).projects@[p].tasks@[t];
                &&& only_task_replaced(old(app).projects@, final(app).projects@, p, t, after)
                &&& after == (Task { priority: value, ..before })
                &&& *final(app) == (App { projects: final(app).projects, ..*old(app) })
            }),
    {
        let cur = Task::get_current(app);
        let task = Task {
            title: cur.title.clone(),
            status: cur.status.clone(),
            priority: value,
            markdown: match &cur.markdown {
                Some(m) => Some(m.clone()),
                None => None,
            },
        };
        Task::replace_current(app, task);
    }

    /// The entries of the status picker: each configured status's label
    /// and color, in order.
    pub fn load_statues_items(config: &ConfigToml) -> (r: Vec<(String, StatusColor)>)
        ensures
            r@.len() == config.statuses@.len(),
            forall|k: int|
                0 <= k < r@.len() ==> (#[trigger] r@[k]).0@ == config.statuses@[k].label@ && r@[k].1
                    == color_of_name(lowercase_of(config.statuses@[k].color@)),
    {
        let mut r: Vec<(String, StatusColor)> = Vec::new();
        let mut i: usize = 0;
        while i < config.statuses.len()
            invariant
                i <= config.statuses.len(),
                r@.len() == i,
                forall|k: int|
                    0 <= k < i ==> (#[trigger] r@[k]).0@ == config.statuses@[k].label@ && r@[k].1
                        == color_of_name(lowercase_of(config.statuses@[k].color@)),
            decreases config.statuses.len() - i,
        {
            let s = &config.statuses[i];
            r.push((s.label.clone(), s.to_color()));
            i = i + 1;
        }
        r
    }

    /// The entries of the priority picker: the marks of each priority in
    /// the order they are offered.
    pub fn load_priority_items() -> (r: Vec<String>)
        ensures
            r@.len() == 4,
            forall|k: int|
                0 <= k < 4 ==> (#[trigger] r@[k])@ == priority_indicator(
                    level_in(TASK_PRIORITIES@, TASK_PRIORITIES@[k]),
                ),
    {
        let mut r: Vec<String> = Vec::new();
        let mut i: usize = 0;
        while i < 4
            invariant
                i <= 4,
                r@.len() == i,
                forall|k: int|
                    0 <= k < i ==> (#[trigger] r@[k])@ == priority_indicator(
                        level_in(TASK_PRIORITIES@, TASK_PRIORITIES@[k]),
                    ),
            decreases 4 - i,
        {
            r.push(Util::get_priority_indicator(TASK_PRIORITIES[i]));
            i = i + 1;
        }
        r
    }
}

} // verus!
