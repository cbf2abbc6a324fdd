//! What the screens show: the kanban board's columns and cards, the
//! dialogs' texts and sizes.
use vstd::prelude::*;
use vstd::view::View as _;

use crate::app::{App, TaskViewMode, ViewMode};
use crate::config::{StatusColor, StatusConfig};
use crate::task::{
    is_board_sort_of, priority_column, status_color, status_position, Task, TaskRow,
};
use crate::project::Project;
use crate::task::{current_p, current_t, current_task, lemma_board_sort_is_unique, selected_project};
use crate::text::{is_ascii_text, chars_of, decimal_digits, push_all, push_char, push_decimal, same_str, string_of_range};
use crate::ui::{max_nat, text_len};
use vstd::utf8::{decode_utf8, encode_scalar, encode_utf8, is_char_boundary};
use crate::util::Util;

verus! {

pub struct View {}

/// A rectangle of the screen, in cells.
#[derive(Clone, Copy, Debug, PartialEq, Eq, Structural)]
pub struct Area {
    pub x: u16,
    pub y: u16,
    pub width: u16,
    pub height: u16,
}

/// One task drawn as a card in a kanban column.
pub struct Card {
    /// The task's index in board order (over all columns).
    pub task: usize,
    pub area: Area,
    /// Whether the card is the selected one.
    pub selected: bool,
    /// The priority marks in brackets and a space, for a task with a
    /// priority.
    pub priority: Option<String>,
    pub title: String,
}

/// One status of the kanban board: its column and the cards in it.
pub struct KanbanColumn {
    /// The status label with a space on each side.
    pub title: String,
    pub color: StatusColor,
    /// Whether the status is terminal (cards are struck through).
    pub crossed_out: bool,
    pub cards: Vec<Card>,
    /// What is left of the column below the last card, to be cleared.
    pub fill: Option<Area>,
}

/// The last row of an area (saturating at the screen's edge).
pub open spec fn bottom(a: Area) -> int {
    if a.y + a.height > u16::MAX {
        u16::MAX as int
    } else {
        a.y + a.height
    }
}

/// The tasks of `ts` that have status `label`, in order.
pub open spec fn tasks_in(ts: Seq<Task>, label: Seq<char>) -> Seq<Task>
    decreases ts.len(),
{
    if ts.len() == 0 {
        seq![]
    } else if ts.last().status@ == label {
        tasks_in(ts.drop_last(), label).push(ts.last())
    } else {
        tasks_in(ts.drop_last(), label)
    }
}

/// How many tasks come before column `c`: those of the earlier columns.
pub open spec fn tasks_before_column(ts: Seq<Task>, statuses: Seq<StatusConfig>, c: int) -> nat
    decreases c,
{
    if c <= 0 {
        0
    } else {
        tasks_before_column(ts, statuses, c - 1) + tasks_in(ts, statuses[c - 1].label@).len()
    }
}

/// How many cards of height three, one row apart, fit in an area from its
/// top.
pub open spec fn cards_fitting(a: Area) -> nat {
    if a.y + 3 > bottom(a) {
        0
    } else {
        ((bottom(a) - a.y - 3) / 4 + 1) as nat
    }
}

/// How many of `count` cards are drawn in an area.
pub open spec fn cards_drawn(a: Area, count: nat) -> nat {
    if count < cards_fitting(a) {
        count
    } else {
        cards_fitting(a)
    }
}

/// Whether any status with this label is terminal.
pub open spec fn any_terminal(statuses: Seq<StatusConfig>, label: Seq<char>) -> bool {
    exists|i: int| 0 <= i < statuses.len() && statuses[i].terminal && #[trigger] statuses[i].label@ == label
}

/// `card` is card `k` of a column with area `a` whose tasks are `col`, the
/// first of which has board index `first`.
pub open spec fn is_card(card: Card, col: Seq<Task>, k: int, a: Area, first: nat, selected: Option<usize>) -> bool {
    let t = col[k];
    &&& card.task == first + k
    &&& card.area == (Area { x: a.x, y: (a.y + 4 * k) as u16, width: a.width, height: 3 })
    &&& card.selected == (selected == Some((first + k) as usize))
    &&& card.title@ == t.title@
    &&& match card.priority {
        Some(p) => t.priority != 0 && p@ == priority_column(t.priority),
        None => t.priority == 0,
    }
}

/// `column` shows the status `status` of a board whose tasks are `ts` in
/// board order, in area `a`, as column `c`.
pub open spec fn is_column(
    column: KanbanColumn,
    ts: Seq<Task>,
    statuses: Seq<StatusConfig>,
    c: int,
    a: Area,
    selected: Option<usize>,
) -> bool {
    let label = statuses[c].label@;
    let col = tasks_in(ts, label);
    let first = tasks_before_column(ts, statuses, c);
    let m = cards_drawn(a, col.len());
    let end = a.y + 4 * m;
    &&& column.title@ == seq![' '] + label + seq![' ']
    &&& column.color == status_color(statuses, label)
    &&& column.crossed_out == any_terminal(statuses, label)
    &&& column.cards@.len() == m
    &&& forall|k: int| 0 <= k < m ==> is_card(#[trigger] column.cards@[k], col, k, a, first, selected)
    &&& column.fill == if end < bottom(a) {
        Some(Area { x: a.x, y: end as u16, width: a.width, height: (bottom(a) - end) as u16 })
    } else {
        None
    }
}

/// The board of the selected project drawn in the column areas `areas`:
/// one column per status (as many as there are areas), the tasks in board
/// order.
pub open spec fn is_board(
    cols: Seq<KanbanColumn>,
    ts: Seq<Task>,
    statuses: Seq<StatusConfig>,
    areas: Seq<Area>,
    selected: Option<usize>,
) -> bool {
    &&& cols.len() == if statuses.len() < areas.len() { statuses.len() } else { areas.len() }
    &&& forall|c: int| 0 <= c < cols.len() ==> is_column(#[trigger] cols[c], ts, statuses, c, areas[c], selected)
}

/// What a card shows, as plain values: its task, area, mark, priority text
/// and title.
pub open spec fn card_view(card: Card) -> (usize, Area, bool, Option<Seq<char>>, Seq<char>) {
    (
        card.task,
        card.area,
        card.selected,
        match card.priority {
            Some(p) => Some(p@),
            None => None,
        },
        card.title@,
    )
}

/// What a column shows, as plain values: its title, color, strike-through,
/// cards and the space cleared below them.
pub open spec fn column_view(col: KanbanColumn) -> (
    Seq<char>,
    StatusColor,
    bool,
    Seq<(usize, Area, bool, Option<Seq<char>>, Seq<char>)>,
    Option<Area>,
) {
    (col.title@, col.color, col.crossed_out, col.cards@.map_values(|c: Card| card_view(c)), col.fill)
}

/// A board drawn with no selection is fixed by the tasks, the statuses and
/// the areas alone: two such boards of the same tasks show the same, and no
/// card is marked. So the board behind a dialog does not depend on which
/// task is selected.
pub proof fn lemma_board_without_selection_is_fixed(
    cols1: Seq<KanbanColumn>,
    cols2: Seq<KanbanColumn>,
    ts1: Seq<Task>,
    ts2: Seq<Task>,
    statuses: Seq<StatusConfig>,
    areas: Seq<Area>,
    inp: Seq<Task>,
)
    requires
        is_board_sort_of(statuses, ts1, inp),
        is_board_sort_of(statuses, ts2, inp),
        is_board(cols1, ts1, statuses, areas, None),
        is_board(cols2, ts2, statuses, areas, None),
    ensures
        cols1.map_values(|c: KanbanColumn| column_view(c)) == cols2.map_values(
            |c: KanbanColumn| column_view(c),
        ),
        forall|c: int, k: int|
            0 <= c < cols1.len() && 0 <= k < cols1[c].cards@.len() ==> !(
            #[trigger] cols1[c].cards@[k]).selected,
{
    lemma_board_sort_is_unique(statuses, ts1, ts2, inp);
    assert forall|c: int| 0 <= c < cols1.len() implies #[trigger] column_view(cols1[c])
        == column_view(cols2[c]) by {
        assert(is_column(cols1[c], ts1, statuses, c, areas[c], None));
        assert(is_column(cols2[c], ts1, statuses, c, areas[c], None));
        let v1 = cols1[c].cards@.map_values(|x: Card| card_view(x));
        let v2 = cols2[c].cards@.map_values(|x: Card| card_view(x));
        assert forall|k: int| 0 <= k < v1.len() implies v1[k] == v2[k] by {
            let a = cols1[c].cards@[k];
            let b = cols2[c].cards@[k];
            assert(is_card(a, tasks_in(ts1, statuses[c].label@), k, areas[c], tasks_before_column(ts1, statuses, c), None));
            assert(is_card(b, tasks_in(ts1, statuses[c].label@), k, areas[c], tasks_before_column(ts1, statuses, c), None));
            assert(card_view(a) == card_view(b));
        }
        assert(v1 =~= v2);
    }
    assert(cols1.map_values(|c: KanbanColumn| column_view(c)) =~= cols2.map_values(
        |c: KanbanColumn| column_view(c),
    ));
    assert forall|c: int, k: int|
        0 <= c < cols1.len() && 0 <= k < cols1[c].cards@.len() implies !(
        #[trigger] cols1[c].cards@[k]).selected by {
        assert(is_column(cols1[c], ts1, statuses, c, areas[c], None));
    }
}

proof fn lemma_tasks_in_members(ts: Seq<Task>, label: Seq<char>, k: int)
    requires
        0 <= k < tasks_in(ts, label).len(),
    ensures
        tasks_in(ts, label)[k].status@ == label,
        exists|j: int| 0 <= j < ts.len() && #[trigger] ts[j] == tasks_in(ts, label)[k],
    decreases ts.len(),
{
    lemma_tasks_in_len(ts.drop_last(), label);
    let front = tasks_in(ts.drop_last(), label);
    if k < front.len() {
        lemma_tasks_in_members(ts.drop_last(), label, k);
        let j = choose|j: int| 0 <= j < ts.drop_last().len() && #[trigger] ts.drop_last()[j] == front[k];
        assert(ts[j] == ts.drop_last()[j]);
    } else {
        assert(ts[ts.len() - 1] == ts.last());
    }
}

/// Each card of a column shows a task of the board that has the column's
/// status: its title, and its priority marks exactly when it has a
/// priority.
pub proof fn lemma_cards_show_their_column_tasks(
    cols: Seq<KanbanColumn>,
    ts: Seq<Task>,
    statuses: Seq<StatusConfig>,
    areas: Seq<Area>,
    sel: Option<usize>,
    c: int,
    k: int,
)
    requires
        is_board(cols, ts, statuses, areas, sel),
        0 <= c < cols.len(),
        0 <= k < cols[c].cards@.len(),
    ensures
        exists|j: int|
            0 <= j < ts.len() && (#[trigger] ts[j]).status@ == statuses[c].label@ && ts[j].title@
                == cols[c].cards@[k].title@ && (cols[c].cards@[k].priority is Some <==> ts[j].priority
                != 0),
{
    assert(is_column(cols[c], ts, statuses, c, areas[c], sel));
    let col = tasks_in(ts, statuses[c].label@);
    assert(is_card(cols[c].cards@[k], col, k, areas[c], tasks_before_column(ts, statuses, c), sel));
    lemma_tasks_in_len(ts, statuses[c].label@);
    assert(k < col.len());
    lemma_tasks_in_members(ts, statuses[c].label@, k);
    let j = choose|j: int| 0 <= j < ts.len() && #[trigger] ts[j] == col[k];
    assert(ts[j] == col[k]);
}

proof fn lemma_tasks_before_column_grows(ts: Seq<Task>, statuses: Seq<StatusConfig>, x: int, y: int)
    requires
        0 <= x <= y,
    ensures
        tasks_before_column(ts, statuses, x) <= tasks_before_column(ts, statuses, y),
    decreases y - x,
{
    if x < y {
        lemma_tasks_before_column_grows(ts, statuses, x, y - 1);
    }
}

/// On a board with a selection, each card stands for its own task: no two
/// cards of the whole board (in any columns) carry the same board index,
/// and a card is marked exactly when its index is the selected one, so at
/// most one card is marked.
pub proof fn lemma_one_card_marked(
    cols: Seq<KanbanColumn>,
    ts: Seq<Task>,
    statuses: Seq<StatusConfig>,
    areas: Seq<Area>,
    sel: usize,
)
    requires
        is_board(cols, ts, statuses, areas, Some(sel)),
    ensures
        forall|c: int, k: int|
            0 <= c < cols.len() && 0 <= k < cols[c].cards@.len() ==> ((#[trigger] cols[c].cards@[k]).selected
                <==> cols[c].cards@[k].task == sel),
        forall|c1: int, k1: int, c2: int, k2: int|
            0 <= c1 < cols.len() && 0 <= k1 < cols[c1].cards@.len() && 0 <= c2 < cols.len() && 0
                <= k2 < cols[c2].cards@.len() && (c1 != c2 || k1 != k2) ==> (
            #[trigger] cols[c1].cards@[k1]).task != (#[trigger] cols[c2].cards@[k2]).task,
        forall|c1: int, k1: int, c2: int, k2: int|
            0 <= c1 < cols.len() && 0 <= k1 < cols[c1].cards@.len() && 0 <= c2 < cols.len() && 0
                <= k2 < cols[c2].cards@.len() && (#[trigger] cols[c1].cards@[k1]).selected && (
            #[trigger] cols[c2].cards@[k2]).selected ==> c1 == c2 && k1 == k2,
{
    assert forall|c: int, k: int|
        0 <= c < cols.len() && 0 <= k < cols[c].cards@.len() implies ((
    #[trigger] cols[c].cards@[k]).selected <==> cols[c].cards@[k].task == sel) by {
        assert(is_column(cols[c], ts, statuses, c, areas[c], Some(sel)));
        let col = tasks_in(ts, statuses[c].label@);
        assert(is_card(cols[c].cards@[k], col, k, areas[c], tasks_before_column(ts, statuses, c), Some(sel)));
    }
    assert forall|c1: int, k1: int, c2: int, k2: int|
        0 <= c1 < cols.len() && 0 <= k1 < cols[c1].cards@.len() && 0 <= c2 < cols.len() && 0 <= k2
            < cols[c2].cards@.len() && (c1 != c2 || k1 != k2) implies (
    #[trigger] cols[c1].cards@[k1]).task != (#[trigger] cols[c2].cards@[k2]).task by {
        assert(is_column(cols[c1], ts, statuses, c1, areas[c1], Some(sel)));
        assert(is_column(cols[c2], ts, statuses, c2, areas[c2], Some(sel)));
        let f1 = tasks_before_column(ts, statuses, c1);
        let f2 = tasks_before_column(ts, statuses, c2);
        let col1 = tasks_in(ts, statuses[c1].label@);
        let col2 = tasks_in(ts, statuses[c2].label@);
        assert(is_card(cols[c1].cards@[k1], col1, k1, areas[c1], f1, Some(sel)));
        assert(is_card(cols[c2].cards@[k2], col2, k2, areas[c2], f2, Some(sel)));
        if c1 < c2 {
            assert(tasks_before_column(ts, statuses, c1 + 1) == f1 + col1.len());
            lemma_tasks_before_column_grows(ts, statuses, c1 + 1, c2);
        } else if c2 < c1 {
            assert(tasks_before_column(ts, statuses, c2 + 1) == f2 + col2.len());
            lemma_tasks_before_column_grows(ts, statuses, c2 + 1, c1);
        }
    }
}

proof fn lemma_tasks_in_take(ts: Seq<Task>, label: Seq<char>, i: int)
    requires
        0 <= i < ts.len(),
    ensures
        tasks_in(ts.take(i + 1), label) == if ts[i].status@ == label {
            tasks_in(ts.take(i), label).push(ts[i])
        } else {
            tasks_in(ts.take(i), label)
        },
        tasks_in(ts.take(i), label).len() <= i,
{
    assert(ts.take(i + 1).drop_last() =~= ts.take(i));
    lemma_tasks_in_len(ts.take(i), label);
}

proof fn lemma_tasks_in_len(ts: Seq<Task>, label: Seq<char>)
    ensures
        tasks_in(ts, label).len() <= ts.len(),
    decreases ts.len(),
{
    if ts.len() > 0 {
        lemma_tasks_in_len(ts.drop_last(), label);
    }
}

fn any_terminal_exec(statuses: &Vec<StatusConfig>, label: &str) -> (r: bool)
    ensures
        r == any_terminal(statuses@, label@),
{
    let mut i: usize = 0;
    while i < statuses.len()
        invariant
            i <= statuses.len(),
            forall|k: int| 0 <= k < i ==> !(statuses@[k].terminal && statuses@[k].label@ == label@),
        decreases statuses.len() - i,
    {
        if statuses[i].terminal && same_str(statuses[i].label.as_str(), label) {
            return true;
        }
        i = i + 1;
    }
    false
}

fn priority_text(p: u8) -> (r: Option<String>)
    ensures
        match r {
            Some(s) => p != 0 && s@ == priority_column(p),
            None => p == 0,
        },
{
    if p != 0 {
        let ind = Util::get_priority_indicator(p);
        let mut s = String::new();
        push_char(&mut s, '[');
        push_all(&mut s, ind.as_str());
        push_char(&mut s, ']');
        push_char(&mut s, ' ');
        assert(s@ =~= priority_column(p));
        Some(s)
    } else {
        None
    }
}

/// The column for status `c` of tasks `ts` (in board order), drawn in `a`.
fn build_column(
    ts: &Vec<Task>,
    statuses: &Vec<StatusConfig>,
    c: usize,
    a: Area,
    first: usize,
    selected: Option<usize>,
) -> (r: (KanbanColumn, usize))
    requires
        c < statuses.len(),
        first as int == tasks_before_column(ts@, statuses@, c as int),
        first + ts.len() <= usize::MAX,
    ensures
        is_column(r.0, ts@, statuses@, c as int, a, selected),
        r.1 as int == tasks_in(ts@, statuses@[c as int].label@).len(),
{
    let label = statuses[c].label.as_str();
    let mut title = String::new();
    push_char(&mut title, ' ');
    push_all(&mut title, label);
    push_char(&mut title, ' ');
    assert(title@ =~= seq![' '] + label@ + seq![' ']);
    let color = match status_position(statuses, label) {
        Some(i) => statuses[i].to_color(),
        None => StatusColor::Gray,
    };
    let crossed_out = any_terminal_exec(statuses, label);
    let bot: u32 = if a.y as u32 + a.height as u32 > 65535 {
        65535
    } else {
        a.y as u32 + a.height as u32
    };
    let ghost col = tasks_in(ts@, label@);
    let mut cards: Vec<Card> = Vec::new();
    let mut y: u32 = a.y as u32;
    let mut k: usize = 0;
    let mut i: usize = 0;
    while i < ts.len()
        invariant
            i <= ts.len(),
            bot as int == bottom(a),
            first as int == tasks_before_column(ts@, statuses@, c as int),
            first + ts.len() <= usize::MAX,
            k as int == tasks_in(ts@.take(i as int), label@).len(),
            k <= i,
            col == tasks_in(ts@, label@),
            cards@.len() == cards_drawn(a, k as nat),
            y as int == a.y + 4 * cards@.len(),
            forall|j: int| 0 <= j < cards@.len() ==> is_card(#[trigger] cards@[j], tasks_in(ts@.take(i as int), label@), j, a, first as nat, selected),
        decreases ts.len() - i,
    {
        proof {
            lemma_tasks_in_take(ts@, label@, i as int);
        }
        let t = &ts[i];
        if same_str(t.status.as_str(), label) {
            let ghost prefix = tasks_in(ts@.take(i as int), label@);
            let ghost next = tasks_in(ts@.take(i + 1), label@);
            assert(next == prefix.push(ts@[i as int]));
            if y + 3 <= bot {
                let g = first + k;
                let card = Card {
                    task: g,
                    area: Area { x: a.x, y: y as u16, width: a.width, height: 3 },
                    selected: match selected {
                        Some(s) => s == g,
                        None => false,
                    },
                    priority: priority_text(t.priority),
                    title: t.title.clone(),
                };
                proof {
                    assert(cards@.len() == k) by {
                        assert(cards_fitting(a) > k);
                    }
                    assert forall|j: int| 0 <= j < cards@.len() implies is_card(#[trigger] cards@[j], next, j, a, first as nat, selected) by {
                        assert(prefix[j] == next[j]);
                    }
                }
                cards.push(card);
                y = y + 4;
                proof {
                    assert(next[k as int] == ts@[i as int]);
                    assert(cards_drawn(a, (k + 1) as nat) == k + 1);
                }
            } else {
                proof {
                    assert(cards_fitting(a) <= cards@.len());
                    assert forall|j: int| 0 <= j < cards@.len() implies is_card(#[trigger] cards@[j], next, j, a, first as nat, selected) by {
                        assert(prefix[j] == next[j]);
                    }
                }
            }
            k = k + 1;
        }
        i = i + 1;
    }
    proof {
        assert(ts@.take(ts@.len() as int) =~= ts@);
    }
    let fill = if y < bot {
        Some(Area { x: a.x, y: y as u16, width: a.width, height: (bot - y) as u16 })
    } else {
        None
    };
    (KanbanColumn { title, color, crossed_out, cards, fill }, k)
}

/// The rows a column's cards reach stay within the screen's 16-bit rows:
/// after the last card drawn the next row (four below its top) exists, and
/// where cards are left out, the test of whether the next one fits does not
/// run past the last row.
pub open spec fn column_rows_fit(a: Area, count: nat) -> bool {
    let m = cards_drawn(a, count);
    &&& m > 0 ==> a.y + 4 * m <= u16::MAX
    &&& count > m ==> a.y + 4 * m + 3 <= u16::MAX
}

/// Every column of a board whose tasks are `ts` in board order keeps its
/// rows within the screen's 16-bit rows.
pub open spec fn board_rows_fit(ts: Seq<Task>, statuses: Seq<StatusConfig>, areas: Seq<Area>) -> bool {
    forall|c: int|
        0 <= c < statuses.len() && c < areas.len() ==> column_rows_fit(
            #[trigger] areas[c],
            tasks_in(ts, statuses[c].label@).len(),
        )
}

/// The project the board shows: the selected one, or the first.
pub open spec fn board_project(app: App) -> int {
    match app.selected_project_index {
        Some(p) => p as int,
        None => 0,
    }
}

/// The task whose card is marked: the selected one (the first where none is
/// selected) on an interactive board, none otherwise.
pub open spec fn board_selection(app: App, interactive: bool) -> Option<usize> {
    if interactive {
        Some(
            match app.selected_task_index {
                Some(t) => t,
                None => 0,
            },
        )
    } else {
        None
    }
}

/// How the main list is drawn.
#[derive(Clone, Copy, Debug, PartialEq, Eq, Structural)]
pub enum ItemsDisplay {
    /// The kanban board, the selected card marked.
    Cards,
    /// The kanban board behind a dialog, nothing marked.
    CardsBackground,
    /// The list, following its selection.
    List,
    /// The list behind a dialog, not following its selection.
    ListBackground,
}

/// The dialog drawn over the main list.
#[derive(Clone, Copy, Debug, PartialEq, Eq, Structural)]
pub enum Overlay {
    NoDialog,
    NewItem,
    RenameItem,
    DeleteItem,
    StatusPicker,
    PriorityPicker,
    CostPicker,
    TimePicker,
    GitCommit,
}

pub open spec fn is_project_view(m: ViewMode) -> bool {
    m == ViewMode::ViewProjects || m == ViewMode::AddProject || m == ViewMode::RenameProject || m
        == ViewMode::DeleteProject
}

pub open spec fn is_task_list_view(m: ViewMode) -> bool {
    m == ViewMode::ViewTasks || m == ViewMode::AddTask || m == ViewMode::RenameTask || m
        == ViewMode::DeleteTask
}

/// How the main list is drawn in a view.
pub open spec fn items_display(m: ViewMode, tm: TaskViewMode) -> ItemsDisplay {
    if is_task_list_view(m) {
        if tm == TaskViewMode::Kanban {
            ItemsDisplay::Cards
        } else {
            ItemsDisplay::List
        }
    } else if m == ViewMode::ChangeStatusTask || m == ViewMode::ChangePriorityTask {
        if tm == TaskViewMode::Kanban {
            ItemsDisplay::CardsBackground
        } else {
            ItemsDisplay::ListBackground
        }
    } else {
        ItemsDisplay::List
    }
}

/// The dialog of a view.
pub open spec fn overlay_of(m: ViewMode) -> Overlay {
    match m {
        ViewMode::AddTask | ViewMode::AddProject => Overlay::NewItem,
        ViewMode::RenameTask | ViewMode::RenameProject => Overlay::RenameItem,
        ViewMode::DeleteTask | ViewMode::DeleteProject => Overlay::DeleteItem,
        ViewMode::ChangeStatusTask => Overlay::StatusPicker,
        ViewMode::ChangePriorityTask => Overlay::PriorityPicker,
        ViewMode::ChangeCostTask => Overlay::CostPicker,
        ViewMode::ChangeTimeTask => Overlay::TimePicker,
        ViewMode::GitCommit => Overlay::GitCommit,
        _ => Overlay::NoDialog,
    }
}

/// The lines of the help dialog; the commit key is listed only inside a git
/// repository.
pub open spec fn help_text(is_git_repo: bool) -> Seq<Seq<char>> {
    seq![
        "Help"@,
        ""@,
        "Navigation:"@,
        "  <Up/Down> or <k/j>    - Move up/down"@,
        "  <Tab>                 - Next item"@,
        "  <Enter>               - Select/confirm"@,
        "  <Esc>                 - Cancel/back"@,
        ""@,
        "Projects:"@,
        "  <n>                   - New project"@,
        "  <r>                   - Rename project"@,
        "  <d>                   - Delete project"@,
    ] + (if is_git_repo {
        seq!["  <c>                   - Git commit"@]
    } else {
        seq![]
    }) + seq![
        ""@,
        "Tasks:"@,
        "  <n>                   - New task"@,
        "  <r>                   - Rename task"@,
        "  <d>                   - Delete task"@,
        "  <e>                   - Edit notes"@,
        "  <v>                   - Toggle view"@,
        "  <Enter>               - Change status"@,
        "  <p>                   - Change priority"@,
        ""@,
        "General:"@,
        "  <q>                   - Quit"@,
        "  <?>                   - Toggle this help"@,
    ]
}

/// The longest status label in bytes, or 10 where there is none.
pub open spec fn longest_label_from(statuses: Seq<StatusConfig>, i: int) -> nat
    decreases statuses.len() - i,
{
    if i < 0 || i >= statuses.len() {
        0
    } else {
        max_nat(text_len(statuses[i].label@), longest_label_from(statuses, i + 1))
    }
}

pub open spec fn longest_label(statuses: Seq<StatusConfig>) -> nat {
    if statuses.len() == 0 {
        10
    } else {
        longest_label_from(statuses, 0)
    }
}

/// The status picker's title: arrows where more statuses lie above or
/// below, and the position of the selected one.
pub open spec fn status_title(selected: nat, total: nat) -> Seq<char> {
    (if selected > 0 { "▲ "@ } else { "  "@ }) + decimal_digits(selected + 1) + "/"@
        + decimal_digits(total) + (if selected + 1 < total { " ▼"@ } else { "  "@ })
}

/// The first `n` bytes of `s`, as characters.
pub open spec fn first_bytes(s: Seq<char>, n: nat) -> Seq<char> {
    decode_utf8(encode_utf8(s).subrange(0, n as int))
}

/// How a changed file is listed in a commit dialog `width` cells wide:
/// names too long are cut and end in `...`.
pub open spec fn file_line(file: Seq<char>, width: nat) -> Seq<char> {
    let shown = if text_len(file) > width - 6 {
        let cut: nat = if width - 9 < text_len(file) { (width - 9) as nat } else { text_len(file) };
        first_bytes(file, cut) + "..."@
    } else {
        file
    };
    "  • "@ + shown
}

/// A file name can be listed in a dialog `width` cells wide.
pub open spec fn file_listable(file: Seq<char>, width: nat) -> bool {
    &&& width >= 6
    &&& text_len(file) > width - 6 ==> width >= 9 && is_char_boundary(
        encode_utf8(file),
        if width - 9 < text_len(file) { width - 9 } else { text_len(file) as int },
    )
}

proof fn lemma_ascii_utf8(s: Seq<char>)
    requires
        is_ascii_text(s),
    ensures
        encode_utf8(s).len() == s.len(),
        forall|k: int| 0 <= k < s.len() ==> #[trigger] encode_utf8(s)[k] < 0x80,
    decreases s.len(),
{
    if s.len() > 0 {
        let rest = s.drop_first();
        assert forall|k: int| 0 <= k < rest.len() implies (#[trigger] rest[k] as u32) < 128 by {
            assert(rest[k] == s[k + 1]);
        }
        lemma_ascii_utf8(rest);
        let n = s[0] as u32;
        assert(n < 128);
        assert((n & 0x7F) < 0x80) by (bit_vector);
        let e = encode_utf8(s);
        assert(e == encode_scalar(n) + encode_utf8(rest));
        assert forall|k: int| 0 <= k < s.len() implies #[trigger] encode_utf8(s)[k] < 0x80 by {
            if k > 0 {
                assert(e[k] == encode_utf8(rest)[k - 1]);
            }
        }
    }
}

/// A file whose name is ASCII can always be listed in a commit dialog nine
/// or more cells wide: where its name is cut, the cut falls between two
/// characters.
pub proof fn lemma_ascii_files_are_listable(file: Seq<char>, width: nat)
    requires
        is_ascii_text(file),
        width >= 9,
    ensures
        file_listable(file, width),
{
    lemma_ascii_utf8(file);
    let bytes = encode_utf8(file);
    vstd::utf8::encode_utf8_valid_utf8(file);
    let idx: int = if width - 9 < text_len(file) { width - 9 } else { text_len(file) as int };
    if idx == bytes.len() {
        vstd::utf8::is_char_boundary_start_end_of_seq(bytes);
    } else {
        assert(bytes[idx] < 0x80);
        vstd::utf8::is_char_boundary_iff_not_is_continuation_byte(bytes, idx);
    }
}

/// The first `n` characters of `s` (all of them where it is shorter).
pub open spec fn prefix_upto(s: Seq<char>, n: int) -> Seq<char> {
    if n < s.len() {
        s.take(n)
    } else {
        s
    }
}

pub open spec fn min_nat(a: nat, b: nat) -> nat {
    if a <= b {
        a
    } else {
        b
    }
}

/// The lines of the commit dialog.
pub open spec fn commit_text(files: Seq<Seq<char>>, height: nat, width: nat, input: Seq<char>, error: Seq<char>) -> Seq<Seq<char>> {
    let max_files: nat = if height >= 6 { (height - 6) as nat } else { 0 };
    let shown = min_nat(max_files, files.len());
    seq!["Git Commit"@, ""@] + Seq::new(shown, |k: int| file_line(files[k], width)) + (if files.len()
        > max_files {
        seq!["  ... and "@ + decimal_digits((files.len() - max_files) as nat) + " more"@]
    } else {
        seq![]
    }) + seq![""@, prefix_upto("> "@ + input, width - 4)] + (if error.len() > 0 {
        seq![""@, "Error: "@ + error]
    } else {
        seq![]
    })
}

/// The text naming what a delete dialog deletes.
pub open spec fn delete_subject(app: App) -> Seq<char> {
    match app.view_mode {
        ViewMode::DeleteTask => app.projects@[current_p(app)].tasks@[current_t(app)].title@,
        ViewMode::DeleteProject => app.projects@[selected_project(app)->0].title@,
        _ => Seq::empty(),
    }
}

fn lines_of(v: Vec<&str>) -> (r: Vec<String>)
    ensures
        r@.map_values(|s: String| s@) == v@.map_values(|s: &str| s@),
{
    let mut r: Vec<String> = Vec::new();
    let mut i: usize = 0;
    while i < v.len()
        invariant
            i <= v.len(),
            r@.map_values(|s: String| s@) == v@.take(i as int).map_values(|s: &str| s@),
        decreases v.len() - i,
    {
        let ghost before = r@.map_values(|s: String| s@);
        let line = String::from_str(v[i]);
        r.push(line);
        proof {
            assert(r@.map_values(|s: String| s@) =~= before.push(line@));
            assert(v@.take(i + 1) =~= v@.take(i as int).push(v@[i as int]));
            assert(v@.take(i + 1).map_values(|s: &str| s@) =~= v@.take(i as int).map_values(
                |s: &str| s@,
            ).push(v@[i as int]@));
        }
        i = i + 1;
    }
    proof {
        assert(v@.take(v.len() as int) =~= v@);
    }
    r
}

impl View {
    /// The kanban board of the selected project (the first where none is
    /// selected), in the column areas `areas`; `None` where that project
    /// does not exist. With `interactive`, the selected task's card is
    /// marked.
    pub fn kanban_columns(app: &App, areas: &Vec<Area>, interactive: bool) -> (r: Option<Vec<KanbanColumn>>)
        requires
            forall|ts: Seq<Task>|
                #[trigger] is_board_sort_of(
                    app.config.statuses@,
                    ts,
                    app.projects@[board_project(*app)].tasks@,
                ) ==> board_rows_fit(ts, app.config.statuses@, areas@),
            forall|p: int|
                0 <= p < app.projects@.len() ==> app.config.statuses@.len() * (
                #[trigger] app.projects@[p]).tasks@.len() <= usize::MAX,
        ensures
            if board_project(*app) >= app.projects@.len() {
                r is None
            } else {
                r matches Some(cols) && exists|ts: Seq<Task>|
                    #[trigger] is_board_sort_of(
                        app.config.statuses@,
                        ts,
                        app.projects@[board_project(*app)].tasks@,
                    ) && is_board(
                        cols@,
                        ts,
                        app.config.statuses@,
                        areas@,
                        board_selection(*app, interactive),
                    )
            },
    {
        let p = match app.selected_project_index {
            Some(p) => p,
            None => 0,
        };
        if p >= app.projects.len() {
            return None;
        }
        let selected = if interactive {
            Some(
                match app.selected_task_index {
                    Some(t) => t,
                    None => 0,
                },
            )
        } else {
            None
        };
        let src = &app.projects[p].tasks;
        let mut tasks: Vec<Task> = Vec::new();
        let mut j: usize = 0;
        while j < src.len()
            invariant
                j <= src.len(),
                tasks@ == src@.take(j as int),
            decreases src.len() - j,
        {
            let t = &src[j];
            let copy = Task {
                title: t.title.clone(),
                status: t.status.clone(),
                priority: t.priority,
                markdown: match &t.markdown {
                    Some(m) => Some(m.clone()),
                    None => None,
                },
            };
            tasks.push(copy);
            proof {
                assert(src@.take(j + 1) =~= src@.take(j as int).push(src@[j as int]));
            }
            j = j + 1;
        }
        proof {
            assert(src@.take(src@.len() as int) =~= src@);
        }
        let statuses = &app.config.statuses;
        Task::sort_tasks(&mut tasks, statuses);
        let ncols = if statuses.len() < areas.len() {
            statuses.len()
        } else {
            areas.len()
        };
        let ghost n = tasks@.len();
        let mut cols: Vec<KanbanColumn> = Vec::new();
        let mut first: usize = 0;
        let mut c: usize = 0;
        while c < ncols
            invariant
                c <= ncols <= statuses.len(),
                ncols <= areas.len(),
                cols@.len() == c,
                first as int == tasks_before_column(tasks@, statuses@, c as int),
                n == tasks@.len(),
                statuses@.len() * n <= usize::MAX,
                first <= c * n,
                forall|q: int| 0 <= q < c ==> is_column(#[trigger] cols@[q], tasks@, statuses@, q, areas@[q], selected),
            decreases ncols - c,
        {
            proof {
                lemma_tasks_in_len(tasks@, statuses@[c as int].label@);
                let s_len = statuses@.len();
                assert(first + n <= usize::MAX) by (nonlinear_arith)
                    requires
                        first <= c * n,
                        c < s_len,
                        s_len * n <= usize::MAX,
                ;
            }
            let (column, count) = build_column(&tasks, statuses, c, areas[c], first, selected);
            proof {
                assert(first + count <= (c + 1) * n) by (nonlinear_arith)
                    requires
                        first <= c * n,
                        count <= n,
                ;
            }
            first = first + count;
            cols.push(column);
            c = c + 1;
        }
        proof {
            assert(is_board(cols@, tasks@, statuses@, areas@, selected));
            assert(is_board_sort_of(statuses@, tasks@, app.projects@[p as int].tasks@));
        }
        Some(cols)
    }

    /// Whether the help dialog is drawn over everything else.
    pub fn shows_help(app: &App) -> (r: bool)
        ensures
            r == app.show_help,
    {
        app.show_help
    }

    /// Whether the commit dialog lists the changed files: only in a
    /// repository that has changes.
    pub fn commit_lists_files(app: &App) -> (r: bool)
        ensures
            r == (app.is_git_repo && app.git_has_changes),
    {
        app.is_git_repo && app.git_has_changes
    }

    /// How the main list is drawn in the current view.
    pub fn items_display(app: &App) -> (r: ItemsDisplay)
        ensures
            r == items_display(app.view_mode, app.task_view_mode),
    {
        let kanban = match app.task_view_mode {
            TaskViewMode::Kanban => true,
            TaskViewMode::List => false,
        };
        match app.view_mode {
            ViewMode::ViewTasks | ViewMode::AddTask | ViewMode::RenameTask | ViewMode::DeleteTask => {
                if kanban {
                    ItemsDisplay::Cards
                } else {
                    ItemsDisplay::List
                }
            },
            ViewMode::ChangeStatusTask | ViewMode::ChangePriorityTask => {
                if kanban {
                    ItemsDisplay::CardsBackground
                } else {
                    ItemsDisplay::ListBackground
                }
            },
            _ => ItemsDisplay::List,
        }
    }

    /// The title of the main list: none for the projects, the selected
    /// project's title (spaced) for its tasks.
    pub fn list_title(app: &App) -> (r: Option<String>)
        requires
            !is_project_view(app.view_mode) ==> selected_project(*app) is Some,
        ensures
            if is_project_view(app.view_mode) {
                r is None
            } else {
                r matches Some(t) && t@ == seq![' '] + app.projects@[selected_project(*app)->0].title@
                    + seq![' ']
            },
    {
        match app.view_mode {
            ViewMode::ViewProjects | ViewMode::AddProject | ViewMode::RenameProject
            | ViewMode::DeleteProject => None,
            _ => Some(Util::get_spaced_title(Project::get_current(app).title.as_str())),
        }
    }

    /// The dialog drawn over the main list in the current view.
    pub fn overlay(app: &App) -> (r: Overlay)
        ensures
            r == overlay_of(app.view_mode),
    {
        match app.view_mode {
            ViewMode::AddTask | ViewMode::AddProject => Overlay::NewItem,
            ViewMode::RenameTask | ViewMode::RenameProject => Overlay::RenameItem,
            ViewMode::DeleteTask | ViewMode::DeleteProject => Overlay::DeleteItem,
            ViewMode::ChangeStatusTask => Overlay::StatusPicker,
            ViewMode::ChangePriorityTask => Overlay::PriorityPicker,
            ViewMode::ChangeCostTask => Overlay::CostPicker,
            ViewMode::ChangeTimeTask => Overlay::TimePicker,
            ViewMode::GitCommit => Overlay::GitCommit,
            _ => Overlay::NoDialog,
        }
    }

    /// Heights of the header, the main area and the footer, in percent of
    /// the screen: the footer takes no room while help is hidden.
    pub fn main_layout(show_help: bool) -> (r: (u16, u16, u16))
        ensures
            r == if show_help { (2u16, 93u16, 5u16) } else { (2u16, 98u16, 0u16) },
    {
        if show_help {
            (2, 93, 5)
        } else {
            (2, 98, 0)
        }
    }

    /// The line at the foot of the screen.
    pub fn footer_text() -> (r: String)
        ensures
            r@ == "<?> help | <q> quit"@,
    {
        String::from_str("<?> help | <q> quit")
    }

    /// The lines of the help dialog.
    pub fn help_lines(is_git_repo: bool) -> (r: Vec<String>)
        ensures
            r@.map_values(|s: String| s@) == help_text(is_git_repo),
    {
        let mut v: Vec<&str> = vec![
            "Help",
            "",
            "Navigation:",
            "  <Up/Down> or <k/j>    - Move up/down",
            "  <Tab>                 - Next item",
            "  <Enter>               - Select/confirm",
            "  <Esc>                 - Cancel/back",
            "",
            "Projects:",
            "  <n>                   - New project",
            "  <r>                   - Rename project",
            "  <d>                   - Delete project",
        ];
        if is_git_repo {
            v.push("  <c>                   - Git commit");
        }
        let ghost head = v@;
        let tail: Vec<&str> = vec![
            "",
            "Tasks:",
            "  <n>                   - New task",
            "  <r>                   - Rename task",
            "  <d>                   - Delete task",
            "  <e>                   - Edit notes",
            "  <v>                   - Toggle view",
            "  <Enter>               - Change status",
            "  <p>                   - Change priority",
            "",
            "General:",
            "  <q>                   - Quit",
            "  <?>                   - Toggle this help",
        ];
        let mut i: usize = 0;
        while i < tail.len()
            invariant
                i <= tail.len(),
                v@ == head + tail@.take(i as int),
            decreases tail.len() - i,
        {
            v.push(tail[i]);
            proof {
                assert(tail@.take(i + 1) =~= tail@.take(i as int).push(tail@[i as int]));
            }
            i = i + 1;
        }
        proof {
            assert(tail@.take(tail.len() as int) =~= tail@);
        }
        let r = lines_of(v);
        proof {
            assert(r@.map_values(|s: String| s@) =~= help_text(is_git_repo));
        }
        r
    }

    /// The height of the status picker: one row per status plus borders,
    /// at most six.
    pub fn status_modal_height(total: usize) -> (r: u16)
        requires
            (total as u16) + 2 <= u16::MAX,
        ensures
            r as int == if (total as u16) + 2 < 6 { (total as u16) + 2 } else { 6 },
    {
        let h = (total as u16) + 2;
        if h < 6 {
            h
        } else {
            6
        }
    }

    /// The width the status picker's content needs: the longest label (10
    /// where there is none) plus room for borders and arrows.
    pub fn status_content_width(statuses: &Vec<StatusConfig>) -> (r: u16)
        requires
            longest_label(statuses@) + 8 <= usize::MAX,
        ensures
            r == ((longest_label(statuses@) + 8) as u16),
    {
        if statuses.len() == 0 {
            return 18;
        }
        let mut longest: usize = 0;
        let mut i: usize = statuses.len();
        while i > 0
            invariant
                i <= statuses.len(),
                longest as nat == longest_label_from(statuses@, i as int),
            decreases i,
        {
            i = i - 1;
            let l = statuses[i].label.as_str().as_bytes().len();
            longest = if l >= longest {
                l
            } else {
                longest
            };
        }
        #[verifier::truncate]
        ((longest + 8) as u16)
    }

    /// The status picker's title, e.g. `▲ 2/3 ▼`.
    pub fn status_modal_title(selected: usize, total: usize) -> (r: String)
        requires
            total >= 1,
            selected + 1 <= usize::MAX,
        ensures
            r@ == status_title(selected as nat, total as nat),
    {
        let mut r = String::new();
        if selected > 0 {
            push_all(&mut r, "▲ ");
        } else {
            push_all(&mut r, "  ");
        }
        push_decimal(&mut r, (selected + 1) as u64);
        push_all(&mut r, "/");
        push_decimal(&mut r, total as u64);
        if selected < total - 1 {
            push_all(&mut r, " ▼");
        } else {
            push_all(&mut r, "  ");
        }
        r
    }

    /// The lines of the delete dialog: the question, what is deleted (in
    /// quotes), and the title.
    pub fn delete_modal_text(app: &App) -> (r: (String, String, String))
        requires
            app.view_mode == ViewMode::DeleteTask ==> current_task(*app) is Some,
            app.view_mode == ViewMode::DeleteProject ==> selected_project(*app) is Some,
        ensures
            r.0@ == "Are you sure to delete?"@,
            r.1@ == seq!['"'] + delete_subject(*app) + seq!['"'],
            r.2@ == "Delete"@,
    {
        let mut subject = String::new();
        push_char(&mut subject, '"');
        match app.view_mode {
            ViewMode::DeleteTask => push_all(&mut subject, Task::get_current(app).title.as_str()),
            ViewMode::DeleteProject => push_all(&mut subject, Project::get_current(app).title.as_str()),
            _ => {},
        }
        push_char(&mut subject, '"');
        proof {
            assert(subject@ =~= seq!['"'] + delete_subject(*app) + seq!['"']);
        }
        (String::from_str("Are you sure to delete?"), subject, String::from_str("Delete"))
    }

    /// The height of the commit dialog: room for up to four changed files,
    /// at least six rows.
    pub fn git_commit_modal_height(n_files: usize) -> (r: u16)
        requires
            (n_files as u16) + 6 <= u16::MAX,
        ensures
            r as int == if (n_files as u16) + 6 < 10 { (n_files as u16) + 6 } else { 10 },
    {
        let h = (n_files as u16) + 6;
        if h < 10 {
            h
        } else {
            10
        }
    }

    /// The lines of the commit dialog, `height` rows and `width` cells in
    /// size: the changed files that fit, how many more there are, the
    /// message being typed and the last error.
    pub fn git_commit_modal_lines(
        files: &Vec<String>,
        height: u16,
        width: u16,
        input: &str,
        error: &str,
    ) -> (r: Vec<String>)
        requires
            width >= 4,
            forall|k: int|
                0 <= k < files@.len() && k + 6 < height ==> file_listable(#[trigger] files@[k]@, width as nat),
        ensures
            r@.map_values(|s: String| s@) == commit_text(
                files@.map_values(|s: String| s@),
                height as nat,
                width as nat,
                input@,
                error@,
            ),
    {
        let ghost fs = files@.map_values(|s: String| s@);
        let max_files: usize = if height >= 6 {
            (height - 6) as usize
        } else {
            0
        };
        let shown = if max_files <= files.len() {
            max_files
        } else {
            files.len()
        };
        let mut r: Vec<String> = Vec::new();
        r.push(String::from_str("Git Commit"));
        r.push(String::from_str(""));
        let ghost start = seq!["Git Commit"@, ""@];
        assert(r@.map_values(|s: String| s@) =~= start);
        let mut k: usize = 0;
        while k < shown
            invariant
                k <= shown <= files.len(),
                shown <= max_files,
                max_files as int == if height >= 6 { height - 6 } else { 0int },
                width >= 4,
                fs == files@.map_values(|s: String| s@),
                forall|q: int|
                    0 <= q < files@.len() && q + 6 < height ==> file_listable(#[trigger] files@[q]@, width as nat),
                r@.map_values(|s: String| s@) == start + Seq::new(
                    k as nat,
                    |q: int| file_line(fs[q], width as nat),
                ),
            decreases shown - k,
        {
            let f = files[k].as_str();
            let flen = f.as_bytes().len();
            let mut line = String::new();
            push_all(&mut line, "  • ");
            assert(file_listable(files@[k as int]@, width as nat));
            if flen > (width as usize) - 6 {
                let cut = if (width as usize) - 9 < flen {
                    (width as usize) - 9
                } else {
                    flen
                };
                let (head, _) = f.split_at(cut);
                proof {
                    vstd::utf8::encode_utf8_decode_utf8(head@);
                }
                push_all(&mut line, head);
                push_all(&mut line, "...");
            } else {
                push_all(&mut line, f);
            }
            proof {
                assert(line@ =~= file_line(fs[k as int], width as nat));
            }
            let ghost before = r@.map_values(|s: String| s@);
            r.push(line);
            proof {
                assert(r@.map_values(|s: String| s@) =~= before.push(line@));
                assert(start + Seq::new((k + 1) as nat, |q: int| file_line(fs[q], width as nat))
                    =~= (start + Seq::new(k as nat, |q: int| file_line(fs[q], width as nat))).push(
                    file_line(fs[k as int], width as nat),
                ));
            }
            k = k + 1;
        }
        let ghost mid = r@.map_values(|s: String| s@);
        if files.len() > max_files {
            let mut more = String::new();
            push_all(&mut more, "  ... and ");
            push_decimal(&mut more, (files.len() - max_files) as u64);
            push_all(&mut more, " more");
            r.push(more);
        }
        let ghost mid2 = r@.map_values(|s: String| s@);
        r.push(String::from_str(""));
        let mut typed = String::new();
        push_all(&mut typed, "> ");
        push_all(&mut typed, input);
        let tv = chars_of(typed.as_str());
        let limit = (width as usize) - 4;
        let keep = if limit < tv.len() {
            limit
        } else {
            tv.len()
        };
        let typed_line = string_of_range(&tv, 0, keep);
        proof {
            assert(typed_line@ =~= prefix_upto("> "@ + input@, width - 4));
        }
        r.push(typed_line);
        let ghost mid3 = r@.map_values(|s: String| s@);
        if !error.is_empty() {
            r.push(String::from_str(""));
            let mut e = String::new();
            push_all(&mut e, "Error: ");
            push_all(&mut e, error);
            r.push(e);
        }
        proof {
            assert(r@.map_values(|s: String| s@) =~= commit_text(fs, height as nat, width as nat, input@, error@));
        }
        r
    }
}

} // verus!
