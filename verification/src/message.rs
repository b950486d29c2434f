//! The dispatcher: what each intent of the user does to the selection and to
//! the view, and which fetch it asks for.
//!
//! The dispatcher runs no statement itself. For an intent that needs rows it
//! hands out the statements of the fetch; whoever holds the database runs them
//! and gives the reply to [`TableData::show`].

use crate::host::{HostData, SessionRegistry};
use crate::td::{
    count_of, count_statement, page_count, page_statement, row_shown, rows_in_range,
    statements_error, total_page, QueryError, Reply, STable, Statements,
};
use crate::text::texts;
use crate::widths::{
    all_zero, column_width, column_widths, lemma_plain_widths_fit, widths_fit, widths_in_range,
};
use vstd::prelude::*;
use vstd::string::*;

verus! {

/// What the user can ask for.
#[derive(Debug)]
pub enum Message {
    /// Show another table: its name, and the width of the container.
    ChangeStable(String, i64),
    /// Keep only the rows whose `robot_id` contains this text; all rows if it
    /// is empty.
    StableFilter(String),
    /// Go back one page.
    PrevPage,
    /// Go on one page.
    NextPage,
    /// A column is being dragged: the width of the container, the column, and
    /// how far it has been dragged.
    Resizing(i64, i64, i64),
    /// The drag is over.
    ResizeOver,
}

/// What is selected for display: the table, the page and the filter.
#[derive(Debug)]
pub struct Selection {
    pub current_stable: String,
    /// Counts from 1.
    pub page: i32,
    /// Empty for no filter.
    pub robot_id: String,
}

/// What is displayed.
#[derive(Debug, Clone)]
pub struct TableData {
    pub headers: Vec<String>,
    pub rows: Vec<Vec<String>>,
    pub total_size: i64,
    pub total_page: i64,
    /// For each column, the offset that finished drags have left.
    pub changed_size: Vec<i64>,
    /// For each column, the offset of the drag in progress.
    pub real_moving_size: Vec<i64>,
    pub widths: Vec<i64>,
    /// How long the last fetch took.
    pub spend: String,
}

/// One fetch: the statements to run, and the width of the container where the
/// reply belongs to another table than the one displayed.
#[derive(Debug)]
pub struct Fetch {
    pub statements: Statements,
    pub container: Option<i64>,
}

/// What is left to do for an intent.
#[derive(Debug)]
pub enum Action {
    /// Run the statements and show the reply.
    Fetch(Fetch),
    /// Nothing: the view is up to date.
    Shown,
}

/// Why an intent was not carried out.
#[derive(Debug, Clone, Copy, PartialEq, Eq)]
pub enum DispatchError {
    /// There is no active session, or it is not connected.
    NoSession,
    /// The active host lists no table of that name.
    UnknownTable,
    /// The statements were not written, or the reply cannot be shown.
    Query(QueryError),
    /// There is no number for the next page.
    PageLimit,
    /// The view has no column of that number.
    NoSuchColumn,
    /// A width or an offset would leave the range of its type.
    WidthRange,
    /// The reply has another number of columns than the view, though the table
    /// is the same.
    ColumnsChanged,
}

/// The filter of a fetch: none where the text is empty.
pub open spec fn selected_filter(robot_id: Seq<char>) -> Option<Seq<char>> {
    if robot_id.len() == 0 {
        None
    } else {
        Some(robot_id)
    }
}

/// The page before `page`; the first page stays the first.
pub open spec fn prev_page(page: int) -> int {
    if page - 1 < 1 {
        1
    } else {
        page - 1
    }
}

/// Why no fetch can be asked for; none if it can.
pub open spec fn fetch_error<H>(hosts: Seq<HostData<H>>, selection: Selection) -> Option<
    DispatchError,
> {
    if hosts.len() == 0 || hosts[0].taos is None {
        Some(DispatchError::NoSession)
    } else if !texts(hosts[0].stables@).contains(selection.current_stable@) {
        Some(DispatchError::UnknownTable)
    } else {
        match statements_error(
            selection.current_stable@,
            selected_filter(selection.robot_id@),
            selection.page as int,
        ) {
            Some(e) => Some(DispatchError::Query(e)),
            None => None,
        }
    }
}

/// `out` asks for the fetch of the selection, or says why there is none.
pub open spec fn fetch_planned<H>(
    hosts: Seq<HostData<H>>,
    selection: Selection,
    container: Option<i64>,
    out: Result<Action, DispatchError>,
) -> bool {
    match out {
        Ok(Action::Fetch(fetch)) => {
            &&& fetch_error(hosts, selection) is None
            &&& fetch.statements.count@ == count_statement(
                selection.current_stable@,
                selected_filter(selection.robot_id@),
            )
            &&& fetch.statements.page@ == page_statement(
                selection.current_stable@,
                selected_filter(selection.robot_id@),
                selection.page as int,
            )
            &&& fetch.container == container
        },
        Ok(Action::Shown) => false,
        Err(e) => fetch_error(hosts, selection) == Some(e),
    }
}

/// Each offset of `changed` and the one of `moving` beside it add up to a
/// value of `i64`.
pub open spec fn sums_fit(changed: Seq<i64>, moving: Seq<i64>) -> bool {
    forall|i: int|
        0 <= i < changed.len() && i < moving.len() ==> i64::MIN <= #[trigger] changed[i]
            + moving[i] <= i64::MAX
}

/// `folded` holds, column by column, the sum of the two offsets.
pub open spec fn is_folded(changed: Seq<i64>, moving: Seq<i64>, folded: Seq<i64>) -> bool {
    folded.len() == changed.len() && forall|i: int|
        0 <= i < changed.len() ==> #[trigger] folded[i] == changed[i] + moving[i]
}

/// What a drag does to the view: the live offset of the column is replaced,
/// and the widths follow. A column that is not there, or a width out of range,
/// leaves the view as it was.
pub open spec fn resized(
    view: TableData,
    shown: TableData,
    width: i64,
    index: i64,
    size: i64,
    out: Result<Action, DispatchError>,
) -> bool {
    let n = view.headers@.len() as int;
    let moving = view.real_moving_size@.update(index as int, size);
    if !(0 <= index < n) {
        shown == view && out == Err::<Action, DispatchError>(DispatchError::NoSuchColumn)
    } else if !widths_fit(width as int, n, view.changed_size@, moving) {
        shown == view && out == Err::<Action, DispatchError>(DispatchError::WidthRange)
    } else {
        &&& out == Ok::<Action, DispatchError>(Action::Shown)
        &&& shown.real_moving_size@ == moving
        &&& shown.widths@.len() == n
        &&& forall|i: int|
            0 <= i < n ==> shown.widths@[i] == column_width(
                width as int,
                n,
                view.changed_size@,
                moving,
                i,
            )
        &&& shown.headers == view.headers
        &&& shown.rows == view.rows
        &&& shown.total_size == view.total_size
        &&& shown.total_page == view.total_page
        &&& shown.changed_size == view.changed_size
        &&& shown.spend == view.spend
    }
}

/// What the end of a drag does to the view: each live offset is added to the
/// committed one and then set to zero. The widths stay, as the sum of the two
/// offsets of each column stays. An offset out of range leaves the view as it
/// was.
pub open spec fn committed(view: TableData, shown: TableData, out: Result<Action, DispatchError>) -> bool {
    if !sums_fit(view.changed_size@, view.real_moving_size@) {
        shown == view && out == Err::<Action, DispatchError>(DispatchError::WidthRange)
    } else {
        &&& out == Ok::<Action, DispatchError>(Action::Shown)
        &&& is_folded(view.changed_size@, view.real_moving_size@, shown.changed_size@)
        &&& shown.real_moving_size@.len() == view.real_moving_size@.len()
        &&& all_zero(shown.real_moving_size@)
        &&& shown.widths == view.widths
        &&& shown.headers == view.headers
        &&& shown.rows == view.rows
        &&& shown.total_size == view.total_size
        &&& shown.total_page == view.total_page
        &&& shown.spend == view.spend
    }
}

/// What an intent does: to the selection (`before`, `after`), to the view
/// (`view`, `shown`), and what it leaves to do (`out`).
pub open spec fn handled<H>(
    msg: Message,
    hosts: Seq<HostData<H>>,
    before: Selection,
    after: Selection,
    view: TableData,
    shown: TableData,
    out: Result<Action, DispatchError>,
) -> bool {
    match msg {
        Message::ChangeStable(name, width) => {
            &&& after.current_stable == name
            &&& after.page == 1
            &&& after.robot_id == before.robot_id
            &&& shown == view
            &&& fetch_planned(hosts, after, Some(width), out)
        },
        Message::StableFilter(text) => {
            &&& after.current_stable == before.current_stable
            &&& after.page == 1
            &&& after.robot_id == text
            &&& shown == view
            &&& fetch_planned(hosts, after, None, out)
        },
        Message::PrevPage => {
            &&& after.current_stable == before.current_stable
            &&& after.page == prev_page(before.page as int)
            &&& after.robot_id == before.robot_id
            &&& shown == view
            &&& fetch_planned(hosts, after, None, out)
        },
        Message::NextPage => {
            &&& after.current_stable == before.current_stable
            &&& after.robot_id == before.robot_id
            &&& shown == view
            &&& if before.page < i32::MAX {
                after.page == before.page + 1 && fetch_planned(hosts, after, None, out)
            } else {
                after.page == before.page && out == Err::<Action, DispatchError>(
                    DispatchError::PageLimit,
                )
            }
        },
        Message::Resizing(width, index, size) => {
            after == before && resized(view, shown, width, index, size, out)
        },
        Message::ResizeOver => { after == before && committed(view, shown, out) },
    }
}

/// What a reply does to the view. All of the view is replaced but the offsets
/// and the widths; these are reset where the reply belongs to another table
/// (`container` holds the container's width then), and kept otherwise.
///
/// A reply that cannot be shown, or that has another number of columns though
/// the table is the same, leaves the view as it was.
pub open spec fn reply_shown(
    view: TableData,
    shown: TableData,
    reply: Reply,
    container: Option<i64>,
    spend: String,
    out: Result<(), DispatchError>,
) -> bool {
    let n = reply.fields@.len() as int;
    if !rows_in_range(reply.rows@) {
        shown == view && out == Err::<(), DispatchError>(
            DispatchError::Query(QueryError::TimestampRange),
        )
    } else if container is None && n != view.headers@.len() {
        shown == view && out == Err::<(), DispatchError>(DispatchError::ColumnsChanged)
    } else {
        &&& out == Ok::<(), DispatchError>(())
        &&& texts(shown.headers@) == texts(reply.fields@)
        &&& shown.rows@.len() == reply.rows@.len()
        &&& forall|r: int|
            0 <= r < reply.rows@.len() ==> row_shown(#[trigger] reply.rows@[r]@, shown.rows@[r]@)
        &&& shown.total_size == match count_of(reply.count_row) {
            Some(count) => count,
            None => 0,
        }
        &&& shown.total_page == page_count(shown.total_size as int)
        &&& shown.spend == spend
        &&& match container {
            Some(width) => {
                &&& shown.changed_size@.len() == n
                &&& all_zero(shown.changed_size@)
                &&& shown.real_moving_size@.len() == n
                &&& all_zero(shown.real_moving_size@)
                &&& shown.widths@.len() == n
                &&& forall|i: int|
                    0 <= i < n ==> shown.widths@[i] == column_width(
                        width as int,
                        n,
                        shown.changed_size@,
                        shown.real_moving_size@,
                        i,
                    )
            },
            None => {
                &&& shown.changed_size == view.changed_size
                &&& shown.real_moving_size == view.real_moving_size
                &&& shown.widths == view.widths
            },
        }
    }
}

fn zeros(n: usize) -> (v: Vec<i64>)
    ensures
        v@.len() == n,
        all_zero(v@),
{
    let mut v: Vec<i64> = Vec::new();
    while v.len() < n
        invariant
            v@.len() <= n,
            all_zero(v@),
        decreases n - v@.len(),
    {
        v.push(0);
    }
    v
}

fn listed(catalog: &Vec<String>, name: &String) -> (found: bool)
    ensures
        found == texts(catalog@).contains(name@),
{
    let mut i: usize = 0;
    while i < catalog.len()
        invariant
            i <= catalog@.len(),
            forall|j: int| 0 <= j < i ==> texts(catalog@)[j] != name@,
        decreases catalog@.len() - i,
    {
        if catalog[i] == *name {
            assert(texts(catalog@)[i as int] == name@);
            return true;
        }
        i = i + 1;
    }
    false
}

/// The fetch of the selection on the active host: its two statements.
///
/// There is none where no connected session is active, where the active host
/// does not list the table, and where the statements cannot be written safely.
pub fn prepare_fetch<H>(
    hosts: &SessionRegistry<H>,
    selection: &Selection,
    container: Option<i64>,
) -> (out: Result<Action, DispatchError>)
    ensures
        fetch_planned(hosts.hosts@, *selection, container, out),
{
    if hosts.hosts.len() == 0 {
        return Err(DispatchError::NoSession);
    }
    let active = hosts.active();
    if active.taos.is_none() {
        return Err(DispatchError::NoSession);
    }
    if !listed(&active.stables, &selection.current_stable) {
        return Err(DispatchError::UnknownTable);
    }
    let filter = if selection.robot_id.as_str().is_empty() {
        None
    } else {
        Some(selection.robot_id.clone())
    };
    let stable = STable::new(selection.current_stable.clone());
    match stable.statements(selection.page, &filter) {
        Ok(statements) => Ok(Action::Fetch(Fetch { statements, container })),
        Err(e) => Err(DispatchError::Query(e)),
    }
}

impl Selection {
    /// The first page of `current_stable`, without a filter.
    pub fn new(current_stable: String) -> (selection: Selection)
        ensures
            selection.current_stable == current_stable,
            selection.page == 1,
            selection.robot_id@.len() == 0,
    {
        Selection { current_stable, page: 1, robot_id: String::new() }
    }

    /// Whether `stable` is the table that is selected.
    pub fn is_current(&self, stable: &String) -> (current: bool)
        ensures
            current == (self.current_stable@ == stable@),
    {
        self.current_stable == *stable
    }
}

impl TableData {
    /// The view has one width and one offset of each kind for every column,
    /// and as many pages as its rows fill.
    pub open spec fn wf(&self) -> bool {
        &&& self.widths@.len() == self.headers@.len()
        &&& self.changed_size@.len() == self.headers@.len()
        &&& self.real_moving_size@.len() == self.headers@.len()
        &&& self.total_page == page_count(self.total_size as int)
    }

    /// The view before anything is shown: no columns, no rows, one empty page.
    pub fn new() -> (view: TableData)
        ensures
            view.wf(),
            view.headers@.len() == 0,
            view.rows@.len() == 0,
            view.total_size == 0,
            view.total_page == 1,
            view.spend@.len() == 0,
    {
        TableData {
            headers: Vec::new(),
            rows: Vec::new(),
            total_size: 0,
            total_page: 1,
            changed_size: Vec::new(),
            real_moving_size: Vec::new(),
            widths: Vec::new(),
            spend: String::new(),
        }
    }

    /// Shows the reply to a fetch: the names of its columns, its rows as text,
    /// the count of all rows and the pages they fill, and how long it took.
    /// Where the fetch was for another table, the offsets are set to zero and
    /// the widths computed anew for the container; otherwise they stay.
    pub fn show(&mut self, reply: &Reply, container: Option<i64>, spend: String) -> (out: Result<
        (),
        DispatchError,
    >)
        requires
            old(self).wf(),
        ensures
            final(self).wf(),
            reply_shown(*old(self), *final(self), *reply, container, spend, out),
    {
        let (mut list, count) = match STable::get_rows(reply) {
            Ok(pair) => pair,
            Err(e) => {
                return Err(DispatchError::Query(e));
            },
        };
        let headers = list.remove(0);
        assert(headers@.len() == texts(headers@).len());
        assert(reply.fields@.len() == texts(reply.fields@).len());
        let n = headers.len();
        match container {
            Some(width) => {
                let changed = zeros(n);
                let moving = zeros(n);
                let widths = if n == 0 {
                    Vec::new()
                } else {
                    proof {
                        lemma_plain_widths_fit(width, n as int, changed@);
                        assert(changed@ =~= moving@);
                    }
                    column_widths(width, n as u64, &changed, &moving)
                };
                self.changed_size = changed;
                self.real_moving_size = moving;
                self.widths = widths;
            },
            None => {
                if n != self.headers.len() {
                    return Err(DispatchError::ColumnsChanged);
                }
            },
        }
        let total_size = match count {
            Some(count) => count,
            None => 0,
        };
        self.headers = headers;
        self.rows = list;
        self.total_size = total_size;
        self.total_page = total_page(total_size);
        self.spend = spend;
        Ok(())
    }
}

/// Carries out one intent of the user.
///
/// An intent that needs rows first changes the selection: another table or
/// another filter starts at page 1, a step back stops at page 1, a step
/// forward goes on without end. Then it asks for the fetch of the new
/// selection on the active host; the view changes when the reply is shown.
/// A drag changes the view at once and asks for nothing.
#[verifier::loop_isolation(false)]
pub fn message_handler<H>(
    msg: Message,
    hosts: &SessionRegistry<H>,
    selection: &mut Selection,
    data: &mut TableData,
) -> (out: Result<Action, DispatchError>)
    requires
        old(data).wf(),
    ensures
        final(data).wf(),
        old(selection).page >= 1 ==> final(selection).page >= 1,
        handled(msg, hosts.hosts@, *old(selection), *final(selection), *old(data), *final(data), out),
{
    match msg {
        Message::ChangeStable(stable, size) => {
            selection.page = 1;
            selection.current_stable = stable;
            prepare_fetch(hosts, selection, Some(size))
        },
        Message::StableFilter(search_robot_id) => {
            selection.page = 1;
            selection.robot_id = search_robot_id;
            prepare_fetch(hosts, selection, None)
        },
        Message::PrevPage => {
            if selection.page <= 1 {
                selection.page = 1;
            } else {
                selection.page = selection.page - 1;
            }
            prepare_fetch(hosts, selection, None)
        },
        Message::NextPage => {
            if selection.page == i32::MAX {
                return Err(DispatchError::PageLimit);
            }
            selection.page = selection.page + 1;
            prepare_fetch(hosts, selection, None)
        },
        Message::Resizing(width, index, size) => {
            let n = data.headers.len();
            if index < 0 || index as u64 >= n as u64 {
                return Err(DispatchError::NoSuchColumn);
            }
            let at = index as usize;
            let mut moving: Vec<i64> = Vec::new();
            while moving.len() < n
                invariant
                    n == data.real_moving_size@.len(),
                    moving@.len() <= n,
                    forall|j: int| 0 <= j < moving@.len() ==> moving@[j] == data.real_moving_size@[j],
                decreases n - moving@.len(),
            {
                moving.push(data.real_moving_size[moving.len()]);
            }
            moving.set(at, size);
            assert(moving@ =~= data.real_moving_size@.update(index as int, size));
            if !widths_in_range(width, n as u64, &data.changed_size, &moving) {
                return Err(DispatchError::WidthRange);
            }
            let widths = column_widths(width, n as u64, &data.changed_size, &moving);
            data.real_moving_size = moving;
            data.widths = widths;
            Ok(Action::Shown)
        },
        Message::ResizeOver => {
            let n = data.headers.len();
            let mut folded: Vec<i64> = Vec::new();
            while folded.len() < n
                invariant
                    n == data.real_moving_size@.len(),
                    n == data.changed_size@.len(),
                    folded@.len() <= n,
                    forall|j: int|
                        0 <= j < folded@.len() ==> #[trigger] folded@[j] == data.changed_size@[j]
                            + data.real_moving_size@[j],
                decreases n - folded@.len(),
            {
                let i = folded.len();
                let sum: i128 = data.changed_size[i] as i128 + data.real_moving_size[i] as i128;
                if sum < i64::MIN as i128 || sum > i64::MAX as i128 {
                    assert(!(i64::MIN <= data.changed_size@[i as int] + data.real_moving_size@[i as int]
                        <= i64::MAX));
                    return Err(DispatchError::WidthRange);
                }
                folded.push(sum as i64);
            }
            assert forall|i: int| 0 <= i < n implies i64::MIN <= #[trigger] data.changed_size@[i]
                + data.real_moving_size@[i] <= i64::MAX by {
                assert(folded@[i] == data.changed_size@[i] + data.real_moving_size@[i]);
            }
            data.changed_size = folded;
            data.real_moving_size = zeros(n);
            Ok(Action::Shown)
        },
    }
}

/// A drag and its end leave the widths that the sum of the offsets gives: the
/// widths computed during the drag, from the committed offsets and the live
/// ones, are the widths of the folded offsets with no live offset at all.
pub proof fn lemma_resize_then_commit(
    width: int,
    size: int,
    changed: Seq<i64>,
    moving: Seq<i64>,
    folded: Seq<i64>,
    rest: Seq<i64>,
    i: int,
)
    requires
        changed.len() == size,
        moving.len() == size,
        is_folded(changed, moving, folded),
        rest.len() == size,
        all_zero(rest),
        0 <= i < size,
    ensures
        column_width(width, size, changed, moving, i) == column_width(width, size, folded, rest, i),
{
}

/// A drag that starts from no live offset, and its end, add the distance
/// dragged to the committed offset of the dragged column and to no other.
pub proof fn lemma_drag_adds_offset(
    changed: Seq<i64>,
    rest: Seq<i64>,
    index: int,
    offset: i64,
    folded: Seq<i64>,
)
    requires
        rest.len() == changed.len(),
        all_zero(rest),
        0 <= index < changed.len(),
        is_folded(changed, rest.update(index, offset), folded),
    ensures
        folded[index] == changed[index] + offset,
        forall|i: int| 0 <= i < changed.len() && i != index ==> folded[i] == changed[i],
{
    let moving = rest.update(index, offset);
    assert forall|i: int| 0 <= i < changed.len() && i != index implies folded[i] == changed[i] by {
        assert(folded[i] == changed[i] + moving[i]);
    }
    assert(folded[index] == changed[index] + moving[index]);
}

/// Another table always starts at page 1, and once its reply is shown both
/// offsets of every column are zero, whatever was selected and shown before.
pub proof fn lemma_change_stable_resets<H>(
    name: String,
    width: i64,
    hosts: Seq<HostData<H>>,
    before: Selection,
    after: Selection,
    view: TableData,
    pending: TableData,
    out: Result<Action, DispatchError>,
    reply: Reply,
    spend: String,
    shown: TableData,
)
    requires
        handled(Message::ChangeStable(name, width), hosts, before, after, view, pending, out),
        reply_shown(pending, shown, reply, Some(width), spend, Ok(())),
    ensures
        after.page == 1,
        shown.changed_size@.len() == shown.headers@.len(),
        shown.real_moving_size@.len() == shown.headers@.len(),
        all_zero(shown.changed_size@),
        all_zero(shown.real_moving_size@),
{
    assert(texts(shown.headers@).len() == shown.headers@.len());
    assert(texts(reply.fields@).len() == reply.fields@.len());
}

/// A step forward and then a step back lead to the page where they began.
pub proof fn lemma_next_then_prev<H>(
    hosts: Seq<HostData<H>>,
    start: Selection,
    middle: Selection,
    end: Selection,
    view: TableData,
    forth: Result<Action, DispatchError>,
    back: Result<Action, DispatchError>,
)
    requires
        1 <= start.page < i32::MAX,
        handled(Message::NextPage, hosts, start, middle, view, view, forth),
        handled(Message::PrevPage, hosts, middle, end, view, view, back),
    ensures
        end.page == start.page,
        end.current_stable == start.current_stable,
        end.robot_id == start.robot_id,
{
}

/// A step back from the first page stays on the first page.
pub proof fn lemma_prev_at_first<H>(
    hosts: Seq<HostData<H>>,
    before: Selection,
    after: Selection,
    view: TableData,
    out: Result<Action, DispatchError>,
)
    requires
        before.page == 1,
        handled(Message::PrevPage, hosts, before, after, view, view, out),
    ensures
        after.page == 1,
{
}

} // verus!
