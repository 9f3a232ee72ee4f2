//! The right panel: the open sessions by workspace, and the stored command history.

use vstd::prelude::*;

use crate::clock::{
    date_time, date_time_text, is_offset, local_offset, rfc3339_point, rfc3339_time,
};
use crate::text::{opt_text, same, trim, trimmed};

verus! {

/// How many commands a page of the history holds.
pub const HISTORY_PAGE_SIZE: usize = 50;

// ---------------------------------------------------------------------------------------------
// The history
// ---------------------------------------------------------------------------------------------

/// What the history is searched for.
#[derive(Clone, Debug, PartialEq)]
pub struct HistoryQuery {
    pub contains: String,
    pub current_session_only: bool,
    pub session_id: Option<String>,
}

/// The query of a search text. Where only the current session counts it is the focused one, else
/// the active one.
pub fn history_query(
    search: &str,
    current_session_only: bool,
    focused: Option<String>,
    active: Option<String>,
) -> (r: HistoryQuery)
    ensures
        r.contains@ == trimmed(search@),
        r.current_session_only == current_session_only,
        r.session_id == (if !current_session_only {
            None
        } else if focused is Some {
            focused
        } else {
            active
        }),
{
    let session_id = if !current_session_only {
        None
    } else {
        match focused {
            Some(id) => Some(id),
            None => active,
        }
    };
    HistoryQuery { contains: trim(search), current_session_only, session_id }
}

impl HistoryQuery {
    /// Whether the query asks for a session that there is not.
    pub open spec fn lacks_session(self) -> bool {
        self.current_session_only && self.session_id is None
    }

    /// The text that a command has to hold; none where the search text is empty.
    pub fn contains_filter(&self) -> (r: Option<&str>)
        ensures
            r is Some <==> self.contains@.len() > 0,
            r matches Some(text) ==> text@ == self.contains@,
    {
        if self.contains.as_str().is_empty() {
            None
        } else {
            Some(self.contains.as_str())
        }
    }
}

/// The label of the filter for the current session.
pub fn session_filter_label(session_name: Option<&str>) -> (r: String)
    ensures
        r@ == (match session_name {
            Some(name) => "Current focused/active session only · "@ + name@,
            None => "Current focused/active session only"@,
        }),
{
    match session_name {
        Some(name) => {
            let mut out = "Current focused/active session only · ".to_owned();
            out.append(name);
            out
        },
        None => "Current focused/active session only".to_owned(),
    }
}

/// The number of the next request.
pub open spec fn next_epoch(epoch: u64) -> u64 {
    if epoch == u64::MAX {
        0
    } else {
        (epoch + 1) as u64
    }
}

/// The commands loaded so far, with the place to go on from. Requests are numbered; only the
/// reply to the last one counts.
pub struct HistoryList<E, C> {
    pub entries: Vec<E>,
    pub next_cursor: Option<C>,
    pub loading: bool,
    pub error: Option<String>,
    pub epoch: u64,
}

/// A page of the history.
pub struct HistoryPage<E, C> {
    pub entries: Vec<E>,
    pub next_cursor: Option<C>,
}

/// What stands above the commands.
#[derive(Clone, Copy, PartialEq, Eq, Structural, Debug)]
pub enum HistoryNotice {
    Loading,
    NoMatch,
    Nothing,
}

/// What stands below the commands.
#[derive(Clone, Copy, PartialEq, Eq, Structural, Debug)]
pub enum HistoryFooter {
    LoadingMore,
    LoadMore,
    Nothing,
}

impl<E, C> HistoryList<E, C> {
    /// An empty list.
    pub fn new() -> (r: Self)
        ensures
            r.entries@.len() == 0,
            r.next_cursor is None,
            !r.loading,
            r.error is None,
            r.epoch == 0,
    {
        HistoryList { entries: Vec::new(), next_cursor: None, loading: false, error: None, epoch: 0 }
    }

    /// Starts a request, for the first page or for one more: its number where the history is to be
    /// asked. A query for a session that there is not is refused.
    pub fn begin(&mut self, query: &HistoryQuery, append: bool) -> (r: Option<u64>)
        ensures
            r is None <==> query.lacks_session(),
            r matches Some(epoch) ==> epoch == final(self).epoch,
            final(self).epoch == next_epoch(old(self).epoch),
            final(self).loading == r is Some,
            opt_text(final(self).error) == (if query.lacks_session() {
                Some("No focused or active session is available for this filter."@)
            } else {
                None
            }),
            append ==> final(self).entries == old(self).entries && final(self).next_cursor == old(
                self,
            ).next_cursor,
            !append ==> final(self).entries@.len() == 0 && final(self).next_cursor is None,
    {
        self.epoch = if self.epoch == u64::MAX {
            0
        } else {
            self.epoch + 1
        };
        self.loading = true;
        self.error = None;
        if !append {
            self.entries = Vec::new();
            self.next_cursor = None;
        }
        if query.current_session_only && query.session_id.is_none() {
            self.loading = false;
            self.error = Some(
                "No focused or active session is available for this filter.".to_owned(),
            );
            return None;
        }
        Some(self.epoch)
    }

    /// The reply to a request. A reply to another than the last request changes nothing; a page is
    /// added or taken over; a failure is shown and keeps what there is.
    pub fn finish(&mut self, epoch: u64, append: bool, reply: Result<HistoryPage<E, C>, String>)
        ensures
            epoch != old(self).epoch ==> *final(self) == *old(self),
            epoch == old(self).epoch ==> {
                &&& final(self).epoch == old(self).epoch
                &&& !final(self).loading
                &&& match reply {
                    Ok(page) => {
                        &&& final(self).entries@ == (if append {
                            old(self).entries@ + page.entries@
                        } else {
                            page.entries@
                        })
                        &&& final(self).next_cursor == page.next_cursor
                        &&& final(self).error is None
                    },
                    Err(message) => {
                        &&& final(self).entries == old(self).entries
                        &&& final(self).next_cursor == old(self).next_cursor
                        &&& opt_text(final(self).error) == Some(
                            "Unable to load command history: "@ + message@,
                        )
                    },
                }
            },
    {
        if self.epoch != epoch {
            return;
        }
        match reply {
            Ok(page) => {
                let mut loaded = page.entries;
                if append {
                    self.entries.append(&mut loaded);
                } else {
                    self.entries = loaded;
                }
                self.next_cursor = page.next_cursor;
                self.error = None;
            },
            Err(message) => {
                let mut text = "Unable to load command history: ".to_owned();
                text.append(message.as_str());
                self.error = Some(text);
            },
        }
        self.loading = false;
    }

    /// Whether one more page can be asked for: there is a place to go on from and no request is
    /// out.
    pub fn can_load_more(&self) -> (r: bool)
        ensures
            r == (!self.loading && self.next_cursor is Some),
    {
        !self.loading && self.next_cursor.is_some()
    }

    /// What stands above the commands.
    pub fn notice(&self) -> (r: HistoryNotice)
        ensures
            r == (if self.entries@.len() > 0 {
                HistoryNotice::Nothing
            } else if self.loading {
                HistoryNotice::Loading
            } else if self.error is None {
                HistoryNotice::NoMatch
            } else {
                HistoryNotice::Nothing
            }),
    {
        if self.entries.len() > 0 {
            HistoryNotice::Nothing
        } else if self.loading {
            HistoryNotice::Loading
        } else if self.error.is_none() {
            HistoryNotice::NoMatch
        } else {
            HistoryNotice::Nothing
        }
    }

    /// What stands below the commands.
    pub fn footer(&self) -> (r: HistoryFooter)
        ensures
            r == (if self.loading && self.entries@.len() > 0 {
                HistoryFooter::LoadingMore
            } else if self.next_cursor is Some {
                HistoryFooter::LoadMore
            } else {
                HistoryFooter::Nothing
            }),
    {
        if self.loading && self.entries.len() > 0 {
            HistoryFooter::LoadingMore
        } else if self.next_cursor.is_some() {
            HistoryFooter::LoadMore
        } else {
            HistoryFooter::Nothing
        }
    }
}

/// A request makes the one before it obsolete: their numbers differ.
pub proof fn law_requests_differ(epoch: u64)
    ensures
        next_epoch(epoch) != epoch,
{
}

/// The time of a command in a time zone that is so many seconds ahead of UTC; the stored text
/// where that is no date or there is no such time zone.
pub fn history_time_at(created_at: &str, offset: Option<i32>) -> (r: String)
    ensures
        match (rfc3339_point(created_at@), offset) {
            (Some(point), Some(ahead)) => if is_offset(ahead) {
                date_time(point.0, point.1, ahead) == Some(r@)
            } else {
                r@ == created_at@
            },
            _ => r@ == created_at@,
        },
{
    if let Some(point) = rfc3339_time(created_at) {
        if let Some(ahead) = offset {
            if let Some(text) = date_time_text(point.0, point.1, ahead) {
                return text;
            }
        }
    }
    created_at.to_owned()
}

/// The time of a command in the machine's time zone; the stored text where that is no date.
pub fn format_history_time(created_at: &str) -> (r: String)
    ensures
        match rfc3339_point(created_at@) {
            None => r@ == created_at@,
            Some(point) => exists|ahead: i32|
                is_offset(ahead) && #[trigger] date_time(point.0, point.1, ahead) == Some(r@),
        },
{
    let offset: Option<i32> = match rfc3339_time(created_at) {
        Some(point) => local_offset(point.0, point.1),
        None => None,
    };
    history_time_at(created_at, offset)
}

/// A field of a command: a dash where there is none.
pub fn field_or_dash(value: Option<&str>) -> (r: String)
    ensures
        r@ == (match value {
            Some(text) => text@,
            None => "—"@,
        }),
{
    match value {
        Some(text) => text.to_owned(),
        None => "—".to_owned(),
    }
}

// ---------------------------------------------------------------------------------------------
// The sessions
// ---------------------------------------------------------------------------------------------

/// Whether a session is connected.
#[derive(Clone, Copy, PartialEq, Eq, Structural, Debug)]
pub enum SessionConnectionState {
    Connected,
    Disconnected,
    Reconnecting,
}

/// A session in the tree.
#[derive(Clone, Debug, PartialEq)]
pub struct TreeSession {
    pub id: String,
    pub name: String,
    pub kind: String,
    pub connection_state: SessionConnectionState,
    pub is_active: bool,
}

/// A pane of a workspace.
#[derive(Clone, Debug, PartialEq)]
pub struct TreePane {
    pub index: usize,
    pub is_focused: bool,
    pub session: Option<TreeSession>,
}

/// A workspace.
#[derive(Clone, Debug, PartialEq)]
pub struct TreeWorkspace {
    pub tab_id: String,
    pub anchor_session_id: Option<String>,
    pub is_active: bool,
    pub panes: Vec<TreePane>,
}

/// The mark, the label and the colour of a connection.
pub open spec fn status_of(state: SessionConnectionState) -> (Seq<char>, Seq<char>, Seq<char>) {
    match state {
        SessionConnectionState::Connected => ("●"@, "Connected"@, "var(--skin-success)"@),
        SessionConnectionState::Disconnected => ("○"@, "Disconnected"@, "var(--skin-danger)"@),
        SessionConnectionState::Reconnecting => ("◌"@, "Reconnecting"@, "var(--skin-warning)"@),
    }
}

/// The mark, the label and the colour of a connection.
pub fn connection_status(state: SessionConnectionState) -> (r: (
    &'static str,
    &'static str,
    &'static str,
))
    ensures
        (r.0@, r.1@, r.2@) == status_of(state),
{
    match state {
        SessionConnectionState::Connected => ("●", "Connected", "var(--skin-success)"),
        SessionConnectionState::Disconnected => ("○", "Disconnected", "var(--skin-danger)"),
        SessionConnectionState::Reconnecting => ("◌", "Reconnecting", "var(--skin-warning)"),
    }
}

/// Having a session.
pub open spec fn is_occupied() -> spec_fn(TreePane) -> bool {
    |pane: TreePane| pane.session is Some
}

/// How many panes of some workspaces have a session.
pub open spec fn occupied(tree: Seq<TreeWorkspace>) -> nat
    decreases tree.len(),
{
    if tree.len() == 0 {
        0
    } else {
        occupied(tree.drop_last()) + tree.last().panes@.filter(is_occupied()).len()
    }
}

/// How many panes there are.
pub open spec fn pane_count(tree: Seq<TreeWorkspace>) -> nat
    decreases tree.len(),
{
    if tree.len() == 0 {
        0
    } else {
        pane_count(tree.drop_last()) + tree.last().panes@.len()
    }
}

fn count_occupied(panes: &Vec<TreePane>) -> (r: usize)
    ensures
        r == panes@.filter(is_occupied()).len(),
        r <= panes@.len(),
{
    let mut count: usize = 0;
    proof {
        crate::text::lemma_filter_none(panes@, is_occupied());
    }
    for i in 0..panes.len()
        invariant
            count == panes@.take(i as int).filter(is_occupied()).len(),
            count <= i <= panes.len(),
    {
        proof {
            crate::text::lemma_filter_step(panes@, i as int, is_occupied());
        }
        if panes[i].session.is_some() {
            count = count + 1;
        }
    }
    proof {
        crate::text::lemma_filter_none(panes@, is_occupied());
    }
    count
}

proof fn lemma_pane_count(tree: Seq<TreeWorkspace>, i: int)
    requires
        0 <= i <= tree.len(),
    ensures
        pane_count(tree.take(i)) <= pane_count(tree),
    decreases tree.len() - i,
{
    if i < tree.len() {
        lemma_pane_count(tree, i + 1);
        assert(tree.take(i + 1).drop_last() == tree.take(i));
    } else {
        assert(tree.take(i) == tree);
    }
}

/// How many sessions are open.
pub fn session_count(tree: &Vec<TreeWorkspace>) -> (r: usize)
    requires
        pane_count(tree@) <= usize::MAX,
    ensures
        r == occupied(tree@),
{
    let mut count: usize = 0;
    for i in 0..tree.len()
        invariant
            pane_count(tree@) <= usize::MAX,
            count == occupied(tree@.take(i as int)),
            count <= pane_count(tree@.take(i as int)),
    {
        proof {
            assert(tree@.take(i + 1).drop_last() == tree@.take(i as int));
            lemma_pane_count(tree@, i + 1);
        }
        count = count + count_occupied(&tree[i].panes);
    }
    assert(tree@.take(tree@.len() as int) == tree@);
    count
}

/// The name of the first session of an id among some panes.
pub open spec fn session_name(panes: Seq<TreePane>, id: Seq<char>) -> Option<Seq<char>>
    decreases panes.len(),
{
    if panes.len() == 0 {
        None
    } else {
        match panes[0].session {
            Some(session) if session.id@ == id => Some(session.name@),
            _ => session_name(panes.drop_first(), id),
        }
    }
}

impl TreeWorkspace {
    /// The label of a workspace: the name of the session that it is anchored at, its id where it
    /// has none.
    pub open spec fn label(self) -> Seq<char> {
        match self.anchor_session_id {
            Some(id) => match session_name(self.panes@, id@) {
                Some(name) => name,
                None => self.tab_id@,
            },
            None => self.tab_id@,
        }
    }

    /// The label of a workspace.
    pub fn workspace_label(&self) -> (r: String)
        ensures
            r@ == self.label(),
    {
        if let Some(id) = &self.anchor_session_id {
            let mut i: usize = 0;
            assert(self.panes@.skip(0) == self.panes@);
            while i < self.panes.len()
                invariant
                    i <= self.panes@.len(),
                    session_name(self.panes@.skip(i as int), id@) == session_name(self.panes@, id@),
                    self.anchor_session_id == Some(*id),
                decreases self.panes@.len() - i,
            {
                if let Some(session) = &self.panes[i].session {
                    if same(session.id.as_str(), id.as_str()) {
                        return session.name.clone();
                    }
                }
                assert(self.panes@.skip(i as int).drop_first() == self.panes@.skip(i + 1));
                i = i + 1;
            }
        }
        self.tab_id.clone()
    }
}

/// Each state of a connection has its own mark, its own word and its own colour.
pub proof fn law_connection_states(state: SessionConnectionState)
    ensures
        state is Connected ==> status_of(state) == ("●"@, "Connected"@, "var(--skin-success)"@),
        state is Disconnected ==> status_of(state) == (
            "○"@,
            "Disconnected"@,
            "var(--skin-danger)"@,
        ),
        state is Reconnecting ==> status_of(state) == (
            "◌"@,
            "Reconnecting"@,
            "var(--skin-warning)"@,
        ),
{
}

/// A request gets the number after the last one, and the first number after the largest.
pub proof fn law_next_number(epoch: u64)
    ensures
        epoch < u64::MAX ==> next_epoch(epoch) == epoch + 1,
        next_epoch(u64::MAX) == 0,
{
}

/// The panes of a tree are those of its workspaces together, and a pane is occupied exactly when
/// it has a session.
pub proof fn law_panes_add_up(
    tree: Seq<TreeWorkspace>,
    workspace: TreeWorkspace,
    panes: Seq<TreePane>,
    pane: TreePane,
)
    ensures
        pane_count(Seq::empty()) == 0,
        occupied(Seq::empty()) == 0,
        pane_count(tree.push(workspace)) == pane_count(tree) + workspace.panes@.len(),
        occupied(tree.push(workspace)) == occupied(tree) + workspace.panes@.filter(
            is_occupied(),
        ).len(),
        pane.session is Some ==> panes.push(pane).filter(is_occupied()).len() == panes.filter(
            is_occupied(),
        ).len() + 1,
        pane.session is None ==> panes.push(pane).filter(is_occupied()).len() == panes.filter(
            is_occupied(),
        ).len(),
{
    reveal(Seq::filter);
    assert(tree.push(workspace).drop_last() == tree);
    assert(panes.push(pane).drop_last() == panes);
}

/// The name of a session is that of the first pane that has it.
pub proof fn law_session_name(panes: Seq<TreePane>, id: Seq<char>, at: int)
    ensures
        0 <= at < panes.len() && panes[at].session is Some && (panes[at].session->0).id@ == id && (
        forall|j: int|
            0 <= j < at ==> ((#[trigger] panes[j]).session is Some ==> (panes[j].session->0).id@
                != id)) ==> session_name(panes, id) == Some((panes[at].session->0).name@),
        (forall|j: int|
            0 <= j < panes.len() ==> ((#[trigger] panes[j]).session is Some ==> (
            panes[j].session->0).id@ != id)) ==> session_name(panes, id) is None,
    decreases panes.len(),
{
    if panes.len() > 0 {
        let rest = panes.drop_first();
        law_session_name(rest, id, at - 1);
        assert forall|j: int| 0 <= j < rest.len() implies #[trigger] rest[j] == panes[j + 1] by {}
        if 0 < at < panes.len() && (forall|j: int|
            0 <= j < at ==> ((#[trigger] panes[j]).session is Some ==> (panes[j].session->0).id@
                != id)) {
            assert(panes[0].session is Some ==> (panes[0].session->0).id@ != id);
            assert forall|j: int| 0 <= j < at - 1 implies ((#[trigger] rest[j]).session is Some
                ==> (rest[j].session->0).id@ != id) by {
                assert(panes[j + 1] == rest[j]);
            }
        }
        if forall|j: int|
            0 <= j < panes.len() ==> ((#[trigger] panes[j]).session is Some ==> (
            panes[j].session->0).id@ != id) {
            assert(panes[0].session is Some ==> (panes[0].session->0).id@ != id);
            assert forall|j: int| 0 <= j < rest.len() implies ((#[trigger] rest[j]).session is Some
                ==> (rest[j].session->0).id@ != id) by {
                assert(panes[j + 1] == rest[j]);
            }
        }
    }
}

/// A workspace is called after the session that it is anchored at, and by its id where that
/// session is in none of its panes or it has no anchor.
pub proof fn law_workspace_label(workspace: TreeWorkspace)
    ensures
        workspace.anchor_session_id is None ==> workspace.label() == workspace.tab_id@,
        workspace.anchor_session_id matches Some(id) ==> {
            &&& session_name(workspace.panes@, id@) is None ==> workspace.label()
                == workspace.tab_id@
            &&& session_name(workspace.panes@, id@) matches Some(name) ==> workspace.label() == name
        },
{
}

} // verus!
