//! Moving a tab from one window to another in two phases.
//!
//! Windows run side by side and share no state. The source window first
//! prepares: it copies the tab into a request and publishes the request to
//! every window, keeping its own tab. The window that the request names
//! decides: it takes the copy into its own tab list and acknowledges, or
//! refuses and changes nothing. Only an acknowledgement that carries the
//! request's id makes the source commit, that is, remove its tab. A refusal,
//! a timeout or a failed publication roll the transfer back, which costs
//! nothing because the source never gave its tab up.
//!
//! An acknowledgement that is lost after the target took the tab leaves the
//! tab in both windows. That gap is known and accepted.

use crate::app_state::insert_position;
use crate::app_state::state_close_tab;
use crate::app_state::state_insert_tab;
use crate::app_state::state_switch_to_tab;
use crate::app_state::state_wf;
use crate::app_state::AppState;
use crate::app_state::AppStateView;
use crate::history::history_wf;
use crate::ids::random_uuid;
use crate::tabs::empty_tab;
use crate::tabs::TabSnapshot;
use crate::tabs::TabView;
use crate::text::opt_text;
use vstd::multiset::Multiset;
use vstd::prelude::*;

verus! {

/// How long the source waits for the target's answer, in seconds.
pub const TRANSFER_TIMEOUT_SECS: u64 = 3;

/// Names a live window; the address of directed messages between windows.
#[derive(Debug, Clone, Copy, PartialEq, Eq, Hash, Structural)]
pub struct WindowId(pub u64);

/// Asks the target window to take a tab.
#[derive(Debug, PartialEq)]
pub struct TabTransferRequest {
    /// Correlates the answer with this request; unique per attempt.
    pub request_id: u128,
    pub source_window_id: WindowId,
    pub target_window_id: WindowId,
    /// A deep copy of the tab, owned by the request.
    pub tab: TabSnapshot,
    /// Where the target is to insert the tab; at the end if `None`.
    pub target_index: Option<usize>,
    pub source_directory: Option<String>,
}

/// A request as mathematics.
pub ghost struct TabTransferRequestView {
    pub request_id: u128,
    pub source_window_id: WindowId,
    pub target_window_id: WindowId,
    pub tab: TabView,
    pub target_index: Option<usize>,
    pub source_directory: Option<Seq<char>>,
}

impl View for TabTransferRequest {
    type V = TabTransferRequestView;

    open spec fn view(&self) -> TabTransferRequestView {
        TabTransferRequestView {
            request_id: self.request_id,
            source_window_id: self.source_window_id,
            target_window_id: self.target_window_id,
            tab: self.tab@,
            target_index: self.target_index,
            source_directory: opt_text(self.source_directory),
        }
    }
}

impl Clone for TabTransferRequest {
    fn clone(&self) -> (copy: Self)
        ensures
            copy@ == self@,
    {
        TabTransferRequest {
            request_id: self.request_id,
            source_window_id: self.source_window_id,
            target_window_id: self.target_window_id,
            tab: self.tab.clone(),
            target_index: self.target_index,
            source_directory: match &self.source_directory {
                Some(directory) => Some(directory.clone()),
                None => None,
            },
        }
    }
}

/// The target's answer to a request.
#[derive(Debug, PartialEq)]
pub enum TabTransferResponse {
    /// The target took the tab.
    Ack { request_id: u128, source_window_id: WindowId },
    /// The target refused and changed nothing.
    Nack { request_id: u128, source_window_id: WindowId, reason: String },
}

/// An answer as mathematics.
pub ghost enum TabTransferResponseView {
    Ack { request_id: u128, source_window_id: WindowId },
    Nack { request_id: u128, source_window_id: WindowId, reason: Seq<char> },
}

impl View for TabTransferResponse {
    type V = TabTransferResponseView;

    open spec fn view(&self) -> TabTransferResponseView {
        match self {
            TabTransferResponse::Ack { request_id, source_window_id } => TabTransferResponseView::Ack {
                request_id: *request_id,
                source_window_id: *source_window_id,
            },
            TabTransferResponse::Nack {
                request_id,
                source_window_id,
                reason,
            } => TabTransferResponseView::Nack {
                request_id: *request_id,
                source_window_id: *source_window_id,
                reason: reason@,
            },
        }
    }
}

impl Clone for TabTransferResponse {
    fn clone(&self) -> (copy: Self)
        ensures
            copy@ == self@,
    {
        match self {
            TabTransferResponse::Ack { request_id, source_window_id } => TabTransferResponse::Ack {
                request_id: *request_id,
                source_window_id: *source_window_id,
            },
            TabTransferResponse::Nack {
                request_id,
                source_window_id,
                reason,
            } => TabTransferResponse::Nack {
                request_id: *request_id,
                source_window_id: *source_window_id,
                reason: reason.clone(),
            },
        }
    }
}

impl TabTransferResponse {
    /// The id of the request that this answers.
    pub fn request_id(&self) -> (id: u128)
        ensures
            id == response_id(self@),
    {
        match self {
            TabTransferResponse::Ack { request_id, .. } => *request_id,
            TabTransferResponse::Nack { request_id, .. } => *request_id,
        }
    }
}

/// The id of the request that an answer belongs to.
pub open spec fn response_id(response: TabTransferResponseView) -> u128 {
    match response {
        TabTransferResponseView::Ack { request_id, .. } => request_id,
        TabTransferResponseView::Nack { request_id, .. } => request_id,
    }
}

/// Where a transfer stands, as seen by the source.
#[derive(Debug, Clone, Copy, PartialEq, Eq, Structural)]
pub enum TransactionState {
    /// The request is out; no matching answer has come yet.
    Pending,
    /// The target acknowledged; the source removed its tab.
    Committed,
    /// The target refused, or nothing came in time; the source kept its tab.
    RolledBack,
}

/// What the source does, in this order, to start a transfer.
#[derive(Debug, Clone, Copy, PartialEq, Eq, Structural)]
pub enum SourceAction {
    /// Start listening for answers.
    SubscribeToResponses,
    /// Publish the request to all windows.
    PublishRequest,
    /// Start the timer that bounds the wait, with its length in seconds.
    StartTimeout(u64),
}

/// What can happen to a transfer that the source waits on.
#[derive(Debug, PartialEq)]
pub enum TransferEvent {
    /// The request could not be published.
    PublishFailed,
    /// Some window answered some request.
    Response(TabTransferResponse),
    /// The wait is over.
    Timeout,
}

/// An event as mathematics.
pub ghost enum TransferEventView {
    PublishFailed,
    Response(TabTransferResponseView),
    Timeout,
}

impl View for TransferEvent {
    type V = TransferEventView;

    open spec fn view(&self) -> TransferEventView {
        match self {
            TransferEvent::PublishFailed => TransferEventView::PublishFailed,
            TransferEvent::Response(response) => TransferEventView::Response(response@),
            TransferEvent::Timeout => TransferEventView::Timeout,
        }
    }
}

/// The source's record of one transfer attempt.
#[derive(Debug, Clone, Copy, PartialEq, Eq, Structural)]
pub struct TabTransfer {
    /// The id of the request that was published.
    pub request_id: u128,
    /// The position of the tab in the source window when the transfer began.
    pub tab_index: usize,
    pub state: TransactionState,
}

/// The state of a transfer after an event. A transfer that is no longer
/// pending stays as it is. A pending transfer is committed by an
/// acknowledgement with its id, rolled back by a refusal with its id, by the
/// timeout and by a failed publication, and left pending by any answer with
/// another id.
pub open spec fn next_state(transfer: TabTransfer, event: TransferEventView) -> TransactionState {
    if transfer.state != TransactionState::Pending {
        transfer.state
    } else {
        match event {
            TransferEventView::PublishFailed => TransactionState::RolledBack,
            TransferEventView::Timeout => TransactionState::RolledBack,
            TransferEventView::Response(TabTransferResponseView::Ack { request_id, .. }) => {
                if request_id == transfer.request_id {
                    TransactionState::Committed
                } else {
                    TransactionState::Pending
                }
            },
            TransferEventView::Response(TabTransferResponseView::Nack { request_id, .. }) => {
                if request_id == transfer.request_id {
                    TransactionState::RolledBack
                } else {
                    TransactionState::Pending
                }
            },
        }
    }
}

/// Whether the event makes the transfer commit.
pub open spec fn commits(transfer: TabTransfer, event: TransferEventView) -> bool {
    transfer.state == TransactionState::Pending && next_state(transfer, event)
        == TransactionState::Committed
}

/// The source window after an event: its tab is closed when the transfer
/// commits, and nothing changes otherwise.
pub open spec fn source_after(
    source: AppStateView,
    transfer: TabTransfer,
    event: TransferEventView,
) -> AppStateView {
    if commits(transfer, event) {
        state_close_tab(source, transfer.tab_index as int)
    } else {
        source
    }
}

/// The request that the source publishes for the tab at `index`.
pub open spec fn prepared_request(
    source: AppStateView,
    index: int,
    source_window_id: WindowId,
    target_window_id: WindowId,
    target_index: Option<usize>,
    request_id: u128,
) -> TabTransferRequestView {
    TabTransferRequestView {
        request_id,
        source_window_id,
        target_window_id,
        tab: source.tabs[index],
        target_index,
        source_directory: source.directory,
    }
}

/// Whether the window `me` is the one that the request names.
pub open spec fn addressed_to(request: TabTransferRequestView, me: WindowId) -> bool {
    request.target_window_id == me
}

/// Whether the window `me`, being visible or not, takes the tab of the
/// request.
pub open spec fn accepts(request: TabTransferRequestView, me: WindowId, visible: bool) -> bool {
    addressed_to(request, me) && visible
}

/// Where the target inserts the tab: at the index asked for, or at the end
/// where none is asked for or where it lies beyond the end.
pub open spec fn accept_position(target: AppStateView, request: TabTransferRequestView) -> int {
    match request.target_index {
        Some(index) => insert_position(target, index as int),
        None => target.tabs.len() as int,
    }
}

/// The target after it took the tab: the tab is inserted and is the active
/// tab.
pub open spec fn state_accept(target: AppStateView, request: TabTransferRequestView) -> AppStateView {
    let at = accept_position(target, request);
    state_switch_to_tab(state_insert_tab(target, request.tab, at), at)
}

/// A window after it saw a request: changed only if it takes the tab.
pub open spec fn target_after(
    target: AppStateView,
    me: WindowId,
    visible: bool,
    request: TabTransferRequestView,
) -> AppStateView {
    if accepts(request, me, visible) {
        state_accept(target, request)
    } else {
        target
    }
}

/// What a window answers to a request: nothing if the request names another
/// window, an acknowledgement if it takes the tab, a refusal otherwise. The
/// answer carries the request's id and names the source.
pub open spec fn target_response(
    me: WindowId,
    visible: bool,
    request: TabTransferRequestView,
) -> Option<TabTransferResponseView> {
    if !addressed_to(request, me) {
        None
    } else if visible {
        Some(
            TabTransferResponseView::Ack {
                request_id: request.request_id,
                source_window_id: request.source_window_id,
            },
        )
    } else {
        Some(
            TabTransferResponseView::Nack {
                request_id: request.request_id,
                source_window_id: request.source_window_id,
                reason: "Window is not ready to accept tabs"@,
            },
        )
    }
}

/// The steps with which a source starts a transfer: it listens for answers
/// before it publishes the request, so that no answer can slip past, and it
/// starts the timeout last.
pub fn opening_actions() -> (actions: Vec<SourceAction>)
    ensures
        actions@ == seq![
            SourceAction::SubscribeToResponses,
            SourceAction::PublishRequest,
            SourceAction::StartTimeout(TRANSFER_TIMEOUT_SECS),
        ],
{
    let mut actions: Vec<SourceAction> = Vec::new();
    actions.push(SourceAction::SubscribeToResponses);
    actions.push(SourceAction::PublishRequest);
    actions.push(SourceAction::StartTimeout(TRANSFER_TIMEOUT_SECS));
    actions
}

/// Prepares the transfer of the tab at `index` under the given request id.
/// The request holds a deep copy of the tab; the source window is not
/// changed. Returns `None` where the window has no tab at `index`.
pub fn prepare_transfer(
    source: &AppState,
    index: usize,
    source_window_id: WindowId,
    target_window_id: WindowId,
    target_index: Option<usize>,
    request_id: u128,
) -> (prepared: Option<(TabTransferRequest, TabTransfer)>)
    ensures
        prepared is Some <==> index < source@.tabs.len(),
        prepared matches Some((request, transfer)) ==> {
            &&& request@ == prepared_request(
                source@,
                index as int,
                source_window_id,
                target_window_id,
                target_index,
                request_id,
            )
            &&& transfer == (TabTransfer {
                request_id,
                tab_index: index,
                state: TransactionState::Pending,
            })
        },
{
    match source.get_tab(index) {
        Some(tab) => {
            let request = TabTransferRequest {
                request_id,
                source_window_id,
                target_window_id,
                tab,
                target_index,
                source_directory: match &source.directory {
                    Some(directory) => Some(directory.clone()),
                    None => None,
                },
            };
            let transfer = TabTransfer { request_id, tab_index: index, state: TransactionState::Pending };
            Some((request, transfer))
        },
        None => None,
    }
}

/// Prepares the transfer of the tab at `index` under a freshly drawn request
/// id. Whatever id is drawn, the request and the source's record carry the
/// same one, and everything else is as `prepare_transfer` says.
pub fn begin_transfer(
    source: &AppState,
    index: usize,
    source_window_id: WindowId,
    target_window_id: WindowId,
    target_index: Option<usize>,
) -> (prepared: Option<(TabTransferRequest, TabTransfer)>)
    ensures
        prepared is Some <==> index < source@.tabs.len(),
        prepared matches Some((request, transfer)) ==> {
            &&& request@ == prepared_request(
                source@,
                index as int,
                source_window_id,
                target_window_id,
                target_index,
                transfer.request_id,
            )
            &&& transfer.tab_index == index
            &&& transfer.state == TransactionState::Pending
        },
{
    let request_id = random_uuid();
    prepare_transfer(source, index, source_window_id, target_window_id, target_index, request_id)
}

impl TabTransfer {
    /// Whether the transfer has ended, by commit or by rollback.
    pub fn is_terminal(&self) -> (terminal: bool)
        ensures
            terminal == (self.state != TransactionState::Pending),
    {
        match self.state {
            TransactionState::Pending => false,
            _ => true,
        }
    }

    /// Lets the transfer and the source window react to an event, and returns
    /// the transfer's state afterwards. The source's tab is closed exactly
    /// when this event commits the transfer; the source is untouched by every
    /// other event, and by every event once the transfer has ended.
    pub fn step(&mut self, source: &mut AppState, event: &TransferEvent) -> (state: TransactionState)
        ensures
            state == next_state(*old(self), event@),
            *final(self) == (TabTransfer { state, ..*old(self) }),
            final(source)@ == source_after(old(source)@, *old(self), event@),
            old(source).wf() ==> final(source).wf(),
    {
        if self.is_terminal() {
            return self.state;
        }
        match event {
            TransferEvent::PublishFailed => {
                self.state = TransactionState::RolledBack;
            },
            TransferEvent::Timeout => {
                self.state = TransactionState::RolledBack;
            },
            TransferEvent::Response(response) => {
                match response {
                    TabTransferResponse::Ack { request_id, .. } => {
                        if *request_id == self.request_id {
                            source.close_tab(self.tab_index);
                            self.state = TransactionState::Committed;
                        }
                    },
                    TabTransferResponse::Nack { request_id, .. } => {
                        if *request_id == self.request_id {
                            self.state = TransactionState::RolledBack;
                        }
                    },
                }
            },
        }
        self.state
    }
}

/// Lets a window react to a request that was published. A request that
/// names another window is ignored. The window named takes the tab if it is
/// visible: it inserts the copy at the index asked for, or at the end, makes
/// it the active tab and acknowledges. Otherwise it refuses with a reason and
/// changes nothing.
pub fn handle_transfer_request(
    target: &mut AppState,
    current_window_id: WindowId,
    visible: bool,
    request: &TabTransferRequest,
) -> (response: Option<TabTransferResponse>)
    ensures
        final(target)@ == target_after(old(target)@, current_window_id, visible, request@),
        match response {
            Some(r) => target_response(current_window_id, visible, request@) == Some(r@),
            None => target_response(current_window_id, visible, request@) is None,
        },
        old(target).wf() && request.tab.wf() ==> final(target).wf(),
{
    if request.target_window_id != current_window_id {
        return None;
    }
    if visible {
        let index = match request.target_index {
            Some(index) => index,
            None => target.tabs.len(),
        };
        let insert_index = target.insert_tab(request.tab.clone(), index);
        target.switch_to_tab(insert_index);
        Some(
            TabTransferResponse::Ack {
                request_id: request.request_id,
                source_window_id: request.source_window_id,
            },
        )
    } else {
        Some(
            TabTransferResponse::Nack {
                request_id: request.request_id,
                source_window_id: request.source_window_id,
                reason: "Window is not ready to accept tabs".to_owned(),
            },
        )
    }
}

/// The transfer and the source window after a sequence of events, in order.
pub open spec fn replay(
    transfer: TabTransfer,
    source: AppStateView,
    events: Seq<TransferEventView>,
) -> (TabTransfer, AppStateView)
    decreases events.len(),
{
    if events.len() == 0 {
        (transfer, source)
    } else {
        let (t, s) = replay(transfer, source, events.drop_last());
        (
            TabTransfer { state: next_state(t, events.last()), ..t },
            source_after(s, t, events.last()),
        )
    }
}

/// A transfer that the target acknowledges moves the tab. Let a source
/// prepare the transfer of its tab at `index`, let the window named by the
/// request be visible when it sees the request, and let its acknowledgement
/// reach the source while the transfer is pending. Then the transfer is
/// committed; the target's list is its old list with the tab inserted at the
/// place asked for, one longer than before, and the tab is its active tab;
/// and the source's list is its old list without the entry at `index`, or a
/// single empty tab where that entry was its only one.
pub proof fn lemma_acknowledged_transfer_moves_tab(
    source: AppStateView,
    target: AppStateView,
    index: usize,
    source_window_id: WindowId,
    target_window_id: WindowId,
    target_index: Option<usize>,
    request_id: u128,
)
    requires
        index < source.tabs.len(),
    ensures
        ({
            let request = prepared_request(
                source,
                index as int,
                source_window_id,
                target_window_id,
                target_index,
                request_id,
            );
            let transfer = TabTransfer { request_id, tab_index: index, state: TransactionState::Pending };
            let answer = target_response(target_window_id, true, request);
            let target_then = target_after(target, target_window_id, true, request);
            let event = TransferEventView::Response(answer.unwrap());
            let source_then = source_after(source, transfer, event);
            &&& answer == Some(
                TabTransferResponseView::Ack { request_id, source_window_id },
            )
            &&& next_state(transfer, event) == TransactionState::Committed
            &&& target_then.tabs == target.tabs.insert(
                accept_position(target, request),
                source.tabs[index as int],
            )
            &&& target_then.tabs.len() == target.tabs.len() + 1
            &&& target_then.tabs.contains(source.tabs[index as int])
            &&& target_then.active_tab == accept_position(target, request)
            &&& target_then.tabs[target_then.active_tab] == source.tabs[index as int]
            &&& source_then == state_close_tab(source, index as int)
            &&& source_then.tabs == (if source.tabs.len() == 1 {
                seq![empty_tab()]
            } else {
                source.tabs.remove(index as int)
            })
        }),
{
    let request = prepared_request(
        source,
        index as int,
        source_window_id,
        target_window_id,
        target_index,
        request_id,
    );
    let at = accept_position(target, request);
    let target_then = target_after(target, target_window_id, true, request);
    assert(0 <= at <= target.tabs.len());
    assert(target_then.tabs[at] == source.tabs[index as int]);
    if source.tabs.len() == 1 {
        assert(source.tabs.remove(index as int).len() == 0);
    }
}

/// After an acknowledged transfer the tab is no longer in the source's list,
/// provided that the source held no second tab equal to it, and that the tab
/// is not an empty tab that was the source's only one (the empty tab that
/// keeps the window open would equal it).
pub proof fn lemma_committed_tab_leaves_source(
    source: AppStateView,
    index: usize,
    request_id: u128,
    source_window_id: WindowId,
)
    requires
        index < source.tabs.len(),
        forall|j: int| 0 <= j < source.tabs.len() && j != index ==> source.tabs[j] != source.tabs[index as int],
        source.tabs.len() > 1 || source.tabs[index as int] != empty_tab(),
    ensures
        ({
            let transfer = TabTransfer { request_id, tab_index: index, state: TransactionState::Pending };
            let event = TransferEventView::Response(
                TabTransferResponseView::Ack { request_id, source_window_id },
            );
            !source_after(source, transfer, event).tabs.contains(source.tabs[index as int])
        }),
{
    let transfer = TabTransfer { request_id, tab_index: index, state: TransactionState::Pending };
    let event = TransferEventView::Response(
        TabTransferResponseView::Ack { request_id, source_window_id },
    );
    let tab = source.tabs[index as int];
    let then = source_after(source, transfer, event);
    if then.tabs.contains(tab) {
        let k = choose|k: int| 0 <= k < then.tabs.len() && then.tabs[k] == tab;
        if source.tabs.len() > 1 {
            let removed = source.tabs.remove(index as int);
            assert(then.tabs == removed);
            if k < index {
                assert(removed[k] == source.tabs[k]);
            } else {
                assert(removed[k] == source.tabs[k + 1]);
            }
        } else {
            assert(source.tabs.remove(index as int).len() == 0);
            assert(then.tabs == seq![empty_tab()]);
            assert(then.tabs[k] == empty_tab());
        }
    }
}

/// A transfer that is not acknowledged leaves both windows as they were. Let
/// a source prepare the transfer of its tab at `index`, and let the window
/// `me` see the request without taking the tab, because the request names
/// another window or because `me` is not visible. If the source then sees the
/// timeout, or the refusal that `me` sent, the transfer is rolled back, the
/// source's state is unchanged with the tab still at `index`, and the state
/// of `me` is unchanged, so that the tab is absent from its list if it was
/// absent before.
pub proof fn lemma_unacknowledged_transfer_keeps_tab(
    source: AppStateView,
    target: AppStateView,
    index: usize,
    source_window_id: WindowId,
    target_window_id: WindowId,
    target_index: Option<usize>,
    request_id: u128,
    me: WindowId,
    visible: bool,
    event: TransferEventView,
)
    requires
        index < source.tabs.len(),
        !accepts(
            prepared_request(
                source,
                index as int,
                source_window_id,
                target_window_id,
                target_index,
                request_id,
            ),
            me,
            visible,
        ),
        event is Timeout || (event matches TransferEventView::Response(answer) && Some(answer)
            == target_response(
            me,
            visible,
            prepared_request(
                source,
                index as int,
                source_window_id,
                target_window_id,
                target_index,
                request_id,
            ),
        )),
    ensures
        ({
            let request = prepared_request(
                source,
                index as int,
                source_window_id,
                target_window_id,
                target_index,
                request_id,
            );
            let transfer = TabTransfer { request_id, tab_index: index, state: TransactionState::Pending };
            let source_then = source_after(source, transfer, event);
            let target_then = target_after(target, me, visible, request);
            &&& next_state(transfer, event) == TransactionState::RolledBack
            &&& source_then == source
            &&& source_then.tabs[index as int] == request.tab
            &&& target_then == target
            &&& !target.tabs.contains(request.tab) ==> !target_then.tabs.contains(request.tab)
        }),
{
}

/// An answer that carries another request's id is ignored: the transfer
/// stays as it is and the source is not touched.
pub proof fn lemma_unrelated_response_is_ignored(
    transfer: TabTransfer,
    source: AppStateView,
    answer: TabTransferResponseView,
)
    requires
        response_id(answer) != transfer.request_id,
    ensures
        next_state(transfer, TransferEventView::Response(answer)) == transfer.state,
        source_after(source, transfer, TransferEventView::Response(answer)) == source,
{
}

/// A transfer that has ended never resumes: whatever events follow, it keeps
/// its state and the source is not touched again.
pub proof fn lemma_ended_transfer_stays_ended(
    transfer: TabTransfer,
    source: AppStateView,
    events: Seq<TransferEventView>,
)
    requires
        transfer.state != TransactionState::Pending,
    ensures
        replay(transfer, source, events) == (transfer, source),
    decreases events.len(),
{
    if events.len() > 0 {
        lemma_ended_transfer_stays_ended(transfer, source, events.drop_last());
    }
}

/// Whatever events reach a pending transfer, the source's tab is removed at
/// most once, and exactly if the transfer ends committed: the source is
/// either as it was, or as it was with the tab at the transfer's index
/// closed.
pub proof fn lemma_tab_is_removed_at_most_once(
    transfer: TabTransfer,
    source: AppStateView,
    events: Seq<TransferEventView>,
)
    requires
        transfer.state == TransactionState::Pending,
    ensures
        ({
            let (ended, then) = replay(transfer, source, events);
            &&& ended.request_id == transfer.request_id
            &&& ended.tab_index == transfer.tab_index
            &&& then == (if ended.state == TransactionState::Committed {
                state_close_tab(source, transfer.tab_index as int)
            } else {
                source
            })
        }),
    decreases events.len(),
{
    if events.len() > 0 {
        lemma_tab_is_removed_at_most_once(transfer, source, events.drop_last());
    }
}

/// Both windows stay well formed through a transfer, whatever its outcome.
pub proof fn lemma_transfer_keeps_windows_well_formed(
    source: AppStateView,
    target: AppStateView,
    transfer: TabTransfer,
    request: TabTransferRequestView,
    me: WindowId,
    visible: bool,
    event: TransferEventView,
)
    requires
        state_wf(source),
        state_wf(target),
        history_wf(request.tab.history),
    ensures
        state_wf(source_after(source, transfer, event)),
        state_wf(target_after(target, me, visible, request)),
{
    let index = transfer.tab_index as int;
    if commits(transfer, event) && 0 <= index < source.tabs.len() {
        let removed = source.tabs.remove(index);
        assert forall|i: int| 0 <= i < removed.len() implies history_wf(
            (#[trigger] removed[i]).history,
        ) by {
            if i < index {
                assert(removed[i] == source.tabs[i]);
            } else {
                assert(removed[i] == source.tabs[i + 1]);
            }
        }
        if removed.len() == 0 {
            assert(seq![empty_tab()][0] == empty_tab());
        }
    }
    if accepts(request, me, visible) {
        let at = accept_position(target, request);
        let inserted = target.tabs.insert(at, request.tab);
        assert forall|i: int| 0 <= i < inserted.len() implies history_wf(
            (#[trigger] inserted[i]).history,
        ) by {
            if i < at {
                assert(inserted[i] == target.tabs[i]);
            } else if i > at {
                assert(inserted[i] == target.tabs[i - 1]);
            }
        }
    }
}

/// A request is seen by every window, but only the window it names reacts:
/// any other window stays as it was and sends no answer.
pub proof fn lemma_only_the_named_window_reacts(
    window: AppStateView,
    me: WindowId,
    visible: bool,
    request: TabTransferRequestView,
)
    requires
        me != request.target_window_id,
    ensures
        target_after(window, me, visible, request) == window,
        target_response(me, visible, request) is None,
{
}

/// The tabs of two windows taken together, each as often as it occurs.
pub open spec fn tabs_of_both(a: AppStateView, b: AppStateView) -> Multiset<TabView> {
    a.tabs.to_multiset().add(b.tabs.to_multiset())
}

/// An acknowledged transfer neither makes a tab nor loses one: the tabs of
/// source and target taken together are the same before and after, except
/// that a source that gave its only tab away holds one empty tab more, which
/// keeps its window open.
pub proof fn lemma_acknowledged_transfer_conserves_tabs(
    source: AppStateView,
    target: AppStateView,
    index: usize,
    source_window_id: WindowId,
    target_window_id: WindowId,
    target_index: Option<usize>,
    request_id: u128,
)
    requires
        index < source.tabs.len(),
    ensures
        ({
            let request = prepared_request(
                source,
                index as int,
                source_window_id,
                target_window_id,
                target_index,
                request_id,
            );
            let transfer = TabTransfer { request_id, tab_index: index, state: TransactionState::Pending };
            let event = TransferEventView::Response(
                TabTransferResponseView::Ack { request_id, source_window_id },
            );
            let source_then = source_after(source, transfer, event);
            let target_then = target_after(target, target_window_id, true, request);
            tabs_of_both(source_then, target_then) == (if source.tabs.len() == 1 {
                tabs_of_both(source, target).insert(empty_tab())
            } else {
                tabs_of_both(source, target)
            })
        }),
{
    broadcast use vstd::seq_lib::group_to_multiset_ensures;
    broadcast use vstd::multiset::group_multiset_axioms;

    let request = prepared_request(
        source,
        index as int,
        source_window_id,
        target_window_id,
        target_index,
        request_id,
    );
    let tab = source.tabs[index as int];
    let at = accept_position(target, request);
    let transfer = TabTransfer { request_id, tab_index: index, state: TransactionState::Pending };
    let event = TransferEventView::Response(
        TabTransferResponseView::Ack { request_id, source_window_id },
    );
    let source_then = source_after(source, transfer, event);
    let target_then = target_after(target, target_window_id, true, request);
    assert(0 <= at <= target.tabs.len());
    assert(target_then.tabs == target.tabs.insert(at, tab));
    assert(target_then.tabs.to_multiset() == target.tabs.to_multiset().insert(tab));
    let removed = source.tabs.remove(index as int);
    assert(removed.to_multiset() == source.tabs.to_multiset().remove(tab));
    assert(source.tabs.to_multiset().count(tab) > 0);
    if source.tabs.len() == 1 {
        assert(removed.len() == 0);
        assert(source_then.tabs == seq![empty_tab()]);
        assert(seq![empty_tab()] =~= Seq::<TabView>::empty().push(empty_tab()));
        assert(removed =~= Seq::<TabView>::empty());
        assert(tabs_of_both(source_then, target_then) =~= tabs_of_both(source, target).insert(
            empty_tab(),
        ));
    } else {
        assert(source_then.tabs == removed);
        assert(tabs_of_both(source_then, target_then) =~= tabs_of_both(source, target));
    }
}

} // verus!
