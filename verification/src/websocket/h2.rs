//! What is done with a WebSocket stream that runs over HTTP/2, once the
//! policy has spoken.

use vstd::prelude::*;
use vstd::string::StringExecFns;
use crate::acl::host_set::ProtocolInspectPolicy;
use crate::action::ProtocolInspectAction;
use crate::error::ServerTaskError;
use crate::net::host::UpstreamAddr;
use super::close_frame::{
    client_close_bytes,
    server_close_bytes,
    ClientCloseFrame,
    ServerCloseFrame,
    STATUS_GOING_AWAY,
    STATUS_INTERNAL_ERROR,
};

verus! {

/// What the inspector outside the data plane says of a flow.
#[derive(Clone, Copy, Debug, PartialEq, Eq, Structural)]
pub enum DetourAction {
    Continue,
    Bypass,
    Block,
}

/// Where a flow stands.
#[derive(Clone, Copy, Debug, PartialEq, Eq, Structural)]
pub enum BridgeState {
    /// The policy was not asked yet.
    Accepted,
    /// A stream to the outside inspector is being opened.
    OpeningDetour,
    /// The outside inspector has the context and was asked for a verdict.
    AwaitingVerdict,
    /// Bytes are passed between client and upstream.
    Transiting,
    /// Bytes are passed between client and upstream through the outside
    /// inspector.
    Relaying,
    /// Nothing more is done.
    Finished,
}

/// What happened outside since the last step.
#[derive(Clone, Copy, Debug, PartialEq, Eq, Structural)]
pub enum BridgeEvent {
    /// The flow was handed to the bridge.
    Started,
    /// The audit handle has no client for the outside inspector.
    NoDetourClient,
    /// A stream to the outside inspector is open.
    DetourOpened,
    /// Opening the stream failed.
    DetourOpenFailed,
    /// The outside inspector gave its verdict.
    DetourVerdict(DetourAction),
    /// Asking for the verdict failed.
    DetourCheckFailed,
    /// Passing bytes has ended, well or not.
    TransitEnded,
}

/// The bytes that end a stream on both sides.
#[derive(Clone, Copy, Debug, PartialEq, Eq)]
pub struct CloseFrames {
    /// Written to the upstream writer, as a client writes it.
    pub to_upstream: [u8; 8],
    /// Written to the client writer, as a server writes it.
    pub to_client: [u8; 4],
}

/// Why the bridge ends a flow on its own account.
#[derive(Clone, Copy, Debug, PartialEq, Eq, Structural)]
pub enum CloseReason {
    /// The policy, or the outside inspector, blocks the flow.
    Blocked,
    /// The outside inspector could not be reached or asked. The caller
    /// holds the cause.
    DetourFailed,
}

/// What the caller is to do next.
#[derive(Clone, Copy, Debug, PartialEq, Eq)]
pub enum BridgeAction {
    /// Ask the audit handle for its client and open a stream to the outside
    /// inspector.
    OpenDetour,
    /// Send the context with its payload and ask for the verdict.
    CheckDetour,
    /// Wrap the four halves and pass bytes between them, unchanged.
    Transit { finish_detour: bool },
    /// Wrap the four halves and pass bytes through the outside inspector.
    Relay,
    /// Write the close frames, both as last data of their stream, and end
    /// with an error.
    Close { finish_detour: bool, frames: CloseFrames, reason: CloseReason },
    /// Log how the flow ended.
    Report,
    /// The event does not belong to the state; nothing is done.
    Ignore,
}

/// The close frames for a flow that is blocked: both sides are told that
/// the peer is going away.
pub open spec fn block_frames() -> (Seq<u8>, Seq<u8>) {
    (client_close_bytes(STATUS_GOING_AWAY), server_close_bytes(STATUS_GOING_AWAY))
}

/// The close frames for a flow whose detour failed: the client is told of
/// an internal error, the upstream that the peer is going away.
pub open spec fn detour_error_frames() -> (Seq<u8>, Seq<u8>) {
    (client_close_bytes(STATUS_GOING_AWAY), server_close_bytes(STATUS_INTERNAL_ERROR))
}

/// What the bridge asks for, as values.
pub ghost enum ActionView {
    OpenDetour,
    CheckDetour,
    Transit { finish_detour: bool },
    Relay,
    Close { finish_detour: bool, to_upstream: Seq<u8>, to_client: Seq<u8>, reason: CloseReason },
    Report,
    Ignore,
}

impl View for BridgeAction {
    type V = ActionView;

    open spec fn view(&self) -> ActionView {
        match self {
            BridgeAction::OpenDetour => ActionView::OpenDetour,
            BridgeAction::CheckDetour => ActionView::CheckDetour,
            BridgeAction::Transit { finish_detour } => ActionView::Transit {
                finish_detour: *finish_detour,
            },
            BridgeAction::Relay => ActionView::Relay,
            BridgeAction::Close { finish_detour, frames, reason } => ActionView::Close {
                finish_detour: *finish_detour,
                to_upstream: frames.to_upstream@,
                to_client: frames.to_client@,
                reason: *reason,
            },
            BridgeAction::Report => ActionView::Report,
            BridgeAction::Ignore => ActionView::Ignore,
        }
    }
}

/// The action that closes a blocked flow.
pub open spec fn block_action(finish_detour: bool) -> ActionView {
    ActionView::Close {
        finish_detour,
        to_upstream: block_frames().0,
        to_client: block_frames().1,
        reason: CloseReason::Blocked,
    }
}

/// The action that closes a flow whose detour failed.
pub open spec fn detour_error_action(finish_detour: bool) -> ActionView {
    ActionView::Close {
        finish_detour,
        to_upstream: detour_error_frames().0,
        to_client: detour_error_frames().1,
        reason: CloseReason::DetourFailed,
    }
}

/// The step that the bridge takes from `state` on `event`, for a flow
/// whose destination the policy gives the action `policy`: the state it
/// goes to and what it asks for.
///
/// The policy is asked once, at the start. `Intercept` and `Bypass` pass
/// the bytes on; `Block` closes both sides; `Detour` asks the outside
/// inspector, passes the bytes on where there is none, and follows its
/// verdict where there is one. A stream to the outside inspector that was
/// opened and is not used for relaying is finished before anything else is
/// done.
pub open spec fn bridge_step(policy: ProtocolInspectAction, state: BridgeState, event: BridgeEvent)
    -> (BridgeState, ActionView) {
    match (state, event) {
        (BridgeState::Accepted, BridgeEvent::Started) => match policy {
            ProtocolInspectAction::Intercept => (
                BridgeState::Transiting,
                ActionView::Transit { finish_detour: false },
            ),
            ProtocolInspectAction::Bypass => (
                BridgeState::Transiting,
                ActionView::Transit { finish_detour: false },
            ),
            ProtocolInspectAction::Detour => (BridgeState::OpeningDetour, ActionView::OpenDetour),
            ProtocolInspectAction::Block => (BridgeState::Finished, block_action(false)),
        },
        (BridgeState::OpeningDetour, BridgeEvent::NoDetourClient) => (
            BridgeState::Transiting,
            ActionView::Transit { finish_detour: false },
        ),
        (BridgeState::OpeningDetour, BridgeEvent::DetourOpenFailed) => (
            BridgeState::Finished,
            detour_error_action(false),
        ),
        (BridgeState::OpeningDetour, BridgeEvent::DetourOpened) => (
            BridgeState::AwaitingVerdict,
            ActionView::CheckDetour,
        ),
        (BridgeState::AwaitingVerdict, BridgeEvent::DetourVerdict(DetourAction::Continue)) => (
            BridgeState::Relaying,
            ActionView::Relay,
        ),
        (BridgeState::AwaitingVerdict, BridgeEvent::DetourVerdict(DetourAction::Bypass)) => (
            BridgeState::Transiting,
            ActionView::Transit { finish_detour: true },
        ),
        (BridgeState::AwaitingVerdict, BridgeEvent::DetourVerdict(DetourAction::Block)) => (
            BridgeState::Finished,
            block_action(true),
        ),
        (BridgeState::AwaitingVerdict, BridgeEvent::DetourCheckFailed) => (
            BridgeState::Finished,
            detour_error_action(true),
        ),
        (BridgeState::Transiting, BridgeEvent::TransitEnded) => (
            BridgeState::Finished,
            ActionView::Report,
        ),
        (BridgeState::Relaying, BridgeEvent::TransitEnded) => (
            BridgeState::Finished,
            ActionView::Report,
        ),
        _ => (state, ActionView::Ignore),
    }
}

/// The frames that close a blocked flow.
pub fn do_block() -> (r: CloseFrames)
    ensures
        r.to_upstream@ == block_frames().0,
        r.to_client@ == block_frames().1,
{
    CloseFrames {
        to_upstream: ClientCloseFrame::encode_with_status_code(STATUS_GOING_AWAY),
        to_client: ServerCloseFrame::encode_with_status_code(STATUS_GOING_AWAY),
    }
}

/// The frames that close a flow whose detour failed.
pub fn close_on_detour_error() -> (r: CloseFrames)
    ensures
        r.to_upstream@ == detour_error_frames().0,
        r.to_client@ == detour_error_frames().1,
{
    CloseFrames {
        to_upstream: ClientCloseFrame::encode_with_status_code(STATUS_GOING_AWAY),
        to_client: ServerCloseFrame::encode_with_status_code(STATUS_INTERNAL_ERROR),
    }
}

/// What the error of a blocked flow says.
pub open spec fn blocked_message() -> Seq<char> {
    "websocket blocked by inspection policy"@
}

/// What the error says that a flow ends with when the bridge closes it:
/// that it was blocked, or else the cause for which the detour failed.
pub open spec fn close_message(reason: CloseReason, cause: Seq<char>) -> Seq<char> {
    match reason {
        CloseReason::Blocked => blocked_message(),
        CloseReason::DetourFailed => cause,
    }
}

/// The error that a flow ends with when the bridge closes it because it is
/// blocked.
pub fn blocked_error() -> (r: ServerTaskError)
    ensures
        r matches ServerTaskError::InternalAdapterError(m) && m@ == blocked_message(),
{
    ServerTaskError::InternalAdapterError(
        String::from_str("websocket blocked by inspection policy"),
    )
}

/// How a flow ends that the bridge has closed for `reason`: never well.
/// It ends with an error of the inspector that says why, whether or not
/// the close frames could be written; `cause` is what went wrong with the
/// detour, and counts only where that is the reason.
pub fn close_result(reason: CloseReason, cause: &str, upstream_sent: bool, client_sent: bool) -> (r:
    Result<(), ServerTaskError>)
    ensures
        r matches Err(ServerTaskError::InternalAdapterError(m)) && m@ == close_message(
            reason,
            cause@,
        ),
{
    match reason {
        CloseReason::Blocked => Err(blocked_error()),
        CloseReason::DetourFailed => Err(
            ServerTaskError::InternalAdapterError(String::from_str(cause)),
        ),
    }
}

/// How a blocked flow ends, once the close frames were handed to the two
/// writers: with the error that says it was blocked, whether or not the
/// frames could be written.
pub fn block_result(upstream_sent: bool, client_sent: bool) -> (r: Result<(), ServerTaskError>)
    ensures
        r matches Err(ServerTaskError::InternalAdapterError(m)) && m@ == blocked_message(),
{
    close_result(CloseReason::Blocked, "", upstream_sent, client_sent)
}

/// What the inspector keeps of a WebSocket stream while it decides.
pub struct H2WebsocketInterceptObject {
    policy_action: ProtocolInspectAction,
    policy_matched: bool,
    upstream: UpstreamAddr,
    state: BridgeState,
}

impl H2WebsocketInterceptObject {
    /// The action that the policy gives the destination.
    pub closed spec fn policy_action(&self) -> ProtocolInspectAction {
        self.policy_action
    }

    /// Whether a rule of the policy matched the destination.
    pub closed spec fn policy_matched(&self) -> bool {
        self.policy_matched
    }

    pub closed spec fn state(&self) -> BridgeState {
        self.state
    }

    pub closed spec fn upstream(&self) -> UpstreamAddr {
        self.upstream
    }

    /// Takes a flow to `upstream` under inspection: the policy is asked
    /// for the destination host, and nothing else is done yet.
    pub fn new(policy: &ProtocolInspectPolicy, upstream: UpstreamAddr) -> (r: Self)
        ensures
            r.policy_action() == policy.spec_check(upstream@.host).1,
            r.policy_matched() == policy.spec_check(upstream@.host).0,
            r.state() == BridgeState::Accepted,
            r.upstream() == upstream,
    {
        let (matched, action) = policy.check(upstream.host());
        H2WebsocketInterceptObject {
            policy_action: action,
            policy_matched: matched,
            upstream,
            state: BridgeState::Accepted,
        }
    }

    pub fn inspect_action(&self) -> (r: ProtocolInspectAction)
        ensures
            r == self.policy_action(),
    {
        self.policy_action
    }

    pub fn matched(&self) -> (r: bool)
        ensures
            r == self.policy_matched(),
    {
        self.policy_matched
    }

    pub fn upstream_addr(&self) -> (r: &UpstreamAddr)
        ensures
            *r == self.upstream(),
    {
        &self.upstream
    }

    pub fn finished(&self) -> (r: bool)
        ensures
            r == (self.state() == BridgeState::Finished),
    {
        matches!(self.state, BridgeState::Finished)
    }

    /// Starts the flow: the first step of the bridge.
    pub fn intercept(&mut self) -> (r: BridgeAction)
        ensures
            final(self).policy_action() == old(self).policy_action(),
            final(self).upstream() == old(self).upstream(),
            final(self).policy_matched() == old(self).policy_matched(),
            (final(self).state(), r@) == bridge_step(
                old(self).policy_action(),
                old(self).state(),
                BridgeEvent::Started,
            ),
    {
        self.step(BridgeEvent::Started)
    }

    /// The step for what the outside inspector did.
    pub fn do_detour(&mut self, event: BridgeEvent) -> (r: BridgeAction)
        ensures
            final(self).policy_action() == old(self).policy_action(),
            final(self).upstream() == old(self).upstream(),
            final(self).policy_matched() == old(self).policy_matched(),
            (final(self).state(), r@) == bridge_step(
                old(self).policy_action(),
                old(self).state(),
                event,
            ),
    {
        self.step(event)
    }

    /// Takes one step.
    pub fn step(&mut self, event: BridgeEvent) -> (r: BridgeAction)
        ensures
            final(self).policy_action() == old(self).policy_action(),
            final(self).upstream() == old(self).upstream(),
            final(self).policy_matched() == old(self).policy_matched(),
            (final(self).state(), r@) == bridge_step(
                old(self).policy_action(),
                old(self).state(),
                event,
            ),
    {
        let (next, action) = match (self.state, event) {
            (BridgeState::Accepted, BridgeEvent::Started) => match self.policy_action {
                ProtocolInspectAction::Intercept => (
                    BridgeState::Transiting,
                    BridgeAction::Transit { finish_detour: false },
                ),
                ProtocolInspectAction::Bypass => (
                    BridgeState::Transiting,
                    BridgeAction::Transit { finish_detour: false },
                ),
                ProtocolInspectAction::Detour => (
                    BridgeState::OpeningDetour,
                    BridgeAction::OpenDetour,
                ),
                ProtocolInspectAction::Block => (
                    BridgeState::Finished,
                    BridgeAction::Close {
                        finish_detour: false,
                        frames: do_block(),
                        reason: CloseReason::Blocked,
                    },
                ),
            },
            (BridgeState::OpeningDetour, BridgeEvent::NoDetourClient) => (
                BridgeState::Transiting,
                BridgeAction::Transit { finish_detour: false },
            ),
            (BridgeState::OpeningDetour, BridgeEvent::DetourOpenFailed) => (
                BridgeState::Finished,
                BridgeAction::Close {
                    finish_detour: false,
                    frames: close_on_detour_error(),
                    reason: CloseReason::DetourFailed,
                },
            ),
            (BridgeState::OpeningDetour, BridgeEvent::DetourOpened) => (
                BridgeState::AwaitingVerdict,
                BridgeAction::CheckDetour,
            ),
            (BridgeState::AwaitingVerdict, BridgeEvent::DetourVerdict(DetourAction::Continue)) => (
                BridgeState::Relaying,
                BridgeAction::Relay,
            ),
            (BridgeState::AwaitingVerdict, BridgeEvent::DetourVerdict(DetourAction::Bypass)) => (
                BridgeState::Transiting,
                BridgeAction::Transit { finish_detour: true },
            ),
            (BridgeState::AwaitingVerdict, BridgeEvent::DetourVerdict(DetourAction::Block)) => (
                BridgeState::Finished,
                BridgeAction::Close {
                    finish_detour: true,
                    frames: do_block(),
                    reason: CloseReason::Blocked,
                },
            ),
            (BridgeState::AwaitingVerdict, BridgeEvent::DetourCheckFailed) => (
                BridgeState::Finished,
                BridgeAction::Close {
                    finish_detour: true,
                    frames: close_on_detour_error(),
                    reason: CloseReason::DetourFailed,
                },
            ),
            (BridgeState::Transiting, BridgeEvent::TransitEnded) => (
                BridgeState::Finished,
                BridgeAction::Report,
            ),
            (BridgeState::Relaying, BridgeEvent::TransitEnded) => (
                BridgeState::Finished,
                BridgeAction::Report,
            ),
            (state, _) => (state, BridgeAction::Ignore),
        };
        self.state = next;
        action
    }
}

/// Whether a stream to the outside inspector is open in the given state
/// and not yet handed on or finished.
pub open spec fn detour_is_open(state: BridgeState) -> bool {
    state == BridgeState::AwaitingVerdict
}

/// A stream to the outside inspector never leaks: every step that leaves
/// the state in which it is open either relays through it or finishes it.
pub proof fn lemma_detour_is_finished(
    policy: ProtocolInspectAction,
    state: BridgeState,
    event: BridgeEvent,
)
    requires
        detour_is_open(state),
        bridge_step(policy, state, event).0 != state,
    ensures
        match bridge_step(policy, state, event).1 {
            ActionView::Relay => true,
            ActionView::Transit { finish_detour } => finish_detour,
            ActionView::Close { finish_detour, .. } => finish_detour,
            _ => false,
        },
{
}

/// A blocked flow is closed at once: the client gets the server frame
/// with status 1001, the upstream the masked frame with status 1001.
pub proof fn lemma_block_closes_both_sides()
    ensures
        bridge_step(ProtocolInspectAction::Block, BridgeState::Accepted, BridgeEvent::Started) == (
            BridgeState::Finished,
            block_action(false),
        ),
        block_frames().1 == seq![0x88u8, 0x02u8, 0x03u8, 0xe9u8],
        block_frames().0 == seq![0x88u8, 0x82u8, 0u8, 0u8, 0u8, 0u8, 0x03u8, 0xe9u8],
        detour_error_frames().1 == seq![0x88u8, 0x02u8, 0x03u8, 0xf3u8],
{
    assert(block_frames().1 =~= seq![0x88u8, 0x02u8, 0x03u8, 0xe9u8]);
    assert(block_frames().0 =~= seq![0x88u8, 0x82u8, 0u8, 0u8, 0u8, 0u8, 0x03u8, 0xe9u8]);
    assert(detour_error_frames().1 =~= seq![0x88u8, 0x02u8, 0x03u8, 0xf3u8]);
}

/// A flow that the policy blocks is closed for the reason that it is
/// blocked, and so ends with the error that says so, never well.
pub proof fn lemma_block_ends_with_error(cause: Seq<char>)
    ensures
        bridge_step(ProtocolInspectAction::Block, BridgeState::Accepted, BridgeEvent::Started).1
            matches ActionView::Close { reason, .. } && reason == CloseReason::Blocked
            && close_message(reason, cause) == blocked_message(),
{
}

/// A finished flow stays finished, and nothing is asked for it.
pub proof fn lemma_finished_is_final(policy: ProtocolInspectAction, event: BridgeEvent)
    ensures
        bridge_step(policy, BridgeState::Finished, event) == (
            BridgeState::Finished,
            ActionView::Ignore,
        ),
{
}

/// A failed detour is never answered by passing the bytes on: the flow is
/// closed.
pub proof fn lemma_no_fallback_after_detour_failure(
    policy: ProtocolInspectAction,
    state: BridgeState,
    event: BridgeEvent,
)
    requires
        event == BridgeEvent::DetourOpenFailed || event == BridgeEvent::DetourCheckFailed,
    ensures
        !(bridge_step(policy, state, event).1 is Transit),
        !(bridge_step(policy, state, event).1 is Relay),
{
}

} // verus!
