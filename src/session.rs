use vstd::prelude::*;
use crate::regions::RegionError;

verus! {

/// A request that a node sends to its daemon.
#[derive(Debug)]
pub enum Request {
    Register { node_id: String },
    PrepareOutputMessage { len: usize },
    SendOutMessage { id: String },
}

/// A request of a registered node that the daemon's core state must act on.
#[derive(Debug)]
pub enum NodeEvent {
    PrepareOutputMessage { len: usize },
    SendOutMessage { id: String },
}

/// The daemon's answer to a node request.
#[derive(Debug)]
pub enum Reply {
    RegisterResult(Result<(), String>),
    PrepareOutputResult(Result<String, RegionError>),
    SendOutResult(Result<(), RegionError>),
}

/// What a session hands to the daemon's core state.
#[derive(Debug)]
pub enum DaemonEvent {
    /// A node announced itself under `node_id`.
    Register { node_id: String },
    /// A request of the registered node `id`.
    Node { id: String, event: NodeEvent },
}

/// What a session does about one request.
#[derive(Debug)]
pub enum SessionAction {
    /// Send `reply` back to the node, and pass `event` on to the core state.
    ReplyAndForward { reply: Reply, event: DaemonEvent },
    /// Pass the event on to the core state, which answers it.
    Forward(DaemonEvent),
    /// Drop the request: no reply, nothing passed on.
    Ignore,
}

/// What reading from a node's connection produced.
#[derive(Debug)]
pub enum SessionInput {
    /// The node closed the connection between two frames.
    PeerClosed,
    /// The connection ended inside a frame.
    Truncated,
    /// Reading failed for another reason; the connection may still recover.
    TransportFailed,
    /// A whole frame came, but it did not decode as a request.
    Malformed,
    Received(Request),
}

/// What the connection's loop does next.
#[derive(Debug)]
pub enum SessionStep {
    /// End this session only.
    Close,
    /// Log the problem and read on.
    Skip,
    /// Carry out the action, then read on.
    Act(SessionAction),
}

/// One node's connection: unregistered until its first `Register`.
pub struct NodeSession {
    node_id: Option<String>,
}

/// The action and the registered id that a request leads to, from registered id `id`.
pub open spec fn session_step(id: Option<String>, request: Request) -> (Option<String>, SessionAction) {
    match request {
        Request::Register { node_id } => (
            Some(node_id),
            SessionAction::ReplyAndForward {
                reply: Reply::RegisterResult(Ok(())),
                event: DaemonEvent::Register { node_id },
            },
        ),
        Request::PrepareOutputMessage { len } => match id {
            None => (id, SessionAction::Ignore),
            Some(n) => (
                id,
                SessionAction::Forward(
                    DaemonEvent::Node { id: n, event: NodeEvent::PrepareOutputMessage { len } },
                ),
            ),
        },
        Request::SendOutMessage { id: m } => match id {
            None => (id, SessionAction::Ignore),
            Some(n) => (
                id,
                SessionAction::Forward(
                    DaemonEvent::Node { id: n, event: NodeEvent::SendOutMessage { id: m } },
                ),
            ),
        },
    }
}

impl NodeSession {
    /// The id under which the node registered, if it did.
    pub closed spec fn registered_id(&self) -> Option<String> {
        self.node_id
    }

    pub fn new() -> (r: Self)
        ensures
            r.registered_id() is None,
    {
        NodeSession { node_id: None }
    }

    /// The id under which the node registered, if it did.
    pub fn node_id(&self) -> (r: Option<String>)
        ensures
            r == self.registered_id(),
    {
        match &self.node_id {
            None => None,
            Some(n) => Some(n.clone()),
        }
    }

    /// Decides what to do with one request of the node: a `Register` is answered
    /// at once and recorded; any other request is passed on tagged with the
    /// node's id, or dropped while the node has not registered.
    pub fn handle_request(&mut self, request: Request) -> (r: SessionAction)
        ensures
            (final(self).registered_id(), r) == session_step(old(self).registered_id(), request),
    {
        match request {
            Request::Register { node_id } => {
                let event = DaemonEvent::Register { node_id: node_id.clone() };
                self.node_id = Some(node_id);
                SessionAction::ReplyAndForward { reply: Reply::RegisterResult(Ok(())), event }
            },
            Request::PrepareOutputMessage { len } => match self.node_id() {
                None => SessionAction::Ignore,
                Some(n) => SessionAction::Forward(
                    DaemonEvent::Node { id: n, event: NodeEvent::PrepareOutputMessage { len } },
                ),
            },
            Request::SendOutMessage { id } => match self.node_id() {
                None => SessionAction::Ignore,
                Some(n) => SessionAction::Forward(
                    DaemonEvent::Node { id: n, event: NodeEvent::SendOutMessage { id } },
                ),
            },
        }
    }
}

impl NodeSession {
    /// Decides what one read from the connection leads to: only a clean end of
    /// the stream closes the session; a failed read, a frame cut short or an
    /// undecodable frame is skipped; a request is handled as `handle_request` says.
    pub fn step(&mut self, input: SessionInput) -> (r: SessionStep)
        ensures
            match input {
                SessionInput::PeerClosed => {
                    r is Close && final(self).registered_id() == old(self).registered_id()
                },
                SessionInput::Truncated | SessionInput::TransportFailed | SessionInput::Malformed => {
                    r is Skip && final(self).registered_id() == old(self).registered_id()
                },
                SessionInput::Received(request) => {
                    let (id, action) = session_step(old(self).registered_id(), request);
                    r == SessionStep::Act(action) && final(self).registered_id() == id
                },
            },
    {
        match input {
            SessionInput::PeerClosed => SessionStep::Close,
            SessionInput::Truncated | SessionInput::TransportFailed | SessionInput::Malformed => {
                SessionStep::Skip
            },
            SessionInput::Received(request) => SessionStep::Act(self.handle_request(request)),
        }
    }
}

/// Before any `Register`, a data request is dropped: no reply, nothing passed
/// on, and the session stays unregistered.
pub proof fn lemma_unregistered_requests_dropped(request: Request)
    requires
        !(request is Register),
    ensures
        session_step(None, request) == (None::<String>, SessionAction::Ignore),
{
}

} // verus!
