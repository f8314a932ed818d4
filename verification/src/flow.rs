//! The proxy's per-connection decisions: gathering a request head from the
//! client, and what to do after each read, connect and forward attempt.
//! The caller performs the I/O and reports what happened.

use vstd::prelude::*;
use crate::proxy::{
    parse_request, request_result_view, spec_parse_request, ParsedRequest, ParsedRequestView,
    ProxyError, ProxyErrorView,
};
use crate::text::contains_seq;

verus! {

/// Largest request head the proxy accepts, in bytes.
pub const MAX_REQUEST_BYTES: usize = 8192;

/// The blank line `\r\n\r\n` that ends a request head.
pub open spec fn head_end() -> Seq<u8> {
    seq![13u8, 10u8, 13u8, 10u8]
}

/// Whether `b` holds a complete request head.
pub open spec fn has_head_end(b: Seq<u8>) -> bool {
    contains_seq(b, head_end())
}

/// Whether `b` holds the blank line that ends a request head.
pub fn contains_head_end(b: &Vec<u8>) -> (r: bool)
    ensures
        r == has_head_end(b@),
{
    if b.len() < 4 {
        return false;
    }
    let n = b.len();
    let last = n - 4;
    let mut i: usize = 0;
    while i <= last
        invariant
            n == b@.len(),
            last + 4 == b@.len(),
            i <= last + 1,
            forall|j: int| 0 <= j < i ==> #[trigger] b@.subrange(j, j + 4) != head_end(),
        decreases last + 1 - i,
    {
        if b[i] == 13 && b[i + 1] == 10 && b[i + 2] == 13 && b[i + 3] == 10 {
            assert(b@.subrange(i as int, i + 4) =~= head_end());
            return true;
        }
        assert(b@.subrange(i as int, i + 4)[0] == b@[i as int]);
        assert(b@.subrange(i as int, i + 4)[1] == b@[i + 1]);
        assert(b@.subrange(i as int, i + 4)[2] == b@[i + 2]);
        assert(b@.subrange(i as int, i + 4)[3] == b@[i + 3]);
        if i == last {
            assert(forall|j: int| 0 <= j < i + 1 ==> #[trigger] b@.subrange(j, j + 4) != head_end());
            return false;
        }
        i = i + 1;
    }
    false
}

/// What one read brought the request head.
#[derive(Debug)]
pub enum ReadStep {
    /// The head is not complete yet: read again.
    NeedMore,
    /// The head is complete; these are all the bytes read for it.
    Complete(Vec<u8>),
    /// The client closed the connection before sending anything.
    Closed,
    /// The request cannot be read.
    Failed(ProxyError),
}

pub enum ReadStepView {
    NeedMore,
    Complete(Seq<u8>),
    Closed,
    Failed(ProxyErrorView),
}

impl View for ReadStep {
    type V = ReadStepView;

    open spec fn view(&self) -> ReadStepView {
        match self {
            ReadStep::NeedMore => ReadStepView::NeedMore,
            ReadStep::Complete(b) => ReadStepView::Complete(b@),
            ReadStep::Closed => ReadStepView::Closed,
            ReadStep::Failed(e) => ReadStepView::Failed(e@),
        }
    }
}

/// What the reader makes of `chunk`, having gathered `data` so far; an empty
/// chunk means that the client closed its side.
pub open spec fn spec_accept(data: Seq<u8>, chunk: Seq<u8>) -> ReadStepView {
    if chunk.len() == 0 {
        if data.len() == 0 {
            ReadStepView::Closed
        } else {
            ReadStepView::Failed(
                ProxyErrorView::BadRequest("connection closed before complete request"@),
            )
        }
    } else if has_head_end(data + chunk) {
        ReadStepView::Complete(data + chunk)
    } else if data.len() + chunk.len() >= MAX_REQUEST_BYTES {
        ReadStepView::Failed(ProxyErrorView::BadRequest("request too large"@))
    } else {
        ReadStepView::NeedMore
    }
}

/// A read never hands on more than the limit: a head that is handed on is
/// complete and is exactly what was read for it, and a reader that waits
/// for more holds no complete head and stays under the limit.
pub proof fn law_accept_bounds(data: Seq<u8>, chunk: Seq<u8>)
    requires
        data.len() + chunk.len() <= MAX_REQUEST_BYTES,
    ensures
        spec_accept(data, chunk) matches ReadStepView::Complete(b) ==> b == data + chunk
            && has_head_end(b) && b.len() <= MAX_REQUEST_BYTES,
        spec_accept(data, chunk) is NeedMore ==> !has_head_end(data + chunk) && (data
            + chunk).len() < MAX_REQUEST_BYTES,
        spec_accept(data, chunk) is Closed ==> data.len() == 0 && chunk.len() == 0,
{
}

/// As soon as the bytes read hold the blank line `\r\n\r\n` anywhere,
/// the head is complete and everything read so far is handed on, whatever
/// follows the blank line in the same read (a body, or a pipelined request).
pub proof fn law_complete_head(data: Seq<u8>, chunk: Seq<u8>, i: int)
    requires
        chunk.len() > 0,
        0 <= i,
        i + 4 <= (data + chunk).len(),
        (data + chunk)[i] == 13,
        (data + chunk)[i + 1] == 10,
        (data + chunk)[i + 2] == 13,
        (data + chunk)[i + 3] == 10,
    ensures
        spec_accept(data, chunk) == ReadStepView::Complete(data + chunk),
{
    let b = data + chunk;
    assert(b.subrange(i, i + 4) =~= head_end());
    assert(has_head_end(b));
}

/// Gathers the bytes of one request head from the client.
#[derive(Debug)]
pub struct RequestReader {
    data: Vec<u8>,
}

impl View for RequestReader {
    type V = Seq<u8>;

    closed spec fn view(&self) -> Seq<u8> {
        self.data@
    }
}

impl RequestReader {
    /// What has been gathered stays short of the limit and holds no
    /// complete head.
    #[verifier::type_invariant]
    closed spec fn inv(&self) -> bool {
        self.data@.len() < MAX_REQUEST_BYTES && !has_head_end(self.data@)
    }

    /// A reader that has gathered nothing.
    pub fn new() -> (r: Self)
        ensures
            r@ == Seq::<u8>::empty(),
    {
        let r = RequestReader { data: Vec::new() };
        assert(!has_head_end(r.data@));
        r
    }

    /// How many more bytes the next read may bring.
    pub fn room(&self) -> (r: usize)
        ensures
            r == MAX_REQUEST_BYTES - self@.len(),
            r > 0,
    {
        proof {
            use_type_invariant(self);
        }
        MAX_REQUEST_BYTES - self.data.len()
    }

    /// Takes the bytes of one read (none when the client closed its side).
    /// After any step but `NeedMore` the reader is empty again, ready for
    /// the next request.
    pub fn accept(&mut self, chunk: &[u8]) -> (r: ReadStep)
        requires
            chunk@.len() <= MAX_REQUEST_BYTES - old(self)@.len(),
        ensures
            r@ == spec_accept(old(self)@, chunk@),
            final(self)@ == (if r is NeedMore {
                old(self)@ + chunk@
            } else {
                Seq::<u8>::empty()
            }),
    {
        proof {
            use_type_invariant(&*self);
        }
        if chunk.len() == 0 {
            if self.data.len() == 0 {
                return ReadStep::Closed;
            }
            self.data = Vec::new();
            return ReadStep::Failed(
                ProxyError::BadRequest(String::from_str("connection closed before complete request")),
            );
        }
        let mut all = Vec::new();
        std::mem::swap(&mut all, &mut self.data);
        let ghost before = all@;
        let mut i: usize = 0;
        while i < chunk.len()
            invariant
                i <= chunk@.len(),
                all@ == before + chunk@.subrange(0, i as int),
            decreases chunk@.len() - i,
        {
            all.push(chunk[i]);
            i = i + 1;
            assert(all@ =~= before + chunk@.subrange(0, i as int));
        }
        assert(chunk@.subrange(0, chunk@.len() as int) =~= chunk@);
        if contains_head_end(&all) {
            return ReadStep::Complete(all);
        }
        if all.len() >= MAX_REQUEST_BYTES {
            return ReadStep::Failed(ProxyError::BadRequest(String::from_str("request too large")));
        }
        self.data = all;
        ReadStep::NeedMore
    }
}

/// Where a client connection stands.
#[derive(Debug, PartialEq, Eq, Structural, Clone, Copy)]
pub enum FlowPhase {
    /// Waiting for the next request head.
    Reading,
    /// A request is parsed; its node is being connected.
    Connecting,
    /// The request is being forwarded and its response relayed.
    Forwarding,
    /// The connection is done.
    Closed,
}

/// What the caller reports after reading a request head.
#[derive(Debug)]
pub enum ReadOutcome {
    /// A complete request head.
    Data(Vec<u8>),
    /// The client closed the connection before sending anything.
    ClientClosed,
    /// Reading failed.
    Failed(ProxyError),
}

/// What the caller reports after connecting to the target node.
#[derive(Debug)]
pub enum ConnectOutcome {
    Connected,
    /// Connecting failed, for the reason given.
    Failed(String),
    TimedOut,
}

/// What the caller reports after forwarding a request.
#[derive(Debug)]
pub enum ForwardOutcome {
    /// The response was relayed.
    Done,
    /// Forwarding failed (the response may already have started).
    Failed,
    TimedOut,
}

/// What the caller does next.
#[derive(Debug)]
pub enum FlowAction {
    /// Connect to the request's node, then report with `on_connect`.
    Connect(ParsedRequest),
    /// Forward the request, then report with `on_forward`.
    Forward,
    /// Read the next request head, then report with `on_read`.
    ReadNext,
    /// Send this error response (failing if sending fails), then close.
    Respond(ProxyError),
    /// Try to send this error response, then close whatever happens.
    RespondQuietly(ProxyError),
    /// Close the connection.
    Close,
}

pub enum FlowActionView {
    Connect(ParsedRequestView),
    Forward,
    ReadNext,
    Respond(ProxyErrorView),
    RespondQuietly(ProxyErrorView),
    Close,
}

impl View for FlowAction {
    type V = FlowActionView;

    open spec fn view(&self) -> FlowActionView {
        match self {
            FlowAction::Connect(r) => FlowActionView::Connect(r@),
            FlowAction::Forward => FlowActionView::Forward,
            FlowAction::ReadNext => FlowActionView::ReadNext,
            FlowAction::Respond(e) => FlowActionView::Respond(e@),
            FlowAction::RespondQuietly(e) => FlowActionView::RespondQuietly(e@),
            FlowAction::Close => FlowActionView::Close,
        }
    }
}

/// The decisions for one client connection, which may carry several
/// requests while the client keeps it alive.
#[derive(Debug)]
pub struct ConnectionFlow {
    /// Requests parsed on this connection so far.
    pub requests: u64,
    /// Whether the current request keeps the connection alive.
    pub keep_alive: bool,
    pub phase: FlowPhase,
}

/// Whether an action has the caller go on with the connection rather than
/// end it.
pub open spec fn goes_on(a: FlowActionView) -> bool {
    a is Connect || a is Forward || a is ReadNext
}

pub open spec fn saturating_inc(n: u64) -> u64 {
    if n == u64::MAX {
        n
    } else {
        (n + 1) as u64
    }
}

impl ConnectionFlow {
    /// A fresh connection, about to read its first request.
    pub fn new() -> (r: Self)
        ensures
            r.requests == 0,
            r.phase == FlowPhase::Reading,
    {
        ConnectionFlow { requests: 0, keep_alive: false, phase: FlowPhase::Reading }
    }

    /// Decides what follows a read: a parsed request goes to its node, a
    /// malformed one is answered with its error; a failed read is answered
    /// only when it is the connection's first request.
    pub fn on_read(&mut self, outcome: ReadOutcome) -> (r: FlowAction)
        requires
            old(self).phase == FlowPhase::Reading,
        ensures
            goes_on(r@) <==> final(self).phase != FlowPhase::Closed,
            match outcome {
                ReadOutcome::Data(buf) => match spec_parse_request(buf@) {
                    Ok(req) => {
                        &&& r@ == FlowActionView::Connect(req)
                        &&& final(self).phase == FlowPhase::Connecting
                        &&& final(self).requests == saturating_inc(old(self).requests)
                        &&& final(self).keep_alive == req.keep_alive
                    },
                    Err(e) => {
                        &&& r@ == FlowActionView::Respond(e)
                        &&& final(self).phase == FlowPhase::Closed
                        &&& final(self).requests == old(self).requests
                    },
                },
                ReadOutcome::ClientClosed => {
                    &&& r@ == FlowActionView::Close
                    &&& final(self).phase == FlowPhase::Closed
                    &&& final(self).requests == old(self).requests
                },
                ReadOutcome::Failed(e) => {
                    &&& r@ == (if old(self).requests == 0 {
                        FlowActionView::Respond(e@)
                    } else {
                        FlowActionView::Close
                    })
                    &&& final(self).phase == FlowPhase::Closed
                    &&& final(self).requests == old(self).requests
                },
            },
    {
        match outcome {
            ReadOutcome::Data(buf) => {
                let parsed = parse_request(buf.as_slice());
                assert(request_result_view(parsed) == spec_parse_request(buf@));
                match parsed {
                    Ok(req) => {
                        self.requests = if self.requests == u64::MAX {
                            self.requests
                        } else {
                            self.requests + 1
                        };
                        self.keep_alive = req.keep_alive;
                        self.phase = FlowPhase::Connecting;
                        FlowAction::Connect(req)
                    },
                    Err(e) => {
                        self.phase = FlowPhase::Closed;
                        FlowAction::Respond(e)
                    },
                }
            },
            ReadOutcome::ClientClosed => {
                self.phase = FlowPhase::Closed;
                FlowAction::Close
            },
            ReadOutcome::Failed(e) => {
                self.phase = FlowPhase::Closed;
                if self.requests == 0 {
                    FlowAction::Respond(e)
                } else {
                    FlowAction::Close
                }
            },
        }
    }

    /// Decides what follows a connection attempt to the target node.
    pub fn on_connect(&mut self, outcome: ConnectOutcome) -> (r: FlowAction)
        requires
            old(self).phase == FlowPhase::Connecting,
        ensures
            goes_on(r@) <==> final(self).phase != FlowPhase::Closed,
            final(self).requests == old(self).requests,
            final(self).keep_alive == old(self).keep_alive,
            match outcome {
                ConnectOutcome::Connected => r@ == FlowActionView::Forward && final(self).phase
                    == FlowPhase::Forwarding,
                ConnectOutcome::Failed(why) => r@ == FlowActionView::Respond(
                    ProxyErrorView::BadGateway("failed to connect to node: "@ + why@),
                ) && final(self).phase == FlowPhase::Closed,
                ConnectOutcome::TimedOut => r@ == FlowActionView::Respond(
                    ProxyErrorView::GatewayTimeout("connection to node timed out"@),
                ) && final(self).phase == FlowPhase::Closed,
            },
    {
        match outcome {
            ConnectOutcome::Connected => {
                self.phase = FlowPhase::Forwarding;
                FlowAction::Forward
            },
            ConnectOutcome::Failed(why) => {
                self.phase = FlowPhase::Closed;
                let mut text = String::from_str("failed to connect to node: ");
                text.append(why.as_str());
                FlowAction::Respond(ProxyError::BadGateway(text))
            },
            ConnectOutcome::TimedOut => {
                self.phase = FlowPhase::Closed;
                FlowAction::Respond(
                    ProxyError::GatewayTimeout(String::from_str("connection to node timed out")),
                )
            },
        }
    }

    /// Decides what follows forwarding: the next request when the client
    /// keeps the connection alive, otherwise the end of the connection.
    pub fn on_forward(&mut self, outcome: ForwardOutcome) -> (r: FlowAction)
        requires
            old(self).phase == FlowPhase::Forwarding,
        ensures
            goes_on(r@) <==> final(self).phase != FlowPhase::Closed,
            final(self).requests == old(self).requests,
            final(self).keep_alive == old(self).keep_alive,
            match outcome {
                ForwardOutcome::Done => if old(self).keep_alive {
                    r@ == FlowActionView::ReadNext && final(self).phase == FlowPhase::Reading
                } else {
                    r@ == FlowActionView::Close && final(self).phase == FlowPhase::Closed
                },
                ForwardOutcome::Failed => r@ == FlowActionView::Close && final(self).phase
                    == FlowPhase::Closed,
                ForwardOutcome::TimedOut => r@ == FlowActionView::RespondQuietly(
                    ProxyErrorView::GatewayTimeout("request timed out"@),
                ) && final(self).phase == FlowPhase::Closed,
            },
    {
        match outcome {
            ForwardOutcome::Done => {
                if self.keep_alive {
                    self.phase = FlowPhase::Reading;
                    FlowAction::ReadNext
                } else {
                    self.phase = FlowPhase::Closed;
                    FlowAction::Close
                }
            },
            ForwardOutcome::Failed => {
                self.phase = FlowPhase::Closed;
                FlowAction::Close
            },
            ForwardOutcome::TimedOut => {
                self.phase = FlowPhase::Closed;
                FlowAction::RespondQuietly(
                    ProxyError::GatewayTimeout(String::from_str("request timed out")),
                )
            },
        }
    }
}

} // verus!
