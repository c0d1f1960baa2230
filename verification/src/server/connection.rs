//! Per-connection SOCKS5 state machine: handshake, optional auth, request
//! parsing, and command dispatch.

use vstd::prelude::*;
use vstd::utf8::*;

use crate::auth::{credentials_match, verify_credentials};
use crate::config::{AuthConfig, AuthMethod, User};
use crate::error::Socks5Error;
use crate::metrics::{Event, EventView};
use crate::protocol::address::{AddrError, Address};
use crate::protocol::handshake::{greeting, greeting_inverts_parse, greeting_is_stable, greeting_message, method_reply, parse_greeting, parse_inverts_greeting, parse_inverts_userpass, parse_userpass, select_method, selected_method, userpass, userpass_inverts_parse, userpass_is_stable, userpass_message, userpass_reply, userpass_reply_bytes, HandshakeError, METHOD_NONE_ACCEPTABLE, METHOD_NO_AUTH, METHOD_USERPASS, VERSION};
use crate::protocol::reply::{failure_bytes, failure_reply};
use crate::protocol::request::{parse_inverts_request, parse_request, request_inverts_parse, request_is_stable, request_message, requested, unfinished, Command, Request, RequestError, RequestView};

verus! {

/// Maximum bytes we will buffer while reading a single protocol message.
/// A greeting/request/auth message is small and bounded by the wire format.
pub const READ_BUF: usize = 512;

/// Which message the negotiation expects next.
#[derive(Debug, Clone, Copy, PartialEq, Eq, Structural)]
pub enum Stage {
    Greeting,
    Auth,
    Request,
}

/// The greeting, optional username/password auth, and request of one client,
/// over a single persistent buffer, so bytes a client pipelines past one message
/// boundary are preserved for the next step (and the request's trailing bytes
/// are the relay's initial payload).
pub struct Negotiation {
    stage: Stage,
    buf: Vec<u8>,
}

/// What a [`Negotiation`] stands for: the message that comes next, and the bytes
/// at hand.
#[verifier::ext_equal]
pub struct NegotiationView {
    pub stage: Stage,
    pub buf: Seq<u8>,
}

/// What follows a step of the negotiation.
#[derive(Debug, PartialEq, Eq)]
pub enum Next {
    /// Read more bytes from the client, and close on EOF or error.
    Read,
    /// Take the next step.
    Continue,
    /// Close the connection.
    Close,
    /// Serve the request; the bytes are what the client sent after it.
    Serve(Request, Vec<u8>),
}

/// What [`Next`] stands for.
pub enum NextView {
    Read,
    Continue,
    Close,
    Serve(RequestView, Seq<u8>),
}

/// One step of the negotiation: send `announce` to the event bus, write `reply`
/// to the client, send `report` to the event bus, then go on with `next`. Where
/// the reply cannot be written the connection is closed instead.
#[derive(Debug, PartialEq, Eq)]
pub struct Step {
    pub announce: Option<Event>,
    pub reply: Vec<u8>,
    pub report: Option<Event>,
    pub next: Next,
}

/// What a [`Step`] stands for.
#[verifier::ext_equal]
pub struct StepView {
    pub announce: Option<EventView>,
    pub reply: Seq<u8>,
    pub report: Option<EventView>,
    pub next: NextView,
}

/// What becomes of a parsed request.
#[derive(Debug, PartialEq, Eq)]
pub enum Dispatch {
    /// Dial the address and relay.
    Connect(Address),
    /// Turn the connection into the control connection of a UDP association.
    UdpAssociate,
    /// Write the reply, send the event, and close.
    Refuse(Vec<u8>, Event),
}

impl View for Negotiation {
    type V = NegotiationView;

    closed spec fn view(&self) -> NegotiationView {
        NegotiationView { stage: self.stage, buf: self.buf@ }
    }
}

impl View for Next {
    type V = NextView;

    open spec fn view(&self) -> NextView {
        match self {
            Next::Read => NextView::Read,
            Next::Continue => NextView::Continue,
            Next::Close => NextView::Close,
            Next::Serve(request, tail) => NextView::Serve(request@, tail@),
        }
    }
}

/// What an optional event stands for.
pub open spec fn event_view(event: Option<Event>) -> Option<EventView> {
    match event {
        Some(event) => Some(event@),
        None => None,
    }
}

impl View for Step {
    type V = StepView;

    open spec fn view(&self) -> StepView {
        StepView {
            announce: event_view(self.announce),
            reply: self.reply@,
            report: event_view(self.report),
            next: self.next@,
        }
    }
}

impl StepView {
    /// Go on with `next` in silence.
    pub open spec fn silent(next: NextView) -> StepView {
        StepView { announce: None, reply: Seq::empty(), report: None, next }
    }

    /// Write `reply`, then go on with `next`.
    pub open spec fn answer(reply: Seq<u8>, next: NextView) -> StepView {
        StepView { announce: None, reply, report: None, next }
    }

    /// Report a malformed request to the client and to the event bus, and close.
    pub open spec fn malformed(error: Socks5Error) -> StepView {
        StepView {
            announce: None,
            reply: failure_bytes(error),
            report: Some(EventView::Error { code: error.code(), msg: "malformed request"@ }),
            next: NextView::Close,
        }
    }
}

/// More bytes are needed: read them, unless too many are at hand already.
pub open spec fn wait_for_more(buf: Seq<u8>) -> StepView {
    StepView::silent(
        if buf.len() > READ_BUF {
            NextView::Close
        } else {
            NextView::Read
        },
    )
}

impl NegotiationView {
    /// The start of a negotiation.
    pub open spec fn initial() -> NegotiationView {
        NegotiationView { stage: Stage::Greeting, buf: Seq::empty() }
    }

    /// After the client has sent `chunk`.
    pub open spec fn fed(self, chunk: Seq<u8>) -> NegotiationView {
        NegotiationView { stage: self.stage, buf: self.buf + chunk }
    }

    /// Greeting and method selection.
    pub open spec fn greeting_step(self, require_userpass: bool) -> (NegotiationView, StepView) {
        match greeting(self.buf) {
            Ok(methods) => {
                let chosen = selected_method(methods, require_userpass);
                let stage = if chosen == METHOD_USERPASS {
                    Stage::Auth
                } else {
                    Stage::Request
                };
                let next = if chosen == METHOD_NONE_ACCEPTABLE {
                    NextView::Close
                } else {
                    NextView::Continue
                };
                (
                    NegotiationView { stage, buf: self.buf.skip(2 + methods.len() as int) },
                    StepView::answer(seq![VERSION, chosen], next),
                )
            },
            // A short read needs more bytes; any other error is fatal.
            Err(HandshakeError::Truncated) => (self, wait_for_more(self.buf)),
            Err(_) => (self, StepView::silent(NextView::Close)),
        }
    }

    /// Username/password authentication (RFC 1929).
    pub open spec fn auth_step(self, users: Seq<User>) -> (NegotiationView, StepView) {
        match userpass(self.buf) {
            Ok((user, pass)) => {
                let ok = credentials_match(users, user, pass);
                let used = 3 + encode_utf8(user).len() + encode_utf8(pass).len();
                let next = if ok {
                    NextView::Continue
                } else {
                    NextView::Close
                };
                (
                    NegotiationView { stage: Stage::Request, buf: self.buf.skip(used as int) },
                    StepView {
                        announce: Some(EventView::Auth { ok, user }),
                        reply: userpass_reply_bytes(ok),
                        report: None,
                        next,
                    },
                )
            },
            Err(HandshakeError::Truncated) => (self, wait_for_more(self.buf)),
            // A complete-but-malformed auth message gets a failure reply before
            // closing, not a silent close.
            Err(_) => (self, StepView::answer(userpass_reply_bytes(false), NextView::Close)),
        }
    }

    /// SOCKS request.
    pub open spec fn request_step(self) -> (NegotiationView, StepView) {
        match requested(self.buf) {
            Ok(request) => {
                let used = 3 + request.address.encoded().len();
                (
                    NegotiationView { stage: Stage::Request, buf: Seq::empty() },
                    StepView::silent(NextView::Serve(request, self.buf.skip(used as int))),
                )
            },
            // Both truncation cases need more bytes.
            Err(RequestError::Truncated) => (self, wait_for_more(self.buf)),
            Err(RequestError::Addr(AddrError::Truncated)) => (self, wait_for_more(self.buf)),
            Err(RequestError::BadCommand(_)) => (
                self,
                StepView::malformed(Socks5Error::CommandNotSupported),
            ),
            Err(RequestError::Addr(AddrError::BadAtyp(_))) => (
                self,
                StepView::malformed(Socks5Error::AddressNotSupported),
            ),
            // Malformed domain is a generic failure, not an unsupported ATYP.
            Err(RequestError::Addr(AddrError::BadDomain)) => (
                self,
                StepView::malformed(Socks5Error::General),
            ),
            // Bad version has no well-defined SOCKS reply; close the connection.
            Err(RequestError::BadVersion(_)) => (self, StepView::silent(NextView::Close)),
        }
    }

    /// One step of the negotiation on the bytes at hand.
    pub open spec fn step(self, require_userpass: bool, users: Seq<User>) -> (
        NegotiationView,
        StepView,
    ) {
        match self.stage {
            Stage::Greeting => self.greeting_step(require_userpass),
            Stage::Auth => self.auth_step(users),
            Stage::Request => self.request_step(),
        }
    }
}

/// Remove the first `n` bytes of `buf`.
fn drain_front(buf: &mut Vec<u8>, n: usize)
    requires
        n <= old(buf)@.len(),
    ensures
        final(buf)@ == old(buf)@.skip(n as int),
{
    let mut rest: Vec<u8> = buf.split_off(n);
    core::mem::swap(buf, &mut rest);
    assert(buf@ =~= old(buf)@.skip(n as int));
}

/// Go on with `next` in silence.
fn silent(next: Next) -> (step: Step)
    ensures
        step@ == StepView::silent(next@),
{
    let reply: Vec<u8> = Vec::new();
    assert(reply@ =~= Seq::<u8>::empty());
    Step { announce: None, reply, report: None, next }
}

/// Write `reply`, then go on with `next`.
fn answer(reply: [u8; 2], next: Next) -> (step: Step)
    ensures
        step@ == StepView::answer(reply@, next@),
{
    let mut bytes: Vec<u8> = Vec::new();
    bytes.push(reply[0]);
    bytes.push(reply[1]);
    assert(bytes@ =~= reply@);
    Step { announce: None, reply: bytes, report: None, next }
}

/// Report a malformed request to the client and to the event bus, and close.
fn malformed(error: Socks5Error) -> (step: Step)
    ensures
        step@ == StepView::malformed(error),
{
    Step {
        announce: None,
        reply: failure_reply(error),
        report: Some(
            Event::Error { code: error.reply_code(), msg: "malformed request".to_owned() },
        ),
        next: Next::Close,
    }
}

impl Negotiation {
    /// Start a negotiation: the client's greeting comes first.
    pub fn new() -> (negotiation: Negotiation)
        ensures
            negotiation@ == NegotiationView::initial(),
    {
        let negotiation = Negotiation {
            stage: Stage::Greeting,
            buf: Vec::with_capacity(READ_BUF),
        };
        assert(negotiation@ =~= NegotiationView::initial());
        negotiation
    }

    /// Append bytes that the client has sent.
    pub fn feed(&mut self, chunk: &[u8])
        ensures
            final(self)@ == old(self)@.fed(chunk@),
    {
        self.buf.extend_from_slice(chunk);
        assert(self@ =~= old(self)@.fed(chunk@));
    }

    /// More bytes are needed: read them, unless too many are at hand already.
    fn wait(&self) -> (step: Step)
        ensures
            step@ == wait_for_more(self@.buf),
    {
        if self.buf.len() > READ_BUF {
            silent(Next::Close)
        } else {
            silent(Next::Read)
        }
    }

    fn advance_greeting(&mut self, require_userpass: bool) -> (step: Step)
        ensures
            (final(self)@, step@) == old(self)@.greeting_step(require_userpass),
    {
        match parse_greeting(self.buf.as_slice()) {
            Ok(methods) => {
                // VER + NMETHODS + methods.
                drain_front(&mut self.buf, 2 + methods.len());
                let chosen: u8 = select_method(methods.as_slice(), require_userpass);
                self.stage = if chosen == METHOD_USERPASS {
                    Stage::Auth
                } else {
                    Stage::Request
                };
                if chosen == METHOD_NONE_ACCEPTABLE {
                    answer(method_reply(chosen), Next::Close)
                } else {
                    answer(method_reply(chosen), Next::Continue)
                }
            },
            // A short read needs more bytes; any other error is fatal.
            Err(HandshakeError::Truncated) => self.wait(),
            Err(_) => silent(Next::Close),
        }
    }

    fn advance_auth(&mut self, users: &[User]) -> (step: Step)
        ensures
            (final(self)@, step@) == old(self)@.auth_step(users@),
    {
        match parse_userpass(self.buf.as_slice()) {
            Ok((user, pass)) => {
                proof {
                    userpass_inverts_parse(self.buf@, user@, pass@);
                }
                // VER + ULEN + UNAME + PLEN + PASSWD.
                let used: usize = 2 + user.as_str().as_bytes().len() + 1
                    + pass.as_str().as_bytes().len();
                drain_front(&mut self.buf, used);
                let ok: bool = verify_credentials(users, user.as_str(), pass.as_str());
                self.stage = Stage::Request;
                let next: Next = if ok {
                    Next::Continue
                } else {
                    Next::Close
                };
                let mut step: Step = answer(userpass_reply(ok), next);
                step.announce = Some(Event::Auth { ok, user });
                step
            },
            // A short read needs more bytes.
            Err(HandshakeError::Truncated) => self.wait(),
            // A complete-but-malformed auth message gets a best-effort RFC
            // 1929 failure reply before closing, not a silent TCP close.
            Err(_) => answer(userpass_reply(false), Next::Close),
        }
    }

    fn advance_request(&mut self) -> (step: Step)
        requires
            old(self)@.stage == Stage::Request,
        ensures
            (final(self)@, step@) == old(self)@.request_step(),
    {
        match parse_request(self.buf.as_slice()) {
            Ok(request) => {
                proof {
                    request_inverts_parse(self.buf@, request@);
                }
                // VER + CMD + RSV + encoded address.
                let mut encoded: Vec<u8> = Vec::new();
                request.address.encode(&mut encoded);
                assert(encoded@ =~= request@.address.encoded());
                assert(3 + encoded@.len() <= self.buf.len());
                drain_front(&mut self.buf, 3 + encoded.len());
                // Any bytes left after the request are pipelined relay payload.
                let mut tail: Vec<u8> = Vec::new();
                core::mem::swap(&mut self.buf, &mut tail);
                assert(self.buf@ =~= Seq::<u8>::empty());
                silent(Next::Serve(request, tail))
            },
            // Both truncation cases need more bytes; keep reading.
            Err(RequestError::Truncated) => self.wait(),
            Err(RequestError::Addr(AddrError::Truncated)) => self.wait(),
            // Unrecognized command byte: command not supported.
            Err(RequestError::BadCommand(_)) => malformed(Socks5Error::CommandNotSupported),
            // Unknown ATYP: address type not supported.
            Err(RequestError::Addr(AddrError::BadAtyp(_))) => malformed(
                Socks5Error::AddressNotSupported,
            ),
            // Malformed domain is a generic failure, not an unsupported ATYP.
            Err(RequestError::Addr(AddrError::BadDomain)) => malformed(Socks5Error::General),
            // Bad version has no well-defined SOCKS reply; close the connection.
            Err(RequestError::BadVersion(_)) => silent(Next::Close),
        }
    }

    /// Take one step on the bytes at hand.
    pub fn advance(&mut self, auth: &AuthConfig) -> (step: Step)
        ensures
            (final(self)@, step@) == old(self)@.step(
                auth.method == AuthMethod::Password,
                auth.users@,
            ),
    {
        match self.stage {
            Stage::Greeting => self.advance_greeting(auth.method == AuthMethod::Password),
            Stage::Auth => self.advance_auth(auth.users.as_slice()),
            Stage::Request => self.advance_request(),
        }
    }
}

/// Dispatch on the command of a request.
pub fn dispatch(request: Request) -> (dispatch: Dispatch)
    ensures
        match request.command {
            Command::Connect => dispatch == Dispatch::Connect(request.address),
            Command::UdpAssociate => dispatch == Dispatch::UdpAssociate,
            // BIND is intentionally unsupported.
            Command::Bind => dispatch matches Dispatch::Refuse(reply, event) && reply@
                == failure_bytes(Socks5Error::CommandNotSupported) && event@ == (EventView::Error {
                code: Socks5Error::CommandNotSupported.code(),
                msg: "BIND not supported"@,
            }),
        },
{
    match request.command {
        Command::Connect => Dispatch::Connect(request.address),
        Command::UdpAssociate => Dispatch::UdpAssociate,
        Command::Bind => Dispatch::Refuse(
            failure_reply(Socks5Error::CommandNotSupported),
            Event::Error {
                code: Socks5Error::CommandNotSupported.reply_code(),
                msg: "BIND not supported".to_owned(),
            },
        ),
    }
}

/// How a negotiation stands once every step on the bytes at hand was taken.
pub enum Standing {
    /// More bytes are needed.
    Waiting(NegotiationView),
    /// The connection was closed.
    Closed,
    /// A request is to be served; the bytes are what the client sent after it.
    Serving(RequestView, Seq<u8>),
}

/// What the client was told, what the event bus was told, and how the
/// negotiation stands.
#[verifier::ext_equal]
pub struct Transcript {
    pub replies: Seq<u8>,
    pub events: Seq<EventView>,
    pub standing: Standing,
}

/// An optional event as a sequence.
pub open spec fn as_events(event: Option<EventView>) -> Seq<EventView> {
    match event {
        Some(event) => seq![event],
        None => Seq::empty(),
    }
}

impl Stage {
    /// How many stages are still to come.
    pub open spec fn rank(self) -> nat {
        match self {
            Stage::Greeting => 2,
            Stage::Auth => 1,
            Stage::Request => 0,
        }
    }
}

impl NegotiationView {
    /// Every step on the bytes at hand, with all replies written.
    pub open spec fn settle(self, require_userpass: bool, users: Seq<User>) -> Transcript
        decreases self.stage.rank(),
    {
        let (state, step) = self.step(require_userpass, users);
        let events = as_events(step.announce) + as_events(step.report);
        match step.next {
            NextView::Read => Transcript {
                replies: step.reply,
                events,
                standing: Standing::Waiting(state),
            },
            NextView::Close => Transcript {
                replies: step.reply,
                events,
                standing: Standing::Closed,
            },
            NextView::Serve(request, tail) => Transcript {
                replies: step.reply,
                events,
                standing: Standing::Serving(request, tail),
            },
            NextView::Continue => {
                let rest = state.settle(require_userpass, users);
                Transcript {
                    replies: step.reply + rest.replies,
                    events: events + rest.events,
                    standing: rest.standing,
                }
            },
        }
    }
}

impl Transcript {
    /// This conversation, carried on once the client has sent `more`.
    pub open spec fn then_fed(
        self,
        more: Seq<u8>,
        require_userpass: bool,
        users: Seq<User>,
    ) -> Transcript {
        match self.standing {
            Standing::Waiting(state) => {
                let rest = state.fed(more).settle(require_userpass, users);
                Transcript {
                    replies: self.replies + rest.replies,
                    events: self.events + rest.events,
                    standing: rest.standing,
                }
            },
            Standing::Closed => self,
            Standing::Serving(request, tail) => Transcript {
                standing: Standing::Serving(request, tail + more),
                ..self
            },
        }
    }
}

/// A message that is not complete yet always leaves room to read on: the limit
/// on buffered bytes never closes a connection.
pub proof fn unfinished_messages_fit(state: NegotiationView, require_userpass: bool, users: Seq<User>)
    ensures
        ({
            let (next_state, step) = state.step(require_userpass, users);
            let unfinished = match state.stage {
                Stage::Greeting => greeting(state.buf) == Err::<Seq<u8>, HandshakeError>(
                    HandshakeError::Truncated,
                ),
                Stage::Auth => userpass(state.buf) == Err::<(Seq<char>, Seq<char>), HandshakeError>(
                    HandshakeError::Truncated,
                ),
                Stage::Request => requested(state.buf) matches Err(error) && unfinished(error),
            };
            unfinished ==> state.buf.len() <= READ_BUF && step == StepView::silent(NextView::Read)
                && next_state == state
        }),
{
    greeting_is_stable(state.buf, Seq::empty());
    userpass_is_stable(state.buf, Seq::empty());
    request_is_stable(state.buf, Seq::empty());
}

/// Whether a step on longer input does what the step on its beginning did, as far
/// as that one was settled.
spec fn step_carries_on(
    early: (NegotiationView, StepView),
    late: (NegotiationView, StepView),
    more: Seq<u8>,
) -> bool {
    match early.1.next {
        NextView::Read => true,
        NextView::Continue => late.0 == early.0.fed(more) && late.1 == early.1,
        NextView::Close => late.1 == early.1,
        NextView::Serve(request, tail) => late.1 == (StepView {
            next: NextView::Serve(request, tail + more),
            ..early.1
        }),
    }
}

proof fn lemma_greeting_carries_on(state: NegotiationView, more: Seq<u8>, require_userpass: bool)
    ensures
        step_carries_on(
            state.greeting_step(require_userpass),
            state.fed(more).greeting_step(require_userpass),
            more,
        ),
        state.greeting_step(require_userpass).1.next is Read ==> state.greeting_step(
            require_userpass,
        ) == (state, StepView::silent(NextView::Read)),
        state.greeting_step(require_userpass).1.next is Continue ==> state.greeting_step(
            require_userpass,
        ).0.stage.rank() < 2,
{
    let buf = state.buf;
    greeting_is_stable(buf, more);
    if let Ok(methods) = greeting(buf) {
        greeting_inverts_parse(buf, methods);
        let used = 2 + methods.len() as int;
        assert((buf + more).skip(used) =~= buf.skip(used) + more);
    }
}

proof fn lemma_auth_carries_on(state: NegotiationView, more: Seq<u8>, users: Seq<User>)
    ensures
        step_carries_on(state.auth_step(users), state.fed(more).auth_step(users), more),
        state.auth_step(users).1.next is Read ==> state.auth_step(users) == (
            state,
            StepView::silent(NextView::Read),
        ),
        state.auth_step(users).1.next is Continue ==> state.auth_step(users).0.stage.rank() < 1,
{
    let buf = state.buf;
    userpass_is_stable(buf, more);
    if let Ok((user, pass)) = userpass(buf) {
        userpass_inverts_parse(buf, user, pass);
        let used = (3 + encode_utf8(user).len() + encode_utf8(pass).len()) as int;
        assert((buf + more).skip(used) =~= buf.skip(used) + more);
    }
}

proof fn lemma_request_carries_on(state: NegotiationView, more: Seq<u8>)
    ensures
        step_carries_on(state.request_step(), state.fed(more).request_step(), more),
        state.request_step().1.next is Read ==> state.request_step() == (
            state,
            StepView::silent(NextView::Read),
        ),
        !(state.request_step().1.next is Continue),
{
    let buf = state.buf;
    request_is_stable(buf, more);
    if let Ok(request) = requested(buf) {
        request_inverts_parse(buf, request);
        let used = 3 + request.address.encoded().len() as int;
        assert((buf + more).skip(used) =~= buf.skip(used) + more);
    }
}

/// How the client's bytes are cut into reads makes no difference: what is told
/// to whom, and what is served with which pipelined payload, depends on the
/// bytes alone.
#[verifier::spinoff_prover]
pub proof fn reads_may_be_cut_anywhere(
    state: NegotiationView,
    more: Seq<u8>,
    require_userpass: bool,
    users: Seq<User>,
)
    ensures
        state.fed(more).settle(require_userpass, users) == state.settle(
            require_userpass,
            users,
        ).then_fed(more, require_userpass, users),
    decreases state.stage.rank(),
{
    let early = state.step(require_userpass, users);
    let late = state.fed(more).step(require_userpass, users);
    assert(step_carries_on(early, late, more) && (early.1.next is Read ==> early == (
        state,
        StepView::silent(NextView::Read),
    )) && (early.1.next is Continue ==> early.0.stage.rank() < state.stage.rank())) by {
        match state.stage {
            Stage::Greeting => lemma_greeting_carries_on(state, more, require_userpass),
            Stage::Auth => lemma_auth_carries_on(state, more, users),
            Stage::Request => lemma_request_carries_on(state, more),
        }
    }
    if early.1.next is Continue {
        reads_may_be_cut_anywhere(early.0, more, require_userpass, users);
    }
    lemma_settle_carries_on(state, more, require_userpass, users, early, late);
}

#[verifier::spinoff_prover]
proof fn lemma_settle_carries_on(
    state: NegotiationView,
    more: Seq<u8>,
    require_userpass: bool,
    users: Seq<User>,
    early: (NegotiationView, StepView),
    late: (NegotiationView, StepView),
)
    requires
        early == state.step(require_userpass, users),
        late == state.fed(more).step(require_userpass, users),
        step_carries_on(early, late, more),
        early.1.next is Read ==> early == (state, StepView::silent(NextView::Read)),
        early.1.next is Continue ==> early.0.fed(more).settle(require_userpass, users)
            == early.0.settle(require_userpass, users).then_fed(more, require_userpass, users),
    ensures
        state.fed(more).settle(require_userpass, users) == state.settle(
            require_userpass,
            users,
        ).then_fed(more, require_userpass, users),
{
    let first = state.settle(require_userpass, users);
    let all = state.fed(more).settle(require_userpass, users);
    let carried = first.then_fed(more, require_userpass, users);
    assert(all.replies =~= carried.replies);
    assert(all.events =~= carried.events);
}

/// Without authentication, a greeting that offers it and a request are answered
/// by the method choice alone; the request is served with what follows it.
#[verifier::spinoff_prover]
pub proof fn open_negotiation_serves(
    methods: Seq<u8>,
    request: RequestView,
    rsv: u8,
    tail: Seq<u8>,
    users: Seq<User>,
)
    requires
        methods.len() <= 255,
        methods.contains(METHOD_NO_AUTH),
        request.address.fits(),
    ensures
        NegotiationView::initial().fed(
            greeting_message(methods) + request_message(request, rsv) + tail,
        ).settle(false, users) == (Transcript {
            replies: seq![VERSION, METHOD_NO_AUTH],
            events: Seq::empty(),
            standing: Standing::Serving(request, tail),
        }),
{
    let hello = greeting_message(methods);
    let ask = request_message(request, rsv);
    let bytes = hello + ask + tail;
    let start = NegotiationView::initial().fed(bytes);
    assert(start.buf =~= hello + (ask + tail));
    parse_inverts_greeting(methods, ask + tail);
    assert(start.buf.skip(2 + methods.len() as int) =~= ask + tail);
    let second = NegotiationView { stage: Stage::Request, buf: ask + tail };
    assert(start.step(false, users).0 =~= second);
    lemma_request_settles(second, request, rsv, tail, false, users);
    assert(start.settle(false, users).events =~= Seq::<EventView>::empty());
    assert(start.settle(false, users).replies =~= seq![VERSION, METHOD_NO_AUTH]);
}

proof fn lemma_request_settles(
    state: NegotiationView,
    request: RequestView,
    rsv: u8,
    tail: Seq<u8>,
    require_userpass: bool,
    users: Seq<User>,
)
    requires
        state.stage == Stage::Request,
        state.buf == request_message(request, rsv) + tail,
        request.address.fits(),
    ensures
        state.settle(require_userpass, users) == (Transcript {
            replies: Seq::empty(),
            events: Seq::empty(),
            standing: Standing::Serving(request, tail),
        }),
{
    parse_inverts_request(request, rsv, tail);
    assert(state.buf.skip(3 + request.address.encoded().len() as int) =~= tail);
    assert(state.settle(require_userpass, users).events =~= Seq::<EventView>::empty());
}

/// With username/password authentication, right credentials are accepted and the
/// request behind them is served with what follows it; wrong ones are answered
/// by the failure reply and the connection is closed, whatever follows.
#[verifier::spinoff_prover]
pub proof fn password_negotiation_admits_users_only(
    methods: Seq<u8>,
    user: Seq<char>,
    pass: Seq<char>,
    request: RequestView,
    rsv: u8,
    tail: Seq<u8>,
    users: Seq<User>,
)
    requires
        methods.len() <= 255,
        methods.contains(METHOD_USERPASS),
        encode_utf8(user).len() <= 255,
        encode_utf8(pass).len() <= 255,
        request.address.fits(),
    ensures
        ({
            let ok = credentials_match(users, user, pass);
            NegotiationView::initial().fed(
                greeting_message(methods) + userpass_message(user, pass) + request_message(
                    request,
                    rsv,
                ) + tail,
            ).settle(true, users) == (Transcript {
                replies: seq![VERSION, METHOD_USERPASS] + userpass_reply_bytes(ok),
                events: seq![EventView::Auth { ok, user }],
                standing: if ok {
                    Standing::Serving(request, tail)
                } else {
                    Standing::Closed
                },
            })
        }),
{
    let ok = credentials_match(users, user, pass);
    let hello = greeting_message(methods);
    let login = userpass_message(user, pass);
    let ask = request_message(request, rsv);
    let start = NegotiationView::initial().fed(hello + login + ask + tail);
    let second = NegotiationView { stage: Stage::Auth, buf: login + (ask + tail) };
    assert(start.buf =~= hello + (login + (ask + tail)));
    lemma_greeting_asks_for_login(start, methods, login + (ask + tail), users);
    lemma_login_settles(second, user, pass, request, rsv, tail, users);
    lemma_settles_after_reply(
        start,
        second,
        seq![VERSION, METHOD_USERPASS],
        second.settle(true, users),
        true,
        users,
    );
}

proof fn lemma_greeting_asks_for_login(
    state: NegotiationView,
    methods: Seq<u8>,
    rest: Seq<u8>,
    users: Seq<User>,
)
    requires
        state.stage == Stage::Greeting,
        state.buf == greeting_message(methods) + rest,
        methods.len() <= 255,
        methods.contains(METHOD_USERPASS),
    ensures
        state.step(true, users) == (
            NegotiationView { stage: Stage::Auth, buf: rest },
            StepView::answer(seq![VERSION, METHOD_USERPASS], NextView::Continue),
        ),
{
    parse_inverts_greeting(methods, rest);
    assert(state.buf.skip(2 + methods.len() as int) =~= rest);
}

/// A step that only writes `reply` and goes on puts it before what follows.
#[verifier::spinoff_prover]
proof fn lemma_settles_after_reply(
    state: NegotiationView,
    next: NegotiationView,
    reply: Seq<u8>,
    rest: Transcript,
    require_userpass: bool,
    users: Seq<User>,
)
    requires
        state.step(require_userpass, users) == (next, StepView::answer(reply, NextView::Continue)),
        rest == next.settle(require_userpass, users),
        next.stage.rank() < state.stage.rank(),
    ensures
        state.settle(require_userpass, users) == (Transcript { replies: reply + rest.replies, ..rest }),
{
    let all = state.settle(require_userpass, users);
    assert(all.events =~= rest.events);
}

#[verifier::spinoff_prover]
proof fn lemma_login_settles(
    state: NegotiationView,
    user: Seq<char>,
    pass: Seq<char>,
    request: RequestView,
    rsv: u8,
    tail: Seq<u8>,
    users: Seq<User>,
)
    requires
        state.stage == Stage::Auth,
        state.buf == userpass_message(user, pass) + (request_message(request, rsv) + tail),
        encode_utf8(user).len() <= 255,
        encode_utf8(pass).len() <= 255,
        request.address.fits(),
    ensures
        ({
            let ok = credentials_match(users, user, pass);
            state.settle(true, users) == (Transcript {
                replies: userpass_reply_bytes(ok),
                events: seq![EventView::Auth { ok, user }],
                standing: if ok {
                    Standing::Serving(request, tail)
                } else {
                    Standing::Closed
                },
            })
        }),
{
    let ok = credentials_match(users, user, pass);
    let ask = request_message(request, rsv);
    let third = NegotiationView { stage: Stage::Request, buf: ask + tail };
    assert(state.step(true, users).0 == third && state.step(true, users).1 == (StepView {
        announce: Some(EventView::Auth { ok, user }),
        reply: userpass_reply_bytes(ok),
        report: None,
        next: if ok {
            NextView::Continue
        } else {
            NextView::Close
        },
    })) by {
        parse_inverts_userpass(user, pass, ask + tail);
        let used = (3 + encode_utf8(user).len() + encode_utf8(pass).len()) as int;
        assert(state.buf.skip(used) =~= ask + tail);
    }
    lemma_request_settles(third, request, rsv, tail, true, users);
    assert(state.settle(true, users).events =~= seq![EventView::Auth { ok, user }]);
    assert(state.settle(true, users).replies =~= userpass_reply_bytes(ok));
}

/// The SOCKS5 error that answers a malformed request, where one is defined.
pub open spec fn malformed_reply(error: RequestError) -> Option<Socks5Error> {
    match error {
        RequestError::BadCommand(_) => Some(Socks5Error::CommandNotSupported),
        RequestError::Addr(AddrError::BadAtyp(_)) => Some(Socks5Error::AddressNotSupported),
        RequestError::Addr(AddrError::BadDomain) => Some(Socks5Error::General),
        _ => None,
    }
}

/// A malformed request is answered by the failure reply of its error and closed;
/// one of another protocol version is closed without a reply.
pub proof fn malformed_requests_are_answered(
    state: NegotiationView,
    error: RequestError,
    require_userpass: bool,
    users: Seq<User>,
)
    requires
        state.stage == Stage::Request,
        requested(state.buf) == Err::<RequestView, RequestError>(error),
        !unfinished(error),
    ensures
        ({
            let talk = state.settle(require_userpass, users);
            &&& talk.standing is Closed
            &&& match malformed_reply(error) {
                Some(reply) => talk.replies == failure_bytes(reply) && talk.events
                    == seq![EventView::Error { code: reply.code(), msg: "malformed request"@ }],
                None => error is BadVersion && talk.replies.len() == 0 && talk.events.len() == 0,
            }
        }),
{
    let talk = state.settle(require_userpass, users);
    if let Some(reply) = malformed_reply(error) {
        assert(talk.events =~= seq![
            EventView::Error { code: reply.code(), msg: "malformed request"@ },
        ]);
    }
}

/// A greeting that offers no acceptable method is answered by exactly that, and
/// the connection is closed.
pub proof fn unacceptable_greetings_are_refused(
    state: NegotiationView,
    methods: Seq<u8>,
    require_userpass: bool,
    users: Seq<User>,
)
    requires
        state.stage == Stage::Greeting,
        greeting(state.buf) == Ok::<Seq<u8>, HandshakeError>(methods),
        !methods.contains(if require_userpass {
            METHOD_USERPASS
        } else {
            METHOD_NO_AUTH
        }),
    ensures
        state.settle(require_userpass, users) == (Transcript {
            replies: seq![VERSION, METHOD_NONE_ACCEPTABLE],
            events: Seq::empty(),
            standing: Standing::Closed,
        }),
{
    assert(state.settle(require_userpass, users).events =~= Seq::<EventView>::empty());
}

/// A malformed username/password message is answered by the failure reply before
/// the connection is closed, and nobody is announced.
pub proof fn malformed_logins_are_answered(
    state: NegotiationView,
    error: HandshakeError,
    require_userpass: bool,
    users: Seq<User>,
)
    requires
        state.stage == Stage::Auth,
        userpass(state.buf) == Err::<(Seq<char>, Seq<char>), HandshakeError>(error),
        !(error is Truncated),
    ensures
        state.settle(require_userpass, users) == (Transcript {
            replies: userpass_reply_bytes(false),
            events: Seq::empty(),
            standing: Standing::Closed,
        }),
{
    assert(state.settle(require_userpass, users).events =~= Seq::<EventView>::empty());
}

/// Where authentication is required, no bytes whatsoever get a request served
/// unless they carry the credentials of a configured user.
#[verifier::spinoff_prover]
pub proof fn nothing_is_served_without_credentials(bytes: Seq<u8>, users: Seq<User>)
    requires
        NegotiationView::initial().fed(bytes).settle(true, users).standing is Serving,
    ensures
        exists|user: Seq<char>, pass: Seq<char>| #[trigger]
            credentials_match(users, user, pass) && NegotiationView::initial().fed(bytes).settle(
                true,
                users,
            ).events.contains(EventView::Auth { ok: true, user }),
{
    let start = NegotiationView::initial().fed(bytes);
    let second = start.step(true, users).0;
    let third = second.step(true, users).0;
    let (user, pass) = userpass(second.buf)->Ok_0;
    assert(second.stage == Stage::Auth);
    assert(credentials_match(users, user, pass));
    let mine = seq![EventView::Auth { ok: true, user }];
    assert(mine[0] == EventView::Auth { ok: true, user });
    let events = start.settle(true, users).events;
    assert(second.settle(true, users).events[0] == EventView::Auth { ok: true, user });
    assert(events[0] == EventView::Auth { ok: true, user });
}

/// A greeting of another protocol is closed without a word.
pub proof fn foreign_greetings_are_closed(
    state: NegotiationView,
    error: HandshakeError,
    require_userpass: bool,
    users: Seq<User>,
)
    requires
        state.stage == Stage::Greeting,
        greeting(state.buf) == Err::<Seq<u8>, HandshakeError>(error),
        !(error is Truncated),
    ensures
        state.settle(require_userpass, users) == (Transcript {
            replies: Seq::empty(),
            events: Seq::empty(),
            standing: Standing::Closed,
        }),
{
    assert(state.settle(require_userpass, users).events =~= Seq::<EventView>::empty());
}

/// An unknown command is answered as not supported, an unknown kind of address as
/// that, and a name that is no text as a general failure; only a request that is
/// cut short is unfinished.
pub proof fn malformed_requests_have_their_code(error: RequestError)
    ensures
        malformed_reply(error) matches Some(reply) ==> reply.code() == (match error {
            RequestError::BadCommand(_) => 7u8,
            RequestError::Addr(AddrError::BadAtyp(_)) => 8,
            _ => 1,
        }),
        malformed_reply(error) is None <==> (error is Truncated || error is BadVersion || error
            == RequestError::Addr(AddrError::Truncated)),
        unfinished(error) <==> error is Truncated || error == RequestError::Addr(
            AddrError::Truncated,
        ),
{
}

} // verus!
