//! Sessions: the events of a session's channel, the handshake that brings a
//! session up, and the registry of live sessions.

use crate::connection::{fresh_id, opt_view, AuthType, Connection, ConnectionView, ID_LENGTH};
use crate::error::{ErrorKind, SshError};
use crate::text::str_eq;
use vstd::prelude::*;
use vstd::slice::slice_to_vec;
use vstd::string::*;

verus! {

/// What a session's channel reports.
#[derive(Debug, Clone)]
pub enum SshEvent {
    /// Raw output of the channel.
    Data(Vec<u8>),
    /// An error frame; the session goes on.
    Error(String),
    /// The channel was closed; nothing follows.
    Close,
}

/// What `SshEvent` holds, as sequences.
pub enum SshEventView {
    Data(Seq<u8>),
    Error(Seq<char>),
    Close,
}

impl View for SshEvent {
    type V = SshEventView;

    open spec fn view(&self) -> SshEventView {
        match self {
            SshEvent::Data(bytes) => SshEventView::Data(bytes@),
            SshEvent::Error(message) => SshEventView::Error(message@),
            SshEvent::Close => SshEventView::Close,
        }
    }
}

/// The callback side of a session: it forwards what arrives on the
/// session's own channel and drops everything else.
#[derive(Debug, Clone)]
pub struct ClientHandler {
    pub session_id: String,
    pub shell_channel_id: Option<u32>,
}

impl ClientHandler {
    /// A handler that is not bound to a channel yet.
    pub fn new(session_id: String) -> (h: ClientHandler)
        ensures
            h.session_id == session_id,
            h.shell_channel_id is None,
    {
        ClientHandler { session_id, shell_channel_id: None }
    }

    /// Binds the handler to the session's channel. The first binding stays:
    /// a bound handler is left as it is. Returns whether the binding was
    /// made.
    pub fn bind(&mut self, channel: u32) -> (bound: bool)
        ensures
            bound == (old(self).shell_channel_id is None),
            final(self).session_id == old(self).session_id,
            final(self).shell_channel_id == match old(self).shell_channel_id {
                Some(c) => Some(c),
                None => Some(channel),
            },
    {
        match self.shell_channel_id {
            Some(_) => false,
            None => {
                self.shell_channel_id = Some(channel);
                true
            },
        }
    }

    /// Every server key is accepted: the identity of the host is not
    /// verified.
    pub fn check_server_key(&self) -> (accepted: bool)
        ensures
            accepted,
    {
        true
    }

    /// The event for bytes that arrived on `channel`: a `Data` event with
    /// those bytes where the handler is bound to that channel, nothing
    /// otherwise.
    pub fn data(&self, channel: u32, data: &[u8]) -> (event: Option<SshEvent>)
        ensures
            match event {
                Some(e) => self.shell_channel_id == Some(channel) && e@ == SshEventView::Data(
                    data@,
                ),
                None => self.shell_channel_id != Some(channel),
            },
    {
        match self.shell_channel_id {
            Some(id) => {
                if id == channel {
                    Some(SshEvent::Data(slice_to_vec(data)))
                } else {
                    None
                }
            },
            None => None,
        }
    }
}

/// Where a handshake stands. Each stage waits for the reply to one request.
#[derive(Debug, Clone, Copy)]
pub enum Stage {
    /// The transport is being opened.
    Connecting,
    /// The private key is being loaded.
    LoadingKey,
    /// The credential is being presented.
    Authenticating,
    /// The session channel is being opened.
    ChannelOpening,
    /// A terminal is being requested on the channel.
    RequestingPty(u32),
    /// A shell is being requested on the channel.
    RequestingShell(u32),
}

/// The secret a profile authenticates with.
#[derive(Debug, Clone)]
pub enum Secret {
    Password(String),
    KeyFile { path: String, passphrase: Option<String> },
}

/// What `Secret` holds, as sequences.
pub enum SecretView {
    Password(Seq<char>),
    KeyFile { path: Seq<char>, passphrase: Option<Seq<char>> },
}

impl View for Secret {
    type V = SecretView;

    open spec fn view(&self) -> SecretView {
        match self {
            Secret::Password(p) => SecretView::Password(p@),
            Secret::KeyFile { path, passphrase } => SecretView::KeyFile {
                path: path@,
                passphrase: opt_view(*passphrase),
            },
        }
    }
}

/// The terminal type that is requested.
pub open spec fn terminal_name() -> Seq<char> {
    "xterm-256color"@
}

/// The width of the terminal that is requested, in columns.
pub const DEFAULT_COLS: u32 = 80;

/// The height of the terminal that is requested, in rows.
pub const DEFAULT_ROWS: u32 = 24;

/// What the handshake asks its driver to do next.
#[derive(Debug, Clone)]
pub enum Request {
    OpenTransport { host: String, port: u16 },
    LoadKey { path: String, passphrase: Option<String> },
    AuthenticatePassword { username: String, password: String },
    AuthenticateKey { username: String },
    OpenChannel,
    RequestPty { term: String, cols: u32, rows: u32, pix_width: u32, pix_height: u32 },
    RequestShell,
}

/// What `Request` holds, as sequences.
pub enum RequestView {
    OpenTransport { host: Seq<char>, port: u16 },
    LoadKey { path: Seq<char>, passphrase: Option<Seq<char>> },
    AuthenticatePassword { username: Seq<char>, password: Seq<char> },
    AuthenticateKey { username: Seq<char> },
    OpenChannel,
    RequestPty { term: Seq<char>, cols: u32, rows: u32, pix_width: u32, pix_height: u32 },
    RequestShell,
}

impl View for Request {
    type V = RequestView;

    open spec fn view(&self) -> RequestView {
        match self {
            Request::OpenTransport { host, port } => RequestView::OpenTransport {
                host: host@,
                port: *port,
            },
            Request::LoadKey { path, passphrase } => RequestView::LoadKey {
                path: path@,
                passphrase: opt_view(*passphrase),
            },
            Request::AuthenticatePassword { username, password } => {
                RequestView::AuthenticatePassword { username: username@, password: password@ }
            },
            Request::AuthenticateKey { username } => RequestView::AuthenticateKey {
                username: username@,
            },
            Request::OpenChannel => RequestView::OpenChannel,
            Request::RequestPty { term, cols, rows, pix_width, pix_height } => {
                RequestView::RequestPty {
                    term: term@,
                    cols: *cols,
                    rows: *rows,
                    pix_width: *pix_width,
                    pix_height: *pix_height,
                }
            },
            Request::RequestShell => RequestView::RequestShell,
        }
    }
}

/// How a request ended.
#[derive(Debug, Clone)]
pub enum Reply {
    /// The request went through and has nothing to report.
    Done,
    /// The credential was presented; the flag says whether it was accepted.
    Authenticated(bool),
    /// A channel was opened under this number.
    Channel(u32),
    /// The request failed, with the reason.
    Failed(String),
}

/// What `Reply` holds, as sequences.
pub enum ReplyView {
    Done,
    Authenticated(bool),
    Channel(u32),
    Failed(Seq<char>),
}

impl View for Reply {
    type V = ReplyView;

    open spec fn view(&self) -> ReplyView {
        match self {
            Reply::Done => ReplyView::Done,
            Reply::Authenticated(ok) => ReplyView::Authenticated(*ok),
            Reply::Channel(c) => ReplyView::Channel(*c),
            Reply::Failed(reason) => ReplyView::Failed(reason@),
        }
    }
}

/// A handshake under way: the connect, authenticate and channel-open
/// sequence of one session, one request at a time.
#[derive(Debug)]
pub struct Handshake {
    stage: Stage,
    session_id: String,
    username: String,
    secret: Secret,
}

/// What `Handshake` holds, as sequences.
pub struct HandshakeView {
    pub stage: Stage,
    pub session_id: Seq<char>,
    pub username: Seq<char>,
    pub secret: SecretView,
}

impl View for Handshake {
    type V = HandshakeView;

    closed spec fn view(&self) -> HandshakeView {
        HandshakeView {
            stage: self.stage,
            session_id: self.session_id@,
            username: self.username@,
            secret: self.secret@,
        }
    }
}

/// What a finished handshake hands over: the identifier of the session and
/// the number of its one channel.
#[derive(Debug)]
pub struct Established {
    id: String,
    channel: u32,
}

/// What `Established` holds, as sequences.
pub struct EstablishedView {
    pub id: Seq<char>,
    pub channel: u32,
}

impl View for Established {
    type V = EstablishedView;

    closed spec fn view(&self) -> EstablishedView {
        EstablishedView { id: self.id@, channel: self.channel }
    }
}

impl Established {
    /// The identifier of the session.
    pub fn id(&self) -> (id: &String)
        ensures
            id@ == self@.id,
    {
        &self.id
    }

    /// The number of the session's channel.
    pub fn channel(&self) -> (c: u32)
        ensures
            c == self@.channel,
    {
        self.channel
    }
}

/// Where a handshake is after a reply.
#[derive(Debug)]
pub enum Progress {
    /// The handshake goes on with this request.
    Next(Handshake, Request),
    /// The session is up.
    Ready(Established),
    /// The handshake was given up.
    Failed(SshError),
}

/// What `Progress` holds, as sequences.
pub enum ProgressView {
    Next(HandshakeView, RequestView),
    Ready(EstablishedView),
    Failed(ErrorKind, Seq<char>),
}

impl View for Progress {
    type V = ProgressView;

    open spec fn view(&self) -> ProgressView {
        match self {
            Progress::Next(h, r) => ProgressView::Next(h@, r@),
            Progress::Ready(e) => ProgressView::Ready(e@),
            Progress::Failed(e) => ProgressView::Failed(e.kind, e.message@),
        }
    }
}

/// The kind of error that a failure at the given stage is.
pub open spec fn failure_kind(stage: Stage) -> ErrorKind {
    match stage {
        Stage::Connecting => ErrorKind::Connection,
        Stage::LoadingKey => ErrorKind::Authentication,
        Stage::Authenticating => ErrorKind::Authentication,
        Stage::ChannelOpening => ErrorKind::ChannelSetup,
        Stage::RequestingPty(_) => ErrorKind::ChannelSetup,
        Stage::RequestingShell(_) => ErrorKind::ChannelSetup,
    }
}

/// What the text of a failure at the given stage starts with.
pub open spec fn failure_prefix(stage: Stage, secret: SecretView) -> Seq<char> {
    match stage {
        Stage::Connecting => "Connection failed: "@,
        Stage::LoadingKey => "Failed to load key: "@,
        Stage::Authenticating => match secret {
            SecretView::Password(_) => "Auth failed: "@,
            SecretView::KeyFile { .. } => "Key auth failed: "@,
        },
        Stage::ChannelOpening => "Channel open failed: "@,
        Stage::RequestingPty(_) => "PTY request failed: "@,
        Stage::RequestingShell(_) => "Shell request failed: "@,
    }
}

/// Whether the reply is one that the request of the given stage can have.
pub open spec fn fits(stage: Stage, reply: ReplyView) -> bool {
    match reply {
        ReplyView::Failed(_) => true,
        ReplyView::Done => !(stage is Authenticating) && !(stage is ChannelOpening),
        ReplyView::Authenticated(_) => stage is Authenticating,
        ReplyView::Channel(_) => stage is ChannelOpening,
    }
}

/// The terminal request that follows the opening of the channel.
pub open spec fn pty_request() -> RequestView {
    RequestView::RequestPty {
        term: terminal_name(),
        cols: DEFAULT_COLS,
        rows: DEFAULT_ROWS,
        pix_width: 0,
        pix_height: 0,
    }
}

/// The transition of the handshake: where it is after `reply` arrived for
/// the request of its stage.
///
/// A failed request, a rejected credential, and a reply that the request
/// cannot have each end the handshake with an error of the stage's kind.
/// Otherwise the handshake moves to the next stage and asks for the next
/// request; the reply to the shell request brings the session up.
pub open spec fn step(h: HandshakeView, reply: ReplyView) -> ProgressView {
    let kind = failure_kind(h.stage);
    let prefix = failure_prefix(h.stage, h.secret);
    match reply {
        ReplyView::Failed(reason) => ProgressView::Failed(kind, prefix + reason),
        _ => if !fits(h.stage, reply) {
            ProgressView::Failed(kind, prefix + "unexpected reply"@)
        } else {
            match h.stage {
                Stage::Connecting => match h.secret {
                    SecretView::Password(password) => ProgressView::Next(
                        HandshakeView { stage: Stage::Authenticating, ..h },
                        RequestView::AuthenticatePassword { username: h.username, password },
                    ),
                    SecretView::KeyFile { path, passphrase } => ProgressView::Next(
                        HandshakeView { stage: Stage::LoadingKey, ..h },
                        RequestView::LoadKey { path, passphrase },
                    ),
                },
                Stage::LoadingKey => ProgressView::Next(
                    HandshakeView { stage: Stage::Authenticating, ..h },
                    RequestView::AuthenticateKey { username: h.username },
                ),
                Stage::Authenticating => if reply == ReplyView::Authenticated(true) {
                    ProgressView::Next(
                        HandshakeView { stage: Stage::ChannelOpening, ..h },
                        RequestView::OpenChannel,
                    )
                } else {
                    ProgressView::Failed(ErrorKind::Authentication, "Authentication failed"@)
                },
                Stage::ChannelOpening => ProgressView::Next(
                    HandshakeView { stage: Stage::RequestingPty(reply->Channel_0), ..h },
                    pty_request(),
                ),
                Stage::RequestingPty(c) => ProgressView::Next(
                    HandshakeView { stage: Stage::RequestingShell(c), ..h },
                    RequestView::RequestShell,
                ),
                Stage::RequestingShell(c) => ProgressView::Ready(
                    EstablishedView { id: h.session_id, channel: c },
                ),
            }
        },
    }
}

/// How a handshake for the profile starts: with the request to open the
/// transport, or, where the profile lacks the secret that its kind of
/// authentication needs, with an authentication error and no request.
pub open spec fn start(c: ConnectionView, session_id: Seq<char>) -> ProgressView {
    match c.auth_type {
        AuthType::Password => match c.password {
            Some(password) => ProgressView::Next(
                HandshakeView {
                    stage: Stage::Connecting,
                    session_id,
                    username: c.username,
                    secret: SecretView::Password(password),
                },
                RequestView::OpenTransport { host: c.host, port: c.port },
            ),
            None => ProgressView::Failed(ErrorKind::Authentication, "Password not provided"@),
        },
        AuthType::KeyFile => match c.private_key_path {
            Some(path) => ProgressView::Next(
                HandshakeView {
                    stage: Stage::Connecting,
                    session_id,
                    username: c.username,
                    secret: SecretView::KeyFile { path, passphrase: c.passphrase },
                },
                RequestView::OpenTransport { host: c.host, port: c.port },
            ),
            None => ProgressView::Failed(
                ErrorKind::Authentication,
                "Private key path not provided"@,
            ),
        },
    }
}

/// A copy of an optional string.
fn clone_opt(s: &Option<String>) -> (r: Option<String>)
    ensures
        opt_view(r) == opt_view(*s),
{
    match s {
        Some(t) => Some(t.clone()),
        None => None,
    }
}

impl Handshake {
    /// Starts the handshake of a session with the given identifier.
    ///
    /// A profile without the secret that its kind of authentication needs is
    /// turned down here, before any request is made.
    pub fn begin(connection: &Connection, session_id: String) -> (p: Progress)
        ensures
            p@ == start(connection@, session_id@),
            !(p is Ready),
            connection.auth_type == AuthType::KeyFile && connection.private_key_path is None
                ==> p@ is Failed && p@->Failed_0 == ErrorKind::Authentication,
            connection.auth_type == AuthType::Password && connection.password is None ==> p@
                is Failed && p@->Failed_0 == ErrorKind::Authentication,
    {
        let secret = match connection.auth_type {
            AuthType::Password => match &connection.password {
                Some(password) => Secret::Password(password.clone()),
                None => {
                    return Progress::Failed(
                        SshError::new(ErrorKind::Authentication, "Password not provided"),
                    );
                },
            },
            AuthType::KeyFile => match &connection.private_key_path {
                Some(path) => Secret::KeyFile {
                    path: path.clone(),
                    passphrase: clone_opt(&connection.passphrase),
                },
                None => {
                    return Progress::Failed(
                        SshError::new(ErrorKind::Authentication, "Private key path not provided"),
                    );
                },
            },
        };
        let handshake = Handshake {
            stage: Stage::Connecting,
            session_id,
            username: connection.username.clone(),
            secret,
        };
        Progress::Next(
            handshake,
            Request::OpenTransport { host: connection.host.clone(), port: connection.port },
        )
    }

    /// The stage the handshake waits in.
    pub fn stage(&self) -> (s: Stage)
        ensures
            s == self@.stage,
    {
        self.stage
    }

    /// The identifier of the session that is coming up.
    pub fn session_id(&self) -> (id: &String)
        ensures
            id@ == self@.session_id,
    {
        &self.session_id
    }

    /// The error for a failure at the current stage.
    fn failure(&self, detail: &str) -> (e: SshError)
        ensures
            e.is(failure_kind(self@.stage), failure_prefix(self@.stage, self@.secret) + detail@),
    {
        match self.stage {
            Stage::Connecting => SshError::with_detail(
                ErrorKind::Connection,
                "Connection failed: ",
                detail,
            ),
            Stage::LoadingKey => SshError::with_detail(
                ErrorKind::Authentication,
                "Failed to load key: ",
                detail,
            ),
            Stage::Authenticating => match &self.secret {
                Secret::Password(_) => SshError::with_detail(
                    ErrorKind::Authentication,
                    "Auth failed: ",
                    detail,
                ),
                Secret::KeyFile { .. } => SshError::with_detail(
                    ErrorKind::Authentication,
                    "Key auth failed: ",
                    detail,
                ),
            },
            Stage::ChannelOpening => SshError::with_detail(
                ErrorKind::ChannelSetup,
                "Channel open failed: ",
                detail,
            ),
            Stage::RequestingPty(_) => SshError::with_detail(
                ErrorKind::ChannelSetup,
                "PTY request failed: ",
                detail,
            ),
            Stage::RequestingShell(_) => SshError::with_detail(
                ErrorKind::ChannelSetup,
                "Shell request failed: ",
                detail,
            ),
        }
    }

    /// Takes the reply to the request of the current stage and says where
    /// the handshake is now.
    pub fn advance(self, reply: Reply) -> (p: Progress)
        ensures
            p@ == step(self@, reply@),
    {
        match (self.stage, reply) {
            (_, Reply::Failed(reason)) => Progress::Failed(self.failure(reason.as_str())),
            (Stage::Connecting, Reply::Done) => {
                let username = self.username.clone();
                match &self.secret {
                    Secret::Password(password) => {
                        let password = password.clone();
                        Progress::Next(
                            Handshake { stage: Stage::Authenticating, ..self },
                            Request::AuthenticatePassword { username, password },
                        )
                    },
                    Secret::KeyFile { path, passphrase } => {
                        let path = path.clone();
                        let passphrase = clone_opt(passphrase);
                        Progress::Next(
                            Handshake { stage: Stage::LoadingKey, ..self },
                            Request::LoadKey { path, passphrase },
                        )
                    },
                }
            },
            (Stage::LoadingKey, Reply::Done) => {
                let username = self.username.clone();
                Progress::Next(
                    Handshake { stage: Stage::Authenticating, ..self },
                    Request::AuthenticateKey { username },
                )
            },
            (Stage::Authenticating, Reply::Authenticated(accepted)) => {
                if accepted {
                    Progress::Next(
                        Handshake { stage: Stage::ChannelOpening, ..self },
                        Request::OpenChannel,
                    )
                } else {
                    Progress::Failed(
                        SshError::new(ErrorKind::Authentication, "Authentication failed"),
                    )
                }
            },
            (Stage::ChannelOpening, Reply::Channel(c)) => Progress::Next(
                Handshake { stage: Stage::RequestingPty(c), ..self },
                Request::RequestPty {
                    term: "xterm-256color".to_owned(),
                    cols: DEFAULT_COLS,
                    rows: DEFAULT_ROWS,
                    pix_width: 0,
                    pix_height: 0,
                },
            ),
            (Stage::RequestingPty(c), Reply::Done) => Progress::Next(
                Handshake { stage: Stage::RequestingShell(c), ..self },
                Request::RequestShell,
            ),
            (Stage::RequestingShell(c), Reply::Done) => Progress::Ready(
                Established { id: self.session_id, channel: c },
            ),
            _ => Progress::Failed(self.failure("unexpected reply")),
        }
    }
}

/// A call on a session's channel.
#[derive(Debug, Clone)]
pub enum ChannelCall {
    /// Send raw bytes.
    Data(Vec<u8>),
    /// Signal a new window size.
    WindowChange { cols: u32, rows: u32, pix_width: u32, pix_height: u32 },
    /// Ask for the channel to be closed.
    Close,
}

/// What `ChannelCall` holds, as sequences.
pub enum ChannelCallView {
    Data(Seq<u8>),
    WindowChange { cols: u32, rows: u32, pix_width: u32, pix_height: u32 },
    Close,
}

impl View for ChannelCall {
    type V = ChannelCallView;

    open spec fn view(&self) -> ChannelCallView {
        match self {
            ChannelCall::Data(bytes) => ChannelCallView::Data(bytes@),
            ChannelCall::WindowChange { cols, rows, pix_width, pix_height } => {
                ChannelCallView::WindowChange {
                    cols: *cols,
                    rows: *rows,
                    pix_width: *pix_width,
                    pix_height: *pix_height,
                }
            },
            ChannelCall::Close => ChannelCallView::Close,
        }
    }
}

/// What the text of a failed channel call starts with.
pub open spec fn call_failure_prefix(call: ChannelCallView) -> Seq<char> {
    match call {
        ChannelCallView::Data(_) => "Write failed: "@,
        ChannelCallView::WindowChange { .. } => "Resize failed: "@,
        ChannelCallView::Close => "Close failed: "@,
    }
}

impl ChannelCall {
    /// The result of the call, from what the channel said: success stays
    /// success, and a failure becomes a connection error that names the
    /// call and carries the reason.
    pub fn settle(&self, outcome: Result<(), String>) -> (r: Result<(), SshError>)
        ensures
            match outcome {
                Ok(_) => r is Ok,
                Err(reason) => r is Err && r->Err_0.is(
                    ErrorKind::Connection,
                    call_failure_prefix(self@) + reason@,
                ),
            },
    {
        match outcome {
            Ok(_) => Ok(()),
            Err(reason) => {
                let prefix = match self {
                    ChannelCall::Data(_) => "Write failed: ",
                    ChannelCall::WindowChange { .. } => "Resize failed: ",
                    ChannelCall::Close => "Close failed: ",
                };
                Err(SshError::with_detail(ErrorKind::Connection, prefix, reason.as_str()))
            },
        }
    }
}

/// A live session: its identifier, the number of its one interactive
/// channel, and the link through which its owner reaches the connection.
/// Identifier and channel are fixed when the session comes up.
#[derive(Debug)]
pub struct SshSession<H> {
    id: String,
    channel: u32,
    link: H,
}

/// What `SshSession` holds, with its identifier as a character sequence.
pub struct SessionView<H> {
    pub id: Seq<char>,
    pub channel: u32,
    pub link: H,
}

impl<H> View for SshSession<H> {
    type V = SessionView<H>;

    closed spec fn view(&self) -> SessionView<H> {
        SessionView { id: self.id@, channel: self.channel, link: self.link }
    }
}

impl<H> SshSession<H> {
    /// Starts the handshake of a new session, under a freshly drawn
    /// identifier.
    pub fn connect(connection: &Connection) -> (p: Progress)
        ensures
            exists|id: Seq<char>| id.len() == ID_LENGTH && p@ == start(connection@, id),
            !(p is Ready),
            connection.auth_type == AuthType::KeyFile && connection.private_key_path is None
                ==> p@ is Failed && p@->Failed_0 == ErrorKind::Authentication,
            connection.auth_type == AuthType::Password && connection.password is None ==> p@
                is Failed && p@->Failed_0 == ErrorKind::Authentication,
    {
        let id = fresh_id();
        let ghost chars = id@;
        let p = Handshake::begin(connection, id);
        assert(p@ == start(connection@, chars));
        p
    }

    /// The session that a finished handshake stands for, with its link.
    pub fn open(established: Established, link: H) -> (s: SshSession<H>)
        ensures
            s@ == (SessionView { id: established@.id, channel: established@.channel, link }),
    {
        SshSession { id: established.id, channel: established.channel, link }
    }

    /// The identifier of the session.
    pub fn id(&self) -> (id: &String)
        ensures
            id@ == self@.id,
    {
        &self.id
    }

    /// The number of the session's channel.
    pub fn channel(&self) -> (c: u32)
        ensures
            c == self@.channel,
    {
        self.channel
    }

    /// The link to the connection.
    pub fn link(&self) -> (link: &H)
        ensures
            *link == self@.link,
    {
        &self.link
    }

    /// The call that forwards raw bytes to the channel.
    pub fn write(&self, data: &[u8]) -> (call: ChannelCall)
        ensures
            call@ == ChannelCallView::Data(data@),
    {
        ChannelCall::Data(slice_to_vec(data))
    }

    /// The call that signals a new window size; sizes in pixels are not
    /// given.
    pub fn resize(&self, cols: u32, rows: u32) -> (call: ChannelCall)
        ensures
            call@ == (ChannelCallView::WindowChange { cols, rows, pix_width: 0, pix_height: 0 }),
    {
        ChannelCall::WindowChange { cols, rows, pix_width: 0, pix_height: 0 }
    }

    /// Ends the session: gives the link up together with the call that
    /// closes the channel.
    pub fn close(self) -> (r: (ChannelCall, H))
        ensures
            r.0@ == ChannelCallView::Close,
            r.1 == self@.link,
    {
        (ChannelCall::Close, self.link)
    }
}

/// No identifier occurs twice among the sessions.
spec fn distinct_ids<H>(s: Seq<SshSession<H>>) -> bool {
    forall|i: int, j: int| 0 <= i < j < s.len() ==> (#[trigger] s[i])@.id != (#[trigger] s[j])@.id
}

/// Whether one of the sessions has the identifier.
spec fn holds_id<H>(s: Seq<SshSession<H>>, id: Seq<char>) -> bool {
    exists|i: int| 0 <= i < s.len() && (#[trigger] s[i])@.id == id
}

/// The position of a session with the identifier.
spec fn position_of<H>(s: Seq<SshSession<H>>, id: Seq<char>) -> int {
    choose|i: int| 0 <= i < s.len() && (#[trigger] s[i])@.id == id
}

/// The sessions by identifier.
spec fn by_id<H>(s: Seq<SshSession<H>>) -> Map<Seq<char>, SshSession<H>> {
    Map::new(|id: Seq<char>| holds_id(s, id), |id: Seq<char>| s[position_of(s, id)])
}

/// Among sessions with distinct identifiers, each is the one found under
/// its identifier.
proof fn lemma_by_id_at<H>(s: Seq<SshSession<H>>, i: int)
    requires
        distinct_ids(s),
        0 <= i < s.len(),
    ensures
        by_id(s).contains_key(s[i]@.id),
        by_id(s)[s[i]@.id] == s[i],
{
    let id = s[i]@.id;
    assert(holds_id(s, id));
    let j = position_of(s, id);
    if j < i {
        assert(s[j]@.id != s[i]@.id);
    } else if i < j {
        assert(s[i]@.id != s[j]@.id);
    }
}

/// The registry of live sessions: at most one session per identifier.
pub struct SessionManager<H> {
    sessions: Vec<SshSession<H>>,
}

impl<H> View for SessionManager<H> {
    type V = Map<Seq<char>, SshSession<H>>;

    closed spec fn view(&self) -> Map<Seq<char>, SshSession<H>> {
        by_id(self.sessions@)
    }
}

impl<H> SessionManager<H> {
    #[verifier::type_invariant]
    spec fn unique(self) -> bool {
        distinct_ids(self.sessions@)
    }

    /// An empty registry.
    pub fn new() -> (m: SessionManager<H>)
        ensures
            m@ == Map::<Seq<char>, SshSession<H>>::empty(),
    {
        let m = SessionManager { sessions: Vec::new() };
        assert(m@ =~= Map::<Seq<char>, SshSession<H>>::empty());
        m
    }

    /// The position of the session with the identifier, or the number of
    /// sessions where none has it.
    fn find(&self, id: &str) -> (pos: usize)
        ensures
            pos <= self.sessions.len(),
            pos < self.sessions.len() ==> self.sessions@[pos as int]@.id == id@,
            pos == self.sessions.len() ==> !holds_id(self.sessions@, id@),
    {
        let mut i: usize = 0;
        while i < self.sessions.len()
            invariant
                i <= self.sessions.len(),
                forall|j: int| 0 <= j < i ==> (#[trigger] self.sessions@[j])@.id != id@,
            decreases self.sessions.len() - i,
        {
            if str_eq(self.sessions[i].id.as_str(), id) {
                return i;
            }
            i = i + 1;
        }
        i
    }

    /// The number of live sessions.
    pub fn len(&self) -> (n: usize)
        ensures
            n == self@.dom().len(),
            self@.dom().finite(),
    {
        proof {
            use_type_invariant(self);
            lemma_by_id_len(self.sessions@);
        }
        self.sessions.len()
    }

    /// Whether a session with the identifier is live.
    pub fn has_session(&self, id: &str) -> (r: bool)
        ensures
            r == self@.contains_key(id@),
    {
        self.find(id) < self.sessions.len()
    }

    /// The session with the identifier, or the error that none is live.
    pub fn lookup(&self, id: &str) -> (r: Result<&SshSession<H>, SshError>)
        ensures
            match r {
                Ok(s) => self@.contains_key(id@) && *s == self@[id@],
                Err(e) => !self@.contains_key(id@) && e.is(
                    ErrorKind::SessionNotFound,
                    "Session not found"@,
                ),
            },
    {
        let pos = self.find(id);
        if pos < self.sessions.len() {
            proof {
                use_type_invariant(self);
                lemma_by_id_at(self.sessions@, pos as int);
            }
            Ok(&self.sessions[pos])
        } else {
            Err(SshError::session_not_found())
        }
    }

    /// Puts the session in the registry under its identifier and returns
    /// the identifier. A session that was there under the same identifier
    /// gives way to the new one.
    pub fn add_session(&mut self, session: SshSession<H>) -> (id: String)
        ensures
            id@ == session@.id,
            final(self)@ == old(self)@.insert(session@.id, session),
    {
        proof {
            use_type_invariant(&*self);
        }
        let id = session.id.clone();
        let pos = self.find(id.as_str());
        let ghost before = self.sessions@;
        let mut sessions: Vec<SshSession<H>> = Vec::new();
        core::mem::swap(&mut self.sessions, &mut sessions);
        if pos < sessions.len() {
            sessions.set(pos, session);
        } else {
            sessions.push(session);
        }
        proof {
            let after = sessions@;
            let p = pos as int;
            assert(after[p] == session);
            assert forall|i: int, j: int| 0 <= i < j < after.len() implies (#[trigger] after[i])@.id
                != (#[trigger] after[j])@.id by {
                if i != p && j != p {
                    assert(after[i] == before[i]);
                    assert(after[j] == before[j]);
                } else if i == p {
                    assert(after[j] == before[j]);
                    if p < before.len() {
                        assert(before[i]@.id != before[j]@.id);
                    }
                } else {
                    assert(after[i] == before[i]);
                    if p < before.len() {
                        assert(before[i]@.id != before[j]@.id);
                    }
                }
            }
            assert forall|k: Seq<char>| #[trigger]
                by_id(after).contains_key(k) == by_id(before).insert(
                    session@.id,
                    session,
                ).contains_key(k) by {
                if by_id(after).contains_key(k) {
                    let i = position_of(after, k);
                    if i != p {
                        assert(before[i] == after[i]);
                    }
                }
                if k == session@.id {
                    assert(after[p]@.id == k);
                } else if by_id(before).contains_key(k) {
                    let i = position_of(before, k);
                    assert(after[i] == before[i]);
                }
            }
            assert forall|k: Seq<char>| #[trigger] by_id(after).contains_key(k) implies by_id(
                after,
            )[k] == by_id(before).insert(session@.id, session)[k] by {
                let i = position_of(after, k);
                lemma_by_id_at(after, i);
                if i != p {
                    assert(before[i] == after[i]);
                    lemma_by_id_at(before, i);
                }
            }
            assert(by_id(after) =~= by_id(before).insert(session@.id, session));
        }
        self.sessions = sessions;
        id
    }

    /// Takes the session with the identifier out of the registry and hands
    /// it over. Where none is live the registry stays as it is and nothing
    /// is handed over.
    pub fn remove_session(&mut self, id: &str) -> (removed: Option<SshSession<H>>)
        ensures
            final(self)@ == old(self)@.remove(id@),
            removed == if old(self)@.contains_key(id@) {
                Some(old(self)@[id@])
            } else {
                None::<SshSession<H>>
            },
            !old(self)@.contains_key(id@) ==> final(self)@ == old(self)@,
            !final(self)@.contains_key(id@),
    {
        proof {
            use_type_invariant(&*self);
        }
        let pos = self.find(id);
        let ghost before = self.sessions@;
        if pos < self.sessions.len() {
            let mut sessions: Vec<SshSession<H>> = Vec::new();
            core::mem::swap(&mut self.sessions, &mut sessions);
            let session = sessions.remove(pos);
            proof {
                let after = sessions@;
                let p = pos as int;
                lemma_by_id_at(before, p);
                assert forall|i: int, j: int| 0 <= i < j < after.len() implies (#[trigger] after[i])@.id
                    != (#[trigger] after[j])@.id by {
                    let i0 = if i < p { i } else { i + 1 };
                    let j0 = if j < p { j } else { j + 1 };
                    assert(after[i] == before[i0]);
                    assert(after[j] == before[j0]);
                    assert(before[i0]@.id != before[j0]@.id);
                }
                assert forall|k: Seq<char>| #[trigger]
                    by_id(after).contains_key(k) == by_id(before).remove(id@).contains_key(k) by {
                    if by_id(after).contains_key(k) {
                        let i = position_of(after, k);
                        let i0 = if i < p { i } else { i + 1 };
                        assert(after[i] == before[i0]);
                        assert(before[i0]@.id == k);
                        if i0 < p {
                            assert(before[i0]@.id != before[p]@.id);
                        } else {
                            assert(before[p]@.id != before[i0]@.id);
                        }
                    }
                    if k != id@ && by_id(before).contains_key(k) {
                        let i0 = position_of(before, k);
                        let i = if i0 < p { i0 } else { i0 - 1 };
                        assert(after[i] == before[i0]);
                    }
                }
                assert forall|k: Seq<char>| #[trigger] by_id(after).contains_key(k) implies by_id(
                    after,
                )[k] == by_id(before).remove(id@)[k] by {
                    let i = position_of(after, k);
                    let i0 = if i < p { i } else { i + 1 };
                    assert(after[i] == before[i0]);
                    lemma_by_id_at(after, i);
                    lemma_by_id_at(before, i0);
                }
                assert(by_id(after) =~= by_id(before).remove(id@));
            }
            self.sessions = sessions;
            Some(session)
        } else {
            assert(by_id(before) =~= by_id(before).remove(id@));
            None
        }
    }
}

/// Sessions with distinct identifiers are as many as their identifiers.
proof fn lemma_by_id_len<H>(s: Seq<SshSession<H>>)
    requires
        distinct_ids(s),
    ensures
        by_id(s).dom().finite(),
        by_id(s).dom().len() == s.len(),
    decreases s.len(),
{
    if s.len() == 0 {
        assert(by_id(s).dom() =~= Set::<Seq<char>>::empty());
    } else {
        let t = s.drop_last();
        let last = s.last()@.id;
        assert forall|i: int, j: int| 0 <= i < j < t.len() implies (#[trigger] t[i])@.id
            != (#[trigger] t[j])@.id by {
            assert(t[i] == s[i]);
            assert(t[j] == s[j]);
        }
        lemma_by_id_len(t);
        assert forall|k: Seq<char>| #[trigger]
            by_id(s).dom().contains(k) == by_id(t).dom().insert(last).contains(k) by {
            if holds_id(s, k) {
                let i = position_of(s, k);
                if i < t.len() {
                    assert(t[i] == s[i]);
                }
            }
            if holds_id(t, k) {
                let i = position_of(t, k);
                assert(t[i] == s[i]);
            }
            if k == last {
                assert(s[s.len() - 1]@.id == k);
            }
        }
        assert(by_id(s).dom() =~= by_id(t).dom().insert(last));
        if holds_id(t, last) {
            let i = position_of(t, last);
            assert(t[i] == s[i]);
            assert(s[i]@.id != s[s.len() - 1]@.id);
        }
    }
}

/// Where a handshake is after a series of replies, each answering the
/// request that the one before it led to. Replies that arrive after the
/// handshake has ended change nothing.
pub open spec fn run(p: ProgressView, replies: Seq<ReplyView>) -> ProgressView
    decreases replies.len(),
{
    if replies.len() == 0 {
        p
    } else {
        match p {
            ProgressView::Next(h, _) => run(step(h, replies[0]), replies.drop_first()),
            _ => p,
        }
    }
}

/// The requests that a handshake makes over a series of replies, the one
/// it starts with included.
pub open spec fn requests_made(p: ProgressView, replies: Seq<ReplyView>) -> Seq<RequestView>
    decreases replies.len(),
{
    match p {
        ProgressView::Next(h, request) => if replies.len() == 0 {
            seq![request]
        } else {
            seq![request] + requests_made(step(h, replies[0]), replies.drop_first())
        },
        _ => Seq::<RequestView>::empty(),
    }
}

/// The requests of a handshake that goes through, in order: the transport
/// is opened, the declared credential is presented once, one channel is
/// opened, and a terminal and a shell are requested on it.
pub open spec fn full_script(c: ConnectionView) -> Seq<RequestView> {
    let open = RequestView::OpenTransport { host: c.host, port: c.port };
    match c.auth_type {
        AuthType::Password => seq![
            open,
            RequestView::AuthenticatePassword {
                username: c.username,
                password: c.password->Some_0,
            },
            RequestView::OpenChannel,
            pty_request(),
            RequestView::RequestShell,
        ],
        AuthType::KeyFile => seq![
            open,
            RequestView::LoadKey { path: c.private_key_path->Some_0, passphrase: c.passphrase },
            RequestView::AuthenticateKey { username: c.username },
            RequestView::OpenChannel,
            pty_request(),
            RequestView::RequestShell,
        ],
    }
}

/// The replies that bring a session up on `channel`.
pub open spec fn full_replies(auth_type: AuthType, channel: u32) -> Seq<ReplyView> {
    match auth_type {
        AuthType::Password => seq![
            ReplyView::Done,
            ReplyView::Authenticated(true),
            ReplyView::Channel(channel),
            ReplyView::Done,
            ReplyView::Done,
        ],
        AuthType::KeyFile => seq![
            ReplyView::Done,
            ReplyView::Done,
            ReplyView::Authenticated(true),
            ReplyView::Channel(channel),
            ReplyView::Done,
            ReplyView::Done,
        ],
    }
}

/// A failed request ends the handshake at every stage, with an error of
/// that stage's kind that carries the reason.
pub proof fn law_failure_ends_handshake(h: HandshakeView, reason: Seq<char>)
    ensures
        step(h, ReplyView::Failed(reason)) == ProgressView::Failed(
            failure_kind(h.stage),
            failure_prefix(h.stage, h.secret) + reason,
        ),
{
}

/// A session comes up all at once or not at all: a handshake ends in a
/// session only where every one of its requests went through. The session
/// then carries the identifier the handshake started with and the channel
/// that was opened, and the requests that were made are those of the full
/// script, each made once.
pub proof fn law_all_or_nothing(c: ConnectionView, id: Seq<char>, replies: Seq<ReplyView>)
    requires
        run(start(c, id), replies) is Ready,
    ensures
        ({
            let up = run(start(c, id), replies)->Ready_0;
            let script = full_replies(c.auth_type, up.channel);
            &&& up.id == id
            &&& replies.len() >= script.len()
            &&& replies.take(script.len() as int) == script
            &&& requests_made(start(c, id), replies.take(script.len() as int - 1)) == full_script(c)
        }),
{
    reveal_with_fuel(run, 8);
    reveal_with_fuel(requests_made, 8);
    let r1 = replies.drop_first();
    let r2 = r1.drop_first();
    let r3 = r2.drop_first();
    let r4 = r3.drop_first();
    let r5 = r4.drop_first();
    let at0 = start(c, id);
    assert(at0 is Next);
    assert(replies.len() > 0);
    let at1 = step(at0->Next_0, replies[0]);
    assert(at1 is Next);
    assert(r1.len() > 0);
    let at2 = step(at1->Next_0, r1[0]);
    assert(at2 is Next);
    assert(r2.len() > 0);
    let at3 = step(at2->Next_0, r2[0]);
    assert(at3 is Next);
    assert(r3.len() > 0);
    let at4 = step(at3->Next_0, r3[0]);
    assert(at4 is Next);
    assert(r4.len() > 0);
    let at5 = step(at4->Next_0, r4[0]);
    let up = run(start(c, id), replies)->Ready_0;
    let script = full_replies(c.auth_type, up.channel);
    let n = script.len() as int;
    assert(r1[0] == replies[1]);
    assert(r2[0] == replies[2]);
    assert(r3[0] == replies[3]);
    assert(r4[0] == replies[4]);
    if c.auth_type == AuthType::KeyFile {
        assert(at5 is Next);
        assert(r5.len() > 0);
        assert(r5[0] == replies[5]);
    }
    assert(replies.take(n) =~= script);
    let used = replies.take(n - 1);
    let u1 = used.drop_first();
    let u2 = u1.drop_first();
    let u3 = u2.drop_first();
    let u4 = u3.drop_first();
    assert(used[0] == replies[0]);
    assert(u1[0] == replies[1]);
    assert(u2[0] == replies[2]);
    assert(u3[0] == replies[3]);
    if c.auth_type == AuthType::KeyFile {
        assert(u4[0] == replies[4]);
        assert(u4.drop_first().len() == 0);
    } else {
        assert(u4.len() == 0);
    }
    assert(requests_made(start(c, id), used) =~= full_script(c));
}

/// An operation on the registry.
pub enum RegistryOp<H> {
    /// Put the session in under its identifier.
    Add(SshSession<H>),
    /// Take the session with the identifier out.
    Remove(Seq<char>),
}

/// The identifier that an operation is about.
pub open spec fn op_id<H>(op: RegistryOp<H>) -> Seq<char> {
    match op {
        RegistryOp::Add(s) => s@.id,
        RegistryOp::Remove(id) => id,
    }
}

/// The registry after an operation.
pub open spec fn apply<H>(m: Map<Seq<char>, SshSession<H>>, op: RegistryOp<H>) -> Map<
    Seq<char>,
    SshSession<H>,
> {
    match op {
        RegistryOp::Add(s) => m.insert(s@.id, s),
        RegistryOp::Remove(id) => m.remove(id),
    }
}

/// The registry after a series of operations.
pub open spec fn apply_all<H>(m: Map<Seq<char>, SshSession<H>>, ops: Seq<RegistryOp<H>>) -> Map<
    Seq<char>,
    SshSession<H>,
>
    decreases ops.len(),
{
    if ops.len() == 0 {
        m
    } else {
        apply(apply_all(m, ops.drop_last()), ops.last())
    }
}

/// A session that was put in the registry is the one found under its
/// identifier, whatever is done about other identifiers, until its own is
/// removed or given to another session.
pub proof fn law_session_stays_until_removed<H>(
    m: Map<Seq<char>, SshSession<H>>,
    s: SshSession<H>,
    ops: Seq<RegistryOp<H>>,
)
    requires
        forall|i: int| 0 <= i < ops.len() ==> op_id(#[trigger] ops[i]) != s@.id,
    ensures
        apply_all(m.insert(s@.id, s), ops).contains_key(s@.id),
        apply_all(m.insert(s@.id, s), ops)[s@.id] == s,
    decreases ops.len(),
{
    if ops.len() > 0 {
        let rest = ops.drop_last();
        assert forall|i: int| 0 <= i < rest.len() implies op_id(#[trigger] rest[i]) != s@.id by {
            assert(rest[i] == ops[i]);
        }
        law_session_stays_until_removed(m, s, rest);
        assert(op_id(ops[ops.len() - 1]) != s@.id);
    }
}

/// Once an identifier was removed, no session is found under it.
pub proof fn law_removed_is_not_found<H>(m: Map<Seq<char>, SshSession<H>>, id: Seq<char>)
    ensures
        !apply(m, RegistryOp::Remove(id)).contains_key(id),
{
}

/// Removing an identifier that is not in the registry changes nothing, so
/// removing one twice is the same as removing it once.
pub proof fn law_remove_is_idempotent<H>(m: Map<Seq<char>, SshSession<H>>, id: Seq<char>)
    ensures
        !m.contains_key(id) ==> apply(m, RegistryOp::Remove(id)) == m,
        apply(apply(m, RegistryOp::Remove(id)), RegistryOp::Remove(id)) == apply(
            m,
            RegistryOp::Remove(id),
        ),
{
    assert(m.remove(id).remove(id) =~= m.remove(id));
    if !m.contains_key(id) {
        assert(m.remove(id) =~= m);
    }
}

} // verus!
