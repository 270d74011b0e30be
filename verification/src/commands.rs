//! The command surface: what each command decides before and after the
//! work on the wire, the routing of session events to the subscriber, and
//! the decisions of the file watcher.

use crate::connection::{AuthType, Connection, ConnectionStore, ConnectionView, first_with_id, opt_view, ID_LENGTH};
use crate::error::{ErrorKind, SshError};
use crate::sftp::{FileAttrs, SftpCall, SftpCallView, no_attrs};
use crate::ssh::{ChannelCall, ChannelCallView, Progress, SessionManager, SshEvent, SshEventView, SshSession, start};
use crate::text::{file_name, file_name_of, str_eq};
use vstd::prelude::*;
use vstd::string::*;

verus! {

/// What the subscriber is told about a session.
#[derive(Debug, Clone)]
pub enum SessionNotice {
    /// Output arrived.
    Data { session_id: String, data: Vec<u8> },
    /// An error frame arrived.
    Error { session_id: String, error: String },
    /// The session's channel was closed.
    Closed { session_id: String },
}

/// What `SessionNotice` holds, as sequences.
pub enum SessionNoticeView {
    Data { session_id: Seq<char>, data: Seq<u8> },
    Error { session_id: Seq<char>, error: Seq<char> },
    Closed { session_id: Seq<char> },
}

impl View for SessionNotice {
    type V = SessionNoticeView;

    open spec fn view(&self) -> SessionNoticeView {
        match self {
            SessionNotice::Data { session_id, data } => SessionNoticeView::Data {
                session_id: session_id@,
                data: data@,
            },
            SessionNotice::Error { session_id, error } => SessionNoticeView::Error {
                session_id: session_id@,
                error: error@,
            },
            SessionNotice::Closed { session_id } => SessionNoticeView::Closed {
                session_id: session_id@,
            },
        }
    }
}

impl SessionNotice {
    /// The name under which the notice is published.
    pub fn event_name(&self) -> (name: &'static str)
        ensures
            name@ == match self@ {
                SessionNoticeView::Data { .. } => "ssh-data"@,
                SessionNoticeView::Error { .. } => "ssh-error"@,
                SessionNoticeView::Closed { .. } => "ssh-close"@,
            },
    {
        match self {
            SessionNotice::Data { .. } => "ssh-data",
            SessionNotice::Error { .. } => "ssh-error",
            SessionNotice::Closed { .. } => "ssh-close",
        }
    }
}

/// The notice for one event of the session with the given identifier.
pub open spec fn notice_for(session_id: Seq<char>, event: SshEventView) -> SessionNoticeView {
    match event {
        SshEventView::Data(data) => SessionNoticeView::Data { session_id, data },
        SshEventView::Error(error) => SessionNoticeView::Error { session_id, error },
        SshEventView::Close => SessionNoticeView::Closed { session_id },
    }
}

/// What is published for a series of events: the notice for each event in
/// turn, up to and including the first `Close`.
pub open spec fn published(session_id: Seq<char>, events: Seq<SshEventView>) -> Seq<
    SessionNoticeView,
>
    decreases events.len(),
{
    if events.len() == 0 {
        Seq::<SessionNoticeView>::empty()
    } else if events[0] is Close {
        seq![notice_for(session_id, events[0])]
    } else {
        seq![notice_for(session_id, events[0])] + published(session_id, events.drop_first())
    }
}

/// How many events of a series are routed: all up to and including the
/// first `Close`.
pub open spec fn routed_count(events: Seq<SshEventView>) -> int
    decreases events.len(),
{
    if events.len() == 0 {
        0
    } else if events[0] is Close {
        1
    } else {
        1 + routed_count(events.drop_first())
    }
}

/// The router keeps the order of arrival: what is published is, notice for
/// event and in the same order, the events up to and including the first
/// `Close`. Nothing before it is dropped, merged or moved, and nothing after
/// it is published.
pub proof fn law_router_keeps_order(session_id: Seq<char>, events: Seq<SshEventView>)
    ensures
        0 <= routed_count(events) <= events.len(),
        published(session_id, events).len() == routed_count(events),
        forall|i: int|
            0 <= i < routed_count(events) ==> #[trigger] published(session_id, events)[i]
                == notice_for(session_id, events[i]),
        forall|i: int| 0 <= i < routed_count(events) - 1 ==> !(#[trigger] events[i] is Close),
        routed_count(events) < events.len() ==> events[routed_count(events) - 1] is Close,
    decreases events.len(),
{
    if events.len() > 0 && !(events[0] is Close) {
        let rest = events.drop_first();
        law_router_keeps_order(session_id, rest);
        assert forall|i: int| 0 <= i < routed_count(events) implies #[trigger] published(
            session_id,
            events,
        )[i] == notice_for(session_id, events[i]) by {
            if i > 0 {
                assert(published(session_id, rest)[i - 1] == notice_for(session_id, rest[i - 1]));
                assert(rest[i - 1] == events[i]);
            }
        }
        assert forall|i: int| 0 <= i < routed_count(events) - 1 implies !(#[trigger] events[i]
            is Close) by {
            if i > 0 {
                assert(rest[i - 1] == events[i]);
            }
        }
        if routed_count(events) < events.len() {
            assert(rest[routed_count(rest) - 1] == events[routed_count(events) - 1]);
        }
    }
}

/// The router of one session: it turns the events of the session into
/// notices, in order, until the channel is closed or the stream of events
/// ends.
#[derive(Debug)]
pub struct Router {
    session_id: String,
    running: bool,
}

impl Router {
    /// The identifier of the session that is routed.
    pub closed spec fn session(&self) -> Seq<char> {
        self.session_id@
    }

    /// Whether the router has not ended yet.
    pub closed spec fn is_running(&self) -> bool {
        self.running
    }

    /// A running router for the session.
    pub fn new(session_id: String) -> (r: Router)
        ensures
            r.session() == session_id@,
            r.is_running(),
    {
        Router { session_id, running: true }
    }

    /// Whether the router has not ended yet.
    pub fn running(&self) -> (r: bool)
        ensures
            r == self.is_running(),
    {
        self.running
    }

    /// Takes what the stream of events gave, an event or its end, and says
    /// what to publish.
    ///
    /// A running router publishes the notice for every event; it ends with
    /// `Close` and with the end of the stream, and goes on after everything
    /// else. A router that has ended publishes nothing and stays ended.
    pub fn route(&mut self, event: Option<SshEvent>) -> (notice: Option<SessionNotice>)
        ensures
            final(self).session() == old(self).session(),
            final(self).is_running() == (old(self).is_running() && event is Some
                && !(event->Some_0 is Close)),
            match notice {
                Some(n) => old(self).is_running() && event is Some && n@ == notice_for(
                    old(self).session(),
                    event->Some_0@,
                ),
                None => !old(self).is_running() || event is None,
            },
    {
        if !self.running {
            return None;
        }
        match event {
            Some(SshEvent::Data(data)) => Some(
                SessionNotice::Data { session_id: self.session_id.clone(), data },
            ),
            Some(SshEvent::Error(error)) => Some(
                SessionNotice::Error { session_id: self.session_id.clone(), error },
            ),
            Some(SshEvent::Close) => {
                self.running = false;
                Some(SessionNotice::Closed { session_id: self.session_id.clone() })
            },
            None => {
                self.running = false;
                None
            },
        }
    }
}

/// Routes a whole series of events of one session, followed by the end of
/// the stream.
pub fn route_all(session_id: &str, events: Vec<SshEvent>) -> (notices: Vec<SessionNotice>)
    ensures
        notice_views(notices@) == published(session_id@, event_views(events@)),
{
    let ghost all = event_views(events@);
    let mut router = Router::new(session_id.to_owned());
    let mut notices: Vec<SessionNotice> = Vec::new();
    proof {
        assert(all.skip(0) =~= all);
        assert(notice_views(notices@) + published(session_id@, all) =~= published(
            session_id@,
            all,
        ));
    }
    for event in it: events
        invariant
            it.seq() == events@,
            all == event_views(events@),
            router.session() == session_id@,
            router.is_running() ==> notice_views(notices@) + published(
                session_id@,
                all.skip(it.index() as int),
            ) == published(session_id@, all),
            !router.is_running() ==> notice_views(notices@) == published(session_id@, all),
    {
        let ghost n = it.index() as int;
        let ghost before = notices@;
        let ghost rest = all.skip(n);
        proof {
            assert(rest[0] == event@);
            assert(rest.drop_first() =~= all.skip(n + 1));
        }
        match router.route(Some(event)) {
            Some(notice) => {
                notices.push(notice);
                proof {
                    assert(notice_views(notices@) =~= notice_views(before).push(notice@));
                    if event@ is Close {
                        assert(notice_views(before).push(notice@) =~= notice_views(before)
                            + published(session_id@, rest));
                    } else {
                        assert(notice_views(before).push(notice@) + published(
                            session_id@,
                            all.skip(n + 1),
                        ) =~= notice_views(before) + published(session_id@, rest));
                    }
                }
            },
            None => {},
        }
    }
    proof {
        if router.is_running() {
            assert(all.skip(all.len() as int) =~= Seq::<SshEventView>::empty());
            assert(notice_views(notices@) + Seq::<SessionNoticeView>::empty() =~= notice_views(
                notices@,
            ));
        }
    }
    let _ = router.route(None);
    notices
}

/// The views of a sequence of events.
pub open spec fn event_views(s: Seq<SshEvent>) -> Seq<SshEventView> {
    s.map_values(|e: SshEvent| e@)
}

/// The views of a sequence of notices.
pub open spec fn notice_views(s: Seq<SessionNotice>) -> Seq<SessionNoticeView> {
    s.map_values(|n: SessionNotice| n@)
}

/// How many events the queue between a session and its router holds before
/// the session has to wait.
pub const EVENT_QUEUE_CAPACITY: usize = 1024;

/// A command that is addressed to a live session.
#[derive(Debug, Clone)]
pub enum SessionCommand {
    Write { data: Vec<u8> },
    Resize { cols: u32, rows: u32 },
    List { path: String },
    Download { remote_path: String, local_path: String },
    Upload { local_path: String, remote_path: String },
    Mkdir { path: String },
    Delete { path: String, is_dir: bool },
    Rename { from: String, to: String },
    GetHome,
    Chmod { path: String, mode: u32 },
}

/// What `SessionCommand` holds, as sequences.
pub enum SessionCommandView {
    Write { data: Seq<u8> },
    Resize { cols: u32, rows: u32 },
    List { path: Seq<char> },
    Download { remote_path: Seq<char>, local_path: Seq<char> },
    Upload { local_path: Seq<char>, remote_path: Seq<char> },
    Mkdir { path: Seq<char> },
    Delete { path: Seq<char>, is_dir: bool },
    Rename { from: Seq<char>, to: Seq<char> },
    GetHome,
    Chmod { path: Seq<char>, mode: u32 },
}

impl View for SessionCommand {
    type V = SessionCommandView;

    open spec fn view(&self) -> SessionCommandView {
        match self {
            SessionCommand::Write { data } => SessionCommandView::Write { data: data@ },
            SessionCommand::Resize { cols, rows } => SessionCommandView::Resize {
                cols: *cols,
                rows: *rows,
            },
            SessionCommand::List { path } => SessionCommandView::List { path: path@ },
            SessionCommand::Download { remote_path, local_path } => SessionCommandView::Download {
                remote_path: remote_path@,
                local_path: local_path@,
            },
            SessionCommand::Upload { local_path, remote_path } => SessionCommandView::Upload {
                local_path: local_path@,
                remote_path: remote_path@,
            },
            SessionCommand::Mkdir { path } => SessionCommandView::Mkdir { path: path@ },
            SessionCommand::Delete { path, is_dir } => SessionCommandView::Delete {
                path: path@,
                is_dir: *is_dir,
            },
            SessionCommand::Rename { from, to } => SessionCommandView::Rename {
                from: from@,
                to: to@,
            },
            SessionCommand::GetHome => SessionCommandView::GetHome,
            SessionCommand::Chmod { path, mode } => SessionCommandView::Chmod {
                path: path@,
                mode: *mode,
            },
        }
    }
}

/// The work on the wire that a command asks for.
#[derive(Debug, Clone)]
pub enum SessionCall {
    /// A call on the session's interactive channel.
    Channel(ChannelCall),
    /// A remote file operation, on a link of its own.
    Sftp(SftpCall),
}

/// What `SessionCall` holds, as sequences.
pub enum SessionCallView {
    Channel(ChannelCallView),
    Sftp(SftpCallView),
}

impl View for SessionCall {
    type V = SessionCallView;

    open spec fn view(&self) -> SessionCallView {
        match self {
            SessionCall::Channel(c) => SessionCallView::Channel(c@),
            SessionCall::Sftp(c) => SessionCallView::Sftp(c@),
        }
    }
}

/// The work that a command asks for.
pub open spec fn call_for(command: SessionCommandView) -> SessionCallView {
    match command {
        SessionCommandView::Write { data } => SessionCallView::Channel(ChannelCallView::Data(data)),
        SessionCommandView::Resize { cols, rows } => SessionCallView::Channel(
            ChannelCallView::WindowChange { cols, rows, pix_width: 0, pix_height: 0 },
        ),
        SessionCommandView::List { path } => SessionCallView::Sftp(SftpCallView::ReadDir { path }),
        SessionCommandView::Download { remote_path, local_path } => SessionCallView::Sftp(
            SftpCallView::Download { remote_path, local_path },
        ),
        SessionCommandView::Upload { local_path, remote_path } => SessionCallView::Sftp(
            SftpCallView::Upload { local_path, remote_path },
        ),
        SessionCommandView::Mkdir { path } => SessionCallView::Sftp(
            SftpCallView::CreateDir { path },
        ),
        SessionCommandView::Delete { path, is_dir } => if is_dir {
            SessionCallView::Sftp(SftpCallView::RemoveDir { path })
        } else {
            SessionCallView::Sftp(SftpCallView::RemoveFile { path })
        },
        SessionCommandView::Rename { from, to } => SessionCallView::Sftp(
            SftpCallView::Rename { from, to },
        ),
        SessionCommandView::GetHome => SessionCallView::Sftp(
            SftpCallView::Canonicalize { path: seq!['.'] },
        ),
        SessionCommandView::Chmod { path, mode } => SessionCallView::Sftp(
            SftpCallView::SetMetadata {
                path,
                attrs: FileAttrs { permissions: Some(mode), ..no_attrs() },
            },
        ),
    }
}

/// What a command addressed to `session_id` comes to: the session it works
/// on together with the work, or the error that no such session is live.
pub open spec fn planned<H>(
    sessions: Map<Seq<char>, SshSession<H>>,
    session_id: Seq<char>,
    command: SessionCommandView,
) -> Result<(SshSession<H>, SessionCallView), (ErrorKind, Seq<char>)> {
    if sessions.contains_key(session_id) {
        Ok((sessions[session_id], call_for(command)))
    } else {
        Err((ErrorKind::SessionNotFound, "Session not found"@))
    }
}

/// Whether the result of planning is the one that `planned` gives.
pub open spec fn plan_matches<H>(
    r: Result<(&SshSession<H>, SessionCall), SshError>,
    expected: Result<(SshSession<H>, SessionCallView), (ErrorKind, Seq<char>)>,
) -> bool {
    match r {
        Ok((session, call)) => expected == Ok::<_, (ErrorKind, Seq<char>)>((*session, call@)),
        Err(e) => expected == Err::<(SshSession<H>, SessionCallView), _>((e.kind, e.message@)),
    }
}

/// Whatever is asked of a session that the registry does not hold, and
/// however often, the answer is that the session was not found.
pub proof fn law_unknown_session_is_not_found<H>(
    sessions: Map<Seq<char>, SshSession<H>>,
    session_id: Seq<char>,
    commands: Seq<SessionCommandView>,
)
    requires
        !sessions.contains_key(session_id),
    ensures
        forall|i: int|
            0 <= i < commands.len() ==> planned(sessions, session_id, #[trigger] commands[i])
                == Err::<(SshSession<H>, SessionCallView), _>(
                (ErrorKind::SessionNotFound, "Session not found"@),
            ),
{
}

impl SessionCommand {
    /// The work that the command asks for.
    pub fn call(self) -> (call: SessionCall)
        ensures
            call@ == call_for(self@),
    {
        match self {
            SessionCommand::Write { data } => SessionCall::Channel(ChannelCall::Data(data)),
            SessionCommand::Resize { cols, rows } => SessionCall::Channel(
                ChannelCall::WindowChange { cols, rows, pix_width: 0, pix_height: 0 },
            ),
            SessionCommand::List { path } => SessionCall::Sftp(SftpCall::ReadDir { path }),
            SessionCommand::Download { remote_path, local_path } => SessionCall::Sftp(
                crate::sftp::download_file(remote_path.as_str(), local_path.as_str()),
            ),
            SessionCommand::Upload { local_path, remote_path } => SessionCall::Sftp(
                crate::sftp::upload_file(local_path.as_str(), remote_path.as_str()),
            ),
            SessionCommand::Mkdir { path } => SessionCall::Sftp(crate::sftp::mkdir(path.as_str())),
            SessionCommand::Delete { path, is_dir } => {
                if is_dir {
                    SessionCall::Sftp(crate::sftp::remove_dir(path.as_str()))
                } else {
                    SessionCall::Sftp(crate::sftp::remove_file(path.as_str()))
                }
            },
            SessionCommand::Rename { from, to } => SessionCall::Sftp(
                crate::sftp::rename(from.as_str(), to.as_str()),
            ),
            SessionCommand::GetHome => SessionCall::Sftp(crate::sftp::get_home_dir()),
            SessionCommand::Chmod { path, mode } => SessionCall::Sftp(
                crate::sftp::set_permissions(path.as_str(), mode),
            ),
        }
    }
}

/// Looks the session up and says what work the command asks of it. The
/// registry is not changed.
pub fn plan<'a, H>(
    manager: &'a SessionManager<H>,
    session_id: &str,
    command: SessionCommand,
) -> (r: Result<(&'a SshSession<H>, SessionCall), SshError>)
    ensures
        plan_matches(r, planned(manager@, session_id@, command@)),
{
    match manager.lookup(session_id) {
        Ok(session) => Ok((session, command.call())),
        Err(e) => Err(e),
    }
}

/// Forwards raw bytes to the channel of a session.
pub fn ssh_write<'a, H>(manager: &'a SessionManager<H>, session_id: &str, data: Vec<u8>) -> (r:
    Result<(&'a SshSession<H>, SessionCall), SshError>)
    ensures
        plan_matches(
            r,
            planned(manager@, session_id@, SessionCommandView::Write { data: data@ }),
        ),
{
    plan(manager, session_id, SessionCommand::Write { data })
}

/// Signals a new window size on the channel of a session.
pub fn ssh_resize<'a, H>(manager: &'a SessionManager<H>, session_id: &str, cols: u32, rows: u32)
    -> (r: Result<(&'a SshSession<H>, SessionCall), SshError>)
    ensures
        plan_matches(
            r,
            planned(manager@, session_id@, SessionCommandView::Resize { cols, rows }),
        ),
{
    plan(manager, session_id, SessionCommand::Resize { cols, rows })
}

/// Ends a session: takes it out of the registry and hands over its link
/// with the call that closes the channel. Where no session with the
/// identifier is live there is nothing to do, and the registry stays as it
/// is: disconnecting twice is the same as disconnecting once.
pub fn ssh_disconnect<H>(manager: &mut SessionManager<H>, session_id: &str) -> (r: Option<
    (ChannelCall, H),
>)
    ensures
        final(manager)@ == old(manager)@.remove(session_id@),
        !final(manager)@.contains_key(session_id@),
        !old(manager)@.contains_key(session_id@) ==> r is None && final(manager)@ == old(
            manager,
        )@,
        old(manager)@.contains_key(session_id@) ==> r is Some && r->Some_0.0@
            == ChannelCallView::Close && r->Some_0.1 == old(manager)@[session_id@]@.link,
{
    match manager.remove_session(session_id) {
        Some(session) => Some(session.close()),
        None => None,
    }
}

/// Lists a remote directory.
pub fn sftp_list<'a, H>(manager: &'a SessionManager<H>, session_id: &str, path: String) -> (r:
    Result<(&'a SshSession<H>, SessionCall), SshError>)
    ensures
        plan_matches(r, planned(manager@, session_id@, SessionCommandView::List { path: path@ })),
{
    plan(manager, session_id, SessionCommand::List { path })
}

/// Copies a remote file to a local path.
pub fn sftp_download<'a, H>(
    manager: &'a SessionManager<H>,
    session_id: &str,
    remote_path: String,
    local_path: String,
) -> (r: Result<(&'a SshSession<H>, SessionCall), SshError>)
    ensures
        plan_matches(
            r,
            planned(
                manager@,
                session_id@,
                SessionCommandView::Download {
                    remote_path: remote_path@,
                    local_path: local_path@,
                },
            ),
        ),
{
    plan(manager, session_id, SessionCommand::Download { remote_path, local_path })
}

/// Copies a local file to a remote path.
pub fn sftp_upload<'a, H>(
    manager: &'a SessionManager<H>,
    session_id: &str,
    local_path: String,
    remote_path: String,
) -> (r: Result<(&'a SshSession<H>, SessionCall), SshError>)
    ensures
        plan_matches(
            r,
            planned(
                manager@,
                session_id@,
                SessionCommandView::Upload { local_path: local_path@, remote_path: remote_path@ },
            ),
        ),
{
    plan(manager, session_id, SessionCommand::Upload { local_path, remote_path })
}

/// Creates a remote directory.
pub fn sftp_mkdir<'a, H>(manager: &'a SessionManager<H>, session_id: &str, path: String) -> (r:
    Result<(&'a SshSession<H>, SessionCall), SshError>)
    ensures
        plan_matches(
            r,
            planned(manager@, session_id@, SessionCommandView::Mkdir { path: path@ }),
        ),
{
    plan(manager, session_id, SessionCommand::Mkdir { path })
}

/// Removes a remote file, or a remote directory where `is_dir` says so.
pub fn sftp_delete<'a, H>(
    manager: &'a SessionManager<H>,
    session_id: &str,
    path: String,
    is_dir: bool,
) -> (r: Result<(&'a SshSession<H>, SessionCall), SshError>)
    ensures
        plan_matches(
            r,
            planned(manager@, session_id@, SessionCommandView::Delete { path: path@, is_dir }),
        ),
{
    plan(manager, session_id, SessionCommand::Delete { path, is_dir })
}

/// Renames or moves a remote file or directory.
pub fn sftp_rename<'a, H>(
    manager: &'a SessionManager<H>,
    session_id: &str,
    from: String,
    to: String,
) -> (r: Result<(&'a SshSession<H>, SessionCall), SshError>)
    ensures
        plan_matches(
            r,
            planned(manager@, session_id@, SessionCommandView::Rename { from: from@, to: to@ }),
        ),
{
    plan(manager, session_id, SessionCommand::Rename { from, to })
}

/// Resolves the home directory of the remote user.
pub fn sftp_get_home<'a, H>(manager: &'a SessionManager<H>, session_id: &str) -> (r: Result<
    (&'a SshSession<H>, SessionCall),
    SshError,
>)
    ensures
        plan_matches(r, planned(manager@, session_id@, SessionCommandView::GetHome)),
{
    plan(manager, session_id, SessionCommand::GetHome)
}

/// Sets the permission bits of a remote path.
pub fn sftp_chmod<'a, H>(
    manager: &'a SessionManager<H>,
    session_id: &str,
    path: String,
    mode: u32,
) -> (r: Result<(&'a SshSession<H>, SessionCall), SshError>)
    ensures
        plan_matches(
            r,
            planned(manager@, session_id@, SessionCommandView::Chmod { path: path@, mode }),
        ),
{
    plan(manager, session_id, SessionCommand::Chmod { path, mode })
}

/// What happened to a watched file, by the kinds an observation tells apart.
#[derive(Debug, Clone, Copy, PartialEq, Eq, Structural)]
pub enum ChangeKind {
    Any,
    Access,
    Create,
    Modify,
    Remove,
    Other,
}

/// What the observation of a local file reported.
#[derive(Debug, Clone, Copy, PartialEq, Eq, Structural)]
pub enum WatchSignal {
    /// The file was modified.
    Modified,
    /// Something else happened to the file.
    Other,
    /// The observation failed or was closed.
    Lost,
}

/// What the watcher does about a signal.
#[derive(Debug, Clone, Copy, PartialEq, Eq, Structural)]
pub enum WatchAction {
    /// Wait for the writer to finish, then start an upload attempt of its own.
    Upload { settle_ms: u64 },
    /// Nothing.
    Ignore,
    /// End the watch.
    Stop,
}

/// How long a writer is given to finish before the file is uploaded, in
/// milliseconds.
pub const SETTLE_DELAY_MS: u64 = 500;

/// What the watcher does about a signal: every modification gets an upload
/// attempt of its own, a lost observation ends the watch, and nothing else
/// matters.
pub open spec fn action_for(signal: WatchSignal) -> WatchAction {
    match signal {
        WatchSignal::Modified => WatchAction::Upload { settle_ms: SETTLE_DELAY_MS },
        WatchSignal::Other => WatchAction::Ignore,
        WatchSignal::Lost => WatchAction::Stop,
    }
}

/// The signal for a change, given whether it is a modification.
pub fn signal_for(modified: bool) -> (signal: WatchSignal)
    ensures
        signal == if modified {
            WatchSignal::Modified
        } else {
            WatchSignal::Other
        },
{
    if modified {
        WatchSignal::Modified
    } else {
        WatchSignal::Other
    }
}

/// The signal for a change of the given kind: `Modified` for a modification
/// of content, name or metadata, `Other` for a change of every other kind.
pub fn classify(kind: ChangeKind) -> (signal: WatchSignal)
    ensures
        signal == if kind == ChangeKind::Modify {
            WatchSignal::Modified
        } else {
            WatchSignal::Other
        },
{
    signal_for(kind_is_modify(kind))
}

/// Calls `EventKind::is_modify` of notify on the kind, which is true of the
/// `Modify` kind, whatever was modified, and of no other kind.
#[verifier::external_body]
fn kind_is_modify(kind: ChangeKind) -> (modified: bool)
    ensures
        modified == (kind == ChangeKind::Modify),
{
    let kind = match kind {
        ChangeKind::Any => notify::EventKind::Any,
        ChangeKind::Access => notify::EventKind::Access(notify::event::AccessKind::Any),
        ChangeKind::Create => notify::EventKind::Create(notify::event::CreateKind::Any),
        ChangeKind::Modify => notify::EventKind::Modify(notify::event::ModifyKind::Any),
        ChangeKind::Remove => notify::EventKind::Remove(notify::event::RemoveKind::Any),
        ChangeKind::Other => notify::EventKind::Other,
    };
    kind.is_modify()
}

/// What the watcher does about a signal.
pub fn on_watch_signal(signal: WatchSignal) -> (action: WatchAction)
    ensures
        action == action_for(signal),
{
    match signal {
        WatchSignal::Modified => WatchAction::Upload { settle_ms: SETTLE_DELAY_MS },
        WatchSignal::Other => WatchAction::Ignore,
        WatchSignal::Lost => WatchAction::Stop,
    }
}

/// What a watch does over a series of signals: the action for each signal
/// in turn, up to and including the first `Stop`.
pub open spec fn watch_actions(signals: Seq<WatchSignal>) -> Seq<WatchAction>
    decreases signals.len(),
{
    if signals.len() == 0 {
        Seq::<WatchAction>::empty()
    } else if signals[0] == WatchSignal::Lost {
        seq![action_for(signals[0])]
    } else {
        seq![action_for(signals[0])] + watch_actions(signals.drop_first())
    }
}

/// How many signals of a series a watch acts on: all up to and including
/// the first `Lost`.
pub open spec fn watched_count(signals: Seq<WatchSignal>) -> int
    decreases signals.len(),
{
    if signals.len() == 0 {
        0
    } else if signals[0] == WatchSignal::Lost {
        1
    } else {
        1 + watched_count(signals.drop_first())
    }
}

/// Overlapping changes are not merged: as long as the observation lasts,
/// the watch answers every signal on its own, so every modification has its
/// own upload attempt, whatever came before it.
pub proof fn law_every_change_is_uploaded(signals: Seq<WatchSignal>)
    ensures
        0 <= watched_count(signals) <= signals.len(),
        watch_actions(signals).len() == watched_count(signals),
        forall|i: int|
            0 <= i < watched_count(signals) ==> #[trigger] watch_actions(signals)[i] == action_for(
                signals[i],
            ),
        forall|i: int|
            0 <= i < watched_count(signals) && signals[i] == WatchSignal::Modified
                ==> #[trigger] watch_actions(signals)[i] == (WatchAction::Upload {
                settle_ms: SETTLE_DELAY_MS,
            }),
    decreases signals.len(),
{
    if signals.len() > 0 && signals[0] != WatchSignal::Lost {
        let rest = signals.drop_first();
        law_every_change_is_uploaded(rest);
        assert forall|i: int| 0 <= i < watched_count(signals) implies #[trigger] watch_actions(
            signals,
        )[i] == action_for(signals[i]) by {
            if i > 0 {
                assert(watch_actions(rest)[i - 1] == action_for(rest[i - 1]));
                assert(rest[i - 1] == signals[i]);
            }
        }
    }
}

/// Runs a watch over a series of signals.
pub fn run_watch(signals: &Vec<WatchSignal>) -> (actions: Vec<WatchAction>)
    ensures
        actions@ == watch_actions(signals@),
{
    let mut actions: Vec<WatchAction> = Vec::new();
    let mut i: usize = 0;
    proof {
        assert(signals@.skip(0) =~= signals@);
        assert(actions@ + watch_actions(signals@) =~= watch_actions(signals@));
    }
    while i < signals.len()
        invariant
            i <= signals.len(),
            actions@ + watch_actions(signals@.skip(i as int)) == watch_actions(signals@),
        decreases signals.len() - i,
    {
        let ghost before = actions@;
        let ghost rest = signals@.skip(i as int);
        let signal = signals[i];
        let action = on_watch_signal(signal);
        actions.push(action);
        proof {
            assert(rest[0] == signal);
            assert(rest.drop_first() =~= signals@.skip(i + 1));
        }
        if signal == WatchSignal::Lost {
            proof {
                assert(actions@ =~= before + watch_actions(rest));
            }
            return actions;
        }
        proof {
            assert(actions@ + watch_actions(signals@.skip(i + 1)) =~= before + watch_actions(rest));
        }
        i = i + 1;
    }
    proof {
        assert(signals@.skip(i as int) =~= Seq::<WatchSignal>::empty());
        assert(actions@ + Seq::<WatchAction>::empty() =~= actions@);
    }
    actions
}

/// The states that a watched file is reported in.
#[derive(Debug, Clone, Copy, PartialEq, Eq, Structural)]
pub enum SyncStatus {
    Watching,
    Synced,
    Error,
}

impl SyncStatus {
    /// The word under which the status is published.
    pub fn name(&self) -> (name: &'static str)
        ensures
            name@ == match *self {
                SyncStatus::Watching => "watching"@,
                SyncStatus::Synced => "synced"@,
                SyncStatus::Error => "error"@,
            },
    {
        match self {
            SyncStatus::Watching => "watching",
            SyncStatus::Synced => "synced",
            SyncStatus::Error => "error",
        }
    }
}

/// What the subscriber is told about a watched file. `file` is the remote
/// path; `error` is there with the status `Error` only.
#[derive(Debug, Clone)]
pub struct SyncNotice {
    pub status: SyncStatus,
    pub file: String,
    pub error: Option<String>,
}

/// What `SyncNotice` holds, as sequences.
pub struct SyncNoticeView {
    pub status: SyncStatus,
    pub file: Seq<char>,
    pub error: Option<Seq<char>>,
}

impl View for SyncNotice {
    type V = SyncNoticeView;

    open spec fn view(&self) -> SyncNoticeView {
        SyncNoticeView { status: self.status, file: self.file@, error: opt_view(self.error) }
    }
}

impl SyncNotice {
    /// The name under which the notice is published.
    pub fn event_name(&self) -> (name: &'static str)
        ensures
            name@ == "file-sync-status"@,
    {
        "file-sync-status"
    }
}

/// One watch: a local file, the remote path it is uploaded to, and the
/// session it is uploaded through.
#[derive(Debug, Clone)]
pub struct FileWatch {
    pub session_id: String,
    pub local_path: String,
    pub remote_path: String,
}

/// Registers a watch of a local file for a session. Whether the session is
/// live is looked at with every upload attempt, not here.
pub fn sftp_watch_file(session_id: String, local_path: String, remote_path: String) -> (watch:
    FileWatch)
    ensures
        watch.session_id == session_id,
        watch.local_path == local_path,
        watch.remote_path == remote_path,
{
    FileWatch { session_id, local_path, remote_path }
}

impl FileWatch {
    /// The notice that the watch has begun.
    pub fn started(&self) -> (notice: SyncNotice)
        ensures
            notice@ == (SyncNoticeView {
                status: SyncStatus::Watching,
                file: self.remote_path@,
                error: None,
            }),
    {
        SyncNotice { status: SyncStatus::Watching, file: self.remote_path.clone(), error: None }
    }

    /// One upload attempt: the session to upload through and the upload,
    /// or, where the owning session is no longer live, the notice that
    /// reports the attempt as failed.
    pub fn attempt<'a, H>(&self, manager: &'a SessionManager<H>) -> (r: Result<
        (&'a SshSession<H>, SftpCall),
        SyncNotice,
    >)
        ensures
            match r {
                Ok((session, call)) => manager@.contains_key(self.session_id@) && *session
                    == manager@[self.session_id@] && call@ == (SftpCallView::Upload {
                    local_path: self.local_path@,
                    remote_path: self.remote_path@,
                }),
                Err(notice) => !manager@.contains_key(self.session_id@) && notice@
                    == (SyncNoticeView {
                    status: SyncStatus::Error,
                    file: self.remote_path@,
                    error: Some("Session not found"@),
                }),
            },
    {
        match manager.lookup(self.session_id.as_str()) {
            Ok(session) => Ok(
                (
                    session,
                    crate::sftp::upload_file(self.local_path.as_str(), self.remote_path.as_str()),
                ),
            ),
            Err(e) => Err(
                SyncNotice {
                    status: SyncStatus::Error,
                    file: self.remote_path.clone(),
                    error: Some(e.message),
                },
            ),
        }
    }

    /// The notice for an upload attempt that was made: `Synced`, or `Error`
    /// with the text of the failure. Every attempt is reported.
    pub fn finished(&self, outcome: Result<(), SshError>) -> (notice: SyncNotice)
        ensures
            notice@ == (SyncNoticeView {
                status: if outcome is Ok {
                    SyncStatus::Synced
                } else {
                    SyncStatus::Error
                },
                file: self.remote_path@,
                error: match outcome {
                    Ok(_) => None,
                    Err(e) => Some(e.message@),
                },
            }),
    {
        match outcome {
            Ok(_) => SyncNotice {
                status: SyncStatus::Synced,
                file: self.remote_path.clone(),
                error: None,
            },
            Err(e) => SyncNotice {
                status: SyncStatus::Error,
                file: self.remote_path.clone(),
                error: Some(e.message),
            },
        }
    }
}

/// The two steps by which a watch is set up.
#[derive(Debug, Clone, Copy, PartialEq, Eq, Structural)]
pub enum WatchSetupStep {
    CreateWatcher,
    WatchPath,
}

/// The error for a watch that could not be set up.
pub fn watch_setup_failure(step: WatchSetupStep, reason: &str) -> (e: SshError)
    ensures
        e.is(
            ErrorKind::WatchSetup,
            match step {
                WatchSetupStep::CreateWatcher => "Failed to create watcher: "@,
                WatchSetupStep::WatchPath => "Failed to watch file: "@,
            } + reason@,
        ),
{
    match step {
        WatchSetupStep::CreateWatcher => SshError::with_detail(
            ErrorKind::WatchSetup,
            "Failed to create watcher: ",
            reason,
        ),
        WatchSetupStep::WatchPath => SshError::with_detail(
            ErrorKind::WatchSetup,
            "Failed to watch file: ",
            reason,
        ),
    }
}

/// The kind of authentication that a word names.
pub open spec fn auth_type_of(word: Seq<char>) -> Option<AuthType> {
    if word == "password"@ {
        Some(AuthType::Password)
    } else if word == "keyfile"@ {
        Some(AuthType::KeyFile)
    } else {
        None
    }
}

/// The kind of authentication that a word names: `password` or `keyfile`.
pub fn parse_auth_type(word: &str) -> (r: Option<AuthType>)
    ensures
        r == auth_type_of(word@),
{
    if str_eq(word, "password") {
        Some(AuthType::Password)
    } else if str_eq(word, "keyfile") {
        Some(AuthType::KeyFile)
    } else {
        None
    }
}

/// The stored profiles.
pub fn get_connections(store: &ConnectionStore) -> (list: &Vec<Connection>)
    ensures
        crate::connection::connection_views(list@) == store@,
{
    store.connections()
}

/// Saves a profile. With an identifier, the profile takes the place of the
/// first stored profile with that identifier; without one, it is stored as
/// a new profile under a freshly drawn identifier.
///
/// A word that names no kind of authentication, and an identifier that no
/// stored profile has, are errors that leave the store as it is.
pub fn save_connection(
    store: &mut ConnectionStore,
    id: Option<String>,
    name: String,
    host: String,
    port: u16,
    username: String,
    auth_type: &str,
    password: Option<String>,
    private_key_path: Option<String>,
    passphrase: Option<String>,
) -> (r: Result<(), String>)
    ensures
        ({
            let before = old(store)@;
            let after = final(store)@;
            match auth_type_of(auth_type@) {
                None => r is Err && r->Err_0@ == "Invalid auth type"@ && after == before,
                Some(kind) => {
                    let saved = |id: Seq<char>|
                        ConnectionView {
                            id,
                            name: name@,
                            host: host@,
                            port,
                            username: username@,
                            auth_type: kind,
                            password: opt_view(password),
                            private_key_path: opt_view(private_key_path),
                            passphrase: opt_view(passphrase),
                        };
                    match id {
                        Some(given) => {
                            let pos = first_with_id(before, given@);
                            if pos < before.len() {
                                r is Ok && after == before.update(pos, saved(given@))
                            } else {
                                r is Err && r->Err_0@ == "Connection not found"@ && after
                                    == before
                            }
                        },
                        None => r is Ok && after.len() == before.len() + 1 && after.drop_last()
                            == before && after.last().id.len() == ID_LENGTH && after.last()
                            == saved(after.last().id),
                    }
                },
            }
        }),
{
    let kind = match parse_auth_type(auth_type) {
        Some(kind) => kind,
        None => {
            return Err("Invalid auth type".to_owned());
        },
    };
    match id {
        Some(given) => store.update(
            Connection::with_id(
                given,
                name,
                host,
                port,
                username,
                kind,
                password,
                private_key_path,
                passphrase,
            ),
        ),
        None => {
            let connection = Connection::new(
                name,
                host,
                port,
                username,
                kind,
                password,
                private_key_path,
                passphrase,
            );
            store.add(connection);
            proof {
                assert(store@.drop_last() =~= old(store)@);
            }
            Ok(())
        },
    }
}

/// Drops every stored profile with the identifier.
pub fn delete_connection(store: &mut ConnectionStore, id: &str)
    ensures
        final(store)@ == old(store)@.filter(crate::connection::other_than(id@)),
{
    store.delete(id)
}

/// Starts the connect of a stored profile: the handshake of a new session
/// under a freshly drawn identifier, or the error that no profile has the
/// identifier.
pub fn ssh_connect(store: &ConnectionStore, connection_id: &str) -> (r: Result<Progress, String>)
    ensures
        ({
            let pos = first_with_id(store@, connection_id@);
            match r {
                Ok(p) => pos < store@.len() && !(p is Ready) && exists|id: Seq<char>|
                    id.len() == ID_LENGTH && p@ == start(store@[pos], id),
                Err(e) => pos == store@.len() && e@ == "Connection not found"@,
            }
        }),
{
    match store.find(connection_id) {
        Some(connection) => Ok(SshSession::<()>::connect(connection)),
        None => Err("Connection not found".to_owned()),
    }
}

/// How a downloaded file is opened for editing.
#[derive(Debug, Clone)]
pub enum EditorLaunch {
    /// Let the user pick a program.
    OpenWithDialog,
    /// Start the named program on the file.
    Program(String),
    /// Open the file with the program the system has for it.
    SystemDefault,
}

/// What `EditorLaunch` holds, as sequences.
pub enum EditorLaunchView {
    OpenWithDialog,
    Program(Seq<char>),
    SystemDefault,
}

impl View for EditorLaunch {
    type V = EditorLaunchView;

    open spec fn view(&self) -> EditorLaunchView {
        match self {
            EditorLaunch::OpenWithDialog => EditorLaunchView::OpenWithDialog,
            EditorLaunch::Program(p) => EditorLaunchView::Program(p@),
            EditorLaunch::SystemDefault => EditorLaunchView::SystemDefault,
        }
    }
}

/// How a file is opened, given the editor that was configured.
pub open spec fn launch_for(editor: Option<Seq<char>>) -> EditorLaunchView {
    match editor {
        None => EditorLaunchView::SystemDefault,
        Some(e) => if e == "open-with-dialog"@ {
            EditorLaunchView::OpenWithDialog
        } else {
            EditorLaunchView::Program(e)
        },
    }
}

/// What editing a remote file comes to before any work is done: the name
/// the local copy gets, and how the copy is opened.
#[derive(Debug, Clone)]
pub struct EditPlan {
    pub file_name: String,
    pub launch: EditorLaunch,
}

/// Plans the editing of a remote file. The local copy is named after what
/// follows the last `/` of the remote path.
pub fn sftp_edit_file(remote_path: &str, editor_path: Option<String>) -> (plan: EditPlan)
    ensures
        plan.file_name@ == file_name_of(remote_path@),
        plan.launch@ == launch_for(opt_view(editor_path)),
{
    let launch = match editor_path {
        None => EditorLaunch::SystemDefault,
        Some(editor) => {
            if str_eq(editor.as_str(), "open-with-dialog") {
                EditorLaunch::OpenWithDialog
            } else {
                EditorLaunch::Program(editor)
            }
        },
    };
    EditPlan { file_name: file_name(remote_path), launch }
}

/// The name of the directory, below the system's temporary directory, in
/// which local copies are kept, one subdirectory per session.
pub fn edit_dir_name() -> (name: &'static str)
    ensures
        name@ == "rustssh-edit"@,
{
    "rustssh-edit"
}

/// Whether the editor is one that is looked for in its usual places when
/// it cannot be started by name.
pub fn has_fallbacks(editor: &str) -> (r: bool)
    ensures
        r == (editor@ == "code"@),
{
    str_eq(editor, "code")
}

/// The usual places of the editor, given the user's local application
/// data directory.
pub fn editor_fallbacks(local_app_data: &str) -> (paths: Vec<String>)
    ensures
        paths@.len() == 3,
        paths@[0]@ == local_app_data@ + "\\Programs\\Microsoft VS Code\\Code.exe"@,
        paths@[1]@ == "C:\\Program Files\\Microsoft VS Code\\Code.exe"@,
        paths@[2]@ == "C:\\Program Files (x86)\\Microsoft VS Code\\Code.exe"@,
{
    let mut paths: Vec<String> = Vec::new();
    paths.push(local_app_data.to_owned().concat("\\Programs\\Microsoft VS Code\\Code.exe"));
    paths.push("C:\\Program Files\\Microsoft VS Code\\Code.exe".to_owned());
    paths.push("C:\\Program Files (x86)\\Microsoft VS Code\\Code.exe".to_owned());
    paths
}

/// The steps of editing that can fail on the local side.
#[derive(Debug, Clone, Copy, PartialEq, Eq, Structural)]
pub enum EditStep {
    CreateTempDir,
    OpenDialog,
    LaunchEditor,
    LaunchFallback,
    OpenDefault,
}

/// The text of a failed step of editing.
pub open spec fn edit_failure_text(step: EditStep, editor: Seq<char>, reason: Seq<char>) -> Seq<
    char,
> {
    match step {
        EditStep::CreateTempDir => "Failed to create temp dir: "@ + reason,
        EditStep::OpenDialog => "Failed to open system dialog: "@ + reason,
        EditStep::LaunchEditor => "Failed to launch editor '"@ + editor + "': "@ + reason,
        EditStep::LaunchFallback => "Failed to launch editor '"@ + editor
            + "' and could not find it in common locations: "@ + reason,
        EditStep::OpenDefault => "Failed to open file: "@ + reason,
    }
}

/// The error for a failed step of editing. `editor` is the program that
/// was to be started; the steps that start none leave it out of the text.
pub fn edit_failure(step: EditStep, editor: &str, reason: &str) -> (e: SshError)
    ensures
        e.is(ErrorKind::Io, edit_failure_text(step, editor@, reason@)),
{
    match step {
        EditStep::CreateTempDir => SshError::with_detail(
            ErrorKind::Io,
            "Failed to create temp dir: ",
            reason,
        ),
        EditStep::OpenDialog => SshError::with_detail(
            ErrorKind::Io,
            "Failed to open system dialog: ",
            reason,
        ),
        EditStep::LaunchEditor => {
            let head = "Failed to launch editor '".to_owned().concat(editor).concat("': ");
            SshError::with_detail(ErrorKind::Io, head.as_str(), reason)
        },
        EditStep::LaunchFallback => {
            let head = "Failed to launch editor '".to_owned().concat(editor).concat(
                "' and could not find it in common locations: ",
            );
            SshError::with_detail(ErrorKind::Io, head.as_str(), reason)
        },
        EditStep::OpenDefault => SshError::with_detail(
            ErrorKind::Io,
            "Failed to open file: ",
            reason,
        ),
    }
}

} // verus!
