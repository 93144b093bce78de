//! The listener: what to do next with the lock file, the sockets and those who connect.
//!
//! As a relay does, a server names an action, is told what came of it, and names the next.
use crate::cli::{default_upstream, path_in};
use crate::config::{texts, Args};
use crate::context::{in_context, Errorize};
use crate::interfaces::{validate_interfaces, warnings};
use crate::relay::stop_of;
use std::path::PathBuf;
use vstd::prelude::*;
use vstd::string::*;

verus! {

/// How a server is run.
#[derive(Clone, Copy, Debug, PartialEq, Eq, Structural)]
pub enum Mode {
    /// As a program of its own, for good.
    Program,
    /// In another program; whether to stop is asked before each connection is awaited.
    Run,
    /// In another program; whether to stop is asked after each connection was accepted.
    RunWithStop,
}

/// The compositor's socket.
pub enum Upstream {
    /// The one that was given.
    Given(PathBuf),
    /// The one that the environment names.
    Named(String),
}

/// The compositor's socket.
pub enum UpstreamView {
    Given(PathBuf),
    Named(Seq<char>),
}

impl View for Upstream {
    type V = UpstreamView;

    open spec fn view(&self) -> UpstreamView {
        match *self {
            Upstream::Given(path) => UpstreamView::Given(path),
            Upstream::Named(path) => UpstreamView::Named(path@),
        }
    }
}

/// What is to be done.
pub enum ServerAction {
    /// Open the lock file, or create it.
    OpenLock(PathBuf),
    /// Lock it for this server alone, without waiting.
    TakeLock,
    /// Remove the file.
    RemoveFile(PathBuf),
    /// Create the socket for clients and listen on it.
    Bind(PathBuf),
    /// Tell the service manager, if there is one, that the server is ready.
    NotifyReady,
    /// Ask whether to stop.
    AskStop,
    /// Wait for a client.
    Accept,
    /// Read the runtime directory and the display's name from the environment.
    ReadEnvironment,
    /// Connect to the compositor.
    Connect(Upstream),
    /// Relay between the client and the compositor, from now on and beside the server.
    Serve,
    /// Stop.
    Finish(Result<(), String>),
}

/// What is to be done.
pub enum ServerActionView {
    OpenLock(PathBuf),
    TakeLock,
    RemoveFile(PathBuf),
    Bind(PathBuf),
    NotifyReady,
    AskStop,
    Accept,
    ReadEnvironment,
    Connect(UpstreamView),
    Serve,
    Finish(Result<(), Seq<char>>),
}

impl View for ServerAction {
    type V = ServerActionView;

    open spec fn view(&self) -> ServerActionView {
        match *self {
            ServerAction::OpenLock(path) => ServerActionView::OpenLock(path),
            ServerAction::TakeLock => ServerActionView::TakeLock,
            ServerAction::RemoveFile(path) => ServerActionView::RemoveFile(path),
            ServerAction::Bind(path) => ServerActionView::Bind(path),
            ServerAction::NotifyReady => ServerActionView::NotifyReady,
            ServerAction::AskStop => ServerActionView::AskStop,
            ServerAction::Accept => ServerActionView::Accept,
            ServerAction::ReadEnvironment => ServerActionView::ReadEnvironment,
            ServerAction::Connect(upstream) => ServerActionView::Connect(upstream@),
            ServerAction::Serve => ServerActionView::Serve,
            ServerAction::Finish(r) => ServerActionView::Finish(stop_of(r)),
        }
    }
}

/// What came of an action.
pub enum ServerEvent {
    /// It was done.
    Done,
    /// It failed, and why.
    Failed(String),
    /// Whether to stop.
    Stop(bool),
    /// What the environment says.
    Environment { runtime_dir: String, wayland_display: Option<String> },
}

/// What came of an action.
pub enum ServerEventView {
    Done,
    Failed(Seq<char>),
    Stop(bool),
    Environment { runtime_dir: Seq<char>, wayland_display: Option<Seq<char>> },
}

impl View for ServerEvent {
    type V = ServerEventView;

    open spec fn view(&self) -> ServerEventView {
        match *self {
            ServerEvent::Done => ServerEventView::Done,
            ServerEvent::Failed(e) => ServerEventView::Failed(e@),
            ServerEvent::Stop(stop) => ServerEventView::Stop(stop),
            ServerEvent::Environment { runtime_dir, wayland_display } =>
                ServerEventView::Environment {
                    runtime_dir: runtime_dir@,
                    wayland_display: crate::proto::text_of(wayland_display),
                },
        }
    }
}

/// What a server is at.
pub enum Stage {
    OpenLock,
    TakeLock,
    RemoveStale,
    Bind,
    NotifyReady,
    AskStop,
    Accept,
    ReadEnvironment,
    Connect(Upstream),
    Serve,
    RemoveSocket(Result<(), String>),
    RemoveLock(Result<(), String>),
    Finished(Result<(), String>),
}

/// What a server is at.
pub enum StageView {
    OpenLock,
    TakeLock,
    RemoveStale,
    Bind,
    NotifyReady,
    AskStop,
    Accept,
    ReadEnvironment,
    Connect(UpstreamView),
    Serve,
    RemoveSocket(Result<(), Seq<char>>),
    RemoveLock(Result<(), Seq<char>>),
    Finished(Result<(), Seq<char>>),
}

impl View for Stage {
    type V = StageView;

    open spec fn view(&self) -> StageView {
        match *self {
            Stage::OpenLock => StageView::OpenLock,
            Stage::TakeLock => StageView::TakeLock,
            Stage::RemoveStale => StageView::RemoveStale,
            Stage::Bind => StageView::Bind,
            Stage::NotifyReady => StageView::NotifyReady,
            Stage::AskStop => StageView::AskStop,
            Stage::Accept => StageView::Accept,
            Stage::ReadEnvironment => StageView::ReadEnvironment,
            Stage::Connect(upstream) => StageView::Connect(upstream@),
            Stage::Serve => StageView::Serve,
            Stage::RemoveSocket(r) => StageView::RemoveSocket(stop_of(r)),
            Stage::RemoveLock(r) => StageView::RemoveLock(stop_of(r)),
            Stage::Finished(r) => StageView::Finished(stop_of(r)),
        }
    }
}

/// A server.
pub struct Server {
    mode: Mode,
    downstream: PathBuf,
    lock: PathBuf,
    upstream: Option<PathBuf>,
    stage: Stage,
}

/// A server: its files, the compositor's socket if one was given, and what it is at.
#[verifier::ext_equal]
pub struct ServerView {
    pub mode: Mode,
    pub downstream: PathBuf,
    pub lock: PathBuf,
    pub upstream: Option<PathBuf>,
    pub stage: StageView,
}

impl View for Server {
    type V = ServerView;

    closed spec fn view(&self) -> ServerView {
        ServerView {
            mode: self.mode,
            downstream: self.downstream,
            lock: self.lock,
            upstream: self.upstream,
            stage: self.stage@,
        }
    }
}

/// What `Path::with_extension` makes of a path and an extension.
pub uninterp spec fn path_with_extension(path: PathBuf, extension: Seq<char>) -> PathBuf;

/// `Path::with_extension`: the path with its extension replaced, or with the extension added
/// where it has none. What that makes of the path is not said, only that it is the same for
/// the same path and extension. It panics on an extension with a path separator in it.
#[verifier::external_body]
fn with_extension(path: &PathBuf, extension: &str) -> (r: PathBuf)
    requires
        !extension@.contains('/'),
        !extension@.contains('\\'),
    ensures
        r == path_with_extension(*path, extension@),
{
    path.with_extension(extension)
}

impl Mode {
    /// What a server is at once it is ready for another client.
    pub open spec fn waiting(self) -> StageView {
        match self {
            Mode::Run => StageView::AskStop,
            _ => StageView::Accept,
        }
    }

    /// Where the server is said to have failed when it could not accept a client.
    pub open spec fn accept_context(self) -> Seq<char> {
        match self {
            Mode::RunWithStop => "Error accepting"@,
            _ => "Error accepting downstream connection"@,
        }
    }
}

impl ServerView {
    /// A server that was not started yet.
    pub open spec fn fresh(
        mode: Mode,
        downstream: PathBuf,
        upstream: Option<PathBuf>,
    ) -> ServerView {
        ServerView {
            mode,
            downstream,
            lock: path_with_extension(downstream, "lock"@),
            upstream,
            stage: StageView::OpenLock,
        }
    }

    /// What is to be done next.
    pub open spec fn action(self) -> ServerActionView {
        match self.stage {
            StageView::OpenLock => ServerActionView::OpenLock(self.lock),
            StageView::TakeLock => ServerActionView::TakeLock,
            StageView::RemoveStale => ServerActionView::RemoveFile(self.downstream),
            StageView::Bind => ServerActionView::Bind(self.downstream),
            StageView::NotifyReady => ServerActionView::NotifyReady,
            StageView::AskStop => ServerActionView::AskStop,
            StageView::Accept => ServerActionView::Accept,
            StageView::ReadEnvironment => ServerActionView::ReadEnvironment,
            StageView::Connect(upstream) => ServerActionView::Connect(upstream),
            StageView::Serve => ServerActionView::Serve,
            StageView::RemoveSocket(_) => ServerActionView::RemoveFile(self.downstream),
            StageView::RemoveLock(_) => ServerActionView::RemoveFile(self.lock),
            StageView::Finished(r) => ServerActionView::Finish(r),
        }
    }

    /// What the server is at when the compositor's socket is to be found.
    pub open spec fn finding_upstream(self) -> StageView {
        match self.upstream {
            Some(path) => StageView::Connect(UpstreamView::Given(path)),
            None => StageView::ReadEnvironment,
        }
    }

    /// What the server is at after an event. An error before the socket was created leaves
    /// the files as they are, but for the lock file of a program; one after it removes them,
    /// and so does a stop. Files that cannot be removed, and a service manager that cannot
    /// be told, are passed over, and so is an event that the action cannot bring.
    pub open spec fn next_stage(self, event: ServerEventView) -> StageView {
        match (self.stage, event) {
            (StageView::OpenLock, ServerEventView::Done) => StageView::TakeLock,
            (StageView::OpenLock, ServerEventView::Failed(e)) => StageView::Finished(
                Err(in_context("Error opening lock file"@, e)),
            ),
            (StageView::TakeLock, ServerEventView::Done) => StageView::RemoveStale,
            (StageView::TakeLock, ServerEventView::Failed(e)) => StageView::Finished(
                Err(
                    in_context(
                        "Error getting exclusive lock for downstream listener, is another compositor already listening?"@,
                        e,
                    ),
                ),
            ),
            (StageView::RemoveStale, ServerEventView::Done) => StageView::Bind,
            (StageView::RemoveStale, ServerEventView::Failed(_)) => StageView::Bind,
            (StageView::Bind, ServerEventView::Done) => StageView::NotifyReady,
            (StageView::Bind, ServerEventView::Failed(e)) => {
                let failed = Err(in_context("Error creating downstream listener"@, e));
                if self.mode is Program {
                    StageView::RemoveLock(failed)
                } else {
                    StageView::Finished(failed)
                }
            },
            (StageView::NotifyReady, ServerEventView::Done) => self.mode.waiting(),
            (StageView::NotifyReady, ServerEventView::Failed(_)) => self.mode.waiting(),
            (StageView::AskStop, ServerEventView::Stop(true)) => StageView::RemoveSocket(Ok(())),
            (StageView::AskStop, ServerEventView::Stop(false)) => if self.mode is RunWithStop {
                self.finding_upstream()
            } else {
                StageView::Accept
            },
            (StageView::Accept, ServerEventView::Done) => if self.mode is RunWithStop {
                StageView::AskStop
            } else {
                self.finding_upstream()
            },
            (StageView::Accept, ServerEventView::Failed(e)) => StageView::RemoveSocket(
                Err(in_context(self.mode.accept_context(), e)),
            ),
            (
                StageView::ReadEnvironment,
                ServerEventView::Environment { runtime_dir, wayland_display },
            ) => StageView::Connect(
                UpstreamView::Named(
                    path_in(
                        runtime_dir,
                        match wayland_display {
                            Some(name) => name,
                            None => "wayland-0"@,
                        },
                    ),
                ),
            ),
            (StageView::ReadEnvironment, ServerEventView::Failed(e)) => StageView::RemoveSocket(
                Err(e),
            ),
            (StageView::Connect(_), ServerEventView::Done) => StageView::Serve,
            (StageView::Connect(_), ServerEventView::Failed(e)) => StageView::RemoveSocket(
                Err(in_context("Error creating upstream connection"@, e)),
            ),
            (StageView::Serve, ServerEventView::Done) => self.mode.waiting(),
            (StageView::RemoveSocket(r), ServerEventView::Done) => StageView::RemoveLock(r),
            (StageView::RemoveSocket(r), ServerEventView::Failed(_)) => StageView::RemoveLock(r),
            (StageView::RemoveLock(r), ServerEventView::Done) => StageView::Finished(r),
            (StageView::RemoveLock(r), ServerEventView::Failed(_)) => StageView::Finished(r),
            (stage, _) => stage,
        }
    }

    /// The server after an event.
    pub open spec fn next(self, event: ServerEventView) -> ServerView {
        ServerView { stage: self.next_stage(event), ..self }
    }
}

fn failure(text: &str, e: String) -> (r: Result<(), String>)
    ensures
        stop_of(r) == Err::<(), Seq<char>>(in_context(text@, e@)),
{
    let failed: Result<(), String> = Err(e);
    failed.context(text)
}

fn copy_of(r: &Result<(), String>) -> (c: Result<(), String>)
    ensures
        stop_of(c) == stop_of(*r),
{
    match r {
        Ok(()) => Ok(()),
        Err(e) => Err(e.clone()),
    }
}

impl Mode {
    fn when_waiting(&self) -> (r: Stage)
        ensures
            r@ == self.waiting(),
    {
        match self {
            Mode::Run => Stage::AskStop,
            _ => Stage::Accept,
        }
    }
}

impl Server {
    /// A server that was not started yet.
    pub fn new(mode: Mode, args: &Args) -> (r: Self)
        ensures
            r@ == ServerView::fresh(mode, args.downstream, args.upstream),
    {
        proof {
            reveal_strlit("lock");
        }
        Server {
            mode,
            downstream: args.downstream.clone(),
            lock: with_extension(&args.downstream, "lock"),
            upstream: args.upstream.clone(),
            stage: Stage::OpenLock,
        }
    }

    /// What is to be done next.
    pub fn action(&self) -> (r: ServerAction)
        ensures
            r@ == self@.action(),
    {
        match &self.stage {
            Stage::OpenLock => ServerAction::OpenLock(self.lock.clone()),
            Stage::TakeLock => ServerAction::TakeLock,
            Stage::RemoveStale => ServerAction::RemoveFile(self.downstream.clone()),
            Stage::Bind => ServerAction::Bind(self.downstream.clone()),
            Stage::NotifyReady => ServerAction::NotifyReady,
            Stage::AskStop => ServerAction::AskStop,
            Stage::Accept => ServerAction::Accept,
            Stage::ReadEnvironment => ServerAction::ReadEnvironment,
            Stage::Connect(Upstream::Given(path)) => ServerAction::Connect(
                Upstream::Given(path.clone()),
            ),
            Stage::Connect(Upstream::Named(path)) => ServerAction::Connect(
                Upstream::Named(path.clone()),
            ),
            Stage::Serve => ServerAction::Serve,
            Stage::RemoveSocket(_) => ServerAction::RemoveFile(self.downstream.clone()),
            Stage::RemoveLock(_) => ServerAction::RemoveFile(self.lock.clone()),
            Stage::Finished(r) => ServerAction::Finish(copy_of(r)),
        }
    }

    fn find_upstream(&self) -> (r: Stage)
        ensures
            r@ == self@.finding_upstream(),
    {
        match &self.upstream {
            Some(path) => Stage::Connect(Upstream::Given(path.clone())),
            None => Stage::ReadEnvironment,
        }
    }

    fn after_success(&self) -> (r: Stage)
        ensures
            r@ == self@.next_stage(ServerEventView::Done),
    {
        match &self.stage {
            Stage::OpenLock => Stage::TakeLock,
            Stage::TakeLock => Stage::RemoveStale,
            Stage::RemoveStale => Stage::Bind,
            Stage::Bind => Stage::NotifyReady,
            Stage::NotifyReady | Stage::Serve => self.mode.when_waiting(),
            Stage::Accept => match self.mode {
                Mode::RunWithStop => Stage::AskStop,
                _ => self.find_upstream(),
            },
            Stage::Connect(_) => Stage::Serve,
            Stage::RemoveSocket(r) => Stage::RemoveLock(copy_of(r)),
            Stage::RemoveLock(r) | Stage::Finished(r) => Stage::Finished(copy_of(r)),
            Stage::AskStop => Stage::AskStop,
            Stage::ReadEnvironment => Stage::ReadEnvironment,
        }
    }

    fn after_failure(&self, e: String) -> (r: Stage)
        ensures
            r@ == self@.next_stage(ServerEventView::Failed(e@)),
    {
        match &self.stage {
            Stage::OpenLock => Stage::Finished(failure("Error opening lock file", e)),
            Stage::TakeLock => Stage::Finished(
                failure(
                    "Error getting exclusive lock for downstream listener, is another compositor already listening?",
                    e,
                ),
            ),
            Stage::RemoveStale => Stage::Bind,
            Stage::Bind => {
                let failed = failure("Error creating downstream listener", e);
                match self.mode {
                    Mode::Program => Stage::RemoveLock(failed),
                    _ => Stage::Finished(failed),
                }
            },
            Stage::NotifyReady => self.mode.when_waiting(),
            Stage::Accept => Stage::RemoveSocket(
                match self.mode {
                    Mode::RunWithStop => failure("Error accepting", e),
                    _ => failure("Error accepting downstream connection", e),
                },
            ),
            Stage::ReadEnvironment => Stage::RemoveSocket(Err(e)),
            Stage::Connect(_) => Stage::RemoveSocket(
                failure("Error creating upstream connection", e),
            ),
            Stage::RemoveSocket(r) => Stage::RemoveLock(copy_of(r)),
            Stage::RemoveLock(r) | Stage::Finished(r) => Stage::Finished(copy_of(r)),
            Stage::AskStop => Stage::AskStop,
            Stage::Serve => Stage::Serve,
        }
    }

    /// Takes what came of the action.
    pub fn step(&mut self, event: ServerEvent)
        ensures
            final(self)@ == old(self)@.next(event@),
    {
        match event {
            ServerEvent::Done => {
                self.stage = self.after_success();
            },
            ServerEvent::Failed(e) => {
                self.stage = self.after_failure(e);
            },
            ServerEvent::Stop(stop) => {
                if let Stage::AskStop = self.stage {
                    self.stage = if stop {
                        Stage::RemoveSocket(Ok(()))
                    } else {
                        match self.mode {
                            Mode::RunWithStop => self.find_upstream(),
                            _ => Stage::Accept,
                        }
                    };
                }
            },
            ServerEvent::Environment { runtime_dir, wayland_display } => {
                if let Stage::ReadEnvironment = self.stage {
                    let path = match &wayland_display {
                        Some(name) => default_upstream(runtime_dir.as_str(), Some(name.as_str())),
                        None => default_upstream(runtime_dir.as_str(), None),
                    };
                    self.stage = Stage::Connect(Upstream::Named(path));
                }
            },
        }
    }
}

/// What is printed when a server with the settings starts.
pub open spec fn greeting(args: Args) -> Seq<Seq<char>> {
    if args.quiet {
        Seq::empty()
    } else {
        warnings(args@.block)
    }
}

/// Starts a server: the warnings to print first, and the server.
pub fn start(mode: Mode, args: &Args) -> (r: (Vec<String>, Server))
    ensures
        texts(r.0@) == greeting(*args),
        r.1@ == ServerView::fresh(mode, args.downstream, args.upstream),
{
    (validate_interfaces(args.block.as_slice(), args.quiet), Server::new(mode, args))
}

/// Starts a server that asks whether to stop before it awaits a connection.
pub fn run(args: &Args) -> (r: (Vec<String>, Server))
    ensures
        texts(r.0@) == greeting(*args),
        r.1@ == ServerView::fresh(Mode::Run, args.downstream, args.upstream),
{
    start(Mode::Run, args)
}

/// Starts a server that asks whether to stop after it accepted a connection.
pub fn run_with_stop(args: &Args) -> (r: (Vec<String>, Server))
    ensures
        texts(r.0@) == greeting(*args),
        r.1@ == ServerView::fresh(Mode::RunWithStop, args.downstream, args.upstream),
{
    start(Mode::RunWithStop, args)
}

} // verus!
