//! What holds of every run of a server, whatever the outside answers.
use crate::cli::path_in;
use crate::server::{
    path_with_extension, Mode, ServerActionView, ServerEventView, ServerView, StageView,
    UpstreamView,
};
use std::path::PathBuf;
use vstd::prelude::*;

verus! {

/// The server after some events.
pub open spec fn served(s: ServerView, events: Seq<ServerEventView>) -> ServerView
    decreases events.len(),
{
    if events.len() == 0 {
        s
    } else {
        served(s, events.drop_last()).next(events.last())
    }
}

/// Whether the action at the event `k` was done while the server was at `stage`.
pub open spec fn did(
    s: ServerView,
    events: Seq<ServerEventView>,
    k: int,
    stage: StageView,
) -> bool {
    &&& 0 <= k < events.len()
    &&& served(s, events.take(k)).stage == stage
    &&& events[k] is Done
}

/// Whether the lock was taken.
pub open spec fn took_lock(s: ServerView, events: Seq<ServerEventView>) -> bool {
    exists|k: int| did(s, events, k, StageView::TakeLock)
}

proof fn did_before(
    s: ServerView,
    events: Seq<ServerEventView>,
    k: int,
    stage: StageView,
)
    requires
        events.len() > 0,
    ensures
        did(s, events.drop_last(), k, stage) ==> did(s, events, k, stage),
        k < events.len() - 1 && did(s, events, k, stage) ==> did(
            s,
            events.drop_last(),
            k,
            stage,
        ),
{
    if 0 <= k < events.len() - 1 {
        assert(events.drop_last().take(k) =~= events.take(k));
    }
}

/// A server keeps its files, the compositor's socket and the way it is run.
pub proof fn files_stay(s: ServerView, events: Seq<ServerEventView>)
    ensures
        served(s, events) == (ServerView { stage: served(s, events).stage, ..s }),
    decreases events.len(),
{
    if events.len() > 0 {
        files_stay(s, events.drop_last());
    }
}

/// No file is removed, no socket created and no client served before the lock was taken.
pub proof fn lock_comes_first(
    mode: Mode,
    downstream: PathBuf,
    upstream: Option<PathBuf>,
    events: Seq<ServerEventView>,
)
    ensures
        ({
            let s = ServerView::fresh(mode, downstream, upstream);
            match served(s, events).action() {
                ServerActionView::OpenLock(_) => true,
                ServerActionView::TakeLock => true,
                ServerActionView::Finish(r) => r is Ok ==> took_lock(s, events),
                _ => took_lock(s, events),
            }
        }),
    decreases events.len(),
{
    let s = ServerView::fresh(mode, downstream, upstream);
    if events.len() > 0 {
        let before = events.drop_last();
        lock_comes_first(mode, downstream, upstream, before);
        if took_lock(s, before) {
            let k = choose|k: int| did(s, before, k, StageView::TakeLock);
            did_before(s, events, k, StageView::TakeLock);
        }
        assert(events.take(events.len() - 1) =~= before);
        if served(s, before).stage is TakeLock && events.last() is Done {
            assert(did(s, events, events.len() - 1, StageView::TakeLock));
        }
    }
}

/// Whether the server was told to remove the file at some event in `from..to`.
pub open spec fn removed(
    s: ServerView,
    events: Seq<ServerEventView>,
    path: PathBuf,
    from: int,
    to: int,
) -> bool {
    exists|i: int|
        from <= i < to && (#[trigger] served(s, events.take(i))).action()
            == ServerActionView::RemoveFile(path)
}

proof fn removed_before(
    s: ServerView,
    events: Seq<ServerEventView>,
    path: PathBuf,
    from: int,
    to: int,
)
    requires
        events.len() > 0,
        0 <= from,
        to <= events.len() - 1,
    ensures
        removed(s, events.drop_last(), path, from, to) ==> removed(s, events, path, from, to + 1),
{
    let before = events.drop_last();
    if removed(s, before, path, from, to) {
        let i = choose|i: int|
            from <= i < to && (#[trigger] served(s, before.take(i))).action()
                == ServerActionView::RemoveFile(path);
        assert(before.take(i) =~= events.take(i));
        assert(served(s, events.take(i)).action() == ServerActionView::RemoveFile(path));
    }
}

/// A server that created its socket does not finish before it was told to remove the socket
/// and the lock file.
pub proof fn files_are_cleaned_up(
    mode: Mode,
    downstream: PathBuf,
    upstream: Option<PathBuf>,
    events: Seq<ServerEventView>,
    bound: int,
)
    requires
        did(ServerView::fresh(mode, downstream, upstream), events, bound, StageView::Bind),
    ensures
        ({
            let s = ServerView::fresh(mode, downstream, upstream);
            let n = events.len() as int;
            match served(s, events).stage {
                StageView::Finished(_) => removed(s, events, downstream, bound + 1, n) && removed(
                    s,
                    events,
                    s.lock,
                    bound + 1,
                    n,
                ),
                StageView::RemoveLock(_) => removed(s, events, downstream, bound + 1, n),
                StageView::OpenLock => false,
                StageView::TakeLock => false,
                StageView::RemoveStale => false,
                StageView::Bind => false,
                _ => true,
            }
        }),
    decreases events.len(),
{
    let s = ServerView::fresh(mode, downstream, upstream);
    let n = events.len() as int;
    let before = events.drop_last();
    assert(events.take(n - 1) =~= before);
    files_stay(s, before);
    if bound < n - 1 {
        did_before(s, events, bound, StageView::Bind);
        files_are_cleaned_up(mode, downstream, upstream, before, bound);
        removed_before(s, events, downstream, bound + 1, n - 1);
        removed_before(s, events, s.lock, bound + 1, n - 1);
        assert(served(s, events.take(n - 1)) == served(s, before));
        if served(s, before).stage is RemoveSocket {
            assert(served(s, events.take(n - 1)).action() == ServerActionView::RemoveFile(
                downstream,
            ));
            assert(removed(s, events, downstream, bound + 1, n));
        }
        if served(s, before).stage is RemoveLock {
            assert(served(s, events.take(n - 1)).action() == ServerActionView::RemoveFile(s.lock));
            assert(removed(s, events, s.lock, bound + 1, n));
        }
    }
}

/// Whether the server still works or gets ready to.
pub open spec fn at_work(stage: StageView) -> bool {
    !(stage is RemoveSocket || stage is RemoveLock || stage is Finished)
}

/// Where nothing fails and nobody says stop, a server goes on for ever.
pub proof fn goes_on(s: ServerView, events: Seq<ServerEventView>)
    requires
        at_work(s.stage),
        forall|k: int| 0 <= k < events.len() ==> !((#[trigger] events[k]) is Failed),
        forall|k: int|
            0 <= k < events.len() ==> (#[trigger] events[k]) != ServerEventView::Stop(true),
    ensures
        at_work(served(s, events).stage),
    decreases events.len(),
{
    if events.len() > 0 {
        let before = events.drop_last();
        assert(forall|k: int| 0 <= k < before.len() ==> before[k] == events[k]);
        goes_on(s, before);
        assert(events.last() == events[events.len() - 1]);
    }
}

/// A server that was told to stop finishes without error, whether its files can be removed
/// or not.
pub proof fn stop_is_no_error(s: ServerView, socket: ServerEventView, lock: ServerEventView)
    requires
        s.stage is AskStop,
        socket is Done || socket is Failed,
        lock is Done || lock is Failed,
    ensures
        s.next(ServerEventView::Stop(true)).next(socket).next(lock).stage == StageView::Finished(
            Ok(()),
        ),
{
}

/// A program is never asked whether to stop.
pub proof fn program_does_not_stop(
    downstream: PathBuf,
    upstream: Option<PathBuf>,
    events: Seq<ServerEventView>,
)
    ensures
        ({
            let s = ServerView::fresh(Mode::Program, downstream, upstream);
            match served(s, events).stage {
                StageView::AskStop => false,
                StageView::RemoveSocket(r) => r is Err,
                StageView::RemoveLock(r) => r is Err,
                StageView::Finished(r) => r is Err,
                _ => true,
            }
        }),
    decreases events.len(),
{
    let s = ServerView::fresh(Mode::Program, downstream, upstream);
    files_stay(s, events);
    if events.len() > 0 {
        files_stay(s, events.drop_last());
        program_does_not_stop(downstream, upstream, events.drop_last());
    }
}

/// A finished server stays finished.
pub proof fn server_stays_finished(s: ServerView, events: Seq<ServerEventView>)
    requires
        s.stage is Finished,
    ensures
        served(s, events) == s,
    decreases events.len(),
{
    if events.len() > 0 {
        server_stays_finished(s, events.drop_last());
    }
}

// ---------------------------------------------------------------------------
// The compositor's socket
// ---------------------------------------------------------------------------

/// Where a socket of the compositor was given, the server never reads the environment, and
/// every connection that it makes is to that socket, however it is run and whatever happens.
pub proof fn given_socket_is_connected_to(
    mode: Mode,
    downstream: PathBuf,
    given: PathBuf,
    events: Seq<ServerEventView>,
)
    ensures
        ({
            let s = served(ServerView::fresh(mode, downstream, Some(given)), events);
            &&& !(s.action() is ReadEnvironment)
            &&& s.action() matches ServerActionView::Connect(to) ==> to == UpstreamView::Given(
                given,
            )
        }),
    decreases events.len(),
{
    let s = ServerView::fresh(mode, downstream, Some(given));
    if events.len() > 0 {
        given_socket_is_connected_to(mode, downstream, given, events.drop_last());
        files_stay(s, events.drop_last());
    }
}

/// The path that the environment names: that of the display, or of the first one where none
/// is named, in the runtime directory.
pub open spec fn named_by(event: ServerEventView) -> Option<Seq<char>> {
    match event {
        ServerEventView::Environment { runtime_dir, wayland_display: Some(name) } => Some(
            path_in(runtime_dir, name),
        ),
        ServerEventView::Environment { runtime_dir, wayland_display: None } => Some(
            path_in(runtime_dir, "wayland-0"@),
        ),
        _ => None,
    }
}

/// Where no socket of the compositor was given, every connection that the server makes is to
/// the path that the environment named when it was last read.
pub proof fn named_socket_is_connected_to(
    mode: Mode,
    downstream: PathBuf,
    events: Seq<ServerEventView>,
)
    ensures
        ({
            let fresh = ServerView::fresh(mode, downstream, None);
            served(fresh, events).action() matches ServerActionView::Connect(to) ==> exists|k: int|
                0 <= k < events.len() && (#[trigger] served(fresh, events.take(k))).action()
                    is ReadEnvironment && (named_by(events[k]) matches Some(path) && to
                    == UpstreamView::Named(path))
        }),
    decreases events.len(),
{
    let fresh = ServerView::fresh(mode, downstream, None);
    if events.len() > 0 {
        let before = events.drop_last();
        let n = events.len() - 1;
        named_socket_is_connected_to(mode, downstream, before);
        files_stay(fresh, before);
        assert(events.take(n) =~= before);
        if let ServerActionView::Connect(to) = served(fresh, events).action() {
            if served(fresh, before).action() is Connect {
                let k = choose|k: int|
                    0 <= k < before.len() && (#[trigger] served(fresh, before.take(k))).action()
                        is ReadEnvironment && (named_by(before[k]) matches Some(path) && to
                        == UpstreamView::Named(path));
                assert(before.take(k) =~= events.take(k));
                assert(served(fresh, events.take(k)).action() is ReadEnvironment);
                assert(events[k] == before[k]);
            } else {
                assert(served(fresh, events.take(n)).action() is ReadEnvironment);
                assert(events[n] == events.last());
            }
        }
    }
}

// ---------------------------------------------------------------------------
// Step by step
// ---------------------------------------------------------------------------

/// The error that ends a server where an action fails.
pub open spec fn told_in(context: Seq<char>, e: Seq<char>) -> Result<(), Seq<char>> {
    Err(context + ": "@ + e)
}

/// A new server opens its lock file, which stands beside its socket.
pub proof fn new_server_opens_its_lock(mode: Mode, downstream: PathBuf, upstream: Option<PathBuf>)
    ensures
        ({
            let s = ServerView::fresh(mode, downstream, upstream);
            &&& s.lock == path_with_extension(downstream, "lock"@)
            &&& s.mode == mode && s.downstream == downstream && s.upstream == upstream
            &&& s.action() == ServerActionView::OpenLock(s.lock)
        }),
{
}

/// Where everything is done that it asks for, a server opens and takes its lock, removes a
/// socket that was left behind, creates its own, tells that it is ready, and waits for a
/// client; only a server that asks before it waits asks first whether to stop.
pub proof fn setup_goes_in_this_order(mode: Mode, downstream: PathBuf, upstream: Option<PathBuf>)
    ensures
        ({
            let opening = ServerView::fresh(mode, downstream, upstream);
            let locking = opening.next(ServerEventView::Done);
            let removing = locking.next(ServerEventView::Done);
            let binding = removing.next(ServerEventView::Done);
            let telling = binding.next(ServerEventView::Done);
            let ready = telling.next(ServerEventView::Done);
            &&& locking.action() is TakeLock
            &&& removing.action() == ServerActionView::RemoveFile(downstream)
            &&& binding.action() == ServerActionView::Bind(downstream)
            &&& telling.action() is NotifyReady
            &&& mode is Run ==> ready.action() is AskStop
            &&& !(mode is Run) ==> ready.action() is Accept
        }),
{
}

/// An error before the lock is held ends the server at once, and so nothing is removed.
pub proof fn early_errors_end_at_once(s: ServerView, e: Seq<char>)
    ensures
        s.action() is OpenLock ==> s.next(ServerEventView::Failed(e)).action()
            == ServerActionView::Finish(told_in("Error opening lock file"@, e)),
        s.action() is TakeLock ==> s.next(ServerEventView::Failed(e)).action()
            == ServerActionView::Finish(
            told_in(
                "Error getting exclusive lock for downstream listener, is another compositor already listening?"@,
                e,
            ),
        ),
{
}

/// Where the socket cannot be created, a program removes its lock file before it ends, and
/// any other server ends at once; the error is told in either case.
pub proof fn failed_bind_ends(s: ServerView, e: Seq<char>, removal: ServerEventView)
    requires
        s.action() is Bind,
        removal is Done || removal is Failed,
    ensures
        ({
            let next = s.next(ServerEventView::Failed(e));
            let end = ServerActionView::Finish(
                told_in("Error creating downstream listener"@, e),
            );
            &&& !(s.mode is Program) ==> next.action() == end
            &&& s.mode is Program ==> {
                &&& next.action() == ServerActionView::RemoveFile(s.lock)
                &&& next.next(removal).action() == end
            }
        }),
{
}

/// A server that cannot remove what was left behind, or cannot tell that it is ready, goes on
/// as if it had.
pub proof fn small_failures_are_passed_over(s: ServerView, e: Seq<char>)
    requires
        s.stage is RemoveStale || s.stage is NotifyReady || s.stage is RemoveSocket
            || s.stage is RemoveLock,
    ensures
        s.next(ServerEventView::Failed(e)) == s.next(ServerEventView::Done),
        s.action() is RemoveFile || s.action() is NotifyReady,
{
}

/// What removing the socket and then the lock file ends in.
pub open spec fn cleans_up_to(s: ServerView, result: Result<(), Seq<char>>) -> bool {
    let second = s.next(ServerEventView::Done);
    let last = second.next(ServerEventView::Done);
    &&& s.action() == ServerActionView::RemoveFile(s.downstream)
    &&& second.action() == ServerActionView::RemoveFile(s.lock)
    &&& last.action() == ServerActionView::Finish(result)
}

/// An error once the socket is there ends the server, which removes the socket and the lock
/// file first, and tells what failed.
pub proof fn late_errors_clean_up(s: ServerView, e: Seq<char>)
    ensures
        s.action() is Accept && !(s.mode is RunWithStop) ==> cleans_up_to(
            s.next(ServerEventView::Failed(e)),
            told_in("Error accepting downstream connection"@, e),
        ),
        s.action() is Accept && s.mode is RunWithStop ==> cleans_up_to(
            s.next(ServerEventView::Failed(e)),
            told_in("Error accepting"@, e),
        ),
        s.action() is Connect ==> cleans_up_to(
            s.next(ServerEventView::Failed(e)),
            told_in("Error creating upstream connection"@, e),
        ),
        s.action() is ReadEnvironment ==> cleans_up_to(
            s.next(ServerEventView::Failed(e)),
            Err(e),
        ),
{
}

/// Whether the server goes on to connect to the compositor: at once where a socket was given,
/// and once the environment was read otherwise.
pub open spec fn goes_on_to_connect(s: ServerView) -> bool {
    match s.upstream {
        Some(path) => s.action() == ServerActionView::Connect(UpstreamView::Given(path)),
        None => s.action() is ReadEnvironment,
    }
}

/// A client that was accepted is connected at once, or, where the server asks after it
/// accepted, unless it is told to stop.
pub proof fn accepted_client_is_connected(s: ServerView)
    requires
        s.action() is Accept,
    ensures
        s.mode is RunWithStop ==> {
            let asking = s.next(ServerEventView::Done);
            &&& asking.action() is AskStop
            &&& goes_on_to_connect(asking.next(ServerEventView::Stop(false)))
            &&& cleans_up_to(asking.next(ServerEventView::Stop(true)), Ok(()))
        },
        !(s.mode is RunWithStop) ==> goes_on_to_connect(s.next(ServerEventView::Done)),
{
}

/// A server that asks before it waits waits for a client unless it is told to stop.
pub proof fn server_waits_unless_stopped(s: ServerView)
    requires
        s.action() is AskStop,
        !(s.mode is RunWithStop),
    ensures
        s.next(ServerEventView::Stop(false)).action() is Accept,
        cleans_up_to(s.next(ServerEventView::Stop(true)), Ok(())),
{
}

/// Once the environment is read, the server connects to the path that it names.
pub proof fn environment_names_the_socket(s: ServerView, event: ServerEventView)
    requires
        s.action() is ReadEnvironment,
        event is Environment,
    ensures
        s.next(event).action() == ServerActionView::Connect(
            UpstreamView::Named(named_by(event)->0),
        ),
{
}

/// A client that is connected is served, and then the server is ready for another.
pub proof fn connected_client_is_served(s: ServerView)
    requires
        s.action() is Connect,
    ensures
        ({
            let serving = s.next(ServerEventView::Done);
            let ready = serving.next(ServerEventView::Done);
            &&& serving.action() is Serve
            &&& s.mode is Run ==> ready.action() is AskStop
            &&& !(s.mode is Run) ==> ready.action() is Accept
        }),
{
}

/// An event that the action cannot bring changes nothing.
pub proof fn misplaced_events_change_nothing(s: ServerView, event: ServerEventView)
    requires
        match (s.action(), event) {
            (ServerActionView::AskStop, ServerEventView::Stop(_)) => false,
            (ServerActionView::AskStop, _) => true,
            (_, ServerEventView::Stop(_)) => true,
            (ServerActionView::ReadEnvironment, ServerEventView::Done) => true,
            (ServerActionView::ReadEnvironment, _) => false,
            (_, ServerEventView::Environment { .. }) => true,
            (ServerActionView::Serve, ServerEventView::Failed(_)) => true,
            (ServerActionView::Finish(_), _) => true,
            _ => false,
        },
    ensures
        s.next(event) == s,
{
}

} // verus!
