//! What the values that are handed in and out stand for.
use crate::config::{texts, Args};
use crate::connection::{Bind, Global};
use crate::context::{contextual, Errorize};
use crate::interfaces::warnings;
use crate::proto::{
    bytes_read, outcome, packet_outcome, string_outcome, text_of, ByteSink, Packet, PacketView,
    Progress, ProgressView, ReadError,
};
use crate::relay::{stop_of, Action, ActionView, Event, EventView, Phase, PhaseView};
use crate::remarks::{told, Remark, RemarkView};
use crate::server::{
    greeting, ServerAction, ServerActionView, ServerEvent, ServerEventView, Stage, StageView,
    Upstream, UpstreamView,
};
use vstd::prelude::*;

verus! {

/// A list of strings stands for their texts, one for one.
pub proof fn strings_stand_for_their_texts(list: Seq<String>)
    ensures
        texts(list).len() == list.len(),
        forall|i: int| 0 <= i < list.len() ==> (#[trigger] texts(list)[i]) == list[i]@,
{
}

/// An optional string stands for its text, if it is there.
pub proof fn optional_string_stands_for_its_text(s: Option<String>)
    ensures
        text_of(s) is Some <==> s is Some,
        s matches Some(t) ==> text_of(s) == Some(t@),
{
}

/// The settings stand for themselves, each for its own.
pub proof fn settings_stand_for_themselves(args: Args)
    ensures
        args@.app_id is Some <==> args.app_id is Some,
        args.app_id matches Some(t) ==> args@.app_id == Some(t@),
        args@.title is Some <==> args.title is Some,
        args.title matches Some(t) ==> args@.title == Some(t@),
        args@.prefix_app_id == args.prefix_app_id,
        args@.prefix_title == args.prefix_title,
        args@.block.len() == args.block@.len(),
        forall|i: int| 0 <= i < args.block@.len() ==> (#[trigger] args@.block[i]) == args.block@[i]@,
{
}

/// An interface is blocked exactly where the list of the settings has its name.
pub proof fn blocked_means_listed(args: Args, name: Seq<char>)
    ensures
        args@.blocks(name) <==> exists|i: int|
            0 <= i < args.block@.len() && (#[trigger] args.block@[i])@ == name,
{
    if args@.blocks(name) {
        let i = choose|i: int| 0 <= i < args@.block.len() && args@.block[i] == name;
        assert(args.block@[i]@ == name);
    }
    if exists|i: int| 0 <= i < args.block@.len() && (#[trigger] args.block@[i])@ == name {
        let i = choose|i: int| 0 <= i < args.block@.len() && (#[trigger] args.block@[i])@ == name;
        assert(args@.block[i] == name);
    }
}

/// A quiet server greets with nothing, and any other with the warnings about what it blocks.
pub proof fn quiet_servers_do_not_greet(args: Args)
    ensures
        args.quiet ==> greeting(args) == Seq::<Seq<char>>::empty(),
        !args.quiet ==> greeting(args) == warnings(args@.block),
{
}

/// Results stand for their values, and for the texts of their errors.
pub proof fn results_stand_for_their_values(
    stop: Result<(), String>,
    number: Result<u32, &str>,
    text: Result<Option<String>, &str>,
    packet: Result<Option<Packet>, &str>,
    bytes: Result<Vec<u8>, ReadError>,
)
    ensures
        stop_of(stop) is Ok <==> stop is Ok,
        stop matches Err(e) ==> stop_of(stop) == Err::<(), Seq<char>>(e@),
        number matches Ok(v) ==> outcome(number) == Ok::<u32, Seq<char>>(v),
        number matches Err(e) ==> outcome(number) == Err::<u32, Seq<char>>(e@),
        text matches Ok(s) ==> string_outcome(text) == Ok::<Option<Seq<char>>, Seq<char>>(
            text_of(s),
        ),
        text matches Err(e) ==> string_outcome(text) == Err::<Option<Seq<char>>, Seq<char>>(e@),
        packet matches Ok(Some(p)) ==> packet_outcome(packet) == Ok::<
            Option<PacketView>,
            Seq<char>,
        >(Some(PacketView { id: p.id, opcode: p.opcode, body: p.body@ })),
        packet matches Ok(None) ==> packet_outcome(packet) == Ok::<Option<PacketView>, Seq<char>>(
            None,
        ),
        packet matches Err(e) ==> packet_outcome(packet) == Err::<Option<PacketView>, Seq<char>>(
            e@,
        ),
        bytes matches Ok(b) ==> bytes_read(bytes) == Ok::<Seq<u8>, ReadError>(b@),
        bytes matches Err(e) ==> bytes_read(bytes) == Err::<Seq<u8>, ReadError>(e),
{
}

/// Putting an error in context keeps a success as it is, and puts the context before the text
/// of an error.
pub proof fn context_keeps_successes(
    text: Seq<char>,
    from: Result<u32, &str>,
    r: Result<u32, String>,
)
    requires
        contextual(from.told(), text, r),
    ensures
        from matches Ok(v) ==> r == Ok::<u32, String>(v),
        from matches Err(e) ==> (r matches Err(s) && s@ == text + ": "@ + e@),
{
}

/// The same holds of errors that are owned.
pub proof fn context_keeps_successes_of_owned(
    text: Seq<char>,
    from: Result<u32, String>,
    r: Result<u32, String>,
)
    requires
        contextual(from.told(), text, r),
    ensures
        from matches Ok(v) ==> r == Ok::<u32, String>(v),
        from matches Err(e) ==> (r matches Err(s) && s@ == text + ": "@ + e@),
{
}

/// A vector takes bytes without end, and what was written is what it holds.
pub proof fn vectors_take_bytes_without_end(out: Vec<u8>)
    ensures
        out.written() == out@,
        out.room() is None,
{
}

/// Messages and their arguments stand for their fields.
pub proof fn messages_stand_for_their_fields(packet: Packet, bind: Bind, global: Global)
    ensures
        packet@.id == packet.id,
        packet@.opcode == packet.opcode,
        packet@.body == packet.body@,
        bind@.type_id == bind.type_id,
        bind@.interface == text_of(bind.interface),
        bind@.version == bind.version,
        bind@.id == bind.id,
        global@.type_id == global.type_id,
        global@.interface == text_of(global.interface),
        global@.version == global.version,
{
}

/// How far a message was read stands for itself.
pub proof fn progress_stands_for_itself(progress: Progress)
    ensures
        match progress {
            Progress::Reading(reader) => progress@ == ProgressView::Reading(reader),
            Progress::Complete(packet) => progress@ == ProgressView::Complete(packet@),
            Progress::Closed => progress@ is Closed,
            Progress::Failed(text) => progress@ == ProgressView::Failed(text@),
        },
{
}

/// The actions of a relay stand for themselves.
pub proof fn actions_stand_for_themselves(action: Action)
    ensures
        match action {
            Action::Read(n) => action@ == ActionView::Read(n as nat),
            Action::Write { bytes, fds } => action@ == (ActionView::Write {
                bytes: bytes@,
                fds: fds@,
            }),
            Action::Close(fds) => action@ == ActionView::Close(fds@),
            Action::Finish(Ok(())) => action@ == ActionView::Finish(Ok(())),
            Action::Finish(Err(e)) => action@ == ActionView::Finish(Err(e@)),
        },
{
}

/// The events of a relay stand for themselves.
pub proof fn events_stand_for_themselves(event: Event)
    ensures
        match event {
            Event::Read { bytes, fds } => event@ == (EventView::Read { bytes: bytes@, fds: fds@ }),
            Event::ReadFailed { error, fds } => event@ == (EventView::ReadFailed {
                error,
                fds: fds@,
            }),
            Event::Written => event@ is Written,
            Event::WriteFailed => event@ is WriteFailed,
            Event::Closed => event@ is Closed,
        },
{
}

/// The phases of a relay stand for themselves.
pub proof fn phases_stand_for_themselves(phase: Phase)
    ensures
        match phase {
            Phase::Reading(reader) => phase@ == PhaseView::Reading(reader),
            Phase::Sending { packet, part } => phase@ == (PhaseView::Sending {
                packet: packet@,
                part,
            }),
            Phase::Closing => phase@ is Closing,
            Phase::Finished(Ok(())) => phase@ == PhaseView::Finished(Ok(())),
            Phase::Finished(Err(e)) => phase@ == PhaseView::Finished(Err(e@)),
        },
{
}

/// The actions of a server stand for themselves.
pub proof fn server_actions_stand_for_themselves(action: ServerAction)
    ensures
        match action {
            ServerAction::OpenLock(path) => action@ == ServerActionView::OpenLock(path),
            ServerAction::TakeLock => action@ is TakeLock,
            ServerAction::RemoveFile(path) => action@ == ServerActionView::RemoveFile(path),
            ServerAction::Bind(path) => action@ == ServerActionView::Bind(path),
            ServerAction::NotifyReady => action@ is NotifyReady,
            ServerAction::AskStop => action@ is AskStop,
            ServerAction::Accept => action@ is Accept,
            ServerAction::ReadEnvironment => action@ is ReadEnvironment,
            ServerAction::Connect(Upstream::Given(path)) => action@ == ServerActionView::Connect(
                UpstreamView::Given(path),
            ),
            ServerAction::Connect(Upstream::Named(path)) => action@ == ServerActionView::Connect(
                UpstreamView::Named(path@),
            ),
            ServerAction::Serve => action@ is Serve,
            ServerAction::Finish(Ok(())) => action@ == ServerActionView::Finish(Ok(())),
            ServerAction::Finish(Err(e)) => action@ == ServerActionView::Finish(Err(e@)),
        },
{
}

/// The events of a server stand for themselves.
pub proof fn server_events_stand_for_themselves(event: ServerEvent)
    ensures
        match event {
            ServerEvent::Done => event@ is Done,
            ServerEvent::Failed(e) => event@ == ServerEventView::Failed(e@),
            ServerEvent::Stop(stop) => event@ == ServerEventView::Stop(stop),
            ServerEvent::Environment { runtime_dir, wayland_display: Some(name) } => event@
                == (ServerEventView::Environment {
                runtime_dir: runtime_dir@,
                wayland_display: Some(name@),
            }),
            ServerEvent::Environment { runtime_dir, wayland_display: None } => event@
                == (ServerEventView::Environment {
                runtime_dir: runtime_dir@,
                wayland_display: None,
            }),
        },
{
}

/// The stages of a server stand for themselves.
pub proof fn stages_stand_for_themselves(stage: Stage)
    ensures
        match stage {
            Stage::OpenLock => stage@ is OpenLock,
            Stage::TakeLock => stage@ is TakeLock,
            Stage::RemoveStale => stage@ is RemoveStale,
            Stage::Bind => stage@ is Bind,
            Stage::NotifyReady => stage@ is NotifyReady,
            Stage::AskStop => stage@ is AskStop,
            Stage::Accept => stage@ is Accept,
            Stage::ReadEnvironment => stage@ is ReadEnvironment,
            Stage::Connect(upstream) => stage@ == StageView::Connect(upstream@),
            Stage::Serve => stage@ is Serve,
            Stage::RemoveSocket(r) => stage@ == StageView::RemoveSocket(stop_of(r)),
            Stage::RemoveLock(r) => stage@ == StageView::RemoveLock(stop_of(r)),
            Stage::Finished(r) => stage@ == StageView::Finished(stop_of(r)),
        },
{
}

/// Remarks stand for themselves, one for one.
pub proof fn remarks_stand_for_themselves(remarks: Seq<Remark>, i: int)
    requires
        0 <= i < remarks.len(),
    ensures
        told(remarks).len() == remarks.len(),
        match remarks[i] {
            Remark::FromClient { object, fds, packet } => told(remarks)[i]
                == (RemarkView::FromClient { object, fds: fds as nat, packet: packet@ }),
            Remark::FromServer { fds, packet } => told(remarks)[i] == (RemarkView::FromServer {
                fds: fds as nat,
                packet: packet@,
            }),
            Remark::BlockedBind(name) => told(remarks)[i] == RemarkView::BlockedBind(name@),
            Remark::BlockedGlobal(name) => told(remarks)[i] == RemarkView::BlockedGlobal(name@),
            Remark::ModifiedTitle(packet) => told(remarks)[i] == RemarkView::ModifiedTitle(packet@),
            Remark::ModifiedAppId(packet) => told(remarks)[i] == RemarkView::ModifiedAppId(packet@),
        },
{
}

} // verus!
