use crate::args::Format;
use crate::download::{first_bytes_verdict, validate_first_bytes};
use crate::errors::{AppError, Failure};
use vstd::prelude::*;

verus! {

/// Where one download stands.
#[derive(Clone, Copy, Debug, PartialEq, Eq, Structural)]
pub enum Phase {
    /// The request is out; the status of the answer is awaited.
    Requesting,
    /// The answer was accepted; the output file is being created.
    Opening,
    /// The file stands; no chunk that holds a byte has come yet.
    AwaitingFirstChunk,
    /// The first chunk passed; the next chunk or the end is awaited.
    AwaitingChunk,
    /// A chunk is being written.
    Storing,
    /// The body has ended; the file is being flushed.
    Flushing,
    /// The whole body is in the file.
    Succeeded,
    /// The download was given up.
    Failed,
}

/// What the driver of a download reports back.
#[derive(Clone, Debug, PartialEq, Eq)]
pub enum Event {
    /// The remote side answered with a success status.
    Accepted,
    /// The remote side answered with an error status, retries included.
    Refused(String),
    /// The request or the body stream broke off.
    Broken(String),
    /// The file operation that was asked for is done.
    Stored,
    /// The file operation that was asked for failed.
    StorageFailed(String),
    /// The next chunk of the body.
    Chunk(Vec<u8>),
    /// The body has no further chunk.
    EndOfBody,
}

/// What the driver of a download does next.
#[derive(Clone, Debug, PartialEq, Eq)]
pub enum Action {
    /// Create the output file, or empty it.
    CreateFile,
    /// Wait for the next chunk of the body.
    ReadChunk,
    /// Append these bytes, the chunk just reported, to the file.
    WriteChunk(Vec<u8>),
    /// Flush the file.
    Flush,
    /// Report success; the file is complete.
    Finish,
    /// Remove whatever stands at the output path, ignoring an error of the
    /// removal, and report the failure.
    Abort(AppError),
}

/// An `Event` with its texts as character sequences and its chunk as bytes.
pub enum EventModel {
    Accepted,
    Refused(Seq<char>),
    Broken(Seq<char>),
    Stored,
    StorageFailed(Seq<char>),
    Chunk(Seq<u8>),
    EndOfBody,
}

/// An `Action` with its failure as a `Failure`.
pub enum ActionModel {
    CreateFile,
    ReadChunk,
    WriteChunk(Seq<u8>),
    Flush,
    Finish,
    Abort(Failure),
}

impl View for Event {
    type V = EventModel;

    open spec fn view(&self) -> EventModel {
        match self {
            Event::Accepted => EventModel::Accepted,
            Event::Refused(text) => EventModel::Refused(text@),
            Event::Broken(text) => EventModel::Broken(text@),
            Event::Stored => EventModel::Stored,
            Event::StorageFailed(text) => EventModel::StorageFailed(text@),
            Event::Chunk(bytes) => EventModel::Chunk(bytes@),
            Event::EndOfBody => EventModel::EndOfBody,
        }
    }
}

impl View for Action {
    type V = ActionModel;

    open spec fn view(&self) -> ActionModel {
        match self {
            Action::CreateFile => ActionModel::CreateFile,
            Action::ReadChunk => ActionModel::ReadChunk,
            Action::WriteChunk(bytes) => ActionModel::WriteChunk(bytes@),
            Action::Flush => ActionModel::Flush,
            Action::Finish => ActionModel::Finish,
            Action::Abort(e) => ActionModel::Abort(e@),
        }
    }
}

impl Phase {
    /// Whether the download is over.
    pub open spec fn is_terminal(self) -> bool {
        self == Phase::Succeeded || self == Phase::Failed
    }

    /// Whether the download is over.
    pub fn is_finished(&self) -> (over: bool)
        ensures
            over == self.is_terminal(),
    {
        match self {
            Phase::Succeeded => true,
            Phase::Failed => true,
            _ => false,
        }
    }
}

/// The message of a refused request.
pub open spec fn refusal_message_of(url: Seq<char>, detail: Seq<char>) -> Seq<char> {
    "Failed to download from "@ + url + ". [ERROR]: `"@ + detail + "`"@
}

/// The step that gives a download up with `failure`.
pub open spec fn give_up(failure: Failure) -> Option<(Phase, ActionModel)> {
    Some((Phase::Failed, ActionModel::Abort(failure)))
}

/// The next phase and the next action of a download that stands at `phase`
/// and is told `event`; nothing where the phase does not await that event.
pub open spec fn decide(phase: Phase, event: EventModel, url: Seq<char>, format: Format) -> Option<
    (Phase, ActionModel),
> {
    match phase {
        Phase::Requesting => match event {
            EventModel::Accepted => Some((Phase::Opening, ActionModel::CreateFile)),
            EventModel::Refused(detail) => give_up(
                Failure::StatusCode(refusal_message_of(url, detail)),
            ),
            EventModel::Broken(detail) => give_up(Failure::Request(detail)),
            _ => None,
        },
        Phase::Opening => match event {
            EventModel::Stored => Some((Phase::AwaitingFirstChunk, ActionModel::ReadChunk)),
            EventModel::StorageFailed(detail) => give_up(Failure::Io(detail)),
            _ => None,
        },
        Phase::AwaitingFirstChunk => match event {
            EventModel::Chunk(bytes) => if bytes.len() == 0 {
                Some((Phase::AwaitingFirstChunk, ActionModel::ReadChunk))
            } else {
                match first_bytes_verdict(bytes, format) {
                    Ok(_) => Some((Phase::Storing, ActionModel::WriteChunk(bytes))),
                    Err(failure) => give_up(failure),
                }
            },
            EventModel::EndOfBody => give_up(Failure::InvalidResponse("empty response"@)),
            EventModel::Broken(detail) => give_up(Failure::Request(detail)),
            _ => None,
        },
        Phase::AwaitingChunk => match event {
            EventModel::Chunk(bytes) => Some((Phase::Storing, ActionModel::WriteChunk(bytes))),
            EventModel::EndOfBody => Some((Phase::Flushing, ActionModel::Flush)),
            EventModel::Broken(detail) => give_up(Failure::Request(detail)),
            _ => None,
        },
        Phase::Storing => match event {
            EventModel::Stored => Some((Phase::AwaitingChunk, ActionModel::ReadChunk)),
            EventModel::StorageFailed(detail) => give_up(Failure::Io(detail)),
            _ => None,
        },
        Phase::Flushing => match event {
            EventModel::Stored => Some((Phase::Succeeded, ActionModel::Finish)),
            EventModel::StorageFailed(detail) => give_up(Failure::Io(detail)),
            _ => None,
        },
        Phase::Succeeded => None,
        Phase::Failed => None,
    }
}

/// A step with its action as an `ActionModel`.
pub open spec fn step_view(next: Option<(Phase, Action)>) -> Option<(Phase, ActionModel)> {
    match next {
        Some((phase, action)) => Some((phase, action@)),
        None => None,
    }
}

/// The message of a refused request.
pub fn refusal_message(url: &str, detail: &str) -> (message: String)
    ensures
        message@ == refusal_message_of(url@, detail@),
{
    let mut message = String::from_str("Failed to download from ");
    message.append(url);
    message.append(". [ERROR]: `");
    message.append(detail);
    message.append("`");
    message
}

/// Decides how a download goes on: from the phase it stands at and what its
/// driver reports, the next phase and what the driver does next. The body is
/// checked once, on the first chunk that holds a byte; a chunk of no bytes
/// before that is passed over. `None` where the phase does not await the
/// event; the download then stands as it stood.
pub fn step(phase: Phase, event: Event, url: &str, format: &Format) -> (next: Option<
    (Phase, Action),
>)
    ensures
        step_view(next) == decide(phase, event@, url@, *format),
{
    match phase {
        Phase::Requesting => match event {
            Event::Accepted => Some((Phase::Opening, Action::CreateFile)),
            Event::Refused(detail) => {
                let message = refusal_message(url, detail.as_str());
                Some((Phase::Failed, Action::Abort(AppError::StatusCodeError(message))))
            },
            Event::Broken(detail) => Some(
                (Phase::Failed, Action::Abort(AppError::RequestError(detail))),
            ),
            _ => None,
        },
        Phase::Opening => match event {
            Event::Stored => Some((Phase::AwaitingFirstChunk, Action::ReadChunk)),
            Event::StorageFailed(detail) => Some(
                (Phase::Failed, Action::Abort(AppError::IoError(detail))),
            ),
            _ => None,
        },
        Phase::AwaitingFirstChunk => match event {
            Event::Chunk(bytes) => if bytes.len() == 0 {
                Some((Phase::AwaitingFirstChunk, Action::ReadChunk))
            } else {
                match validate_first_bytes(bytes.as_slice(), format) {
                    Ok(_) => Some((Phase::Storing, Action::WriteChunk(bytes))),
                    Err(failure) => Some((Phase::Failed, Action::Abort(failure))),
                }
            },
            Event::EndOfBody => Some(
                (
                    Phase::Failed,
                    Action::Abort(
                        AppError::InvalidResponseError(String::from_str("empty response")),
                    ),
                ),
            ),
            Event::Broken(detail) => Some(
                (Phase::Failed, Action::Abort(AppError::RequestError(detail))),
            ),
            _ => None,
        },
        Phase::AwaitingChunk => match event {
            Event::Chunk(bytes) => Some((Phase::Storing, Action::WriteChunk(bytes))),
            Event::EndOfBody => Some((Phase::Flushing, Action::Flush)),
            Event::Broken(detail) => Some(
                (Phase::Failed, Action::Abort(AppError::RequestError(detail))),
            ),
            _ => None,
        },
        Phase::Storing => match event {
            Event::Stored => Some((Phase::AwaitingChunk, Action::ReadChunk)),
            Event::StorageFailed(detail) => Some(
                (Phase::Failed, Action::Abort(AppError::IoError(detail))),
            ),
            _ => None,
        },
        Phase::Flushing => match event {
            Event::Stored => Some((Phase::Succeeded, Action::Finish)),
            Event::StorageFailed(detail) => Some(
                (Phase::Failed, Action::Abort(AppError::IoError(detail))),
            ),
            _ => None,
        },
        Phase::Succeeded => None,
        Phase::Failed => None,
    }
}

/// The phase that a download reaches from `phase` when it is told `events`
/// in turn; nothing where one of them is not awaited.
pub open spec fn phase_after(
    phase: Phase,
    events: Seq<EventModel>,
    url: Seq<char>,
    format: Format,
) -> Option<Phase>
    decreases events.len(),
{
    if events.len() == 0 {
        Some(phase)
    } else {
        match decide(phase, events[0], url, format) {
            Some((next, _)) => phase_after(next, events.drop_first(), url, format),
            None => None,
        }
    }
}

/// The chunks that the driver is told to write while a download is told
/// `events` in turn from `phase`, in the order in which it writes them.
pub open spec fn chunks_written(
    phase: Phase,
    events: Seq<EventModel>,
    url: Seq<char>,
    format: Format,
) -> Seq<Seq<u8>>
    decreases events.len(),
{
    if events.len() == 0 {
        Seq::empty()
    } else {
        match decide(phase, events[0], url, format) {
            Some((next, action)) => {
                let later = chunks_written(next, events.drop_first(), url, format);
                match action {
                    ActionModel::WriteChunk(bytes) => seq![bytes] + later,
                    _ => later,
                }
            },
            None => Seq::empty(),
        }
    }
}

/// What the file holds once the driver has written `chunks` in turn.
pub open spec fn file_contents(chunks: Seq<Seq<u8>>) -> Seq<u8>
    decreases chunks.len(),
{
    if chunks.len() == 0 {
        Seq::empty()
    } else {
        chunks[0] + file_contents(chunks.drop_first())
    }
}

/// The first of `chunks` that holds a byte, if any does.
pub open spec fn first_nonempty(chunks: Seq<Seq<u8>>) -> Option<Seq<u8>>
    decreases chunks.len(),
{
    if chunks.len() == 0 {
        None
    } else if chunks[0].len() > 0 {
        Some(chunks[0])
    } else {
        first_nonempty(chunks.drop_first())
    }
}

/// Whether `event` is a report that the driver can give once it has done
/// `action`: the end of a file operation after a file operation, a chunk, the
/// end of the body or a break after a read, and nothing once the download is
/// over.
pub open spec fn answers(action: ActionModel, event: EventModel) -> bool {
    match action {
        ActionModel::CreateFile => event is Stored || event is StorageFailed,
        ActionModel::WriteChunk(_) => event is Stored || event is StorageFailed,
        ActionModel::Flush => event is Stored || event is StorageFailed,
        ActionModel::ReadChunk => event is Chunk || event is EndOfBody || event is Broken,
        ActionModel::Finish => false,
        ActionModel::Abort(_) => false,
    }
}

/// Whether `event` is a report on the request itself, with which a download
/// begins.
pub open spec fn opens(event: EventModel) -> bool {
    event is Accepted || event is Refused || event is Broken
}

/// The chunks that `events` report, in order.
pub open spec fn chunks_received(events: Seq<EventModel>) -> Seq<Seq<u8>>
    decreases events.len(),
{
    if events.len() == 0 {
        Seq::empty()
    } else {
        let later = chunks_received(events.drop_first());
        match events[0] {
            EventModel::Chunk(bytes) => seq![bytes] + later,
            _ => later,
        }
    }
}

/// A step gives the download up exactly where it tells the driver to remove
/// the output and report a failure, and it ends in success exactly where it
/// tells the driver to report success.
pub proof fn lemma_abort_iff_failed(phase: Phase, event: EventModel, url: Seq<char>, format: Format)
    ensures
        match decide(phase, event, url, format) {
            Some((next, action)) => {
                &&& next == Phase::Failed <==> action is Abort
                &&& next == Phase::Succeeded <==> action is Finish
            },
            None => true,
        },
{
}

/// A download that is over awaits nothing.
pub proof fn lemma_terminal_phase_awaits_nothing(
    phase: Phase,
    event: EventModel,
    url: Seq<char>,
    format: Format,
)
    requires
        phase.is_terminal(),
    ensures
        decide(phase, event, url, format) is None,
{
}

/// A driver that reports on the request first, and then on each action it
/// was told, is never told `None`: a download awaits every report on its
/// request at its start, and after each step every answer to the action of
/// that step.
pub proof fn lemma_answers_are_awaited(
    phase: Phase,
    event: EventModel,
    answer: EventModel,
    url: Seq<char>,
    format: Format,
)
    ensures
        opens(event) <==> decide(Phase::Requesting, event, url, format) is Some,
        match decide(phase, event, url, format) {
            Some((next, action)) => answers(action, answer) ==> decide(
                next,
                answer,
                url,
                format,
            ) is Some,
            None => true,
        },
{
}

/// A chunk of no bytes that comes before any other is passed over: nothing is
/// checked, nothing is written, and the next chunk is awaited as the first.
pub proof fn lemma_empty_chunk_passed_over(url: Seq<char>, format: Format)
    ensures
        decide(Phase::AwaitingFirstChunk, EventModel::Chunk(Seq::empty()), url, format) == Some(
            (Phase::AwaitingFirstChunk, ActionModel::ReadChunk),
        ),
{
}

/// A body that ends before a chunk that holds a byte has come is refused as
/// an empty response.
pub proof fn lemma_empty_body_refused(url: Seq<char>, format: Format)
    ensures
        decide(Phase::AwaitingFirstChunk, EventModel::EndOfBody, url, format) == give_up(
            Failure::InvalidResponse("empty response"@),
        ),
{
}

/// A first chunk that holds a byte and does not pass for the format ends the
/// download with the verdict as its failure, and is not written.
pub proof fn lemma_bad_first_chunk_refused(bytes: Seq<u8>, url: Seq<char>, format: Format)
    requires
        bytes.len() > 0,
        first_bytes_verdict(bytes, format) is Err,
    ensures
        decide(Phase::AwaitingFirstChunk, EventModel::Chunk(bytes), url, format) == give_up(
            first_bytes_verdict(bytes, format)->Err_0,
        ),
{
}

/// Only the first chunk that holds a byte is checked: once it has passed,
/// every later chunk is written as it comes, whatever it holds and whatever
/// the format.
pub proof fn lemma_later_chunks_unchecked(bytes: Seq<u8>, url: Seq<char>, format: Format)
    ensures
        decide(Phase::AwaitingChunk, EventModel::Chunk(bytes), url, format) == Some(
            (Phase::Storing, ActionModel::WriteChunk(bytes)),
        ),
{
}

/// The file after a chunk and further chunks holds the bytes of the chunk
/// and then what the further chunks give.
pub proof fn lemma_file_contents_prepend(chunk: Seq<u8>, later: Seq<Seq<u8>>)
    ensures
        file_contents(seq![chunk] + later) == chunk + file_contents(later),
{
    let all = seq![chunk] + later;
    assert(all[0] == chunk);
    assert(all.drop_first() =~= later);
}

/// A download that ends in success from any phase leaves the file with the
/// bytes of every chunk that was reported to it, in the order of arrival.
pub proof fn lemma_success_writes_every_chunk(
    phase: Phase,
    events: Seq<EventModel>,
    url: Seq<char>,
    format: Format,
)
    requires
        phase_after(phase, events, url, format) == Some(Phase::Succeeded),
    ensures
        file_contents(chunks_written(phase, events, url, format)) == file_contents(
            chunks_received(events),
        ),
    decreases events.len(),
{
    if events.len() > 0 {
        let rest = events.drop_first();
        match decide(phase, events[0], url, format) {
            Some((next, action)) => {
                lemma_success_writes_every_chunk(next, rest, url, format);
                let written = chunks_written(next, rest, url, format);
                let received = chunks_received(rest);
                match events[0] {
                    EventModel::Chunk(bytes) => {
                        lemma_file_contents_prepend(bytes, received);
                        match action {
                            ActionModel::WriteChunk(told) => {
                                assert(told == bytes);
                                lemma_file_contents_prepend(bytes, written);
                            },
                            ActionModel::ReadChunk => {
                                assert(bytes.len() == 0);
                                assert(bytes + file_contents(received) =~= file_contents(
                                    received,
                                ));
                            },
                            _ => {
                                assert(next == Phase::Failed);
                                assert(phase_after(next, rest, url, format) != Some(
                                    Phase::Succeeded,
                                ));
                            },
                        }
                    },
                    _ => {},
                }
            },
            None => {},
        }
    }
}

/// A download that ends in success from its start has received a chunk that
/// holds a byte, and the first such chunk passed for the format.
pub proof fn lemma_success_needs_valid_first_chunk(
    events: Seq<EventModel>,
    url: Seq<char>,
    format: Format,
)
    requires
        phase_after(Phase::Requesting, events, url, format) == Some(Phase::Succeeded),
    ensures
        first_nonempty(chunks_received(events)) is Some,
        first_bytes_verdict(first_nonempty(chunks_received(events))->0, format) is Ok,
{
    lemma_success_from_early_phase(Phase::Requesting, events, url, format);
}

/// Whether a download that stands at `phase` has its check behind it.
pub open spec fn past_first_chunk(phase: Phase) -> bool {
    phase == Phase::AwaitingChunk || phase == Phase::Storing || phase == Phase::Flushing
        || phase == Phase::Succeeded
}

/// From a phase before the check, success is reached only over a chunk that
/// holds a byte, and the first such chunk passes for the format.
pub proof fn lemma_success_from_early_phase(
    phase: Phase,
    events: Seq<EventModel>,
    url: Seq<char>,
    format: Format,
)
    requires
        phase_after(phase, events, url, format) == Some(Phase::Succeeded),
        !past_first_chunk(phase),
    ensures
        first_nonempty(chunks_received(events)) is Some,
        first_bytes_verdict(first_nonempty(chunks_received(events))->0, format) is Ok,
    decreases events.len(),
{
    if events.len() > 0 {
        let rest = events.drop_first();
        let received = chunks_received(rest);
        match decide(phase, events[0], url, format) {
            Some((next, action)) => {
                if next == Phase::Failed {
                    assert(phase_after(next, rest, url, format) != Some(Phase::Succeeded));
                } else if !past_first_chunk(next) {
                    lemma_success_from_early_phase(next, rest, url, format);
                    match events[0] {
                        EventModel::Chunk(bytes) => {
                            assert(bytes.len() == 0);
                            let all = seq![bytes] + received;
                            assert(all[0] == bytes);
                            assert(all.drop_first() =~= received);
                        },
                        _ => {},
                    }
                } else {
                    match events[0] {
                        EventModel::Chunk(bytes) => {
                            let all = seq![bytes] + received;
                            assert(all[0] == bytes);
                        },
                        _ => {},
                    }
                }
            },
            None => {},
        }
    }
}

} // verus!
