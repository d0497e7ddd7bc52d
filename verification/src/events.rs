//! Events emitted toward the user interface. Every line relayed from the
//! worker becomes a log event on a single shared topic, with lines of the
//! error stream prefixed so the sink can tell them apart; one completion
//! event closes each run.

use vstd::prelude::*;
use vstd::string::StringExecFns;

verus! {

/// The two output streams of the worker process.
#[derive(Clone, Copy, PartialEq, Eq, Structural, Debug)]
pub enum Channel {
    Stdout,
    Stderr,
}

/// An event sent to the sink.
pub enum Event {
    /// One line of worker output (or one launch diagnostic).
    Log(String),
    /// The worker process has exited.
    Complete,
}

/// The mathematical model of an [`Event`]: its text as a character sequence.
pub enum EventModel {
    Log(Seq<char>),
    Complete,
}

impl DeepView for Event {
    type V = EventModel;

    open spec fn deep_view(&self) -> EventModel {
        match self {
            Event::Log(text) => EventModel::Log(text@),
            Event::Complete => EventModel::Complete,
        }
    }
}

/// The marker put in front of every line that arrived on the error stream.
pub open spec fn stderr_prefix() -> Seq<char> {
    "[ERROR] "@
}

/// The text a line is delivered with: stderr lines carry the error marker,
/// stdout lines pass through unchanged.
pub open spec fn line_text(channel: Channel, line: Seq<char>) -> Seq<char> {
    match channel {
        Channel::Stdout => line,
        Channel::Stderr => stderr_prefix() + line,
    }
}

/// The diagnostic text emitted when the operating system refuses to spawn
/// the worker, naming the failure, the interpreter, and the working
/// directory.
pub open spec fn spawn_failure_text(
    error: Seq<char>,
    interpreter: Seq<char>,
    workdir: Seq<char>,
) -> Seq<char> {
    "Failed to spawn python process: "@ + error + ". Python path: "@ + interpreter
        + ", Project root: "@ + workdir
}

/// The log event for one successfully decoded line of `channel`.
pub fn line_event(channel: Channel, line: String) -> (e: Event)
    ensures
        e.deep_view() == EventModel::Log(line_text(channel, line@)),
{
    match channel {
        Channel::Stdout => Event::Log(line),
        Channel::Stderr => Event::Log(String::from_str("[ERROR] ").concat(line.as_str())),
    }
}

/// The single diagnostic log event for a failed spawn attempt.
pub fn spawn_failure_event(error: &String, interpreter: &String, workdir: &String) -> (e: Event)
    ensures
        e.deep_view() == EventModel::Log(spawn_failure_text(error@, interpreter@, workdir@)),
{
    let text = String::from_str("Failed to spawn python process: ").concat(error.as_str()).concat(
        ". Python path: ",
    ).concat(interpreter.as_str()).concat(", Project root: ").concat(workdir.as_str());
    Event::Log(text)
}

/// The terminal event of a run.
pub fn completion_event() -> (e: Event)
    ensures
        e.deep_view() == EventModel::Complete,
{
    Event::Complete
}

/// The topic a log event is published on.
pub open spec fn log_topic() -> Seq<char> {
    "scraping-log"@
}

/// The topic the completion event is published on.
pub open spec fn complete_topic() -> Seq<char> {
    "scraping-complete"@
}

/// The payload of the completion event.
pub open spec fn complete_payload() -> Seq<char> {
    "done"@
}

/// The topic an event is published on: log events and the completion event
/// use two distinct, fixed topics.
pub fn event_topic(e: &Event) -> (r: &'static str)
    ensures
        e.deep_view() is Log ==> r@ == log_topic(),
        e.deep_view() is Complete ==> r@ == complete_topic(),
{
    match e {
        Event::Log(_) => "scraping-log",
        Event::Complete => "scraping-complete",
    }
}

/// The payload an event is published with: a log event carries its text, the
/// completion event a fixed marker.
pub fn event_payload(e: Event) -> (r: String)
    ensures
        e.deep_view() is Log ==> r@ == e.deep_view()->Log_0,
        e.deep_view() is Complete ==> r@ == complete_payload(),
{
    match e {
        Event::Log(text) => text,
        Event::Complete => String::from_str("done"),
    }
}

} // verus!
