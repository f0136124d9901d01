use vstd::prelude::*;
use crate::codec::{action_frame, encode_action, EncodeError};

verus! {

/// An action frame for the upstream provider: `auth`, `subscribe` or
/// `unsubscribe`, with its parameter string.
#[derive(Debug)]
pub struct PolygonAction {
    pub action: String,
    pub params: String,
}

impl PolygonAction {
    /// The frame written on the wire for this action.
    pub fn to_frame(&self) -> (r: Result<String, EncodeError>)
        ensures
            r is Ok,
            r matches Ok(f) ==> f@ == action_frame(self.action@, self.params@),
    {
        encode_action(self.action.as_str(), self.params.as_str())
    }
}

/// A control instruction from outside the relay.
#[derive(Debug)]
pub enum Command {
    Start,
    Polygon(PolygonAction),
    Stop,
}

/// A request to subscribe to one ticker's events of one class.
#[derive(Debug)]
pub struct Subscribe {
    pub stream: String,
    pub ticker: String,
}

/// A request to unsubscribe from one ticker's events of one class.
#[derive(Debug)]
pub struct Unsubscribe {
    pub stream: String,
    pub ticker: String,
}

/// The subscription token `<class>.<ticker>`.
pub open spec fn token_of(stream: Seq<char>, ticker: Seq<char>) -> Seq<char> {
    stream + "."@ + ticker
}

pub fn token(stream: &str, ticker: &str) -> (r: String)
    ensures
        r@ == token_of(stream@, ticker@),
{
    let mut out = String::from_str(stream);
    out.append(".");
    out.append(ticker);
    out
}

/// The command that subscribes to `message.stream` for `message.ticker`.
pub fn subscribe(message: &Subscribe) -> (r: Command)
    ensures
        r matches Command::Polygon(a) && a.action@ == "subscribe"@ && a.params@ == token_of(
            message.stream@,
            message.ticker@,
        ),
{
    Command::Polygon(
        PolygonAction {
            action: String::from_str("subscribe"),
            params: token(message.stream.as_str(), message.ticker.as_str()),
        },
    )
}

/// The command that unsubscribes from `message.stream` for `message.ticker`.
pub fn unsubscribe(message: &Unsubscribe) -> (r: Command)
    ensures
        r matches Command::Polygon(a) && a.action@ == "unsubscribe"@ && a.params@ == token_of(
            message.stream@,
            message.ticker@,
        ),
{
    Command::Polygon(
        PolygonAction {
            action: String::from_str("unsubscribe"),
            params: token(message.stream.as_str(), message.ticker.as_str()),
        },
    )
}

/// What the control path does with one command.
#[derive(Debug)]
pub enum ControlStep {
    /// Write this frame on the outbound half of the connection.
    Write(String),
    /// Nothing to send for a lifecycle marker that starts the path.
    Skip,
    /// The control path ends.
    Finish,
    /// The command could not be written as a frame; report it.
    Report(EncodeError),
}

/// Decides what the control multiplexer does with `cmd`.
pub fn control_step(cmd: &Command) -> (r: ControlStep)
    ensures
        cmd is Start ==> r is Skip,
        cmd is Stop ==> r is Finish,
        cmd matches Command::Polygon(a) ==> r is Write,
        r matches ControlStep::Write(f) ==> cmd matches Command::Polygon(a) && f@ == action_frame(
            a.action@,
            a.params@,
        ),
{
    match cmd {
        Command::Start => ControlStep::Skip,
        Command::Stop => ControlStep::Finish,
        Command::Polygon(a) => match a.to_frame() {
            Ok(f) => ControlStep::Write(f),
            Err(e) => ControlStep::Report(e),
        },
    }
}

} // verus!
