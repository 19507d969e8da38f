//! The state behind the demonstration front end: what it shows, how it
//! changes on each message, and which call each message asks for.
//!
//! The front end itself (rendering, event wiring, running the calls) lives
//! outside this crate. It hands every event over as a [`Msg`], performs the
//! [`Command`] that comes back, and turns the result of a finished call into
//! the next message with [`Model::after_echo`] and [`Model::after_delay`].

use vstd::prelude::*;
use vstd::string::*;
use crate::decimal::{decimal, parse_decimal, parse_decimal_spec, push_decimal, to_decimal};
use crate::error::{call_result_view, RpcError};
use crate::service::{Call, CallView};

verus! {

/// What the front end shows.
#[derive(Clone, Debug, PartialEq, Eq)]
pub struct Model {
    pub delay: u64,
    pub delay_result: String,
    pub echo_value: String,
    pub echo_result: String,
    pub connected: bool,
}

pub struct ModelView {
    pub delay: u64,
    pub delay_result: Seq<char>,
    pub echo_value: Seq<char>,
    pub echo_result: Seq<char>,
    pub connected: bool,
}

impl View for Model {
    type V = ModelView;

    open spec fn view(&self) -> ModelView {
        ModelView {
            delay: self.delay,
            delay_result: self.delay_result@,
            echo_value: self.echo_value@,
            echo_result: self.echo_result@,
            connected: self.connected,
        }
    }
}

/// An event of the front end. The two input events carry the text that the
/// input field held when the event fired.
#[derive(Clone, Debug, PartialEq, Eq)]
pub enum Msg {
    Connect,
    Connected,
    Ping,
    UpdateEcho(String),
    UpdateDelay(String),
    UpdateEchoResult(String),
    UpdateDelayResult(String),
    Echo,
    Delay,
    Redraw,
}

pub enum MsgView {
    Connect,
    Connected,
    Ping,
    UpdateEcho(Seq<char>),
    UpdateDelay(Seq<char>),
    UpdateEchoResult(Seq<char>),
    UpdateDelayResult(Seq<char>),
    Echo,
    Delay,
    Redraw,
}

impl View for Msg {
    type V = MsgView;

    open spec fn view(&self) -> MsgView {
        match *self {
            Msg::Connect => MsgView::Connect,
            Msg::Connected => MsgView::Connected,
            Msg::Ping => MsgView::Ping,
            Msg::UpdateEcho(text) => MsgView::UpdateEcho(text@),
            Msg::UpdateDelay(text) => MsgView::UpdateDelay(text@),
            Msg::UpdateEchoResult(text) => MsgView::UpdateEchoResult(text@),
            Msg::UpdateDelayResult(text) => MsgView::UpdateDelayResult(text@),
            Msg::Echo => MsgView::Echo,
            Msg::Delay => MsgView::Delay,
            Msg::Redraw => MsgView::Redraw,
        }
    }
}

/// What the front end is asked to do after a message.
#[derive(Clone, Debug, PartialEq, Eq)]
pub enum Command {
    /// Nothing to do.
    Idle,
    /// Open a connection; report success with [`Msg::Connected`].
    Connect,
    /// Call `ping`.
    Ping,
    /// Call `echo` with this value.
    Echo(String),
    /// Call `delay` with this many seconds.
    Delay(u64),
}

pub enum CommandView {
    Idle,
    Connect,
    Ping,
    Echo(Seq<char>),
    Delay(u64),
}

impl View for Command {
    type V = CommandView;

    open spec fn view(&self) -> CommandView {
        match *self {
            Command::Idle => CommandView::Idle,
            Command::Connect => CommandView::Connect,
            Command::Ping => CommandView::Ping,
            Command::Echo(value) => CommandView::Echo(value@),
            Command::Delay(seconds) => CommandView::Delay(seconds),
        }
    }
}

/// The outcome of [`Model::update`]: whether to draw again, and what to do.
#[derive(Clone, Debug, PartialEq, Eq)]
pub struct Update {
    pub redraw: bool,
    pub command: Command,
}

impl ModelView {
    /// The state of a front end that has just been created.
    pub open spec fn initial() -> ModelView {
        ModelView {
            delay: 30,
            delay_result: "Type number in input and press Delay"@,
            echo_value: Seq::empty(),
            echo_result: "Type string in input and press Echo"@,
            connected: false,
        }
    }

    /// The command for a call, which goes out only while connected.
    pub open spec fn when_connected(self, command: CommandView) -> CommandView {
        if self.connected {
            command
        } else {
            CommandView::Idle
        }
    }

    /// Whether `update` accepts the message: the text of a delay input must
    /// read as a number.
    pub open spec fn accepts(self, msg: MsgView) -> bool {
        msg matches MsgView::UpdateDelay(text) ==> parse_decimal_spec(text) is Some
    }

    /// The state after a message.
    pub open spec fn after(self, msg: MsgView) -> ModelView {
        match msg {
            MsgView::UpdateEcho(text) => ModelView { echo_value: text, ..self },
            MsgView::UpdateDelay(text) => ModelView {
                delay: parse_decimal_spec(text).unwrap(),
                ..self
            },
            MsgView::UpdateEchoResult(text) => ModelView { echo_result: text, ..self },
            MsgView::UpdateDelayResult(text) => ModelView { delay_result: text, ..self },
            MsgView::Connected => ModelView { connected: true, ..self },
            _ => self,
        }
    }

    /// The command that a message asks for.
    pub open spec fn command_for(self, msg: MsgView) -> CommandView {
        match msg {
            MsgView::Connect => CommandView::Connect,
            MsgView::Ping => self.when_connected(CommandView::Ping),
            MsgView::Echo => self.when_connected(CommandView::Echo(self.echo_value)),
            MsgView::Delay => self.when_connected(CommandView::Delay(self.delay)),
            _ => CommandView::Idle,
        }
    }
}

/// The text shown when a delay call came back with the handler's refusal.
pub open spec fn delay_failed_text(delay: u64) -> Seq<char> {
    "Delay failed "@ + decimal(delay as nat)
}

/// The message that follows a finished `echo` call.
pub open spec fn after_echo_spec(result: Result<Result<Seq<char>, Seq<char>>, RpcError>) -> Option<
    MsgView,
> {
    match result {
        Ok(Ok(text)) => Some(MsgView::UpdateEchoResult(text)),
        _ => None,
    }
}

/// The message that follows a finished `delay` call.
pub open spec fn after_delay_spec(
    delay: u64,
    result: Result<Result<Seq<char>, Seq<char>>, RpcError>,
) -> Option<MsgView> {
    match result {
        Ok(Ok(text)) => Some(MsgView::UpdateDelayResult(text)),
        Ok(Err(_)) => Some(MsgView::UpdateDelayResult(delay_failed_text(delay))),
        Err(_) => None,
    }
}

/// The message that follows a finished call: a ping shows nothing, an
/// echo and a delay show what `after_echo_spec` and `after_delay_spec` say.
pub open spec fn after_call_spec(
    call: CallView,
    result: Result<Result<Seq<char>, Seq<char>>, RpcError>,
) -> Option<MsgView> {
    match call {
        CallView::Ping => None,
        CallView::Echo(_) => after_echo_spec(result),
        CallView::Delay(seconds) => after_delay_spec(seconds, result),
    }
}

impl CommandView {
    /// The call that a command asks for, if it asks for one.
    pub open spec fn call(self) -> Option<CallView> {
        match self {
            CommandView::Ping => Some(CallView::Ping),
            CommandView::Echo(value) => Some(CallView::Echo(value)),
            CommandView::Delay(seconds) => Some(CallView::Delay(seconds)),
            _ => None,
        }
    }
}

pub open spec fn option_call_view(call: Option<Call>) -> Option<CallView> {
    match call {
        Some(c) => Some(c@),
        None => None,
    }
}

impl Command {
    /// The call that the command asks for, if it asks for one.
    pub fn call(self) -> (call: Option<Call>)
        ensures
            option_call_view(call) == self@.call(),
    {
        match self {
            Command::Ping => Some(Call::Ping),
            Command::Echo(value) => Some(Call::Echo(value)),
            Command::Delay(seconds) => Some(Call::Delay(seconds)),
            _ => None,
        }
    }
}

pub open spec fn option_msg_view(m: Option<Msg>) -> Option<MsgView> {
    match m {
        Some(msg) => Some(msg@),
        None => None,
    }
}

impl Model {
    /// The front end as it starts: not connected, a delay of 30 seconds, and
    /// a hint in each result line.
    pub fn create() -> (model: Model)
        ensures
            model@ == ModelView::initial(),
    {
        Model {
            delay: 30,
            delay_result: String::from_str("Type number in input and press Delay"),
            echo_value: String::new(),
            echo_result: String::from_str("Type string in input and press Echo"),
            connected: false,
        }
    }

    /// Asked to connect, the front end always tries.
    pub fn connect(&self) -> (command: Command)
        ensures
            command@ == CommandView::Connect,
    {
        Command::Connect
    }

    /// The message that follows a connection attempt: `Connected` if it succeeded.
    pub fn after_connect(established: bool) -> (msg: Option<Msg>)
        ensures
            option_msg_view(msg) == (if established {
                Some(MsgView::Connected)
            } else {
                None
            }),
    {
        if established {
            Some(Msg::Connected)
        } else {
            None
        }
    }

    /// A ping goes out only while connected.
    pub fn ping(&self) -> (command: Command)
        ensures
            command@ == self@.when_connected(CommandView::Ping),
    {
        if self.connected {
            Command::Ping
        } else {
            Command::Idle
        }
    }

    /// An echo of `value` goes out only while connected.
    pub fn echo(&self, value: String) -> (command: Command)
        ensures
            command@ == self@.when_connected(CommandView::Echo(value@)),
    {
        if self.connected {
            Command::Echo(value)
        } else {
            Command::Idle
        }
    }

    /// A delay of `delay` seconds goes out only while connected.
    pub fn delay(&self, delay: u64) -> (command: Command)
        ensures
            command@ == self@.when_connected(CommandView::Delay(delay)),
    {
        if self.connected {
            Command::Delay(delay)
        } else {
            Command::Idle
        }
    }

    /// The message that follows a finished `echo` call: the echoed text on
    /// success, nothing otherwise.
    pub fn after_echo(result: Result<Result<String, String>, RpcError>) -> (msg: Option<Msg>)
        ensures
            option_msg_view(msg) == after_echo_spec(call_result_view(result)),
    {
        match result {
            Ok(Ok(text)) => Some(Msg::UpdateEchoResult(text)),
            _ => None,
        }
    }

    /// The message that follows a finished `delay` call: the handler's text on
    /// success, a failure text if the handler refused, nothing if the call
    /// never got an answer.
    pub fn after_delay(delay: u64, result: Result<Result<String, String>, RpcError>) -> (msg:
        Option<Msg>)
        ensures
            option_msg_view(msg) == after_delay_spec(delay, call_result_view(result)),
    {
        match result {
            Ok(Ok(text)) => Some(Msg::UpdateDelayResult(text)),
            Ok(Err(_)) => {
                let mut text = String::from_str("Delay failed ");
                push_decimal(&mut text, delay);
                Some(Msg::UpdateDelayResult(text))
            },
            Err(_) => None,
        }
    }

    /// The message that follows a finished call, whichever it was.
    pub fn after_call(call: &Call, result: Result<Result<String, String>, RpcError>) -> (msg:
        Option<Msg>)
        ensures
            option_msg_view(msg) == after_call_spec(call@, call_result_view(result)),
    {
        match call {
            Call::Ping => None,
            Call::Echo(_) => Model::after_echo(result),
            Call::Delay(seconds) => Model::after_delay(*seconds, result),
        }
    }

    /// The word that shows whether the front end is connected.
    pub fn connected_label(&self) -> (label: &'static str)
        ensures
            label@ == (if self.connected {
                "True"@
            } else {
                "False"@
            }),
    {
        if self.connected {
            "True"
        } else {
            "False"
        }
    }

    /// The text that the delay input shows: the delay in decimal.
    pub fn delay_text(&self) -> (text: String)
        ensures
            text@ == decimal(self.delay as nat),
    {
        to_decimal(self.delay)
    }

    /// Applies one message: changes the state as `ModelView::after` says and
    /// returns the command that `ModelView::command_for` names. Every message
    /// asks for a redraw.
    pub fn update(&mut self, msg: Msg) -> (r: Update)
        requires
            old(self)@.accepts(msg@),
        ensures
            final(self)@ == old(self)@.after(msg@),
            r.redraw,
            r.command@ == old(self)@.command_for(msg@),
    {
        let mut command = Command::Idle;
        match msg {
            Msg::Connect => {
                command = self.connect();
            },
            Msg::Ping => {
                command = self.ping();
            },
            Msg::UpdateEcho(text) => {
                self.echo_value = text;
            },
            Msg::UpdateDelay(text) => {
                let parsed = parse_decimal(text.as_str());
                self.delay = parsed.unwrap();
            },
            Msg::UpdateDelayResult(result) => {
                self.delay_result = result;
            },
            Msg::Echo => {
                command = self.echo(self.echo_value.clone());
            },
            Msg::Delay => {
                command = self.delay(self.delay);
            },
            Msg::Redraw => {},
            Msg::UpdateEchoResult(result) => {
                self.echo_result = result;
            },
            Msg::Connected => {
                self.connected = true;
            },
        }
        Update { redraw: true, command }
    }
}

} // verus!
