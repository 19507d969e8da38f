//! The service contract: its operations, the calls a client can make, the
//! handler trait that a server binds, and the demonstration handler.

use vstd::prelude::*;
use vstd::string::*;
use crate::context::{Context, ContextView};
use crate::decimal::{decimal, push_decimal};
use crate::error::handler_result_view;
use crate::text::same_text;

verus! {

/// The operations of the service, in the order in which it declares them.
#[derive(Clone, Copy, Debug, PartialEq, Eq, Structural)]
pub enum Operation {
    Ping,
    Echo,
    Delay,
}

/// The type of one parameter of an operation.
#[derive(Clone, Copy, Debug, PartialEq, Eq, Structural)]
pub enum ParamType {
    /// A string.
    Text,
    /// An unsigned 64-bit number.
    Number,
}

impl Operation {
    /// The types of the operation's parameters, in order. Every operation
    /// returns a string on success and a string as its reason for refusing.
    pub open spec fn params_spec(self) -> Seq<ParamType> {
        match self {
            Operation::Ping => Seq::empty(),
            Operation::Echo => seq![ParamType::Text],
            Operation::Delay => seq![ParamType::Number],
        }
    }

    pub fn params(self) -> (types: Vec<ParamType>)
        ensures
            types@ == self.params_spec(),
    {
        let mut types = Vec::new();
        match self {
            Operation::Ping => {},
            Operation::Echo => {
                types.push(ParamType::Text);
            },
            Operation::Delay => {
                types.push(ParamType::Number);
            },
        }
        assert(types@ =~= self.params_spec());
        types
    }

    /// The name under which the operation travels.
    pub open spec fn name_spec(self) -> Seq<char> {
        match self {
            Operation::Ping => "ping"@,
            Operation::Echo => "echo"@,
            Operation::Delay => "delay"@,
        }
    }

    /// The operation of a given name, if the service declares one.
    pub open spec fn from_name_spec(name: Seq<char>) -> Option<Operation> {
        if name == "ping"@ {
            Some(Operation::Ping)
        } else if name == "echo"@ {
            Some(Operation::Echo)
        } else if name == "delay"@ {
            Some(Operation::Delay)
        } else {
            None
        }
    }

    pub fn name(self) -> (s: &'static str)
        ensures
            s@ == self.name_spec(),
    {
        match self {
            Operation::Ping => "ping",
            Operation::Echo => "echo",
            Operation::Delay => "delay",
        }
    }

    pub fn from_name(name: &str) -> (r: Option<Operation>)
        ensures
            r == Operation::from_name_spec(name@),
    {
        if same_text(name, "ping") {
            Some(Operation::Ping)
        } else if same_text(name, "echo") {
            Some(Operation::Echo)
        } else if same_text(name, "delay") {
            Some(Operation::Delay)
        } else {
            None
        }
    }

    /// Every operation of the service, in declaration order.
    pub fn all() -> (ops: Vec<Operation>)
        ensures
            ops@ == seq![Operation::Ping, Operation::Echo, Operation::Delay],
    {
        let mut ops = Vec::new();
        ops.push(Operation::Ping);
        ops.push(Operation::Echo);
        ops.push(Operation::Delay);
        assert(ops@ =~= seq![Operation::Ping, Operation::Echo, Operation::Delay]);
        ops
    }
}

/// No two operations share a name.
pub proof fn lemma_operation_names_unique(a: Operation, b: Operation)
    requires
        a.name_spec() == b.name_spec(),
    ensures
        a == b,
{
    reveal_strlit("ping");
    reveal_strlit("echo");
    reveal_strlit("delay");
    assert("ping"@[0] == 'p');
    assert("echo"@[0] == 'e');
    assert("ping"@.len() == 4);
    assert("echo"@.len() == 4);
    assert("delay"@.len() == 5);
}

/// An operation is found again under its own name.
pub proof fn lemma_operation_found_by_name(op: Operation)
    ensures
        Operation::from_name_spec(op.name_spec()) == Some(op),
{
    if op.name_spec() == Operation::Ping.name_spec() {
        lemma_operation_names_unique(op, Operation::Ping);
    } else if op.name_spec() == Operation::Echo.name_spec() {
        lemma_operation_names_unique(op, Operation::Echo);
    }
}

/// One call: an operation together with its arguments.
#[derive(Clone, Debug, PartialEq, Eq)]
pub enum Call {
    Ping,
    Echo(String),
    Delay(u64),
}

pub enum CallView {
    Ping,
    Echo(Seq<char>),
    Delay(u64),
}

impl View for Call {
    type V = CallView;

    open spec fn view(&self) -> CallView {
        match *self {
            Call::Ping => CallView::Ping,
            Call::Echo(value) => CallView::Echo(value@),
            Call::Delay(duration) => CallView::Delay(duration),
        }
    }
}

impl CallView {
    pub open spec fn operation(self) -> Operation {
        match self {
            CallView::Ping => Operation::Ping,
            CallView::Echo(_) => Operation::Echo,
            CallView::Delay(_) => Operation::Delay,
        }
    }

    /// The types of the arguments that the call carries, in order.
    pub open spec fn arg_types(self) -> Seq<ParamType> {
        match self {
            CallView::Ping => Seq::empty(),
            CallView::Echo(_) => seq![ParamType::Text],
            CallView::Delay(_) => seq![ParamType::Number],
        }
    }
}

/// A call carries what its operation declares: as many arguments, of the
/// same types, in the same order.
pub proof fn lemma_call_fits_its_operation(call: CallView)
    ensures
        call.arg_types() == call.operation().params_spec(),
{
}

impl Call {
    /// The operation that the call invokes.
    pub fn operation(&self) -> (op: Operation)
        ensures
            op == self@.operation(),
    {
        match self {
            Call::Ping => Operation::Ping,
            Call::Echo(_) => Operation::Echo,
            Call::Delay(_) => Operation::Delay,
        }
    }
}

/// The handler side of the service: one method per operation. Each returns
/// the handler's own verdict, a value or a reason for refusing.
///
/// `may_answer` says which results an implementation can give to a call
/// under a context, so that code which is generic over the handler can
/// still say what it returns. Unless an implementation says otherwise, any
/// result is possible.
pub trait World: Sized {
    open spec fn may_answer(
        &self,
        ctx: ContextView,
        call: CallView,
        result: Result<Seq<char>, Seq<char>>,
    ) -> bool {
        true
    }

    fn ping(self, ctx: Context) -> (r: Result<String, String>)
        ensures
            self.may_answer(ctx@, CallView::Ping, handler_result_view(r)),
    ;

    fn echo(self, ctx: Context, value: String) -> (r: Result<String, String>)
        ensures
            self.may_answer(ctx@, CallView::Echo(value@), handler_result_view(r)),
    ;

    fn delay(self, ctx: Context, duration: u64) -> (r: Result<String, String>)
        ensures
            self.may_answer(ctx@, CallView::Delay(duration), handler_result_view(r)),
    ;
}

/// The text that `delay` answers with.
pub open spec fn delayed_text(duration: u64) -> Seq<char> {
    "Delayed for "@ + decimal(duration as nat) + " seconds"@
}

/// What the demonstration handler answers to each call.
pub open spec fn world_answer(call: CallView) -> Result<Seq<char>, Seq<char>> {
    match call {
        CallView::Ping => Ok("Pong"@),
        CallView::Echo(value) => Ok(value),
        CallView::Delay(duration) => Ok(delayed_text(duration)),
    }
}

/// The demonstration handler: `ping` answers "Pong", `echo` gives its
/// argument back, and `delay` reports the seconds it was asked to wait.
/// Waiting them out is left to whoever runs the handler. No answer depends
/// on the context.
#[derive(Clone)]
pub struct WorldImpl {}

impl World for WorldImpl {
    open spec fn may_answer(
        &self,
        ctx: ContextView,
        call: CallView,
        result: Result<Seq<char>, Seq<char>>,
    ) -> bool {
        result == world_answer(call)
    }

    fn ping(self, ctx: Context) -> (r: Result<String, String>)
        ensures
            handler_result_view(r) == Ok::<Seq<char>, Seq<char>>("Pong"@),
    {
        Ok(String::from_str("Pong"))
    }

    fn echo(self, ctx: Context, value: String) -> (r: Result<String, String>)
        ensures
            handler_result_view(r) == Ok::<Seq<char>, Seq<char>>(value@),
    {
        Ok(value)
    }

    fn delay(self, ctx: Context, duration: u64) -> (r: Result<String, String>)
        ensures
            handler_result_view(r) == Ok::<Seq<char>, Seq<char>>(delayed_text(duration)),
    {
        let mut text = String::from_str("Delayed for ");
        push_decimal(&mut text, duration);
        text.append(" seconds");
        Ok(text)
    }
}

} // verus!
