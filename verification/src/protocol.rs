//! The messages exchanged with the page over the websocket.
//!
//! On connection the server announces each registered function with a
//! register message; the page sends requests naming a function, and each
//! request is answered with a response carrying the same id.

use vstd::prelude::*;

verus! {

/// The kind of a message, sent on the wire as its number.
#[derive(Clone, Copy, Debug, PartialEq, Eq, Structural)]
pub enum MessageType {
    /// A reply to a request (number 0).
    ServerToClientResponse,
    /// A call of a function by the page (number 1).
    ClientToServerRequest,
    /// The announcement of a function to the page (number 2).
    ServerToClientRegister,
}

impl MessageType {
    /// The number that stands for the kind on the wire.
    pub open spec fn spec_code(self) -> u8 {
        match self {
            MessageType::ServerToClientResponse => 0,
            MessageType::ClientToServerRequest => 1,
            MessageType::ServerToClientRegister => 2,
        }
    }

    /// The number that stands for the kind on the wire.
    pub fn code(&self) -> (c: u8)
        ensures
            c == self.spec_code(),
    {
        match self {
            MessageType::ServerToClientResponse => 0,
            MessageType::ClientToServerRequest => 1,
            MessageType::ServerToClientRegister => 2,
        }
    }

    /// The kind whose number is `c`, if there is one.
    pub open spec fn spec_from_code(c: u8) -> Option<MessageType> {
        if c == 0 {
            Some(MessageType::ServerToClientResponse)
        } else if c == 1 {
            Some(MessageType::ClientToServerRequest)
        } else if c == 2 {
            Some(MessageType::ServerToClientRegister)
        } else {
            None
        }
    }

    /// The kind whose number is `c`, if there is one.
    pub fn from_code(c: u8) -> (r: Option<MessageType>)
        ensures
            r == MessageType::spec_from_code(c),
    {
        if c == 0 {
            Some(MessageType::ServerToClientResponse)
        } else if c == 1 {
            Some(MessageType::ClientToServerRequest)
        } else if c == 2 {
            Some(MessageType::ServerToClientRegister)
        } else {
            None
        }
    }
}

/// Decoding the number of a kind gives the kind back; a number decodes
/// exactly when it is the number of some kind, and then to that kind.
pub proof fn lemma_message_type_code_round_trip(t: MessageType, c: u8)
    ensures
        MessageType::spec_from_code(t.spec_code()) == Some(t),
        MessageType::spec_from_code(c) matches Some(u) ==> u.spec_code() == c,
        MessageType::spec_from_code(c) is None <==> c > 2,
{
}

/// A call of a registered function by the page.
#[derive(Clone, Debug)]
pub struct FunctionRequest {
    /// The page's id for the call, echoed in the response.
    pub id: String,
    pub actiontype: MessageType,
    /// The arguments, as one JSON text; empty when there are none.
    pub args: String,
    /// The name of the function to call.
    pub function: String,
}

/// The reply to a request.
#[derive(Clone, Debug)]
pub struct FunctionResponse {
    pub id: String,
    pub actiontype: MessageType,
    /// The function's result, or the text of its error.
    pub data: String,
    pub success: bool,
}

/// The announcement of a registered function.
#[derive(Clone, Debug)]
pub struct FunctionRegister {
    pub function: String,
    /// The number of arguments the function takes.
    pub args: usize,
    pub actiontype: MessageType,
}

/// The response to the request with id `id` whose function gave `outcome`:
/// its value on success, the text of its error otherwise.
pub fn response_for(id: String, outcome: Result<String, String>) -> (r: FunctionResponse)
    ensures
        r.id == id,
        r.actiontype == MessageType::ServerToClientResponse,
        r.success == outcome is Ok,
        r.data == match outcome {
            Ok(v) => v,
            Err(e) => e,
        },
{
    let (data, success) = match outcome {
        Ok(v) => (v, true),
        Err(e) => (e, false),
    };
    FunctionResponse { id, actiontype: MessageType::ServerToClientResponse, data, success }
}

/// The announcement of the function `name` that takes `args` arguments.
pub fn register_message(name: String, args: usize) -> (r: FunctionRegister)
    ensures
        r.function == name,
        r.args == args,
        r.actiontype == MessageType::ServerToClientRegister,
{
    FunctionRegister { function: name, args, actiontype: MessageType::ServerToClientRegister }
}

} // verus!
