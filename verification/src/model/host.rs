//! What passes between the driver and its host.

use crate::json::Json;
use vstd::prelude::*;

verus! {

/// A request to an accessory.
#[verifier::ext_equal]
pub struct Request {
    /// The method.
    pub method: Seq<char>,
    /// Scheme, address, port and path.
    pub url: Seq<char>,
    /// Names and values, in order.
    pub headers: Seq<(Seq<char>, Seq<char>)>,
    /// The document to send.
    pub body: Option<Json>,
}

/// Something the driver asks of its host.
#[verifier::ext_equal]
pub enum Call {
    /// Make a request.
    Http(Request),
    /// Log a warning.
    Warn(Seq<char>),
    /// Tell a proxy that something happened.
    Notify { proxy: u32, name: Seq<char>, args: Map<Seq<char>, Json> },
    /// Set one key of a proxy's state.
    SetState { proxy: u32, key: Seq<char>, value: Json },
}

/// A device as the driver sees it.
#[verifier::ext_equal]
pub struct Instance {
    /// What setup recorded.
    pub properties: Map<Seq<char>, Json>,
    /// What the driver remembers between calls.
    pub scratch: Map<Seq<char>, Json>,
}

/// One input of a form.
#[verifier::ext_equal]
pub struct Field {
    /// The key its answer comes back under.
    pub name: Seq<char>,
    /// What stands beside it.
    pub label: Seq<char>,
    /// What sort of input it is.
    pub kind: Seq<char>,
    /// What to type.
    pub help: Seq<char>,
    /// Whether an answer is needed.
    pub required: bool,
}

/// A device that setup offers to adopt.
#[verifier::ext_equal]
pub struct Candidate {
    /// What to call it.
    pub label: Seq<char>,
    /// What sort of device it is.
    pub kind: Seq<char>,
    /// The driver that runs it.
    pub driver_id: Seq<char>,
    /// The properties it starts with.
    pub properties: Map<Seq<char>, Json>,
    /// How setup knows it is there.
    pub verified: Seq<char>,
}

/// What setup asks for next.
#[verifier::ext_equal]
pub enum Step {
    /// Have someone do something, then go on.
    Instruct { title: Seq<char>, body: Seq<char>, continue_label: Seq<char> },
    /// Have someone fill in a form.
    Form { title: Seq<char>, body: Seq<char>, fields: Seq<Field> },
    /// Make a request and hand the answer back.
    Fetch { request: Request, note: Seq<char> },
    /// Give up. The document, where there is one, belongs at the end of the reason.
    Failed { reason: Seq<char>, document: Option<Json> },
    /// Offer these devices.
    Done { candidates: Seq<Candidate> },
}

} // verus!
