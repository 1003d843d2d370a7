//! What passes between the driver and its host.

use crate::json::{Json, Object, Value};
use crate::model::host as model;
use vstd::prelude::*;

verus! {

/// A device's own number for one of its proxies.
pub type LocalId = u32;

/// A request to an accessory. The headers that carry a pairing are read by the transport and
/// never reach a socket.
#[derive(Debug, PartialEq, Eq)]
pub struct HttpRequest {
    /// The method.
    pub method: String,
    /// Scheme, address, port and path.
    pub url: String,
    /// Names and values, in order.
    pub headers: Vec<(String, String)>,
    /// The document to send, as JSON text.
    pub body: Option<Value>,
}

/// Something the driver asks of its host.
#[derive(Debug, PartialEq, Eq)]
pub enum HostCall {
    /// Make a request.
    Http(HttpRequest),
    /// Log a warning.
    Warn(String),
    /// Tell a proxy that something happened.
    Notify { proxy: LocalId, name: String, args: Object },
    /// Set one key of a proxy's state.
    SetState { proxy: LocalId, key: String, value: Value },
}

/// A device as the driver sees it.
#[derive(Debug, PartialEq, Eq)]
pub struct Instance {
    /// What setup recorded.
    pub properties: Object,
    /// What the driver remembers between calls.
    pub scratch: Object,
}

/// One input of a form.
#[derive(Debug, PartialEq, Eq)]
pub struct Field {
    /// The key its answer comes back under.
    pub name: String,
    /// What stands beside it.
    pub label: String,
    /// What sort of input it is.
    pub kind: String,
    /// What to type.
    pub help: String,
    /// Whether an answer is needed.
    pub required: bool,
}

/// A device that setup offers to adopt.
#[derive(Debug, PartialEq, Eq)]
pub struct Candidate {
    /// What to call it.
    pub label: String,
    /// What sort of device it is.
    pub kind: String,
    /// The driver that runs it.
    pub driver_id: String,
    /// The properties it starts with.
    pub properties: Object,
    /// How setup knows it is there.
    pub verified: String,
}

/// What setup asks for next.
#[derive(Debug, PartialEq, Eq)]
pub enum SetupStep {
    /// Have someone do something, then go on.
    Instruct { title: String, body: String, continue_label: String },
    /// Have someone fill in a form.
    Form { title: String, body: String, fields: Vec<Field> },
    /// Make a request and hand the answer back.
    Fetch { request: HttpRequest, note: String },
    /// Give up. The document, where there is one, belongs at the end of the reason, as JSON
    /// text.
    Failed { reason: String, document: Option<Value> },
    /// Offer these devices.
    Done { candidates: Vec<Candidate> },
}

/// What a value says, where there is one.
pub open spec fn document(v: Option<Value>) -> Option<Json> {
    match v {
        Some(v) => Some(v@),
        None => None,
    }
}

impl View for HttpRequest {
    type V = model::Request;

    open spec fn view(&self) -> model::Request {
        model::Request {
            method: self.method@,
            url: self.url@,
            headers: self.headers@.map_values(|h: (String, String)| (h.0@, h.1@)),
            body: document(self.body),
        }
    }
}

impl View for HostCall {
    type V = model::Call;

    open spec fn view(&self) -> model::Call {
        match self {
            HostCall::Http(request) => model::Call::Http(request@),
            HostCall::Warn(message) => model::Call::Warn(message@),
            HostCall::Notify { proxy, name, args } => model::Call::Notify {
                proxy: *proxy,
                name: name@,
                args: args@,
            },
            HostCall::SetState { proxy, key, value } => model::Call::SetState {
                proxy: *proxy,
                key: key@,
                value: value@,
            },
        }
    }
}

impl View for Instance {
    type V = model::Instance;

    open spec fn view(&self) -> model::Instance {
        model::Instance { properties: self.properties@, scratch: self.scratch@ }
    }
}

impl View for Field {
    type V = model::Field;

    open spec fn view(&self) -> model::Field {
        model::Field {
            name: self.name@,
            label: self.label@,
            kind: self.kind@,
            help: self.help@,
            required: self.required,
        }
    }
}

impl View for Candidate {
    type V = model::Candidate;

    open spec fn view(&self) -> model::Candidate {
        model::Candidate {
            label: self.label@,
            kind: self.kind@,
            driver_id: self.driver_id@,
            properties: self.properties@,
            verified: self.verified@,
        }
    }
}

impl View for SetupStep {
    type V = model::Step;

    open spec fn view(&self) -> model::Step {
        match self {
            SetupStep::Instruct { title, body, continue_label } => model::Step::Instruct {
                title: title@,
                body: body@,
                continue_label: continue_label@,
            },
            SetupStep::Form { title, body, fields } => model::Step::Form {
                title: title@,
                body: body@,
                fields: fields@.map_values(|f: Field| f@),
            },
            SetupStep::Fetch { request, note } => model::Step::Fetch {
                request: request@,
                note: note@,
            },
            SetupStep::Failed { reason, document: d } => model::Step::Failed {
                reason: reason@,
                document: document(*d),
            },
            SetupStep::Done { candidates } => model::Step::Done { candidates: offers(candidates@) },
        }
    }
}

/// What a list of calls says.
pub open spec fn calls(list: Seq<HostCall>) -> Seq<model::Call> {
    list.map_values(|c: HostCall| c@)
}

/// What a list of candidates says.
pub open spec fn offers(list: Seq<Candidate>) -> Seq<model::Candidate> {
    list.map_values(|c: Candidate| c@)
}

impl HttpRequest {
    /// A request without headers or a body.
    pub fn new(method: &str, url: String) -> (r: HttpRequest)
        ensures
            r@ == (model::Request { method: method@, url: url@, headers: Seq::empty(), body: None }),
    {
        let r = HttpRequest { method: method.to_owned(), url, headers: Vec::new(), body: None };
        assert(r@.headers =~= Seq::empty());
        r
    }

    /// The same request with one more header.
    pub fn header(self, name: &str, value: &str) -> (r: HttpRequest)
        ensures
            r@ == (model::Request { headers: self@.headers.push((name@, value@)), ..self@ }),
    {
        let mut r = self;
        r.headers.push((name.to_owned(), value.to_owned()));
        assert(r@.headers =~= self@.headers.push((name@, value@)));
        r
    }

    /// The same request with a document to send.
    pub fn json(self, body: Value) -> (r: HttpRequest)
        ensures
            r@ == (model::Request { body: Some(body@), ..self@ }),
    {
        let mut r = self;
        r.body = Some(body);
        r
    }
}

impl HostCall {
    /// A warning.
    pub fn warn(message: &str) -> (c: HostCall)
        ensures
            c@ == model::Call::Warn(message@),
    {
        HostCall::Warn(message.to_owned())
    }

    /// Telling a proxy about one thing.
    pub fn notify(proxy: LocalId, name: &str, param: &str, value: Value) -> (c: HostCall)
        ensures
            c@ == (model::Call::Notify { proxy, name: name@, args: map![param@ => value@] }),
    {
        let mut args = Object::new();
        args.insert(param, value);
        HostCall::Notify { proxy, name: name.to_owned(), args }
    }

    /// Setting one key of a proxy's state.
    pub fn set_state(proxy: LocalId, key: &str, value: Value) -> (c: HostCall)
        ensures
            c@ == (model::Call::SetState { proxy, key: key@, value: value@ }),
    {
        HostCall::SetState { proxy, key: key.to_owned(), value }
    }
}

} // verus!
