//! Setting a thermostat up, and finding the sensors it bridges.

use crate::accessory::{SRV_OCCUPANCY, SRV_TEMPERATURE, SRV_THERMOSTAT};
use crate::driver::{SENSOR, THERMOSTAT};
use crate::json::{member, Json, Number};
use crate::model::accessory::{
    accessories, aid_of, characteristics, has_service, name_of, services,
};
use crate::model::host::{Candidate, Field, Request, Step};
use crate::model::report::first_with;
use crate::model::request::{paired, url};
use crate::text::{before, begins, decimal, lower, trimmed};
use vstd::prelude::*;

verus! {

/// What setup asks for next, and what it remembers until then.
#[verifier::ext_equal]
pub struct Turn {
    /// What to do.
    pub step: Step,
    /// What to hand back with the answer.
    pub state: Json,
}

/// A HomeKit accessory that announces itself on the network.
#[verifier::ext_equal]
pub struct Announcement {
    /// Its full name.
    pub name: Seq<char>,
    /// Where it is.
    pub address: Seq<char>,
    /// The port it listens on.
    pub port: u64,
    /// Whether it is paired to something already.
    pub paired_already: bool,
    /// Its own model name.
    pub model: Seq<char>,
}

/// The string under a key; an empty one where there is none.
pub open spec fn field(state: Json, key: Seq<char>) -> Seq<char> {
    match state.text_at(key) {
        Some(s) => s,
        None => ""@,
    }
}

/// Something for a person to do.
pub open spec fn instruct(title: Seq<char>, body: Seq<char>) -> Step {
    Step::Instruct { title, body, continue_label: "Continue"@ }
}

/// The members of an object; none of anything else.
pub open spec fn members_of(state: Json) -> Map<Seq<char>, Json> {
    match state {
        Json::Object(m) => m,
        _ => Map::empty(),
    }
}

/// Members put in one after another.
pub open spec fn put(
    m: Map<Seq<char>, Json>,
    updates: Seq<(Seq<char>, Json)>,
) -> Map<Seq<char>, Json>
    decreases updates.len(),
{
    if updates.len() == 0 {
        m
    } else {
        put(m, updates.drop_last()).insert(updates.last().0, updates.last().1)
    }
}

/// A state with some members changed.
pub open spec fn with(state: Json, updates: Seq<(Seq<char>, Json)>) -> Json {
    Json::Object(put(members_of(state), updates))
}

/// A field of an announcement's text record.
pub open spec fn txt(c: Json, key: Seq<char>) -> Option<Seq<char>> {
    match c.get("txt"@) {
        Some(record) => record.text_at(key),
        None => None,
    }
}

/// An announcement as the scan found it. One without a name or an address is left out.
pub open spec fn announcement(c: Json) -> Option<Announcement> {
    match (c.text_at("name"@), c.text_at("address"@)) {
        (Some(name), Some(address)) => Some(
            Announcement {
                name,
                address,
                port: match c.unsigned_at("port"@) {
                    Some(port) => port,
                    None => 80,
                },
                paired_already: match txt(c, "sf"@) {
                    Some(sf) => trimmed(sf) == "0"@,
                    None => false,
                },
                model: match txt(c, "md"@) {
                    Some(md) => md,
                    None => ""@,
                },
            },
        ),
        _ => None,
    }
}

/// The announcements of a list, in its order.
pub open spec fn announced(list: Seq<Json>) -> Seq<Announcement>
    decreases list.len(),
{
    if list.len() == 0 {
        Seq::empty()
    } else {
        match announcement(list.last()) {
            Some(a) => announced(list.drop_last()).push(a),
            None => announced(list.drop_last()),
        }
    }
}

/// Whether an accessory's model name is an ecobee's.
pub open spec fn is_ecobee(a: Announcement) -> bool {
    let m = lower(a.model);
    begins(m, "ecobee"@) || begins(m, "eb-"@) || begins(m, "ecb"@)
}

/// The ecobees of a list, in its order.
pub open spec fn ecobees(list: Seq<Announcement>) -> Seq<Announcement>
    decreases list.len(),
{
    if list.len() == 0 {
        Seq::empty()
    } else if is_ecobee(list.last()) {
        ecobees(list.drop_last()).push(list.last())
    } else {
        ecobees(list.drop_last())
    }
}

/// The accessories worth showing: the ecobees, or all of them where there is none.
pub open spec fn found(state: Json) -> Seq<Announcement> {
    let all = announced(state.items_at("mdns_candidates"@));
    if ecobees(all).len() > 0 {
        ecobees(all)
    } else {
        all
    }
}

/// The first ecobee of a list.
pub open spec fn first_ecobee(list: Seq<Announcement>) -> Option<Announcement>
    decreases list.len(),
{
    if list.len() == 0 {
        None
    } else if is_ecobee(list[0]) {
        Some(list[0])
    } else {
        first_ecobee(list.drop_first())
    }
}

/// The part of a full name that reads well.
pub open spec fn short(fullname: Seq<char>) -> Seq<char> {
    before(fullname, '.')
}

/// Short names, with a comma between each two.
pub open spec fn names(list: Seq<Announcement>) -> Seq<char>
    decreases list.len(),
{
    if list.len() == 0 {
        ""@
    } else if list.len() == 1 {
        short(list[0].name)
    } else {
        names(list.drop_last()) + ", "@ + short(list.last().name)
    }
}

/// No ecobee announces itself: say how to make it.
pub open spec fn nothing_found(discovered: Seq<Announcement>) -> Step {
    let others = if discovered.len() == 0 {
        ""@
    } else {
        " ("@ + names(discovered) + " answered, but "@ + (if discovered.len() == 1 {
            "it is"@
        } else {
            "they are"@
        }) + " not an ecobee.)"@
    };
    instruct(
        "Put the thermostat into pairing mode"@,
        "No ecobee is announcing itself."@ + others
            + "\n\nOn the thermostat: Main Menu › Settings › HomeKit. Leave the setup code on screen — it stops advertising once you leave that screen — then continue."@,
    )
}

/// The ecobee is paired to another home: say how to free it.
pub open spec fn already_paired(target: Announcement) -> Step {
    instruct(
        "Already paired"@,
        short(target.name)
            + " is paired to another home. HomeKit allows one at a time, so remove it there — or on the thermostat, Settings › HomeKit › reset the pairing — then continue."@,
    )
}

/// Ask for the setup code.
pub open spec fn code_form(target: Announcement) -> Step {
    Step::Form {
        title: "Pair an ecobee over HomeKit"@,
        body: "Found "@ + short(target.name) + " at "@ + target.address
            + ". Enter the setup code showing on the thermostat under Settings › HomeKit."@,
        fields: seq![
            Field {
                name: "Setup code"@,
                label: "HomeKit setup code"@,
                kind: "password"@,
                help: "8 digits, like 123-45-678"@,
                required: true,
            },
        ],
    }
}

/// The setup code that was typed, without white space around it.
pub open spec fn typed_code(input: Map<Seq<char>, Json>) -> Seq<char> {
    match member(input, "Setup code"@) {
        Some(v) => match v.text() {
            Some(s) => trimmed(s),
            None => ""@,
        },
        None => ""@,
    }
}

/// Pair with an accessory.
pub open spec fn pair(state: Json, address: Seq<char>, port: u64, code: Seq<char>) -> Turn {
    Turn {
        step: Step::Fetch {
            request: Request {
                method: "POST"@,
                url: url("hap-pair://"@, address, port, "/"@),
                headers: seq![("x-hap-code"@, code)],
                body: None,
            },
            note: "pair"@,
        },
        state: with(
            state,
            seq![
                ("stage"@, Json::Text("pairing"@)),
                ("address"@, Json::Text(address)),
                ("port"@, Json::Number(Number::Unsigned(port))),
            ],
        ),
    }
}

/// Find the thermostat and get its code.
pub open spec fn ask(state: Json, input: Map<Seq<char>, Json>) -> Turn {
    match first_ecobee(found(state)) {
        None => Turn { step: nothing_found(found(state)), state },
        Some(target) => if target.paired_already {
            Turn { step: already_paired(target), state }
        } else if typed_code(input).len() > 0 {
            pair(state, target.address, target.port, typed_code(input))
        } else {
            Turn { step: code_form(target), state }
        },
    }
}

/// Giving up: nothing is remembered.
pub open spec fn failed(reason: Seq<char>, document: Option<Json>) -> Turn {
    Turn { step: Step::Failed { reason, document }, state: Json::Null }
}

/// What went wrong with a request, where it says so.
pub open spec fn error_text(input: Map<Seq<char>, Json>) -> Option<Seq<char>> {
    match member(input, "error"@) {
        Some(v) => v.text(),
        None => None,
    }
}

/// The answer to a request.
pub open spec fn response(input: Map<Seq<char>, Json>) -> Json {
    match member(input, "response"@) {
        Some(v) => v,
        None => Json::Null,
    }
}

/// Pairing was tried.
pub open spec fn after_pairing(state: Json, input: Map<Seq<char>, Json>) -> Turn {
    match error_text(input) {
        Some(err) => failed("Pairing failed: "@ + err, None),
        None => {
            let answer = response(input);
            let accessory_id = field(answer, "accessory_id"@);
            let accessory_key = field(answer, "accessory_ltpk"@);
            if accessory_id.len() == 0 || accessory_key.len() == 0 {
                failed("The thermostat did not complete pairing: "@, Some(answer))
            } else {
                read_accessories(
                    with(
                        state,
                        seq![
                            ("stage"@, Json::Text("listing"@)),
                            ("Accessory id"@, Json::Text(accessory_id)),
                            ("Accessory key"@, Json::Text(accessory_key)),
                            ("Controller id"@, Json::Text(field(answer, "controller_id"@))),
                            ("Controller key"@, Json::Text(field(answer, "controller_sk"@))),
                        ],
                    ),
                )
            }
        },
    }
}

/// Where the accessory is: the device's own property, or what pairing found.
pub open spec fn address_of(state: Json) -> Seq<char> {
    if field(state, "Address"@).len() > 0 {
        field(state, "Address"@)
    } else {
        field(state, "address"@)
    }
}

/// The port the accessory listens on: the device's own property, or what pairing found.
pub open spec fn port_of(state: Json) -> u64 {
    let port = match state.get("Port"@) {
        Some(v) => Some(v),
        None => state.get("port"@),
    };
    match port {
        Some(v) => match v.unsigned() {
            Some(n) => n,
            None => 80,
        },
        None => 80,
    }
}

/// Read the accessory database with the pairing that the state holds.
pub open spec fn read_accessories(state: Json) -> Turn {
    Turn {
        step: Step::Fetch {
            request: paired(
                "GET"@,
                address_of(state),
                port_of(state),
                "/accessories"@,
                field(state, "Accessory id"@),
                field(state, "Accessory key"@),
                field(state, "Controller id"@),
                field(state, "Controller key"@),
            ),
            note: "list"@,
        },
        state: with(state, seq![("stage"@, Json::Text("listing"@))]),
    }
}

/// The first name that a list of an accessory's services carries.
pub open spec fn first_name(accessory: Json, list: Seq<Json>) -> Option<Seq<char>>
    decreases list.len(),
{
    if list.len() == 0 {
        None
    } else {
        match name_of(characteristics(accessory, list[0])) {
            Some(name) => Some(name),
            None => first_name(accessory, list.drop_first()),
        }
    }
}

/// What an accessory calls itself.
pub open spec fn accessory_name(accessory: Json) -> Option<Seq<char>> {
    first_name(accessory, services(accessory))
}

/// What the thermostat calls itself.
pub open spec fn thermostat_name(list: Seq<Json>) -> Option<Seq<char>> {
    match first_with(list, SRV_THERMOSTAT@) {
        Some(accessory) => accessory_name(accessory),
        None => None,
    }
}

/// The properties that a paired thermostat starts with.
pub open spec fn thermostat_properties(state: Json) -> Map<Seq<char>, Json> {
    map![
        "Address"@ => Json::Text(address_of(state)),
        "Port"@ => Json::Number(Number::Unsigned(port_of(state))),
        "Accessory id"@ => Json::Text(field(state, "Accessory id"@)),
        "Accessory key"@ => Json::Text(field(state, "Accessory key"@)),
        "Controller id"@ => Json::Text(field(state, "Controller id"@)),
        "Controller key"@ => Json::Text(field(state, "Controller key"@)),
    ]
}

/// The thermostat, to adopt.
pub open spec fn thermostat_candidate(state: Json, list: Seq<Json>) -> Candidate {
    Candidate {
        label: match thermostat_name(list) {
            Some(name) => name,
            None => "Ecobee Thermostat"@,
        },
        kind: "thermostat"@,
        driver_id: THERMOSTAT@,
        properties: thermostat_properties(state),
        verified: "paired over HomeKit"@,
    }
}

/// Whether an accessory is a room sensor. The thermostat's own is not, however many sensor
/// services it carries.
pub open spec fn is_sensor(accessory: Json) -> bool {
    &&& !has_service(accessory, SRV_THERMOSTAT@)
    &&& has_service(accessory, SRV_OCCUPANCY@) || has_service(accessory, SRV_TEMPERATURE@)
}

/// A room sensor, to adopt.
pub open spec fn sensor_candidate(accessory: Json) -> Candidate {
    Candidate {
        label: match accessory_name(accessory) {
            Some(name) => name,
            None => "Ecobee Sensor "@ + decimal(aid_of(accessory) as nat),
        },
        kind: "sensor"@,
        driver_id: SENSOR@,
        properties: map!["Accessory aid"@ => Json::Number(Number::Unsigned(aid_of(accessory)))],
        verified: "bridged by the thermostat"@,
    }
}

/// The room sensors of a list, to adopt, in its order.
pub open spec fn sensor_candidates(list: Seq<Json>) -> Seq<Candidate>
    decreases list.len(),
{
    if list.len() == 0 {
        Seq::empty()
    } else if is_sensor(list.last()) {
        sensor_candidates(list.drop_last()).push(sensor_candidate(list.last()))
    } else {
        sensor_candidates(list.drop_last())
    }
}

/// Offer the thermostat, where asked to, and every room sensor it bridges.
pub open spec fn list(state: Json, input: Map<Seq<char>, Json>, include_thermostat: bool) -> Turn {
    match error_text(input) {
        Some(err) => failed("Paired, but could not read the thermostat: "@ + err, None),
        None => {
            let doc = response(input);
            if accessories(doc).len() == 0 {
                failed("The thermostat answered with nothing to set up: "@, Some(doc))
            } else {
                Turn {
                    step: Step::Done {
                        candidates: (if include_thermostat {
                            seq![thermostat_candidate(state, accessories(doc))]
                        } else {
                            seq![]
                        }) + sensor_candidates(accessories(doc)),
                    },
                    state: Json::Null,
                }
            }
        },
    }
}

/// One turn of setup.
pub open spec fn run(state: Json, input: Map<Seq<char>, Json>) -> Turn {
    let stage = field(state, "stage"@);
    if state.get("browse"@) == Some(Json::Bool(true)) {
        if member(input, "response"@) is Some || member(input, "error"@) is Some {
            list(state, input, false)
        } else {
            read_accessories(state)
        }
    } else if stage == "pairing"@ {
        after_pairing(state, input)
    } else if stage == "listing"@ {
        list(state, input, true)
    } else {
        ask(state, input)
    }
}

/// One turn of setup for a driver. Sensors are found by browsing the thermostat, never set up
/// on their own.
pub open spec fn discover(
    driver_id: Seq<char>,
    state: Json,
    input: Map<Seq<char>, Json>,
) -> Turn {
    if driver_id != THERMOSTAT@ {
        Turn { step: Step::Done { candidates: seq![] }, state: Json::Null }
    } else {
        run(state, input)
    }
}

} // verus!
