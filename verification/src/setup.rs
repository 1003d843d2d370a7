//! Setup: pair once with the code on the thermostat, then list what it bridges.

use crate::accessory::{
    accessories, aid_of, characteristics, has_service, name_of, services, spoken, SRV_OCCUPANCY,
    SRV_TEMPERATURE, SRV_THERMOSTAT,
};
use crate::driver::{SENSOR, THERMOSTAT};
use crate::host::{offers, Candidate, Field, HttpRequest, SetupStep};
use crate::json::{all_seen, said, Json, Object, Value};
use crate::model::setup as model;
use crate::report::first_with;
use crate::request::{paired, url};
use crate::text::{head, join, number_text, same, starts_with, to_lowercase, trim};
use vstd::prelude::*;
use vstd::string::*;

verus! {

/// A HomeKit accessory that announces itself on the network.
pub struct Announcement {
    /// Its full name.
    pub name: String,
    /// Where it is.
    pub address: String,
    /// The port it listens on. An accessory picks a fresh one every time it opens a pairing
    /// window.
    pub port: u64,
    /// Whether it is paired to something already: almost always another home, and the single
    /// most common reason pairing fails.
    pub paired_already: bool,
    /// Its own model name.
    pub model: String,
}

impl View for Announcement {
    type V = model::Announcement;

    open spec fn view(&self) -> model::Announcement {
        model::Announcement {
            name: self.name@,
            address: self.address@,
            port: self.port,
            paired_already: self.paired_already,
            model: self.model@,
        }
    }
}

/// What a list of announcements says.
pub open spec fn announcements(list: Seq<Announcement>) -> Seq<model::Announcement> {
    list.map_values(|a: Announcement| a@)
}

/// What a turn says.
pub open spec fn turn(r: (SetupStep, Value)) -> model::Turn {
    model::Turn { step: r.0@, state: r.1@ }
}

/// The string under a key; an empty one where there is none.
fn field<'a>(state: &'a Value, key: &str) -> (r: &'a str)
    ensures
        r@ == model::field(state@, key@),
{
    match state.text_at(key) {
        Some(s) => s,
        None => "",
    }
}

/// Something for a person to do.
fn instruct(title: &str, body: &str) -> (r: SetupStep)
    ensures
        r@ == model::instruct(title@, body@),
{
    SetupStep::Instruct {
        title: title.to_owned(),
        body: body.to_owned(),
        continue_label: "Continue".to_owned(),
    }
}

/// What updates say.
pub open spec fn changes(updates: Seq<(&str, Value)>) -> Seq<(Seq<char>, Json)> {
    updates.map_values(|u: (&str, Value)| (u.0@, u.1@))
}

/// A state with some members changed.
fn with(state: &Value, updates: &Vec<(&str, Value)>) -> (r: Value)
    ensures
        r@ == model::with(state@, changes(updates@)),
{
    let mut m: Object = match state {
        Value::Object(m) => m.copy(),
        _ => Object::new(),
    };
    let ghost start = m@;
    let ghost all = changes(updates@);
    let n: usize = updates.len();
    let mut i: usize = 0;
    while i < n
        invariant
            i <= n == updates@.len(),
            all == changes(updates@),
            m@ == model::put(start, all.take(i as int)),
        decreases n - i,
    {
        assert(all.take(i + 1).drop_last() == all.take(i as int));
        let (key, value) = (updates[i].0, &updates[i].1);
        m.insert(key, value.copy());
        i = i + 1;
    }
    assert(all.take(n as int) == all);
    Value::Object(m)
}

/// A field of an announcement's text record.
fn txt<'a>(c: &'a Value, key: &str) -> (r: Option<&'a str>)
    ensures
        said(r) == model::txt(c@, key@),
{
    match c.get("txt") {
        Some(record) => record.text_at(key),
        None => None,
    }
}

/// An announcement as the scan found it.
pub fn announcement(c: &Value) -> (r: Option<Announcement>)
    ensures
        match r {
            Some(a) => model::announcement(c@) == Some(a@),
            None => model::announcement(c@) is None,
        },
{
    match (c.text_at("name"), c.text_at("address")) {
        (Some(name), Some(address)) => {
            let port: u64 = match c.unsigned_at("port") {
                Some(port) => port,
                None => 80,
            };
            let paired_already: bool = match txt(c, "sf") {
                Some(sf) => same(trim(sf), "0"),
                None => false,
            };
            let model: &str = match txt(c, "md") {
                Some(md) => md,
                None => "",
            };
            Some(
                Announcement {
                    name: name.to_owned(),
                    address: address.to_owned(),
                    port,
                    paired_already,
                    model: model.to_owned(),
                },
            )
        },
        _ => None,
    }
}

impl Announcement {
    /// What an ecobee announces as its model is not its marketing name and not the part number
    /// on the box: a Smart Thermostat says `ECB701`, older units say `ecobee3` or `ecobee4`.
    /// So these are prefixes, not a table. A false positive costs only a suggestion that the
    /// installer still reads before typing a code; a false negative hides the very thermostat
    /// someone is trying to add.
    pub fn is_ecobee(&self) -> (r: bool)
        ensures
            r == model::is_ecobee(self@),
    {
        let m: String = to_lowercase(self.model.as_str());
        starts_with(m.as_str(), "ecobee") || starts_with(m.as_str(), "eb-") || starts_with(
            m.as_str(),
            "ecb",
        )
    }

    /// A second announcement that says the same.
    fn copy(&self) -> (r: Announcement)
        ensures
            r@ == self@,
    {
        Announcement {
            name: self.name.clone(),
            address: self.address.clone(),
            port: self.port,
            paired_already: self.paired_already,
            model: self.model.clone(),
        }
    }
}

/// The ecobees of a list.
fn ecobees(list: &Vec<Announcement>) -> (r: Vec<Announcement>)
    ensures
        announcements(r@) == model::ecobees(announcements(list@)),
{
    let mut r: Vec<Announcement> = Vec::new();
    let ghost all = announcements(list@);
    let n: usize = list.len();
    let mut i: usize = 0;
    assert(announcements(r@) =~= model::ecobees(all.take(0)));
    while i < n
        invariant
            i <= n == list@.len(),
            all == announcements(list@),
            announcements(r@) == model::ecobees(all.take(i as int)),
        decreases n - i,
    {
        let ghost before = r@;
        assert(all[i as int] == list@[i as int]@);
        assert(all.take(i + 1).drop_last() == all.take(i as int));
        if list[i].is_ecobee() {
            r.push(list[i].copy());
            assert(announcements(r@) =~= announcements(before).push(list@[i as int]@));
        }
        i = i + 1;
    }
    assert(all.take(n as int) == all);
    r
}

/// The accessories worth showing. Every HomeKit accessory in the house answers the scan, and
/// offering one that is not an ecobee would spend a pairing slot on the wrong device. Where no
/// ecobee answered, everything that did is still worth showing, but nothing is made of it.
pub fn found(state: &Value) -> (r: Vec<Announcement>)
    ensures
        announcements(r@) == model::found(state@),
{
    let list: Vec<&Value> = state.items_at("mdns_candidates");
    let mut all: Vec<Announcement> = Vec::new();
    let ghost items = all_seen(list@);
    let n: usize = list.len();
    let mut i: usize = 0;
    assert(announcements(all@) =~= model::announced(items.take(0)));
    while i < n
        invariant
            i <= n == list@.len(),
            items == all_seen(list@),
            announcements(all@) == model::announced(items.take(i as int)),
        decreases n - i,
    {
        let ghost before = all@;
        assert(items[i as int] == list@[i as int]@);
        assert(items.take(i + 1).drop_last() == items.take(i as int));
        match announcement(list[i]) {
            Some(a) => {
                all.push(a);
                assert(announcements(all@) =~= announcements(before).push(a@));
            },
            None => {},
        }
        i = i + 1;
    }
    assert(items.take(n as int) == items);
    let chosen: Vec<Announcement> = ecobees(&all);
    assert(chosen@.len() == announcements(chosen@).len());
    if chosen.len() > 0 {
        chosen
    } else {
        all
    }
}

/// The first ecobee of a list.
fn first_ecobee(list: &Vec<Announcement>) -> (r: Option<&Announcement>)
    ensures
        match r {
            Some(a) => model::first_ecobee(announcements(list@)) == Some(a@),
            None => model::first_ecobee(announcements(list@)) is None,
        },
{
    let ghost all = announcements(list@);
    let n: usize = list.len();
    let mut i: usize = 0;
    assert(all.skip(0) == all);
    while i < n
        invariant
            i <= n == list@.len(),
            all == announcements(list@),
            model::first_ecobee(all) == model::first_ecobee(all.skip(i as int)),
        decreases n - i,
    {
        assert(all.skip(i as int)[0] == list@[i as int]@);
        assert(all.skip(i as int).drop_first() == all.skip(i + 1));
        if list[i].is_ecobee() {
            return Some(&list[i]);
        }
        i = i + 1;
    }
    None
}

/// `ecobee._hap._tcp.local.` reads better as `ecobee`.
pub fn short(fullname: &str) -> (r: &str)
    ensures
        r@ == model::short(fullname@),
{
    head(fullname, '.')
}

/// Short names, with a comma between each two.
fn names(list: &Vec<Announcement>) -> (r: String)
    ensures
        r@ == model::names(announcements(list@)),
{
    let ghost all = announcements(list@);
    let n: usize = list.len();
    if n == 0 {
        return "".to_owned();
    }
    let mut r: String = short(list[0].name.as_str()).to_owned();
    let mut i: usize = 1;
    assert(all.take(1)[0] == list@[0]@);
    while i < n
        invariant
            1 <= i <= n == list@.len(),
            all == announcements(list@),
            r@ == model::names(all.take(i as int)),
        decreases n - i,
    {
        assert(all.take(i + 1).drop_last() == all.take(i as int));
        assert(all.take(i + 1).last() == list@[i as int]@);
        r = r.concat(", ").concat(short(list[i].name.as_str()));
        i = i + 1;
    }
    assert(all.take(n as int) == all);
    r
}

/// No ecobee is announcing itself. Which is nearly always the same situation, that the
/// thermostat only runs its HomeKit server while the pairing screen is up, so say the one
/// thing that fixes it rather than offering a form that cannot help.
pub fn nothing_found(discovered: &Vec<Announcement>) -> (r: SetupStep)
    ensures
        r@ == model::nothing_found(announcements(discovered@)),
{
    let others: String = if discovered.len() == 0 {
        "".to_owned()
    } else {
        join(" (", names(discovered).as_str()).concat(" answered, but ").concat(
            if discovered.len() == 1 {
                "it is"
            } else {
                "they are"
            },
        ).concat(" not an ecobee.)")
    };
    let body: String = join("No ecobee is announcing itself.", others.as_str()).concat(
        "\n\nOn the thermostat: Main Menu › Settings › HomeKit. Leave the setup code on screen — it stops advertising once you leave that screen — then continue.",
    );
    instruct("Put the thermostat into pairing mode", body.as_str())
}

/// The ecobee is paired to another home: say how to free it.
fn already_paired(target: &Announcement) -> (r: SetupStep)
    ensures
        r@ == model::already_paired(target@),
{
    let body: String = join(
        short(target.name.as_str()),
        " is paired to another home. HomeKit allows one at a time, so remove it there — or on the thermostat, Settings › HomeKit › reset the pairing — then continue.",
    );
    instruct("Already paired", body.as_str())
}

/// Ask for the setup code.
fn code_form(target: &Announcement) -> (r: SetupStep)
    ensures
        r@ == model::code_form(target@),
{
    let mut fields: Vec<Field> = Vec::new();
    fields.push(
        Field {
            name: "Setup code".to_owned(),
            label: "HomeKit setup code".to_owned(),
            kind: "password".to_owned(),
            help: "8 digits, like 123-45-678".to_owned(),
            required: true,
        },
    );
    let body: String = join("Found ", short(target.name.as_str())).concat(" at ").concat(
        target.address.as_str(),
    ).concat(". Enter the setup code showing on the thermostat under Settings › HomeKit.");
    let r = SetupStep::Form { title: "Pair an ecobee over HomeKit".to_owned(), body, fields };
    assert(r@ =~= model::code_form(target@));
    r
}

/// The setup code that was typed, without white space around it.
fn typed_code<'a>(input: &'a Object) -> (r: &'a str)
    ensures
        r@ == model::typed_code(input@),
{
    match input.get("Setup code") {
        Some(v) => match v.as_str() {
            Some(s) => trim(s),
            None => "",
        },
        None => "",
    }
}

/// Pair with an accessory.
pub fn pair(state: &Value, address: &str, port: u64, code: &str) -> (r: (SetupStep, Value))
    ensures
        turn(r) == model::pair(state@, address@, port, code@),
{
    let request: HttpRequest = HttpRequest::new(
        "POST",
        url("hap-pair://", address, port, "/"),
    ).header("x-hap-code", code);
    assert(request@.headers =~= seq![("x-hap-code"@, code@)]);
    let mut updates: Vec<(&str, Value)> = Vec::new();
    updates.push(("stage", Value::text("pairing")));
    updates.push(("address", Value::text(address)));
    updates.push(("port", Value::unsigned(port)));
    assert(changes(updates@) =~= seq![
        ("stage"@, Json::Text("pairing"@)),
        ("address"@, Json::Text(address@)),
        ("port"@, Json::Number(crate::json::Number::Unsigned(port))),
    ]);
    (SetupStep::Fetch { request, note: "pair".to_owned() }, with(state, &updates))
}

/// Find the thermostat and get its code. Address and port are not asked for: a typed port is
/// wrong by the time it is submitted, and a typed address only ever gets someone into the
/// position of pairing the wrong accessory. A thermostat that does not announce itself has to
/// be made to.
pub fn ask(state: &Value, input: &Object) -> (r: (SetupStep, Value))
    ensures
        turn(r) == model::ask(state@, input@),
{
    let discovered: Vec<Announcement> = found(state);
    match first_ecobee(&discovered) {
        None => (nothing_found(&discovered), state.copy()),
        Some(target) => {
            if target.paired_already {
                return (already_paired(target), state.copy());
            }
            let code: &str = typed_code(input);
            if !code.is_empty() {
                return pair(state, target.address.as_str(), target.port, code);
            }
            (code_form(target), state.copy())
        },
    }
}

/// Giving up: nothing is remembered.
fn failed(reason: String, document: Option<Value>) -> (r: (SetupStep, Value))
    ensures
        turn(r) == model::failed(reason@, crate::host::document(document)),
{
    (SetupStep::Failed { reason, document }, Value::Null)
}

/// What went wrong with a request, where it says so.
fn error_text<'a>(input: &'a Object) -> (r: Option<&'a str>)
    ensures
        said(r) == model::error_text(input@),
{
    match input.get("error") {
        Some(v) => v.as_str(),
        None => None,
    }
}

/// The answer to a request.
fn response(input: &Object) -> (r: Value)
    ensures
        r@ == model::response(input@),
{
    match input.get("response") {
        Some(v) => v.copy(),
        None => Value::Null,
    }
}

/// Pairing was tried.
pub fn after_pairing(state: &Value, input: &Object) -> (r: (SetupStep, Value))
    ensures
        turn(r) == model::after_pairing(state@, input@),
{
    match error_text(input) {
        Some(err) => return failed(join("Pairing failed: ", err), None),
        None => {},
    }
    let answer: Value = response(input);
    let accessory_id: &str = field(&answer, "accessory_id");
    let accessory_key: &str = field(&answer, "accessory_ltpk");
    if accessory_id.is_empty() || accessory_key.is_empty() {
        return failed(
            "The thermostat did not complete pairing: ".to_owned(),
            Some(answer.copy()),
        );
    }
    let mut updates: Vec<(&str, Value)> = Vec::new();
    updates.push(("stage", Value::text("listing")));
    updates.push(("Accessory id", Value::text(accessory_id)));
    updates.push(("Accessory key", Value::text(accessory_key)));
    updates.push(("Controller id", Value::text(field(&answer, "controller_id"))));
    updates.push(("Controller key", Value::text(field(&answer, "controller_sk"))));
    assert(changes(updates@) =~= seq![
        ("stage"@, Json::Text("listing"@)),
        ("Accessory id"@, Json::Text(accessory_id@)),
        ("Accessory key"@, Json::Text(accessory_key@)),
        ("Controller id"@, Json::Text(model::field(answer@, "controller_id"@))),
        ("Controller key"@, Json::Text(model::field(answer@, "controller_sk"@))),
    ]);
    read_accessories(&with(state, &updates))
}

/// The first of two strings that is not empty.
fn pick<'a>(state: &'a Value, first: &str, second: &str) -> (r: &'a str)
    ensures
        r@ == (if model::field(state@, first@).len() > 0 {
            model::field(state@, first@)
        } else {
            model::field(state@, second@)
        }),
{
    let a: &str = field(state, first);
    if a.is_empty() {
        field(state, second)
    } else {
        a
    }
}

/// The port the accessory listens on.
fn port_of(state: &Value) -> (r: u64)
    ensures
        r == model::port_of(state@),
{
    let port: Option<&Value> = match state.get("Port") {
        Some(v) => Some(v),
        None => state.get("port"),
    };
    match port {
        Some(v) => match v.as_u64() {
            Some(n) => n,
            None => 80,
        },
        None => 80,
    }
}

/// Read the accessory database. Browsing a thermostat that is set up already arrives with the
/// device's own property names; a fresh pairing has just written the same values under those
/// names too.
pub fn read_accessories(state: &Value) -> (r: (SetupStep, Value))
    ensures
        turn(r) == model::read_accessories(state@),
{
    let request: HttpRequest = paired(
        "GET",
        pick(state, "Address", "address"),
        port_of(state),
        "/accessories",
        field(state, "Accessory id"),
        field(state, "Accessory key"),
        field(state, "Controller id"),
        field(state, "Controller key"),
    );
    let mut updates: Vec<(&str, Value)> = Vec::new();
    updates.push(("stage", Value::text("listing")));
    assert(changes(updates@) =~= seq![("stage"@, Json::Text("listing"@))]);
    (SetupStep::Fetch { request, note: "list".to_owned() }, with(state, &updates))
}

/// Whatever the accessory calls itself: the name set in the ecobee app, which is what the
/// person setting this up already thinks of the device as.
pub fn accessory_name(accessory: &Value) -> (r: Option<String>)
    ensures
        spoken(r) == model::accessory_name(accessory@),
{
    let list: Vec<&Value> = services(accessory);
    let ghost all = all_seen(list@);
    let n: usize = list.len();
    let mut i: usize = 0;
    assert(all.skip(0) == all);
    while i < n
        invariant
            i <= n == list@.len(),
            all == all_seen(list@),
            all == crate::model::accessory::services(accessory@),
            model::first_name(accessory@, all) == model::first_name(
                accessory@,
                all.skip(i as int),
            ),
        decreases n - i,
    {
        assert(all.skip(i as int)[0] == list@[i as int]@);
        assert(all.skip(i as int).drop_first() == all.skip(i + 1));
        let name: Option<String> = name_of(&characteristics(accessory, list[i]));
        if name.is_some() {
            return name;
        }
        i = i + 1;
    }
    None
}

/// What the thermostat calls itself.
pub fn thermostat_name(list: &Vec<&Value>) -> (r: Option<String>)
    ensures
        spoken(r) == model::thermostat_name(all_seen(list@)),
{
    match first_with(list, SRV_THERMOSTAT) {
        Some(accessory) => accessory_name(accessory),
        None => None,
    }
}

/// The thermostat, to adopt.
fn thermostat_candidate(state: &Value, list: &Vec<&Value>) -> (r: Candidate)
    ensures
        r@ == model::thermostat_candidate(state@, all_seen(list@)),
{
    let mut properties = Object::new();
    properties.insert("Address", Value::text(pick(state, "Address", "address")));
    properties.insert("Port", Value::unsigned(port_of(state)));
    properties.insert("Accessory id", Value::text(field(state, "Accessory id")));
    properties.insert("Accessory key", Value::text(field(state, "Accessory key")));
    properties.insert("Controller id", Value::text(field(state, "Controller id")));
    properties.insert("Controller key", Value::text(field(state, "Controller key")));
    let label: String = match thermostat_name(list) {
        Some(name) => name,
        None => "Ecobee Thermostat".to_owned(),
    };
    Candidate {
        label,
        kind: "thermostat".to_owned(),
        driver_id: THERMOSTAT.to_owned(),
        properties,
        verified: "paired over HomeKit".to_owned(),
    }
}

/// A room sensor, to adopt.
fn sensor_candidate(accessory: &Value) -> (r: Candidate)
    ensures
        r@ == model::sensor_candidate(accessory@),
{
    let aid: u64 = aid_of(accessory);
    let mut properties = Object::new();
    properties.insert("Accessory aid", Value::unsigned(aid));
    let label: String = match accessory_name(accessory) {
        Some(name) => name,
        None => join("Ecobee Sensor ", number_text(aid).as_str()),
    };
    Candidate {
        label,
        kind: "sensor".to_owned(),
        driver_id: SENSOR.to_owned(),
        properties,
        verified: "bridged by the thermostat".to_owned(),
    }
}

/// Turn the accessory database into things to adopt: the thermostat itself, and one candidate
/// per room sensor it bridges.
pub fn list(state: &Value, input: &Object, include_thermostat: bool) -> (r: (SetupStep, Value))
    ensures
        turn(r) == model::list(state@, input@, include_thermostat),
{
    match error_text(input) {
        Some(err) => return failed(join("Paired, but could not read the thermostat: ", err), None),
        None => {},
    }
    let doc: Value = response(input);
    let list: Vec<&Value> = accessories(&doc);
    let ghost all = all_seen(list@);
    let n: usize = list.len();
    assert(all.len() == n);
    if n == 0 {
        return failed(
            "The thermostat answered with nothing to set up: ".to_owned(),
            Some(doc.copy()),
        );
    }
    let mut out: Vec<Candidate> = Vec::new();
    if include_thermostat {
        out.push(thermostat_candidate(state, &list));
    }
    let ghost first = offers(out@);
    assert(include_thermostat ==> first =~= seq![model::thermostat_candidate(state@, all)]);
    assert(!include_thermostat ==> first =~= seq![]);
    let mut i: usize = 0;
    assert(first =~= first + model::sensor_candidates(all.take(0)));
    while i < n
        invariant
            i <= n == list@.len(),
            all == all_seen(list@),
            offers(out@) == first + model::sensor_candidates(all.take(i as int)),
        decreases n - i,
    {
        let ghost before = out@;
        let ghost told = model::sensor_candidates(all.take(i as int));
        assert(all[i as int] == list@[i as int]@);
        assert(all.take(i + 1).drop_last() == all.take(i as int));
        let accessory: &Value = list[i];
        // The thermostat's own accessory is not a room sensor, however many sensor services it
        // happens to carry.
        if !has_service(accessory, SRV_THERMOSTAT) && (has_service(accessory, SRV_OCCUPANCY)
            || has_service(accessory, SRV_TEMPERATURE)) {
            let c: Candidate = sensor_candidate(accessory);
            out.push(c);
            assert(offers(out@) =~= offers(before).push(c@));
            assert((first + told).push(c@) =~= first + told.push(c@));
        }
        i = i + 1;
    }
    assert(all.take(n as int) == all);
    (SetupStep::Done { candidates: out }, Value::Null)
}

/// One turn of setup.
pub fn run(state: &Value, input: &Object) -> (r: (SetupStep, Value))
    ensures
        turn(r) == model::run(state@, input@),
{
    // Browsing a thermostat that is paired already: the state holds its properties, so go
    // straight to reading what it bridges.
    let browse: bool = match state.get("browse") {
        Some(v) => match v.as_bool() {
            Some(b) => b,
            None => false,
        },
        None => false,
    };
    if browse {
        if input.get("response").is_some() || input.get("error").is_some() {
            return list(state, input, false);
        }
        return read_accessories(state);
    }
    let stage: &str = field(state, "stage");
    if same(stage, "pairing") {
        after_pairing(state, input)
    } else if same(stage, "listing") {
        list(state, input, true)
    } else {
        ask(state, input)
    }
}

} // verus!
