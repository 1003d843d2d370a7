use ecobee_hap::double::Double;
use ecobee_hap::host::{Candidate, HostCall, HttpRequest, Instance, SetupStep};
use ecobee_hap::json::{Number, Object, Value};
use ecobee_hap::setup::{accessory_name, announcement, found, run};
use ecobee_hap::EcobeeHap;

fn value(v: &serde_json::Value) -> Value {
    match v {
        serde_json::Value::Null => Value::Null,
        serde_json::Value::Bool(b) => Value::Bool(*b),
        serde_json::Value::Number(n) => Value::Number(match (n.as_u64(), n.as_i64()) {
            (Some(u), _) => Number::Unsigned(u),
            (None, Some(i)) => Number::Signed(i),
            _ => Number::Float(Double { bits: n.as_f64().unwrap().to_bits() }),
        }),
        serde_json::Value::String(s) => Value::text(s),
        serde_json::Value::Array(items) => Value::Array(items.iter().map(value).collect()),
        serde_json::Value::Object(m) => {
            let mut o = Object::new();
            for (k, v) in m {
                o.insert(k, value(v));
            }
            Value::Object(o)
        }
    }
}

fn plain(v: &Value) -> serde_json::Value {
    match v {
        Value::Null => serde_json::Value::Null,
        Value::Bool(b) => (*b).into(),
        Value::Number(Number::Unsigned(n)) => (*n).into(),
        Value::Number(Number::Signed(n)) => (*n).into(),
        Value::Number(Number::Float(d)) => f64::from_bits(d.bits).into(),
        Value::Text(s) => s.as_str().into(),
        Value::Array(items) => items.iter().map(plain).collect(),
        Value::Object(o) => members(o),
    }
}

fn members(o: &Object) -> serde_json::Value {
    o.entries().iter().map(|(k, v)| (k.clone(), plain(v))).collect()
}

fn doc(text: &str) -> Value {
    value(&serde_json::from_str(text).unwrap())
}

const THERMOSTAT: &str = "ecobee.hap.thermostat";

/// One announcement of the scan.
fn announced(name: &str, address: &str, port: &str, sf: &str, md: &str) -> String {
    format!(
        r#"{{"name": "{name}", "address": "{address}", "port": {port},
            "txt": {{"sf": "{sf}", "md": "{md}"}}}}"#
    )
}

fn scan(list: &[String]) -> Value {
    doc(&format!(r#"{{"mdns_candidates": [{}]}}"#, list.join(",")))
}

fn ecobee(sf: &str) -> Value {
    scan(&[
        announced("Caseta._hap._tcp.local.", "10.0.0.2", "8080", "1", "Smart Bridge"),
        announced("My ecobee._hap._tcp.local.", "10.0.0.7", "38399", sf, "ECB701"),
    ])
}

fn nothing() -> Object {
    Object::new()
}

fn code(text: &str) -> Object {
    let mut o = Object::new();
    o.insert("Setup code", Value::text(text));
    o
}

fn response(body: Value) -> Object {
    let mut o = Object::new();
    o.insert("response", body);
    o
}

fn error(text: &str) -> Object {
    let mut o = Object::new();
    o.insert("error", Value::text(text));
    o
}

fn pairing() -> Value {
    doc(r#"{"accessory_id": "AA:BB", "accessory_ltpk": "ak",
        "controller_id": "cid", "controller_sk": "ck"}"#)
}

fn database() -> Value {
    doc(r#"{"accessories": [
        {"aid": 1, "services": [
            {"type": "3E", "characteristics": [{"iid": 2, "type": "23", "value": ""}]},
            {"type": "4A", "characteristics": [{"iid": 3, "type": "23", "value": "Hallway"}]},
            {"type": "86", "characteristics": []}]},
        {"aid": 4503, "services": [
            {"type": "86", "characteristics": [{"iid": 4, "type": "23", "value": "Bedroom"}]}]},
        {"aid": 4504, "services": [{"type": "8A"}]},
        {"aid": 4505, "services": [{"type": "96"}]}]}"#)
}

fn instructed(step: SetupStep) -> (String, String) {
    match step {
        SetupStep::Instruct { title, body, continue_label } => {
            assert_eq!(continue_label, "Continue");
            (title, body)
        }
        _ => panic!("not an instruction"),
    }
}

fn fetched(step: SetupStep) -> (HttpRequest, String) {
    match step {
        SetupStep::Fetch { request, note } => (request, note),
        _ => panic!("not a request"),
    }
}

fn offered(step: SetupStep) -> Vec<Candidate> {
    match step {
        SetupStep::Done { candidates } => candidates,
        _ => panic!("not done"),
    }
}

fn failure(step: SetupStep) -> String {
    match step {
        SetupStep::Failed { reason, document: Some(d) } => format!("{reason}{}", plain(&d)),
        SetupStep::Failed { reason, document: None } => reason,
        _ => panic!("not a failure"),
    }
}

fn headers(request: &HttpRequest) -> Vec<String> {
    request.headers.iter().map(|(k, v)| format!("{k}={v}")).collect()
}

#[test]
fn a_sensor_is_never_set_up_on_its_own() {
    for id in ["ecobee.hap.sensor", "", "ecobee.hap.thermostat2"] {
        let (step, state) = EcobeeHap.discover(id, &ecobee("1"), &code("123-45-678"));
        assert!(offered(step).is_empty());
        assert_eq!(state, Value::Null);
    }
}

#[test]
fn a_thermostat_is_set_up_by_running_setup() {
    let state = ecobee("1");
    let one = EcobeeHap.discover(THERMOSTAT, &state, &code("123-45-678"));
    assert_eq!(one, run(&state, &code("123-45-678")));
}

#[test]
fn an_announcement_needs_a_name_and_an_address() {
    let a = announcement(&doc(r#"{"name": "a.b", "address": "x"}"#)).unwrap();
    assert_eq!((a.name.as_str(), a.address.as_str(), a.port), ("a.b", "x", 80));
    assert!(!a.paired_already);
    assert_eq!(a.model, "");
    assert!(announcement(&doc(r#"{"name": "a"}"#)).is_none());
    assert!(announcement(&doc(r#"{"address": "x"}"#)).is_none());
    assert!(announcement(&doc(r#"{"name": 1, "address": "x"}"#)).is_none());
    for (sf, paired) in [("0", true), (" 0\t", true), ("1", false), ("00", false), ("", false)] {
        let mut c = Object::new();
        c.insert("name", Value::text("a"));
        c.insert("address", Value::text("x"));
        let mut txt = Object::new();
        txt.insert("sf", Value::text(sf));
        c.insert("txt", Value::Object(txt));
        assert_eq!(announcement(&Value::Object(c)).unwrap().paired_already, paired, "{sf:?}");
    }
}

#[test]
fn an_ecobee_is_known_by_how_its_model_starts() {
    for (md, known) in [
        ("ECB701", true),
        ("ecb", true),
        ("ecobee3", true),
        ("Ecobee4", true),
        ("EB-STATE6", true),
        ("eb", false),
        ("Smart Bridge", false),
        ("my ecobee", false),
        ("", false),
        ("ÉCB701", false),
        ("EcobeeÉ", true),
    ] {
        let c = announced("n", "a", "1", "1", md);
        assert_eq!(announcement(&doc(&c)).unwrap().is_ecobee(), known, "{md}");
    }
}

#[test]
fn ecobees_come_first() {
    let shown = found(&ecobee("1"));
    assert_eq!(shown.len(), 1);
    assert_eq!(shown[0].model, "ECB701");
    let others = scan(&[
        announced("a", "x", "1", "1", "Bridge"),
        r#"{"name": "no address"}"#.to_string(),
        announced("b", "y", "2", "1", "Panel"),
    ]);
    let names: Vec<String> = found(&others).iter().map(|a| a.name.clone()).collect();
    assert_eq!(names, vec!["a", "b"]);
    assert!(found(&Value::Null).is_empty());
}

#[test]
fn nothing_found_says_how_to_announce() {
    let tail = "\n\nOn the thermostat: Main Menu › Settings › HomeKit. Leave the setup code on \
                screen — it stops advertising once you leave that screen — then continue.";
    let one = announced("Caseta._hap._tcp.local.", "10.0.0.2", "8080", "1", "Smart Bridge");
    let two = announced("Nanoleaf._hap._tcp.local.", "10.0.0.3", "8080", "1", "NL22");
    for (list, others) in [
        (vec![], ""),
        (vec![one.clone()], " (Caseta answered, but it is not an ecobee.)"),
        (vec![one, two], " (Caseta, Nanoleaf answered, but they are not an ecobee.)"),
    ] {
        let state = scan(&list);
        let (step, after) = run(&state, &code("123-45-678"));
        let (title, body) = instructed(step);
        assert_eq!(title, "Put the thermostat into pairing mode");
        assert_eq!(body, format!("No ecobee is announcing itself.{others}{tail}"));
        assert_eq!(after, state);
    }
}

#[test]
fn an_ecobee_that_is_paired_already_has_to_be_freed() {
    let state = ecobee("0");
    let (step, after) = run(&state, &code("123-45-678"));
    let (title, body) = instructed(step);
    assert_eq!(title, "Already paired");
    assert_eq!(
        body,
        "My ecobee is paired to another home. HomeKit allows one at a time, so remove it \
         there — or on the thermostat, Settings › HomeKit › reset the pairing — then continue."
    );
    assert_eq!(after, state);
}

#[test]
fn pressing_on_without_a_code_asks_for_it() {
    let state = ecobee("1");
    for input in [nothing(), code(""), code(" \n")] {
        let (step, after) = run(&state, &input);
        match step {
            SetupStep::Form { title, body, fields } => {
                assert_eq!(title, "Pair an ecobee over HomeKit");
                assert_eq!(
                    body,
                    "Found My ecobee at 10.0.0.7. Enter the setup code showing on the \
                     thermostat under Settings › HomeKit."
                );
                assert_eq!(fields.len(), 1);
                assert_eq!(fields[0].name, "Setup code");
                assert_eq!(fields[0].label, "HomeKit setup code");
                assert_eq!(fields[0].kind, "password");
                assert_eq!(fields[0].help, "8 digits, like 123-45-678");
                assert!(fields[0].required);
            }
            _ => panic!("not a form"),
        }
        assert_eq!(after, state);
    }
}

#[test]
fn a_code_pairs_the_ecobee_where_it_announced_itself() {
    let (step, state) = run(&ecobee("1"), &code(" 123-45-678 \n"));
    let (request, note) = fetched(step);
    assert_eq!(note, "pair");
    assert_eq!(request.method, "POST");
    assert_eq!(request.url, "hap-pair://10.0.0.7:38399/");
    assert_eq!(headers(&request), vec!["x-hap-code=123-45-678"]);
    assert_eq!(request.body, None);
    assert_eq!(state.text_at("stage"), Some("pairing"));
    assert_eq!(state.text_at("address"), Some("10.0.0.7"));
    assert_eq!(state.unsigned_at("port"), Some(38399));
    assert_eq!(state.items_at("mdns_candidates").len(), 2);
}

#[test]
fn pairing_that_fails_starts_over() {
    let (_, state) = run(&ecobee("1"), &code("123-45-678"));
    let (step, after) = run(&state, &error("wrong code"));
    assert_eq!(failure(step), "Pairing failed: wrong code");
    assert_eq!(after, Value::Null);
    for (body, text) in [
        (Value::Null, "null"),
        (doc(r#"{"accessory_id": "x"}"#), r#"{"accessory_id":"x"}"#),
        (doc(r#"{"accessory_id": "", "accessory_ltpk": "k"}"#),
            r#"{"accessory_id":"","accessory_ltpk":"k"}"#),
    ] {
        let (step, after) = run(&state, &response(body));
        assert_eq!(failure(step), format!("The thermostat did not complete pairing: {text}"));
        assert_eq!(after, Value::Null);
    }
    let (step, _) = run(&state, &nothing());
    assert_eq!(failure(step), "The thermostat did not complete pairing: null");
    let (step, _) = run(&Value::Null, &nothing());
    assert_eq!(instructed(step).0, "Put the thermostat into pairing mode");
}

#[test]
fn setup_hands_over_a_thermostat_that_reads_the_same_database() {
    let (_, state) = run(&ecobee("1"), &code("123-45-678"));
    let (step, state) = run(&state, &response(pairing()));
    let (read, note) = fetched(step);
    assert_eq!(note, "list");
    assert_eq!(read.method, "GET");
    assert_eq!(read.url, "hap://10.0.0.7:38399/accessories");
    assert_eq!(
        headers(&read),
        vec![
            "x-hap-accessory-id=AA:BB",
            "x-hap-accessory-ltpk=ak",
            "x-hap-controller-id=cid",
            "x-hap-controller-sk=ck",
        ]
    );
    assert_eq!(state.text_at("stage"), Some("listing"));

    let (step, after) = run(&state, &response(database()));
    assert_eq!(after, Value::Null);
    let list = offered(step);
    assert_eq!(list.len(), 3);
    assert_eq!(list[0].label, "Hallway");
    assert_eq!(list[0].kind, "thermostat");
    assert_eq!(list[0].driver_id, THERMOSTAT);
    assert_eq!(list[0].verified, "paired over HomeKit");
    assert_eq!(
        plain(&Value::Object(list[0].properties.copy())).to_string(),
        r#"{"Accessory id":"AA:BB","Accessory key":"ak","Address":"10.0.0.7","Controller id":"cid","Controller key":"ck","Port":38399}"#
    );
    assert_eq!((list[1].label.as_str(), list[2].label.as_str()), ("Bedroom", "Ecobee Sensor 4504"));
    assert_eq!(list[1].kind, "sensor");
    assert_eq!(list[1].driver_id, "ecobee.hap.sensor");
    assert_eq!(list[1].verified, "bridged by the thermostat");
    assert_eq!(
        plain(&Value::Object(list[1].properties.copy())).to_string(),
        r#"{"Accessory aid":4503}"#
    );

    let mut inst = Instance { properties: list[0].properties.copy(), scratch: Object::new() };
    assert_eq!(EcobeeHap.on_bind(&mut inst), vec![HostCall::Http(read)]);
}

#[test]
fn an_offered_sensor_is_found_again() {
    let state = doc(r#"{"stage": "listing"}"#);
    let (step, _) = run(&state, &response(database()));
    for candidate in offered(step) {
        if candidate.kind == "sensor" {
            let mut inst = Instance { properties: candidate.properties, scratch: Object::new() };
            let mut args = Object::new();
            args.insert("body", database());
            let out = EcobeeHap.on_event(&mut inst, 1, "http_response", &args);
            match &out[0] {
                HostCall::Notify { proxy, name, args } => {
                    assert_eq!((*proxy, name.as_str()), (1, "online_changed"));
                    assert_eq!(args.get("online"), Some(&Value::Bool(true)));
                }
                _ => panic!("not a notification"),
            }
        }
    }
}

#[test]
fn a_thermostat_without_a_name_gets_one() {
    let state = doc(r#"{"stage": "listing"}"#);
    let d = r#"{"accessories": [{"aid": 1, "services": [{"type": "4A"}]}]}"#;
    let (step, _) = run(&state, &response(doc(d)));
    let list = offered(step);
    assert_eq!(list.len(), 1);
    assert_eq!(list[0].label, "Ecobee Thermostat");
    assert_eq!(
        plain(&Value::Object(list[0].properties.copy())).to_string(),
        r#"{"Accessory id":"","Accessory key":"","Address":"","Controller id":"","Controller key":"","Port":80}"#
    );
}

#[test]
fn listing_that_fails_starts_over() {
    let state = doc(r#"{"stage": "listing"}"#);
    let (step, after) = run(&state, &error("timeout"));
    assert_eq!(failure(step), "Paired, but could not read the thermostat: timeout");
    assert_eq!(after, Value::Null);
    let (step, after) = run(&state, &response(doc(r#"{"accessories": []}"#)));
    assert_eq!(
        failure(step),
        r#"The thermostat answered with nothing to set up: {"accessories":[]}"#
    );
    assert_eq!(after, Value::Null);
    let (step, _) = run(&state, &nothing());
    assert_eq!(failure(step), "The thermostat answered with nothing to set up: null");
}

#[test]
fn browsing_reads_and_offers_sensors_only() {
    let state = doc(r#"{"browse": true, "stage": "pairing", "Address": "10.0.0.9", "Port": 99,
        "address": "old", "port": 1,
        "Accessory id": "a", "Accessory key": "b", "Controller id": "c", "Controller key": "d"}"#);
    let (step, next) = run(&state, &code("123-45-678"));
    let (request, note) = fetched(step);
    assert_eq!((request.method.as_str(), note.as_str()), ("GET", "list"));
    assert_eq!(request.url, "hap://10.0.0.9:99/accessories");
    assert_eq!(next.text_at("stage"), Some("listing"));
    let (step, after) = run(&next, &response(database()));
    let kinds: Vec<String> = offered(step).into_iter().map(|c| c.kind).collect();
    assert_eq!(kinds, vec!["sensor", "sensor"]);
    assert_eq!(after, Value::Null);
    let (step, _) = run(&next, &error("gone"));
    assert_eq!(failure(step), "Paired, but could not read the thermostat: gone");
}

#[test]
fn a_port_that_is_no_number_is_80() {
    for (state, url) in [
        (r#"{"browse": true, "Address": "x"}"#, "hap://x:80/accessories"),
        (r#"{"browse": true, "address": "y", "port": 5}"#, "hap://y:5/accessories"),
        (r#"{"browse": true, "Address": "", "address": "y", "Port": "7", "port": 5}"#,
            "hap://y:80/accessories"),
        (r#"{"browse": true}"#, "hap://:80/accessories"),
    ] {
        let (step, _) = run(&doc(state), &nothing());
        assert_eq!(fetched(step).0.url, url);
    }
}

#[test]
fn an_accessory_is_called_by_its_first_name() {
    let d = database();
    let list = ecobee_hap::accessory::accessories(&d);
    assert_eq!(accessory_name(list[0]), Some("Hallway".to_string()));
    assert_eq!(accessory_name(list[1]), Some("Bedroom".to_string()));
    assert_eq!(accessory_name(list[2]), None);
}
