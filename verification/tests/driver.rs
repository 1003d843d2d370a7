use ecobee_hap::double::Double;
use ecobee_hap::host::{HostCall, Instance};
use ecobee_hap::json::{Number, Object, Value};
use ecobee_hap::report::{notify_f, occupancy, offline, online, sensor_report, thermostat_report};
use ecobee_hap::request::{authorised, remember, remembered, target};
use ecobee_hap::EcobeeHap;

fn value(v: &serde_json::Value) -> Value {
    match v {
        serde_json::Value::Null => Value::Null,
        serde_json::Value::Bool(b) => Value::Bool(*b),
        serde_json::Value::Number(n) => Value::Number(match (n.as_u64(), n.as_i64()) {
            (Some(u), _) => Number::Unsigned(u),
            (None, Some(i)) => Number::Signed(i),
            _ => Number::Float(Double { bits: n.as_f64().unwrap().to_bits() }),
        }),
        serde_json::Value::String(s) => Value::text(s),
        serde_json::Value::Array(items) => Value::Array(items.iter().map(value).collect()),
        serde_json::Value::Object(m) => {
            let mut o = Object::new();
            for (k, v) in m {
                o.insert(k, value(v));
            }
            Value::Object(o)
        }
    }
}

fn plain(v: &Value) -> serde_json::Value {
    match v {
        Value::Null => serde_json::Value::Null,
        Value::Bool(b) => (*b).into(),
        Value::Number(Number::Unsigned(n)) => (*n).into(),
        Value::Number(Number::Signed(n)) => (*n).into(),
        Value::Number(Number::Float(d)) => f64::from_bits(d.bits).into(),
        Value::Text(s) => s.as_str().into(),
        Value::Array(items) => items.iter().map(plain).collect(),
        Value::Object(o) => members(o),
    }
}

fn members(o: &Object) -> serde_json::Value {
    o.entries().iter().map(|(k, v)| (k.clone(), plain(v))).collect()
}

fn doc(text: &str) -> Value {
    value(&serde_json::from_str(text).unwrap())
}

fn object(text: &str) -> Object {
    match doc(text) {
        Value::Object(o) => o,
        _ => panic!("not an object"),
    }
}

/// Calls in words, one line each.
fn told(calls: &[HostCall]) -> Vec<String> {
    calls
        .iter()
        .map(|c| match c {
            HostCall::Http(r) => {
                let headers: Vec<String> =
                    r.headers.iter().map(|(k, v)| format!("{k}={v}")).collect();
                let body = match &r.body {
                    Some(b) => plain(b).to_string(),
                    None => "-".to_string(),
                };
                format!("{} {} [{}] {}", r.method, r.url, headers.join(","), body)
            }
            HostCall::Warn(m) => format!("warn {m}"),
            HostCall::Notify { proxy, name, args } => {
                format!("notify {proxy} {name} {}", members(args))
            }
            HostCall::SetState { proxy, key, value } => {
                format!("state {proxy} {key} {}", plain(value))
            }
        })
        .collect()
}

const PAIRING: &str = r#"{
    "Address": "10.0.0.7", "Port": 4711,
    "Accessory id": "AA:BB", "Accessory key": "ak",
    "Controller id": "cid", "Controller key": "ck"
}"#;

const HEADERS: &str = "[x-hap-accessory-id=AA:BB,x-hap-accessory-ltpk=ak,\
    x-hap-controller-id=cid,x-hap-controller-sk=ck]";

fn thermostat() -> Instance {
    Instance { properties: object(PAIRING), scratch: Object::new() }
}

fn sensor(aid: u64) -> Instance {
    let mut inst = thermostat();
    inst.properties.insert("Accessory aid", Value::unsigned(aid));
    inst
}

/// A database with a thermostat in the given mode, numbered `aid`, and a sensor behind it.
fn database(aid: u64, mode: u64, unit: u64, motion: u64) -> Value {
    doc(&format!(
        r#"{{"accessories": [
            {{"aid": {aid}, "services": [
                {{"type": "3E", "characteristics": [
                    {{"iid": 2, "type": "23", "value": "Hallway"}}]}},
                {{"type": "0000004A-0000-1000-8000-0026BB765291", "characteristics": [
                    {{"iid": 17, "type": "F", "value": 1}},
                    {{"iid": 18, "type": "33", "value": {mode}}},
                    {{"iid": 19, "type": "11", "value": 21.5400009}},
                    {{"iid": 20, "type": "35", "value": 22}},
                    {{"iid": 21, "type": "36", "value": {unit}}},
                    {{"iid": 22, "type": "D", "value": 25.56}},
                    {{"iid": 23, "type": "12", "value": 19.44}},
                    {{"iid": 24, "type": "10", "value": 41}}]}},
                {{"type": "86", "characteristics": [
                    {{"iid": 66, "type": "71", "value": {motion}}}]}},
                {{"type": "8A", "characteristics": [
                    {{"iid": 77, "type": "11", "value": 20.96}}]}}]}},
            {{"aid": 4503, "services": [
                {{"type": "86", "characteristics": [
                    {{"iid": 5, "type": "71", "value": {motion}}}]}},
                {{"type": "8A", "characteristics": [
                    {{"iid": 6, "type": "11", "value": 18.06}}]}}]}}]}}"#
    ))
}

fn answer(body: Value) -> Object {
    let mut args = Object::new();
    args.insert("body", body);
    args
}

fn poll(inst: &mut Instance, body: Value) -> Vec<String> {
    told(&EcobeeHap.on_event(inst, 1, "http_response", &answer(body)))
}

fn ask(inst: &mut Instance, cmd: &str, args: &str) -> Vec<String> {
    told(&EcobeeHap.on_command(inst, 1, cmd, &object(args)))
}

// ---------------------------------------------------------------------------------------
// Requests
// ---------------------------------------------------------------------------------------

#[test]
fn binding_reads_the_database() {
    let mut inst = thermostat();
    let want = vec![format!("GET hap://10.0.0.7:4711/accessories {HEADERS} -")];
    assert_eq!(told(&EcobeeHap.on_bind(&mut inst)), want);
    assert_eq!(inst, thermostat());
}

#[test]
fn sensors_ask_too() {
    assert_eq!(EcobeeHap.on_bind(&mut sensor(4503)), EcobeeHap.on_bind(&mut thermostat()));
}

#[test]
fn binding_without_a_pairing_warns() {
    let want = vec!["warn ecobee-hap: set this thermostat up through its HomeKit pairing flow first"];
    for missing in
        ["Address", "Accessory id", "Accessory key", "Controller id", "Controller key"]
    {
        for instead in [Value::Null, Value::text(""), Value::unsigned(7)] {
            let mut inst = thermostat();
            inst.properties.insert(missing, instead);
            assert_eq!(told(&EcobeeHap.on_bind(&mut inst)), want, "{missing}");
        }
    }
    let mut bare = Instance { properties: Object::new(), scratch: Object::new() };
    assert_eq!(told(&EcobeeHap.on_bind(&mut bare)), want);
}

#[test]
fn the_port_is_80_where_none_was_recorded() {
    for instead in [Value::Null, Value::text("4711")] {
        let mut inst = thermostat();
        inst.properties.insert("Port", instead);
        let request = authorised(&inst, "/x", "GET").unwrap();
        assert_eq!(request.url, "hap://10.0.0.7:80/x");
    }
}

#[test]
fn several_values_are_one_write() {
    let out = told(&ecobee_hap::request::write(&thermostat(), vec![Value::unsigned(1), Value::text("x")]));
    let want = format!(
        "PUT hap://10.0.0.7:4711/characteristics {HEADERS} {}",
        r#"{"characteristics":[1,"x"]}"#
    );
    assert_eq!(out, vec![want]);
    let bare = Instance { properties: Object::new(), scratch: Object::new() };
    assert_eq!(
        told(&ecobee_hap::request::write(&bare, Vec::new())),
        vec!["warn ecobee-hap: this thermostat is not paired — run its setup again"]
    );
}

#[test]
fn a_remembered_place_is_given_back() {
    let mut inst = thermostat();
    let d = database(1, 1, 0, 0);
    let list = ecobee_hap::accessory::accessories(&d);
    let all = ecobee_hap::accessory::services(list[0]);
    let chars = ecobee_hap::accessory::characteristics(list[0], all[1]);
    assert_eq!(remembered(&inst, "a"), None);
    remember(&mut inst, "a", None);
    assert_eq!(inst, thermostat());
    remember(&mut inst, "a", Some(&chars[0]));
    remember(&mut inst, "b", Some(&chars[1]));
    assert_eq!(remembered(&inst, "a"), Some((1, 17)));
    assert_eq!(remembered(&inst, "b"), Some((1, 18)));
    assert_eq!(remembered(&inst, "c"), None);
    remember(&mut inst, "a", Some(&chars[2]));
    assert_eq!(remembered(&inst, "a"), Some((1, 19)));
    let t = target(&inst, "b", Value::Bool(true)).unwrap();
    assert_eq!(plain(&t).to_string(), r#"{"aid":1,"iid":18,"value":true}"#);
    assert_eq!(target(&inst, "c", Value::Null), None);
}

#[test]
fn places_that_are_no_object_are_left_alone() {
    let mut inst = thermostat();
    inst.scratch.insert("iids", Value::text("odd"));
    let d = database(1, 1, 0, 0);
    poll(&mut inst, d);
    assert_eq!(inst.scratch.get("iids"), Some(&Value::text("odd")));
    assert_eq!(remembered(&inst, "target_state"), None);
}

// ---------------------------------------------------------------------------------------
// Reads
// ---------------------------------------------------------------------------------------

#[test]
fn a_thermostat_in_auto_reports_its_band() {
    let mut inst = thermostat();
    assert_eq!(
        poll(&mut inst, database(1, 3, 1, 1)),
        vec![
            r#"notify 1 online_changed {"online":true}"#,
            r#"notify 1 temperature_changed {"celsius":21.5}"#,
            r#"notify 1 humidity_changed {"percent":41.0}"#,
            r#"notify 1 mode_changed {"mode":"auto"}"#,
            r#"notify 1 hvac_state_changed {"state":"heating"}"#,
            r#"state 1 display_unit "°F""#,
            r#"state 1 heat_setpoint_c 19.4"#,
            r#"state 1 cool_setpoint_c 25.6"#,
            r#"notify 2 detected_changed {"detected":true}"#,
            r#"notify 3 value_changed {"value":21.0}"#,
        ]
    );
    assert_eq!(inst.scratch.get("mode"), Some(&Value::text("auto")));
    assert_eq!(inst.scratch.get("built_in"), Some(&Value::Bool(true)));
    assert_eq!(remembered(&inst, "target_state"), Some((1, 18)));
    assert_eq!(remembered(&inst, "target_temp"), Some((1, 20)));
    assert_eq!(remembered(&inst, "cool_threshold"), Some((1, 22)));
    assert_eq!(remembered(&inst, "heat_threshold"), Some((1, 23)));
    assert_eq!(inst.properties, object(PAIRING));
}

#[test]
fn a_thermostat_that_heats_or_cools_reports_one_setpoint() {
    for (mode, word) in [(1, "heat"), (2, "cool"), (7, "off")] {
        let mut inst = thermostat();
        let out = poll(&mut inst, database(1, mode, 0, 0));
        assert_eq!(out[3], format!(r#"notify 1 mode_changed {{"mode":"{word}"}}"#));
        assert_eq!(out[5], r#"state 1 display_unit "°C""#);
        assert_eq!(out[6], "state 1 setpoint_c 22.0");
        assert_eq!(out.iter().filter(|l| l.contains("setpoint")).count(), 1);
    }
}

#[test]
fn a_thermostat_that_is_off_reports_no_setpoint() {
    let mut inst = thermostat();
    let out = poll(&mut inst, database(1, 0, 0, 0));
    assert!(out.iter().all(|l| !l.contains("setpoint")));
    assert_eq!(out[3], r#"notify 1 mode_changed {"mode":"off"}"#);
}

#[test]
fn a_thermostat_without_values_is_only_online() {
    let mut inst = thermostat();
    let out = poll(
        &mut inst,
        doc(r#"{"accessories": [{"aid": 1, "services": [{"type": "4A", "characteristics": [
            {"iid": 1, "type": "33"}, {"iid": 2, "type": "11", "value": "warm"}]}]}]}"#),
    );
    assert_eq!(out, vec![r#"notify 1 online_changed {"online":true}"#]);
    assert_eq!(remembered(&inst, "target_state"), Some((1, 1)));
    assert_eq!(inst.scratch.get("mode"), None);
}

#[test]
fn a_document_without_a_thermostat_warns() {
    let mut inst = thermostat();
    let out = poll(&mut inst, doc(r#"{"accessories": [{"aid": 1}]}"#));
    assert_eq!(
        out,
        vec![
            "warn ecobee-hap: nothing at this address has a thermostat — \
             is it the right accessory?"
        ]
    );
    assert_eq!(inst, thermostat());
}

#[test]
fn a_sensor_reports_its_own_accessory() {
    let mut inst = sensor(4503);
    assert_eq!(
        poll(&mut inst, database(1, 3, 1, 1)),
        vec![
            r#"notify 1 online_changed {"online":true}"#,
            r#"notify 1 detected_changed {"detected":true}"#,
            r#"notify 2 value_changed {"value":18.1}"#,
        ]
    );
    assert_eq!(inst.scratch.get("occupied"), Some(&Value::Bool(true)));
    assert_eq!(inst.scratch.get("iids"), None);
}

#[test]
fn a_sensor_that_is_gone_is_offline() {
    let mut inst = sensor(99);
    assert_eq!(
        poll(&mut inst, database(1, 3, 1, 1)),
        vec![r#"notify 1 online_changed {"online":false}"#]
    );
    assert_eq!(inst, sensor(99));
}

#[test]
fn only_reads_speak() {
    let d = database(1, 3, 1, 1);
    for mut inst in [thermostat(), sensor(4503)] {
        let before = Instance {
            properties: inst.properties.copy(),
            scratch: inst.scratch.copy(),
        };
        assert!(EcobeeHap.on_event(&mut inst, 1, "timer", &answer(d.copy())).is_empty());
        assert!(EcobeeHap.on_event(&mut inst, 1, "http_response", &Object::new()).is_empty());
        assert!(poll(&mut inst, Value::Null).is_empty());
        assert!(poll(&mut inst, doc(r#"{"accessories": []}"#)).is_empty());
        assert_eq!(inst, before);
    }
}

#[test]
fn occupancy_is_told_once() {
    let mut inst = sensor(4503);
    let detected = |out: Vec<String>| out.iter().filter(|l| l.contains("detected")).count();
    assert_eq!(detected(poll(&mut inst, database(1, 3, 1, 0))), 1);
    assert_eq!(detected(poll(&mut inst, database(1, 3, 1, 0))), 0);
    assert_eq!(detected(poll(&mut inst, database(1, 3, 1, 1))), 1);
    assert_eq!(detected(poll(&mut inst, database(1, 3, 1, 1))), 0);
    let mut inst = thermostat();
    assert_eq!(detected(poll(&mut inst, database(1, 3, 1, 1))), 1);
    assert_eq!(detected(poll(&mut inst, database(1, 2, 1, 1))), 0);
    assert_eq!(detected(poll(&mut inst, database(1, 2, 1, 0))), 1);
}

#[test]
fn services_that_contradict_each_other_are_told_again() {
    let d = r#"{"accessories": [{"aid": 1, "services": [
        {"type": "86", "characteristics": [{"iid": 1, "type": "71", "value": 1}]},
        {"type": "86", "characteristics": [{"iid": 2, "type": "71", "value": 0}]}]}]}"#;
    let mut inst = sensor(1);
    let first = poll(&mut inst, doc(d));
    assert_eq!(first.len(), 3);
    assert_eq!(poll(&mut inst, doc(d)), first);
}

#[test]
fn numbers_do_not_matter() {
    let (mut a, mut b) = (thermostat(), thermostat());
    assert_eq!(poll(&mut a, database(1, 3, 1, 1)), poll(&mut b, database(4502, 3, 1, 1)));
    assert_eq!(remembered(&a, "target_temp"), Some((1, 20)));
    assert_eq!(remembered(&b, "target_temp"), Some((4502, 20)));
}

/// The same database with its types in other spellings and its accessories renumbered.
fn respelled(d: &Value, by: u64) -> Value {
    let full = |t: &str| format!("{:0>8}-0000-1000-8000-0026bb765291", t.to_lowercase());
    match d {
        Value::Array(items) => Value::Array(items.iter().map(|v| respelled(v, by)).collect()),
        Value::Object(o) => {
            let mut r = Object::new();
            for (k, v) in o.entries() {
                let v = match (k.as_str(), v) {
                    ("type", Value::Text(t)) if !t.contains('-') => Value::text(&full(t)),
                    ("aid", Value::Number(Number::Unsigned(n))) => Value::unsigned(n + by),
                    _ => respelled(v, by),
                };
                r.insert(k, v);
            }
            Value::Object(r)
        }
        _ => d.copy(),
    }
}

#[test]
fn numbers_and_spellings_do_not_matter() {
    let d = database(1, 3, 1, 1);
    let e = respelled(&d, 7000);
    assert_ne!(d, e);
    let (mut a, mut b) = (thermostat(), thermostat());
    assert_eq!(poll(&mut a, d), poll(&mut b, e));
    for key in ["target_state", "target_temp", "heat_threshold", "cool_threshold"] {
        let (p, q) = (remembered(&a, key).unwrap(), remembered(&b, key).unwrap());
        assert_eq!((p.0, q.0), (1, 7001));
        assert_eq!(p.1, q.1);
    }
    a.scratch.insert("iids", Value::Null);
    b.scratch.insert("iids", Value::Null);
    assert_eq!(members(&a.scratch), members(&b.scratch));
}

#[test]
fn spellings_do_not_matter_to_a_sensor() {
    let d = database(1, 3, 1, 1);
    let e = respelled(&d, 0);
    let (mut a, mut b) = (sensor(4503), sensor(4503));
    assert_eq!(poll(&mut a, d), poll(&mut b, e));
    assert_eq!(a, b);
}

#[test]
fn a_second_poll_repeats_everything_but_occupancy() {
    for mut inst in [thermostat(), sensor(4503)] {
        let first = poll(&mut inst, database(1, 3, 1, 1));
        let scratch = inst.scratch.copy();
        let second = poll(&mut inst, database(1, 3, 1, 1));
        let rest: Vec<String> =
            first.iter().filter(|l| !l.contains("detected_changed")).cloned().collect();
        assert_eq!(second, rest);
        assert_eq!(second.len() + 1, first.len());
        assert_eq!(inst.scratch, scratch);
    }
}

#[test]
fn reports_are_what_events_say() {
    let d = database(1, 3, 1, 1);
    let (mut a, mut b) = (thermostat(), thermostat());
    assert_eq!(told(&thermostat_report(&mut a, &d)), poll(&mut b, d.copy()));
    assert_eq!(a, b);
    let (mut a, mut b) = (sensor(4503), sensor(4503));
    assert_eq!(told(&sensor_report(&mut a, &d, 4503)), poll(&mut b, d.copy()));
    assert_eq!(a, b);
}

#[test]
fn small_calls_say_what_they_are_for() {
    assert_eq!(
        told(&[
            online(4),
            offline(5),
            notify_f(6, "n", "p", Double { bits: 1.25f64.to_bits() }),
        ]),
        vec![
            r#"notify 4 online_changed {"online":true}"#,
            r#"notify 5 online_changed {"online":false}"#,
            r#"notify 6 n {"p":1.25}"#,
        ]
    );
    let mut inst = thermostat();
    assert_eq!(
        told(&occupancy(&mut inst, 7, "k", false)),
        vec![r#"notify 7 detected_changed {"detected":false}"#]
    );
    assert!(occupancy(&mut inst, 7, "k", false).is_empty());
}

// ---------------------------------------------------------------------------------------
// Commands
// ---------------------------------------------------------------------------------------

#[test]
fn a_sensor_is_read_only() {
    let mut inst = sensor(4503);
    let out = ask(&mut inst, "set_mode", r#"{"mode": "heat"}"#);
    assert_eq!(out, vec!["warn ecobee-hap: a room sensor is read-only, got `set_mode`"]);
    assert_eq!(inst, sensor(4503));
}

#[test]
fn nothing_is_written_before_a_read() {
    let mut inst = thermostat();
    let out = ask(&mut inst, "set_mode", r#"{"mode": "heat"}"#);
    assert_eq!(
        out,
        vec![
            "warn ecobee-hap: nothing read from the thermostat yet — it will accept commands \
             once its first poll comes back"
        ]
    );
    assert_eq!(inst, thermostat());
}

#[test]
fn a_mode_is_written_where_it_was_read() {
    let mut inst = thermostat();
    poll(&mut inst, database(4502, 3, 1, 1));
    for (word, n) in [("off", 0), ("heat", 1), ("cool", 2), ("auto", 3)] {
        let out = ask(&mut inst, "set_mode", &format!(r#"{{"mode": "{word}"}}"#));
        let body = format!(r#"{{"characteristics":[{{"aid":4502,"iid":18,"value":{n}}}]}}"#);
        assert_eq!(
            out,
            vec![
                format!("PUT hap://10.0.0.7:4711/characteristics {HEADERS} {body}"),
                format!(r#"notify 1 mode_changed {{"mode":"{word}"}}"#),
            ]
        );
        assert_eq!(inst.scratch.get("mode"), Some(&Value::text(word)));
    }
}

#[test]
fn a_mode_that_makes_no_sense_is_refused() {
    let mut inst = thermostat();
    poll(&mut inst, database(1, 3, 1, 1));
    for (args, warning) in [
        ("{}", "warn ecobee-hap: no mode"),
        (r#"{"mode": 1}"#, "warn ecobee-hap: no mode"),
        (r#"{"mode": "party"}"#, "warn ecobee-hap: unknown mode `party`"),
    ] {
        assert_eq!(ask(&mut inst, "set_mode", args), vec![warning]);
        assert_eq!(inst.scratch.get("mode"), Some(&Value::text("auto")));
    }
    let mut inst = thermostat();
    inst.scratch.insert("iids", Value::Object(Object::new()));
    assert_eq!(
        ask(&mut inst, "set_mode", r#"{"mode": "heat"}"#),
        vec!["warn ecobee-hap: no target state characteristic"]
    );
    assert_eq!(inst.scratch.get("mode"), None);
}

#[test]
fn a_setpoint_in_auto_moves_its_end_of_the_band() {
    let mut inst = thermostat();
    poll(&mut inst, database(1, 3, 1, 1));
    for (which, iid) in [("heat", 23), ("cool", 22)] {
        let out = ask(&mut inst, &format!("set_{which}_setpoint"), r#"{"celsius": 20.5}"#);
        let body = format!(r#"{{"characteristics":[{{"aid":1,"iid":{iid},"value":20.5}}]}}"#);
        assert_eq!(
            out,
            vec![
                format!("PUT hap://10.0.0.7:4711/characteristics {HEADERS} {body}"),
                format!(r#"notify 1 setpoint_changed {{"celsius":20.5,"which":"{which}"}}"#),
                format!("state 1 {which}_setpoint_c 20.5"),
            ]
        );
    }
}

#[test]
fn a_setpoint_outside_auto_is_the_single_one() {
    for mode in [0, 1, 2] {
        let mut inst = thermostat();
        poll(&mut inst, database(1, mode, 1, 1));
        for which in ["heat", "cool"] {
            let out = ask(&mut inst, &format!("set_{which}_setpoint"), r#"{"celsius": 20}"#);
            let body = r#"{"characteristics":[{"aid":1,"iid":20,"value":20.0}]}"#;
            assert_eq!(
                out,
                vec![
                    format!("PUT hap://10.0.0.7:4711/characteristics {HEADERS} {body}"),
                    format!(r#"notify 1 setpoint_changed {{"celsius":20.0,"which":"{which}"}}"#),
                    "state 1 setpoint_c 20.0".to_string(),
                ]
            );
        }
    }
}

#[test]
fn a_setpoint_follows_the_mode_that_was_set() {
    let mut inst = thermostat();
    poll(&mut inst, database(1, 1, 1, 1));
    ask(&mut inst, "set_mode", r#"{"mode": "auto"}"#);
    let out = ask(&mut inst, "set_cool_setpoint", r#"{"celsius": 25.5}"#);
    assert!(out[0].contains(r#""iid":22"#));
    assert_eq!(out[2], "state 1 cool_setpoint_c 25.5");
}

#[test]
fn a_setpoint_without_a_place_or_a_value_is_refused() {
    let mut inst = thermostat();
    inst.scratch.insert("iids", Value::Object(Object::new()));
    assert_eq!(
        ask(&mut inst, "set_heat_setpoint", "{}"),
        vec!["warn ecobee-hap: no celsius value"]
    );
    assert_eq!(
        ask(&mut inst, "set_heat_setpoint", r#"{"celsius": "20"}"#),
        vec!["warn ecobee-hap: no celsius value"]
    );
    assert_eq!(
        ask(&mut inst, "set_heat_setpoint", r#"{"celsius": 20}"#),
        vec!["warn ecobee-hap: no target temperature"]
    );
    inst.scratch.insert("mode", Value::text("auto"));
    assert_eq!(
        ask(&mut inst, "set_heat_setpoint", r#"{"celsius": 20}"#),
        vec!["warn ecobee-hap: this thermostat has no heat_threshold characteristic"]
    );
    assert_eq!(
        ask(&mut inst, "set_cool_setpoint", r#"{"celsius": 20}"#),
        vec!["warn ecobee-hap: this thermostat has no cool_threshold characteristic"]
    );
}

#[test]
fn an_unknown_command_is_refused() {
    let mut inst = thermostat();
    inst.scratch.insert("iids", Value::Object(Object::new()));
    assert_eq!(ask(&mut inst, "dance", "{}"), vec!["warn ecobee-hap: unhandled `dance`"]);
}

#[test]
fn a_write_without_a_pairing_warns_and_still_tells() {
    let mut inst = thermostat();
    poll(&mut inst, database(1, 1, 1, 1));
    inst.properties = Object::new();
    assert_eq!(
        ask(&mut inst, "set_mode", r#"{"mode": "cool"}"#),
        vec![
            "warn ecobee-hap: this thermostat is not paired — run its setup again",
            r#"notify 1 mode_changed {"mode":"cool"}"#,
        ]
    );
}

#[test]
fn commands_keep_the_places() {
    let mut inst = thermostat();
    poll(&mut inst, database(1, 3, 1, 1));
    let places = inst.scratch.get("iids").unwrap().copy();
    for (cmd, args) in [
        ("set_mode", r#"{"mode": "off"}"#),
        ("set_mode", r#"{"mode": "?"}"#),
        ("set_heat_setpoint", r#"{"celsius": 19}"#),
        ("dance", "{}"),
    ] {
        let out = ask(&mut inst, cmd, args);
        assert!(out.iter().skip(1).all(|l| !l.starts_with("PUT")));
        assert_eq!(inst.scratch.get("iids"), Some(&places));
    }
}

#[test]
fn a_setpoint_is_shown_where_it_is_read() {
    for (mode, cmd, key) in [
        (1, "set_heat_setpoint", "setpoint_c"),
        (2, "set_cool_setpoint", "setpoint_c"),
        (3, "set_heat_setpoint", "heat_setpoint_c"),
        (3, "set_cool_setpoint", "cool_setpoint_c"),
    ] {
        let mut inst = thermostat();
        let read = poll(&mut inst, database(1, mode, 0, 0));
        let shown = ask(&mut inst, cmd, r#"{"celsius": 20}"#);
        assert!(read.iter().any(|l| l.starts_with(&format!("state 1 {key} "))));
        assert!(shown[2].starts_with(&format!("state 1 {key} ")));
    }
}
