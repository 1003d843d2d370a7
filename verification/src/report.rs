//! Telling the host what a read of the accessory database says.

use crate::accessory::{
    accessories, aid_of, characteristics, find, has_service, hvac_state, mode_name, number,
    service_type, services, views, Characteristic, CH_COOL_THRESHOLD, CH_CURRENT_HUMIDITY,
    CH_CURRENT_STATE, CH_CURRENT_TEMP, CH_DISPLAY_UNITS, CH_HEAT_THRESHOLD, CH_OCCUPANCY,
    CH_TARGET_STATE, CH_TARGET_TEMP, SRV_OCCUPANCY, SRV_TEMPERATURE, SRV_THERMOSTAT,
};
use crate::double::Double;
use crate::host::{calls, HostCall, Instance, LocalId};
use crate::json::{all_seen, seen, Value};
use crate::model::report as model;
use crate::request::remember;
use crate::text::same;
use vstd::prelude::*;

verus! {

/// What a device remembers and what it has told its host.
pub open spec fn progress(inst: Instance, out: Seq<HostCall>) -> model::Progress {
    model::Progress { scratch: inst@.scratch, out: calls(out) }
}

/// One more call.
fn tell(out: &mut Vec<HostCall>, call: HostCall)
    ensures
        calls(final(out)@) == calls(old(out)@).push(call@),
{
    let ghost before = out@;
    out.push(call);
    assert(calls(out@) =~= calls(before).push(call@));
}

/// A number for a proxy.
pub fn notify_f(proxy: LocalId, name: &str, param: &str, value: Double) -> (c: HostCall)
    ensures
        c@ == model::notify(proxy, name@, param@, crate::json::double_json(value)),
{
    HostCall::notify(proxy, name, param, Value::float(value))
}

/// A device can be reached.
pub fn online(proxy: LocalId) -> (c: HostCall)
    ensures
        c@ == model::online(proxy),
{
    HostCall::notify(proxy, "online_changed", "online", Value::Bool(true))
}

/// A device cannot be reached.
pub fn offline(proxy: LocalId) -> (c: HostCall)
    ensures
        c@ == model::offline(proxy),
{
    HostCall::notify(proxy, "online_changed", "online", Value::Bool(false))
}

/// Report occupancy only when it changed. A poll every thirty seconds would otherwise announce
/// "still detected" forever, and every one of those would trigger a rule again.
pub fn occupancy(inst: &mut Instance, proxy: LocalId, key: &str, detected: bool) -> (r: Vec<HostCall>)
    ensures
        final(inst)@.properties == old(inst)@.properties,
        progress(*final(inst), r@) == model::occupancy(
            model::Progress { scratch: old(inst)@.scratch, out: seq![] },
            proxy,
            key@,
            detected,
        ),
{
    let mut r: Vec<HostCall> = Vec::new();
    assert(calls(r@) =~= seq![]);
    let known: Option<bool> = match inst.scratch.get(key) {
        Some(v) => v.as_bool(),
        None => None,
    };
    if known == Some(detected) {
        return r;
    }
    inst.scratch.insert(key, Value::Bool(detected));
    tell(&mut r, HostCall::notify(proxy, "detected_changed", "detected", Value::Bool(detected)));
    r
}

/// A temperature, to one decimal, where there is one.
fn temperature(
    out: &mut Vec<HostCall>,
    proxy: LocalId,
    name: &str,
    param: &str,
    chars: &Vec<Characteristic>,
)
    ensures
        calls(final(out)@) == calls(old(out)@) + model::temperature(
            proxy,
            name@,
            param@,
            views(chars@),
        ),
{
    let ghost before = calls(out@);
    match number(chars, CH_CURRENT_TEMP) {
        Some(c) => {
            tell(out, notify_f(proxy, name, param, c.tenths()));
        },
        None => {},
    }
    assert(calls(out@) =~= before + model::temperature(proxy, name@, param@, views(chars@)));
}

/// A setpoint, to one decimal, where there is one.
fn setpoint(out: &mut Vec<HostCall>, key: &str, v: Option<Double>)
    ensures
        calls(final(out)@) == calls(old(out)@) + model::setpoint(key@, v),
{
    let ghost before = calls(out@);
    match v {
        Some(v) => {
            tell(out, HostCall::set_state(1, key, Value::float(v.tenths())));
        },
        None => {},
    }
    assert(calls(out@) =~= before + model::setpoint(key@, v));
}

/// The humidity, where there is one.
fn humidity(out: &mut Vec<HostCall>, chars: &Vec<Characteristic>)
    ensures
        calls(final(out)@) == calls(old(out)@) + model::humidity(views(chars@)),
{
    let ghost before = calls(out@);
    match number(chars, CH_CURRENT_HUMIDITY) {
        Some(h) => {
            tell(out, notify_f(1, "humidity_changed", "percent", h));
        },
        None => {},
    }
    assert(calls(out@) =~= before + model::humidity(views(chars@)));
}

/// The mode, where there is one.
fn mode(out: &mut Vec<HostCall>, chars: &Vec<Characteristic>)
    ensures
        calls(final(out)@) == calls(old(out)@) + model::mode(views(chars@)),
{
    let ghost before = calls(out@);
    match number(chars, CH_TARGET_STATE) {
        Some(m) => {
            tell(out, HostCall::notify(1, "mode_changed", "mode", Value::text(mode_name(m))));
        },
        None => {},
    }
    assert(calls(out@) =~= before + model::mode(views(chars@)));
}

/// What the equipment is doing, where it says so.
fn equipment(out: &mut Vec<HostCall>, chars: &Vec<Characteristic>)
    ensures
        calls(final(out)@) == calls(old(out)@) + model::equipment(views(chars@)),
{
    let ghost before = calls(out@);
    match number(chars, CH_CURRENT_STATE) {
        Some(s) => {
            tell(
                out,
                HostCall::notify(1, "hvac_state_changed", "state", Value::text(hvac_state(s))),
            );
        },
        None => {},
    }
    assert(calls(out@) =~= before + model::equipment(views(chars@)));
}

/// What the thermostat displays. Read, never assumed: a unit is a property of the device in
/// front of someone, not of the protocol.
fn display_unit(out: &mut Vec<HostCall>, chars: &Vec<Characteristic>)
    ensures
        calls(final(out)@) == calls(old(out)@) + model::display_unit(views(chars@)),
{
    let ghost before = calls(out@);
    match number(chars, CH_DISPLAY_UNITS) {
        Some(u) => {
            let unit: &str = if u.whole() == 1 {
                "°F"
            } else {
                "°C"
            };
            tell(out, HostCall::set_state(1, "display_unit", Value::text(unit)));
        },
        None => {},
    }
    assert(calls(out@) =~= before + model::display_unit(views(chars@)));
}

/// The setpoints in force. In auto the thermostat holds a band and both thresholds are real.
/// In heat or cool it holds one number, and reporting a heat and a cool setpoint would invent
/// a second one nobody set. Off holds nothing.
fn setpoints(out: &mut Vec<HostCall>, chars: &Vec<Characteristic>)
    ensures
        calls(final(out)@) == calls(old(out)@) + model::setpoints(views(chars@)),
{
    let ghost before = calls(out@);
    match number(chars, CH_TARGET_STATE) {
        Some(m) => {
            let state: i64 = m.whole();
            if state == 3 {
                setpoint(out, "heat_setpoint_c", number(chars, CH_HEAT_THRESHOLD));
                setpoint(out, "cool_setpoint_c", number(chars, CH_COOL_THRESHOLD));
            } else if state != 0 {
                setpoint(out, "setpoint_c", number(chars, CH_TARGET_TEMP));
            }
        },
        None => {},
    }
    assert(calls(out@) =~= before + model::setpoints(views(chars@)));
}

/// Everything a thermostat service tells the host.
fn reading(out: &mut Vec<HostCall>, chars: &Vec<Characteristic>)
    ensures
        calls(final(out)@) == calls(old(out)@) + model::reading(views(chars@)),
{
    let ghost start = calls(out@);
    temperature(out, 1, "temperature_changed", "celsius", chars);
    humidity(out, chars);
    mode(out, chars);
    equipment(out, chars);
    display_unit(out, chars);
    setpoints(out, chars);
    assert(calls(out@) =~= start + model::reading(views(chars@)));
}

/// Remember what a thermostat service says for later commands.
fn learn(inst: &mut Instance, chars: &Vec<Characteristic>)
    ensures
        final(inst)@.properties == old(inst)@.properties,
        final(inst)@.scratch == model::learned(old(inst)@.scratch, views(chars@)),
{
    remember(inst, "target_state", find(chars, CH_TARGET_STATE));
    remember(inst, "target_temp", find(chars, CH_TARGET_TEMP));
    remember(inst, "heat_threshold", find(chars, CH_HEAT_THRESHOLD));
    remember(inst, "cool_threshold", find(chars, CH_COOL_THRESHOLD));
    match number(chars, CH_TARGET_STATE) {
        Some(m) => {
            inst.scratch.insert("mode", Value::text(mode_name(m)));
        },
        None => {},
    }
}

/// The occupancy that a service reports, where it does.
fn presence(
    inst: &mut Instance,
    out: &mut Vec<HostCall>,
    proxy: LocalId,
    key: &str,
    chars: &Vec<Characteristic>,
)
    ensures
        final(inst)@.properties == old(inst)@.properties,
        progress(*final(inst), final(out)@) == model::presence(
            progress(*old(inst), old(out)@),
            proxy,
            key@,
            views(chars@),
        ),
{
    match number(chars, CH_OCCUPANCY) {
        Some(v) => {
            let ghost before = out@;
            let mut news: Vec<HostCall> = occupancy(inst, proxy, key, v.is_positive());
            let ghost told = news@;
            out.append(&mut news);
            assert(calls(out@) =~= calls(before) + calls(told));
            assert(progress(*inst, out@) =~= model::presence(
                progress(*old(inst), before),
                proxy,
                key@,
                views(chars@),
            ));
        },
        None => {},
    }
}

/// One service of the thermostat's accessory.
fn thermostat_service(
    inst: &mut Instance,
    out: &mut Vec<HostCall>,
    accessory: &Value,
    service: &Value,
)
    ensures
        final(inst)@.properties == old(inst)@.properties,
        progress(*final(inst), final(out)@) == model::thermostat_service(
            accessory@,
            service@,
            progress(*old(inst), old(out)@),
        ),
{
    let chars: Vec<Characteristic> = characteristics(accessory, service);
    match service_type(service) {
        Some(ty) => {
            if same(ty.as_str(), SRV_THERMOSTAT) {
                learn(inst, &chars);
                reading(out, &chars);
            } else if same(ty.as_str(), SRV_OCCUPANCY) {
                presence(inst, out, 2, "built_in", &chars);
            } else if same(ty.as_str(), SRV_TEMPERATURE) {
                temperature(out, 3, "value_changed", "value", &chars);
            }
        },
        None => {},
    }
}

/// One service of a room sensor's accessory.
fn sensor_service(inst: &mut Instance, out: &mut Vec<HostCall>, accessory: &Value, service: &Value)
    ensures
        final(inst)@.properties == old(inst)@.properties,
        progress(*final(inst), final(out)@) == model::sensor_service(
            accessory@,
            service@,
            progress(*old(inst), old(out)@),
        ),
{
    let chars: Vec<Characteristic> = characteristics(accessory, service);
    match service_type(service) {
        Some(ty) => {
            if same(ty.as_str(), SRV_OCCUPANCY) {
                presence(inst, out, 1, "occupied", &chars);
            } else if same(ty.as_str(), SRV_TEMPERATURE) {
                temperature(out, 2, "value_changed", "value", &chars);
            }
        },
        None => {},
    }
}

/// The first accessory that has a service.
pub fn first_with<'a>(list: &Vec<&'a Value>, want: &str) -> (r: Option<&'a Value>)
    ensures
        seen(r) == model::first_with(all_seen(list@), want@),
{
    let n: usize = list.len();
    let ghost all = all_seen(list@);
    let mut i: usize = 0;
    assert(all.skip(0) == all);
    while i < n
        invariant
            i <= n == list@.len(),
            all == all_seen(list@),
            model::first_with(all, want@) == model::first_with(all.skip(i as int), want@),
        decreases n - i,
    {
        assert(all.skip(i as int)[0] == list@[i as int]@);
        assert(all.skip(i as int).drop_first() == all.skip(i + 1));
        if has_service(list[i], want) {
            return Some(list[i]);
        }
        i = i + 1;
    }
    None
}

/// The first accessory with a number.
pub fn first_numbered<'a>(list: &Vec<&'a Value>, aid: u64) -> (r: Option<&'a Value>)
    ensures
        seen(r) == model::first_numbered(all_seen(list@), aid),
{
    let n: usize = list.len();
    let ghost all = all_seen(list@);
    let mut i: usize = 0;
    assert(all.skip(0) == all);
    while i < n
        invariant
            i <= n == list@.len(),
            all == all_seen(list@),
            model::first_numbered(all, aid) == model::first_numbered(all.skip(i as int), aid),
        decreases n - i,
    {
        assert(all.skip(i as int)[0] == list@[i as int]@);
        assert(all.skip(i as int).drop_first() == all.skip(i + 1));
        if aid_of(list[i]) == aid {
            return Some(list[i]);
        }
        i = i + 1;
    }
    None
}

/// The thermostat's own reading: the thermostat service, plus whatever sensors sit on the same
/// accessory rather than on a bridged one.
pub fn thermostat_report(inst: &mut Instance, doc: &Value) -> (r: Vec<HostCall>)
    ensures
        final(inst)@.properties == old(inst)@.properties,
        progress(*final(inst), r@) == model::thermostat_report(old(inst)@.scratch, doc@),
{
    let mut out: Vec<HostCall> = Vec::new();
    let ghost start = inst@;
    assert(calls(out@) =~= seq![]);
    match first_with(&accessories(doc), SRV_THERMOSTAT) {
        Some(accessory) => {
            tell(&mut out, online(1));
            let list: Vec<&Value> = services(accessory);
            let ghost all = all_seen(list@);
            let ghost first = progress(*inst, out@);
            let n: usize = list.len();
            let mut i: usize = 0;
            while i < n
                invariant
                    i <= n == list@.len(),
                    all == all_seen(list@),
                    inst@.properties == start.properties,
                    progress(*inst, out@) == model::thermostat_services(
                        accessory@,
                        all.take(i as int),
                        first,
                    ),
                decreases n - i,
            {
                assert(all[i as int] == list@[i as int]@);
                assert(all.take(i + 1).drop_last() == all.take(i as int));
                thermostat_service(inst, &mut out, accessory, list[i]);
                i = i + 1;
            }
            assert(all.take(n as int) == all);
            assert(first.out =~= seq![model::online(1)]);
        },
        None => {
            tell(
                &mut out,
                HostCall::warn(
                    "ecobee-hap: nothing at this address has a thermostat — is it the right accessory?",
                ),
            );
            assert(progress(*inst, out@) =~= model::thermostat_report(start.scratch, doc@));
        },
    }
    out
}

/// One bridged room sensor's reading.
pub fn sensor_report(inst: &mut Instance, doc: &Value, aid: u64) -> (r: Vec<HostCall>)
    ensures
        final(inst)@.properties == old(inst)@.properties,
        progress(*final(inst), r@) == model::sensor_report(old(inst)@.scratch, doc@, aid),
{
    let mut out: Vec<HostCall> = Vec::new();
    let ghost start = inst@;
    assert(calls(out@) =~= seq![]);
    match first_numbered(&accessories(doc), aid) {
        Some(accessory) => {
            tell(&mut out, online(1));
            let list: Vec<&Value> = services(accessory);
            let ghost all = all_seen(list@);
            let ghost first = progress(*inst, out@);
            let n: usize = list.len();
            let mut i: usize = 0;
            while i < n
                invariant
                    i <= n == list@.len(),
                    all == all_seen(list@),
                    inst@.properties == start.properties,
                    progress(*inst, out@) == model::sensor_services(
                        accessory@,
                        all.take(i as int),
                        first,
                    ),
                decreases n - i,
            {
                assert(all[i as int] == list@[i as int]@);
                assert(all.take(i + 1).drop_last() == all.take(i as int));
                sensor_service(inst, &mut out, accessory, list[i]);
                i = i + 1;
            }
            assert(all.take(n as int) == all);
            assert(first.out =~= seq![model::online(1)]);
        },
        None => {
            // Out of range, or removed in the ecobee app. Reporting a stale reading would be
            // worse than reporting nothing.
            tell(&mut out, offline(1));
            assert(progress(*inst, out@) =~= model::sensor_report(start.scratch, doc@, aid));
        },
    }
    out
}

} // verus!
