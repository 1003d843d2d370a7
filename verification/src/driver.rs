//! The driver's answers to its host.

use crate::accessory::{accessories, mode_value};
use crate::double::Double;
use crate::host::{calls, offers, Candidate, HostCall, Instance, LocalId, SetupStep};
use crate::json::{elements, Object, Value};
use crate::model::driver as model;
use crate::model::request as request_model;
use crate::report::{progress, sensor_report, thermostat_report};
use crate::request;
use crate::request::{authorised, target};
use crate::setup::{run, turn};
use crate::text::{join, same};
use vstd::prelude::*;
use vstd::string::*;

verus! {

/// The thermostat's driver: the accessory, where pairing lives.
pub const THERMOSTAT: &'static str = "ecobee.hap.thermostat";

/// A room sensor's driver: a sensor the thermostat bridges.
pub const SENSOR: &'static str = "ecobee.hap.sensor";

/// The driver of both. It holds nothing: what a device remembers stands in its instance.
#[derive(Debug, Default)]
pub struct EcobeeHap;

/// Only a warning.
fn warning(message: &str) -> (r: Vec<HostCall>)
    ensures
        calls(r@) == seq![crate::model::host::Call::Warn(message@)],
{
    let mut r: Vec<HostCall> = Vec::new();
    r.push(HostCall::warn(message));
    assert(calls(r@) =~= seq![crate::model::host::Call::Warn(message@)]);
    r
}

/// A warning that quotes what was asked for.
fn quoting(start: &str, quoted: &str) -> (r: String)
    ensures
        r@ == start@ + quoted@ + "`"@,
{
    join(start, quoted).concat("`")
}

/// The accessory number of a room sensor.
fn sensor_aid(inst: &Instance) -> (r: Option<u64>)
    ensures
        r == model::sensor_aid(inst@),
{
    match inst.properties.get("Accessory aid") {
        Some(v) => v.as_u64(),
        None => None,
    }
}

/// One written value.
fn write_one(inst: &Instance, t: Value) -> (r: Vec<HostCall>)
    ensures
        calls(r@) == request_model::write(inst@.properties, seq![t@]),
{
    let mut values: Vec<Value> = Vec::new();
    values.push(t);
    proof {
        crate::json::lemma_elements(values@);
        assert(elements(values@) =~= seq![t@]);
    }
    request::write(inst, values)
}

impl EcobeeHap {
    /// A device has come up. Room sensors ask too, rather than waiting to be handed the
    /// thermostat's answer: an answer goes to the device that asked for it, so a sensor that
    /// stayed quiet would hold its startup reading forever.
    pub fn on_bind(&self, inst: &mut Instance) -> (r: Vec<HostCall>)
        ensures
            *final(inst) == *old(inst),
            calls(r@) == model::bind(old(inst)@),
    {
        match authorised(inst, "/accessories", "GET") {
            Some(request) => {
                let mut r: Vec<HostCall> = Vec::new();
                r.push(HostCall::Http(request));
                assert(calls(r@) =~= model::bind(inst@));
                r
            },
            None => warning(
                "ecobee-hap: set this thermostat up through its HomeKit pairing flow first",
            ),
        }
    }

    fn set_mode(&self, inst: &mut Instance, args: &Object) -> (r: Vec<HostCall>)
        ensures
            final(inst)@.properties == old(inst)@.properties,
            progress(*final(inst), r@) == model::set_mode(old(inst)@, args@),
    {
        let mode: &str = match args.get("mode") {
            Some(v) => match v.as_str() {
                Some(mode) => mode,
                None => return warning("ecobee-hap: no mode"),
            },
            None => return warning("ecobee-hap: no mode"),
        };
        let v: u8 = match mode_value(mode) {
            Some(v) => v,
            None => return warning(quoting("ecobee-hap: unknown mode `", mode).as_str()),
        };
        let t: Value = match target(inst, "target_state", Value::unsigned(v as u64)) {
            Some(t) => t,
            None => return warning("ecobee-hap: no target state characteristic"),
        };
        inst.scratch.insert("mode", Value::text(mode));
        let mut out: Vec<HostCall> = write_one(inst, t);
        let ghost written = out@;
        out.push(HostCall::notify(1, "mode_changed", "mode", Value::text(mode)));
        assert(calls(out@) =~= calls(written).push(out@.last()@));
        out
    }

    fn set_setpoint(&self, inst: &Instance, args: &Object, heating: bool) -> (r: Vec<HostCall>)
        ensures
            progress(*inst, r@) == model::set_setpoint(inst@, args@, heating),
    {
        let c: Double = match args.get("celsius") {
            Some(v) => match v.as_double() {
                Some(c) => c,
                None => return warning("ecobee-hap: no celsius value"),
            },
            None => return warning("ecobee-hap: no celsius value"),
        };
        // In auto the thermostat holds a band, and HomeKit keeps that band in two threshold
        // characteristics; the single target is simply ignored. In any other mode it is the
        // other way round. Writing the wrong one is accepted and then silently does nothing,
        // which is the worst way to fail.
        let auto: bool = match inst.scratch.get("mode") {
            Some(v) => match v.as_str() {
                Some(mode) => same(mode, "auto"),
                None => false,
            },
            None => false,
        };
        let key: &str = if !auto {
            "target_temp"
        } else if heating {
            "heat_threshold"
        } else {
            "cool_threshold"
        };
        let t: Value = match target(inst, key, Value::float(c)) {
            Some(t) => t,
            None => {
                if auto {
                    let message: String = join("ecobee-hap: this thermostat has no ", key).concat(
                        " characteristic",
                    );
                    return warning(message.as_str());
                } else {
                    return warning("ecobee-hap: no target temperature");
                }
            },
        };
        let mut told = Object::new();
        told.insert(
            "which",
            Value::text(
                if heating {
                    "heat"
                } else {
                    "cool"
                },
            ),
        );
        told.insert("celsius", Value::float(c));
        let mut out: Vec<HostCall> = write_one(inst, t);
        let ghost written = out@;
        out.push(
            HostCall::Notify { proxy: 1, name: "setpoint_changed".to_owned(), args: told },
        );
        assert(calls(out@) =~= calls(written).push(out@.last()@));
        let ghost written = out@;
        // The notification carries which setpoint in a sibling field, so the state key it
        // updates cannot be inferred from a parameter name. It mirrors the read side: in auto
        // the band moved, otherwise the single setpoint did.
        let shown: &str = if !auto {
            "setpoint_c"
        } else if heating {
            "heat_setpoint_c"
        } else {
            "cool_setpoint_c"
        };
        out.push(HostCall::set_state(1, shown, Value::float(c)));
        assert(calls(out@) =~= calls(written).push(out@.last()@));
        out
    }

    /// A command from a proxy. Only the thermostat takes any; a room sensor is read-only.
    pub fn on_command(
        &self,
        inst: &mut Instance,
        _proxy: LocalId,
        cmd: &str,
        args: &Object,
    ) -> (r: Vec<HostCall>)
        ensures
            final(inst)@.properties == old(inst)@.properties,
            progress(*final(inst), r@) == model::command(old(inst)@, cmd@, args@),
    {
        if sensor_aid(inst).is_some() {
            return warning(
                quoting("ecobee-hap: a room sensor is read-only, got `", cmd).as_str(),
            );
        }
        if inst.scratch.get("iids").is_none() {
            return warning(
                "ecobee-hap: nothing read from the thermostat yet — it will accept commands once its first poll comes back",
            );
        }
        if same(cmd, "set_mode") {
            self.set_mode(inst, args)
        } else if same(cmd, "set_heat_setpoint") {
            self.set_setpoint(inst, args, true)
        } else if same(cmd, "set_cool_setpoint") {
            self.set_setpoint(inst, args, false)
        } else {
            warning(quoting("ecobee-hap: unhandled `", cmd).as_str())
        }
    }

    /// A read came back. One document describes the thermostat and every sensor it bridges, so
    /// each device picks out its own part of it. A write is answered without a document, and
    /// there is nothing to read from that.
    pub fn on_event(
        &self,
        inst: &mut Instance,
        _control: LocalId,
        note: &str,
        args: &Object,
    ) -> (r: Vec<HostCall>)
        ensures
            final(inst)@.properties == old(inst)@.properties,
            progress(*final(inst), r@) == model::event(old(inst)@, note@, args@),
    {
        let none: Vec<HostCall> = Vec::new();
        assert(calls(none@) =~= seq![]);
        if !same(note, "http_response") {
            return none;
        }
        match args.get("body") {
            None => none,
            Some(doc) => {
                let list: Vec<&Value> = accessories(doc);
                assert(list@.len() == crate::json::all_seen(list@).len());
                if list.len() == 0 {
                    return none;
                }
                match sensor_aid(inst) {
                    Some(aid) => sensor_report(inst, doc, aid),
                    None => thermostat_report(inst, doc),
                }
            },
        }
    }

    /// One turn of setup. Sensors are found by browsing the thermostat, never set up on their
    /// own.
    pub fn discover(&self, driver_id: &str, state: &Value, input: &Object) -> (r: (SetupStep, Value))
        ensures
            turn(r) == crate::model::setup::discover(driver_id@, state@, input@),
    {
        if !same(driver_id, THERMOSTAT) {
            let candidates: Vec<Candidate> = Vec::new();
            assert(offers(candidates@) =~= seq![]);
            return (SetupStep::Done { candidates }, Value::Null);
        }
        run(state, input)
    }
}

} // verus!
