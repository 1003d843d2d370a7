//! The driver's answers to its host.

use crate::double::Double;
use crate::json::{double_json, member, Json, Number};
use crate::model::accessory::{accessories, mode_value};
use crate::model::host::{Call, Instance};
use crate::model::report::{notify, sensor_report, thermostat_report, Progress};
use crate::model::request;
use crate::model::request::{authorised, target};
use vstd::prelude::*;

verus! {

/// A device has come up: read the accessory database.
pub open spec fn bind(inst: Instance) -> Seq<Call> {
    match authorised(inst.properties, "/accessories"@, "GET"@) {
        Some(request) => seq![Call::Http(request)],
        None => seq![
            Call::Warn("ecobee-hap: set this thermostat up through its HomeKit pairing flow first"@),
        ],
    }
}

/// The accessory number of a room sensor; the thermostat has none.
pub open spec fn sensor_aid(inst: Instance) -> Option<u64> {
    match member(inst.properties, "Accessory aid"@) {
        Some(v) => v.unsigned(),
        None => None,
    }
}

/// Only a warning, with nothing remembered.
pub open spec fn refuse(inst: Instance, message: Seq<char>) -> Progress {
    Progress { scratch: inst.scratch, out: seq![Call::Warn(message)] }
}

/// The string argument of a command.
pub open spec fn text_argument(args: Map<Seq<char>, Json>, key: Seq<char>) -> Option<Seq<char>> {
    match member(args, key) {
        Some(v) => v.text(),
        None => None,
    }
}

/// The number argument of a command.
pub open spec fn double_argument(args: Map<Seq<char>, Json>, key: Seq<char>) -> Option<Double> {
    match member(args, key) {
        Some(v) => v.double(),
        None => None,
    }
}

/// Change the mode.
pub open spec fn set_mode(inst: Instance, args: Map<Seq<char>, Json>) -> Progress {
    match text_argument(args, "mode"@) {
        None => refuse(inst, "ecobee-hap: no mode"@),
        Some(mode) => match mode_value(mode) {
            None => refuse(inst, "ecobee-hap: unknown mode `"@ + mode + "`"@),
            Some(v) => match target(
                inst.scratch,
                "target_state"@,
                Json::Number(Number::Unsigned(v as u64)),
            ) {
                None => refuse(inst, "ecobee-hap: no target state characteristic"@),
                Some(t) => Progress {
                    scratch: inst.scratch.insert("mode"@, Json::Text(mode)),
                    out: request::write(inst.properties, seq![t]).push(
                        notify(1, "mode_changed"@, "mode"@, Json::Text(mode)),
                    ),
                },
            },
        },
    }
}

/// Whether the thermostat is known to be in auto.
pub open spec fn in_auto(inst: Instance) -> bool {
    member(inst.scratch, "mode"@) == Some(Json::Text("auto"@))
}

/// The characteristic that a setpoint is written to: an end of the band in auto, the single
/// target otherwise.
pub open spec fn setpoint_key(auto: bool, heating: bool) -> Seq<char> {
    if !auto {
        "target_temp"@
    } else if heating {
        "heat_threshold"@
    } else {
        "cool_threshold"@
    }
}

/// The state key that a setpoint is shown under.
pub open spec fn shown_key(auto: bool, heating: bool) -> Seq<char> {
    if !auto {
        "setpoint_c"@
    } else if heating {
        "heat_setpoint_c"@
    } else {
        "cool_setpoint_c"@
    }
}

/// Change a setpoint.
pub open spec fn set_setpoint(
    inst: Instance,
    args: Map<Seq<char>, Json>,
    heating: bool,
) -> Progress {
    match double_argument(args, "celsius"@) {
        None => refuse(inst, "ecobee-hap: no celsius value"@),
        Some(c) => {
            let auto = in_auto(inst);
            let key = setpoint_key(auto, heating);
            match target(inst.scratch, key, double_json(c)) {
                None => refuse(
                    inst,
                    if auto {
                        "ecobee-hap: this thermostat has no "@ + key + " characteristic"@
                    } else {
                        "ecobee-hap: no target temperature"@
                    },
                ),
                Some(t) => Progress {
                    scratch: inst.scratch,
                    out: request::write(inst.properties, seq![t]).push(
                        Call::Notify {
                            proxy: 1,
                            name: "setpoint_changed"@,
                            args: map![
                                "which"@ => Json::Text(
                                    if heating {
                                        "heat"@
                                    } else {
                                        "cool"@
                                    },
                                ),
                                "celsius"@ => double_json(c),
                            ],
                        },
                    ).push(
                        Call::SetState {
                            proxy: 1,
                            key: shown_key(auto, heating),
                            value: double_json(c),
                        },
                    ),
                },
            }
        },
    }
}

/// A command from a proxy.
pub open spec fn command(inst: Instance, cmd: Seq<char>, args: Map<Seq<char>, Json>) -> Progress {
    if sensor_aid(inst) is Some {
        refuse(inst, "ecobee-hap: a room sensor is read-only, got `"@ + cmd + "`"@)
    } else if member(inst.scratch, "iids"@) is None {
        refuse(
            inst,
            "ecobee-hap: nothing read from the thermostat yet — it will accept commands once its first poll comes back"@,
        )
    } else if cmd == "set_mode"@ {
        set_mode(inst, args)
    } else if cmd == "set_heat_setpoint"@ {
        set_setpoint(inst, args, true)
    } else if cmd == "set_cool_setpoint"@ {
        set_setpoint(inst, args, false)
    } else {
        refuse(inst, "ecobee-hap: unhandled `"@ + cmd + "`"@)
    }
}

/// Something came back. Only the answer to a read says anything.
pub open spec fn event(inst: Instance, note: Seq<char>, args: Map<Seq<char>, Json>) -> Progress {
    let silent = Progress { scratch: inst.scratch, out: seq![] };
    if note != "http_response"@ {
        silent
    } else {
        match member(args, "body"@) {
            None => silent,
            Some(doc) => if accessories(doc).len() == 0 {
                silent
            } else {
                match sensor_aid(inst) {
                    Some(aid) => sensor_report(inst.scratch, doc, aid),
                    None => thermostat_report(inst.scratch, doc),
                }
            },
        }
    }
}

} // verus!
