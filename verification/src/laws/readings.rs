//! What answers tell and teach, from their JSON.

use crate::accessory::{CH_COOL_THRESHOLD, CH_HEAT_THRESHOLD, CH_TARGET_STATE, CH_TARGET_TEMP};
use crate::double::{above_zero, magnitude, to_tenths, truncated, Double};
use crate::json::{member, number_double, Json, Number};
use crate::laws::plain::{
    bears, count, items, lemma_aid, lemma_bears, lemma_measured, lemma_numbered, lemma_proper,
    lemma_typed, measured, measures, no_count, numbered, stands, stands_under, typed,
};
use crate::laws::reads::{law_remembered, lemma_keys};
use crate::laws::requests::{as_double, law_doubles_are_told, law_places_are_found, placed};
use crate::model::accessory::{accessories, characteristics, find, service_type, Characteristic};
use crate::model::driver::{event, sensor_aid};
use crate::model::host::{Call, Instance};
use crate::model::report::{
    display_unit, equipment, first_numbered, first_with, humidity, learned, mode, reading,
    sensor_report, sensor_service, sensor_services, setpoints, temperature, thermostat_report,
    thermostat_service, thermostat_services, Progress,
};
use crate::model::request::{places, remember, remembered};
use vstd::prelude::*;

verus! {

// ---------------------------------------------------------------------------------------
// Words for numbers
// ---------------------------------------------------------------------------------------

/// The whole part of a number.
pub open spec fn whole(n: Number) -> i64 {
    truncated(number_double(n).bits)
}

/// A number to one decimal, as it is told.
pub open spec fn in_tenths(n: Number) -> Json {
    let bits = to_tenths(number_double(n).bits);
    if magnitude(bits) < 0x7FF0_0000_0000_0000 {
        Json::Number(Number::Float(Double { bits }))
    } else {
        Json::Null
    }
}

/// The word for what a thermostat has been told to do.
pub open spec fn mode_word(n: Number) -> Seq<char> {
    if whole(n) == 1 {
        "heat"@
    } else if whole(n) == 2 {
        "cool"@
    } else if whole(n) == 3 {
        "auto"@
    } else {
        "off"@
    }
}

/// The word for what the equipment is doing right now.
pub open spec fn doing_word(n: Number) -> Seq<char> {
    if whole(n) == 1 {
        "heating"@
    } else if whole(n) == 2 {
        "cooling"@
    } else {
        "idle"@
    }
}

/// The unit on the wall.
pub open spec fn unit_word(n: Number) -> Seq<char> {
    if whole(n) == 1 {
        "°F"@
    } else {
        "°C"@
    }
}

/// Whether a number says that someone is there.
pub open spec fn someone(n: Number) -> bool {
    above_zero(number_double(n).bits)
}

/// Telling a proxy one thing.
pub open spec fn tells(proxy: u32, name: Seq<char>, param: Seq<char>, value: Json) -> Call {
    Call::Notify { proxy, name, args: map![param => value] }
}

/// Showing one thing on the thermostat.
pub open spec fn shows(key: Seq<char>, value: Json) -> Call {
    Call::SetState { proxy: 1, key, value }
}

/// A temperature, told to a proxy where there is one.
pub open spec fn warmth(
    n: Option<Number>,
    proxy: u32,
    name: Seq<char>,
    param: Seq<char>,
) -> Seq<Call> {
    match n {
        Some(n) => seq![tells(proxy, name, param, in_tenths(n))],
        None => seq![],
    }
}

/// A setpoint, shown where there is one.
pub open spec fn held(n: Option<Number>, key: Seq<char>) -> Seq<Call> {
    match n {
        Some(n) => seq![shows(key, in_tenths(n))],
        None => seq![],
    }
}

// ---------------------------------------------------------------------------------------
// The thermostat's services
// ---------------------------------------------------------------------------------------

/// What a thermostat service measures.
pub struct Readings {
    /// The temperature.
    pub temperature: Option<Number>,
    /// The humidity.
    pub humidity: Option<Number>,
    /// What it has been told to do.
    pub mode: Option<Number>,
    /// What the equipment is doing.
    pub doing: Option<Number>,
    /// The unit on the wall.
    pub unit: Option<Number>,
    /// The temperature to hold outside auto.
    pub target: Option<Number>,
    /// The lower end of the band to hold in auto.
    pub low: Option<Number>,
    /// The upper end of the band to hold in auto.
    pub high: Option<Number>,
}

/// A service of the thermostat type measures these.
pub open spec fn thermostat_reads(service: Json, r: Readings) -> bool {
    &&& typed(service, "4A"@)
    &&& measured(service, "11"@, r.temperature)
    &&& measured(service, "10"@, r.humidity)
    &&& measured(service, "33"@, r.mode)
    &&& measured(service, "F"@, r.doing)
    &&& measured(service, "36"@, r.unit)
    &&& measured(service, "35"@, r.target)
    &&& measured(service, "12"@, r.low)
    &&& measured(service, "D"@, r.high)
}

/// A thermostat service tells exactly what it measures, each thing in its own words and from its
/// own characteristic, in this order; and the setpoints that its mode holds.
pub proof fn law_a_thermostat_service_tells(
    accessory: Json,
    service: Json,
    p: Progress,
    r: Readings,
)
    requires
        thermostat_reads(service, r),
    ensures
        thermostat_service(accessory, service, p).out == p.out + (warmth(
            r.temperature,
            1,
            "temperature_changed"@,
            "celsius"@,
        ) + (match r.humidity {
            Some(n) => seq![tells(1, "humidity_changed"@, "percent"@, as_double(n))],
            None => seq![],
        }) + (match r.mode {
            Some(n) => seq![tells(1, "mode_changed"@, "mode"@, Json::Text(mode_word(n)))],
            None => seq![],
        }) + (match r.doing {
            Some(n) => seq![tells(1, "hvac_state_changed"@, "state"@, Json::Text(doing_word(n)))],
            None => seq![],
        }) + (match r.unit {
            Some(n) => seq![shows("display_unit"@, Json::Text(unit_word(n)))],
            None => seq![],
        }) + (match r.mode {
            Some(m) => if whole(m) == 3 {
                held(r.low, "heat_setpoint_c"@) + held(r.high, "cool_setpoint_c"@)
            } else if whole(m) == 0 {
                seq![]
            } else {
                held(r.target, "setpoint_c"@)
            },
            None => seq![],
        })),
{
    lemma_proper();
    lemma_typed(service, "4A"@);
    lemma_measured(accessory, service, "11"@, r.temperature);
    lemma_measured(accessory, service, "10"@, r.humidity);
    lemma_measured(accessory, service, "33"@, r.mode);
    lemma_measured(accessory, service, "F"@, r.doing);
    lemma_measured(accessory, service, "36"@, r.unit);
    lemma_measured(accessory, service, "35"@, r.target);
    lemma_measured(accessory, service, "12"@, r.low);
    lemma_measured(accessory, service, "D"@, r.high);
    if r.humidity is Some {
        law_doubles_are_told(r.humidity->0);
    }
}

/// Two devices remember the same under a key.
pub open spec fn same_under(
    s: Map<Seq<char>, Json>,
    t: Map<Seq<char>, Json>,
    key: Seq<char>,
) -> bool {
    s.dom().contains(key) == t.dom().contains(key) && (s.dom().contains(key) ==> s[key] == t[key])
}

/// Places can be remembered: none are yet, or places are what stands there.
pub open spec fn can_place(scratch: Map<Seq<char>, Json>) -> bool {
    scratch.dom().contains("iids"@) ==> scratch["iids"@] is Object
}

/// Under a key stands the place of a characteristic, where there is one; otherwise what stood
/// there.
pub open spec fn replaced(
    before: Map<Seq<char>, Json>,
    after: Map<Seq<char>, Json>,
    key: Seq<char>,
    aid: u64,
    iid: Option<u64>,
) -> bool {
    match iid {
        Some(iid) => placed(after, key, aid, iid),
        None => remembered(after, key) == remembered(before, key),
    }
}

/// A thermostat service teaches the places of its four writable characteristics, and its mode,
/// and nothing else.
pub proof fn law_a_thermostat_service_teaches(
    accessory: Json,
    service: Json,
    p: Progress,
    aid: u64,
    mode: Option<Number>,
    state: Option<u64>,
    temp: Option<u64>,
    low: Option<u64>,
    high: Option<u64>,
    other: Seq<char>,
)
    requires
        typed(service, "4A"@),
        stands_under(accessory, aid),
        measured(service, "33"@, mode),
        numbered(service, "33"@, state),
        numbered(service, "35"@, temp),
        numbered(service, "12"@, low),
        numbered(service, "D"@, high),
    ensures
        ({
            let before = p.scratch;
            let after = thermostat_service(accessory, service, p).scratch;
            &&& other != "iids"@ && other != "mode"@ ==> same_under(after, before, other)
            &&& match mode {
                Some(m) => stands(after, "mode"@, Json::Text(mode_word(m))),
                None => same_under(after, before, "mode"@),
            }
            &&& !can_place(before) ==> same_under(after, before, "iids"@)
            &&& can_place(before) ==> {
                &&& can_place(after)
                &&& replaced(before, after, "target_state"@, aid, state)
                &&& replaced(before, after, "target_temp"@, aid, temp)
                &&& replaced(before, after, "heat_threshold"@, aid, low)
                &&& replaced(before, after, "cool_threshold"@, aid, high)
                &&& other != "target_state"@ && other != "target_temp"@ && other
                    != "heat_threshold"@ && other != "cool_threshold"@ ==> remembered(after, other)
                    == remembered(before, other)
            }
        }),
{
    lemma_proper();
    lemma_keys();
    lemma_typed(service, "4A"@);
    lemma_aid(accessory, aid);
    lemma_measured(accessory, service, "33"@, mode);
    lemma_numbered(accessory, service, "33"@, state);
    lemma_numbered(accessory, service, "35"@, temp);
    lemma_numbered(accessory, service, "12"@, low);
    lemma_numbered(accessory, service, "D"@, high);
    let chars = characteristics(accessory, service);
    let s0 = p.scratch;
    let s1 = remember(s0, "target_state"@, find(chars, CH_TARGET_STATE@));
    let s2 = remember(s1, "target_temp"@, find(chars, CH_TARGET_TEMP@));
    let s3 = remember(s2, "heat_threshold"@, find(chars, CH_HEAT_THRESHOLD@));
    let s4 = remember(s3, "cool_threshold"@, find(chars, CH_COOL_THRESHOLD@));
    let s5 = learned(s0, chars);
    lemma_taught(s0, s1, "target_state"@, find(chars, CH_TARGET_STATE@), other);
    lemma_taught(s1, s2, "target_temp"@, find(chars, CH_TARGET_TEMP@), other);
    lemma_taught(s2, s3, "heat_threshold"@, find(chars, CH_HEAT_THRESHOLD@), other);
    lemma_taught(s3, s4, "cool_threshold"@, find(chars, CH_COOL_THRESHOLD@), other);
    assert(member(s5, "iids"@) == member(s4, "iids"@));
    assert(remembered(s5, "target_state"@) == remembered(s4, "target_state"@));
    assert(remembered(s5, "target_temp"@) == remembered(s4, "target_temp"@));
    assert(remembered(s5, "heat_threshold"@) == remembered(s4, "heat_threshold"@));
    assert(remembered(s5, "cool_threshold"@) == remembered(s4, "cool_threshold"@));
    assert(remembered(s5, other) == remembered(s4, other));
    if state is Some {
        law_places_are_found(s5, "target_state"@, aid, state->0);
    }
    if temp is Some {
        law_places_are_found(s5, "target_temp"@, aid, temp->0);
    }
    if low is Some {
        law_places_are_found(s5, "heat_threshold"@, aid, low->0);
    }
    if high is Some {
        law_places_are_found(s5, "cool_threshold"@, aid, high->0);
    }
}

/// One more place, and nothing else.
proof fn lemma_taught(
    before: Map<Seq<char>, Json>,
    after: Map<Seq<char>, Json>,
    key: Seq<char>,
    c: Option<Characteristic>,
    other: Seq<char>,
)
    requires
        after == remember(before, key, c),
    ensures
        other != "iids"@ ==> same_under(after, before, other),
        same_under(after, before, "mode"@),
        !can_place(before) ==> same_under(after, before, "iids"@),
        can_place(before) ==> can_place(after),
        can_place(before) ==> remembered(after, key) == (match c {
            Some(c) => Some((c.aid, c.iid)),
            None => remembered(before, key),
        }),
        forall|k: Seq<char>|
            can_place(before) && k != key ==> #[trigger] remembered(after, k) == remembered(
                before,
                k,
            ),
{
    lemma_keys();
    assert(can_place(before) <==> places(before) is Some);
    if c is Some && can_place(before) {
        law_remembered(before, key, c->0, other);
        assert forall|k: Seq<char>| k != key implies #[trigger] remembered(after, k) == remembered(
            before,
            k,
        ) by {
            law_remembered(before, key, c->0, k);
        }
    }
}

/// Of a service of another type than those that matter, nothing is told or remembered. An
/// occupancy service tells whether someone is there where that is not what is remembered. A
/// temperature service tells its temperature.
pub proof fn law_a_thermostats_sensors_tell(
    accessory: Json,
    service: Json,
    p: Progress,
    n: Option<Number>,
)
    ensures
        !typed(service, "4A"@) && !typed(service, "86"@) && !typed(service, "8A"@)
            ==> thermostat_service(accessory, service, p) == p,
        typed(service, "8A"@) && measured(service, "11"@, n) ==> thermostat_service(
            accessory,
            service,
            p,
        ) == (Progress {
            scratch: p.scratch,
            out: p.out + warmth(n, 3, "value_changed"@, "value"@),
        }),
        typed(service, "86"@) && measured(service, "71"@, n) ==> thermostat_service(
            accessory,
            service,
            p,
        ) == (match n {
            Some(n) => if stands(p.scratch, "built_in"@, Json::Bool(someone(n))) {
                p
            } else {
                Progress {
                    scratch: p.scratch.insert("built_in"@, Json::Bool(someone(n))),
                    out: p.out.push(
                        tells(2, "detected_changed"@, "detected"@, Json::Bool(someone(n))),
                    ),
                }
            },
            None => p,
        }),
{
    lemma_proper();
    lemma_typed(service, "4A"@);
    lemma_typed(service, "86"@);
    lemma_typed(service, "8A"@);
    if measured(service, "11"@, n) {
        lemma_measured(accessory, service, "11"@, n);
        assert(temperature(
            3,
            "value_changed"@,
            "value"@,
            characteristics(accessory, service),
        ) =~= warmth(n, 3, "value_changed"@, "value"@)) by {}
    }
    if measured(service, "71"@, n) {
        lemma_measured(accessory, service, "71"@, n);
    }
}

/// The same of a room sensor's services: of one of another type, a thermostat's among them,
/// nothing is told or remembered.
pub proof fn law_a_room_sensors_services_tell(
    accessory: Json,
    service: Json,
    p: Progress,
    n: Option<Number>,
)
    ensures
        !typed(service, "86"@) && !typed(service, "8A"@) ==> sensor_service(accessory, service, p)
            == p,
        typed(service, "8A"@) && measured(service, "11"@, n) ==> sensor_service(
            accessory,
            service,
            p,
        ) == (Progress {
            scratch: p.scratch,
            out: p.out + warmth(n, 2, "value_changed"@, "value"@),
        }),
        typed(service, "86"@) && measured(service, "71"@, n) ==> sensor_service(
            accessory,
            service,
            p,
        ) == (match n {
            Some(n) => if stands(p.scratch, "occupied"@, Json::Bool(someone(n))) {
                p
            } else {
                Progress {
                    scratch: p.scratch.insert("occupied"@, Json::Bool(someone(n))),
                    out: p.out.push(
                        tells(1, "detected_changed"@, "detected"@, Json::Bool(someone(n))),
                    ),
                }
            },
            None => p,
        }),
{
    lemma_proper();
    lemma_typed(service, "86"@);
    lemma_typed(service, "8A"@);
    if measured(service, "11"@, n) {
        lemma_measured(accessory, service, "11"@, n);
        assert(temperature(
            2,
            "value_changed"@,
            "value"@,
            characteristics(accessory, service),
        ) =~= warmth(n, 2, "value_changed"@, "value"@)) by {}
    }
    if measured(service, "71"@, n) {
        lemma_measured(accessory, service, "71"@, n);
    }
}

/// Services are gone through one after another, each with what those before it left.
pub proof fn law_services_come_in_turn(accessory: Json, list: Seq<Json>, service: Json, p: Progress)
    ensures
        thermostat_services(accessory, seq![], p) == p,
        sensor_services(accessory, seq![], p) == p,
        thermostat_services(accessory, list.push(service), p) == thermostat_service(
            accessory,
            service,
            thermostat_services(accessory, list, p),
        ),
        sensor_services(accessory, list.push(service), p) == sensor_service(
            accessory,
            service,
            sensor_services(accessory, list, p),
        ),
{
    assert(list.push(service).drop_last() =~= list);
}

// ---------------------------------------------------------------------------------------
// Whole answers
// ---------------------------------------------------------------------------------------

/// An accessory of a document is the first with a thermostat service.
pub open spec fn thermostat_at(doc: Json, k: int) -> bool {
    let list = items(doc, "accessories"@);
    &&& 0 <= k < list.len()
    &&& bears(list[k], "4A"@)
    &&& forall|j: int| 0 <= j < k ==> !bears(#[trigger] list[j], "4A"@)
}

/// An accessory of a document is the first under a number.
pub open spec fn numbered_at(doc: Json, aid: u64, k: int) -> bool {
    let list = items(doc, "accessories"@);
    &&& 0 <= k < list.len()
    &&& stands_under(list[k], aid)
    &&& forall|j: int| 0 <= j < k ==> !stands_under(#[trigger] list[j], aid)
}

/// Told that it can be reached, or not.
pub open spec fn reached(yes: bool) -> Call {
    tells(1, "online_changed"@, "online"@, Json::Bool(yes))
}

proof fn lemma_first_with(list: Seq<Json>, k: int)
    requires
        0 <= k < list.len(),
        bears(list[k], "4A"@),
        forall|j: int| 0 <= j < k ==> !bears(#[trigger] list[j], "4A"@),
    ensures
        first_with(list, "4A"@) == Some(list[k]),
    decreases list.len(),
{
    lemma_proper();
    lemma_bears(list[0], "4A"@);
    if k > 0 {
        assert(!bears(list[0], "4A"@));
        let rest = list.drop_first();
        assert forall|j: int| 0 <= j < k - 1 implies !bears(#[trigger] rest[j], "4A"@) by {
            assert(rest[j] == list[j + 1]);
        }
        assert(rest[k - 1] == list[k]);
        lemma_first_with(rest, k - 1);
    }
}

proof fn lemma_none_with(list: Seq<Json>)
    requires
        forall|j: int| 0 <= j < list.len() ==> !bears(#[trigger] list[j], "4A"@),
    ensures
        first_with(list, "4A"@) is None,
    decreases list.len(),
{
    if list.len() > 0 {
        lemma_proper();
        lemma_bears(list[0], "4A"@);
        assert(!bears(list[0], "4A"@));
        let rest = list.drop_first();
        assert forall|j: int| 0 <= j < rest.len() implies !bears(#[trigger] rest[j], "4A"@) by {
            assert(rest[j] == list[j + 1]);
        }
        lemma_none_with(rest);
    }
}

proof fn lemma_first_numbered(list: Seq<Json>, aid: u64, k: int)
    requires
        0 <= k < list.len(),
        stands_under(list[k], aid),
        forall|j: int| 0 <= j < k ==> !stands_under(#[trigger] list[j], aid),
    ensures
        first_numbered(list, aid) == Some(list[k]),
    decreases list.len(),
{
    lemma_aid(list[0], aid);
    if k > 0 {
        assert(!stands_under(list[0], aid));
        let rest = list.drop_first();
        assert forall|j: int| 0 <= j < k - 1 implies !stands_under(#[trigger] rest[j], aid) by {
            assert(rest[j] == list[j + 1]);
        }
        assert(rest[k - 1] == list[k]);
        lemma_first_numbered(rest, aid, k - 1);
    }
}

proof fn lemma_none_numbered(list: Seq<Json>, aid: u64)
    requires
        forall|j: int| 0 <= j < list.len() ==> !stands_under(#[trigger] list[j], aid),
    ensures
        first_numbered(list, aid) is None,
    decreases list.len(),
{
    if list.len() > 0 {
        lemma_aid(list[0], aid);
        assert(!stands_under(list[0], aid));
        let rest = list.drop_first();
        assert forall|j: int| 0 <= j < rest.len() implies !stands_under(#[trigger] rest[j], aid) by {
            assert(rest[j] == list[j + 1]);
        }
        lemma_none_numbered(rest, aid);
    }
}

/// A thermostat goes by the first accessory with a thermostat service: it is online, and then
/// tells what the services of that accessory tell, all of them in turn. Where there is no such
/// accessory it only warns.
pub proof fn law_the_thermostat_is_found(scratch: Map<Seq<char>, Json>, doc: Json, k: int)
    ensures
        thermostat_at(doc, k) ==> thermostat_report(scratch, doc) == thermostat_services(
            items(doc, "accessories"@)[k],
            items(items(doc, "accessories"@)[k], "services"@),
            Progress { scratch, out: seq![reached(true)] },
        ),
        (forall|j: int|
            0 <= j < items(doc, "accessories"@).len() ==> !bears(
                #[trigger] items(doc, "accessories"@)[j],
                "4A"@,
            )) ==> thermostat_report(scratch, doc) == (Progress {
            scratch,
            out: seq![
                Call::Warn(
                    "ecobee-hap: nothing at this address has a thermostat — is it the right accessory?"@,
                ),
            ],
        }),
{
    let list = items(doc, "accessories"@);
    assert(accessories(doc) == list);
    lemma_proper();
    if thermostat_at(doc, k) {
        lemma_first_with(list, k);
        lemma_bears(list[k], "4A"@);
    }
    if forall|j: int|
        0 <= j < items(doc, "accessories"@).len() ==> !bears(
            #[trigger] items(doc, "accessories"@)[j],
            "4A"@,
        ) {
        assert forall|j: int| 0 <= j < list.len() implies !bears(#[trigger] list[j], "4A"@) by {
            assert(!bears(items(doc, "accessories"@)[j], "4A"@));
        }
        lemma_none_with(list);
    }
}

/// A room sensor goes by the first accessory under its number: it is online, and then tells what
/// the services of that accessory tell, all of them in turn. Where there is no such accessory it
/// is offline, and tells and remembers nothing else.
pub proof fn law_the_sensor_is_found(scratch: Map<Seq<char>, Json>, doc: Json, aid: u64, k: int)
    ensures
        numbered_at(doc, aid, k) ==> sensor_report(scratch, doc, aid) == sensor_services(
            items(doc, "accessories"@)[k],
            items(items(doc, "accessories"@)[k], "services"@),
            Progress { scratch, out: seq![reached(true)] },
        ),
        (forall|j: int|
            0 <= j < items(doc, "accessories"@).len() ==> !stands_under(
                #[trigger] items(doc, "accessories"@)[j],
                aid,
            )) ==> sensor_report(scratch, doc, aid) == (Progress {
            scratch,
            out: seq![reached(false)],
        }),
{
    let list = items(doc, "accessories"@);
    assert(accessories(doc) == list);
    lemma_proper();
    if numbered_at(doc, aid, k) {
        lemma_first_numbered(list, aid, k);
        lemma_bears(list[k], "4A"@);
    }
    if forall|j: int|
        0 <= j < items(doc, "accessories"@).len() ==> !stands_under(
            #[trigger] items(doc, "accessories"@)[j],
            aid,
        ) {
        assert forall|j: int| 0 <= j < list.len() implies !stands_under(
            #[trigger] list[j],
            aid,
        ) by {
            assert(!stands_under(items(doc, "accessories"@)[j], aid));
        }
        lemma_none_numbered(list, aid);
    }
}

/// An answer with accessories is read: by a room sensor for its own number, by a thermostat for
/// its own. Nothing comes of any other event, or of an answer without accessories.
pub proof fn law_answers_are_read(
    inst: Instance,
    note: Seq<char>,
    args: Map<Seq<char>, Json>,
    doc: Json,
    aid: u64,
)
    ensures
        note != "http_response"@ || !args.dom().contains("body"@) || items(
            args["body"@],
            "accessories"@,
        ).len() == 0 ==> event(inst, note, args) == (Progress {
            scratch: inst.scratch,
            out: seq![],
        }),
        stands(args, "body"@, doc) && items(doc, "accessories"@).len() > 0 && stands(
            inst.properties,
            "Accessory aid"@,
            count(aid),
        ) ==> event(inst, "http_response"@, args) == sensor_report(inst.scratch, doc, aid),
        stands(args, "body"@, doc) && items(doc, "accessories"@).len() > 0 && no_count(
            inst.properties,
            "Accessory aid"@,
        ) ==> event(inst, "http_response"@, args) == thermostat_report(inst.scratch, doc),
{
    if args.dom().contains("body"@) {
        assert(accessories(args["body"@]) == items(args["body"@], "accessories"@));
    }
    if sensor_aid(inst) is Some {
        assert(stands(inst.properties, "Accessory aid"@, count(sensor_aid(inst)->0)));
    }
}

// ---------------------------------------------------------------------------------------
// Single readings in whole answers
// ---------------------------------------------------------------------------------------

/// What is told stays told.
proof fn lemma_thermostat_keeps(accessory: Json, list: Seq<Json>, p: Progress, i: int, call: Call)
    requires
        0 <= i < list.len(),
        forall|q: Progress| #[trigger] thermostat_service(accessory, list[i], q).out.contains(call),
    ensures
        thermostat_services(accessory, list, p).out.contains(call),
    decreases list.len(),
{
    let front = list.drop_last();
    let before = thermostat_services(accessory, front, p);
    let after = thermostat_service(accessory, list.last(), before);
    if i == list.len() - 1 {
        assert(thermostat_service(accessory, list[i], before).out.contains(call));
    } else {
        assert(front[i] == list[i]);
        lemma_thermostat_keeps(accessory, front, p, i, call);
        let j = choose|j: int| 0 <= j < before.out.len() && before.out[j] == call;
        assert(after.out[j] == call);
    }
}

proof fn lemma_sensor_keeps(accessory: Json, list: Seq<Json>, p: Progress, i: int, call: Call)
    requires
        0 <= i < list.len(),
        forall|q: Progress| #[trigger] sensor_service(accessory, list[i], q).out.contains(call),
    ensures
        sensor_services(accessory, list, p).out.contains(call),
    decreases list.len(),
{
    let front = list.drop_last();
    let before = sensor_services(accessory, front, p);
    let after = sensor_service(accessory, list.last(), before);
    if i == list.len() - 1 {
        assert(sensor_service(accessory, list[i], before).out.contains(call));
    } else {
        assert(front[i] == list[i]);
        lemma_sensor_keeps(accessory, front, p, i, call);
        let j = choose|j: int| 0 <= j < before.out.len() && before.out[j] == call;
        assert(after.out[j] == call);
    }
}

/// A service of the thermostat's accessory stands at a place of a document.
pub open spec fn thermostat_service_at(doc: Json, k: int, i: int) -> bool {
    &&& thermostat_at(doc, k)
    &&& 0 <= i < items(items(doc, "accessories"@)[k], "services"@).len()
}

/// What a part of a reading holds, the reading holds.
proof fn lemma_part(chars: Seq<Characteristic>, part: Seq<Call>, call: Call)
    requires
        part.len() > 0,
        part[0] == call,
        part == temperature(1, "temperature_changed"@, "celsius"@, chars) || part == humidity(chars)
            || part == mode(chars) || part == equipment(chars) || part == display_unit(chars)
            || part == setpoints(chars),
    ensures
        reading(chars).contains(call),
{
    let a = temperature(1, "temperature_changed"@, "celsius"@, chars);
    let b = a + humidity(chars);
    let c = b + mode(chars);
    let d = c + equipment(chars);
    let e = d + display_unit(chars);
    let all = reading(chars);
    if part == a {
        assert(all[0] == call);
    } else if part == humidity(chars) {
        assert(all[a.len() as int] == call);
    } else if part == mode(chars) {
        assert(all[b.len() as int] == call);
    } else if part == equipment(chars) {
        assert(all[c.len() as int] == call);
    } else if part == display_unit(chars) {
        assert(all[d.len() as int] == call);
    } else {
        assert(all[e.len() as int] == call);
    }
}

/// What a thermostat service's reading holds, the whole answer tells.
proof fn lemma_is_told(scratch: Map<Seq<char>, Json>, doc: Json, k: int, i: int, call: Call)
    requires
        thermostat_service_at(doc, k, i),
        ({
            let accessory = items(doc, "accessories"@)[k];
            let service = items(accessory, "services"@)[i];
            service_type(service) == Some("4A"@) && reading(
                characteristics(accessory, service),
            ).contains(call)
        }),
    ensures
        thermostat_report(scratch, doc).out.contains(call),
{
    let accessory = items(doc, "accessories"@)[k];
    let list = items(accessory, "services"@);
    let all = reading(characteristics(accessory, list[i]));
    let start = Progress { scratch, out: seq![reached(true)] };
    law_the_thermostat_is_found(scratch, doc, k);
    assert forall|q: Progress| #[trigger]
        thermostat_service(accessory, list[i], q).out.contains(call) by {
        let j = choose|j: int| 0 <= j < all.len() && all[j] == call;
        assert(thermostat_service(accessory, list[i], q).out[q.out.len() + j] == call);
    }
    lemma_thermostat_keeps(accessory, list, start, i, call);
}

/// The temperature that a thermostat service measures is told, wherever the service and the
/// characteristic stand and whatever else is measured.
pub proof fn law_the_temperature_is_told(
    scratch: Map<Seq<char>, Json>,
    doc: Json,
    k: int,
    i: int,
    n: Number,
)
    requires
        thermostat_service_at(doc, k, i),
        ({
            let service = items(items(doc, "accessories"@)[k], "services"@)[i];
            typed(service, "4A"@) && measures(service, "11"@, n)
        }),
    ensures
        thermostat_report(scratch, doc).out.contains(
            tells(1, "temperature_changed"@, "celsius"@, in_tenths(n)),
        ),
{
    let accessory = items(doc, "accessories"@)[k];
    let service = items(accessory, "services"@)[i];
    let chars = characteristics(accessory, service);
    let call = tells(1, "temperature_changed"@, "celsius"@, in_tenths(n));
    lemma_proper();
    lemma_typed(service, "4A"@);
    lemma_measured(accessory, service, "11"@, Some(n));
    assert(temperature(1, "temperature_changed"@, "celsius"@, chars)[0] == call);
    lemma_part(chars, temperature(1, "temperature_changed"@, "celsius"@, chars), call);
    lemma_is_told(scratch, doc, k, i, call);
}

/// The humidity is told likewise.
pub proof fn law_the_humidity_is_told(
    scratch: Map<Seq<char>, Json>,
    doc: Json,
    k: int,
    i: int,
    n: Number,
)
    requires
        thermostat_service_at(doc, k, i),
        ({
            let service = items(items(doc, "accessories"@)[k], "services"@)[i];
            typed(service, "4A"@) && measures(service, "10"@, n)
        }),
    ensures
        thermostat_report(scratch, doc).out.contains(
            tells(1, "humidity_changed"@, "percent"@, as_double(n)),
        ),
{
    let accessory = items(doc, "accessories"@)[k];
    let service = items(accessory, "services"@)[i];
    let chars = characteristics(accessory, service);
    let call = tells(1, "humidity_changed"@, "percent"@, as_double(n));
    lemma_proper();
    lemma_typed(service, "4A"@);
    lemma_measured(accessory, service, "10"@, Some(n));
    law_doubles_are_told(n);
    assert(humidity(chars)[0] == call);
    lemma_part(chars, humidity(chars), call);
    lemma_is_told(scratch, doc, k, i, call);
}

/// What the thermostat has been told to do is told likewise.
pub proof fn law_the_mode_is_told(
    scratch: Map<Seq<char>, Json>,
    doc: Json,
    k: int,
    i: int,
    n: Number,
)
    requires
        thermostat_service_at(doc, k, i),
        ({
            let service = items(items(doc, "accessories"@)[k], "services"@)[i];
            typed(service, "4A"@) && measures(service, "33"@, n)
        }),
    ensures
        thermostat_report(scratch, doc).out.contains(
            tells(1, "mode_changed"@, "mode"@, Json::Text(mode_word(n))),
        ),
{
    let accessory = items(doc, "accessories"@)[k];
    let service = items(accessory, "services"@)[i];
    let chars = characteristics(accessory, service);
    let call = tells(1, "mode_changed"@, "mode"@, Json::Text(mode_word(n)));
    lemma_proper();
    lemma_typed(service, "4A"@);
    lemma_measured(accessory, service, "33"@, Some(n));
    assert(mode(chars)[0] == call);
    lemma_part(chars, mode(chars), call);
    lemma_is_told(scratch, doc, k, i, call);
}

/// What the equipment is doing right now is told, whatever the thermostat has been told to do.
pub proof fn law_the_equipment_is_told(
    scratch: Map<Seq<char>, Json>,
    doc: Json,
    k: int,
    i: int,
    n: Number,
)
    requires
        thermostat_service_at(doc, k, i),
        ({
            let service = items(items(doc, "accessories"@)[k], "services"@)[i];
            typed(service, "4A"@) && measures(service, "F"@, n)
        }),
    ensures
        thermostat_report(scratch, doc).out.contains(
            tells(1, "hvac_state_changed"@, "state"@, Json::Text(doing_word(n))),
        ),
{
    let accessory = items(doc, "accessories"@)[k];
    let service = items(accessory, "services"@)[i];
    let chars = characteristics(accessory, service);
    let call = tells(1, "hvac_state_changed"@, "state"@, Json::Text(doing_word(n)));
    lemma_proper();
    lemma_typed(service, "4A"@);
    lemma_measured(accessory, service, "F"@, Some(n));
    assert(equipment(chars)[0] == call);
    lemma_part(chars, equipment(chars), call);
    lemma_is_told(scratch, doc, k, i, call);
}

/// The unit on the wall is told likewise.
pub proof fn law_the_unit_is_told(
    scratch: Map<Seq<char>, Json>,
    doc: Json,
    k: int,
    i: int,
    n: Number,
)
    requires
        thermostat_service_at(doc, k, i),
        ({
            let service = items(items(doc, "accessories"@)[k], "services"@)[i];
            typed(service, "4A"@) && measures(service, "36"@, n)
        }),
    ensures
        thermostat_report(scratch, doc).out.contains(
            shows("display_unit"@, Json::Text(unit_word(n))),
        ),
{
    let accessory = items(doc, "accessories"@)[k];
    let service = items(accessory, "services"@)[i];
    let chars = characteristics(accessory, service);
    let call = shows("display_unit"@, Json::Text(unit_word(n)));
    lemma_proper();
    lemma_typed(service, "4A"@);
    lemma_measured(accessory, service, "36"@, Some(n));
    assert(display_unit(chars)[0] == call);
    lemma_part(chars, display_unit(chars), call);
    lemma_is_told(scratch, doc, k, i, call);
}

/// The one target is told in any mode but auto and off.
pub proof fn law_the_target_is_told(
    scratch: Map<Seq<char>, Json>,
    doc: Json,
    k: int,
    i: int,
    target_state: Number,
    n: Number,
)
    requires
        thermostat_service_at(doc, k, i),
        ({
            let service = items(items(doc, "accessories"@)[k], "services"@)[i];
            typed(service, "4A"@) && measures(service, "33"@, target_state) && whole(target_state) != 3
                && whole(target_state) != 0 && measures(service, "35"@, n)
        }),
    ensures
        thermostat_report(scratch, doc).out.contains(
            shows("setpoint_c"@, in_tenths(n)),
        ),
{
    let accessory = items(doc, "accessories"@)[k];
    let service = items(accessory, "services"@)[i];
    let chars = characteristics(accessory, service);
    let call = shows("setpoint_c"@, in_tenths(n));
    lemma_proper();
    lemma_typed(service, "4A"@);
    lemma_measured(accessory, service, "33"@, Some(target_state));
    lemma_measured(accessory, service, "35"@, Some(n));
    assert(setpoints(chars)[0] == call);
    lemma_part(chars, setpoints(chars), call);
    lemma_is_told(scratch, doc, k, i, call);
}

/// The lower end of the band is told in auto.
pub proof fn law_the_lower_end_is_told(
    scratch: Map<Seq<char>, Json>,
    doc: Json,
    k: int,
    i: int,
    target_state: Number,
    n: Number,
)
    requires
        thermostat_service_at(doc, k, i),
        ({
            let service = items(items(doc, "accessories"@)[k], "services"@)[i];
            typed(service, "4A"@) && measures(service, "33"@, target_state) && whole(target_state) == 3
                && measures(service, "12"@, n)
        }),
    ensures
        thermostat_report(scratch, doc).out.contains(
            shows("heat_setpoint_c"@, in_tenths(n)),
        ),
{
    let accessory = items(doc, "accessories"@)[k];
    let service = items(accessory, "services"@)[i];
    let chars = characteristics(accessory, service);
    let call = shows("heat_setpoint_c"@, in_tenths(n));
    lemma_proper();
    lemma_typed(service, "4A"@);
    lemma_measured(accessory, service, "33"@, Some(target_state));
    lemma_measured(accessory, service, "12"@, Some(n));
    assert(setpoints(chars)[0] == call);
    lemma_part(chars, setpoints(chars), call);
    lemma_is_told(scratch, doc, k, i, call);
}

/// The upper end of the band is told in auto.
pub proof fn law_the_upper_end_is_told(
    scratch: Map<Seq<char>, Json>,
    doc: Json,
    k: int,
    i: int,
    target_state: Number,
    n: Number,
)
    requires
        thermostat_service_at(doc, k, i),
        ({
            let service = items(items(doc, "accessories"@)[k], "services"@)[i];
            typed(service, "4A"@) && measures(service, "33"@, target_state) && whole(target_state) == 3
                && measures(service, "D"@, n)
        }),
    ensures
        thermostat_report(scratch, doc).out.contains(
            shows("cool_setpoint_c"@, in_tenths(n)),
        ),
{
    let accessory = items(doc, "accessories"@)[k];
    let service = items(accessory, "services"@)[i];
    let chars = characteristics(accessory, service);
    let call = shows("cool_setpoint_c"@, in_tenths(n));
    lemma_proper();
    lemma_typed(service, "4A"@);
    lemma_measured(accessory, service, "33"@, Some(target_state));
    lemma_measured(accessory, service, "D"@, Some(n));
    let before = temperature(1, "temperature_changed"@, "celsius"@, chars) + humidity(chars) + mode(
        chars,
    ) + equipment(chars) + display_unit(chars);
    let held = setpoints(chars);
    assert(held[held.len() - 1] == call);
    assert(reading(chars)[before.len() + held.len() - 1] == call);
    lemma_is_told(scratch, doc, k, i, call);
}

/// The temperature of a temperature service on the thermostat's accessory is told to a proxy of
/// its own.
pub proof fn law_the_built_in_temperature_is_told(
    scratch: Map<Seq<char>, Json>,
    doc: Json,
    k: int,
    i: int,
    n: Number,
)
    requires
        thermostat_service_at(doc, k, i),
        typed(items(items(doc, "accessories"@)[k], "services"@)[i], "8A"@),
        measures(items(items(doc, "accessories"@)[k], "services"@)[i], "11"@, n),
    ensures
        thermostat_report(scratch, doc).out.contains(
            tells(3, "value_changed"@, "value"@, in_tenths(n)),
        ),
{
    let accessory = items(doc, "accessories"@)[k];
    let list = items(accessory, "services"@);
    let start = Progress { scratch, out: seq![reached(true)] };
    let call = tells(3, "value_changed"@, "value"@, in_tenths(n));
    law_the_thermostat_is_found(scratch, doc, k);
    assert forall|q: Progress| #[trigger]
        thermostat_service(accessory, list[i], q).out.contains(call) by {
        law_a_thermostats_sensors_tell(accessory, list[i], q, Some(n));
        let out = thermostat_service(accessory, list[i], q).out;
        assert(out[q.out.len() as int] == call);
    }
    lemma_thermostat_keeps(accessory, list, start, i, call);
}

/// The temperature of a room sensor is told, wherever its service and its characteristic stand.
pub proof fn law_a_rooms_temperature_is_told(
    scratch: Map<Seq<char>, Json>,
    doc: Json,
    aid: u64,
    k: int,
    i: int,
    n: Number,
)
    requires
        numbered_at(doc, aid, k),
        0 <= i < items(items(doc, "accessories"@)[k], "services"@).len(),
        typed(items(items(doc, "accessories"@)[k], "services"@)[i], "8A"@),
        measures(items(items(doc, "accessories"@)[k], "services"@)[i], "11"@, n),
    ensures
        sensor_report(scratch, doc, aid).out.contains(
            tells(2, "value_changed"@, "value"@, in_tenths(n)),
        ),
{
    let accessory = items(doc, "accessories"@)[k];
    let list = items(accessory, "services"@);
    let start = Progress { scratch, out: seq![reached(true)] };
    let call = tells(2, "value_changed"@, "value"@, in_tenths(n));
    law_the_sensor_is_found(scratch, doc, aid, k);
    assert forall|q: Progress| #[trigger]
        sensor_service(accessory, list[i], q).out.contains(call) by {
        law_a_room_sensors_services_tell(accessory, list[i], q, Some(n));
        let out = sensor_service(accessory, list[i], q).out;
        assert(out[q.out.len() as int] == call);
    }
    lemma_sensor_keeps(accessory, list, start, i, call);
}

} // verus!
