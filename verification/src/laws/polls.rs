//! Laws of polling again and again.

use crate::accessory::{
    CH_COOL_THRESHOLD, CH_HEAT_THRESHOLD, CH_OCCUPANCY, CH_TARGET_STATE, CH_TARGET_TEMP,
    SRV_OCCUPANCY, SRV_THERMOSTAT,
};
use crate::double::above_zero;
use crate::json::{member, Json};
use crate::laws::reads::lemma_keys;
use crate::model::accessory::{
    accessories, characteristics, find, mode_name, number, service_type, services,
    Characteristic,
};
use crate::model::host::Call;
use crate::model::report::{
    display_unit, equipment, first_numbered, first_with, humidity, learned, mode, notify,
    online, reading, sensor_report, sensor_service, sensor_services, setpoints, temperature,
    thermostat_report, thermostat_service, thermostat_services, Progress,
};
use crate::model::request::{place, places, remember};
use vstd::prelude::*;

verus! {

/// Whether a call announces occupancy.
pub open spec fn tells_occupancy(c: Call) -> bool {
    match c {
        Call::Notify { name, .. } => name == "detected_changed"@,
        _ => false,
    }
}

/// Whether no call of a list announces occupancy.
pub open spec fn quiet(out: Seq<Call>) -> bool {
    forall|i: int| 0 <= i < out.len() ==> !tells_occupancy(#[trigger] out[i])
}

/// The announcement of a change.
pub open spec fn change(proxy: u32, d: bool) -> Call {
    notify(proxy, "detected_changed"@, "detected"@, Json::Bool(d))
}

/// What an occupancy service detects.
pub open spec fn detected(accessory: Json, service: Json) -> Option<bool> {
    if service_type(service) == Some(SRV_OCCUPANCY@) {
        match number(characteristics(accessory, service), CH_OCCUPANCY@) {
            Some(v) => Some(above_zero(v.bits)),
            None => None,
        }
    } else {
        None
    }
}

/// No two services of a list detect different things.
pub open spec fn agree(accessory: Json, list: Seq<Json>) -> bool {
    forall|i: int, j: int|
        0 <= i < list.len() && 0 <= j < list.len() && detected(
            accessory,
            #[trigger] list[i],
        ) is Some && detected(accessory, #[trigger] list[j]) is Some ==> detected(
            accessory,
            list[i],
        ) == detected(accessory, list[j])
}

/// What is remembered of occupancy is what every service of a list detects.
spec fn known(
    accessory: Json,
    list: Seq<Json>,
    scratch: Map<Seq<char>, Json>,
    key: Seq<char>,
) -> bool {
    forall|i: int|
        0 <= i < list.len() ==> (detected(accessory, #[trigger] list[i]) matches Some(d) ==> member(
            scratch,
            key,
        ) == Some(Json::Bool(d)))
}

/// The notifications are not the one of occupancy, and the services are different ones.
proof fn lemma_words()
    ensures
        "online_changed"@ != "detected_changed"@,
        "temperature_changed"@ != "detected_changed"@,
        "humidity_changed"@ != "detected_changed"@,
        "mode_changed"@ != "detected_changed"@,
        "hvac_state_changed"@ != "detected_changed"@,
        "value_changed"@ != "detected_changed"@,
        SRV_THERMOSTAT@ != SRV_OCCUPANCY@,
{
    reveal_strlit("online_changed");
    reveal_strlit("temperature_changed");
    reveal_strlit("humidity_changed");
    reveal_strlit("mode_changed");
    reveal_strlit("hvac_state_changed");
    reveal_strlit("value_changed");
    reveal_strlit("detected_changed");
    reveal_strlit("4A");
    reveal_strlit("86");
    let d = "detected_changed"@;
    assert(d[0] == 'd');
    assert("online_changed"@[0] == 'o' && "temperature_changed"@[0] == 't'
        && "humidity_changed"@[0] == 'h' && "mode_changed"@[0] == 'm' && "hvac_state_changed"@[0]
        == 'h' && "value_changed"@[0] == 'v');
    assert("4A"@[0] == '4' && "86"@[0] == '8');
}

/// A thermostat service says nothing of occupancy.
proof fn lemma_reading_is_quiet(chars: Seq<Characteristic>)
    ensures
        quiet(reading(chars)),
        quiet(temperature(3, "value_changed"@, "value"@, chars)),
        quiet(temperature(2, "value_changed"@, "value"@, chars)),
{
    lemma_words();
    let a = temperature(1, "temperature_changed"@, "celsius"@, chars);
    let b = humidity(chars);
    let c = mode(chars);
    let d = equipment(chars);
    let e = display_unit(chars);
    let f = setpoints(chars);
    assert(quiet(a) && quiet(b) && quiet(c) && quiet(d) && quiet(e) && quiet(f));
    assert(quiet(a + b));
    assert(quiet(a + b + c));
    assert(quiet(a + b + c + d));
    assert(quiet(a + b + c + d + e));
}

/// A thermostat service does not touch what is remembered of occupancy.
pub proof fn lemma_learned_keeps(scratch: Map<Seq<char>, Json>, chars: Seq<Characteristic>)
    ensures
        member(learned(scratch, chars), "built_in"@) == member(scratch, "built_in"@),
{
    lemma_keys();
}

/// After a pass over services that agree, what they detect is remembered.
proof fn lemma_thermostat_pass(accessory: Json, list: Seq<Json>, p: Progress)
    requires
        agree(accessory, list),
    ensures
        known(accessory, list, thermostat_services(accessory, list, p).scratch, "built_in"@),
    decreases list.len(),
{
    if list.len() > 0 {
        let front = list.drop_last();
        let last = list.last();
        let n = list.len() - 1;
        assert(list[n] == last);
        assert forall|i: int| 0 <= i < front.len() implies front[i] == list[i] by {}
        lemma_thermostat_pass(accessory, front, p);
        let before = thermostat_services(accessory, front, p);
        let after = thermostat_service(accessory, last, before);
        lemma_words();
        lemma_learned_keeps(before.scratch, characteristics(accessory, last));
        assert forall|i: int| 0 <= i < list.len() implies (detected(
            accessory,
            #[trigger] list[i],
        ) matches Some(d) ==> member(after.scratch, "built_in"@) == Some(Json::Bool(d))) by {
            if i < n {
                assert(front[i] == list[i]);
                if detected(accessory, list[i]) is Some && detected(accessory, last) is Some {
                    assert(detected(accessory, list[i]) == detected(accessory, list[n]));
                }
            }
        }
    }
}

/// What is told without what is told of occupancy.
pub open spec fn other_calls(out: Seq<Call>) -> Seq<Call> {
    out.filter(|c: Call| !tells_occupancy(c))
}

/// Where nothing is told of occupancy, everything is told otherwise.
proof fn lemma_quiet(out: Seq<Call>)
    requires
        quiet(out),
    ensures
        other_calls(out) == out,
    decreases out.len(),
{
    reveal(Seq::filter);
    if out.len() > 0 {
        let front = out.drop_last();
        assert forall|i: int| 0 <= i < front.len() implies !tells_occupancy(#[trigger] front[i]) by {
            assert(out[i] == front[i]);
        }
        lemma_quiet(front);
        assert(!tells_occupancy(out[out.len() - 1]));
        assert(front.push(out.last()) =~= out);
    }
}

/// More calls that tell nothing of occupancy stay behind what was told otherwise.
proof fn lemma_more_calls(out: Seq<Call>, more: Seq<Call>)
    requires
        quiet(more),
    ensures
        other_calls(out + more) == other_calls(out) + more,
{
    lemma_quiet(more);
    Seq::filter_distributes_over_add(out, more, |c: Call| !tells_occupancy(c));
}

/// An announcement of occupancy is nothing that is told otherwise.
proof fn lemma_announcement(out: Seq<Call>, c: Call)
    requires
        tells_occupancy(c),
    ensures
        other_calls(out.push(c)) == other_calls(out),
{
    reveal(Seq::filter);
    assert(out.push(c).drop_last() =~= out);
}

/// A pass over services that detect what is remembered already announces nothing, and tells
/// otherwise what any pass tells.
proof fn lemma_thermostat_repeat(accessory: Json, list: Seq<Json>, p: Progress, first: Progress)
    requires
        known(accessory, list, p.scratch, "built_in"@),
        p.out == other_calls(first.out),
    ensures
        thermostat_services(accessory, list, p).out == other_calls(
            thermostat_services(accessory, list, first).out,
        ),
        member(thermostat_services(accessory, list, p).scratch, "built_in"@) == member(
            p.scratch,
            "built_in"@,
        ),
    decreases list.len(),
{
    if list.len() > 0 {
        let front = list.drop_last();
        let last = list.last();
        assert(list[list.len() - 1] == last);
        assert forall|i: int| 0 <= i < front.len() implies front[i] == list[i] by {}
        lemma_thermostat_repeat(accessory, front, p, first);
        let before = thermostat_services(accessory, front, p);
        let told = thermostat_services(accessory, front, first);
        lemma_words();
        let chars = characteristics(accessory, last);
        lemma_learned_keeps(before.scratch, chars);
        lemma_reading_is_quiet(chars);
        lemma_more_calls(told.out, reading(chars));
        lemma_more_calls(told.out, temperature(3, "value_changed"@, "value"@, chars));
        lemma_announcement(told.out, change(2, true));
        lemma_announcement(told.out, change(2, false));
        assert(detected(accessory, list[list.len() - 1]) matches Some(d) ==> member(
            before.scratch,
            "built_in"@,
        ) == Some(Json::Bool(d)));
    }
}

// ---------------------------------------------------------------------------------------
// What a pass over a thermostat's services leaves behind
// ---------------------------------------------------------------------------------------

/// Places with one more, where there is one.
spec fn with_place(
    m: Map<Seq<char>, Json>,
    key: Seq<char>,
    c: Option<Characteristic>,
) -> Map<Seq<char>, Json> {
    match c {
        Some(c) => m.insert(key, place(c)),
        None => m,
    }
}

/// Places with those of the writable characteristics of a service.
spec fn with_places_of(
    m: Map<Seq<char>, Json>,
    chars: Seq<Characteristic>,
) -> Map<Seq<char>, Json> {
    let m = with_place(m, "target_state"@, find(chars, CH_TARGET_STATE@));
    let m = with_place(m, "target_temp"@, find(chars, CH_TARGET_TEMP@));
    let m = with_place(m, "heat_threshold"@, find(chars, CH_HEAT_THRESHOLD@));
    with_place(m, "cool_threshold"@, find(chars, CH_COOL_THRESHOLD@))
}

/// What a device remembers, with some places written over.
spec fn taught(scratch: Map<Seq<char>, Json>, w: Map<Seq<char>, Json>) -> Map<Seq<char>, Json> {
    match places(scratch) {
        Some(m) => if w == Map::<Seq<char>, Json>::empty() {
            scratch
        } else {
            scratch.insert("iids"@, Json::Object(m.union_prefer_right(w)))
        },
        None => scratch,
    }
}

/// What a device remembers, with a mode written over, where there is one.
spec fn moded(scratch: Map<Seq<char>, Json>, mode: Option<Json>) -> Map<Seq<char>, Json> {
    match mode {
        Some(v) => scratch.insert("mode"@, v),
        None => scratch,
    }
}

/// The places that the services of a list teach.
spec fn lesson(accessory: Json, list: Seq<Json>) -> Map<Seq<char>, Json>
    decreases list.len(),
{
    if list.len() == 0 {
        Map::empty()
    } else if service_type(list.last()) == Some(SRV_THERMOSTAT@) {
        with_places_of(
            lesson(accessory, list.drop_last()),
            characteristics(accessory, list.last()),
        )
    } else {
        lesson(accessory, list.drop_last())
    }
}

/// The mode that the services of a list teach.
spec fn mode_lesson(accessory: Json, list: Seq<Json>) -> Option<Json>
    decreases list.len(),
{
    if list.len() == 0 {
        None
    } else {
        let state = if service_type(list.last()) == Some(SRV_THERMOSTAT@) {
            number(characteristics(accessory, list.last()), CH_TARGET_STATE@)
        } else {
            None
        };
        match state {
            Some(m) => Some(Json::Text(mode_name(m))),
            None => mode_lesson(accessory, list.drop_last()),
        }
    }
}

/// One more remembered place is one more in the lesson.
proof fn lemma_remember_taught(
    scratch: Map<Seq<char>, Json>,
    w: Map<Seq<char>, Json>,
    key: Seq<char>,
    c: Option<Characteristic>,
)
    ensures
        remember(taught(scratch, w), key, c) == taught(scratch, with_place(w, key, c)),
{
    match (c, places(scratch)) {
        (Some(c), Some(m)) => {
            let v = w.insert(key, place(c));
            assert(v.dom().contains(key));
            assert(v != Map::<Seq<char>, Json>::empty());
            assert(m.union_prefer_right(w).insert(key, place(c)) =~= m.union_prefer_right(v));
            assert(m.union_prefer_right(Map::empty()) =~= m);
            assert(places(taught(scratch, w)) == Some(m.union_prefer_right(w)));
            assert(remember(taught(scratch, w), key, Some(c)) =~= taught(scratch, v));
        },
        _ => {},
    }
}

/// A mode does not touch the places.
proof fn lemma_remember_moded(
    scratch: Map<Seq<char>, Json>,
    mode: Option<Json>,
    key: Seq<char>,
    c: Option<Characteristic>,
)
    ensures
        remember(moded(scratch, mode), key, c) == moded(remember(scratch, key, c), mode),
{
    lemma_keys();
    assert(member(moded(scratch, mode), "iids"@) == member(scratch, "iids"@));
    assert(remember(moded(scratch, mode), key, c) =~= moded(remember(scratch, key, c), mode));
}

/// A thermostat service adds its places and its mode to a lesson.
proof fn lemma_learned_taught(
    scratch: Map<Seq<char>, Json>,
    w: Map<Seq<char>, Json>,
    mode: Option<Json>,
    chars: Seq<Characteristic>,
)
    ensures
        learned(moded(taught(scratch, w), mode), chars) == moded(
            taught(scratch, with_places_of(w, chars)),
            match number(chars, CH_TARGET_STATE@) {
                Some(m) => Some(Json::Text(mode_name(m))),
                None => mode,
            },
        ),
{
    let a = find(chars, CH_TARGET_STATE@);
    let b = find(chars, CH_TARGET_TEMP@);
    let c = find(chars, CH_HEAT_THRESHOLD@);
    let d = find(chars, CH_COOL_THRESHOLD@);
    let w1 = with_place(w, "target_state"@, a);
    let w2 = with_place(w1, "target_temp"@, b);
    let w3 = with_place(w2, "heat_threshold"@, c);
    let w4 = with_place(w3, "cool_threshold"@, d);
    lemma_remember_moded(taught(scratch, w), mode, "target_state"@, a);
    lemma_remember_taught(scratch, w, "target_state"@, a);
    lemma_remember_moded(taught(scratch, w1), mode, "target_temp"@, b);
    lemma_remember_taught(scratch, w1, "target_temp"@, b);
    lemma_remember_moded(taught(scratch, w2), mode, "heat_threshold"@, c);
    lemma_remember_taught(scratch, w2, "heat_threshold"@, c);
    lemma_remember_moded(taught(scratch, w3), mode, "cool_threshold"@, d);
    lemma_remember_taught(scratch, w3, "cool_threshold"@, d);
    match number(chars, CH_TARGET_STATE@) {
        Some(m) => {
            let v = Json::Text(mode_name(m));
            assert(moded(taught(scratch, w4), mode).insert("mode"@, v) =~= moded(
                taught(scratch, w4),
                Some(v),
            ));
        },
        None => {},
    }
}

/// A device as it was but for what it remembers of occupancy.
spec fn but_occupancy(scratch: Map<Seq<char>, Json>) -> Map<Seq<char>, Json> {
    scratch.remove("built_in"@)
}

/// What a thermostat service teaches has nothing to do with occupancy.
proof fn lemma_learned_apart(scratch: Map<Seq<char>, Json>, chars: Seq<Characteristic>)
    ensures
        learned(but_occupancy(scratch), chars) == but_occupancy(learned(scratch, chars)),
{
    lemma_keys();
    let a = find(chars, CH_TARGET_STATE@);
    let b = find(chars, CH_TARGET_TEMP@);
    let c = find(chars, CH_HEAT_THRESHOLD@);
    let d = find(chars, CH_COOL_THRESHOLD@);
    lemma_remember_apart(scratch, "target_state"@, a);
    let s = remember(scratch, "target_state"@, a);
    lemma_remember_apart(s, "target_temp"@, b);
    let s = remember(s, "target_temp"@, b);
    lemma_remember_apart(s, "heat_threshold"@, c);
    let s = remember(s, "heat_threshold"@, c);
    lemma_remember_apart(s, "cool_threshold"@, d);
    let s = remember(s, "cool_threshold"@, d);
    match number(chars, CH_TARGET_STATE@) {
        Some(m) => {
            let v = Json::Text(mode_name(m));
            assert(but_occupancy(s).insert("mode"@, v) =~= but_occupancy(s.insert("mode"@, v)));
        },
        None => {},
    }
}

proof fn lemma_remember_apart(
    scratch: Map<Seq<char>, Json>,
    key: Seq<char>,
    c: Option<Characteristic>,
)
    ensures
        remember(but_occupancy(scratch), key, c) == but_occupancy(remember(scratch, key, c)),
{
    lemma_keys();
    assert(member(but_occupancy(scratch), "iids"@) == member(scratch, "iids"@));
    assert(remember(but_occupancy(scratch), key, c) =~= but_occupancy(remember(scratch, key, c)));
}

/// A pass over a thermostat's services leaves their lessons behind, and what it detects.
proof fn lemma_pass_teaches(accessory: Json, list: Seq<Json>, p: Progress)
    ensures
        but_occupancy(thermostat_services(accessory, list, p).scratch) == moded(
            taught(but_occupancy(p.scratch), lesson(accessory, list)),
            mode_lesson(accessory, list),
        ),
    decreases list.len(),
{
    if list.len() > 0 {
        let front = list.drop_last();
        let last = list.last();
        lemma_pass_teaches(accessory, front, p);
        let before = thermostat_services(accessory, front, p);
        let after = thermostat_service(accessory, last, before);
        let chars = characteristics(accessory, last);
        lemma_words();
        if service_type(last) == Some(SRV_THERMOSTAT@) {
            lemma_learned_apart(before.scratch, chars);
            lemma_learned_taught(
                but_occupancy(p.scratch),
                lesson(accessory, front),
                mode_lesson(accessory, front),
                chars,
            );
        } else {
            assert(but_occupancy(after.scratch) =~= but_occupancy(before.scratch));
        }
    }
}

/// A lesson that was learned already changes nothing.
proof fn lemma_taught_twice(
    scratch: Map<Seq<char>, Json>,
    w: Map<Seq<char>, Json>,
    mode: Option<Json>,
)
    ensures
        ({
            let once = moded(taught(scratch, w), mode);
            moded(taught(once, w), mode) == once
        }),
{
    lemma_keys();
    let once = moded(taught(scratch, w), mode);
    assert(member(once, "iids"@) == member(taught(scratch, w), "iids"@));
    match places(scratch) {
        Some(m) => {
            if w != Map::<Seq<char>, Json>::empty() {
                let n = m.union_prefer_right(w);
                assert(places(once) == Some(n));
                assert(n.union_prefer_right(w) =~= n);
            }
        },
        None => {},
    }
    assert(taught(once, w) =~= once);
    assert(moded(taught(once, w), mode) =~= once);
}

/// Polling the thermostat again with nothing changed announces no occupancy, repeats everything
/// else, and leaves what is remembered as it was. A document in which two occupancy services of
/// the thermostat contradict each other has no such rest.
pub proof fn law_thermostat_poll_is_quiet(scratch: Map<Seq<char>, Json>, doc: Json)
    requires
        first_with(accessories(doc), SRV_THERMOSTAT@) matches Some(accessory) ==> agree(
            accessory,
            services(accessory),
        ),
    ensures
        ({
            let first = thermostat_report(scratch, doc);
            let second = thermostat_report(first.scratch, doc);
            &&& quiet(second.out)
            &&& second.out == other_calls(first.out)
            &&& second.scratch == first.scratch
        }),
{
    lemma_words();
    let first = thermostat_report(scratch, doc);
    let second = thermostat_report(first.scratch, doc);
    match first_with(accessories(doc), SRV_THERMOSTAT@) {
        Some(accessory) => {
            let list = services(accessory);
            let one = Progress { scratch, out: seq![online(1)] };
            let two = Progress { scratch: first.scratch, out: seq![online(1)] };
            lemma_thermostat_pass(accessory, list, one);
            lemma_quiet(one.out);
            lemma_thermostat_repeat(accessory, list, two, one);
            lemma_pass_teaches(accessory, list, one);
            lemma_pass_teaches(accessory, list, two);
            let (w, mode) = (lesson(accessory, list), mode_lesson(accessory, list));
            lemma_taught_twice(but_occupancy(scratch), w, mode);
            assert forall|key: Seq<char>| member(second.scratch, key) == member(
                first.scratch,
                key,
            ) by {
                if key != "built_in"@ {
                    let s = but_occupancy(second.scratch);
                    assert(s == but_occupancy(first.scratch));
                    assert(member(s, key) == member(second.scratch, key));
                    assert(member(s, key) == member(first.scratch, key));
                }
            }
            lemma_same_members(second.scratch, first.scratch);
        },
        None => {
            lemma_quiet(first.out);
        },
    }
    lemma_others_are_quiet(first.out);
}

/// Objects with the same members are the same.
proof fn lemma_same_members(s: Map<Seq<char>, Json>, t: Map<Seq<char>, Json>)
    requires
        forall|key: Seq<char>| member(s, key) == member(t, key),
    ensures
        s == t,
{
    assert forall|key: Seq<char>| s.dom().contains(key) == t.dom().contains(key) by {
        assert(member(s, key) == member(t, key));
    }
    assert forall|key: Seq<char>| s.dom().contains(key) implies s[key] == t[key] by {
        assert(member(s, key) == member(t, key));
    }
    assert(s =~= t);
}

/// What is told otherwise tells nothing of occupancy.
proof fn lemma_others_are_quiet(out: Seq<Call>)
    ensures
        quiet(other_calls(out)),
{
    let pred = |c: Call| !tells_occupancy(c);
    assert forall|i: int| 0 <= i < other_calls(out).len() implies !tells_occupancy(
        #[trigger] other_calls(out)[i],
    ) by {
        out.lemma_filter_pred(pred, i);
    }
}

/// After a pass over a sensor's services that agree, what they detect is remembered.
proof fn lemma_sensor_pass(accessory: Json, list: Seq<Json>, p: Progress)
    requires
        agree(accessory, list),
    ensures
        known(accessory, list, sensor_services(accessory, list, p).scratch, "occupied"@),
    decreases list.len(),
{
    if list.len() > 0 {
        let front = list.drop_last();
        let last = list.last();
        let n = list.len() - 1;
        assert(list[n] == last);
        assert forall|i: int| 0 <= i < front.len() implies front[i] == list[i] by {}
        lemma_sensor_pass(accessory, front, p);
        let before = sensor_services(accessory, front, p);
        let after = sensor_service(accessory, last, before);
        assert forall|i: int| 0 <= i < list.len() implies (detected(
            accessory,
            #[trigger] list[i],
        ) matches Some(d) ==> member(after.scratch, "occupied"@) == Some(Json::Bool(d))) by {
            if i < n {
                assert(front[i] == list[i]);
                if detected(accessory, list[i]) is Some && detected(accessory, last) is Some {
                    assert(detected(accessory, list[i]) == detected(accessory, list[n]));
                }
            }
        }
    }
}

/// A pass over a sensor's services that detect what is remembered already announces nothing, and
/// tells otherwise what any pass tells.
proof fn lemma_sensor_repeat(accessory: Json, list: Seq<Json>, p: Progress, first: Progress)
    requires
        known(accessory, list, p.scratch, "occupied"@),
        p.out == other_calls(first.out),
    ensures
        sensor_services(accessory, list, p).out == other_calls(
            sensor_services(accessory, list, first).out,
        ),
        sensor_services(accessory, list, p).scratch == p.scratch,
    decreases list.len(),
{
    if list.len() > 0 {
        let front = list.drop_last();
        let last = list.last();
        assert(list[list.len() - 1] == last);
        assert forall|i: int| 0 <= i < front.len() implies front[i] == list[i] by {}
        lemma_sensor_repeat(accessory, front, p, first);
        let told = sensor_services(accessory, front, first);
        let chars = characteristics(accessory, last);
        lemma_words();
        lemma_reading_is_quiet(chars);
        lemma_more_calls(told.out, temperature(2, "value_changed"@, "value"@, chars));
        lemma_announcement(told.out, change(1, true));
        lemma_announcement(told.out, change(1, false));
        assert(detected(accessory, list[list.len() - 1]) matches Some(d) ==> member(
            p.scratch,
            "occupied"@,
        ) == Some(Json::Bool(d)));
    }
}

/// Polling a room sensor again with nothing changed announces no occupancy, repeats everything
/// else, and leaves what it remembers as it was.
pub proof fn law_sensor_poll_is_quiet(scratch: Map<Seq<char>, Json>, doc: Json, aid: u64)
    requires
        first_numbered(accessories(doc), aid) matches Some(accessory) ==> agree(
            accessory,
            services(accessory),
        ),
    ensures
        ({
            let first = sensor_report(scratch, doc, aid);
            let second = sensor_report(first.scratch, doc, aid);
            &&& quiet(second.out)
            &&& second.out == other_calls(first.out)
            &&& second.scratch == first.scratch
        }),
{
    lemma_words();
    let first = sensor_report(scratch, doc, aid);
    match first_numbered(accessories(doc), aid) {
        Some(accessory) => {
            let list = services(accessory);
            let one = Progress { scratch, out: seq![online(1)] };
            let two = Progress { scratch: first.scratch, out: seq![online(1)] };
            lemma_sensor_pass(accessory, list, one);
            lemma_quiet(one.out);
            lemma_sensor_repeat(accessory, list, two, one);
        },
        None => {
            lemma_quiet(first.out);
        },
    }
    lemma_others_are_quiet(first.out);
}

/// Whether some service of a list detects or rules out occupancy.
pub open spec fn reports_occupancy(accessory: Json, list: Seq<Json>) -> bool {
    exists|i: int| 0 <= i < list.len() && detected(accessory, #[trigger] list[i]) is Some
}

/// Every service of a list that reports occupancy reports the same.
pub open spec fn all_detect(accessory: Json, list: Seq<Json>, d: bool) -> bool {
    forall|i: int|
        0 <= i < list.len() && detected(accessory, #[trigger] list[i]) is Some ==> detected(
            accessory,
            list[i],
        ) == Some(d)
}

/// What stands in a list still stands there when more is added.
proof fn lemma_still_there(a: Seq<Call>, b: Seq<Call>, c: Call)
    requires
        a.contains(c),
    ensures
        (a + b).contains(c),
{
    let i = choose|i: int| 0 <= i < a.len() && a[i] == c;
    assert((a + b)[i] == c);
}

proof fn lemma_sensor_tells(accessory: Json, list: Seq<Json>, p: Progress, d: bool)
    requires
        all_detect(accessory, list, d),
        member(p.scratch, "occupied"@) != Some(Json::Bool(d)),
    ensures
        reports_occupancy(accessory, list) ==> sensor_services(accessory, list, p).out.contains(
            change(1, d),
        ),
        !reports_occupancy(accessory, list) ==> member(
            sensor_services(accessory, list, p).scratch,
            "occupied"@,
        ) == member(p.scratch, "occupied"@),
    decreases list.len(),
{
    if list.len() > 0 {
        let front = list.drop_last();
        let last = list.last();
        let n = list.len() - 1;
        assert(list[n] == last);
        assert forall|i: int| 0 <= i < front.len() implies front[i] == list[i] by {}
        lemma_sensor_tells(accessory, front, p, d);
        let before = sensor_services(accessory, front, p);
        let after = sensor_service(accessory, last, before);
        if reports_occupancy(accessory, front) {
            let i = choose|i: int|
                0 <= i < front.len() && detected(accessory, #[trigger] front[i]) is Some;
            assert(detected(accessory, list[i]) is Some);
            let more = after.out.skip(before.out.len() as int);
            assert(after.out =~= before.out + more);
            lemma_still_there(before.out, more, change(1, d));
        } else if detected(accessory, last) is Some {
            assert(detected(accessory, list[n]) == Some(d));
            assert(after.out.last() == change(1, d));
            assert(after.out[after.out.len() - 1] == change(1, d));
        } else {
            assert forall|i: int| 0 <= i < list.len() implies detected(
                accessory,
                #[trigger] list[i],
            ) is None by {
                if i < n {
                    assert(detected(accessory, front[i]) is None);
                }
            }
        }
    }
}

/// A room sensor that reports something other than what is remembered announces it.
pub proof fn law_sensor_change_is_told(scratch: Map<Seq<char>, Json>, doc: Json, aid: u64, d: bool)
    requires
        first_numbered(accessories(doc), aid) is Some,
        reports_occupancy(
            first_numbered(accessories(doc), aid)->0,
            services(first_numbered(accessories(doc), aid)->0),
        ),
        all_detect(
            first_numbered(accessories(doc), aid)->0,
            services(first_numbered(accessories(doc), aid)->0),
            d,
        ),
        member(scratch, "occupied"@) != Some(Json::Bool(d)),
    ensures
        sensor_report(scratch, doc, aid).out.contains(change(1, d)),
{
    let accessory = first_numbered(accessories(doc), aid)->0;
    let one = Progress { scratch, out: seq![online(1)] };
    lemma_sensor_tells(accessory, services(accessory), one, d);
}

proof fn lemma_thermostat_tells(accessory: Json, list: Seq<Json>, p: Progress, d: bool)
    requires
        all_detect(accessory, list, d),
        member(p.scratch, "built_in"@) != Some(Json::Bool(d)),
    ensures
        reports_occupancy(accessory, list) ==> thermostat_services(
            accessory,
            list,
            p,
        ).out.contains(change(2, d)),
        !reports_occupancy(accessory, list) ==> member(
            thermostat_services(accessory, list, p).scratch,
            "built_in"@,
        ) == member(p.scratch, "built_in"@),
    decreases list.len(),
{
    if list.len() > 0 {
        let front = list.drop_last();
        let last = list.last();
        let n = list.len() - 1;
        assert(list[n] == last);
        assert forall|i: int| 0 <= i < front.len() implies front[i] == list[i] by {}
        lemma_thermostat_tells(accessory, front, p, d);
        let before = thermostat_services(accessory, front, p);
        let after = thermostat_service(accessory, last, before);
        lemma_words();
        lemma_learned_keeps(before.scratch, characteristics(accessory, last));
        if reports_occupancy(accessory, front) {
            let i = choose|i: int|
                0 <= i < front.len() && detected(accessory, #[trigger] front[i]) is Some;
            assert(detected(accessory, list[i]) is Some);
            let more = after.out.skip(before.out.len() as int);
            assert(after.out =~= before.out + more);
            lemma_still_there(before.out, more, change(2, d));
        } else if detected(accessory, last) is Some {
            assert(detected(accessory, list[n]) == Some(d));
            assert(after.out.last() == change(2, d));
            assert(after.out[after.out.len() - 1] == change(2, d));
        } else {
            assert forall|i: int| 0 <= i < list.len() implies detected(
                accessory,
                #[trigger] list[i],
            ) is None by {
                if i < n {
                    assert(detected(accessory, front[i]) is None);
                }
            }
        }
    }
}

/// A thermostat whose own sensor reports something other than what is remembered announces it.
pub proof fn law_thermostat_change_is_told(scratch: Map<Seq<char>, Json>, doc: Json, d: bool)
    requires
        first_with(accessories(doc), SRV_THERMOSTAT@) is Some,
        reports_occupancy(
            first_with(accessories(doc), SRV_THERMOSTAT@)->0,
            services(first_with(accessories(doc), SRV_THERMOSTAT@)->0),
        ),
        all_detect(
            first_with(accessories(doc), SRV_THERMOSTAT@)->0,
            services(first_with(accessories(doc), SRV_THERMOSTAT@)->0),
            d,
        ),
        member(scratch, "built_in"@) != Some(Json::Bool(d)),
    ensures
        thermostat_report(scratch, doc).out.contains(change(2, d)),
{
    let accessory = first_with(accessories(doc), SRV_THERMOSTAT@)->0;
    let one = Progress { scratch, out: seq![online(1)] };
    lemma_thermostat_tells(accessory, services(accessory), one, d);
}

} // verus!
