//! Accessories may be renumbered, and types may be spelled in more than one way.

use crate::accessory::{
    CH_COOL_THRESHOLD, CH_CURRENT_HUMIDITY, CH_CURRENT_STATE, CH_CURRENT_TEMP, CH_DISPLAY_UNITS,
    CH_HEAT_THRESHOLD, CH_OCCUPANCY, CH_TARGET_STATE, CH_TARGET_TEMP, SRV_THERMOSTAT,
};
use crate::json::{member, Json, Number};
use crate::laws::reads::lemma_keys;
use crate::model::accessory::{
    accessories, aid_of, characteristic, characteristics, find, hap_type, has_service, listed,
    number, service_type, services, Characteristic,
};
use crate::model::report::{
    first_numbered, first_with, learned, online, reading, sensor_report, sensor_service,
    sensor_services, thermostat_report, thermostat_service, thermostat_services, Progress,
};
use crate::model::request::{place, places, remember, remembered};
use vstd::prelude::*;

verus! {

// ---------------------------------------------------------------------------------------
// Documents
// ---------------------------------------------------------------------------------------

/// Two values that say the same but for what stands under two keys.
pub open spec fn same_but(a: Json, b: Json, one: Seq<char>, two: Seq<char>) -> bool {
    match (a, b) {
        (Json::Object(m), Json::Object(n)) => m.remove(one).remove(two) == n.remove(one).remove(
            two,
        ),
        _ => a == b,
    }
}

/// Two values with one type, in one spelling or another.
pub open spec fn same_type(a: Json, b: Json) -> bool {
    match (a.text_at("type"@), b.text_at("type"@)) {
        (Some(s), Some(t)) => hap_type(s) == hap_type(t),
        _ => a.get("type"@) == b.get("type"@),
    }
}

/// Two characteristics that say the same but for how their type is spelled.
pub open spec fn characteristic_alike(a: Json, b: Json) -> bool {
    same_but(a, b, "type"@, "type"@) && same_type(a, b)
}

/// Two services that say the same but for how their type and those of their characteristics are
/// spelled.
pub open spec fn service_alike(a: Json, b: Json) -> bool {
    &&& same_but(a, b, "type"@, "characteristics"@)
    &&& same_type(a, b)
    &&& match (a.get("characteristics"@), b.get("characteristics"@)) {
        (Some(Json::Array(p)), Some(Json::Array(q))) => p.len() == q.len() && (forall|i: int|
            0 <= i < p.len() ==> characteristic_alike(#[trigger] p[i], q[i])),
        (p, q) => p == q,
    }
}

/// Two accessories that say the same but for their number and for how types are spelled.
pub open spec fn accessory_alike(a: Json, b: Json) -> bool {
    &&& same_but(a, b, "aid"@, "services"@)
    &&& match (a.get("services"@), b.get("services"@)) {
        (Some(Json::Array(p)), Some(Json::Array(q))) => p.len() == q.len() && (forall|i: int|
            0 <= i < p.len() ==> service_alike(#[trigger] p[i], q[i])),
        (p, q) => p == q,
    }
}

/// Two documents whose accessories say the same but for their numbers and for how types are
/// spelled.
pub open spec fn alike(one: Json, two: Json) -> bool {
    &&& accessories(one).len() == accessories(two).len()
    &&& forall|i: int|
        0 <= i < accessories(one).len() ==> accessory_alike(
            #[trigger] accessories(one)[i],
            accessories(two)[i],
        )
}

proof fn lemma_same_but(a: Json, b: Json, one: Seq<char>, two: Seq<char>, key: Seq<char>)
    requires
        same_but(a, b, one, two),
        key != one,
        key != two,
    ensures
        a.get(key) == b.get(key),
{
    match (a, b) {
        (Json::Object(m), Json::Object(n)) => {
            let p = m.remove(one).remove(two);
            let q = n.remove(one).remove(two);
            assert(p.dom().contains(key) == m.dom().contains(key));
            assert(q.dom().contains(key) == n.dom().contains(key));
            assert(m.dom().contains(key) ==> p[key] == m[key]);
            assert(n.dom().contains(key) ==> q[key] == n[key]);
        },
        _ => {},
    }
}

/// What a characteristic holds beside its type stands under other keys.
proof fn lemma_document_keys()
    ensures
        "iid"@ != "type"@,
        "value"@ != "type"@,
{
    reveal_strlit("iid");
    reveal_strlit("value");
    reveal_strlit("type");
    assert("iid"@[0] == 'i' && "value"@[0] == 'v' && "type"@[0] == 't');
}

/// Two characteristics that say the same but for their accessory's number.
spec fn same_but_aid(a: Characteristic, b: Characteristic) -> bool {
    a.iid == b.iid && a.ty == b.ty && a.value == b.value
}

spec fn all_same_but_aid(a: Seq<Characteristic>, b: Seq<Characteristic>) -> bool {
    &&& a.len() == b.len()
    &&& forall|i: int| 0 <= i < a.len() ==> same_but_aid(#[trigger] a[i], b[i])
}

proof fn lemma_characteristic_alike(x: u64, y: u64, a: Json, b: Json)
    requires
        characteristic_alike(a, b),
    ensures
        match (characteristic(x, a), characteristic(y, b)) {
            (Some(c), Some(d)) => c.aid == x && d.aid == y && same_but_aid(c, d),
            (None, None) => true,
            _ => false,
        },
{
    lemma_document_keys();
    lemma_same_but(a, b, "type"@, "type"@, "iid"@);
    lemma_same_but(a, b, "type"@, "type"@, "value"@);
}

proof fn lemma_listed_alike(x: u64, y: u64, p: Seq<Json>, q: Seq<Json>)
    requires
        p.len() == q.len(),
        forall|i: int| 0 <= i < p.len() ==> characteristic_alike(#[trigger] p[i], q[i]),
    ensures
        all_same_but_aid(listed(x, p), listed(y, q)),
        x == y ==> listed(x, p) == listed(y, q),
    decreases p.len(),
{
    if p.len() > 0 {
        let n = p.len() - 1;
        assert(characteristic_alike(p[n], q[n]));
        assert forall|i: int| 0 <= i < p.drop_last().len() implies characteristic_alike(
            #[trigger] p.drop_last()[i],
            q.drop_last()[i],
        ) by {
            assert(characteristic_alike(p[i], q[i]));
        }
        lemma_characteristic_alike(x, y, p[n], q[n]);
        lemma_listed_alike(x, y, p.drop_last(), q.drop_last());
    }
}

proof fn lemma_service_alike(a: Json, b: Json, s: Json, t: Json)
    requires
        service_alike(s, t),
    ensures
        service_type(s) == service_type(t),
        all_same_but_aid(characteristics(a, s), characteristics(b, t)),
        aid_of(a) == aid_of(b) ==> characteristics(a, s) == characteristics(b, t),
{
    let p = s.items_at("characteristics"@);
    let q = t.items_at("characteristics"@);
    assert forall|i: int| 0 <= i < p.len() implies characteristic_alike(#[trigger] p[i], q[i]) by {}
    lemma_listed_alike(aid_of(a), aid_of(b), p, q);
}

/// Two lists of services that say the same but for how types are spelled.
spec fn services_alike(p: Seq<Json>, q: Seq<Json>) -> bool {
    &&& p.len() == q.len()
    &&& forall|i: int| 0 <= i < p.len() ==> service_alike(#[trigger] p[i], q[i])
}

proof fn lemma_accessory_alike(a: Json, b: Json)
    requires
        accessory_alike(a, b),
    ensures
        services_alike(services(a), services(b)),
        forall|want: Seq<char>| has_service(a, want) == has_service(b, want),
{
    let p = services(a);
    let q = services(b);
    assert forall|i: int| 0 <= i < p.len() implies service_alike(#[trigger] p[i], q[i]) by {}
    assert forall|want: Seq<char>| has_service(a, want) == has_service(b, want) by {
        if has_service(a, want) {
            let i = choose|i: int|
                0 <= i < p.len() && service_type(#[trigger] p[i]) == Some(want);
            assert(service_alike(p[i], q[i]));
            assert(service_type(q[i]) == Some(want));
        }
        if has_service(b, want) {
            let i = choose|i: int|
                0 <= i < q.len() && service_type(#[trigger] q[i]) == Some(want);
            assert(service_alike(p[i], q[i]));
            assert(service_type(p[i]) == Some(want));
        }
    }
}

proof fn lemma_first_alike(a: Seq<Json>, b: Seq<Json>, want: Seq<char>)
    requires
        a.len() == b.len(),
        forall|i: int| 0 <= i < a.len() ==> accessory_alike(#[trigger] a[i], b[i]),
    ensures
        match (first_with(a, want), first_with(b, want)) {
            (Some(x), Some(y)) => accessory_alike(x, y),
            (None, None) => true,
            _ => false,
        },
    decreases a.len(),
{
    if a.len() > 0 {
        assert(accessory_alike(a[0], b[0]));
        lemma_accessory_alike(a[0], b[0]);
        assert forall|i: int| 0 <= i < a.drop_first().len() implies accessory_alike(
            #[trigger] a.drop_first()[i],
            b.drop_first()[i],
        ) by {
            assert(accessory_alike(a[i + 1], b[i + 1]));
        }
        lemma_first_alike(a.drop_first(), b.drop_first(), want);
    }
}

// ---------------------------------------------------------------------------------------
// What is told
// ---------------------------------------------------------------------------------------

proof fn lemma_find_alike(a: Seq<Characteristic>, b: Seq<Characteristic>, ty: Seq<char>)
    requires
        all_same_but_aid(a, b),
    ensures
        match (find(a, ty), find(b, ty)) {
            (Some(c), Some(d)) => same_but_aid(c, d),
            (None, None) => true,
            _ => false,
        },
        number(a, ty) == number(b, ty),
    decreases a.len(),
{
    if a.len() > 0 {
        assert(same_but_aid(a[0], b[0]));
        assert forall|i: int| 0 <= i < a.drop_first().len() implies same_but_aid(
            #[trigger] a.drop_first()[i],
            b.drop_first()[i],
        ) by {
            assert(same_but_aid(a[i + 1], b[i + 1]));
        }
        lemma_find_alike(a.drop_first(), b.drop_first(), ty);
    }
}

proof fn lemma_reading_alike(a: Seq<Characteristic>, b: Seq<Characteristic>)
    requires
        all_same_but_aid(a, b),
    ensures
        reading(a) == reading(b),
{
    lemma_find_alike(a, b, CH_CURRENT_TEMP@);
    lemma_find_alike(a, b, CH_CURRENT_HUMIDITY@);
    lemma_find_alike(a, b, CH_TARGET_STATE@);
    lemma_find_alike(a, b, CH_CURRENT_STATE@);
    lemma_find_alike(a, b, CH_DISPLAY_UNITS@);
    lemma_find_alike(a, b, CH_HEAT_THRESHOLD@);
    lemma_find_alike(a, b, CH_COOL_THRESHOLD@);
    lemma_find_alike(a, b, CH_TARGET_TEMP@);
}

// ---------------------------------------------------------------------------------------
// What is remembered
// ---------------------------------------------------------------------------------------

/// The numbers of an accessory and of a characteristic, where a value is a place.
pub open spec fn numbers(v: Json) -> Option<(u64, u64)> {
    match v {
        Json::Array(p) => if p.len() == 2 {
            match (p[0], p[1]) {
                (
                    Json::Number(Number::Unsigned(aid)),
                    Json::Number(Number::Unsigned(iid)),
                ) => Some((aid, iid)),
                _ => None,
            }
        } else {
            None
        },
        _ => None,
    }
}

/// Two values that are the same, or two places that differ only in the accessory's number.
pub open spec fn same_place_but_aid(x: Json, y: Json) -> bool {
    ||| x == y
    ||| match (numbers(x), numbers(y)) {
        (Some((_, i)), Some((_, j))) => i == j,
        _ => false,
    }
}

/// Two devices remember the same but for the accessories' numbers in the places.
pub open spec fn remember_alike(s: Map<Seq<char>, Json>, t: Map<Seq<char>, Json>) -> bool {
    &&& s.remove("iids"@) == t.remove("iids"@)
    &&& match (member(s, "iids"@), member(t, "iids"@)) {
        (Some(Json::Object(m)), Some(Json::Object(n))) => m.dom() == n.dom() && (forall|key: Seq<
            char,
        >|
            #![trigger m[key]]
            m.dom().contains(key) ==> same_place_but_aid(m[key], n[key])),
        (x, y) => x == y,
    }
}

proof fn lemma_remember_alike(
    s: Map<Seq<char>, Json>,
    t: Map<Seq<char>, Json>,
    key: Seq<char>,
    c: Option<Characteristic>,
    d: Option<Characteristic>,
)
    requires
        remember_alike(s, t),
        match (c, d) {
            (Some(c), Some(d)) => same_but_aid(c, d),
            (None, None) => true,
            _ => false,
        },
    ensures
        remember_alike(remember(s, key, c), remember(t, key, d)),
{
    if c is Some && places(s) is Some {
        let m = places(s)->0;
        let n = places(t)->0;
        let after_s = remember(s, key, c);
        let after_t = remember(t, key, d);
        let x = m.insert(key, place(c->0));
        let y = n.insert(key, place(d->0));
        assert(numbers(place(c->0)) == Some((c->0.aid, c->0.iid)));
        assert(numbers(place(d->0)) == Some((d->0.aid, d->0.iid)));
        assert(m.dom() == n.dom());
        assert(x.dom() =~= y.dom());
        assert forall|k: Seq<char>| #![trigger x[k]] x.dom().contains(k) implies same_place_but_aid(
            x[k],
            y[k],
        ) by {
            if k != key {
                assert(x[k] == m[k]);
            }
        }
        assert(after_s.remove("iids"@) =~= s.remove("iids"@));
        assert(after_t.remove("iids"@) =~= t.remove("iids"@));
        assert(member(after_s, "iids"@) == Some(Json::Object(x)));
        assert(member(after_t, "iids"@) == Some(Json::Object(y)));
    }
}

/// What stands under another key than the places' does not touch them.
proof fn lemma_insert_alike(
    s: Map<Seq<char>, Json>,
    t: Map<Seq<char>, Json>,
    key: Seq<char>,
    v: Json,
)
    requires
        remember_alike(s, t),
        key != "iids"@,
    ensures
        remember_alike(s.insert(key, v), t.insert(key, v)),
        member(s, key) == member(t, key),
{
    let x = s.remove("iids"@);
    let y = t.remove("iids"@);
    assert(s.insert(key, v).remove("iids"@) =~= x.insert(key, v));
    assert(t.insert(key, v).remove("iids"@) =~= y.insert(key, v));
    assert(member(s.insert(key, v), "iids"@) == member(s, "iids"@));
    assert(member(t.insert(key, v), "iids"@) == member(t, "iids"@));
    assert(x.dom().contains(key) == s.dom().contains(key));
    assert(y.dom().contains(key) == t.dom().contains(key));
    assert(s.dom().contains(key) ==> x[key] == s[key]);
    assert(t.dom().contains(key) ==> y[key] == t[key]);
}

proof fn lemma_learned_alike(
    s: Map<Seq<char>, Json>,
    t: Map<Seq<char>, Json>,
    a: Seq<Characteristic>,
    b: Seq<Characteristic>,
)
    requires
        remember_alike(s, t),
        all_same_but_aid(a, b),
    ensures
        remember_alike(learned(s, a), learned(t, b)),
{
    lemma_keys();
    lemma_find_alike(a, b, CH_TARGET_STATE@);
    lemma_find_alike(a, b, CH_TARGET_TEMP@);
    lemma_find_alike(a, b, CH_HEAT_THRESHOLD@);
    lemma_find_alike(a, b, CH_COOL_THRESHOLD@);
    let (c, d) = (find(a, CH_TARGET_STATE@), find(b, CH_TARGET_STATE@));
    lemma_remember_alike(s, t, "target_state"@, c, d);
    let (s, t) = (remember(s, "target_state"@, c), remember(t, "target_state"@, d));
    let (c, d) = (find(a, CH_TARGET_TEMP@), find(b, CH_TARGET_TEMP@));
    lemma_remember_alike(s, t, "target_temp"@, c, d);
    let (s, t) = (remember(s, "target_temp"@, c), remember(t, "target_temp"@, d));
    let (c, d) = (find(a, CH_HEAT_THRESHOLD@), find(b, CH_HEAT_THRESHOLD@));
    lemma_remember_alike(s, t, "heat_threshold"@, c, d);
    let (s, t) = (remember(s, "heat_threshold"@, c), remember(t, "heat_threshold"@, d));
    let (c, d) = (find(a, CH_COOL_THRESHOLD@), find(b, CH_COOL_THRESHOLD@));
    lemma_remember_alike(s, t, "cool_threshold"@, c, d);
    let (s, t) = (remember(s, "cool_threshold"@, c), remember(t, "cool_threshold"@, d));
    match number(a, CH_TARGET_STATE@) {
        Some(m) => {
            lemma_insert_alike(s, t, "mode"@, Json::Text(crate::model::accessory::mode_name(m)));
        },
        None => {},
    }
}

proof fn lemma_services_alike(a: Json, b: Json, p: Seq<Json>, q: Seq<Json>, start: Progress)
    requires
        services_alike(p, q),
    ensures
        thermostat_services(a, p, start).out == thermostat_services(b, q, start).out,
        remember_alike(
            thermostat_services(a, p, start).scratch,
            thermostat_services(b, q, start).scratch,
        ),
    decreases p.len(),
{
    if p.len() > 0 {
        let n = p.len() - 1;
        assert(service_alike(p[n], q[n]));
        assert forall|i: int| 0 <= i < p.drop_last().len() implies service_alike(
            #[trigger] p.drop_last()[i],
            q.drop_last()[i],
        ) by {
            assert(service_alike(p[i], q[i]));
        }
        lemma_services_alike(a, b, p.drop_last(), q.drop_last(), start);
        let before_a = thermostat_services(a, p.drop_last(), start);
        let before_b = thermostat_services(b, q.drop_last(), start);
        let x = characteristics(a, p[n]);
        let y = characteristics(b, q[n]);
        lemma_service_alike(a, b, p[n], q[n]);
        lemma_keys();
        lemma_reading_alike(x, y);
        lemma_learned_alike(before_a.scratch, before_b.scratch, x, y);
        lemma_find_alike(x, y, CH_OCCUPANCY@);
        lemma_find_alike(x, y, CH_CURRENT_TEMP@);
        lemma_insert_alike(before_a.scratch, before_b.scratch, "built_in"@, Json::Bool(true));
        lemma_insert_alike(before_a.scratch, before_b.scratch, "built_in"@, Json::Bool(false));
        let after_a = thermostat_service(a, p[n], before_a);
        let after_b = thermostat_service(b, q[n], before_b);
        assert(after_a.out == after_b.out);
        assert(remember_alike(after_a.scratch, after_b.scratch));
    }
}

/// Nothing goes by an accessory's number or by how a type is spelled: two documents that differ
/// only in these make the thermostat report the same, and remember the same but for the
/// accessory's number in the places that writes go to.
pub proof fn law_numbers_do_not_matter(scratch: Map<Seq<char>, Json>, one: Json, two: Json)
    requires
        alike(one, two),
    ensures
        thermostat_report(scratch, one).out == thermostat_report(scratch, two).out,
        remember_alike(
            thermostat_report(scratch, one).scratch,
            thermostat_report(scratch, two).scratch,
        ),
{
    lemma_first_alike(accessories(one), accessories(two), SRV_THERMOSTAT@);
    match (
        first_with(accessories(one), SRV_THERMOSTAT@),
        first_with(accessories(two), SRV_THERMOSTAT@),
    ) {
        (Some(a), Some(b)) => {
            lemma_accessory_alike(a, b);
            let start = Progress { scratch, out: seq![online(1)] };
            lemma_services_alike(a, b, services(a), services(b), start);
        },
        _ => {},
    }
}

/// What remembers alike writes alike: a key has a place in both or in neither, and the
/// characteristic's number there is the same.
pub proof fn law_places_are_alike(
    s: Map<Seq<char>, Json>,
    t: Map<Seq<char>, Json>,
    key: Seq<char>,
)
    requires
        remember_alike(s, t),
    ensures
        match (remembered(s, key), remembered(t, key)) {
            (Some(p), Some(q)) => p.1 == q.1,
            (None, None) => true,
            _ => false,
        },
{
    match (member(s, "iids"@), member(t, "iids"@)) {
        (Some(Json::Object(m)), Some(Json::Object(n))) => {
            assert(m.dom().contains(key) == n.dom().contains(key));
            if m.dom().contains(key) {
                assert(same_place_but_aid(m[key], n[key]));
            }
        },
        _ => {},
    }
}

proof fn lemma_first_numbered_alike(a: Seq<Json>, b: Seq<Json>, aid: u64)
    requires
        a.len() == b.len(),
        forall|i: int|
            0 <= i < a.len() ==> accessory_alike(#[trigger] a[i], b[i]) && aid_of(a[i]) == aid_of(
                b[i],
            ),
    ensures
        match (first_numbered(a, aid), first_numbered(b, aid)) {
            (Some(x), Some(y)) => accessory_alike(x, y) && aid_of(x) == aid_of(y),
            (None, None) => true,
            _ => false,
        },
    decreases a.len(),
{
    if a.len() > 0 {
        assert(accessory_alike(a[0], b[0]) && aid_of(a[0]) == aid_of(b[0]));
        assert forall|i: int| 0 <= i < a.drop_first().len() implies accessory_alike(
            #[trigger] a.drop_first()[i],
            b.drop_first()[i],
        ) && aid_of(a.drop_first()[i]) == aid_of(b.drop_first()[i]) by {
            assert(accessory_alike(a[i + 1], b[i + 1]) && aid_of(a[i + 1]) == aid_of(b[i + 1]));
        }
        lemma_first_numbered_alike(a.drop_first(), b.drop_first(), aid);
    }
}

proof fn lemma_sensor_services_alike(
    a: Json,
    b: Json,
    p: Seq<Json>,
    q: Seq<Json>,
    start: Progress,
)
    requires
        services_alike(p, q),
        aid_of(a) == aid_of(b),
    ensures
        sensor_services(a, p, start) == sensor_services(b, q, start),
    decreases p.len(),
{
    if p.len() > 0 {
        let n = p.len() - 1;
        assert(service_alike(p[n], q[n]));
        assert forall|i: int| 0 <= i < p.drop_last().len() implies service_alike(
            #[trigger] p.drop_last()[i],
            q.drop_last()[i],
        ) by {
            assert(service_alike(p[i], q[i]));
        }
        lemma_sensor_services_alike(a, b, p.drop_last(), q.drop_last(), start);
        lemma_service_alike(a, b, p[n], q[n]);
        let before = sensor_services(a, p.drop_last(), start);
        assert(sensor_service(a, p[n], before) == sensor_service(b, q[n], before));
    }
}

/// How a type is spelled does not matter to a room sensor either, which goes by its number: with
/// the numbers kept it reports and remembers the same.
pub proof fn law_spelling_does_not_matter(
    scratch: Map<Seq<char>, Json>,
    one: Json,
    two: Json,
    aid: u64,
)
    requires
        alike(one, two),
        forall|i: int|
            0 <= i < accessories(one).len() ==> aid_of(#[trigger] accessories(one)[i]) == aid_of(
                accessories(two)[i],
            ),
    ensures
        sensor_report(scratch, one, aid) == sensor_report(scratch, two, aid),
{
    let (a, b) = (accessories(one), accessories(two));
    assert forall|i: int| 0 <= i < a.len() implies accessory_alike(#[trigger] a[i], b[i]) && aid_of(
        a[i],
    ) == aid_of(b[i]) by {
        assert(accessory_alike(accessories(one)[i], accessories(two)[i]));
    }
    lemma_first_numbered_alike(a, b, aid);
    match (first_numbered(a, aid), first_numbered(b, aid)) {
        (Some(x), Some(y)) => {
            lemma_accessory_alike(x, y);
            let start = Progress { scratch, out: seq![online(1)] };
            lemma_sensor_services_alike(x, y, services(x), services(y), start);
        },
        _ => {},
    }
}

} // verus!
