//! Reading the accessory database.
//!
//! One document holds every accessory, every service and every characteristic with its
//! current value. Nothing here goes by an accessory's number: the thermostat is the accessory
//! with a thermostat service.

use crate::double::Double;
use crate::json::{all_seen, Value};
use crate::model::accessory as model;
use crate::text::{head, same, skip_leading, to_uppercase};
use vstd::prelude::*;

verus! {

/// The thermostat service.
pub const SRV_THERMOSTAT: &'static str = "4A";

/// The temperature sensor service.
pub const SRV_TEMPERATURE: &'static str = "8A";

/// The occupancy sensor service.
pub const SRV_OCCUPANCY: &'static str = "86";

/// What the equipment is doing.
pub const CH_CURRENT_STATE: &'static str = "F";

/// What the thermostat has been told to do.
pub const CH_TARGET_STATE: &'static str = "33";

/// The measured temperature.
pub const CH_CURRENT_TEMP: &'static str = "11";

/// The temperature to hold outside auto.
pub const CH_TARGET_TEMP: &'static str = "35";

/// The upper end of the band to hold in auto.
pub const CH_COOL_THRESHOLD: &'static str = "D";

/// The lower end of the band to hold in auto.
pub const CH_HEAT_THRESHOLD: &'static str = "12";

/// The measured humidity.
pub const CH_CURRENT_HUMIDITY: &'static str = "10";

/// Whether someone is there.
pub const CH_OCCUPANCY: &'static str = "71";

/// What the accessory or service is called.
pub const CH_NAME: &'static str = "23";

/// The unit on the wall: 0 Celsius, 1 Fahrenheit.
pub const CH_DISPLAY_UNITS: &'static str = "36";

/// One characteristic, out of the nesting that carried it.
pub struct Characteristic {
    /// The accessory it belongs to.
    pub aid: u64,
    /// Its own number on that accessory.
    pub iid: u64,
    /// Its type, in short form.
    pub ty: String,
    /// Its current value.
    pub value: Value,
}

impl View for Characteristic {
    type V = model::Characteristic;

    open spec fn view(&self) -> model::Characteristic {
        model::Characteristic { aid: self.aid, iid: self.iid, ty: self.ty@, value: self.value@ }
    }
}

/// What a list of characteristics says.
pub open spec fn views(chars: Seq<Characteristic>) -> Seq<model::Characteristic> {
    chars.map_values(|c: Characteristic| c@)
}

/// What a string says, where there is one.
pub open spec fn spoken(s: Option<String>) -> Option<Seq<char>> {
    match s {
        Some(s) => Some(s@),
        None => None,
    }
}

/// `0000004A-0000-1000-8000-0026BB765291`, `004A` and `4A` are the same type.
pub fn hap_type(raw: &str) -> (r: String)
    ensures
        r@ == model::hap_type(raw@),
{
    let short: String = to_uppercase(skip_leading(head(raw, '-'), '0'));
    if short.as_str().is_empty() {
        "0".to_owned()
    } else {
        short
    }
}

/// The accessories of a document.
pub fn accessories(doc: &Value) -> (r: Vec<&Value>)
    ensures
        all_seen(r@) == model::accessories(doc@),
{
    doc.items_at("accessories")
}

/// The services of an accessory.
pub fn services(accessory: &Value) -> (r: Vec<&Value>)
    ensures
        all_seen(r@) == model::services(accessory@),
{
    accessory.items_at("services")
}

/// The number of an accessory; 0 where it has none.
pub fn aid_of(accessory: &Value) -> (aid: u64)
    ensures
        aid == model::aid_of(accessory@),
{
    match accessory.unsigned_at("aid") {
        Some(aid) => aid,
        None => 0,
    }
}

/// The short type of a service, where it has one.
pub fn service_type(service: &Value) -> (r: Option<String>)
    ensures
        spoken(r) == model::service_type(service@),
{
    match service.text_at("type") {
        Some(raw) => Some(hap_type(raw)),
        None => None,
    }
}

/// Whether some service of an accessory has a type.
pub fn has_service(accessory: &Value, want: &str) -> (r: bool)
    ensures
        r == model::has_service(accessory@, want@),
{
    let list: Vec<&Value> = services(accessory);
    let n: usize = list.len();
    let mut i: usize = 0;
    while i < n
        invariant
            i <= n == list@.len(),
            all_seen(list@) == model::services(accessory@),
            forall|j: int|
                0 <= j < i ==> model::service_type(#[trigger] model::services(accessory@)[j]) != Some(
                    want@,
                ),
        decreases n - i,
    {
        assert(model::services(accessory@)[i as int] == list@[i as int]@);
        match service_type(list[i]) {
            Some(ty) => {
                if same(ty.as_str(), want) {
                    return true;
                }
            },
            None => {},
        }
        i = i + 1;
    }
    false
}

/// A characteristic as it stands in a service. One without a number or a type is left out.
pub fn characteristic(aid: u64, c: &Value) -> (r: Option<Characteristic>)
    ensures
        match r {
            Some(x) => model::characteristic(aid, c@) == Some(x@),
            None => model::characteristic(aid, c@) is None,
        },
{
    match (c.unsigned_at("iid"), c.text_at("type")) {
        (Some(iid), Some(raw)) => {
            let value: Value = match c.get("value") {
                Some(v) => v.copy(),
                None => Value::Null,
            };
            Some(Characteristic { aid, iid, ty: hap_type(raw), value })
        },
        _ => None,
    }
}

/// Every characteristic of one service on one accessory.
pub fn characteristics(accessory: &Value, service: &Value) -> (r: Vec<Characteristic>)
    ensures
        views(r@) == model::characteristics(accessory@, service@),
{
    let aid: u64 = aid_of(accessory);
    let list: Vec<&Value> = service.items_at("characteristics");
    let ghost items = service@.items_at("characteristics"@);
    let n: usize = list.len();
    let mut r: Vec<Characteristic> = Vec::new();
    let mut i: usize = 0;
    assert(views(r@) =~= model::listed(aid, items.take(0)));
    while i < n
        invariant
            i <= n == list@.len(),
            all_seen(list@) == items,
            views(r@) == model::listed(aid, items.take(i as int)),
        decreases n - i,
    {
        let ghost before = r@;
        assert(items[i as int] == list@[i as int]@);
        assert(items.take(i + 1).drop_last() == items.take(i as int));
        match characteristic(aid, list[i]) {
            Some(c) => {
                r.push(c);
                assert(views(r@) =~= views(before).push(c@));
            },
            None => {},
        }
        i = i + 1;
    }
    assert(items.take(n as int) == items);
    r
}

/// The first characteristic of a type.
pub fn find<'a>(chars: &'a Vec<Characteristic>, ty: &str) -> (r: Option<&'a Characteristic>)
    ensures
        match r {
            Some(c) => model::find(views(chars@), ty@) == Some(c@),
            None => model::find(views(chars@), ty@) is None,
        },
{
    let n: usize = chars.len();
    let mut i: usize = 0;
    let ghost all = views(chars@);
    assert(all.skip(0) == all);
    while i < n
        invariant
            i <= n == chars@.len(),
            all == views(chars@),
            model::find(all, ty@) == model::find(all.skip(i as int), ty@),
        decreases n - i,
    {
        assert(all.skip(i as int)[0] == chars@[i as int]@);
        assert(all.skip(i as int).drop_first() == all.skip(i + 1));
        if same(chars[i].ty.as_str(), ty) {
            return Some(&chars[i]);
        }
        i = i + 1;
    }
    None
}

/// The number that the first characteristic of a type holds.
pub fn number(chars: &Vec<Characteristic>, ty: &str) -> (r: Option<Double>)
    ensures
        r == model::number(views(chars@), ty@),
{
    match find(chars, ty) {
        Some(c) => c.value.as_double(),
        None => None,
    }
}

/// A service's own name: what the installer called it, which is a far better label than
/// "Sensor 2".
pub fn name_of(chars: &Vec<Characteristic>) -> (r: Option<String>)
    ensures
        spoken(r) == model::name_of(views(chars@)),
{
    match find(chars, CH_NAME) {
        Some(c) => match c.value.as_str() {
            Some(name) => if name.is_empty() {
                None
            } else {
                Some(name.to_owned())
            },
            None => None,
        },
        None => None,
    }
}

/// HomeKit's heating/cooling state numbers, in the words the thermostat proxy uses.
pub fn mode_name(v: Double) -> (r: &'static str)
    ensures
        r@ == model::mode_name(v),
{
    match v.whole() {
        1 => "heat",
        2 => "cool",
        3 => "auto",
        _ => "off",
    }
}

/// The state number for a word of the thermostat proxy.
pub fn mode_value(name: &str) -> (r: Option<u8>)
    ensures
        r == model::mode_value(name@),
{
    if same(name, "off") {
        Some(0)
    } else if same(name, "heat") {
        Some(1)
    } else if same(name, "cool") {
        Some(2)
    } else if same(name, "auto") {
        Some(3)
    } else {
        None
    }
}

/// What the equipment is doing right now, as opposed to what it has been told to do.
pub fn hvac_state(v: Double) -> (r: &'static str)
    ensures
        r@ == model::hvac_state(v),
{
    match v.whole() {
        1 => "heating",
        2 => "cooling",
        _ => "idle",
    }
}

} // verus!
