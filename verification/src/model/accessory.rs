//! The accessory database, as a document says it.

use crate::accessory::CH_NAME;
use crate::double::{truncated, Double};
use crate::json::Json;
use crate::text::{before, upper, without_leading};
use vstd::prelude::*;

verus! {

/// One characteristic, out of the nesting that carried it.
pub struct Characteristic {
    /// The accessory it belongs to.
    pub aid: u64,
    /// Its own number on that accessory.
    pub iid: u64,
    /// Its type, in short form.
    pub ty: Seq<char>,
    /// Its current value.
    pub value: Json,
}

/// A service or characteristic type in short form: the part before the first dash, without
/// leading zeros, in capitals.
pub open spec fn hap_type(raw: Seq<char>) -> Seq<char> {
    let short = upper(without_leading(before(raw, '-'), '0'));
    if short.len() == 0 {
        "0"@
    } else {
        short
    }
}

/// The accessories of a document.
pub open spec fn accessories(doc: Json) -> Seq<Json> {
    doc.items_at("accessories"@)
}

/// The services of an accessory.
pub open spec fn services(accessory: Json) -> Seq<Json> {
    accessory.items_at("services"@)
}

/// The number of an accessory.
pub open spec fn aid_of(accessory: Json) -> u64 {
    match accessory.unsigned_at("aid"@) {
        Some(aid) => aid,
        None => 0,
    }
}

/// The short type of a service, where it has one.
pub open spec fn service_type(service: Json) -> Option<Seq<char>> {
    match service.text_at("type"@) {
        Some(raw) => Some(hap_type(raw)),
        None => None,
    }
}

/// Whether some service of an accessory has a type.
pub open spec fn has_service(accessory: Json, want: Seq<char>) -> bool {
    exists|i: int|
        0 <= i < services(accessory).len() && service_type(#[trigger] services(accessory)[i]) == Some(
            want,
        )
}

/// A characteristic as it stands in a service. One without a number or a type is left out.
pub open spec fn characteristic(aid: u64, c: Json) -> Option<Characteristic> {
    match (c.unsigned_at("iid"@), c.text_at("type"@)) {
        (Some(iid), Some(raw)) => Some(
            Characteristic {
                aid,
                iid,
                ty: hap_type(raw),
                value: match c.get("value"@) {
                    Some(v) => v,
                    None => Json::Null,
                },
            },
        ),
        _ => None,
    }
}

/// The characteristics of a list, in its order.
pub open spec fn listed(aid: u64, list: Seq<Json>) -> Seq<Characteristic>
    decreases list.len(),
{
    if list.len() == 0 {
        Seq::empty()
    } else {
        match characteristic(aid, list.last()) {
            Some(c) => listed(aid, list.drop_last()).push(c),
            None => listed(aid, list.drop_last()),
        }
    }
}

/// The characteristics of one service of an accessory.
pub open spec fn characteristics(accessory: Json, service: Json) -> Seq<Characteristic> {
    listed(aid_of(accessory), service.items_at("characteristics"@))
}

/// The first characteristic of a type.
pub open spec fn find(chars: Seq<Characteristic>, ty: Seq<char>) -> Option<Characteristic>
    decreases chars.len(),
{
    if chars.len() == 0 {
        None
    } else if chars[0].ty == ty {
        Some(chars[0])
    } else {
        find(chars.drop_first(), ty)
    }
}

/// The number that the first characteristic of a type holds.
pub open spec fn number(chars: Seq<Characteristic>, ty: Seq<char>) -> Option<Double> {
    match find(chars, ty) {
        Some(c) => c.value.double(),
        None => None,
    }
}

/// The name that a service carries, unless it is empty.
pub open spec fn name_of(chars: Seq<Characteristic>) -> Option<Seq<char>> {
    match find(chars, CH_NAME@) {
        Some(c) => match c.value.text() {
            Some(name) => if name.len() > 0 {
                Some(name)
            } else {
                None
            },
            None => None,
        },
        None => None,
    }
}

/// The word for a target state number.
pub open spec fn mode_name(v: Double) -> Seq<char> {
    if truncated(v.bits) == 1 {
        "heat"@
    } else if truncated(v.bits) == 2 {
        "cool"@
    } else if truncated(v.bits) == 3 {
        "auto"@
    } else {
        "off"@
    }
}

/// The target state number for a word.
pub open spec fn mode_value(name: Seq<char>) -> Option<u8> {
    if name == "off"@ {
        Some(0)
    } else if name == "heat"@ {
        Some(1)
    } else if name == "cool"@ {
        Some(2)
    } else if name == "auto"@ {
        Some(3)
    } else {
        None
    }
}

/// The word for a current state number.
pub open spec fn hvac_state(v: Double) -> Seq<char> {
    if truncated(v.bits) == 1 {
        "heating"@
    } else if truncated(v.bits) == 2 {
        "cooling"@
    } else {
        "idle"@
    }
}

} // verus!
