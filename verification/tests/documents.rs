use ecobee_hap::accessory::{
    accessories, aid_of, characteristic, characteristics, find, has_service, name_of, number,
    service_type, services,
};
use ecobee_hap::double::Double;
use ecobee_hap::json::{Number, Object, Value};
use ecobee_hap::report::{first_numbered, first_with};

fn value(v: &serde_json::Value) -> Value {
    match v {
        serde_json::Value::Null => Value::Null,
        serde_json::Value::Bool(b) => Value::Bool(*b),
        serde_json::Value::Number(n) => Value::Number(match (n.as_u64(), n.as_i64()) {
            (Some(u), _) => Number::Unsigned(u),
            (None, Some(i)) => Number::Signed(i),
            _ => Number::Float(Double { bits: n.as_f64().unwrap().to_bits() }),
        }),
        serde_json::Value::String(s) => Value::text(s),
        serde_json::Value::Array(items) => Value::Array(items.iter().map(value).collect()),
        serde_json::Value::Object(m) => {
            let mut o = Object::new();
            for (k, v) in m {
                o.insert(k, value(v));
            }
            Value::Object(o)
        }
    }
}

fn doc(text: &str) -> Value {
    value(&serde_json::from_str(text).unwrap())
}

#[test]
fn a_key_stands_once() {
    let mut o = Object::new();
    assert_eq!(o.get("a"), None);
    o.insert("a", Value::unsigned(1));
    o.insert("b", Value::unsigned(2));
    o.insert("a", Value::text("x"));
    assert_eq!(o.get("a"), Some(&Value::text("x")));
    assert_eq!(o.get("b"), Some(&Value::unsigned(2)));
    assert_eq!(o.get("c"), None);
    assert_eq!(o.entries().len(), 2);
    assert_eq!(o.copy(), o);
}

#[test]
fn a_value_is_read_as_what_it_is() {
    let v = doc(r#"{"t": "x", "u": 7, "i": -7, "f": 7.5, "b": true, "n": null, "a": [1, [2]]}"#);
    assert_eq!(v.text_at("t"), Some("x"));
    assert_eq!(v.text_at("u"), None);
    assert_eq!(v.unsigned_at("u"), Some(7));
    assert_eq!(v.unsigned_at("i"), None);
    assert_eq!(v.unsigned_at("f"), None);
    assert_eq!(v.get("u").unwrap().as_double(), Some(Double { bits: 7.0f64.to_bits() }));
    assert_eq!(v.get("i").unwrap().as_double(), Some(Double { bits: (-7.0f64).to_bits() }));
    assert_eq!(v.get("f").unwrap().as_double(), Some(Double { bits: 7.5f64.to_bits() }));
    assert_eq!(v.get("t").unwrap().as_double(), None);
    assert_eq!(v.get("b").unwrap().as_bool(), Some(true));
    assert_eq!(v.get("u").unwrap().as_bool(), None);
    assert_eq!(v.get("n"), Some(&Value::Null));
    assert_eq!(v.items_at("a").len(), 2);
    assert!(v.items_at("t").is_empty());
    assert!(v.items_at("missing").is_empty());
    assert_eq!(v.get("a").unwrap().at(0), Some(&Value::unsigned(1)));
    assert_eq!(v.get("a").unwrap().at(2), None);
    assert_eq!(v.get("a").unwrap().get("0"), None);
    assert_eq!(v.at(0), None);
    assert_eq!(v.copy(), v);
}

#[test]
fn a_document_without_a_list_has_no_accessories() {
    assert!(accessories(&Value::Null).is_empty());
    assert!(accessories(&doc(r#"{"accessories": 3}"#)).is_empty());
    assert!(accessories(&doc(r#"{"accessories": []}"#)).is_empty());
    assert_eq!(accessories(&doc(r#"{"accessories": [1, 2]}"#)).len(), 2);
    assert!(services(&doc(r#"{"services": {}}"#)).is_empty());
}

#[test]
fn an_accessory_without_a_number_is_zero() {
    assert_eq!(aid_of(&doc(r#"{"aid": 12}"#)), 12);
    assert_eq!(aid_of(&doc(r#"{"aid": "12"}"#)), 0);
    assert_eq!(aid_of(&doc("{}")), 0);
}

#[test]
fn a_service_is_known_by_its_type() {
    let a = doc(r#"{"services": [{"type": "3E"}, {}, {"type": "0000004A-0000-1000-8000-0026BB765291"}]}"#);
    assert!(has_service(&a, "4A"));
    assert!(has_service(&a, "3E"));
    assert!(!has_service(&a, "86"));
    assert_eq!(service_type(services(&a)[1]), None);
    assert_eq!(service_type(services(&a)[2]), Some("4A".to_string()));
}

#[test]
fn a_characteristic_needs_a_number_and_a_type() {
    let a = doc(r#"{"aid": 5}"#);
    let s = doc(
        r#"{"characteristics": [
            {"type": "11", "value": 1},
            {"iid": 2, "value": 1},
            {"iid": -3, "type": "11", "value": 1},
            {"iid": 4, "type": "00000011", "value": 21.5},
            {"iid": 6, "type": "23"},
            {"iid": 7, "type": "11", "value": 99}
        ]}"#,
    );
    let chars = characteristics(&a, &s);
    assert_eq!(chars.len(), 3);
    assert_eq!((chars[0].aid, chars[0].iid, chars[0].ty.as_str()), (5, 4, "11"));
    assert_eq!(chars[1].value, Value::Null);
    assert_eq!(find(&chars, "11").unwrap().iid, 4);
    assert_eq!(number(&chars, "11"), Some(Double { bits: 21.5f64.to_bits() }));
    assert_eq!(number(&chars, "23"), None);
    assert!(find(&chars, "35").is_none());
    assert!(characteristics(&a, &doc("{}")).is_empty());
    assert!(characteristic(1, &Value::Null).is_none());
}

#[test]
fn an_empty_name_is_no_name() {
    let a = Value::Null;
    let named = doc(r#"{"characteristics": [{"iid": 1, "type": "23", "value": "Hall"}]}"#);
    let empty = doc(r#"{"characteristics": [{"iid": 1, "type": "23", "value": ""}]}"#);
    let number = doc(r#"{"characteristics": [{"iid": 1, "type": "23", "value": 3}]}"#);
    assert_eq!(name_of(&characteristics(&a, &named)), Some("Hall".to_string()));
    assert_eq!(name_of(&characteristics(&a, &empty)), None);
    assert_eq!(name_of(&characteristics(&a, &number)), None);
}

#[test]
fn the_first_that_fits_counts() {
    let d = doc(
        r#"{"accessories": [
            {"aid": 3, "services": []},
            {"aid": 3, "services": [{"type": "4A"}]},
            {"aid": 4, "services": [{"type": "4A"}]}
        ]}"#,
    );
    let list = accessories(&d);
    assert_eq!(first_with(&list, "4A"), Some(list[1]));
    assert_eq!(first_with(&list, "86"), None);
    assert_eq!(first_numbered(&list, 3), Some(list[0]));
    assert_eq!(first_numbered(&list, 9), None);
}
