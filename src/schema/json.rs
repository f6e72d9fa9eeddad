//! Checks on JSON values.
use serde_json::Value;
use vstd::prelude::*;
use crate::schema::ValidationResult;

verus! {

/// `serde_json::Map`, carried through unopened.
#[verifier::external_type_specification]
#[verifier::external_body]
#[verifier::reject_recursive_types(K)]
#[verifier::reject_recursive_types(V)]
pub struct ExJsonMap<K, V>(serde_json::Map<K, V>);

/// Relies on `Value::as_str`: the text of a string value, `None` for
/// other values.
pub assume_specification<'a>[ Value::as_str ](v: &'a Value) -> Option<&'a str>;

/// Relies on `Value::as_bool`: the boolean of a boolean value, `None` for
/// other values.
pub assume_specification[ Value::as_bool ](v: &Value) -> Option<bool>;

/// Relies on `Value::as_array`: the items of an array value, `None` for
/// other values.
pub assume_specification<'a>[ Value::as_array ](v: &'a Value) -> Option<&'a Vec<Value>>;

/// Relies on `Value::as_object`: the entries of an object value, `None`
/// for other values.
pub assume_specification<'a>[ Value::as_object ](v: &'a Value) -> Option<
    &'a serde_json::Map<String, Value>,
>;

/// Relies on `Value`'s `Clone`: a copy of the value.
pub assume_specification[ <Value as Clone>::clone ](v: &Value) -> Value;

/// Relies on `serde_json::Map`'s `Clone`: a copy of the entries.
pub assume_specification[ <serde_json::Map<String, Value> as Clone>::clone ](
    m: &serde_json::Map<String, Value>,
) -> serde_json::Map<String, Value>;

/// Relies on `Value`'s `Index<&str>`: the entry `key` of an object value,
/// or `Value::Null` when there is none.
#[verifier::external_body]
pub(crate) fn json_field<'a>(v: &'a Value, key: &str) -> (r: &'a Value) {
    &v[key]
}

/// Relies on `serde_json::from_str`, its error turned into an
/// `anyhow::Error` that carries the context `Failed to parse JSON`:
/// reads `json_str` as a JSON value.
#[verifier::external_body]
pub(crate) fn read_json(json_str: &str) -> (r: Result<Value, anyhow::Error>) {
    serde_json::from_str::<Value>(json_str).map_err(|e| anyhow::Error::new(e).context("Failed to parse JSON"))
}

/// Accepts a string value, giving its text; else `Expected string`.
pub fn validate_string(value: &Value) -> (r: ValidationResult<String>)
    ensures
        r matches ValidationResult::Failure(m) ==> m@ == "Expected string"@,
{
    match value.as_str() {
        Some(s) => ValidationResult::Success(String::from_str(s)),
        None => ValidationResult::Failure(String::from_str("Expected string")),
    }
}

/// Accepts a boolean value; else `Expected boolean`.
pub fn validate_bool(value: &Value) -> (r: ValidationResult<bool>)
    ensures
        r matches ValidationResult::Failure(m) ==> m@ == "Expected boolean"@,
{
    match value.as_bool() {
        Some(b) => ValidationResult::Success(b),
        None => ValidationResult::Failure(String::from_str("Expected boolean")),
    }
}

/// Accepts an array value, giving a copy of its items; else `Expected array`.
pub fn validate_array(value: &Value) -> (r: ValidationResult<Vec<Value>>)
    ensures
        r matches ValidationResult::Failure(m) ==> m@ == "Expected array"@,
{
    match value.as_array() {
        Some(items) => {
            let mut copy: Vec<Value> = Vec::new();
            let n = items.len();
            for i in 0..n
                invariant
                    n == items.len(),
                    copy.len() == i,
            {
                copy.push(items[i].clone());
            }
            ValidationResult::Success(copy)
        },
        None => ValidationResult::Failure(String::from_str("Expected array")),
    }
}

/// Accepts an object value, giving a copy of its entries; else `Expected object`.
pub fn validate_object(value: &Value) -> (r: ValidationResult<serde_json::Map<String, Value>>)
    ensures
        r matches ValidationResult::Failure(m) ==> m@ == "Expected object"@,
{
    match value.as_object() {
        Some(entries) => ValidationResult::Success(entries.clone()),
        None => ValidationResult::Failure(String::from_str("Expected object")),
    }
}

/// Reads `json_str` as a JSON value.
pub fn parse_json(json_str: &str) -> (r: Result<Value, anyhow::Error>) {
    read_json(json_str)
}

/// Applies `validator` to `value`.
pub fn validate_with<T, F>(value: &Value, validator: F) -> (r: ValidationResult<T>)
    where
        F: Fn(&Value) -> ValidationResult<T>,
    requires
        validator.requires((value,)),
    ensures
        validator.ensures((value,), r),
{
    validator(value)
}

} // verus!
