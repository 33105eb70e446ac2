//! Typed access to the members of a JSON object.
//!
//! A member is *absent* where the key is missing or its value is `null`. A
//! required member that is absent, and any member whose value is of the wrong
//! kind, is a schema error that names the object and the key.

use crate::error::{ErrorView, TranslateError};
use crate::json::{items_view, Json, JsonNumber, JsonView, NumberView};
use vstd::prelude::*;
use vstd::string::StringExecFns;

verus! {

/// The view of a result whose error is a [`TranslateError`].
pub open spec fn outcome<T, V>(r: Result<T, TranslateError>, view_of: spec_fn(T) -> V) -> Result<
    V,
    ErrorView,
> {
    match r {
        Ok(value) => Ok(view_of(value)),
        Err(e) => Err(e@),
    }
}

/// The view of an optional string.
pub open spec fn text_view(o: Option<String>) -> Option<Seq<char>> {
    match o {
        Some(s) => Some(s@),
        None => None,
    }
}

/// The schema error for the member `field` of `object`.
pub open spec fn schema_error(object: Seq<char>, field: Seq<char>) -> ErrorView {
    ErrorView::SchemaError { object, field }
}

/// The JSON value of an optional string: the string, or `null`.
pub open spec fn text_or_null(o: Option<Seq<char>>) -> JsonView {
    match o {
        Some(s) => JsonView::Text(s),
        None => JsonView::Null,
    }
}

/// The JSON value of an optional boolean: the boolean, or `null`.
pub open spec fn bool_or_null(o: Option<bool>) -> JsonView {
    match o {
        Some(b) => JsonView::Bool(b),
        None => JsonView::Null,
    }
}

/// One member of an object.
pub fn entry(key: &str, value: Json) -> (out: (String, Json))
    ensures
        out.0@ == key@,
        out.1 == value,
{
    (String::from_str(key), value)
}

impl JsonView {
    /// A required string member.
    pub open spec fn text_member(self, object: Seq<char>, key: Seq<char>) -> Result<
        Seq<char>,
        ErrorView,
    > {
        match self.get(key) {
            Some(JsonView::Text(s)) => Ok(s),
            _ => Err(schema_error(object, key)),
        }
    }

    /// An optional string member.
    pub open spec fn optional_text_member(self, object: Seq<char>, key: Seq<char>) -> Result<
        Option<Seq<char>>,
        ErrorView,
    > {
        match self.get(key) {
            None => Ok(None),
            Some(JsonView::Null) => Ok(None),
            Some(JsonView::Text(s)) => Ok(Some(s)),
            Some(_) => Err(schema_error(object, key)),
        }
    }

    /// An optional boolean member.
    pub open spec fn optional_bool_member(self, object: Seq<char>, key: Seq<char>) -> Result<
        Option<bool>,
        ErrorView,
    > {
        match self.get(key) {
            None => Ok(None),
            Some(JsonView::Null) => Ok(None),
            Some(JsonView::Bool(b)) => Ok(Some(b)),
            Some(_) => Err(schema_error(object, key)),
        }
    }

    /// A required member that is a whole number from 0 to `u64::MAX`.
    pub open spec fn u64_member(self, object: Seq<char>, key: Seq<char>) -> Result<
        u64,
        ErrorView,
    > {
        match self.get(key) {
            Some(JsonView::Number(NumberView::Unsigned(u))) => Ok(u),
            _ => Err(schema_error(object, key)),
        }
    }

    /// An optional member that is a whole number from 0 to `u64::MAX`.
    pub open spec fn optional_u64_member(self, object: Seq<char>, key: Seq<char>) -> Result<
        Option<u64>,
        ErrorView,
    > {
        match self.get(key) {
            None => Ok(None),
            Some(JsonView::Null) => Ok(None),
            Some(JsonView::Number(NumberView::Unsigned(u))) => Ok(Some(u)),
            Some(_) => Err(schema_error(object, key)),
        }
    }

    /// The items of a required array member.
    pub open spec fn array_member(self, object: Seq<char>, key: Seq<char>) -> Result<
        Seq<JsonView>,
        ErrorView,
    > {
        match self.get(key) {
            Some(JsonView::Array(items)) => Ok(items),
            _ => Err(schema_error(object, key)),
        }
    }

    /// The items of an optional array member.
    pub open spec fn optional_array_member(self, object: Seq<char>, key: Seq<char>) -> Result<
        Option<Seq<JsonView>>,
        ErrorView,
    > {
        match self.get(key) {
            None => Ok(None),
            Some(JsonView::Null) => Ok(None),
            Some(JsonView::Array(items)) => Ok(Some(items)),
            Some(_) => Err(schema_error(object, key)),
        }
    }

    /// An optional member of any kind.
    pub open spec fn optional_member(self, key: Seq<char>) -> Option<JsonView> {
        match self.get(key) {
            None => None,
            Some(JsonView::Null) => None,
            Some(value) => Some(value),
        }
    }
}

impl Json {
    /// The JSON value of a string.
    pub fn text(s: &String) -> (out: Json)
        ensures
            out@ == JsonView::Text(s@),
    {
        Json::Text(s.clone())
    }

    /// The JSON value of an optional string.
    pub fn optional_text(o: &Option<String>) -> (out: Json)
        ensures
            out@ == text_or_null(text_view(*o)),
    {
        match o {
            Some(s) => Json::Text(s.clone()),
            None => Json::Null,
        }
    }

    /// The JSON value of an optional boolean.
    pub fn optional_bool(o: &Option<bool>) -> (out: Json)
        ensures
            out@ == bool_or_null(*o),
    {
        match o {
            Some(b) => Json::Bool(*b),
            None => Json::Null,
        }
    }

    /// A required string member.
    pub fn text_member(&self, object: &str, key: &str) -> (out: Result<String, TranslateError>)
        ensures
            outcome(out, |s: String| s@) == self@.text_member(object@, key@),
    {
        match self.get(key) {
            Some(Json::Text(s)) => Ok(s.clone()),
            _ => Err(TranslateError::schema(object, key)),
        }
    }

    /// An optional string member.
    pub fn optional_text_member(&self, object: &str, key: &str) -> (out: Result<
        Option<String>,
        TranslateError,
    >)
        ensures
            outcome(out, |o: Option<String>| text_view(o)) == self@.optional_text_member(
                object@,
                key@,
            ),
    {
        match self.get(key) {
            None => Ok(None),
            Some(Json::Null) => Ok(None),
            Some(Json::Text(s)) => Ok(Some(s.clone())),
            Some(_) => Err(TranslateError::schema(object, key)),
        }
    }

    /// An optional boolean member.
    pub fn optional_bool_member(&self, object: &str, key: &str) -> (out: Result<
        Option<bool>,
        TranslateError,
    >)
        ensures
            outcome(out, |o: Option<bool>| o) == self@.optional_bool_member(object@, key@),
    {
        match self.get(key) {
            None => Ok(None),
            Some(Json::Null) => Ok(None),
            Some(Json::Bool(b)) => Ok(Some(*b)),
            Some(_) => Err(TranslateError::schema(object, key)),
        }
    }

    /// A required member that is a whole number from 0 to `u64::MAX`.
    pub fn u64_member(&self, object: &str, key: &str) -> (out: Result<u64, TranslateError>)
        ensures
            outcome(out, |u: u64| u) == self@.u64_member(object@, key@),
    {
        match self.get(key) {
            Some(Json::Number(JsonNumber::Unsigned(u))) => Ok(*u),
            _ => Err(TranslateError::schema(object, key)),
        }
    }

    /// An optional member that is a whole number from 0 to `u64::MAX`.
    pub fn optional_u64_member(&self, object: &str, key: &str) -> (out: Result<
        Option<u64>,
        TranslateError,
    >)
        ensures
            outcome(out, |o: Option<u64>| o) == self@.optional_u64_member(object@, key@),
    {
        match self.get(key) {
            None => Ok(None),
            Some(Json::Null) => Ok(None),
            Some(Json::Number(JsonNumber::Unsigned(u))) => Ok(Some(*u)),
            Some(_) => Err(TranslateError::schema(object, key)),
        }
    }

    /// The items of a required array member.
    pub fn array_member(&self, object: &str, key: &str) -> (out: Result<
        &Vec<Json>,
        TranslateError,
    >)
        ensures
            outcome(out, |items: &Vec<Json>| items_view(items@)) == self@.array_member(
                object@,
                key@,
            ),
    {
        match self.get(key) {
            Some(Json::Array(items)) => Ok(items),
            _ => Err(TranslateError::schema(object, key)),
        }
    }

    /// The items of an optional array member.
    pub fn optional_array_member(&self, object: &str, key: &str) -> (out: Result<
        Option<&Vec<Json>>,
        TranslateError,
    >)
        ensures
            outcome(
                out,
                |o: Option<&Vec<Json>>|
                    match o {
                        Some(items) => Some(items_view(items@)),
                        None => None,
                    },
            ) == self@.optional_array_member(object@, key@),
    {
        match self.get(key) {
            None => Ok(None),
            Some(Json::Null) => Ok(None),
            Some(Json::Array(items)) => Ok(Some(items)),
            Some(_) => Err(TranslateError::schema(object, key)),
        }
    }

    /// An optional member of any kind.
    pub fn optional_member(&self, key: &str) -> (out: Option<&Json>)
        ensures
            match out {
                Some(value) => self@.optional_member(key@) == Some(value@),
                None => self@.optional_member(key@) is None,
            },
    {
        match self.get(key) {
            None => None,
            Some(Json::Null) => None,
            Some(value) => Some(value),
        }
    }
}

} // verus!
