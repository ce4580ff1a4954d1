//! JSON documents.

use std::sync::Arc;

use vstd::prelude::*;

use crate::keyed::StringMap;

verus! {

/// A JSON document. Numbers keep their text.
#[derive(Debug)]
pub enum Json {
    Null,
    Bool(bool),
    Number(String),
    Text(String),
    Array(Vec<Arc<Json>>),
    Object(StringMap<Arc<Json>>),
}

impl Json {
    /// No object in the document holds a field twice, at its top level.
    pub open spec fn wf(&self) -> bool {
        match self {
            Json::Object(fields) => fields.wf(),
            _ => true,
        }
    }

    /// The fields of an object; a document of another kind has none.
    pub open spec fn fields(&self) -> Map<Seq<char>, Arc<Json>> {
        match self {
            Json::Object(fields) => fields@,
            _ => Map::empty(),
        }
    }

    /// The document as an object.
    pub fn as_object(&self) -> (r: Option<&StringMap<Arc<Json>>>)
        ensures
            match r {
                Some(o) => *self == Json::Object(*o),
                None => !(self is Object),
            },
    {
        match self {
            Json::Object(o) => Some(o),
            _ => None,
        }
    }
}

} // verus!
