//! Typed payloads exchanged between rooms, games and users.

use vstd::prelude::*;

verus! {

/// Raw bytes of a payload.
#[derive(Debug, Clone, PartialEq, Eq, Hash)]
pub struct Data(pub Vec<u8>);

/// Name of an encoding, such as "json".
#[derive(Debug, Clone, PartialEq, Eq, Hash)]
pub struct Codec(pub String);

/// An application and its revision.
#[derive(Debug, Clone)]
pub struct App {
    pub id: String,
    pub revision: u32,
}

/// The type of a payload: which application defines it and its name there.
#[derive(Debug, Clone)]
pub struct DataType {
    pub app: App,
    pub kind: String,
}

/// A payload with its type and encoding.
#[derive(Debug, Clone)]
pub struct TypedData {
    pub data_type: DataType,
    pub codec: String,
    pub data: Data,
}

} // verus!

verus! {

/// A copy of the bytes.
pub fn copy_bytes(v: &Vec<u8>) -> (r: Vec<u8>)
    ensures
        r@ == v@,
{
    let mut r: Vec<u8> = Vec::new();
    let n = v.len();
    for i in 0..n
        invariant
            n == v@.len(),
            r@ == v@.take(i as int),
    {
        r.push(v[i]);
        assert(v@.take(i + 1) =~= v@.take(i as int).push(v@[i as int]));
    }
    assert(v@.take(n as int) =~= v@);
    r
}

/// Two payloads of the same type, encoding and bytes.
pub open spec fn same_typed(a: TypedData, b: TypedData) -> bool {
    &&& a.data_type == b.data_type
    &&& a.codec == b.codec
    &&& a.data.0@ == b.data.0@
}

impl TypedData {
    /// A copy of the payload.
    pub fn copy(&self) -> (r: TypedData)
        ensures
            same_typed(r, *self),
    {
        TypedData {
            data_type: DataType {
                app: App { id: self.data_type.app.id.clone(), revision: self.data_type.app.revision },
                kind: self.data_type.kind.clone(),
            },
            codec: self.codec.clone(),
            data: Data(copy_bytes(&self.data.0)),
        }
    }
}

} // verus!
