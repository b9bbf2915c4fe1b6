//! The search paths and type attributes of the nervous system protobuf build.
use std::path::Path;
use vstd::prelude::*;

verus! {

#[verifier::external_type_specification]
#[verifier::external_body]
pub struct ExPath(Path);

/// Search paths used by Prost.
pub struct ProtoPaths<'a> {
    pub nervous_system: &'a Path,
}

impl ProtoPaths<'_> {
    /// The search paths, in order.
    pub fn to_vec(&self) -> (r: Vec<&Path>)
        ensures
            r@ == seq![self.nervous_system],
    {
        vec![self.nervous_system]
    }
}

/// The message types that are made `Copy` (all but `Image`).
pub const COPY_TYPE_NAMES: [&'static str; 3] = ["Duration", "Tokens", "Percentage"];

/// The package of the nervous system messages, followed by a dot.
pub open spec fn package_prefix() -> Seq<char> {
    "ic_nervous_system.pb.v1."@
}

/// The type attributes of the build, in the order they are applied: every
/// type is made Candid-serializable, comparable and serializable, and each
/// of the `Copy` types gets `#[derive(Copy)]`.
pub open spec fn prost_type_attributes_spec() -> Seq<(Seq<char>, Seq<char>)> {
    seq![
        ("."@, "#[derive(candid::CandidType, candid::Deserialize)]"@),
        ("."@, "#[derive(comparable::Comparable, serde::Serialize)]"@),
        (package_prefix() + "Duration"@, "#[derive(Copy)]"@),
        (package_prefix() + "Tokens"@, "#[derive(Copy)]"@),
        (package_prefix() + "Percentage"@, "#[derive(Copy)]"@),
    ]
}

/// The path of the nervous system message type `message_name`.
pub fn message_type_path(message_name: &str) -> (r: String)
    ensures
        r@ == package_prefix() + message_name@,
{
    let r = String::from_str("ic_nervous_system.pb.v1.");
    r.concat(message_name)
}

/// The type attributes to give the generated types: each a path and an attribute.
pub fn prost_type_attributes() -> (r: Vec<(String, String)>)
    ensures
        r@.len() == prost_type_attributes_spec().len(),
        forall|i: int|
            0 <= i < r@.len() ==> (#[trigger] r@[i]).0@ == prost_type_attributes_spec()[i].0
                && r@[i].1@ == prost_type_attributes_spec()[i].1,
{
    let mut r: Vec<(String, String)> = Vec::new();
    // Candid-ify generated Rust types.
    r.push(
        (
            String::from_str("."),
            String::from_str("#[derive(candid::CandidType, candid::Deserialize)]"),
        ),
    );
    // Because users of the types we supply put these on their types, we must
    // also add these derives.
    r.push(
        (
            String::from_str("."),
            String::from_str("#[derive(comparable::Comparable, serde::Serialize)]"),
        ),
    );
    // Make most types copy (currently, only Image is not Copy).
    let mut i: usize = 0;
    while i < 3
        invariant
            i <= 3,
            COPY_TYPE_NAMES@ == seq!["Duration", "Tokens", "Percentage"],
            r@.len() == 2 + i,
            forall|j: int|
                0 <= j < r@.len() ==> (#[trigger] r@[j]).0@ == prost_type_attributes_spec()[j].0
                    && r@[j].1@ == prost_type_attributes_spec()[j].1,
        decreases 3 - i,
    {
        let path = message_type_path(COPY_TYPE_NAMES[i]);
        r.push((path, String::from_str("#[derive(Copy)]")));
        i = i + 1;
    }
    r
}

/// The path of the protobuf source, relative to the nervous system directory.
pub fn nervous_system_proto_file() -> (r: &'static str)
    ensures
        r@ == "ic_nervous_system/pb/v1/nervous_system.proto"@,
{
    "ic_nervous_system/pb/v1/nervous_system.proto"
}

} // verus!
