use ed25519_basic_sig::protobuf_generator::{
    message_type_path, nervous_system_proto_file, prost_type_attributes, ProtoPaths,
    COPY_TYPE_NAMES,
};
use std::path::Path;

#[test]
fn proto_paths_to_vec_lists_the_nervous_system_path() {
    let p = Path::new("/some/nervous_system");
    let paths = ProtoPaths { nervous_system: p };
    assert_eq!(paths.to_vec(), vec![p]);
}

#[test]
fn type_attributes_make_the_copy_types_copy() {
    let attrs = prost_type_attributes();
    let expected = vec![
        (".", "#[derive(candid::CandidType, candid::Deserialize)]"),
        (".", "#[derive(comparable::Comparable, serde::Serialize)]"),
        ("ic_nervous_system.pb.v1.Duration", "#[derive(Copy)]"),
        ("ic_nervous_system.pb.v1.Tokens", "#[derive(Copy)]"),
        ("ic_nervous_system.pb.v1.Percentage", "#[derive(Copy)]"),
    ];
    assert_eq!(attrs.len(), expected.len());
    for ((p, a), (ep, ea)) in attrs.iter().zip(expected) {
        assert_eq!(p, ep);
        assert_eq!(a, ea);
    }
    assert_eq!(COPY_TYPE_NAMES, ["Duration", "Tokens", "Percentage"]);
}

#[test]
fn message_type_path_prefixes_the_package() {
    assert_eq!(message_type_path("Image"), "ic_nervous_system.pb.v1.Image");
    assert_eq!(nervous_system_proto_file(), "ic_nervous_system/pb/v1/nervous_system.proto");
}
