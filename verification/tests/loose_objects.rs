use std::io::Read;

use rsgit::object::{Kind, Object};
use rsgit::repo::{loose_object_bytes, loose_object_path};

#[test]
fn fan_out_path_splits_hex_id() {
    let o = Object::new(Kind::Blob, "test content\n".to_string());
    let (dir, file) = loose_object_path(o.id());
    assert_eq!(dir, "d6");
    assert_eq!(file, "70460b4b4aece5915caf5c68d12f560a9fe3e4");
}

#[test]
fn loose_bytes_decompress_to_serialization() {
    let o = Object::new(Kind::Blob, "test content\n".to_string());
    let compressed = loose_object_bytes(&o);

    let mut decoder = flate2::read::ZlibDecoder::new(compressed.as_slice());
    let mut decompressed: Vec<u8> = Vec::new();
    decoder.read_to_end(&mut decompressed).unwrap();

    assert_eq!(decompressed, b"blob 13\0test content\n".to_vec());
}

#[test]
fn loose_bytes_for_commit_carry_kind_and_length() {
    let cs = "tree be9bfa841874ccc9f2ef7c48d0c76226f89b7189\n\
              author A. U. Thor <author@localhost> 1 +0000\n\
              committer A. U. Thor <author@localhost> 1 +0000\n";
    let o = Object::new(Kind::Commit, cs.to_string());
    let compressed = loose_object_bytes(&o);

    let mut decoder = flate2::read::ZlibDecoder::new(compressed.as_slice());
    let mut decompressed: Vec<u8> = Vec::new();
    decoder.read_to_end(&mut decompressed).unwrap();

    let mut expected: Vec<u8> = Vec::new();
    expected.extend_from_slice(format!("commit {}\0", cs.len()).as_bytes());
    expected.extend_from_slice(cs.as_bytes());
    assert_eq!(decompressed, expected);
}
