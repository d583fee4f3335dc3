use std::io::{Cursor, ErrorKind, Read, Write};

use chksum_sha2_224::{chksum, hash, new, reader, writer, Digest, Error, Source, SHA2_224};

const EMPTY: &str = "d14a028c2a3a2bc9476102bb288234c415a2b01f828ea62ac5b3e42f";
const DATA: &str = "f4739673acc03c424343b452787ee23dd62999a8a9f14f4250995769";

fn bytes(s: &str) -> Source {
    Source::Bytes(s.as_bytes().to_vec())
}

fn stream(chunks: &[&str]) -> Source {
    Source::Stream(chunks.iter().map(|c| c.as_bytes().to_vec()).collect())
}

fn seeded(data: &[u8]) -> SHA2_224 {
    let mut h = SHA2_224::new();
    h.update(data);
    h
}

fn io_failure() -> std::io::Error {
    std::io::Error::new(ErrorKind::PermissionDenied, "denied")
}

#[test]
fn empty_directory_as_readdir() {
    let dir = Source::Directory(vec![]);
    let digest = chksum(dir).unwrap().to_hex_lowercase();
    assert_eq!(digest, EMPTY);
}

#[test]
fn non_empty_directory_with_empty_file_as_readdir() {
    let dir = Source::Directory(vec![stream(&[])]);
    let digest = chksum(dir).unwrap().to_hex_lowercase();
    assert_eq!(digest, EMPTY);
}

#[test]
fn non_empty_directory_with_non_empty_file_as_readdir() {
    let dir = Source::Directory(vec![stream(&["data"])]);
    let digest = chksum(dir).unwrap().to_hex_lowercase();
    assert_eq!(digest, DATA);
}

#[test]
fn empty_file_as_file() {
    let digest = chksum(stream(&[])).unwrap().to_hex_lowercase();
    assert_eq!(digest, EMPTY);
}

#[test]
fn non_empty_file_as_file() {
    let digest = chksum(stream(&["data"])).unwrap().to_hex_lowercase();
    assert_eq!(digest, DATA);
    let digest = chksum(stream(&["d", "at", "", "a"])).unwrap().to_hex_lowercase();
    assert_eq!(digest, DATA);
}

#[test]
fn hash_of_nothing_is_the_known_constant() {
    assert_eq!(hash(b"").to_hex_lowercase(), EMPTY);
    assert_eq!(new().digest().to_hex_lowercase(), EMPTY);
    assert_eq!(chksum_sha2_224::default().digest().to_hex_lowercase(), EMPTY);
}

#[test]
fn hash_of_data() {
    assert_eq!(hash(b"data").to_hex_lowercase(), DATA);
    assert_eq!(SHA2_224::hash(b"data").to_hex_lowercase(), DATA);
    assert_eq!(chksum(bytes("data")).unwrap().to_hex_lowercase(), DATA);
}

#[test]
fn hash_is_deterministic() {
    let a = hash(b"example data");
    let b = hash(b"example data");
    assert_eq!(a, b);
    assert_ne!(a, hash(b"example datb"));
}

#[test]
fn update_in_chunks_matches_one_call() {
    let mut h = SHA2_224::new();
    h.update(b"da");
    h.update(b"");
    h.update(b"ta");
    assert_eq!(h.digest().to_hex_lowercase(), DATA);

    let long: Vec<u8> = (0..200u32).map(|i| (i % 251) as u8).collect();
    let mut h = SHA2_224::new();
    h.update(&long[..7]);
    h.update(&long[7..130]);
    h.update(&long[130..]);
    assert_eq!(h.digest(), hash(&long));
}

#[test]
fn digest_does_not_consume_state() {
    let mut h = SHA2_224::new();
    h.update(b"da");
    let partial = h.digest();
    assert_eq!(partial, hash(b"da"));
    assert_eq!(h.digest(), partial);
    h.update(b"ta");
    assert_eq!(h.digest().to_hex_lowercase(), DATA);
}

#[test]
fn reset_returns_to_the_empty_state() {
    let mut h = SHA2_224::new();
    h.update(b"example data");
    h.reset();
    assert_eq!(h.digest().to_hex_lowercase(), EMPTY);
    assert_eq!(h.digest(), SHA2_224::new().digest());
}

#[test]
fn clone_keeps_what_was_fed() {
    let mut h = SHA2_224::new();
    h.update(b"da");
    let mut copy = h.clone();
    copy.update(b"ta");
    assert_eq!(copy.digest().to_hex_lowercase(), DATA);
    assert_eq!(h.digest(), hash(b"da"));
}

#[test]
fn digest_encodings() {
    let raw = [
        0xD1, 0x4A, 0x02, 0x8C, 0x2A, 0x3A, 0x2B, 0xC9, 0x47, 0x61, 0x02, 0xBB, 0x28, 0x82, 0x34,
        0xC4, 0x15, 0xA2, 0xB0, 0x1F, 0x82, 0x8E, 0xA6, 0x2A, 0xC5, 0xB3, 0xE4, 0x2F,
    ];
    let digest = Digest::new(raw);
    assert_eq!(digest.to_hex_lowercase(), EMPTY);
    assert_eq!(
        digest.to_hex_uppercase(),
        "D14A028C2A3A2BC9476102BB288234C415A2B01F828EA62AC5B3E42F"
    );
    assert_eq!(digest.as_bytes(), &raw[..]);
    assert_eq!(digest.into_inner(), raw);
    assert_eq!(hash(b"").into_inner(), raw);
}

#[test]
fn hex_pads_small_bytes() {
    let mut raw = [0u8; 28];
    raw[0] = 0x0a;
    raw[27] = 0xf0;
    let digest = Digest::new(raw);
    let lower = digest.to_hex_lowercase();
    assert_eq!(lower.len(), 56);
    assert!(lower.starts_with("0a00"));
    assert!(lower.ends_with("00f0"));
    assert_eq!(digest.to_hex_uppercase(), lower.to_uppercase());
}

#[test]
fn directory_is_depth_first_in_listing_order() {
    let tree = Source::Directory(vec![
        bytes("d"),
        Source::Directory(vec![stream(&["a"]), Source::Directory(vec![])]),
        Source::Directory(vec![Source::Directory(vec![bytes("t")])]),
        stream(&["", "a"]),
    ]);
    assert_eq!(chksum(tree).unwrap().to_hex_lowercase(), DATA);

    let swapped = Source::Directory(vec![bytes("t"), bytes("a"), bytes("d"), bytes("a")]);
    assert_ne!(chksum(swapped).unwrap().to_hex_lowercase(), DATA);
}

#[test]
fn unsupported_entry_fails() {
    let tree = Source::Directory(vec![stream(&["data"]), Source::Unsupported]);
    assert!(matches!(chksum(tree), Err(Error::UnsupportedFile)));

    let nested = Source::Directory(vec![Source::Directory(vec![Source::Unsupported])]);
    assert!(matches!(chksum(nested), Err(Error::UnsupportedFile)));
}

#[test]
fn io_failure_fails() {
    let tree = Source::Directory(vec![stream(&["data"]), Source::Failed(io_failure())]);
    match chksum(tree) {
        Err(Error::Io(e)) => assert_eq!(e.kind(), ErrorKind::PermissionDenied),
        other => panic!("expected an I/O failure, got {other:?}"),
    }
}

#[test]
fn first_error_in_traversal_order_wins() {
    let tree = Source::Directory(vec![
        Source::Directory(vec![Source::Failed(io_failure())]),
        Source::Unsupported,
    ]);
    assert!(matches!(chksum(tree), Err(Error::Io(_))));

    let tree = Source::Directory(vec![Source::Unsupported, Source::Failed(io_failure())]);
    assert!(matches!(chksum(tree), Err(Error::UnsupportedFile)));
}

#[test]
fn deep_directory_tree() {
    let mut tree = stream(&["data"]);
    for _ in 0..10_000 {
        tree = Source::Directory(vec![tree]);
    }
    assert_eq!(chksum(tree).unwrap().to_hex_lowercase(), DATA);
}

fn drain<R: Read>(r: &mut reader::Reader<R>, size: usize) -> Vec<u8> {
    let mut out = Vec::new();
    loop {
        let mut buf = vec![0u8; size];
        let result = r.get_mut().read(&mut buf);
        let n = r.record_read(&buf, result).unwrap();
        if n == 0 {
            return out;
        }
        out.extend_from_slice(&buf[..n]);
    }
}

#[test]
fn reader_hashes_what_it_delivers() {
    let mut r = reader::new(Cursor::new(b"data".to_vec()));
    assert!(!r.is_exhausted());
    let mut buf = [0u8; 3];
    let result = r.get_mut().read(&mut buf);
    assert_eq!(r.record_read(&buf, result).unwrap(), 3);
    assert_eq!(r.digest(), hash(b"dat"));
    assert_eq!(drain(&mut r, 2), b"a".to_vec());
    assert!(r.is_exhausted());
    assert_eq!(r.digest().to_hex_lowercase(), DATA);
    assert_eq!(r.into_inner().into_inner(), b"data".to_vec());
}

#[test]
fn reader_matches_chksum_of_the_content() {
    let content: Vec<u8> = (0..300u32).map(|i| (i * 7 % 256) as u8).collect();
    let mut r = reader::Reader::new(Cursor::new(content.clone()));
    assert_eq!(drain(&mut r, 64), content);
    assert_eq!(r.digest(), chksum(Source::Bytes(content)).unwrap());
}

#[test]
fn reader_passes_errors_through() {
    let mut r = reader::new(Cursor::new(Vec::<u8>::new()));
    let result: std::io::Result<usize> = Err(io_failure());
    let back = r.record_read(b"ignored", result);
    assert_eq!(back.unwrap_err().kind(), ErrorKind::PermissionDenied);
    assert!(!r.is_exhausted());
    assert_eq!(r.digest().to_hex_lowercase(), EMPTY);
}

#[test]
fn reader_with_hash_continues() {
    let mut seed = SHA2_224::new();
    seed.update(b"da");
    let mut r = reader::with_hash(Cursor::new(b"ta".to_vec()), seed);
    drain(&mut r, 8);
    assert_eq!(r.digest().to_hex_lowercase(), DATA);

    let r = reader::async_new(0u8);
    assert_eq!(r.digest().to_hex_lowercase(), EMPTY);
    let r = reader::async_with_hash(0u8, seeded(b"x"));
    assert_eq!(r.digest(), hash(b"x"));
}

#[test]
fn writer_hashes_what_the_sink_accepts() {
    let mut w = writer::new(Vec::new());
    let result = w.get_mut().write(b"da");
    assert_eq!(w.record_write(b"da", result).unwrap(), 2);
    assert_eq!(w.digest(), hash(b"da"));
    let result = w.get_mut().write(b"ta");
    w.record_write(b"ta", result).unwrap();
    assert_eq!(w.digest().to_hex_lowercase(), DATA);
    assert_eq!(w.into_inner(), b"data".to_vec());
}

#[test]
fn writer_hashes_only_the_accepted_prefix() {
    let mut w = writer::Writer::new(Vec::<u8>::new());
    let accepted: std::io::Result<usize> = Ok(2);
    assert_eq!(w.record_write(b"data", accepted).unwrap(), 2);
    assert_eq!(w.digest(), hash(b"da"));

    let failed: std::io::Result<usize> = Err(io_failure());
    assert!(w.record_write(b"ta", failed).is_err());
    assert_eq!(w.digest(), hash(b"da"));
}

#[test]
fn writer_with_hash_continues() {
    let mut w = writer::with_hash(Vec::new(), seeded(b"da"));
    let result = w.get_mut().write(b"ta");
    w.record_write(b"ta", result).unwrap();
    assert_eq!(w.digest().to_hex_lowercase(), DATA);

    let w = writer::async_new(0u8);
    assert_eq!(w.digest().to_hex_lowercase(), EMPTY);
    let w = writer::async_with_hash(0u8, seeded(b"x"));
    assert_eq!(w.digest(), hash(b"x"));
}
