use hasp::directory_hash::DirectoryHash;
use hasp::directory_version::DirectoryVersion;
use hasp::file_hash::{Blake3Hash, FileHash};
use hasp::version::SemVersion;

#[test]
fn directory_hash_basic() {
    const HASH_NUMERIC: u64 = 0x01234567;
    const HASH_STR: &str = "0000000001234567";
    let hash = DirectoryHash::new(HASH_NUMERIC);
    assert_eq!(hash.to_text(), HASH_STR);
    assert_eq!(hash.numeric(), HASH_NUMERIC);

    let serialized = serde_json::to_string(&hash.to_text()).expect("serialization succeeded");
    assert_eq!(serialized, format!("\"{}\"", HASH_STR));

    let text: String = serde_json::from_str(&serialized).expect("deserialization succeeded");
    let deserialized = DirectoryHash::parse(&text).expect("deserialization succeeded");
    assert_eq!(deserialized, hash);
}

#[test]
fn directory_version_basic() {
    let sem_version = SemVersion::from_parts(2, 3, 4, "beta.0", "").expect("prerelease parsed");
    const SEM_VERSION_STR: &str = "sem:2.3.4-beta.0";

    let version = DirectoryVersion::new_semantic(sem_version);
    assert_eq!(version.to_text(), SEM_VERSION_STR);

    let serialized = serde_json::to_string(&version.to_text()).expect("serialization succeeded");
    assert_eq!(serialized, format!("\"{}\"", SEM_VERSION_STR));

    let text: String = serde_json::from_str(&serialized).expect("deserialization succeeded");
    let deserialized = DirectoryVersion::parse(&text).expect("deserialization succeeded");
    assert_eq!(deserialized, version);
}

#[test]
fn directory_hash_text_round_trip() {
    for numeric in [0u64, 1, 0xff, 0x0123_4567_89ab_cdef, u64::MAX, 1 << 63] {
        let hash = DirectoryHash::new(numeric);
        let text = hash.to_text();
        assert_eq!(text.len(), 16);
        assert_eq!(DirectoryHash::parse(&text).expect("round trip"), hash);
        let blob = hash.to_blob();
        assert_eq!(blob, numeric.to_be_bytes().to_vec());
        assert_eq!(DirectoryHash::from_blob(&blob).expect("round trip"), hash);
        assert_eq!(DirectoryHash::from_be_bytes(hash.to_be_bytes()), hash);
    }
    assert_eq!(DirectoryHash::new(u64::MAX).to_text(), "ffffffffffffffff");
    assert_eq!(DirectoryHash::new(0x0123_4567_89ab_cdef).to_text(), "0123456789abcdef");
}

#[test]
fn directory_hash_parse_errors() {
    let err = DirectoryHash::parse("1234").unwrap_err();
    assert_eq!(err.description(), "directory hash");
    assert_eq!(err.input(), "1234");
    assert_eq!(err.error_string(), "length 4 is not 16");
    assert_eq!(err.to_text(), "could not parse directory hash '1234': length 4 is not 16");

    let err = DirectoryHash::parse("0123456789ABCDEF").unwrap_err();
    assert_eq!(err.error_string(), "input not in [0-9a-f]");
    let err = DirectoryHash::parse("0123456789abcdeg").unwrap_err();
    assert_eq!(err.error_string(), "input not in [0-9a-f]");
    // Eight characters of two bytes each: the length in bytes is right.
    let err = DirectoryHash::parse("éééééééé").unwrap_err();
    assert_eq!(err.error_string(), "input not in [0-9a-f]");

    let err = DirectoryHash::from_blob(&[1, 2, 3]).unwrap_err();
    assert_eq!(err.input(), "010203");
    assert_eq!(err.error_string(), "blob length 3 is not 8");
}

#[test]
fn file_hash_text_and_blob() {
    let mut bytes = [0u8; 32];
    for (i, b) in bytes.iter_mut().enumerate() {
        *b = (i * 7 + 3) as u8;
    }
    let hash = FileHash::Blake3(Blake3Hash::from_be_bytes(bytes));
    let text = hash.to_text();
    assert!(text.starts_with("blake3:"));
    assert_eq!(text.len(), 7 + 64);
    assert_eq!(&text[7..13], "030a11");
    assert_eq!(FileHash::parse(&text).expect("round trip"), hash);

    let blob = hash.to_blob();
    assert_eq!(blob.len(), 34);
    assert_eq!(&blob[..2], b"01");
    assert_eq!(&blob[2..], &bytes[..]);
    assert_eq!(FileHash::from_blob(&blob).expect("round trip"), hash);
}

#[test]
fn file_hash_errors() {
    let err = FileHash::parse("sha256:00").unwrap_err();
    assert_eq!(err.description(), "binary hash");
    assert_eq!(err.error_string(), "hash prefix unrecognized");
    let err = FileHash::parse("blake3:00").unwrap_err();
    assert_eq!(err.description(), "blake3 hash");
    assert_eq!(err.input(), "00");
    assert_eq!(err.error_string(), "length 2 is not 64");
    let err = FileHash::from_blob(b"02abc").unwrap_err();
    assert_eq!(err.description(), "binary hash");
    assert_eq!(err.error_string(), "hash prefix not recognized");
    let err = FileHash::from_blob(b"01abc").unwrap_err();
    assert_eq!(err.description(), "blake3 hash");
    assert_eq!(err.input(), "616263");
    assert_eq!(err.error_string(), "blob length 3 is not 32");
}

#[test]
fn file_hash_of_content() {
    // The BLAKE3 digest of the empty input.
    let hash = FileHash::of_content(b"");
    assert_eq!(
        hash.to_text(),
        "blake3:af1349b9f5f9a1a6a0404dea36dcc9499bcb25c9adc112b7cc9a93cae41f3262"
    );
    assert_ne!(FileHash::of_content(b"a"), hash);
}

#[test]
fn semantic_versions() {
    let v = SemVersion::new(1, 20, 300);
    assert_eq!(v.to_text(), "1.20.300");
    assert_eq!(SemVersion::parse("1.20.300").expect("parses"), v);
    let v = SemVersion::from_parts(0, 0, 0, "alpha.1", "build.007").expect("well formed");
    assert_eq!(v.to_text(), "0.0.0-alpha.1+build.007");
    assert_eq!(SemVersion::parse("0.0.0-alpha.1+build.007").expect("parses"), v);
    assert_eq!(v.pre(), "alpha.1");
    assert_eq!(v.build(), "build.007");
    let v = SemVersion::new(u64::MAX, 0, 10);
    assert_eq!(v.to_text(), "18446744073709551615.0.10");
    assert!(SemVersion::from_parts(1, 2, 3, "01", "").is_none());
    assert!(SemVersion::from_parts(1, 2, 3, "a..b", "").is_none());
    assert!(SemVersion::from_parts(1, 2, 3, "", "a_b").is_none());
    assert!(SemVersion::from_parts(1, 2, 3, "0", "01").is_some());
    assert!(SemVersion::parse("1.2").is_err());
    assert!(SemVersion::parse("1.02.3").is_err());
    assert!(SemVersion::parse("1.2.3-").is_err());
    assert!(SemVersion::parse(" 1.2.3").is_err());
}

#[test]
fn directory_version_round_trips() {
    let literal = DirectoryVersion::new_literal("sem:not a version ☃");
    assert_eq!(literal.to_text(), "lit:sem:not a version ☃");
    assert_eq!(DirectoryVersion::parse(&literal.to_text()).expect("round trip"), literal);
    assert_eq!(literal.as_literal(), Some("sem:not a version ☃"));
    assert!(literal.as_semantic().is_none());

    let empty = DirectoryVersion::new_literal("");
    assert_eq!(empty.to_text(), "lit:");
    assert_eq!(DirectoryVersion::parse("lit:").expect("round trip"), empty);

    let semantic = DirectoryVersion::parse("sem:13.0.0").expect("parses");
    assert_eq!(semantic, DirectoryVersion::new_semantic(SemVersion::new(13, 0, 0)));
    assert_eq!(semantic.to_text(), "sem:13.0.0");
    assert!(semantic.as_literal().is_none());
}

#[test]
fn directory_version_errors() {
    let err = DirectoryVersion::parse("1.2.3").unwrap_err();
    assert_eq!(err.input(), "1.2.3");
    assert_eq!(
        err.to_text(),
        "could not parse directory version '1.2.3': input begins with neither 'sem:' nor 'lit:'"
    );
    assert!(err.source_text().is_none());
    let err = DirectoryVersion::parse("sem:1.2").unwrap_err();
    assert_eq!(err.to_text(), "could not parse directory version 'sem:1.2'");
    assert!(err.source_text().is_some());
}
