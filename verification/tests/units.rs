use pobbin::b64::{b64_decode, b64_encode};
use pobbin::codec::{compress, decompress, DecodeError};
use pobbin::ids::{hash_to_short_id, to_path};
use pobbin::strutil::{contains, starts_with, str_eq, u64_to_string};
use pobbin::validator::{parse, parse_u8_bytes, ParseError};
use pobbin::xml::parse_doc_exec;

#[test]
fn b64_encodes_classic_triple() {
    assert_eq!(b64_encode(b"Man"), b"TWFu".to_vec());
    assert_eq!(b64_encode(b"Ma"), b"TWE".to_vec());
    assert_eq!(b64_encode(b"M"), b"TQ".to_vec());
    assert_eq!(b64_encode(b""), Vec::<u8>::new());
}

#[test]
fn b64_uses_url_safe_alphabet() {
    // 0xFB 0xEF encodes to values 62, 62, 60: the URL-safe '-' twice.
    assert_eq!(b64_encode(&[0xFB, 0xEF]), b"--8".to_vec());
}

#[test]
fn b64_decodes_what_it_encodes() {
    let data: Vec<u8> = (0u8..=255).collect();
    let enc = b64_encode(&data);
    assert_eq!(b64_decode(&enc), Some(data));
}

#[test]
fn b64_rejects_bad_input() {
    assert_eq!(b64_decode(b"TWF!"), None);
    assert_eq!(b64_decode(b"TWFuQ"), None, "length 1 mod 4 is invalid");
    assert_eq!(b64_decode(b""), Some(Vec::new()));
}

#[test]
fn decimal_rendering_is_exact() {
    assert_eq!(u64_to_string(0), "0");
    assert_eq!(u64_to_string(255), "255");
    assert_eq!(u64_to_string(31536000), "31536000");
    assert_eq!(u64_to_string(10), "10");
}

#[test]
fn parse_u8_reads_exact_values() {
    assert_eq!(parse_u8_bytes(b"0"), Some(0));
    assert_eq!(parse_u8_bytes(b"90"), Some(90));
    assert_eq!(parse_u8_bytes(b"255"), Some(255));
    assert_eq!(parse_u8_bytes(b"007"), Some(7));
    assert_eq!(parse_u8_bytes(b"256"), None);
    assert_eq!(parse_u8_bytes(b""), None);
    assert_eq!(parse_u8_bytes(b"1a"), None);
    assert_eq!(parse_u8_bytes(b"-1"), None);
}

#[test]
fn string_search_helpers() {
    assert!(str_eq("abc", "abc"));
    assert!(!str_eq("abc", "abd"));
    assert!(starts_with("Support Gem", "Support"));
    assert!(!starts_with("Sup", "Support"));
    assert!(contains("Added Fire Support", "Support"));
    assert!(!contains("Fireball", "Support"));
    assert!(contains("anything", ""));
}

fn sample_export() -> &'static str {
    "<PathOfBuilding><Build level=\"90\" className=\"Witch\" ascendClassName=\"Necromancer\" mainSocketGroup=\"1\"/><Skills><Skill mainActiveSkill=\"1\"><Gem nameSpec=\"Fireball\"/></Skill></Skills><Tree activeSpec=\"1\"><Spec title=\"Default\"/></Tree></PathOfBuilding>"
}

#[test]
fn markup_reader_accepts_sample() {
    let doc = parse_doc_exec(sample_export().as_bytes());
    assert!(doc.is_some());
    let root = doc.unwrap_or_else(|| panic!("expected a document"));
    assert_eq!(root.name, b"PathOfBuilding".to_vec());
    assert_eq!(root.children.len(), 3);
    assert_eq!(root.children[0].name, b"Build".to_vec());
    assert_eq!(root.children[0].attrs.len(), 4);
    assert_eq!(root.children[0].attrs[0].name, b"level".to_vec());
    assert_eq!(root.children[0].attrs[0].value, b"90".to_vec());
}

#[test]
fn markup_reader_rejects_malformed() {
    assert!(parse_doc_exec(b"<A><B></A></B>").is_none(), "mismatched close tags");
    assert!(parse_doc_exec(b"<A>").is_none(), "unclosed element");
    assert!(parse_doc_exec(b"no markup").is_none());
    assert!(parse_doc_exec(b"<A/>junk").is_none(), "trailing content");
    assert!(parse_doc_exec(b"<A x=unquoted/>").is_none());
    assert!(parse_doc_exec(b"").is_none());
    assert!(parse_doc_exec(b"  <A/>  ").is_some(), "surrounding whitespace is fine");
    assert!(parse_doc_exec(b"<A>text content</A>").is_some());
}

#[test]
fn validator_accepts_sample_and_extracts_numbers() {
    let doc = match parse(sample_export()) {
        Ok(d) => d,
        Err(_) => panic!("sample must validate"),
    };
    assert_eq!(doc.level, 90);
    assert_eq!(doc.main_socket_group, 1);
    assert_eq!(doc.active_spec, 1);
    assert_eq!(doc.skill_count, 1);
    assert_eq!(doc.spec_count, 1);
}

#[test]
fn validator_rejects_wrong_shape() {
    assert!(matches!(parse("<NotAnExport/>"), Err(ParseError::Structure)));
    assert!(matches!(parse("<PathOfBuilding"), Err(ParseError::Syntax)));
    // A Build without a readable level is not a build export.
    let no_level = "<PathOfBuilding><Build className=\"Witch\" ascendClassName=\"None\" mainSocketGroup=\"1\"/><Skills/><Tree activeSpec=\"1\"><Spec/></Tree></PathOfBuilding>";
    assert!(matches!(parse(no_level), Err(ParseError::Structure)));
    // A Tree without any Spec is not a build export.
    let no_spec = "<PathOfBuilding><Build level=\"1\" className=\"W\" ascendClassName=\"N\" mainSocketGroup=\"1\"/><Skills/><Tree activeSpec=\"1\"></Tree></PathOfBuilding>";
    assert!(matches!(parse(no_spec), Err(ParseError::Structure)));
    // A level above the byte range does not read as a small number.
    let big_level = "<PathOfBuilding><Build level=\"300\" className=\"W\" ascendClassName=\"N\" mainSocketGroup=\"1\"/><Skills/><Tree activeSpec=\"1\"><Spec/></Tree></PathOfBuilding>";
    assert!(matches!(parse(big_level), Err(ParseError::Structure)));
}

#[test]
fn codec_accepts_padded_payloads() {
    // Classic encoders pad to a multiple of four; the codec strips it.
    let text = "hello world";
    let z = miniz_oxide::deflate::compress_to_vec_zlib(text.as_bytes(), 6);
    let mut payload = b64_encode(&z);
    while payload.len() % 4 != 0 {
        payload.push(b'=');
    }
    match decompress(&payload) {
        Ok(t) => assert_eq!(t, text),
        Err(_) => panic!("a padded payload must decompress"),
    }
}

#[test]
fn codec_round_trips_through_real_compression() {
    let text = sample_export();
    let payload = compress(text);
    let back = match decompress(payload.as_bytes()) {
        Ok(t) => t,
        Err(_) => panic!("compressed payload must decompress"),
    };
    assert_eq!(back, text);
}

#[test]
fn codec_rejects_each_gate() {
    // Not base64 at all.
    assert!(matches!(decompress(b"!!!"), Err(DecodeError::Encoding)));
    // Valid base64 of bytes that are no zlib stream.
    let not_zlib = b64_encode(b"zzzz");
    assert!(matches!(decompress(&not_zlib), Err(DecodeError::Framing)));
    // A real zlib stream holding invalid UTF-8.
    let bad_text = miniz_oxide::deflate::compress_to_vec_zlib(&[0xFF, 0xFE, 0x00], 6);
    let payload = b64_encode(&bad_text);
    assert!(matches!(decompress(&payload), Err(DecodeError::Text)));
}

#[test]
fn short_id_encodes_digest_prefix() {
    let digest = vec![0u8; 20];
    let id = match hash_to_short_id(&digest, 9) {
        Ok(id) => id,
        Err(_) => panic!("nine characters fit a twenty-byte digest"),
    };
    assert_eq!(id, "AAAAAAAAA");
    let digest2 = vec![0xFFu8; 20];
    let id2 = match hash_to_short_id(&digest2, 9) {
        Ok(id) => id,
        Err(_) => panic!("nine characters fit a twenty-byte digest"),
    };
    assert_eq!(id2, "_________");
    match hash_to_short_id(&digest, 21) {
        Err(e) => assert_eq!(e.code(), 500, "an internal fault, not the client's"),
        Ok(_) => panic!("more characters than the digest supplies"),
    }
}

#[test]
fn to_path_namespaces_valid_ids() {
    let p = match to_path("abcDEF123") {
        Ok(p) => p,
        Err(_) => panic!("a well-formed id maps to a key"),
    };
    assert_eq!(p, "pastes/abcDEF123");
}

#[test]
fn to_path_rejects_unsafe_ids() {
    assert!(matches!(to_path(""), Err(e) if e.code() == 400));
    assert!(matches!(to_path("a/b"), Err(e) if e.code() == 400));
    assert!(matches!(to_path(".."), Err(e) if e.code() == 400));
    assert!(matches!(to_path("../../secret"), Err(e) if e.code() == 400));
    let overlong = "a".repeat(91);
    assert!(matches!(to_path(&overlong), Err(e) if e.code() == 400));
    let longest = "a".repeat(90);
    assert!(to_path(&longest).is_ok());
}
