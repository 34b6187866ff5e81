use onote_server::object_id::ObjectId;

const BYTES: [u8; 12] = [0x65, 0x0a, 0xf3, 0x01, 0x00, 0xff, 0x9b, 0x2c, 0x4d, 0x7e, 0x10, 0x08];

#[test]
fn to_hex_writes_lower_case_pairs() {
    let id = ObjectId { bytes: BYTES };
    assert_eq!(id.to_hex(), "650af30100ff9b2c4d7e1008");
}

#[test]
fn parse_reads_lower_case_text() {
    let id = ObjectId::parse("650af30100ff9b2c4d7e1008").unwrap();
    assert_eq!(id.bytes, BYTES);
}

#[test]
fn parse_reads_upper_and_mixed_case_text() {
    assert_eq!(ObjectId::parse("650AF30100FF9B2C4D7E1008").unwrap().bytes, BYTES);
    assert_eq!(ObjectId::parse("650aF30100Ff9B2c4d7E1008").unwrap().bytes, BYTES);
}

#[test]
fn parse_refuses_wrong_lengths() {
    assert!(ObjectId::parse("").is_none());
    assert!(ObjectId::parse("650af30100ff9b2c4d7e100").is_none());
    assert!(ObjectId::parse("650af30100ff9b2c4d7e10080").is_none());
    assert!(ObjectId::parse("650af30100ff9b2c4d7e100800").is_none());
}

#[test]
fn parse_refuses_non_hex_characters() {
    assert!(ObjectId::parse("650af30100ff9b2c4d7e100g").is_none());
    assert!(ObjectId::parse("650af30100ff9b2c4d7e10 8").is_none());
    assert!(ObjectId::parse("650af30100ff9b2c4d7e10é").is_none());
}

#[test]
fn hex_text_parses_back_to_the_same_id() {
    for seed in 0u8..=255 {
        let mut bytes = [0u8; 12];
        for (i, b) in bytes.iter_mut().enumerate() {
            *b = seed.wrapping_mul(31).wrapping_add((i as u8).wrapping_mul(17));
        }
        let id = ObjectId { bytes };
        let text = id.to_hex();
        assert_eq!(text.len(), 24);
        assert_eq!(ObjectId::parse(&text).unwrap().bytes, bytes);
    }
}

#[test]
fn parsed_id_prints_in_lower_case() {
    let id = ObjectId::parse("ABCDEF0123456789ABCDEF01").unwrap();
    assert_eq!(id.to_hex(), "abcdef0123456789abcdef01");
}

#[test]
fn generated_ids_differ() {
    let a = ObjectId::generate();
    let b = ObjectId::generate();
    assert_ne!(a.bytes, b.bytes);
}
