use sunspec_rs::codec::{
    be_bytes_to_words, i16_from_word, i32_from_u32, i64_from_u64, sat_add_u16, size_to_u16,
    u32_from_words, u64_from_words, word_from_i16, words_from_u32, words_from_u64,
    words_to_be_bytes,
};
use sunspec_rs::json::point::{Point as JsonPoint, PointAccess, PointMandatory, PointStatic, PointType as JsonPointType};
use sunspec_rs::json::{Symbol as JsonSymbol, SymbolValue};
use sunspec_rs::sunspec_connection::{
    decode_bitfield, decode_i16_words, decode_i32_words, decode_point_string, decode_u16_words,
    decode_u32_words, decode_u64_words, match_enum_symbol, parse_point_data, split_read,
    SunSpecReadError,
};
use sunspec_rs::sunspec_models::{Symbol, ValueType};
use sunspec_rs::text::{
    i64_to_dec_string, parse_u32_dec, parse_u64_dec, str_contains, strip_trailing_nuls,
    u64_to_dec_string, utf8_to_string,
};

fn jpoint(type_: JsonPointType, size: i64, symbols: Vec<JsonSymbol>) -> JsonPoint {
    JsonPoint {
        access: PointAccess::R,
        comments: vec![],
        count: None,
        desc: None,
        detail: None,
        label: None,
        mandatory: PointMandatory::M,
        name: "P".to_string(),
        notes: None,
        sf: None,
        size,
        static_: PointStatic::D,
        symbols,
        type_,
        units: None,
        value: None,
    }
}

fn jsym(name: &str, value: i64) -> JsonSymbol {
    JsonSymbol {
        comments: vec![],
        desc: None,
        detail: None,
        label: None,
        name: name.to_string(),
        notes: None,
        value: SymbolValue::Integer(value),
    }
}

// round trips for all supported integer widths

#[test]
fn test_u16_words_round_trip() {
    // a 16-bit value is its own register word
    assert_eq!(decode_u16_words(&vec![0x1234]), Ok(0x1234));
}

#[test]
fn test_i16_word_round_trip() {
    for v in [-32767i16, -2, -1, 0, 1, 2, 32767] {
        assert_eq!(i16_from_word(word_from_i16(v)), v);
    }
    assert_eq!(word_from_i16(-5), 0xFFFB);
    assert_eq!(i16_from_word(0xFFFB), -5);
}

#[test]
fn test_u32_words_round_trip() {
    let v: u32 = 0xDEAD_BEEF;
    let (hi, lo) = words_from_u32(v);
    assert_eq!((hi, lo), (0xDEAD, 0xBEEF));
    assert_eq!(u32_from_words(hi, lo), v);
}

#[test]
fn test_i32_words_round_trip() {
    let v: i32 = -1_000_000;
    let u = v as u32;
    let (hi, lo) = words_from_u32(u);
    assert_eq!(i32_from_u32(u32_from_words(hi, lo)), v);
}

#[test]
fn test_u64_words_round_trip() {
    let v: u64 = 0x0123_4567_89AB_CDEF;
    let ws = words_from_u64(v);
    assert_eq!(ws, [0x0123, 0x4567, 0x89AB, 0xCDEF]);
    assert_eq!(u64_from_words(ws[0], ws[1], ws[2], ws[3]), v);
}

#[test]
fn test_i64_u64_round_trip() {
    let v: i64 = -42;
    assert_eq!(i64_from_u64(v as u64), v);
}

// decode of the reserved "not implemented" sentinel is never a plain value

#[test]
fn test_sentinel_u16() {
    assert_eq!(
        decode_u16_words(&vec![0xFFFF]),
        Err(SunSpecReadError::DatapointNotImplemented)
    );
    assert_eq!(decode_u16_words(&vec![0xFFFE]), Ok(0xFFFE));
}

#[test]
fn test_sentinel_i16() {
    assert_eq!(
        decode_i16_words(&vec![0x8000]),
        Err(SunSpecReadError::DatapointNotImplemented)
    );
    assert_eq!(decode_i16_words(&vec![0x8001]), Ok(-32767));
}

#[test]
fn test_sentinel_u32() {
    assert_eq!(
        decode_u32_words(&vec![0xFFFF, 0xFFFF]),
        Err(SunSpecReadError::DatapointNotImplemented)
    );
    assert_eq!(decode_u32_words(&vec![0x0000, 0x0006]), Ok(6));
}

#[test]
fn test_sentinel_i32() {
    assert_eq!(
        decode_i32_words(&vec![0x8000, 0x0000]),
        Err(SunSpecReadError::DatapointNotImplemented)
    );
    assert_eq!(decode_i32_words(&vec![0xFFFF, 0xFFFF]), Ok(-1));
}

#[test]
fn test_sentinel_u64() {
    assert_eq!(
        decode_u64_words(&vec![0xFFFF, 0xFFFF, 0xFFFF, 0xFFFF]),
        Err(SunSpecReadError::DatapointNotImplemented)
    );
    assert_eq!(decode_u64_words(&vec![0, 0, 0, 7]), Ok(7));
}

// string decode

#[test]
fn test_string_decode_basic() {
    // the words [0x7465, 0x7374] spell "test"
    assert_eq!(decode_point_string(&vec![0x7465, 0x7374]), Ok("test".to_string()));
}

#[test]
fn test_string_decode_strips_trailing_nuls() {
    assert_eq!(
        decode_point_string(&vec![0x7465, 0x7374, 0x0000, 0x0000]),
        Ok("test".to_string())
    );
}

#[test]
fn test_strip_trailing_nuls() {
    let mut v: Vec<u8> = vec![1, 0, 2, 0, 0];
    strip_trailing_nuls(&mut v);
    assert_eq!(v, vec![1, 0, 2]);
    let mut all: Vec<u8> = vec![0, 0];
    strip_trailing_nuls(&mut all);
    assert_eq!(all, Vec::<u8>::new());
}

#[test]
fn test_words_bytes_round_trip() {
    let ws: Vec<u16> = vec![0x1234, 0xABCD];
    let bytes = words_to_be_bytes(ws.as_slice());
    assert_eq!(bytes, vec![0x12, 0x34, 0xAB, 0xCD]);
    assert_eq!(be_bytes_to_words(bytes.as_slice()), ws);
}

#[test]
fn test_utf8_rejects_invalid() {
    assert_eq!(utf8_to_string(vec![0xFF, 0xFE]), None);
    assert_eq!(utf8_to_string(vec![0x68, 0x69]), Some("hi".to_string()));
}

// bitfield decode in declaration order

#[test]
fn test_bitfield_labels_order() {
    let symbols = vec![
        Symbol { id: "INSTALLED_COUNT_IS_LOCKED".to_string(), symbol: "0".to_string() },
        Symbol { id: "OTHER".to_string(), symbol: "1".to_string() },
        Symbol { id: "MANUAL_TEST_ACTIVE".to_string(), symbol: "3".to_string() },
    ];
    let labels = decode_bitfield(&symbols, 0b1001, 16);
    assert_eq!(
        labels,
        vec!["INSTALLED_COUNT_IS_LOCKED".to_string(), "MANUAL_TEST_ACTIVE".to_string()]
    );
}

#[test]
fn test_bitfield_out_of_width_bit_ignored() {
    let symbols = vec![Symbol { id: "HIGH".to_string(), symbol: "20".to_string() }];
    assert_eq!(decode_bitfield(&symbols, 0xFFFF, 16), Vec::<String>::new());
}

// enum symbol lookup

#[test]
fn test_enum_symbol_match() {
    let symbols = vec![
        Symbol { id: "OFF".to_string(), symbol: "0".to_string() },
        Symbol { id: "ON".to_string(), symbol: "1".to_string() },
    ];
    assert_eq!(match_enum_symbol(&symbols, 1), Some("ON".to_string()));
    assert_eq!(match_enum_symbol(&symbols, 5), None);
}

// catalog-side point parsing

#[test]
fn test_parse_point_data_u16_reads_signed() {
    let p = jpoint(JsonPointType::Uint16, 1, vec![]);
    assert_eq!(parse_point_data(&p, &vec![7]), Ok(ValueType::Integer(7)));
}

#[test]
fn test_parse_point_data_enum16() {
    let p = jpoint(JsonPointType::Enum16, 1, vec![jsym("A", 1), jsym("B", 2)]);
    assert_eq!(parse_point_data(&p, &vec![2]), Ok(ValueType::String("B".to_string())));
    assert_eq!(parse_point_data(&p, &vec![9]), Ok(ValueType::Integer(9)));
}

#[test]
fn test_parse_point_data_u32_sentinel() {
    let p = jpoint(JsonPointType::Uint32, 2, vec![]);
    assert_eq!(
        parse_point_data(&p, &vec![0xFFFF, 0xFFFF]),
        Err(SunSpecReadError::DatapointNotImplemented)
    );
    assert_eq!(parse_point_data(&p, &vec![0, 11]), Ok(ValueType::Integer(11)));
}

#[test]
fn test_parse_point_data_unsupported_type() {
    let p = jpoint(JsonPointType::Float32, 2, vec![]);
    assert!(matches!(
        parse_point_data(&p, &vec![0, 0]),
        Err(SunSpecReadError::OtherError(_))
    ));
}

// text utilities

#[test]
fn test_decimal_rendering() {
    assert_eq!(u64_to_dec_string(0), "0".to_string());
    assert_eq!(u64_to_dec_string(12345), "12345".to_string());
    assert_eq!(i64_to_dec_string(-204), "-204".to_string());
}

#[test]
fn test_decimal_parsing() {
    assert_eq!(parse_u32_dec("0"), Some(0));
    assert_eq!(parse_u32_dec("65535"), Some(65535));
    assert_eq!(parse_u32_dec(""), None);
    assert_eq!(parse_u32_dec("12a"), None);
    assert_eq!(parse_u32_dec("4294967296"), None);
    assert_eq!(parse_u64_dec("4294967296"), Some(4294967296));
}

#[test]
fn test_str_contains() {
    assert!(str_contains("Invalid response header: expected/request x", "Invalid response header"));
    assert!(!str_contains("short", "much longer needle"));
}

#[test]
fn test_split_read() {
    assert_eq!(split_read(100), None);
    assert_eq!(split_read(101), Some((100, 1)));
    assert_eq!(split_read(250), Some((100, 150)));
}

#[test]
fn test_size_helpers() {
    assert_eq!(size_to_u16(3), 3);
    assert_eq!(sat_add_u16(0xFFFE, 5), 0xFFFF);
    assert_eq!(sat_add_u16(2, 5), 7);
}
