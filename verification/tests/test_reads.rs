use sunspec_rs::model_data::ModelData;
use sunspec_rs::modbus_test_harness::ModbusTestHarness;
use sunspec_rs::sunspec_connection::SunSpecConnection;
use sunspec_rs::sunspec_data::SunSpecData;
use sunspec_rs::sunspec_models::{
    Access, Block, Model, ModelSource, Point, PointIdentifier, SunSpecModels, Symbol, ValueType,
};

fn mk_point(
    id: &str,
    type_: &str,
    offset: u16,
    len: Option<u16>,
    access: Access,
    symbol: Option<Vec<Symbol>>,
) -> Point {
    Point {
        id: id.to_string(),
        offset,
        type_: type_.to_string(),
        len,
        mandatory: Some(true),
        access: Some(access),
        symbol,
        units: None,
        scale_factor: None,
        value: None,
        literal: None,
        block_id: None,
    }
}

fn mk_model(id: u16, len: u16, points: Vec<Point>) -> SunSpecModels {
    SunSpecModels {
        model: Model {
            id,
            len,
            name: format!("model_{id}"),
            block: vec![Block { len, type_: None, name: None, point: points }],
        },
        strings: vec![],
        source: ModelSource::XML,
    }
}

fn setup(
    modelid: u16,
    schema: SunSpecModels,
    manufacturer: String,
    buf_contents: Vec<u16>,
) -> (SunSpecConnection<ModbusTestHarness>, SunSpecData, ModelData) {
    let meh = ModbusTestHarness { buf: buf_contents, writes: vec![] };
    let mut ss = SunSpecConnection::test_new(meh, false);

    let mut ssd = SunSpecData::new();
    ssd.add_model(schema);
    match ss.populate_models(&ssd) {
        Ok(m) => ss.models = m,
        Err(e) => {
            panic!("Can't populate models: {e:?}")
        }
    };
    let model = ssd.get_model(modelid, Some(manufacturer)).unwrap().clone();
    let md = ModelData {
        id: modelid,
        len: model.model.len,
        address: model.model.id,
        model,
        scale_factors: vec![],
    };
    (ss, ssd, md)
}

#[test]
pub fn test_string() {
    let modelid = 1;
    let field: &str = "Mn";
    let expected: &str = "Test";

    let buf: Vec<u16> = sunspec_rs::modbus_test_harness::string_to_vec_word(expected.to_string());
    let schema = mk_model(
        modelid,
        66,
        vec![mk_point(field, "string", 2, Some(2), Access::ReadOnly, None)],
    );
    let (mut ss, _ssd, mut md) = setup(modelid, schema, String::from("Test"), buf);
    if let Ok(pt) = ss.get_point(&mut md, PointIdentifier::Point(field.to_string())) {
        if let Some(val) = pt.value {
            if let ValueType::String(testval) = val {
                assert_eq!(expected, testval);
            } else {
                panic!("Inappropriate responsetype")
            }
        } else {
            panic!("Err in pt.value");
        }
    } else {
        panic!("No point data returned");
    }
}

#[test]
pub fn test_u16() {
    let modelid = 64263;
    let field: &str = "SnapRSDetectedCnt";
    let expected: i64 = 6;

    let buf: Vec<u16> = vec![expected as u16];
    let schema = mk_model(
        modelid,
        10,
        vec![mk_point(field, "uint16", 0, None, Access::ReadOnly, None)],
    );
    let (mut ss, _ssd, mut md) = setup(modelid, schema, String::from("Pika"), buf);
    if let Ok(pt) = ss.get_point(&mut md, PointIdentifier::Point(field.to_string())) {
        if let Some(val) = pt.value {
            if let ValueType::Integer(testval) = val {
                assert_eq!(expected, testval);
            } else {
                panic!("Inappropriate responsetype")
            }
        } else {
            panic!("None in pt.value");
        }
    } else {
        panic!("No point data returned");
    }
}

#[test]
pub fn test_u32() {
    let modelid = 64208;
    let field: &str = "WhIn";
    let expected: i64 = 6;

    let buf: Vec<u16> = vec![0b0, 0b110];
    let schema = mk_model(
        modelid,
        10,
        vec![mk_point(field, "uint32", 0, None, Access::ReadOnly, None)],
    );
    let (mut ss, _ssd, mut md) = setup(modelid, schema, String::from("Generac"), buf);
    if let Ok(pt) = ss.get_point(&mut md, PointIdentifier::Point(field.to_string())) {
        if let Some(val) = pt.value {
            if let ValueType::Integer(testval) = val {
                assert!(expected <= testval);
            } else {
                panic!("Inappropriate responsetype")
            }
        } else {
            panic!("None in pt.value");
        }
    } else {
        panic!("No point data returned");
    }
}

#[test]
pub fn test_bitfield16() {
    let modelid = 64264;
    let field: &str = "Status";
    let expected: u16 = 0b1001;
    let expected_strings: Vec<String> = vec![
        String::from("INSTALLED_COUNT_IS_LOCKED"),
        String::from("MANUAL_TEST_ACTIVE"),
    ];

    let buf: Vec<u16> = vec![expected];
    let symbols = vec![
        Symbol { id: "INSTALLED_COUNT_IS_LOCKED".to_string(), symbol: "0".to_string() },
        Symbol { id: "SNAPRS_REPLACEMENT_NEEDED".to_string(), symbol: "1".to_string() },
        Symbol { id: "SNAPRS_LOCATE_ACTIVE".to_string(), symbol: "2".to_string() },
        Symbol { id: "MANUAL_TEST_ACTIVE".to_string(), symbol: "3".to_string() },
    ];
    let schema = mk_model(
        modelid,
        10,
        vec![mk_point(field, "bitfield16", 0, None, Access::ReadOnly, Some(symbols))],
    );
    let (mut ss, _ssd, mut md) = setup(modelid, schema, String::from("Generac"), buf);

    if let Ok(pt) = ss.get_point(&mut md, PointIdentifier::Point(field.to_string())) {
        if let Some(val) = pt.value {
            if let ValueType::Array(testval) = val {
                assert_eq!(testval, expected_strings);
            } else {
                panic!("Inappropriate responsetype")
            }
        } else {
            panic!("None in pt.value");
        }
    } else {
        panic!("No point data returned");
    }
}

#[test]
pub fn test_i32() {
    let modelid = 64252;
    let field: &str = "WhIn";
    let expected: i64 = 166095;

    let buf: Vec<u16> = vec![0b10, 0b1000100011001111];
    let schema = mk_model(
        modelid,
        10,
        vec![mk_point(field, "int32", 0, None, Access::ReadOnly, None)],
    );
    let (mut ss, _ssd, mut md) = setup(modelid, schema, String::from("Generac"), buf);

    if let Ok(pt) = ss.get_point(&mut md, PointIdentifier::Point(field.to_string())) {
        if let Some(val) = pt.value {
            if let ValueType::Integer(testval) = val {
                assert_eq!(expected, testval);
            } else {
                panic!("Inappropriate responsetype")
            }
        } else {
            panic!("None in pt.value");
        }
    } else {
        panic!("No point data returned");
    }
}

#[test]
pub fn test_enum16_strict_and_lenient() {
    let modelid = 64270;
    let field: &str = "St";
    let symbols = vec![
        Symbol { id: "OFF".to_string(), symbol: "0".to_string() },
        Symbol { id: "ON".to_string(), symbol: "1".to_string() },
    ];
    let schema = mk_model(
        modelid,
        10,
        vec![mk_point(field, "enum16", 0, None, Access::ReadOnly, Some(symbols))],
    );

    // raw code 5 has no symbol: lenient mode synthesizes a label
    let buf: Vec<u16> = vec![5];
    let (mut ss, _ssd, mut md) = setup(modelid, schema.clone(), String::from("Generac"), buf);
    let pt = ss
        .get_point(&mut md, PointIdentifier::Point(field.to_string()))
        .expect("lenient mode returns a synthesized label");
    assert_eq!(pt.value, Some(ValueType::String("ENUM16_5".to_string())));

    // strict mode fails on the same input
    let meh = ModbusTestHarness { buf: vec![5], writes: vec![] };
    let mut strict = SunSpecConnection::test_new(meh, true);
    let mut ssd2 = SunSpecData::new();
    ssd2.add_model(schema);
    strict.models = strict.populate_models(&ssd2).unwrap();
    let model = ssd2.get_model(modelid, None).unwrap().clone();
    let mut md2 = ModelData {
        id: modelid,
        len: model.model.len,
        address: model.model.id,
        model,
        scale_factors: vec![],
    };
    match strict.get_point(&mut md2, PointIdentifier::Point(field.to_string())) {
        Ok(_) => panic!("strict mode must fail when no symbol matches"),
        Err(e) => assert!(matches!(
            e,
            sunspec_rs::sunspec_connection::SunSpecPointError::GeneralError(_)
        )),
    }

    // a matching code resolves to its symbol's label in either mode
    let meh = ModbusTestHarness { buf: vec![1], writes: vec![] };
    let mut ss3 = SunSpecConnection::test_new(meh, true);
    let pt = ss3
        .get_point(&mut md2, PointIdentifier::Point(field.to_string()))
        .expect("a known code resolves");
    assert_eq!(pt.value, Some(ValueType::String("ON".to_string())));
}

#[test]
pub fn test_not_implemented_sentinel_via_get_point() {
    let modelid = 64271;
    let field: &str = "Val";
    let schema = mk_model(
        modelid,
        10,
        vec![mk_point(field, "uint16", 0, None, Access::ReadOnly, None)],
    );
    let buf: Vec<u16> = vec![0xFFFF];
    let (mut ss, _ssd, mut md) = setup(modelid, schema, String::from("Generac"), buf);
    match ss.get_point(&mut md, PointIdentifier::Point(field.to_string())) {
        Ok(_) => panic!("the reserved sentinel must not decode as a plain value"),
        Err(e) => assert!(matches!(
            e,
            sunspec_rs::sunspec_connection::SunSpecPointError::GeneralError(_)
        )),
    }
}

#[test]
pub fn test_pad_point_needs_no_register() {
    let modelid = 64272;
    let field: &str = "Pad";
    let schema = mk_model(
        modelid,
        10,
        vec![mk_point(field, "pad", 0, None, Access::ReadOnly, None)],
    );
    let buf: Vec<u16> = vec![];
    let (mut ss, _ssd, mut md) = setup(modelid, schema, String::from("Generac"), buf);
    let pt = ss
        .get_point(&mut md, PointIdentifier::Point(field.to_string()))
        .expect("a pad point always resolves");
    assert_eq!(pt.value, Some(ValueType::Pad));
}
