use sunspec_rs::model_data::ModelData;
use sunspec_rs::modbus_test_harness::ModbusTestHarness;
use sunspec_rs::sunspec_connection::{SunSpecConnection, SunSpecWriteError};
use sunspec_rs::sunspec_data::SunSpecData;
use sunspec_rs::sunspec_models::{
    Access, Block, Model, ModelSource, Point, PointIdentifier, SunSpecModels, ValueType,
};

fn mk_point(id: &str, type_: &str, offset: u16, len: Option<u16>, access: Access) -> Point {
    Point {
        id: id.to_string(),
        offset,
        type_: type_.to_string(),
        len,
        mandatory: Some(true),
        access: Some(access),
        symbol: None,
        units: None,
        scale_factor: None,
        value: None,
        literal: None,
        block_id: None,
    }
}

fn mk_model(id: u16, len: u16, points: Vec<Point>) -> SunSpecModels {
    SunSpecModels {
        model: Model {
            id,
            len,
            name: format!("model_{id}"),
            block: vec![Block { len, type_: None, name: None, point: points }],
        },
        strings: vec![],
        source: ModelSource::XML,
    }
}

fn setup(
    modelid: u16,
    schema: SunSpecModels,
    manufacturer: String,
    buf_contents: Vec<u16>,
) -> (SunSpecConnection<ModbusTestHarness>, SunSpecData, ModelData) {
    let meh = ModbusTestHarness { buf: buf_contents, writes: vec![] };
    let mut ss = SunSpecConnection::test_new(meh, false);

    let mut ssd = SunSpecData::new();
    ssd.add_model(schema);
    match ss.populate_models(&ssd) {
        Ok(m) => ss.models = m,
        Err(e) => {
            panic!("Can't populate models: {e:?}")
        }
    };
    let model = ssd.get_model(modelid, Some(manufacturer)).unwrap().clone();
    let md = ModelData {
        id: modelid,
        len: model.model.len,
        address: model.model.id,
        model,
        scale_factors: vec![],
    };
    (ss, ssd, md)
}

#[test]
pub fn test_write_string_not_exist() {
    let modelid = 1;
    let field: &str = "Glorblurgl";
    let value = ValueType::String(String::from("woohoo"));

    let buf: Vec<u16> = vec![0; 20];
    let schema = mk_model(
        modelid,
        66,
        vec![mk_point("Mn", "string", 2, Some(2), Access::ReadOnly)],
    );
    let (mut ss, _ssd, md) = setup(modelid, schema, String::from("Generac"), buf);
    match ss.set_point(&md, PointIdentifier::Point(field.to_string()), value) {
        Ok(_) => {}
        Err(e) => {
            assert_eq!(e, SunSpecWriteError::PointDoesntExist)
        }
    }
}

#[test]
pub fn test_write_string_read_only() {
    let modelid = 1;
    let field: &str = "Mn";
    let value = ValueType::String(String::from("woohoo"));

    let buf: Vec<u16> = vec![0; 20];
    let schema = mk_model(
        modelid,
        66,
        vec![mk_point("Mn", "string", 2, Some(2), Access::ReadOnly)],
    );
    let (mut ss, _ssd, md) = setup(modelid, schema, String::from("Generac"), buf);
    match ss.set_point(&md, PointIdentifier::Point(field.to_string()), value) {
        Ok(_) => {}
        Err(e) => {
            assert_eq!(e, SunSpecWriteError::PointIsReadOnly)
        }
    }
}

#[test]
pub fn test_write_string_wrong_type() {
    let modelid = 64263;
    let field: &str = "Enable";
    let value = ValueType::String(String::from("woohoo"));

    let buf: Vec<u16> = vec![0; 20];
    let schema = mk_model(
        modelid,
        10,
        vec![mk_point("Enable", "enum16", 0, None, Access::ReadWrite)],
    );
    let (mut ss, _ssd, md) = setup(modelid, schema, String::from("Generac"), buf);
    match ss.set_point(&md, PointIdentifier::Point(field.to_string()), value) {
        Ok(_) => {}
        Err(e) => {
            assert_eq!(e, SunSpecWriteError::ValueDoesntMatchPoint);
        }
    }
}

#[test]
pub fn test_write_enum32_value_too_big() {
    let modelid = 64263;
    let field: &str = "Enable";
    let value = ValueType::Integer(77777_i64);

    let buf: Vec<u16> = vec![0; 20];
    let schema = mk_model(
        modelid,
        10,
        vec![mk_point("Enable", "enum16", 0, None, Access::ReadWrite)],
    );
    let (mut ss, _ssd, md) = setup(modelid, schema, String::from("Generac"), buf);
    match ss.set_point(&md, PointIdentifier::Point(field.to_string()), value) {
        Ok(_) => {}
        Err(e) => {
            assert_eq!(e, SunSpecWriteError::ValueWouldOverflow);
        }
    }
}

#[test]
pub fn test_write_negative_to_unsigned_makes_no_transport_call() {
    let modelid = 64263;
    let field: &str = "Enable";
    let value = ValueType::Integer(-3_i64);

    let buf: Vec<u16> = vec![0; 20];
    let schema = mk_model(
        modelid,
        10,
        vec![mk_point("Enable", "uint16", 0, None, Access::ReadWrite)],
    );
    let (mut ss, _ssd, md) = setup(modelid, schema, String::from("Generac"), buf);
    match ss.set_point(&md, PointIdentifier::Point(field.to_string()), value) {
        Ok(_) => panic!("a negative value must not be written to an unsigned point"),
        Err(e) => {
            assert_eq!(e, SunSpecWriteError::ValueDoesntMatchPoint);
        }
    }
    // the recording transport saw no write at all
    assert_eq!(ss.conn.writes.len(), 0);
}

#[test]
pub fn test_write_valid_u16_reaches_register() {
    let modelid = 64263;
    let field: &str = "Enable";
    let value = ValueType::Integer(7_i64);

    let buf: Vec<u16> = vec![0; 20];
    let schema = mk_model(
        modelid,
        10,
        vec![mk_point("Enable", "uint16", 3, None, Access::ReadWrite)],
    );
    let (mut ss, _ssd, md) = setup(modelid, schema, String::from("Generac"), buf);
    let base = md.address;
    match ss.set_point(&md, PointIdentifier::Point(field.to_string()), value) {
        Ok(()) => {}
        Err(e) => panic!("write should succeed: {e:?}"),
    }
    assert_eq!(ss.conn.writes, vec![(2 + base + 3, 7u16)]);
}

#[test]
pub fn test_write_u32_bounds() {
    let modelid = 64265;
    let buf: Vec<u16> = vec![0; 20];
    let schema = mk_model(
        modelid,
        10,
        vec![mk_point("Limit", "uint32", 0, None, Access::ReadWrite)],
    );
    let (mut ss, _ssd, md) = setup(modelid, schema, String::from("Generac"), buf);

    // beyond the 32-bit field width: rejected as overflow
    match ss.set_point(
        &md,
        PointIdentifier::Point("Limit".to_string()),
        ValueType::Integer(0x1_0000_0000_i64),
    ) {
        Ok(_) => panic!("a value beyond the field width must not be written"),
        Err(e) => assert_eq!(e, SunSpecWriteError::ValueWouldOverflow),
    }
    // in range, but 32-bit writes are rejected as unimplemented, not truncated
    match ss.set_point(
        &md,
        PointIdentifier::Point("Limit".to_string()),
        ValueType::Integer(77_i64),
    ) {
        Ok(_) => panic!("32-bit writes are not implemented"),
        Err(e) => assert!(matches!(e, SunSpecWriteError::General(_))),
    }
    assert_eq!(ss.conn.writes.len(), 0);
}
