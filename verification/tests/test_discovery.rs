use sunspec_rs::codec::word_from_i16;
use sunspec_rs::json::group::{Group, GroupCount, GroupType};
use sunspec_rs::json::point::{
    Point as JsonPoint, PointAccess, PointMandatory, PointStatic, PointType as JsonPointType,
};
use sunspec_rs::model_data::{ModelData, SunSpecModelDataError};
use sunspec_rs::modbus_test_harness::RegisterImage;
use sunspec_rs::sunspec_connection::{point_block_address, SunSpecConnection};
use sunspec_rs::sunspec_data::SunSpecData;
use sunspec_rs::sunspec_models::{
    Access, Block, Model, ModelSource, Point, PointIdentifier, ScaledValue, SunSpecModels,
    ValueType,
};

fn mk_point(id: &str, type_: &str, offset: u16, sf: Option<String>) -> Point {
    Point {
        id: id.to_string(),
        offset,
        type_: type_.to_string(),
        len: None,
        mandatory: Some(true),
        access: Some(Access::ReadOnly),
        symbol: None,
        units: None,
        scale_factor: sf,
        value: None,
        literal: None,
        block_id: None,
    }
}

fn mk_model(id: u16, len: u16, points: Vec<Point>) -> SunSpecModels {
    SunSpecModels {
        model: Model {
            id,
            len,
            name: format!("model_{id}"),
            block: vec![Block { len, type_: None, name: None, point: points }],
        },
        strings: vec![],
        source: ModelSource::XML,
    }
}

fn jpoint(name: &str, type_: JsonPointType, size: i64) -> JsonPoint {
    JsonPoint {
        access: PointAccess::R,
        comments: vec![],
        count: None,
        desc: None,
        detail: None,
        label: None,
        mandatory: PointMandatory::M,
        name: name.to_string(),
        notes: None,
        sf: None,
        size,
        static_: PointStatic::D,
        symbols: vec![],
        type_,
        units: None,
        value: None,
    }
}

fn image(len: usize) -> RegisterImage {
    RegisterImage { base: 40000, regs: vec![0u16; len] }
}

#[test]
fn test_discovery_synthetic_chain() {
    // the device declares models (1, 66) and (705, 120), then the sentinel
    let mut img = image(250);
    img.regs[2] = 1;
    img.regs[3] = 66;
    img.regs[70] = 705;
    img.regs[71] = 120;
    img.regs[192] = 65535;
    img.regs[193] = 0;

    let mut ssd = SunSpecData::new();
    ssd.add_model(mk_model(1, 66, vec![mk_point("Mn", "string", 2, None)]));
    ssd.add_model(mk_model(705, 120, vec![mk_point("W", "uint16", 0, None)]));

    let mut ss = SunSpecConnection::new(img, "10.0.0.1:502".to_string(), None, false);
    let models = ss.populate_models(&ssd).expect("discovery must succeed");

    assert_eq!(models.len(), 2);
    let m1 = models.get(&1).expect("model 1 discovered");
    let m705 = models.get(&705).expect("model 705 discovered");
    assert!(!models.contains_key(&65535));
    assert_eq!(m1.address, 40002);
    assert_eq!(m1.len, 66);
    assert_eq!(m705.address, 40070);
    assert_eq!(m705.len, 120);
    // address ranges are contiguous and non-overlapping
    assert_eq!(m1.address + m1.len + 2, m705.address);
}

#[test]
fn test_discovery_aborts_without_first_header() {
    // an image too small even for the first header read
    let img = RegisterImage { base: 40000, regs: vec![0u16; 2] };
    let ssd = SunSpecData::new();
    let mut ss = SunSpecConnection::new(img, "10.0.0.1:502".to_string(), None, false);
    assert!(ss.populate_models(&ssd).is_err());
}

#[test]
fn test_repeating_block_address_arithmetic() {
    // fixed block length 10, repeating block length 5, block index 2,
    // point offset 1: base + 2 + 10 + (2-1)*5 + 1
    assert_eq!(point_block_address(40000, 1, 10, 5, 2), Some(40000 + 2 + 10 + 5 + 1));
}

#[test]
fn test_get_point_in_repeating_block() {
    let mut img = image(100);
    img.regs[2] = 65535;  // empty model chain so discovery stops at once
    img.regs[18] = 99;  // 40018 = 40000 + 2 + 10 + 5 + 1

    let schema = SunSpecModels {
        model: Model {
            id: 777,
            len: 20,
            name: "two_blocks".to_string(),
            block: vec![
                Block {
                    len: 10,
                    type_: None,
                    name: None,
                    point: vec![],
                },
                Block {
                    len: 5,
                    type_: Some("repeating".to_string()),
                    name: None,
                    point: vec![mk_point("ModV", "uint16", 1, None)],
                },
            ],
        },
        strings: vec![],
        source: ModelSource::XML,
    };
    let mut ssd = SunSpecData::new();
    ssd.add_model(schema);
    let mut ss = SunSpecConnection::new(img, "10.0.0.1:502".to_string(), None, false);
    let mut md = ModelData::new(&ssd, 777, 20, 40000, None).unwrap();

    let pt = ss
        .get_point_in_block(&mut md, PointIdentifier::Point("ModV".to_string()), Some(2))
        .expect("point in block 2 resolves");
    assert_eq!(pt.value, Some(ValueType::Integer(99)));

    // index 0 addresses the fixed block: an error, before any read
    assert!(ss
        .get_point_in_block(&mut md, PointIdentifier::Point("ModV".to_string()), Some(0))
        .is_err());
}

#[test]
fn test_block_index_without_repeating_block_is_error() {
    let img = image(100);
    let mut ssd = SunSpecData::new();
    ssd.add_model(mk_model(1, 10, vec![mk_point("A", "uint16", 0, None)]));
    let mut ss = SunSpecConnection::new(img, "10.0.0.1:502".to_string(), None, false);
    let mut md = ModelData::new(&ssd, 1, 10, 40000, None).unwrap();
    assert!(ss
        .get_point_in_block(&mut md, PointIdentifier::Point("A".to_string()), Some(1))
        .is_err());
}

#[test]
fn test_block_count() {
    let mut ssd = SunSpecData::new();
    ssd.add_model(SunSpecModels {
        model: Model {
            id: 10,
            len: 0,
            name: "m".to_string(),
            block: vec![
                Block { len: 10, type_: None, name: None, point: vec![] },
                Block { len: 5, type_: Some("repeating".to_string()), name: None, point: vec![] },
            ],
        },
        strings: vec![],
        source: ModelSource::XML,
    });
    let md = ModelData::new(&ssd, 10, 25, 40000, None).unwrap();
    assert_eq!(md.get_block_count(), Ok(3));

    let md_bad = ModelData::new(&ssd, 10, 23, 40000, None).unwrap();
    assert_eq!(md_bad.get_block_count(), Err(SunSpecModelDataError::Remainder));
}

#[test]
fn test_block_count_first_block_repeating() {
    let mut ssd = SunSpecData::new();
    ssd.add_model(SunSpecModels {
        model: Model {
            id: 11,
            len: 0,
            name: "m".to_string(),
            block: vec![Block {
                len: 5,
                type_: Some("repeating".to_string()),
                name: None,
                point: vec![],
            }],
        },
        strings: vec![],
        source: ModelSource::XML,
    });
    let md = ModelData::new(&ssd, 11, 25, 40000, None).unwrap();
    assert_eq!(md.get_block_count(), Ok(5));
}

#[test]
fn test_scale_factor_exact_and_cached() {
    let mut img = image(200);
    img.regs[102] = 500;  // raw value at 40102 = 2 + 40100 + 0
    img.regs[103] = word_from_i16(-2);  // scale factor at 40103

    let mut ssd = SunSpecData::new();
    ssd.add_model(mk_model(
        800,
        2,
        vec![
            mk_point("W", "uint16", 0, Some("W_SF".to_string())),
            mk_point("W_SF", "sunssf", 1, None),
        ],
    ));
    let mut ss = SunSpecConnection::new(img, "10.0.0.1:502".to_string(), None, false);
    let mut md = ModelData::new(&ssd, 800, 2, 40100, None).unwrap();

    let pt = ss
        .get_point(&mut md, PointIdentifier::Point("W".to_string()))
        .expect("scaled read succeeds");
    // scale-factor application is exact: raw=500, sf=-2 is 5.0
    assert_eq!(pt.value, Some(ValueType::Scaled(ScaledValue { raw: 500, sf: -2 })));
    if let Some(ValueType::Scaled(sv)) = pt.value {
        assert_eq!(sv.raw as f64 * 10f64.powi(sv.sf as i32), 5.0);
    }

    // the cache is never invalidated: a remote change to the scale-factor
    // register is not observed after first resolution
    ss.conn.regs[103] = word_from_i16(1);
    let pt2 = ss
        .get_point(&mut md, PointIdentifier::Point("W".to_string()))
        .expect("second read succeeds");
    assert_eq!(pt2.value, Some(ValueType::Scaled(ScaledValue { raw: 500, sf: -2 })));
}

#[test]
fn test_json_catalog_population_with_dynamic_count() {
    // a JSON-schema model whose child group's instance count is the decoded
    // value of the sibling point N
    let child = Group {
        comments: vec![],
        count: GroupCount::String("N".to_string()),
        desc: None,
        detail: None,
        groups: vec![],
        label: None,
        name: "grp".to_string(),
        notes: None,
        points: vec![jpoint("P", JsonPointType::Uint16, 1)],
        type_: GroupType::Group,
    };
    let root = Group {
        comments: vec![],
        count: GroupCount::Integer(1),
        desc: None,
        detail: None,
        groups: vec![child],
        label: None,
        name: "root".to_string(),
        notes: None,
        points: vec![
            jpoint("ID", JsonPointType::Uint16, 1),
            jpoint("L", JsonPointType::Uint16, 1),
            jpoint("N", JsonPointType::Uint16, 1),
        ],
        type_: GroupType::Group,
    };
    let json = sunspec_rs::json::misc::JSONModel { id: 64300, group: root };
    let schema = SunSpecModels::from_json(&json).expect("normalization succeeds");
    let model_len = schema.model.len;
    assert_eq!(model_len, 3);

    let mut img = image(100);
    img.regs[2] = 64300;
    img.regs[3] = model_len;
    img.regs[4] = 2;  // N = 2 instances
    img.regs[5] = 10;  // grp[1].P
    img.regs[6] = 20;  // grp[2].P
    img.regs[7] = 65535;
    img.regs[8] = 0;

    let mut ssd = SunSpecData::new();
    ssd.add_model(schema);
    let mut ss = SunSpecConnection::new(img, "10.0.0.1:502".to_string(), None, false);
    let models = ss.populate_models(&ssd).expect("discovery succeeds");
    assert!(models.contains_key(&64300));

    let paths: Vec<String> = ss.catalog.iter().map(|e| e.0.clone()).collect();
    assert!(paths.contains(&".root.N".to_string()));
    assert!(paths.contains(&".root.grp[1].P".to_string()));
    assert!(paths.contains(&".root.grp[2].P".to_string()));

    let n_entry = ss.catalog.iter().find(|e| e.0 == ".root.N").unwrap();
    assert_eq!(n_entry.1.address, 40004);
    if let ValueType::Integer(v) = n_entry.1.value {
        assert_eq!(v, 2);
    } else {
        panic!("N should decode as an integer");
    }

    // a catalog path resolves directly against the recorded address
    let mut md = models.get(&64300).unwrap().clone();
    let pt = ss
        .get_point(&mut md, PointIdentifier::Catalog(".root.grp[2].P".to_string()))
        .expect("catalog read succeeds");
    assert_eq!(pt.value, Some(ValueType::Integer(20)));
}

#[test]
fn test_missing_point_does_not_exist() {
    let img = image(100);
    let mut ssd = SunSpecData::new();
    ssd.add_model(mk_model(1, 10, vec![mk_point("A", "uint16", 0, None)]));
    let mut ss = SunSpecConnection::new(img, "10.0.0.1:502".to_string(), None, false);
    let mut md = ModelData::new(&ssd, 1, 10, 40000, None).unwrap();
    match ss.get_point(&mut md, PointIdentifier::Point("Missing".to_string())) {
        Ok(_) => panic!("an absent point must not resolve"),
        Err(e) => assert!(matches!(
            e,
            sunspec_rs::sunspec_connection::SunSpecPointError::DoesNotExist(_)
        )),
    }
}

#[test]
fn test_model_data_new_fails_without_schema() {
    let ssd = SunSpecData::new();
    assert!(ModelData::new(&ssd, 9, 10, 40000, None).is_err());
}

#[test]
fn test_write_failure_surfaces_as_comm_error() {
    // an image of a single register: a write at its far edge fails
    let img = RegisterImage { base: 40000, regs: vec![0u16; 3] };
    let mut ssd = SunSpecData::new();
    ssd.add_model(SunSpecModels {
        model: Model {
            id: 2,
            len: 10,
            name: "m".to_string(),
            block: vec![Block {
                len: 10,
                type_: None,
                name: None,
                point: vec![Point {
                    id: "W".to_string(),
                    offset: 8,
                    type_: "uint16".to_string(),
                    len: None,
                    mandatory: None,
                    access: Some(Access::ReadWrite),
                    symbol: None,
                    units: None,
                    scale_factor: None,
                    value: None,
                    literal: None,
                    block_id: None,
                }],
            }],
        },
        strings: vec![],
        source: ModelSource::XML,
    });
    let mut ss = SunSpecConnection::new(img, "10.0.0.1:502".to_string(), None, false);
    let md = ModelData::new(&ssd, 2, 10, 40000, None).unwrap();
    match ss.set_point(&md, PointIdentifier::Point("W".to_string()), ValueType::Integer(1)) {
        Ok(_) => panic!("a write outside the image must fail"),
        Err(e) => assert!(matches!(
            e,
            sunspec_rs::sunspec_connection::SunSpecWriteError::CommError(_)
        )),
    }
}

#[test]
fn test_u64_scaled_reading_beyond_range_is_error() {
    let mut img = image(200);
    // a 64-bit reading with the top bit set exceeds the scalable range
    img.regs[102] = 0x8000;
    img.regs[106] = word_from_i16(-1);

    let mut ssd = SunSpecData::new();
    ssd.add_model(mk_model(
        801,
        5,
        vec![
            mk_point("Wh", "uint64", 0, Some("Wh_SF".to_string())),
            mk_point("Wh_SF", "sunssf", 4, None),
        ],
    ));
    let mut ss = SunSpecConnection::new(img, "10.0.0.1:502".to_string(), None, false);
    let mut md = ModelData::new(&ssd, 801, 5, 40100, None).unwrap();
    match ss.get_point(&mut md, PointIdentifier::Point("Wh".to_string())) {
        Ok(_) => panic!("a reading beyond the scalable range must not scale"),
        Err(e) => assert!(matches!(
            e,
            sunspec_rs::sunspec_connection::SunSpecPointError::GeneralError(_)
        )),
    }

    // without a scale factor the same reading wraps into the raw integer form
    let mut img2 = image(200);
    img2.regs[102] = 0x8000;
    let mut ssd2 = SunSpecData::new();
    ssd2.add_model(mk_model(802, 4, vec![mk_point("Wh", "uint64", 0, None)]));
    let mut ss2 = SunSpecConnection::new(img2, "10.0.0.1:502".to_string(), None, false);
    let mut md2 = ModelData::new(&ssd2, 802, 4, 40100, None).unwrap();
    let pt = ss2
        .get_point(&mut md2, PointIdentifier::Point("Wh".to_string()))
        .expect("an unscaled 64-bit read succeeds");
    assert_eq!(pt.value, Some(ValueType::Integer(i64::MIN)));
}
