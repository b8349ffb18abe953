use sunspec_rs::json::group::{Group, GroupCount, GroupType};
use sunspec_rs::json::misc::JSONModel;
use sunspec_rs::json::point::{
    Point as JsonPoint, PointAccess, PointMandatory, PointSf, PointStatic,
    PointType as JsonPointType,
};
use sunspec_rs::json::{Symbol as JsonSymbol, SymbolValue};
use sunspec_rs::model_data::ModelData;
use sunspec_rs::sunspec_connection::{
    classify_read_fault, classify_write_fault, SunSpecCommError, TransportFault,
    ERROR_GATEWAY_DEVICE_FAILED_TO_RESPOND, ERROR_ILLEGAL_DATA_VALUE,
};
use sunspec_rs::sunspec_data::SunSpecData;
use sunspec_rs::sunspec_models::{
    Access, Block, LiteralType, Model, ModelLiteral, ModelSource, Point, Strings, SunSpecModels,
    Symbol,
};

fn jpoint(name: &str, type_: JsonPointType, size: i64) -> JsonPoint {
    JsonPoint {
        access: PointAccess::R,
        comments: vec![],
        count: None,
        desc: None,
        detail: None,
        label: None,
        mandatory: PointMandatory::M,
        name: name.to_string(),
        notes: None,
        sf: None,
        size,
        static_: PointStatic::D,
        symbols: vec![],
        type_,
        units: None,
        value: None,
    }
}

fn fault(os: Option<i32>, msg: &str, timed_out: bool) -> TransportFault {
    TransportFault { os_error: os, message: msg.to_string(), timed_out }
}

#[test]
fn test_normalize_json_layout() {
    let mut sf_point = jpoint("W", JsonPointType::Uint16, 1);
    sf_point.sf = Some(PointSf::Integer(-2));
    sf_point.access = PointAccess::Rw;
    let mut enum_point = jpoint("St", JsonPointType::Enum16, 1);
    enum_point.symbols = vec![JsonSymbol {
        comments: vec![],
        desc: None,
        detail: None,
        label: None,
        name: "ON".to_string(),
        notes: None,
        value: SymbolValue::Integer(3),
    }];
    let child = Group {
        comments: vec![],
        count: GroupCount::Integer(1),
        desc: None,
        detail: None,
        groups: vec![],
        label: None,
        name: "module".to_string(),
        notes: None,
        points: vec![jpoint("A", JsonPointType::Uint16, 1), jpoint("B", JsonPointType::Uint32, 2)],
        type_: GroupType::Group,
    };
    let root = Group {
        comments: vec![],
        count: GroupCount::Integer(1),
        desc: None,
        detail: None,
        groups: vec![child],
        label: None,
        name: "inverter".to_string(),
        notes: None,
        points: vec![
            jpoint("ID", JsonPointType::Uint16, 1),
            jpoint("L", JsonPointType::Uint16, 1),
            sf_point,
            enum_point,
        ],
        type_: GroupType::Group,
    };
    let json = JSONModel { id: 701, group: root };
    let m = SunSpecModels::from_json(&json).expect("normalization succeeds");

    // model length is the sum of the root group's point sizes
    assert_eq!(m.model.id, 701);
    assert_eq!(m.model.len, 4);
    assert_eq!(m.model.name, "inverter");
    // one root block plus one block per child group
    assert_eq!(m.model.block.len(), 2);

    // the first two root points (the id/length header) are skipped
    let b0 = &m.model.block[0];
    assert_eq!(b0.point.len(), 2);
    assert_eq!(b0.point[0].id, "W");
    assert_eq!(b0.point[0].offset, 0);
    assert_eq!(b0.point[0].type_, "uint16");
    assert_eq!(b0.point[0].access, Some(Access::ReadWrite));
    assert_eq!(b0.point[0].scale_factor, Some("-2".to_string()));
    assert_eq!(b0.point[1].id, "St");
    assert_eq!(b0.point[1].offset, 1);
    let symbols = b0.point[1].symbol.as_ref().unwrap();
    assert_eq!(symbols.len(), 1);
    assert_eq!(symbols[0].id, "ON");
    assert_eq!(symbols[0].symbol, "3");

    // a child block's offsets reset to zero and accumulate independently
    let b1 = &m.model.block[1];
    assert_eq!(b1.name, Some("module".to_string()));
    assert_eq!(b1.len, 3);
    assert_eq!(b1.point[0].offset, 0);
    assert_eq!(b1.point[1].offset, 1);

    // the source is kept for discovery-time catalog population
    assert!(matches!(m.source, ModelSource::Json(_)));
}

#[test]
fn test_normalize_rejects_empty_model() {
    let root = Group {
        comments: vec![],
        count: GroupCount::Integer(1),
        desc: None,
        detail: None,
        groups: vec![],
        label: None,
        name: "empty".to_string(),
        notes: None,
        points: vec![],
        type_: GroupType::Group,
    };
    let json = JSONModel { id: 9, group: root };
    assert!(SunSpecModels::from_json(&json).is_err());
}

#[test]
fn test_normalize_static_value() {
    let mut p = jpoint("ID", JsonPointType::Uint16, 1);
    p.static_ = PointStatic::S;
    p.value = Some(sunspec_rs::json::point::PointValue::Integer(17));
    let root = Group {
        comments: vec![],
        count: GroupCount::Integer(1),
        desc: None,
        detail: None,
        groups: vec![],
        label: None,
        name: "g".to_string(),
        notes: None,
        points: vec![
            jpoint("ID", JsonPointType::Uint16, 1),
            jpoint("L", JsonPointType::Uint16, 1),
            p,
        ],
        type_: GroupType::Group,
    };
    let m = SunSpecModels::from_json(&JSONModel { id: 5, group: root }).unwrap();
    assert_eq!(
        m.model.block[0].point[0].value,
        Some(sunspec_rs::sunspec_models::ValueType::Integer(17))
    );
}

#[test]
fn test_classification_of_read_faults() {
    // known protocol strings, no OS error code
    assert_eq!(
        classify_read_fault(&fault(None, ERROR_ILLEGAL_DATA_VALUE, false)),
        SunSpecCommError::FatalError(ERROR_ILLEGAL_DATA_VALUE.to_string())
    );
    assert_eq!(
        classify_read_fault(&fault(None, ERROR_GATEWAY_DEVICE_FAILED_TO_RESPOND, false)),
        SunSpecCommError::TransientError
    );
    // an out-of-order response is recognized anywhere in the text
    assert_eq!(
        classify_read_fault(&fault(
            None,
            "oops: Invalid response header: expected/request mismatch",
            false
        )),
        SunSpecCommError::FatalError("out of order response".to_string())
    );
    // anything unmatched is transient, the conservative default
    assert_eq!(
        classify_read_fault(&fault(None, "some novel failure", false)),
        SunSpecCommError::TransientError
    );
    // the broken-pipe class of OS error is fatal, any other code transient
    assert_eq!(
        classify_read_fault(&fault(Some(32), "broken pipe", false)),
        SunSpecCommError::FatalError("broken pipe".to_string())
    );
    assert_eq!(
        classify_read_fault(&fault(Some(104), "connection reset", false)),
        SunSpecCommError::TransientError
    );
    // a timeout is always transient
    assert_eq!(
        classify_read_fault(&fault(Some(32), "broken pipe", true)),
        SunSpecCommError::TransientError
    );
}

#[test]
fn test_classification_of_write_faults() {
    assert_eq!(
        classify_write_fault(&fault(None, ERROR_ILLEGAL_DATA_VALUE, false)),
        SunSpecCommError::FatalError(ERROR_ILLEGAL_DATA_VALUE.to_string())
    );
    assert_eq!(
        classify_write_fault(&fault(None, "anything else", false)),
        SunSpecCommError::TransientError
    );
    // for writes, every OS error code is transient
    assert_eq!(
        classify_write_fault(&fault(Some(32), "broken pipe", false)),
        SunSpecCommError::TransientError
    );
    assert_eq!(
        classify_write_fault(&fault(None, ERROR_ILLEGAL_DATA_VALUE, true)),
        SunSpecCommError::TransientError
    );
}

#[test]
fn test_get_resolved_model() {
    let mut ssd = SunSpecData::new();
    ssd.add_model(SunSpecModels {
        model: Model {
            id: 42,
            len: 2,
            name: "m".to_string(),
            block: vec![Block { len: 2, type_: None, name: None, point: vec![] }],
        },
        strings: vec![Strings {
            id: "en".to_string(),
            locale: Some("en".to_string()),
            literals: vec![LiteralType::Model(ModelLiteral {
                label: Some("Meter".to_string()),
                description: Some("A meter".to_string()),
                notes: None,
            })],
        }],
        source: ModelSource::XML,
    });
    let md = ModelData::new(&ssd, 42, 2, 40000, None).unwrap();
    let resolved = md.get_resolved_model();
    assert_eq!(resolved.label, Some("Meter".to_string()));
    assert_eq!(resolved.description, Some("A meter".to_string()));
    assert_eq!(resolved.notes, None);
    assert_eq!(resolved.model.id, 42);
}

#[test]
fn test_get_symbols_for_point() {
    let mut ssd = SunSpecData::new();
    let symbols = vec![Symbol { id: "OFF".to_string(), symbol: "0".to_string() }];
    ssd.add_model(SunSpecModels {
        model: Model {
            id: 7,
            len: 1,
            name: "m".to_string(),
            block: vec![Block {
                len: 1,
                type_: None,
                name: None,
                point: vec![Point {
                    id: "St".to_string(),
                    offset: 0,
                    type_: "enum16".to_string(),
                    len: None,
                    mandatory: None,
                    access: None,
                    symbol: Some(symbols.clone()),
                    units: None,
                    scale_factor: None,
                    value: None,
                    literal: None,
                    block_id: None,
                }],
            }],
        },
        strings: vec![],
        source: ModelSource::XML,
    });
    let found = ssd.get_symbols_for_point(7, "St".to_string(), None);
    assert_eq!(found.unwrap()[0].id, "OFF");
    assert!(ssd.get_symbols_for_point(7, "Missing".to_string(), None).is_none());
    assert!(ssd.get_symbols_for_point(8, "St".to_string(), None).is_none());
}

#[test]
fn test_needs_manufacturer() {
    assert!(!SunSpecData::needs_manufacturer(1));
    assert!(!SunSpecData::needs_manufacturer(64199));
    assert!(SunSpecData::needs_manufacturer(64200));
    assert!(SunSpecData::needs_manufacturer(65000));
}

#[test]
fn test_schema_spelling_parsers() {
    assert!(JsonPointType::from_str("uint16").is_ok());
    assert!(JsonPointType::from_str("bogus").is_err());
    assert_eq!(JsonPointType::Uint16.to_string(), "uint16");
    assert!(PointAccess::from_str("RW").is_ok());
    assert!(PointAccess::from_str("X").is_err());
    assert_eq!(PointAccess::Rw.to_string(), "RW");
    assert!(PointMandatory::from_str("M").is_ok());
    assert!(PointStatic::from_str("S").is_ok());
    assert!(GroupType::from_str("sync").is_ok());
    assert!(GroupType::from_str("other").is_err());
    assert_eq!(GroupType::Sync.to_string(), "sync");
}
