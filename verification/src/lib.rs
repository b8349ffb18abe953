//! Client-side implementation of the SunSpec information model layered on top
//! of Modbus holding registers: discovery of the models a device exposes,
//! normalization of schema descriptions into one canonical representation,
//! and decoding/encoding of named points between raw 16-bit register words
//! and typed application values.

pub mod codec;
pub mod json;
pub mod modbus_test_harness;
pub mod model_data;
pub mod sunspec_connection;
pub mod sunspec_data;
pub mod sunspec_models;
pub mod text;
