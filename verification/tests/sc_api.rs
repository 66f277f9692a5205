use base64::engine::general_purpose::STANDARD;
use base64::Engine;
use scapi::bytes::Endianness;
use scapi::decoder::{DecodedValue, ResponseDecoder};
use scapi::reader::BinaryReader;
use scapi::sc_api::{PayloadBuilder, RequestDataBuilder};
use serde_json::Value;

/// The JSON form of a decoded value, as the command-line tools print it.
fn to_json(v: DecodedValue) -> Value {
    match v {
        DecodedValue::UInt(n) => Value::from(n),
        DecodedValue::Int(n) => Value::from(n),
        DecodedValue::Float32Bits(b) => Value::from(f32::from_bits(b) as f64),
        DecodedValue::Float64Bits(b) => Value::from(f64::from_bits(b)),
        DecodedValue::Hex(s) => Value::String(s),
        DecodedValue::List(items) => Value::Array(items.into_iter().map(to_json).collect()),
        DecodedValue::Object(fields) => {
            let mut map = serde_json::Map::new();
            for (k, v) in fields {
                map.insert(k, to_json(v));
            }
            Value::Object(map)
        }
    }
}

// BinaryReader tests
#[test]
fn test_binary_reader_u8() {
    let data = vec![0x42, 0xFF, 0x00];
    let mut reader = BinaryReader::new(&data);

    assert_eq!(reader.read_u8().unwrap(), 0x42);
    assert_eq!(reader.read_u8().unwrap(), 0xFF);
    assert_eq!(reader.read_u8().unwrap(), 0x00);
    assert!(reader.read_u8().is_err());
}

#[test]
fn test_binary_reader_u16_little_endian() {
    let data = vec![0x34, 0x12];
    let mut reader = BinaryReader::new(&data);
    reader.set_endianness(Endianness::Little);

    assert_eq!(reader.read_u16().unwrap(), 0x1234);
}

#[test]
fn test_binary_reader_u16_big_endian() {
    let data = vec![0x12, 0x34];
    let mut reader = BinaryReader::new(&data);
    reader.set_endianness(Endianness::Big);

    assert_eq!(reader.read_u16().unwrap(), 0x1234);
}

#[test]
fn test_binary_reader_u32_little_endian() {
    let data = vec![0x78, 0x56, 0x34, 0x12];
    let mut reader = BinaryReader::new(&data);
    reader.set_endianness(Endianness::Little);

    assert_eq!(reader.read_u32().unwrap(), 0x12345678);
}

#[test]
fn test_binary_reader_u64_little_endian() {
    let data = vec![0xEF, 0xCD, 0xAB, 0x90, 0x78, 0x56, 0x34, 0x12];
    let mut reader = BinaryReader::new(&data);
    reader.set_endianness(Endianness::Little);

    assert_eq!(reader.read_u64().unwrap(), 0x1234567890ABCDEF);
}

#[test]
fn test_binary_reader_position() {
    let data = vec![0x01, 0x02, 0x03, 0x04];
    let mut reader = BinaryReader::new(&data);

    assert_eq!(reader.position(), 0);
    reader.read_u8().unwrap();
    assert_eq!(reader.position(), 1);
    reader.read_u8().unwrap();
    assert_eq!(reader.position(), 2);
}

#[test]
fn test_binary_reader_read_bytes() {
    let data = vec![0x01, 0x02, 0x03, 0x04];
    let mut reader = BinaryReader::new(&data);

    let bytes = reader.read_bytes(2).unwrap();
    assert_eq!(bytes, &[0x01, 0x02]);
    assert_eq!(reader.position(), 2);

    let bytes2 = reader.read_bytes(2).unwrap();
    assert_eq!(bytes2, &[0x03, 0x04]);
}

#[test]
fn test_binary_reader_not_enough_bytes() {
    let data = vec![0x01, 0x02];
    let mut reader = BinaryReader::new(&data);

    assert!(reader.ensure_available(2).is_ok());
    assert!(reader.ensure_available(3).is_err());

    reader.read_u8().unwrap();
    assert!(reader.ensure_available(2).is_err());
}

// RequestDataBuilder tests
#[test]
fn test_request_builder_basic() {
    let builder = RequestDataBuilder::new().set_contract_index(16).set_input_type(1);

    assert_eq!(builder.contract_index(), 16);
    assert_eq!(builder.input_type(), 1);
}

#[test]
fn test_request_builder_add_uint8() {
    let builder = RequestDataBuilder::new().add_uint8(10);

    assert_eq!(builder.to_bytes(), vec![10]);
}

#[test]
fn test_request_builder_add_uint16() {
    let builder = RequestDataBuilder::new()
        .with_endianness(Endianness::Little)
        .add_uint16(0x1234);

    assert_eq!(builder.to_bytes(), vec![0x34, 0x12]);
}

#[test]
fn test_request_builder_add_uint32() {
    let builder = RequestDataBuilder::new()
        .with_endianness(Endianness::Little)
        .add_uint32(0x12345678);

    assert_eq!(builder.to_bytes(), vec![0x78, 0x56, 0x34, 0x12]);
}

#[test]
fn test_request_builder_add_uint64() {
    let builder = RequestDataBuilder::new()
        .with_endianness(Endianness::Little)
        .add_uint64(1000);

    let bytes = builder.to_bytes();
    assert_eq!(bytes.len(), 8);
    assert_eq!(bytes[0], 0xE8);
    assert_eq!(bytes[1], 0x03);
}

#[test]
fn test_request_builder_add_multiple() {
    let builder = RequestDataBuilder::new()
        .with_endianness(Endianness::Little)
        .add_uint8(10)
        .add_uint16(1000)
        .add_uint32(100000);

    let bytes = builder.to_bytes();
    assert_eq!(bytes.len(), 1 + 2 + 4);
}

#[test]
fn test_request_builder_endianness() {
    let le = RequestDataBuilder::new()
        .with_endianness(Endianness::Little)
        .add_uint16(0x1234)
        .to_bytes();

    assert_eq!(le[0], 0x34);
    assert_eq!(le[1], 0x12);

    let be = RequestDataBuilder::new()
        .with_endianness(Endianness::Big)
        .add_uint16(0x1234)
        .to_bytes();

    assert_eq!(be[0], 0x12);
    assert_eq!(be[1], 0x34);
}

#[test]
fn test_request_builder_to_base64() {
    let builder = RequestDataBuilder::new()
        .add_uint8(0x01)
        .add_uint8(0x02)
        .add_uint8(0x03);

    let base64 = builder.to_base64();
    assert!(!base64.is_empty());

    let decoded = STANDARD.decode(&base64).unwrap();
    assert_eq!(decoded, vec![0x01, 0x02, 0x03]);
}

// ResponseDecoder tests
#[test]
fn test_decoder_u8() {
    let data = vec![0x42];
    let result = to_json(ResponseDecoder::new(&data).u8("value").unwrap().to_value());

    assert_eq!(result["value"], 0x42);
}

#[test]
fn test_decoder_u16() {
    let data = vec![0x34, 0x12];
    let result = to_json(ResponseDecoder::new(&data).u16("value").unwrap().to_value());

    assert_eq!(result["value"], 0x1234);
}

#[test]
fn test_decoder_u32() {
    let data = vec![0x78, 0x56, 0x34, 0x12];
    let result = to_json(ResponseDecoder::new(&data).u32("value").unwrap().to_value());

    assert_eq!(result["value"], 0x12345678u32);
}

#[test]
fn test_decoder_u64() {
    let data = vec![0xE8, 0x03, 0x00, 0x00, 0x00, 0x00, 0x00, 0x00];
    let result = to_json(ResponseDecoder::new(&data).u64("balance").unwrap().to_value());

    assert_eq!(result["balance"], 1000u64);
}

#[test]
fn test_decoder_multiple_fields() {
    let data = vec![0x0A, 0x64, 0x00, 0xE8, 0x03, 0x00, 0x00];

    let result = to_json(
        ResponseDecoder::new(&data)
            .u8("field1")
            .unwrap()
            .u16("field2")
            .unwrap()
            .u32("field3")
            .unwrap()
            .to_value(),
    );

    assert_eq!(result["field1"], 10);
    assert_eq!(result["field2"], 100);
    assert_eq!(result["field3"], 1000);
}

#[test]
fn test_decoder_array_u8() {
    let data = vec![0x01, 0x02, 0x03, 0x04, 0x05];

    let result = to_json(ResponseDecoder::new(&data).array_u8("values", 5).unwrap().to_value());

    let array = result["values"].as_array().unwrap();
    assert_eq!(array.len(), 5);
    assert_eq!(array[0], 1);
    assert_eq!(array[4], 5);
}

#[test]
fn test_decoder_array_u16() {
    let data = vec![0x01, 0x00, 0x02, 0x00, 0x03, 0x00];

    let result = to_json(ResponseDecoder::new(&data).array_u16("values", 3).unwrap().to_value());

    let array = result["values"].as_array().unwrap();
    assert_eq!(array.len(), 3);
    assert_eq!(array[0], 1);
    assert_eq!(array[1], 2);
    assert_eq!(array[2], 3);
}

#[test]
fn test_decoder_bytes() {
    let data = vec![0x01, 0x02, 0x03, 0x04];
    let result = to_json(ResponseDecoder::new(&data).bytes("data", 4).unwrap().to_value());

    assert!(result["data"].is_string());
    let hex = result["data"].as_str().unwrap();
    assert!(hex.starts_with("0x"));
}

#[test]
fn test_decoder_remaining_bytes() {
    let data = vec![0x01, 0x02, 0x03, 0x04, 0x05];
    let result = to_json(
        ResponseDecoder::new(&data)
            .u8("first")
            .unwrap()
            .remaining_bytes("rest")
            .unwrap()
            .to_value(),
    );

    assert_eq!(result["first"], 1);
    let rest = result["rest"].as_str().unwrap();
    assert!(rest.contains("02"));
}

#[test]
fn test_decoder_not_enough_bytes() {
    let data = vec![0x01, 0x02];
    let result = ResponseDecoder::new(&data).u64("value");

    assert!(result.is_err());
}

#[test]
fn test_decoder_endianness() {
    let data = vec![0x12, 0x34];

    let result_le = to_json(ResponseDecoder::new(&data).u16("value").unwrap().to_value());
    assert_eq!(result_le["value"], 0x3412);

    let result_be = to_json(
        ResponseDecoder::new(&data)
            .with_endianness(Endianness::Big)
            .u16("value")
            .unwrap()
            .to_value(),
    );
    assert_eq!(result_be["value"], 0x1234);
}

#[test]
fn test_decoder_to_json_string() {
    let data = vec![0x0A, 0x14];
    let value = ResponseDecoder::new(&data)
        .u8("a")
        .unwrap()
        .u8("b")
        .unwrap()
        .to_value();
    let json_str = serde_json::to_string_pretty(&to_json(value)).unwrap();

    assert!(json_str.contains("\"a\""));
    assert!(json_str.contains("\"b\""));
    assert!(json_str.contains("10"));
    assert!(json_str.contains("20"));
}

#[test]
fn test_decoder_array_struct_bytes() {
    let data = vec![
        0x01, 0x02, 0x03, 0x04, 0x05, 0x06, 0x07, 0x08, 0x09, 0x0A, 0x0B, 0x0C,
    ];

    let result = to_json(
        ResponseDecoder::new(&data)
            .array_struct_bytes("items", 3, 4)
            .unwrap()
            .to_value(),
    );

    let items = result["items"].as_array().unwrap();
    assert_eq!(items.len(), 3);

    let first_item = items[0].as_array().unwrap();
    assert_eq!(first_item.len(), 4);
    assert_eq!(first_item[0], 1);
    assert_eq!(first_item[3], 4);
}

#[test]
fn test_decoder_signed_integers() {
    let data = vec![
        0xFF, 0xFF, 0xFF, 0xFF, 0xFF, 0xFF, 0xFF, 0xFF, 0xFF, 0xFF, 0xFF, 0xFF, 0xFF, 0xFF, 0xFF,
    ];

    let result = to_json(
        ResponseDecoder::new(&data)
            .i8("i8_val")
            .unwrap()
            .i16("i16_val")
            .unwrap()
            .i32("i32_val")
            .unwrap()
            .i64("i64_val")
            .unwrap()
            .to_value(),
    );

    assert_eq!(result["i8_val"], -1);
    assert_eq!(result["i16_val"], -1);
    assert_eq!(result["i32_val"], -1);
    assert_eq!(result["i64_val"], -1);
}

#[test]
fn test_decoder_floats() {
    let mut data = vec![0u8; 12];

    data[0..4].copy_from_slice(&1.5f32.to_le_bytes());
    data[4..12].copy_from_slice(&2.5f64.to_le_bytes());

    let result = to_json(
        ResponseDecoder::new(&data)
            .float32_bits("float_val")
            .unwrap()
            .float64_bits("double_val")
            .unwrap()
            .to_value(),
    );

    assert_eq!(result["float_val"].as_f64().unwrap(), 1.5);
    assert_eq!(result["double_val"].as_f64().unwrap(), 2.5);
}

#[test]
fn test_request_builder_signed_integers() {
    let builder = RequestDataBuilder::new()
        .with_endianness(Endianness::Little)
        .add_int8(-1)
        .add_int16(-1)
        .add_int32(-1)
        .add_int64(-1);

    let bytes = builder.to_bytes();
    assert_eq!(bytes.len(), 1 + 2 + 4 + 8);

    for &b in &bytes {
        assert_eq!(b, 0xFF);
    }
}

#[test]
fn test_request_builder_floats() {
    let builder = RequestDataBuilder::new()
        .with_endianness(Endianness::Little)
        .add_uint32(1.5f32.to_bits())
        .add_uint64(2.5f64.to_bits());

    let bytes = builder.to_bytes();
    assert_eq!(bytes.len(), 4 + 8);
}

// PayloadBuilder tests
#[test]
fn test_payload_builder_basic() {
    let builder = PayloadBuilder::new().add_uint8(10).add_uint16(1000);

    let bytes = builder.to_bytes();
    assert_eq!(bytes.len(), 1 + 2);
    assert_eq!(bytes[0], 10);
}

#[test]
fn test_payload_builder_endianness() {
    let le = PayloadBuilder::new()
        .with_endianness(Endianness::Little)
        .add_uint16(0x1234)
        .to_bytes();

    assert_eq!(le[0], 0x34);
    assert_eq!(le[1], 0x12);

    let be = PayloadBuilder::new()
        .with_endianness(Endianness::Big)
        .add_uint16(0x1234)
        .to_bytes();

    assert_eq!(be[0], 0x12);
    assert_eq!(be[1], 0x34);
}

#[test]
fn test_payload_builder_to_base64() {
    let builder = PayloadBuilder::new()
        .add_uint8(0x01)
        .add_uint8(0x02)
        .add_uint8(0x03);

    let base64 = builder.to_base64();
    assert!(!base64.is_empty());

    let decoded = STANDARD.decode(&base64).unwrap();
    assert_eq!(decoded, vec![0x01, 0x02, 0x03]);
}
