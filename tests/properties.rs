use no_proto::buffer::NP_Buffer;
use no_proto::dec::NP_Dec;
use no_proto::error::NP_Error;
use no_proto::factory::NP_Factory;
use no_proto::memory::{into_value, NP_Cursor};
use no_proto::uuid::{Rand, NP_UUID};

fn stored_i64(v: i64) -> Vec<u8> {
    let factory = NP_Factory::new("i64()").unwrap();
    let mut buffer = factory.new_buffer(None);
    buffer.set(&[], v).unwrap();
    buffer.memory.bytes[6..14].to_vec()
}

#[test]
fn decimal_equality_aligns_exponents() {
    assert!(NP_Dec::new(202, 1) == NP_Dec::new(2020, 2));
    assert!(NP_Dec::new(203, 1) != NP_Dec::new(2020, 2));
    assert!(NP_Dec::new(20201, 2) > NP_Dec::new(202, 0));
    assert!(NP_Dec::new(20201, 2) == NP_Dec::new(2020100, 4));
    assert!(NP_Dec::new(203, 1) > NP_Dec::new(202, 1));
    assert!(NP_Dec::new(202, 1) < NP_Dec::new(203, 1));
    assert!(NP_Dec::new(202, 1) != NP_Dec::new(200, 1));
}

#[test]
fn decimal_comparison_aligns_right_operand() {
    // 202.01 is cut to 202 at exponent 0, so neither side is smaller.
    assert!(!(NP_Dec::new(202, 0) < NP_Dec::new(20201, 2)));
    assert!(NP_Dec::new(202, 0) <= NP_Dec::new(20201, 2));
    assert!(!(NP_Dec::new(i64::MAX, 0) < NP_Dec::new(1, 255)));
    assert!(NP_Dec::new(1, 0) != NP_Dec::new(1, 200));
}

#[test]
fn decimal_arithmetic_scenario() -> Result<(), NP_Error> {
    let factory = NP_Factory::new("dec({exp: 2})")?;
    let mut buffer = factory.new_buffer(None);
    buffer.set(&[], NP_Dec::new(2049, 2))?;
    let mut dec = buffer.get::<NP_Dec>(&[])?.unwrap();
    dec.add_assign(NP_Dec::new(200, 2));
    dec.add_assign(NP_Dec::new(3, 2));
    let mut f = NP_Dec::from_i64(5);
    f.shift_exp(2);
    dec.sub_assign(f);
    assert_eq!(dec.export(), (1752, 2));
    assert_eq!(dec.num as f64 / 100.0, 17.52_f64);
    Ok(())
}

#[test]
fn decimal_shift_and_conversions() {
    let mut x = NP_Dec::new(2203, 3);
    assert_eq!(x.shift_exp(1).export(), (22, 1));
    let mut y = NP_Dec::new(-2209, 3);
    assert_eq!(y.shift_exp(1).export(), (-22, 1));
    let my_num = NP_Dec::new(2203, 3);
    let matched = my_num.match_exp(&NP_Dec::new(50, 1));
    assert_eq!(matched.export(), (5000, 3));
    assert_eq!(NP_Dec::new(10123, 2).to_i64(), 101);
    assert_eq!(NP_Dec::new(10123, 2).to_i32(), 101);
    assert_eq!(NP_Dec::from_i32(101).export(), (101, 0));
    assert_eq!(NP_Dec::new(1, 0).div(NP_Dec::new(2, 0)).export(), (0, 0));
    assert_eq!(NP_Dec::new(-7, 0).div(NP_Dec::new(2, 0)).export(), (-3, 0));
    assert_eq!(NP_Dec::new(12, 1).mul(NP_Dec::new(3, 0)).export(), (360, 1));
    assert_eq!(NP_Dec::new(12, 1).add(NP_Dec::new(35, 2)).export(), (15, 1));
    assert_eq!(NP_Dec::new(12, 1).sub(NP_Dec::new(5, 0)).export(), (-38, 1));
    let d: NP_Dec = Default::default();
    assert_eq!(d.export(), (0, 0));
}

#[test]
fn signed_bytes_sort_in_value_order() {
    let pairs = [(i64::MIN, -1i64), (-1, 0), (0, i64::MAX), (-300, -299), (5, 70000)];
    for (a, b) in pairs {
        assert!(stored_i64(a) < stored_i64(b));
    }
    assert_eq!(stored_i64(0), vec![0x80, 0, 0, 0, 0, 0, 0, 0]);
    assert_eq!(stored_i64(-1), vec![0x7F, 0xFF, 0xFF, 0xFF, 0xFF, 0xFF, 0xFF, 0xFF]);
}

#[test]
fn values_read_back_as_written() -> Result<(), NP_Error> {
    let factory = NP_Factory::new("i8()")?;
    let mut buffer = factory.new_buffer(None);
    for v in [i8::MIN, -1, 0, 1, i8::MAX] {
        buffer.set(&[], v)?;
        assert_eq!(buffer.get::<i8>(&[])?, Some(v));
    }
    assert_eq!(buffer.calc_bytes()?.current_buffer, 7usize);
    let factory = NP_Factory::new("u64()")?;
    let mut buffer = factory.new_buffer(None);
    buffer.set(&[], u64::MAX)?;
    assert_eq!(buffer.get::<u64>(&[])?, Some(u64::MAX));
    assert_eq!(buffer.memory.bytes[6..14].to_vec(), vec![0xFF; 8]);
    let factory = NP_Factory::new("i32()")?;
    let mut buffer = factory.new_buffer(None);
    buffer.set(&[], i32::MIN)?;
    assert_eq!(buffer.get::<i32>(&[])?, Some(i32::MIN));
    let factory = NP_Factory::new("dec({exp: 3})")?;
    let mut buffer = factory.new_buffer(None);
    buffer.set(&[], NP_Dec::new(25, 1))?;
    assert_eq!(buffer.get::<NP_Dec>(&[])?.unwrap().export(), (2500, 3));
    Ok(())
}

#[test]
fn absent_value_then_default() -> Result<(), NP_Error> {
    let factory = NP_Factory::new_json("{\"type\":\"int8\",\"default\":56}")?;
    let mut buffer = factory.new_buffer(None);
    let root = NP_Cursor { buff_addr: 2, schema_addr: 0 };
    assert_eq!(into_value::<i8>(&root, &buffer.memory), None);
    assert_eq!(buffer.get::<i8>(&[])?, Some(56));
    buffer.set(&[], 56i8)?;
    assert_eq!(into_value::<i8>(&root, &buffer.memory), Some(56));
    assert_eq!(buffer.del(&[])?, true);
    assert_eq!(into_value::<i8>(&root, &buffer.memory), None);
    assert_eq!(buffer.get::<i8>(&[])?, Some(56));
    let sizes = buffer.calc_bytes()?;
    assert_eq!((sizes.current_buffer, sizes.after_compaction, sizes.wasted_bytes), (7, 6, 1));
    buffer.compact(None)?;
    assert_eq!(buffer.calc_bytes()?.current_buffer, 6usize);
    let factory = NP_Factory::new("uuid()")?;
    let buffer: NP_Buffer = factory.new_buffer(None);
    assert_eq!(buffer.get::<NP_UUID>(&[])?, None);
    Ok(())
}

#[test]
fn compaction_keeps_the_live_value() -> Result<(), NP_Error> {
    let factory = NP_Factory::new("u16()")?;
    let mut buffer = factory.new_buffer(None);
    buffer.set(&[], 7u16)?;
    buffer.del(&[])?;
    buffer.set(&[], 9u16)?;
    assert_eq!(buffer.calc_bytes()?.current_buffer, 10usize);
    buffer.compact(None)?;
    assert_eq!(buffer.calc_bytes()?.current_buffer, 8usize);
    assert_eq!(buffer.get::<u16>(&[])?, Some(9));
    Ok(())
}

#[test]
fn uuid_text_round_trip() {
    let text = "48E6AAB0-7DF5-409F-4D57-4D969FA065EE";
    assert_eq!(NP_UUID::from_string(text).to_string(), text);
    assert_eq!(NP_UUID::generate(50).to_string(), text);
    assert_eq!(NP_UUID::from_string("48e6aab07df5409f4d574d969fa065ee").to_string(), text);
    assert_eq!(
        NP_UUID::from_string("48E6").to_string(),
        "48E60000-0000-0000-0000-000000000000"
    );
}

#[test]
fn uuid_from_caller_randomness() {
    let u = NP_UUID::generate_with_rand(|| 20u8);
    assert_eq!(u.value[0], 20);
    assert_eq!(u.value[6], 63 + 20 % 17);
    let mut r = Rand::new(50);
    let v = r.gen_range(0, 255);
    assert!((0..=255).contains(&v));
    assert_eq!(v, 0x48);
}

#[test]
fn schema_text_forms() -> Result<(), NP_Error> {
    let factory = NP_Factory::new("dec({exp: 1, default: 2.56})")?;
    assert_eq!(factory.schema.to_idl()?, "dec({exp: 1, default: 2.5})");
    let factory = NP_Factory::new_json("{\"type\":\"dec\",\"exp\":2,\"default\":-1.5}")?;
    assert_eq!(factory.schema.to_json()?, "{\"type\":\"decimal\",\"exp\":2,\"default\":-1.5}");
    let factory = NP_Factory::new("dec({exp: 3, default: 0.005})")?;
    assert_eq!(factory.schema.to_json()?, "{\"type\":\"decimal\",\"exp\":3,\"default\":0.005}");
    let factory = NP_Factory::new("dec({exp: 0, default: 5})")?;
    assert_eq!(factory.schema.to_idl()?, "dec({exp: 0, default: 5})");
    let factory = NP_Factory::new_json(" { \"default\" : -98 , \"type\" : \"i16\" } ")?;
    assert_eq!(factory.schema.to_idl()?, "i16({default: -98})");
    assert_eq!(factory.export_schema_bytes(), &[5u8, 1, 0xFF, 0x9E][..]);
    let factory = NP_Factory::new("u64({default: 18446744073709551615})")?;
    assert_eq!(factory.schema.to_json()?, "{\"type\":\"uint64\",\"default\":18446744073709551615}");
    let factory = NP_Factory::new("uuid()")?;
    assert_eq!(factory.export_schema_bytes(), &[17u8][..]);
    Ok(())
}

#[test]
fn schema_errors() {
    assert_eq!(NP_Factory::new("dec()").err(), Some(NP_Error::MissingExp));
    assert_eq!(NP_Factory::new_json("{\"type\":\"decimal\"}").err(), Some(NP_Error::MissingExp));
    assert_eq!(NP_Factory::new("dec({exp: 300})").err(), Some(NP_Error::ExpOutOfRange));
    assert_eq!(NP_Factory::new_json("{\"type\":\"decimal\",\"exp\":-1}").err(), Some(NP_Error::ExpOutOfRange));
    assert_eq!(NP_Factory::new("i8({default: 200})").err(), Some(NP_Error::DefaultOutOfRange));
    assert_eq!(NP_Factory::new("u8({default: -1})").err(), Some(NP_Error::DefaultOutOfRange));
    assert_eq!(NP_Factory::new("float()").err(), Some(NP_Error::UnknownType));
    assert_eq!(NP_Factory::new_json("{}").err(), Some(NP_Error::MissingType));
    assert_eq!(NP_Factory::new_json("not json").err(), Some(NP_Error::BadJson));
    assert_eq!(NP_Factory::new("i8(").err(), Some(NP_Error::BadIdl));
    assert_eq!(NP_Factory::new_bytes(&[]).err(), Some(NP_Error::BadSchemaBytes));
    assert_eq!(NP_Factory::new_bytes(&[99]).err(), Some(NP_Error::BadSchemaBytes));
    assert_eq!(NP_Factory::new_bytes(&[14, 2, 1, 0]).err(), Some(NP_Error::BadSchemaBytes));
}

#[test]
fn buffer_errors() -> Result<(), NP_Error> {
    let factory = NP_Factory::new("i8()")?;
    let mut buffer = factory.new_buffer(None);
    assert_eq!(buffer.get::<i8>(&["a"]).err(), Some(NP_Error::PathNotFound));
    assert_eq!(buffer.set(&["a"], 1i8).err(), Some(NP_Error::PathNotFound));
    assert_eq!(buffer.get::<u8>(&[]).err(), Some(NP_Error::TypeMismatch));
    assert_eq!(buffer.set(&[], 1u8).err(), Some(NP_Error::TypeMismatch));
    let factory = NP_Factory::new("dec({exp: 2})")?;
    let mut buffer = factory.new_buffer(None);
    assert_eq!(buffer.set(&[], NP_Dec::new(i64::MAX, 0)).err(), Some(NP_Error::ValueOutOfRange));
    assert_eq!(buffer.calc_bytes()?.current_buffer, 6usize);
    assert!(!NP_Error::OutOfMemory.message().is_empty());
    Ok(())
}

#[test]
fn values_export_as_json() -> Result<(), NP_Error> {
    let factory = NP_Factory::new_json("{\"type\":\"int8\",\"default\":56}")?;
    let mut buffer = factory.new_buffer(None);
    assert_eq!(buffer.json_encode(&[])?, "56");
    buffer.set(&[], -5i8)?;
    assert_eq!(buffer.json_encode(&[])?, "-5");
    let factory = NP_Factory::new("dec({exp: 3, default: 203.293})")?;
    let buffer = factory.new_buffer(None);
    assert_eq!(buffer.json_encode(&[])?, "{\"value\":203.293,\"parts\":{\"num\":203293,\"exp\":3}}");
    let factory = NP_Factory::new("uuid()")?;
    let mut buffer = factory.new_buffer(None);
    assert_eq!(buffer.json_encode(&[])?, "null");
    buffer.set(&[], NP_UUID::generate(212))?;
    assert_eq!(buffer.json_encode(&[])?, "\"9EE6AAB0-2C94-41FE-FB88-42F73253F217\"");
    assert_eq!(buffer.json_encode(&["x"]).err(), Some(NP_Error::PathNotFound));
    Ok(())
}

#[test]
fn values_import_from_json() -> Result<(), NP_Error> {
    let factory = NP_Factory::new("i16()")?;
    let mut buffer = factory.new_buffer(None);
    assert_eq!(buffer.set_with_json(&[], "293")?, true);
    assert_eq!(buffer.get::<i16>(&[])?, Some(293));
    assert_eq!(buffer.set_with_json(&[], "\"text\"")?, false);
    assert_eq!(buffer.set_with_json(&[], "70000")?, false);
    assert_eq!(buffer.set_with_json(&[], "-12.9")?, true);
    assert_eq!(buffer.get::<i16>(&[])?, Some(-12));
    assert_eq!(buffer.set_with_json(&[], "{").err(), Some(NP_Error::BadJson));
    let factory = NP_Factory::new("dec({exp: 2})")?;
    let mut buffer = factory.new_buffer(None);
    assert_eq!(buffer.set_with_json(&[], "{\"value\": 20.49, \"parts\": {\"num\": 2049, \"exp\": 2}}")?, true);
    assert_eq!(buffer.get::<NP_Dec>(&[])?.unwrap().export(), (2049, 2));
    assert_eq!(buffer.set_with_json(&[], "{\"parts\": {\"num\": 5}}")?, false);
    let factory = NP_Factory::new("uuid()")?;
    let mut buffer = factory.new_buffer(None);
    assert_eq!(buffer.set_with_json(&[], "\"48E6AAB0-7DF5-409F-4D57-4D969FA065EE\"")?, true);
    assert_eq!(buffer.get::<NP_UUID>(&[])?, Some(NP_UUID::generate(50)));
    Ok(())
}

#[test]
fn schema_forms_compile_to_one_node() -> Result<(), NP_Error> {
    let sources = [
        "{\"type\":\"int8\",\"default\":-98}",
        "{\"type\":\"uint32\"}",
        "{\"type\":\"decimal\",\"exp\":2,\"default\":-0.05}",
        "{\"type\":\"decimal\",\"exp\":0}",
        "{\"type\":\"uuid\"}",
    ];
    for json in sources {
        let from_json = NP_Factory::new_json(json)?;
        let idl = from_json.schema.to_idl()?;
        let from_idl = NP_Factory::new(&idl)?;
        let from_bytes = NP_Factory::new_bytes(from_json.export_schema_bytes())?;
        assert_eq!(from_idl.schema.to_json()?, json);
        assert_eq!(from_bytes.schema.to_json()?, json);
        assert_eq!(from_bytes.schema.to_idl()?, idl);
        assert_eq!(from_idl.export_schema_bytes(), from_json.export_schema_bytes());
    }
    Ok(())
}

#[test]
fn schema_readers_accept_blanks_and_repeats() -> Result<(), NP_Error> {
    let factory = NP_Factory::new(" dec ( { exp : 1 , default : 7 , } ) ")?;
    assert_eq!(factory.schema.to_idl()?, "dec({exp: 1, default: 7})");
    let factory = NP_Factory::new("u8({default: 1, default: 2, note: \"x\"})")?;
    assert_eq!(factory.schema.to_idl()?, "u8({default: 2})");
    let factory = NP_Factory::new_json("{\"type\":\"u8\",\"default\":\"5\",\"extra\":null}")?;
    assert_eq!(factory.schema.to_json()?, "{\"type\":\"uint8\"}");
    assert_eq!(NP_Factory::new_json("{\"type\":\"u8\",\"x\":[1]}").err(), Some(NP_Error::BadJson));
    assert_eq!(NP_Factory::new("dec({exp: 2.0})").err(), Some(NP_Error::ExpOutOfRange));
    Ok(())
}

#[test]
fn idl_non_number_values_are_passed_over() -> Result<(), NP_Error> {
    let factory = NP_Factory::new("dec({exp: 2, exp: x, default: 1.5, default: \"y\"})")?;
    assert_eq!(factory.schema.to_idl()?, "dec({exp: 2, default: 1.5})");
    assert_eq!(NP_Error::MissingExp.message(), "Decimal type requires 'exp' property!");
    Ok(())
}

#[test]
fn json_input_follows_the_text() -> Result<(), NP_Error> {
    let factory = NP_Factory::new("u8()")?;
    let mut buffer = factory.new_buffer(None);
    assert_eq!(buffer.set_with_json(&[], " [1, {\"a\": null}] ")?, false);
    assert_eq!(buffer.set_with_json(&[], "[1,").err(), Some(NP_Error::BadJson));
    assert_eq!(buffer.set_with_json(&[], " 200 ")?, true);
    assert_eq!(buffer.get::<u8>(&[])?, Some(200));
    assert_eq!(buffer.memory.bytes.len(), 7);
    assert_eq!(buffer.set_with_json(&[], "7")?, true);
    assert_eq!(buffer.memory.bytes.len(), 7);
    assert_eq!(buffer.memory.bytes[6], 7);
    Ok(())
}
