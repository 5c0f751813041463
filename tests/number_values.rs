use no_proto::error::NP_Error;
use no_proto::factory::NP_Factory;

#[test]
fn i8_schema_parsing_works() -> Result<(), NP_Error> {
    let schema = "{\"type\":\"int8\",\"default\":20}";
    let factory = NP_Factory::new_json(schema)?;
    assert_eq!(schema, factory.schema.to_json()?);
    let factory2 = NP_Factory::new_bytes(factory.export_schema_bytes())?;
    assert_eq!(schema, factory2.schema.to_json()?);

    let schema = "{\"type\":\"int8\"}";
    let factory = NP_Factory::new_json(schema)?;
    assert_eq!(schema, factory.schema.to_json()?);
    let factory2 = NP_Factory::new_bytes(factory.export_schema_bytes())?;
    assert_eq!(schema, factory2.schema.to_json()?);

    Ok(())
}

#[test]
fn i8_schema_parsing_works_idl() -> Result<(), NP_Error> {
    let schema = "i8({default: -98})";
    let factory = NP_Factory::new(schema)?;
    assert_eq!(schema, factory.schema.to_idl()?);
    let factory2 = NP_Factory::new_bytes(factory.export_schema_bytes())?;
    assert_eq!(schema, factory2.schema.to_idl()?);

    let schema = "i8()";
    let factory = NP_Factory::new(schema)?;
    assert_eq!(schema, factory.schema.to_idl()?);
    let factory2 = NP_Factory::new_bytes(factory.export_schema_bytes())?;
    assert_eq!(schema, factory2.schema.to_idl()?);

    Ok(())
}

#[test]
fn i8_default_value_works() -> Result<(), NP_Error> {
    let schema = "{\"type\":\"int8\",\"default\":56}";
    let factory = NP_Factory::new_json(schema)?;
    let buffer = factory.new_buffer(None);
    assert_eq!(buffer.get::<i8>(&[])?.unwrap(), 56i8);
    let factory2 = NP_Factory::new_bytes(factory.export_schema_bytes())?;
    assert_eq!(schema, factory2.schema.to_json()?);

    Ok(())
}

#[test]
fn i8_set_clear_value_and_compaction_works() -> Result<(), NP_Error> {
    let schema = "{\"type\":\"i8\"}";
    let factory = NP_Factory::new_json(schema)?;
    let mut buffer = factory.new_buffer(None);
    buffer.set(&[], 56i8)?;
    assert_eq!(buffer.get::<i8>(&[])?.unwrap(), 56i8);
    buffer.del(&[])?;
    assert_eq!(buffer.get::<i8>(&[])?, None);

    buffer.compact(None)?;
    assert_eq!(buffer.calc_bytes()?.current_buffer, 6usize);

    Ok(())
}

#[test]
fn i16_schema_parsing_works() -> Result<(), NP_Error> {
    let schema = "{\"type\":\"int16\",\"default\":20}";
    let factory = NP_Factory::new_json(schema)?;
    assert_eq!(schema, factory.schema.to_json()?);
    let factory2 = NP_Factory::new_bytes(factory.export_schema_bytes())?;
    assert_eq!(schema, factory2.schema.to_json()?);

    let schema = "{\"type\":\"int16\"}";
    let factory = NP_Factory::new_json(schema)?;
    assert_eq!(schema, factory.schema.to_json()?);
    let factory2 = NP_Factory::new_bytes(factory.export_schema_bytes())?;
    assert_eq!(schema, factory2.schema.to_json()?);

    Ok(())
}

#[test]
fn i16_default_value_works() -> Result<(), NP_Error> {
    let schema = "{\"type\":\"int16\",\"default\":293}";
    let factory = NP_Factory::new_json(schema)?;
    let buffer = factory.new_buffer(None);
    assert_eq!(buffer.get::<i16>(&[])?.unwrap(), 293i16);
    let factory2 = NP_Factory::new_bytes(factory.export_schema_bytes())?;
    assert_eq!(schema, factory2.schema.to_json()?);

    Ok(())
}

#[test]
fn i16_set_clear_value_and_compaction_works() -> Result<(), NP_Error> {
    let schema = "{\"type\":\"int16\"}";
    let factory = NP_Factory::new_json(schema)?;
    let mut buffer = factory.new_buffer(None);
    buffer.set(&[], 293i16)?;
    assert_eq!(buffer.get::<i16>(&[])?.unwrap(), 293i16);
    buffer.del(&[])?;
    assert_eq!(buffer.get::<i16>(&[])?, None);

    buffer.compact(None)?;
    assert_eq!(buffer.calc_bytes()?.current_buffer, 6usize);

    Ok(())
}

#[test]
fn i32_schema_parsing_works() -> Result<(), NP_Error> {
    let schema = "{\"type\":\"int32\",\"default\":20}";
    let factory = NP_Factory::new_json(schema)?;
    assert_eq!(schema, factory.schema.to_json()?);
    let factory2 = NP_Factory::new_bytes(factory.export_schema_bytes())?;
    assert_eq!(schema, factory2.schema.to_json()?);

    let schema = "{\"type\":\"int32\"}";
    let factory = NP_Factory::new_json(schema)?;
    assert_eq!(schema, factory.schema.to_json()?);
    let factory2 = NP_Factory::new_bytes(factory.export_schema_bytes())?;
    assert_eq!(schema, factory2.schema.to_json()?);

    Ok(())
}

#[test]
fn i32_default_value_works() -> Result<(), NP_Error> {
    let schema = "{\"type\":\"i32\",\"default\":293}";
    let factory = NP_Factory::new_json(schema)?;
    let buffer = factory.new_buffer(None);
    assert_eq!(buffer.get::<i32>(&[])?.unwrap(), 293i32);

    Ok(())
}

#[test]
fn i32_set_clear_value_and_compaction_works() -> Result<(), NP_Error> {
    let schema = "{\"type\":\"i32\"}";
    let factory = NP_Factory::new_json(schema)?;
    let mut buffer = factory.new_buffer(None);
    buffer.set(&[], 293i32)?;
    assert_eq!(buffer.get::<i32>(&[])?.unwrap(), 293i32);
    buffer.del(&[])?;
    assert_eq!(buffer.get::<i32>(&[])?, None);

    buffer.compact(None)?;
    assert_eq!(buffer.calc_bytes()?.current_buffer, 6usize);

    Ok(())
}

#[test]
fn i64_schema_parsing_works() -> Result<(), NP_Error> {
    let schema = "{\"type\":\"int64\",\"default\":20}";
    let factory = NP_Factory::new_json(schema)?;
    assert_eq!(schema, factory.schema.to_json()?);
    let factory2 = NP_Factory::new_bytes(factory.export_schema_bytes())?;
    assert_eq!(schema, factory2.schema.to_json()?);

    let schema = "{\"type\":\"int64\"}";
    let factory = NP_Factory::new_json(schema)?;
    assert_eq!(schema, factory.schema.to_json()?);
    let factory2 = NP_Factory::new_bytes(factory.export_schema_bytes())?;
    assert_eq!(schema, factory2.schema.to_json()?);

    Ok(())
}

#[test]
fn i64_default_value_works() -> Result<(), NP_Error> {
    let schema = "{\"type\":\"int64\",\"default\":293}";
    let factory = NP_Factory::new_json(schema)?;
    let buffer = factory.new_buffer(None);
    assert_eq!(buffer.get::<i64>(&[])?.unwrap(), 293i64);
    let factory2 = NP_Factory::new_bytes(factory.export_schema_bytes())?;
    assert_eq!(schema, factory2.schema.to_json()?);

    Ok(())
}

#[test]
fn i64_set_clear_value_and_compaction_works() -> Result<(), NP_Error> {
    let schema = "{\"type\":\"int64\"}";
    let factory = NP_Factory::new_json(schema)?;
    let mut buffer = factory.new_buffer(None);
    buffer.set(&[], 293i64)?;
    assert_eq!(buffer.get::<i64>(&[])?.unwrap(), 293i64);
    buffer.del(&[])?;
    assert_eq!(buffer.get::<i64>(&[])?, None);

    buffer.compact(None)?;
    assert_eq!(buffer.calc_bytes()?.current_buffer, 6usize);

    Ok(())
}

#[test]
fn u8_schema_parsing_works() -> Result<(), NP_Error> {
    let schema = "{\"type\":\"uint8\",\"default\":20}";
    let factory = NP_Factory::new_json(schema)?;
    assert_eq!(schema, factory.schema.to_json()?);
    let factory2 = NP_Factory::new_bytes(factory.export_schema_bytes())?;
    assert_eq!(schema, factory2.schema.to_json()?);

    let schema = "{\"type\":\"uint8\"}";
    let factory = NP_Factory::new_json(schema)?;
    assert_eq!(schema, factory.schema.to_json()?);
    let factory2 = NP_Factory::new_bytes(factory.export_schema_bytes())?;
    assert_eq!(schema, factory2.schema.to_json()?);

    Ok(())
}

#[test]
fn u8_default_value_works() -> Result<(), NP_Error> {
    let schema = "{\"type\":\"uint8\",\"default\":198}";
    let factory = NP_Factory::new_json(schema)?;
    let buffer = factory.new_buffer(None);
    assert_eq!(buffer.get::<u8>(&[])?.unwrap(), 198u8);

    Ok(())
}

#[test]
fn u8_set_clear_value_and_compaction_works() -> Result<(), NP_Error> {
    let schema = "{\"type\":\"uint8\"}";
    let factory = NP_Factory::new_json(schema)?;
    let mut buffer = factory.new_buffer(None);
    buffer.set(&[], 198u8)?;
    assert_eq!(buffer.get::<u8>(&[])?.unwrap(), 198u8);
    buffer.del(&[])?;
    assert_eq!(buffer.get::<u8>(&[])?, None);

    buffer.compact(None)?;
    assert_eq!(buffer.calc_bytes()?.current_buffer, 6usize);

    Ok(())
}

#[test]
fn u16_schema_parsing_works() -> Result<(), NP_Error> {
    let schema = "{\"type\":\"uint16\",\"default\":20}";
    let factory = NP_Factory::new_json(schema)?;
    assert_eq!(schema, factory.schema.to_json()?);
    let factory2 = NP_Factory::new_bytes(factory.export_schema_bytes())?;
    assert_eq!(schema, factory2.schema.to_json()?);

    let schema = "{\"type\":\"uint16\"}";
    let factory = NP_Factory::new_json(schema)?;
    assert_eq!(schema, factory.schema.to_json()?);
    let factory2 = NP_Factory::new_bytes(factory.export_schema_bytes())?;
    assert_eq!(schema, factory2.schema.to_json()?);

    Ok(())
}

#[test]
fn u16_default_value_works() -> Result<(), NP_Error> {
    let schema = "{\"type\":\"u16\",\"default\":293}";
    let factory = NP_Factory::new_json(schema)?;
    let buffer = factory.new_buffer(None);
    assert_eq!(buffer.get::<u16>(&[])?.unwrap(), 293u16);

    Ok(())
}

#[test]
fn u16_set_clear_value_and_compaction_works() -> Result<(), NP_Error> {
    let schema = "{\"type\":\"u16\"}";
    let factory = NP_Factory::new_json(schema)?;
    let mut buffer = factory.new_buffer(None);
    buffer.set(&[], 293u16)?;
    assert_eq!(buffer.get::<u16>(&[])?.unwrap(), 293u16);
    buffer.del(&[])?;
    assert_eq!(buffer.get::<u16>(&[])?, None);

    buffer.compact(None)?;
    assert_eq!(buffer.calc_bytes()?.current_buffer, 6usize);

    Ok(())
}

#[test]
fn u32_schema_parsing_works() -> Result<(), NP_Error> {
    let schema = "{\"type\":\"uint32\",\"default\":20}";
    let factory = NP_Factory::new_json(schema)?;
    assert_eq!(schema, factory.schema.to_json()?);
    let factory2 = NP_Factory::new_bytes(factory.export_schema_bytes())?;
    assert_eq!(schema, factory2.schema.to_json()?);

    let schema = "{\"type\":\"uint32\"}";
    let factory = NP_Factory::new_json(schema)?;
    assert_eq!(schema, factory.schema.to_json()?);
    let factory2 = NP_Factory::new_bytes(factory.export_schema_bytes())?;
    assert_eq!(schema, factory2.schema.to_json()?);

    Ok(())
}

#[test]
fn u32_default_value_works() -> Result<(), NP_Error> {
    let schema = "{\"type\":\"u32\",\"default\":293}";
    let factory = NP_Factory::new_json(schema)?;
    let buffer = factory.new_buffer(None);
    assert_eq!(buffer.get::<u32>(&[])?.unwrap(), 293u32);

    Ok(())
}

#[test]
fn u32_set_clear_value_and_compaction_works() -> Result<(), NP_Error> {
    let schema = "{\"type\":\"u32\"}";
    let factory = NP_Factory::new_json(schema)?;
    let mut buffer = factory.new_buffer(None);
    buffer.set(&[], 293u32)?;
    assert_eq!(buffer.get::<u32>(&[])?.unwrap(), 293u32);
    buffer.del(&[])?;
    assert_eq!(buffer.get::<u32>(&[])?, None);

    buffer.compact(None)?;
    assert_eq!(buffer.calc_bytes()?.current_buffer, 6usize);

    Ok(())
}

#[test]
fn u64_schema_parsing_works() -> Result<(), NP_Error> {
    let schema = "{\"type\":\"uint64\",\"default\":20}";
    let factory = NP_Factory::new_json(schema)?;
    assert_eq!(schema, factory.schema.to_json()?);
    let factory2 = NP_Factory::new_bytes(factory.export_schema_bytes())?;
    assert_eq!(schema, factory2.schema.to_json()?);

    let schema = "{\"type\":\"uint64\"}";
    let factory = NP_Factory::new_json(schema)?;
    assert_eq!(schema, factory.schema.to_json()?);
    let factory2 = NP_Factory::new_bytes(factory.export_schema_bytes())?;
    assert_eq!(schema, factory2.schema.to_json()?);

    Ok(())
}

#[test]
fn u64_default_value_works() -> Result<(), NP_Error> {
    let schema = "{\"type\":\"u64\",\"default\":293}";
    let factory = NP_Factory::new_json(schema)?;
    let buffer = factory.new_buffer(None);
    assert_eq!(buffer.get::<u64>(&[])?.unwrap(), 293u64);

    Ok(())
}

#[test]
fn u64_set_clear_value_and_compaction_works() -> Result<(), NP_Error> {
    let schema = "{\"type\":\"u64\"}";
    let factory = NP_Factory::new_json(schema)?;
    let mut buffer = factory.new_buffer(None);
    buffer.set(&[], 293u64)?;
    assert_eq!(buffer.get::<u64>(&[])?.unwrap(), 293u64);
    buffer.del(&[])?;
    assert_eq!(buffer.get::<u64>(&[])?, None);

    buffer.compact(None)?;
    assert_eq!(buffer.calc_bytes()?.current_buffer, 6usize);

    Ok(())
}
