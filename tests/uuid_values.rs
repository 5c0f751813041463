use no_proto::error::NP_Error;
use no_proto::factory::NP_Factory;
use no_proto::uuid::NP_UUID;

#[test]
fn uuid_schema_parsing_works_idl() -> Result<(), NP_Error> {
    let schema = "uuid()";
    let factory = NP_Factory::new(schema)?;
    assert_eq!(schema, factory.schema.to_idl()?);
    let factory2 = NP_Factory::new_bytes(factory.export_schema_bytes())?;
    assert_eq!(schema, factory2.schema.to_idl()?);

    Ok(())
}

#[test]
fn uuid_schema_parsing_works() -> Result<(), NP_Error> {
    let schema = "{\"type\":\"uuid\"}";
    let factory = NP_Factory::new_json(schema)?;
    assert_eq!(schema, factory.schema.to_json()?);
    let factory2 = NP_Factory::new_bytes(factory.export_schema_bytes())?;
    assert_eq!(schema, factory2.schema.to_json()?);

    Ok(())
}

#[test]
fn uuid_set_clear_value_and_compaction_works() -> Result<(), NP_Error> {
    let schema = "{\"type\":\"uuid\"}";
    let factory = NP_Factory::new_json(schema)?;
    let mut buffer = factory.new_buffer(None);
    let set_value = NP_UUID::generate(212);
    buffer.set(&[], set_value)?;
    assert_eq!(buffer.get::<NP_UUID>(&[])?, Some(NP_UUID::generate(212)));
    assert_eq!(
        buffer.get::<NP_UUID>(&[])?.unwrap().to_string(),
        "9EE6AAB0-2C94-41FE-FB88-42F73253F217"
    );
    assert_eq!(
        set_value.value,
        NP_UUID::from_string("9EE6AAB0-2C94-41FE-FB88-42F73253F217").value
    );
    buffer.del(&[])?;
    assert_eq!(buffer.get::<NP_UUID>(&[])?, None);

    buffer.compact(None)?;
    assert_eq!(buffer.calc_bytes()?.current_buffer, 6usize);

    Ok(())
}
