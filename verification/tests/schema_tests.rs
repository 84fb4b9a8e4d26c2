use transmuta::converters::batch::{PhysicalType, TimeUnit};
use transmuta::converters::datagen::{
    storage_type, parse_type_name, read_schema_from_csv, read_schema_from_json, resolve_type_name,
    schema_fields, ColumnDefinition, DataType,
};
use transmuta::error::TransmutaError;

fn row(fields: &[&str]) -> Vec<String> {
    fields.iter().map(|f| f.to_string()).collect()
}

#[test]
fn every_type_has_its_own_name() {
    let names = [
        ("string", DataType::String),
        ("integer", DataType::Integer),
        ("float", DataType::Float),
        ("boolean", DataType::Boolean),
        ("int8", DataType::Int8),
        ("int16", DataType::Int16),
        ("int32", DataType::Int32),
        ("int64", DataType::Int64),
        ("uint8", DataType::UInt8),
        ("uint16", DataType::UInt16),
        ("uint32", DataType::UInt32),
        ("uint64", DataType::UInt64),
        ("float32", DataType::Float32),
        ("float64", DataType::Float64),
        ("decimal", DataType::Decimal),
        ("decimal128", DataType::Decimal128),
        ("decimal256", DataType::Decimal256),
        ("date", DataType::Date),
        ("date32", DataType::Date32),
        ("timestamp", DataType::Timestamp),
        ("time32", DataType::Time32),
        ("time64", DataType::Time64),
        ("interval", DataType::Interval),
        ("duration", DataType::Duration),
        ("binary", DataType::Binary),
        ("fixedsizebinary", DataType::FixedSizeBinary),
        ("uuid", DataType::Uuid),
        ("null", DataType::Null),
    ];
    for (name, data_type) in names {
        assert_eq!(resolve_type_name(name), Some(data_type), "{}", name);
    }
}

#[test]
fn synonyms_resolve() {
    assert_eq!(resolve_type_name("int"), Some(DataType::Integer));
    assert_eq!(resolve_type_name("double"), Some(DataType::Float64));
    assert_eq!(resolve_type_name("double precision"), Some(DataType::Float64));
    assert_eq!(resolve_type_name("bigint"), Some(DataType::Int64));
    assert_eq!(resolve_type_name("bool"), Some(DataType::Boolean));
    assert_eq!(resolve_type_name("varbinary"), Some(DataType::Binary));
    assert_eq!(resolve_type_name("tinyint"), Some(DataType::Int8));
    assert_eq!(resolve_type_name("smallint"), Some(DataType::Int16));
    assert_eq!(resolve_type_name("utinyint"), Some(DataType::UInt8));
    assert_eq!(resolve_type_name("usmallint"), Some(DataType::UInt16));
    assert_eq!(resolve_type_name("uint"), Some(DataType::UInt32));
    assert_eq!(resolve_type_name("ubigint"), Some(DataType::UInt64));
    assert_eq!(resolve_type_name("real"), Some(DataType::Float32));
    assert_eq!(resolve_type_name("numeric"), Some(DataType::Decimal));
}

#[test]
fn unknown_names_do_not_resolve() {
    assert_eq!(resolve_type_name(""), None);
    assert_eq!(resolve_type_name("money"), None);
    assert_eq!(resolve_type_name("String"), None);
    assert_eq!(resolve_type_name(" int"), None);
    assert_eq!(resolve_type_name("int128"), None);
}

#[test]
fn schema_rows_are_trimmed_and_lowered() {
    let records = vec![
        row(&[" id ", " INT64 "]),
        row(&["name", "String", "ignored", "more"]),
        row(&["\tprice", "Double Precision"]),
    ];
    let schema = read_schema_from_csv(&records).unwrap();
    assert_eq!(
        schema,
        vec![
            ColumnDefinition { name: "id".to_string(), data_type: DataType::Int64 },
            ColumnDefinition { name: "name".to_string(), data_type: DataType::String },
            ColumnDefinition { name: "price".to_string(), data_type: DataType::Float64 },
        ]
    );
}

#[test]
fn schema_row_with_one_field_is_malformed() {
    let records = vec![row(&["id", "int"]), row(&["name"]), row(&["x", "money"])];
    assert_eq!(read_schema_from_csv(&records), Err(TransmutaError::MalformedSchemaRow(1)));
    let records = vec![row(&[])];
    assert_eq!(read_schema_from_csv(&records), Err(TransmutaError::MalformedSchemaRow(0)));
}

#[test]
fn schema_row_with_unknown_type_is_unsupported() {
    let records = vec![row(&["id", "int"]), row(&["x", " Money "]), row(&["name"])];
    assert_eq!(
        read_schema_from_csv(&records),
        Err(TransmutaError::UnsupportedType { row: Some(1), name: "money".to_string() })
    );
}

#[test]
fn schema_without_rows_is_empty() {
    assert_eq!(read_schema_from_csv(&Vec::new()), Err(TransmutaError::EmptySchema));
    assert_eq!(read_schema_from_json(Vec::new()), Err(TransmutaError::EmptySchema));
}

#[test]
fn decoded_schema_is_kept() {
    let defs = vec![
        ColumnDefinition { name: "a".to_string(), data_type: DataType::Uuid },
        ColumnDefinition { name: "a".to_string(), data_type: DataType::Null },
    ];
    assert_eq!(read_schema_from_json(defs.clone()), Ok(defs));
}

#[test]
fn logical_types_map_to_their_storage() {
    assert_eq!(storage_type(DataType::String), PhysicalType::Utf8);
    assert_eq!(storage_type(DataType::Integer), PhysicalType::Int32);
    assert_eq!(storage_type(DataType::Float), PhysicalType::Float64);
    assert_eq!(storage_type(DataType::Boolean), PhysicalType::Boolean);
    assert_eq!(storage_type(DataType::Int8), PhysicalType::Int8);
    assert_eq!(storage_type(DataType::Int16), PhysicalType::Int16);
    assert_eq!(storage_type(DataType::Int32), PhysicalType::Int32);
    assert_eq!(storage_type(DataType::Int64), PhysicalType::Int64);
    assert_eq!(storage_type(DataType::UInt8), PhysicalType::UInt8);
    assert_eq!(storage_type(DataType::UInt16), PhysicalType::UInt16);
    assert_eq!(storage_type(DataType::UInt32), PhysicalType::UInt32);
    assert_eq!(storage_type(DataType::UInt64), PhysicalType::UInt64);
    assert_eq!(storage_type(DataType::Float32), PhysicalType::Float32);
    assert_eq!(storage_type(DataType::Float64), PhysicalType::Float64);
    assert_eq!(storage_type(DataType::Decimal), PhysicalType::Utf8);
    assert_eq!(storage_type(DataType::Decimal128), PhysicalType::Utf8);
    assert_eq!(storage_type(DataType::Decimal256), PhysicalType::Utf8);
    assert_eq!(storage_type(DataType::Date), PhysicalType::Date32);
    assert_eq!(storage_type(DataType::Date32), PhysicalType::Date32);
    assert_eq!(storage_type(DataType::Timestamp), PhysicalType::Timestamp(TimeUnit::Millisecond));
    assert_eq!(storage_type(DataType::Time32), PhysicalType::Time32(TimeUnit::Millisecond));
    assert_eq!(storage_type(DataType::Time64), PhysicalType::Time64(TimeUnit::Nanosecond));
    assert_eq!(storage_type(DataType::Interval), PhysicalType::Interval);
    assert_eq!(storage_type(DataType::Duration), PhysicalType::Duration(TimeUnit::Nanosecond));
    assert_eq!(storage_type(DataType::Binary), PhysicalType::Binary);
    assert_eq!(storage_type(DataType::FixedSizeBinary), PhysicalType::FixedSizeBinary(16));
    assert_eq!(storage_type(DataType::Uuid), PhysicalType::Utf8);
    assert_eq!(storage_type(DataType::Null), PhysicalType::Null);
}

#[test]
fn schema_fields_keep_order_and_duplicates() {
    let defs = vec![
        ColumnDefinition { name: "b".to_string(), data_type: DataType::Timestamp },
        ColumnDefinition { name: "a".to_string(), data_type: DataType::Integer },
        ColumnDefinition { name: "b".to_string(), data_type: DataType::Uuid },
    ];
    let fields = schema_fields(&defs);
    assert_eq!(fields.len(), 3);
    assert_eq!(fields[0].name, "b");
    assert_eq!(fields[0].data_type, PhysicalType::Timestamp(TimeUnit::Millisecond));
    assert_eq!(fields[1].name, "a");
    assert_eq!(fields[1].data_type, PhysicalType::Int32);
    assert_eq!(fields[2].name, "b");
    assert_eq!(fields[2].data_type, PhysicalType::Utf8);
}

#[test]
fn type_names_are_read_in_any_case() {
    assert_eq!(parse_type_name("INT"), Ok(DataType::Integer));
    assert_eq!(parse_type_name("Double"), Ok(DataType::Float64));
    assert_eq!(parse_type_name("BigInt"), Ok(DataType::Int64));
    assert_eq!(parse_type_name("BOOL"), Ok(DataType::Boolean));
    assert_eq!(parse_type_name("VarBinary"), Ok(DataType::Binary));
    assert_eq!(parse_type_name("FixedSizeBinary"), Ok(DataType::FixedSizeBinary));
    assert_eq!(parse_type_name("uuid"), Ok(DataType::Uuid));
    assert_eq!(
        parse_type_name("Money"),
        Err(TransmutaError::UnsupportedType { row: None, name: "money".to_string() })
    );
    assert_eq!(
        parse_type_name(" int"),
        Err(TransmutaError::UnsupportedType { row: None, name: " int".to_string() })
    );
}
