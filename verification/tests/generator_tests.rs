use rand::Rng;
use transmuta::converters::batch::{Cell, Column, PhysicalType, RecordBatch, TimeUnit};
use transmuta::converters::common::{
    render_structured, render_text, save_as_csv, save_as_json, JsonValue, Rendered,
};
use transmuta::converters::datagen::{
    decimal_from_parts, float_bounds, generate_data, has_timestamp, interval_from_parts,
    seed_or_clock, uuid_from_bytes, BatchGenerator, ColumnDefinition, DataType, FloatRequest,
    MIN_TIMESTAMP_MILLIS,
};

const NOW: i64 = 1_700_000_000_000;

const ALL_TYPES: [DataType; 28] = [
    DataType::String,
    DataType::Integer,
    DataType::Float,
    DataType::Boolean,
    DataType::Int8,
    DataType::Int16,
    DataType::Int32,
    DataType::Int64,
    DataType::UInt8,
    DataType::UInt16,
    DataType::UInt32,
    DataType::UInt64,
    DataType::Float32,
    DataType::Float64,
    DataType::Decimal,
    DataType::Decimal128,
    DataType::Decimal256,
    DataType::Date,
    DataType::Date32,
    DataType::Timestamp,
    DataType::Time32,
    DataType::Time64,
    DataType::Interval,
    DataType::Duration,
    DataType::Binary,
    DataType::FixedSizeBinary,
    DataType::Uuid,
    DataType::Null,
];

fn definition(name: &str, data_type: DataType) -> ColumnDefinition {
    ColumnDefinition { name: name.to_string(), data_type }
}

fn draw_floats(generator: &mut BatchGenerator, request: FloatRequest) -> Column {
    let mut cells = Vec::new();
    for _ in 0..request.rows {
        if request.data_type == PhysicalType::Float32 {
            let value: f32 = generator.rng.gen_range(request.low as f32..=request.high as f32);
            cells.push(Cell::Float32(value.to_bits()));
        } else {
            let value: f64 = generator.rng.gen_range(request.low as f64..=request.high as f64);
            cells.push(Cell::Float64(value.to_bits()));
        }
    }
    Column { data_type: request.data_type, cells }
}

fn generate(definitions: Vec<ColumnDefinition>, rows: usize, seed: u64) -> RecordBatch {
    let mut generator = BatchGenerator::new(definitions, rows, seed, NOW);
    loop {
        generator.run();
        match generator.pending() {
            Some(request) => {
                let column = draw_floats(&mut generator, request);
                assert!(generator.accept_column(column));
            }
            None => break,
        }
    }
    assert!(generator.is_done());
    match generator.finish() {
        Ok(batch) => batch,
        Err(_) => panic!("columns are missing"),
    }
}

fn schema_of_all_types() -> Vec<ColumnDefinition> {
    ALL_TYPES.iter().enumerate().map(|(i, t)| definition(&format!("c{}", i), *t)).collect()
}

#[test]
fn same_seed_gives_the_same_batch_for_every_type() {
    for data_type in ALL_TYPES {
        for seed in [0u64, 1, 42, u64::MAX] {
            let first = generate(vec![definition("col", data_type)], 25, seed);
            let second = generate(vec![definition("col", data_type)], 25, seed);
            assert_eq!(first, second, "{:?} with seed {}", data_type, seed);
            assert_eq!(save_as_csv(&first), save_as_csv(&second));
            assert_eq!(save_as_json(&first), save_as_json(&second));
        }
    }
}

#[test]
fn same_seed_gives_the_same_batch_for_a_whole_schema() {
    let first = generate(schema_of_all_types(), 40, 7);
    let second = generate(schema_of_all_types(), 40, 7);
    assert_eq!(first, second);
    let other = generate(schema_of_all_types(), 40, 8);
    assert_ne!(first, other);
}

#[test]
fn batch_has_a_column_for_each_definition() {
    let batch = generate(schema_of_all_types(), 17, 3);
    assert_eq!(batch.num_rows(), 17);
    assert_eq!(batch.num_columns(), 28);
    for (i, column) in batch.columns.iter().enumerate() {
        assert_eq!(column.cells.len(), 17);
        assert_eq!(batch.fields[i].name, format!("c{}", i));
        assert_eq!(batch.fields[i].data_type, column.data_type);
        assert!(column.check());
    }
    assert_eq!(RecordBatch::try_new(batch.fields.clone(), batch.columns.clone()), Ok(batch));
}

#[test]
fn null_schema_renders_empty() {
    for rows in [0usize, 1, 100] {
        let batch = generate(vec![definition("col", DataType::Null)], rows, 99);
        assert_eq!(batch.num_rows(), rows);
        assert_eq!(batch.columns[0].data_type, PhysicalType::Null);
        assert_eq!(batch.columns[0].cells.len(), rows);
        for cell in &batch.columns[0].cells {
            assert_eq!(render_text(PhysicalType::Null, cell), Rendered::Text(String::new()));
            assert_eq!(render_structured(PhysicalType::Null, cell), JsonValue::Null);
        }
        let document = save_as_csv(&batch);
        assert_eq!(document.rows.len(), rows);
        for row in &document.rows {
            assert_eq!(row, &vec![Rendered::Text(String::new())]);
        }
        for record in save_as_json(&batch) {
            assert_eq!(record[0].value, JsonValue::Null);
        }
    }
}

fn ints(data_type: DataType, rows: usize) -> Vec<i64> {
    generate(vec![definition("col", data_type)], rows, 11).columns[0]
        .cells
        .iter()
        .map(|cell| match cell {
            Cell::Int(v) => *v,
            other => panic!("not a signed number: {:?}", other),
        })
        .collect()
}

fn uints(data_type: DataType, rows: usize) -> Vec<u64> {
    generate(vec![definition("col", data_type)], rows, 12).columns[0]
        .cells
        .iter()
        .map(|cell| match cell {
            Cell::UInt(v) => *v,
            other => panic!("not an unsigned number: {:?}", other),
        })
        .collect()
}

fn spread(values: &[i64]) -> bool {
    values.iter().any(|v| *v != values[0])
}

#[test]
fn signed_numbers_stay_in_their_ranges() {
    let cases: [(DataType, i64, i64); 10] = [
        (DataType::Integer, -1000, 1000),
        (DataType::Int8, -128, 127),
        (DataType::Int16, -32768, 32767),
        (DataType::Int32, (i32::MIN / 2) as i64, (i32::MAX / 2) as i64),
        (DataType::Int64, i64::MIN / 1000, i64::MAX / 1000),
        (DataType::Date, 10957, 19000),
        (DataType::Date32, 10957, 19000),
        (DataType::Timestamp, 946684800000, NOW),
        (DataType::Time32, 0, 86_400_000 - 1),
        (DataType::Time64, 0, 86_400_000_000_000 - 1),
    ];
    for (data_type, low, high) in cases {
        let values = ints(data_type, 500);
        assert_eq!(values.len(), 500);
        assert!(values.iter().all(|v| low <= *v && *v <= high), "{:?}", data_type);
        assert!(spread(&values), "{:?}", data_type);
    }
    let durations = ints(DataType::Duration, 500);
    assert!(durations.iter().all(|v| 0 <= *v && *v < 31_536_000_000_000_000));
    assert!(spread(&durations));
}

#[test]
fn unsigned_numbers_stay_in_their_ranges() {
    let cases: [(DataType, u64); 4] = [
        (DataType::UInt8, 255),
        (DataType::UInt16, 65535),
        (DataType::UInt32, (u32::MAX / 2) as u64),
        (DataType::UInt64, u64::MAX / 1000),
    ];
    for (data_type, high) in cases {
        let values = uints(data_type, 500);
        assert!(values.iter().all(|v| *v <= high), "{:?}", data_type);
        assert!(values.iter().any(|v| *v != values[0]), "{:?}", data_type);
    }
}

#[test]
fn timestamp_range_may_be_a_single_moment() {
    let mut generator =
        BatchGenerator::new(vec![definition("t", DataType::Timestamp)], 20, 5, MIN_TIMESTAMP_MILLIS);
    generator.run();
    let column = &generator.columns[0];
    assert_eq!(column.data_type, PhysicalType::Timestamp(TimeUnit::Millisecond));
    assert_eq!(column.cells.len(), 20);
    assert!(column.cells.iter().all(|cell| *cell == Cell::Int(MIN_TIMESTAMP_MILLIS)));
}

#[test]
fn strings_are_alphanumeric_of_five_to_twenty() {
    let batch = generate(vec![definition("s", DataType::String)], 300, 1);
    let mut lengths = Vec::new();
    for cell in &batch.columns[0].cells {
        match cell {
            Cell::Text(s) => {
                assert!(5 <= s.len() && s.len() <= 20, "{}", s);
                assert!(s.chars().all(|c| c.is_ascii_alphanumeric()), "{}", s);
                lengths.push(s.len());
            }
            other => panic!("not a text: {:?}", other),
        }
    }
    assert!(lengths.iter().any(|l| *l != lengths[0]));
}

#[test]
fn booleans_take_both_values() {
    let batch = generate(vec![definition("b", DataType::Boolean)], 200, 1);
    assert!(batch.columns[0].cells.contains(&Cell::Boolean(true)));
    assert!(batch.columns[0].cells.contains(&Cell::Boolean(false)));
    assert!(batch.columns[0].cells.iter().all(|cell| matches!(cell, Cell::Boolean(_))));
}

#[test]
fn decimals_have_six_fractional_digits() {
    for data_type in [DataType::Decimal, DataType::Decimal128, DataType::Decimal256] {
        let batch = generate(vec![definition("d", data_type)], 200, 2);
        assert_eq!(batch.columns[0].data_type, PhysicalType::Utf8);
        for cell in &batch.columns[0].cells {
            match cell {
                Cell::Text(s) => {
                    let (whole, fraction) = s.split_once('.').unwrap();
                    assert_eq!(fraction.len(), 6, "{}", s);
                    assert!(fraction.chars().all(|c| c.is_ascii_digit()));
                    let whole: u32 = whole.parse().unwrap();
                    assert!(whole < 10000);
                    assert_eq!(whole.to_string(), s.split('.').next().unwrap());
                }
                other => panic!("not a text: {:?}", other),
            }
        }
    }
}

#[test]
fn decimal_text_from_parts() {
    assert_eq!(decimal_from_parts(0, 0), "0.000000");
    assert_eq!(decimal_from_parts(12, 345), "12.000345");
    assert_eq!(decimal_from_parts(9999, 999999), "9999.999999");
    assert_eq!(decimal_from_parts(7, 100000), "7.100000");
    assert_eq!(decimal_from_parts(-3, 5), "-3.000005");
}

#[test]
fn intervals_stay_in_their_ranges() {
    let batch = generate(vec![definition("i", DataType::Interval)], 500, 4);
    let mut months_seen = Vec::new();
    for cell in &batch.columns[0].cells {
        match cell {
            Cell::Interval { months, days, nanoseconds } => {
                assert!(-1200 <= *months && *months <= 1200);
                assert!(-3650 <= *days && *days <= 3650);
                assert_eq!(nanoseconds % 1_000_000, 0);
                let millis = nanoseconds / 1_000_000;
                assert!(-86_400_000 <= millis && millis < 86_400_000);
                months_seen.push(*months);
            }
            other => panic!("not an interval: {:?}", other),
        }
    }
    assert!(months_seen.iter().any(|m| *m != months_seen[0]));
}

#[test]
fn interval_from_its_parts() {
    assert_eq!(
        interval_from_parts(-3, 4, -86_400_000),
        Cell::Interval { months: -3, days: 4, nanoseconds: -86_400_000_000_000 }
    );
    assert_eq!(interval_from_parts(0, 0, 1), Cell::Interval { months: 0, days: 0, nanoseconds: 1_000_000 });
}

#[test]
fn binaries_have_their_lengths() {
    let batch = generate(
        vec![definition("b", DataType::Binary), definition("f", DataType::FixedSizeBinary)],
        300,
        6,
    );
    let mut any_byte_set = false;
    for cell in &batch.columns[0].cells {
        match cell {
            Cell::Bytes(b) => {
                assert!(4 <= b.len() && b.len() <= 20);
                any_byte_set = any_byte_set || b.iter().any(|x| *x != 0);
            }
            other => panic!("not bytes: {:?}", other),
        }
    }
    assert!(any_byte_set);
    assert_eq!(batch.columns[1].data_type, PhysicalType::FixedSizeBinary(16));
    for cell in &batch.columns[1].cells {
        match cell {
            Cell::Bytes(b) => assert_eq!(b.len(), 16),
            other => panic!("not bytes: {:?}", other),
        }
    }
}

#[test]
fn uuids_are_canonical_version_four() {
    let batch = generate(vec![definition("u", DataType::Uuid)], 200, 8);
    for cell in &batch.columns[0].cells {
        match cell {
            Cell::Text(s) => {
                assert_eq!(s.len(), 36);
                let bytes = s.as_bytes();
                for (i, b) in bytes.iter().enumerate() {
                    if i == 8 || i == 13 || i == 18 || i == 23 {
                        assert_eq!(*b, b'-');
                    } else {
                        assert!(b.is_ascii_digit() || (b'a'..=b'f').contains(b), "{}", s);
                    }
                }
                assert_eq!(bytes[14], b'4');
                assert!(matches!(bytes[19], b'8' | b'9' | b'a' | b'b'));
            }
            other => panic!("not a text: {:?}", other),
        }
    }
    assert_ne!(batch.columns[0].cells[0], batch.columns[0].cells[1]);
}

#[test]
fn uuid_text_from_bytes() {
    let zeros = vec![0u8; 16];
    assert_eq!(uuid_from_bytes(&zeros), "00000000-0000-4000-8000-000000000000");
    let ones = vec![0xffu8; 16];
    assert_eq!(uuid_from_bytes(&ones), "ffffffff-ffff-4fff-bfff-ffffffffffff");
    let counted: Vec<u8> = (0u8..16).collect();
    assert_eq!(uuid_from_bytes(&counted), "00010203-0405-4607-8809-0a0b0c0d0e0f");
}

#[test]
fn float_columns_are_asked_of_the_caller() {
    assert_eq!(float_bounds(DataType::Float), Some((-1000, 1000)));
    assert_eq!(float_bounds(DataType::Float32), Some((-1000, 1000)));
    assert_eq!(float_bounds(DataType::Float64), Some((-1000000, 1000000)));
    assert_eq!(float_bounds(DataType::Integer), None);
    assert_eq!(float_bounds(DataType::Decimal), None);

    let definitions = vec![
        definition("a", DataType::Int8),
        definition("b", DataType::Float32),
        definition("c", DataType::Uuid),
        definition("d", DataType::Float64),
        definition("e", DataType::Float),
    ];
    let mut generator = BatchGenerator::new(definitions, 3, 1, NOW);
    assert_eq!(generator.pending(), None);
    generator.run();
    assert_eq!(generator.columns.len(), 1);
    assert_eq!(
        generator.pending(),
        Some(FloatRequest { data_type: PhysicalType::Float32, low: -1000, high: 1000, rows: 3 })
    );
    generator.run();
    assert_eq!(generator.columns.len(), 1);
    let wrong_width = Column { data_type: PhysicalType::Float64, cells: vec![Cell::Float64(0); 3] };
    assert!(!generator.accept_column(wrong_width));
    let wrong_length = Column { data_type: PhysicalType::Float32, cells: vec![Cell::Float32(0); 2] };
    assert!(!generator.accept_column(wrong_length));
    let with_null = Column {
        data_type: PhysicalType::Float32,
        cells: vec![Cell::Float32(0), Cell::Null, Cell::Float32(0)],
    };
    assert!(!generator.accept_column(with_null));
    assert_eq!(generator.columns.len(), 1);
    let singles = Column { data_type: PhysicalType::Float32, cells: vec![Cell::Float32(7); 3] };
    assert!(generator.accept_column(singles.clone()));
    assert_eq!(generator.columns[1], singles);
    generator.run();
    assert_eq!(generator.columns.len(), 3);
    assert_eq!(
        generator.pending(),
        Some(FloatRequest { data_type: PhysicalType::Float64, low: -1000000, high: 1000000, rows: 3 })
    );
    let generator = match generator.finish() {
        Ok(_) => panic!("two columns are missing"),
        Err(generator) => generator,
    };
    let mut generator = generator;
    let doubles = Column { data_type: PhysicalType::Float64, cells: vec![Cell::Float64(9); 3] };
    assert!(generator.accept_column(doubles.clone()));
    assert_eq!(
        generator.pending(),
        Some(FloatRequest { data_type: PhysicalType::Float64, low: -1000, high: 1000, rows: 3 })
    );
    assert!(!generator.is_done());
    assert!(generator.accept_column(doubles.clone()));
    assert!(generator.is_done());
    assert_eq!(generator.pending(), None);
    assert!(!generator.accept_column(doubles));
    let batch = generator.finish().ok().unwrap();
    assert_eq!(batch.num_columns(), 5);
    assert_eq!(batch.num_rows(), 3);
}

#[test]
fn columns_follow_one_another_on_one_generator() {
    let both = generate(
        vec![definition("a", DataType::Int32), definition("b", DataType::Int32)],
        10,
        21,
    );
    let alone = generate(vec![definition("b", DataType::Int32)], 10, 21);
    assert_eq!(both.columns[0], alone.columns[0]);
    assert_ne!(both.columns[1], alone.columns[0]);
}

#[test]
fn given_seed_is_used() {
    assert_eq!(seed_or_clock(Some(17)), 17);
    assert_eq!(seed_or_clock(Some(0)), 0);
    assert!(seed_or_clock(None) > 1_600_000_000);
}

#[test]
fn generation_starts_at_the_present_moment() {
    let generator = BatchGenerator::start(vec![definition("t", DataType::Timestamp)], 5, Some(3)).unwrap();
    assert!(generator.now_millis >= MIN_TIMESTAMP_MILLIS);
    assert_eq!(generator.rows, 5);
    assert!(generator.columns.is_empty());
}

fn to_json(value: &JsonValue) -> serde_json::Value {
    match value {
        JsonValue::Null => serde_json::Value::Null,
        JsonValue::Bool(b) => serde_json::Value::Bool(*b),
        JsonValue::Int(v) => serde_json::Value::from(*v),
        JsonValue::UInt(v) => serde_json::Value::from(*v),
        JsonValue::Float32(bits) => serde_json::Value::from(f32::from_bits(*bits)),
        JsonValue::Float64(bits) => serde_json::Value::from(f64::from_bits(*bits)),
        JsonValue::String(s) => serde_json::Value::String(s.clone()),
    }
}

#[test]
fn structured_records_survive_encoding_and_parsing() {
    let definitions = vec![
        definition("s", DataType::String),
        definition("b", DataType::Boolean),
        definition("i8", DataType::Int8),
        definition("i16", DataType::Int16),
        definition("i32", DataType::Int32),
        definition("i64", DataType::Int64),
        definition("u8", DataType::UInt8),
        definition("u16", DataType::UInt16),
        definition("u32", DataType::UInt32),
        definition("u64", DataType::UInt64),
        definition("n", DataType::Integer),
        definition("f64", DataType::Float64),
    ];
    let batch = generate(definitions, 50, 2024);
    let records = save_as_json(&batch);
    let mut rows = Vec::new();
    for record in &records {
        let mut object = serde_json::Map::new();
        for member in record {
            object.insert(member.name.clone(), to_json(&member.value));
        }
        rows.push(serde_json::Value::Object(object));
    }
    let encoded = serde_json::to_string_pretty(&rows).unwrap();
    let parsed: Vec<serde_json::Value> = serde_json::from_str(&encoded).unwrap();
    assert_eq!(parsed.len(), batch.num_rows());
    for (r, row) in parsed.iter().enumerate() {
        let object = row.as_object().unwrap();
        let keys: Vec<&String> = object.keys().collect();
        let names: Vec<&String> = batch.fields.iter().map(|f| &f.name).collect();
        assert_eq!(keys, names);
        for (c, column) in batch.columns.iter().enumerate() {
            let value = &object[&batch.fields[c].name];
            match &column.cells[r] {
                Cell::Text(s) => assert_eq!(value.as_str(), Some(s.as_str())),
                Cell::Boolean(b) => assert_eq!(value.as_bool(), Some(*b)),
                Cell::Int(v) => assert_eq!(value.as_i64(), Some(*v)),
                Cell::UInt(v) => assert_eq!(value.as_u64(), Some(*v)),
                Cell::Float64(bits) => assert_eq!(value.as_f64().map(f64::to_bits), Some(*bits)),
                other => panic!("not expected here: {:?}", other),
            }
        }
    }
}

#[test]
fn draws_are_those_of_the_seeded_generator() {
    let seed = 20240229u64;
    let batch = generate(
        vec![
            definition("s", DataType::String),
            definition("i", DataType::Int32),
            definition("b", DataType::Boolean),
            definition("u", DataType::UInt8),
            definition("d", DataType::Decimal),
            definition("x", DataType::Binary),
            definition("t", DataType::Time64),
            definition("f", DataType::Float64),
            definition("n", DataType::Integer),
        ],
        6,
        seed,
    );
    let mut rng: rand::rngs::StdRng = rand::SeedableRng::seed_from_u64(seed);
    for row in 0..6 {
        let len = rng.gen_range(5usize..=20);
        let text: String = (&mut rng)
            .sample_iter(&rand::distributions::Alphanumeric)
            .take(len)
            .map(char::from)
            .collect();
        assert_eq!(batch.columns[0].cells[row], Cell::Text(text));
    }
    for row in 0..6 {
        let value: i32 = rng.gen_range(i32::MIN / 2..=i32::MAX / 2);
        assert_eq!(batch.columns[1].cells[row], Cell::Int(value as i64));
    }
    for row in 0..6 {
        let value: bool = rng.gen();
        assert_eq!(batch.columns[2].cells[row], Cell::Boolean(value));
    }
    for row in 0..6 {
        let value: u8 = rng.gen();
        assert_eq!(batch.columns[3].cells[row], Cell::UInt(value as u64));
    }
    for row in 0..6 {
        let whole = rng.gen_range(0..10000);
        let part = rng.gen_range(0..10u32.pow(6));
        assert_eq!(batch.columns[4].cells[row], Cell::Text(format!("{}.{:06}", whole, part)));
    }
    for row in 0..6 {
        let len = rng.gen_range(4usize..=20);
        let mut bytes = vec![0u8; len];
        rng.fill(&mut bytes[..]);
        assert_eq!(batch.columns[5].cells[row], Cell::Bytes(bytes));
    }
    for row in 0..6 {
        let value: i64 = rng.gen_range(0..86400000000000);
        assert_eq!(batch.columns[6].cells[row], Cell::Int(value));
    }
    for row in 0..6 {
        let value: f64 = rng.gen_range(-1000000.0..=1000000.0);
        assert_eq!(batch.columns[7].cells[row], Cell::Float64(value.to_bits()));
    }
    for row in 0..6 {
        let value: i32 = rng.gen_range(-1000..=1000);
        assert_eq!(batch.columns[8].cells[row], Cell::Int(value as i64));
    }
}

#[test]
fn no_timestamps_before_the_year_2000() {
    let timestamps = vec![definition("n", DataType::Int8), definition("t", DataType::Timestamp)];
    assert!(BatchGenerator::try_new(timestamps.clone(), 1, 1, MIN_TIMESTAMP_MILLIS - 1).is_none());
    assert!(BatchGenerator::try_new(timestamps.clone(), 1, 1, 0).is_none());
    assert!(BatchGenerator::try_new(timestamps.clone(), 1, 1, i64::MIN).is_none());
    let generator = BatchGenerator::try_new(timestamps, 3, 1, MIN_TIMESTAMP_MILLIS).unwrap();
    assert_eq!(generator.now_millis, MIN_TIMESTAMP_MILLIS);
    assert_eq!(generator.rows, 3);
    assert!(!generator.is_done());
}

#[test]
fn other_schemas_are_generated_at_any_moment() {
    assert!(!has_timestamp(&Vec::new()));
    assert!(!has_timestamp(&vec![definition("d", DataType::Date), definition("t", DataType::Time64)]));
    assert!(has_timestamp(&vec![definition("d", DataType::Date), definition("t", DataType::Timestamp)]));
    let empty = BatchGenerator::try_new(Vec::new(), 3, 1, i64::MIN).unwrap();
    assert!(empty.is_done());
    assert_eq!(empty.finish().ok().unwrap().num_columns(), 0);
    let definitions = vec![definition("d", DataType::Date), definition("u", DataType::Uuid)];
    for now in [i64::MIN, 0, MIN_TIMESTAMP_MILLIS - 1] {
        assert!(BatchGenerator::try_new(definitions.clone(), 4, 9, now).is_some());
        let batch = generate_data(definitions.clone(), 4, 9, now).ok().unwrap();
        assert_eq!(batch, generate(definitions.clone(), 4, 9));
    }
}

#[test]
fn schema_without_floats_is_generated_in_one_call() {
    let definitions = vec![
        definition("id", DataType::Uuid),
        definition("n", DataType::Null),
        definition("when", DataType::Timestamp),
    ];
    let batch = generate_data(definitions.clone(), 9, 77, NOW).ok().unwrap();
    assert_eq!(batch, generate(definitions, 9, 77));
    assert_eq!(batch.num_rows(), 9);
    assert_eq!(batch.num_columns(), 3);
    assert!(batch.columns[1].cells.iter().all(|cell| *cell == Cell::Null));
}

#[test]
fn schema_with_floats_stops_before_the_first_of_them() {
    let definitions = vec![
        definition("a", DataType::Int64),
        definition("b", DataType::Boolean),
        definition("c", DataType::Float),
        definition("d", DataType::Int64),
    ];
    let generator = match generate_data(definitions, 4, 1, NOW) {
        Ok(_) => panic!("a column of floating-point numbers is pending"),
        Err(generator) => generator,
    };
    assert_eq!(generator.columns.len(), 2);
    assert_eq!(
        generator.pending(),
        Some(FloatRequest { data_type: PhysicalType::Float64, low: -1000, high: 1000, rows: 4 })
    );
}
