use simple_db::meta::{Column, DataSource, Schema, SimpleMemoryDataSource, SimpleMemoryRow};
use simple_db::scan::{scan_all, SeqScan};
use simple_db::types::{DataType, Int32, OwnValue};

/// The `stu` table: a nullable name and a nullable age, three rows.
fn student_source() -> SimpleMemoryDataSource {
    let column_name = Column {
        name: "name".into(),
        data_type: DataType::Varchar(32),
        nullable: true,
    };
    println!("column_name = {:?}", column_name);

    let column_age: Column = Column {
        name: "age".into(),
        data_type: DataType::Int32,
        nullable: true,
    };
    println!("column_age = {:?}", column_age);

    let schema: Schema = Schema {
        name: "stu".into(),
        columns: vec![column_name, column_age],
    };
    println!("schema = {:?}", schema);

    let mut source: SimpleMemoryDataSource = SimpleMemoryDataSource::new(schema);
    source
        .push_row(SimpleMemoryRow::new(vec![
            OwnValue::String("张三".into()),
            OwnValue::Int32(Int32::new(18)),
        ]))
        .unwrap();
    source
        .push_row(SimpleMemoryRow::new(vec![
            OwnValue::Null,
            OwnValue::Int32(Int32::new(20)),
        ]))
        .unwrap();
    source
        .push_row(SimpleMemoryRow::new(vec![
            OwnValue::String("王五".into()),
            OwnValue::Null,
        ]))
        .unwrap();
    println!("source = {:?}", source);
    assert_eq!(
        source.schema().describe(),
        "stu(name Varchar(32) NULLABLE, age Int32 NULLABLE)"
    );
    source
}

#[test]
fn test_data_source() {
    let source = student_source();
    assert_eq!(source.name(), "stu");
    assert_eq!(source.row_count(), 3);
    for index in 0..source.row_count() {
        println!("row = {:?}", source.row(index));
    }
    assert_eq!(source.row(0).get_string(0), "张三");
    assert_eq!(source.row(0).get_int32(1), Int32::new(18));
    assert!(source.row(1).is_null(0));
    assert!(source.row(2).is_null(1));
}

#[test]
fn test_scan() {
    let source = student_source();
    let mut scan = SeqScan::new(&source, vec![1]).unwrap();

    scan.open().unwrap();

    let mut rows = Vec::new();
    while let Some(row) = scan.next().unwrap() {
        println!("row = {:?}", row);
        rows.push(row.get(0).clone());
    }

    scan.close().unwrap();
    assert_eq!(
        rows,
        vec![OwnValue::Int32(Int32::new(18)), OwnValue::Int32(Int32::new(20)), OwnValue::Null]
    );
}
