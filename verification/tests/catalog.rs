use sqlx_core::catalog::{HasSqlType, PgTypeInfo, Postgres, TypeId};
use sqlx_core::temporal::{Date, Time, Timestamp, TimestampTz};

fn described(info: PgTypeInfo) -> (u32, &'static str) {
    (info.id.0, info.name)
}

#[test]
fn integer_descriptors() {
    assert_eq!(described(<Postgres as HasSqlType<i16>>::type_info()), (21, "int2"));
    assert_eq!(described(<Postgres as HasSqlType<i32>>::type_info()), (23, "int4"));
    assert_eq!(described(<Postgres as HasSqlType<i64>>::type_info()), (20, "int8"));
}

#[test]
fn integer_array_descriptors() {
    assert_eq!(described(<Postgres as HasSqlType<[i16]>>::type_info()), (1005, "int2[]"));
    assert_eq!(described(<Postgres as HasSqlType<[i32]>>::type_info()), (1007, "int4[]"));
    assert_eq!(described(<Postgres as HasSqlType<[i64]>>::type_info()), (1016, "int8[]"));
}

#[test]
fn temporal_descriptors() {
    assert_eq!(described(<Postgres as HasSqlType<Time>>::type_info()), (1083, "time"));
    assert_eq!(described(<Postgres as HasSqlType<Date>>::type_info()), (1082, "date"));
    assert_eq!(described(<Postgres as HasSqlType<Timestamp>>::type_info()), (1114, "timestamp"));
    assert_eq!(
        described(<Postgres as HasSqlType<TimestampTz>>::type_info()),
        (1184, "timestamptz")
    );
}

#[test]
fn temporal_array_descriptors() {
    assert_eq!(described(<Postgres as HasSqlType<[Time]>>::type_info()), (1183, "time[]"));
    assert_eq!(described(<Postgres as HasSqlType<[Date]>>::type_info()), (1182, "date[]"));
    assert_eq!(
        described(<Postgres as HasSqlType<[Timestamp]>>::type_info()),
        (1115, "timestamp[]")
    );
    assert_eq!(
        described(<Postgres as HasSqlType<[TimestampTz]>>::type_info()),
        (1185, "timestamp[]")
    );
}

#[test]
fn array_descriptors_differ_from_scalar_ones() {
    let scalar = <Postgres as HasSqlType<Date>>::type_info();
    let array = <Postgres as HasSqlType<[Date]>>::type_info();
    assert_ne!(scalar.id, array.id);
    assert_ne!(scalar.name, array.name);
    assert_eq!(scalar.id, TypeId(TypeId::DATE));
    assert_eq!(array.id, TypeId(TypeId::ARRAY_DATE));
    let made = PgTypeInfo::new(TypeId::INT4, "int4");
    assert_eq!(described(made), (23, "int4"));
}
