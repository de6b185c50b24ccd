use aev::record::{FieldTree, RawRecord};
use aev::schema::{
    get_schema, map_field, map_row, validate_schema, DefaultPolicy, FieldKind, FieldSource,
    FieldSpec, Value,
};
use aev::table::{create_memtable, IngestError, SourceItem, Table, TableBuilder};
use aev::text::parse_u64;

fn text(s: &str) -> FieldTree {
    FieldTree::Text(s.to_string())
}

fn node(entries: Vec<(&str, FieldTree)>) -> FieldTree {
    FieldTree::Node(entries.into_iter().map(|(k, v)| (k.to_string(), v)).collect())
}

fn path(keys: &[&str]) -> FieldSource {
    FieldSource::Path(keys.iter().map(|k| k.to_string()).collect())
}

fn id_field() -> FieldSpec {
    FieldSpec {
        name: "id".to_string(),
        source: FieldSource::RecordId,
        kind: FieldKind::UnsignedInteger,
        nullable: false,
        policy: DefaultPolicy::UseNull,
    }
}

fn text_field(name: &str, keys: &[&str], nullable: bool, policy: DefaultPolicy) -> FieldSpec {
    FieldSpec { name: name.to_string(), source: path(keys), kind: FieldKind::Text, nullable, policy }
}

fn event(id: u64, user: Option<&str>, computer: &str) -> RawRecord {
    let mut data = vec![("ProcessId", text("42"))];
    if let Some(u) = user {
        data.push(("SubjectUserName", text(u)));
    }
    RawRecord {
        id,
        data: node(vec![(
            "Event",
            node(vec![
                ("System", node(vec![("Computer", text(computer)), ("EventID", text("4688"))])),
                ("EventData", node(data)),
            ]),
        )]),
    }
}

fn sample_schema() -> Vec<FieldSpec> {
    vec![
        id_field(),
        text_field("user", &["Event", "EventData", "SubjectUserName"], true, DefaultPolicy::UseNull),
        text_field("computer", &["Event", "System", "Computer"], false, DefaultPolicy::UseEmptyString),
        FieldSpec {
            name: "pid".to_string(),
            source: path(&["Event", "EventData", "ProcessId"]),
            kind: FieldKind::UnsignedInteger,
            nullable: true,
            policy: DefaultPolicy::UseNull,
        },
    ]
}

fn is_text(v: &Value, s: &str) -> bool {
    matches!(v, Value::Text(t) if t == s)
}

fn is_uint(v: &Value, n: u64) -> bool {
    matches!(v, Value::UInt(m) if *m == n)
}

fn assert_aligned(t: &Table) {
    assert_eq!(t.column_count(), t.schema().len());
    for i in 0..t.column_count() {
        assert_eq!(t.column(i).len(), t.row_count());
    }
}

#[test]
fn parse_u64_reads_decimals() {
    assert_eq!(parse_u64("0"), Some(0));
    assert_eq!(parse_u64("4688"), Some(4688));
    assert_eq!(parse_u64("18446744073709551615"), Some(u64::MAX));
    assert_eq!(parse_u64("18446744073709551616"), None);
    assert_eq!(parse_u64(""), None);
    assert_eq!(parse_u64("12a"), None);
    assert_eq!(parse_u64("-1"), None);
}

#[test]
fn missing_optional_field_takes_its_default() {
    let items: Vec<SourceItem> = vec![
        Ok(event(10, Some("alice"), "host1")),
        Ok(event(11, None, "host2")),
        Ok(event(12, Some("carol"), "host3")),
    ];
    let t = create_memtable(sample_schema(), &items).ok().unwrap();
    assert_eq!(t.row_count(), 3);
    assert_aligned(&t);
    let users = t.column(1);
    assert_eq!(users.len(), 3);
    assert!(is_text(&users[0], "alice"));
    assert!(matches!(users[1], Value::Null));
    assert!(is_text(&users[2], "carol"));
    let ids = t.column(0);
    assert!(is_uint(&ids[0], 10));
    assert!(is_uint(&ids[1], 11));
    assert!(is_uint(&ids[2], 12));
}

#[test]
fn parse_errors_are_skipped_and_rows_counted() {
    let items: Vec<SourceItem> = vec![
        Ok(event(1, Some("a"), "h")),
        Err("bad record".to_string()),
        Ok(event(2, None, "h")),
        Err("another".to_string()),
    ];
    let t = create_memtable(sample_schema(), &items).ok().unwrap();
    assert_eq!(t.row_count(), 2);
    assert_aligned(&t);
    assert!(is_uint(&t.column(0)[1], 2));
}

#[test]
fn numeric_field_parses_and_defaults() {
    let schema = sample_schema();
    let rec = event(5, None, "h");
    assert!(is_uint(&map_field(&rec, &schema[3]), 42));
    let bad = RawRecord {
        id: 6,
        data: node(vec![("Event", node(vec![("EventData", node(vec![("ProcessId", text("0x2a"))]))]))]),
    };
    assert!(matches!(map_field(&bad, &schema[3]), Value::Null));
    assert!(is_text(&map_field(&bad, &schema[2]), ""));
}

#[test]
fn map_row_has_one_cell_per_field() {
    let schema = sample_schema();
    let row = map_row(&event(7, Some("bob"), "pc"), &schema);
    assert_eq!(row.len(), 4);
    assert!(is_uint(&row[0], 7));
    assert!(is_text(&row[1], "bob"));
    assert!(is_text(&row[2], "pc"));
    assert!(is_uint(&row[3], 42));
}

#[test]
fn path_through_scalar_does_not_resolve() {
    let f = text_field("deep", &["Event", "System", "Computer", "Name"], true, DefaultPolicy::UseNull);
    assert!(matches!(map_field(&event(1, None, "pc"), &f), Value::Null));
    let null_leaf = RawRecord { id: 1, data: node(vec![("Event", FieldTree::Null)]) };
    let g = text_field("event", &["Event"], false, DefaultPolicy::UseEmptyString);
    assert!(is_text(&map_field(&null_leaf, &g), ""));
}

#[test]
fn first_of_duplicate_keys_wins() {
    let rec = RawRecord { id: 1, data: node(vec![("k", text("first")), ("k", text("second"))]) };
    let f = text_field("k", &["k"], false, DefaultPolicy::UseEmptyString);
    assert!(is_text(&map_field(&rec, &f), "first"));
}

#[test]
fn empty_source_gives_empty_table() {
    let items: Vec<SourceItem> = Vec::new();
    let t = create_memtable(sample_schema(), &items).ok().unwrap();
    assert_eq!(t.row_count(), 0);
    assert_eq!(t.column_count(), 4);
    assert_eq!(t.schema().len(), 4);
    assert_aligned(&t);
}

#[test]
fn inconsistent_schema_is_rejected() {
    let bad_null = vec![text_field("x", &["x"], false, DefaultPolicy::UseNull)];
    assert!(!validate_schema(&bad_null));
    assert!(matches!(create_memtable(bad_null, &Vec::new()), Err(IngestError::InvalidSchema)));
    let bad_empty = vec![FieldSpec {
        name: "n".to_string(),
        source: path(&["n"]),
        kind: FieldKind::UnsignedInteger,
        nullable: true,
        policy: DefaultPolicy::UseEmptyString,
    }];
    assert!(!validate_schema(&bad_empty));
    let bad_id = vec![FieldSpec { kind: FieldKind::Text, ..id_field() }];
    assert!(!validate_schema(&bad_id));
    assert!(validate_schema(&sample_schema()));
}

#[test]
fn ingesting_twice_gives_same_cells() {
    let items: Vec<SourceItem> = vec![Ok(event(1, Some("a"), "h1")), Ok(event(2, None, "h2"))];
    let t1 = create_memtable(sample_schema(), &items).ok().unwrap();
    let t2 = create_memtable(sample_schema(), &items).ok().unwrap();
    assert_eq!(t1.row_count(), t2.row_count());
    for i in 0..t1.column_count() {
        let (a, b) = (t1.column(i), t2.column(i));
        assert_eq!(a.len(), b.len());
        for j in 0..a.len() {
            let same = match (&a[j], &b[j]) {
                (Value::Null, Value::Null) => true,
                (Value::Text(x), Value::Text(y)) => x == y,
                (Value::UInt(x), Value::UInt(y)) => x == y,
                _ => false,
            };
            assert!(same);
        }
    }
}

#[test]
fn batch_ingestion_counts_all_records() {
    let items: Vec<SourceItem> =
        vec![Ok(event(1, None, "a")), Ok(event(2, None, "b")), Ok(event(3, None, "c"))];
    let t = create_memtable(get_schema(), &items).ok().unwrap();
    assert_eq!(t.row_count(), 3);
    assert_eq!(t.column_count(), 18);
    assert_aligned(&t);
    assert!(is_text(&t.column(0)[0], "4688"));
    assert!(is_text(&t.column(16)[2], "c"));
    assert!(matches!(t.column(1)[0], Value::Null));
    assert!(is_text(&t.column(3)[0], ""));
    assert!(is_uint(&t.column(17)[0], 1));
    assert!(is_uint(&t.column(17)[1], 2));
    assert!(is_uint(&t.column(17)[2], 3));
}

#[test]
fn standard_schema_fields() {
    let schema = get_schema();
    let names: Vec<&str> = schema.iter().map(|f| f.name.as_str()).collect();
    assert_eq!(
        names,
        vec![
            "eventid", "processname", "subjectusername", "accessmaskname", "newprocessname",
            "parentprocessname", "handleid", "objectname", "objectserver", "objecttype",
            "priviligelist", "processid", "subjectdomainname", "subjectlogonid", "subjectusersid",
            "channel", "computer", "id",
        ]
    );
    for (i, f) in schema.iter().enumerate() {
        assert_eq!(f.nullable, i == 1 || i == 2);
    }
    assert!(matches!(schema[17].source, FieldSource::RecordId));
    assert!(matches!(schema[17].kind, FieldKind::UnsignedInteger));
    assert!(matches!(&schema[2].source, FieldSource::Path(p) if p == &vec!["Event".to_string(), "EventData".to_string(), "SubjectUserName".to_string()]));
    assert!(validate_schema(&schema));
}

#[test]
fn standard_schema_nulls_missing_process_name() {
    let mut with_name = event(1, None, "h");
    if let FieldTree::Node(top) = &mut with_name.data {
        if let FieldTree::Node(sections) = &mut top[0].1 {
            if let FieldTree::Node(data) = &mut sections[1].1 {
                data.push(("ProcessName".to_string(), text("cmd.exe")));
            }
        }
    }
    let items: Vec<SourceItem> = vec![Ok(with_name), Ok(event(2, None, "h")), Ok(event(3, None, "h"))];
    let t = create_memtable(get_schema(), &items).ok().unwrap();
    let c = t.column(1);
    assert_eq!(c.len(), 3);
    assert!(is_text(&c[0], "cmd.exe"));
    assert!(matches!(c[1], Value::Null));
    assert!(matches!(c[2], Value::Null));
}

#[test]
fn builder_accumulates_rows() {
    let mut b = TableBuilder::new(sample_schema());
    b.push_record(&event(1, Some("u"), "h"));
    b.push_record(&event(2, None, "h"));
    let t = b.finish();
    assert_eq!(t.row_count(), 2);
    assert_aligned(&t);
    assert!(matches!(t.column(1)[1], Value::Null));
}
