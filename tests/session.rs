use aev::record::{FieldTree, RawRecord};
use aev::registry::TableRegistry;
use aev::schema::get_schema;
use aev::session::{parse_command, Action, Command, SessionState};
use aev::table::{create_memtable, SourceItem, Table};

fn table_of(n: u64) -> Table {
    let items: Vec<SourceItem> =
        (0..n).map(|i| Ok(RawRecord { id: i, data: FieldTree::Node(Vec::new()) })).collect();
    create_memtable(get_schema(), &items).ok().unwrap()
}

#[test]
fn parse_splits_at_first_space() {
    assert!(matches!(parse_command("file a.log"), Command::File(p) if p == "a.log"));
    assert!(matches!(parse_command("FiLe C:\\x y.evtx"), Command::File(p) if p == "C:\\x y.evtx"));
    assert!(matches!(parse_command("table_name t1"), Command::TableName(n) if n == "t1"));
    assert!(matches!(parse_command("QUERY SELECT 1"), Command::Query(q) if q == "SELECT 1"));
    assert!(matches!(parse_command("query "), Command::Query(q) if q.is_empty()));
    assert!(matches!(parse_command("files a"), Command::Unrecognized));
    assert!(matches!(parse_command(" file a"), Command::Unrecognized));
    assert!(matches!(parse_command("query"), Command::Malformed));
    assert!(matches!(parse_command(""), Command::Malformed));
}

#[test]
fn file_then_query_runs_query_without_tables() {
    let mut s = SessionState::new();
    assert!(matches!(s.handle_line("file a.log".to_string()), Action::Nothing));
    assert_eq!(s.pending_filename(), "a.log");
    assert!(matches!(s.handle_line("query SELECT 1".to_string()), Action::RunQuery(q) if q == "SELECT 1"));
    assert_eq!(s.registry().len(), 0);
    assert!(s.registry().lookup("a").is_none());
    assert_eq!(s.command_log().len(), 2);
}

#[test]
fn table_name_without_file_registers_nothing() {
    let mut s = SessionState::new();
    assert!(matches!(s.handle_line("table_name t1".to_string()), Action::Nothing));
    assert!(s.registry().lookup("t1").is_none());
    assert!(matches!(s.handle_line("query SELECT * FROM t1".to_string()), Action::RunQuery(_)));
    assert!(s.registry().lookup("t1").is_none());
}

#[test]
fn table_name_after_file_asks_for_ingestion() {
    let mut s = SessionState::new();
    s.handle_line("file sec.evtx".to_string());
    let a = s.handle_line("Table_Name records".to_string());
    assert!(matches!(a, Action::Ingest { ref path, ref table_name } if path == "sec.evtx" && table_name == "records"));
    s.register_table("records".to_string(), table_of(3));
    assert_eq!(s.registry().lookup("records").unwrap().row_count(), 3);
    assert_eq!(s.pending_filename(), "sec.evtx");
}

#[test]
fn unknown_and_malformed_lines() {
    let mut s = SessionState::new();
    assert!(matches!(s.handle_line("help".to_string()), Action::ReportUnknown));
    assert_eq!(s.command_log().len(), 0);
    assert!(matches!(s.handle_line("drop table".to_string()), Action::ReportUnknown));
    assert_eq!(s.command_log().len(), 1);
    assert_eq!(s.command_log()[0], "drop table");
    assert_eq!(s.pending_filename(), "");
}

#[test]
fn registry_last_write_wins() {
    let mut r = TableRegistry::new();
    r.register("a".to_string(), table_of(1));
    r.register("b".to_string(), table_of(2));
    r.register("a".to_string(), table_of(5));
    assert_eq!(r.len(), 2);
    assert_eq!(r.lookup("a").unwrap().row_count(), 5);
    assert_eq!(r.lookup("b").unwrap().row_count(), 2);
    assert!(r.lookup("c").is_none());
    let mut names = r.names();
    names.sort();
    assert_eq!(names, vec!["a".to_string(), "b".to_string()]);
}
