use data_connector::apply::{apply_sql_file, MigrationRun};
use data_connector::checksum::hash64;
use data_connector::db::{Bind, DbError, OracleError, SqlCall, Timestamp};
use data_connector::migrations::{
    classify_migration_file, insert_history_row, kind_of_name, plan_migrations,
    repeatable_checksum, repeatable_current, upsert_history_row, version_applied, FileFault,
    MigType, MigrationFile, ReadFault,
};
use data_connector::protocol::{DirEntry, Listing, Reply, Request};
use data_connector::scan::{has_sql_extension, DirectoryScan};
use data_connector::schema::{
    create_index_if_missing, ensure_migrations_table, index_exists, init_agent_runtime_schema,
    table_exists, EnsureRun, HISTORY_DDL, HISTORY_INDEX_DDL,
};
use data_connector::script::SchemaScript;
use data_connector::sql_text::Placeholders;

const NOW: Timestamp = Timestamp { secs: 1_700_000_000, nanos: 5 };

fn ora(code: i32) -> OracleError {
    OracleError {
        db_error: Some(DbError { code, message: "boom".to_string() }),
        text: "OCI Error".to_string(),
    }
}

fn versioned(version: u64, name: &str) -> MigrationFile<String> {
    MigrationFile {
        ty: MigType::Versioned,
        version: Some(version),
        name: name.to_string(),
        path: format!("/sql/{name}"),
        checksum: 7,
    }
}

fn repeatable(name: &str, checksum: u64) -> MigrationFile<String> {
    MigrationFile {
        ty: MigType::Repeatable,
        version: None,
        name: name.to_string(),
        path: format!("/sql/{name}"),
        checksum,
    }
}

fn entry(name: &str) -> Result<DirEntry<String>, String> {
    Ok(DirEntry {
        is_file: true,
        extension: name.rsplit_once('.').map(|(_, ext)| ext.to_string()),
        name: name.to_string(),
        path: format!("/sql/{name}"),
    })
}

fn sql_of(request: Request<'_, String>) -> String {
    match request {
        Request::Count(call) | Request::FirstColumn(call) | Request::Execute(call) => {
            call.sql.clone()
        }
        _ => panic!("no statement"),
    }
}

#[test]
fn names_tell_migrations() {
    assert_eq!(kind_of_name("V1__init.sql"), Some((MigType::Versioned, Some(1))));
    assert_eq!(kind_of_name("V007__x.sql"), Some((MigType::Versioned, Some(7))));
    assert_eq!(kind_of_name("V+1__x.sql"), Some((MigType::Versioned, Some(1))));
    assert_eq!(kind_of_name("V2__a__b"), Some((MigType::Versioned, Some(2))));
    assert_eq!(kind_of_name("R__views.sql"), Some((MigType::Repeatable, None)));
    assert_eq!(kind_of_name("R__.sql"), Some((MigType::Repeatable, None)));
    for name in [
        "", "V", "V1.sql", "V__x.sql", "V1_1__x.sql", "V-1__x.sql", "v1__x.sql", "R__x.SQL",
        "R__x", "R_x.sql", "R__sql", "U1__x.sql", "V18446744073709551616__x.sql",
    ] {
        assert_eq!(kind_of_name(name), None, "{name}");
    }
}

#[test]
fn files_are_classified_with_their_checksum() {
    let found = classify_migration_file("V3__x.sql", 9u8, Ok(b"a".to_vec())).unwrap().unwrap();
    assert_eq!(found.ty, MigType::Versioned);
    assert_eq!(found.version, Some(3));
    assert_eq!(found.name, "V3__x.sql");
    assert_eq!(found.path, 9);
    assert_eq!(found.checksum, 0xaf63dc4c8601ec8c);
    let found = classify_migration_file("R__x.sql", 9u8, Ok(Vec::new())).unwrap().unwrap();
    assert_eq!(found.version, None);
    assert_eq!(found.checksum, 0xcbf29ce484222325);
    assert!(matches!(classify_migration_file("x.sql", 9u8, Ok(Vec::new())), Ok(None)));
}

#[test]
fn files_that_cannot_be_read_are_reported() {
    let fault = || FileFault { path: "\"/sql/V1__x.sql\"".to_string(), error: "denied".to_string() };
    assert_eq!(
        classify_migration_file("V1__x.sql", 0u8, Err(ReadFault::Open(fault()))).err().as_deref(),
        Some("open \"/sql/V1__x.sql\" failed: denied")
    );
    assert_eq!(
        classify_migration_file("R__x.sql", 0u8, Err(ReadFault::Read(fault()))).err().as_deref(),
        Some("read \"/sql/V1__x.sql\" failed: denied")
    );
    assert!(classify_migration_file("x.sql", 0u8, Err(ReadFault::Open(fault()))).is_ok());
}

#[test]
fn migrations_are_planned_by_kind_version_and_name() {
    let plan = plan_migrations(vec![
        repeatable("R__b.sql", 1),
        versioned(10, "V10__x.sql"),
        versioned(2, "V2__second.sql"),
        repeatable("R__B.sql", 1),
        versioned(2, "V2__first.sql"),
        repeatable("R__a.sql", 1),
    ]);
    let names: Vec<&str> = plan.iter().map(|m| m.name.as_str()).collect();
    assert_eq!(
        names,
        vec![
            "V2__second.sql",
            "V2__first.sql",
            "V10__x.sql",
            "R__B.sql",
            "R__a.sql",
            "R__b.sql",
        ]
    );
}

#[test]
fn history_is_asked_by_name() {
    let call = version_applied(&versioned(1, "V1__x.sql"));
    assert_eq!(call.sql, "SELECT COUNT(*) FROM MIGRATIONS_HISTORY WHERE NAME = :1 AND TYPE = 'V'");
    assert!(matches!(&call.binds[..], [Bind::Text(name)] if name == "V1__x.sql"));
    let call = repeatable_checksum(&repeatable("R__x.sql", 1));
    assert_eq!(call.sql, "SELECT CHECKSUM FROM MIGRATIONS_HISTORY WHERE NAME = :1 AND TYPE = 'R'");
}

#[test]
fn repeatable_migrations_are_current_by_checksum() {
    let mig = repeatable("R__x.sql", u64::MAX);
    assert!(repeatable_current(&mig, Some(Some(-1))));
    assert!(!repeatable_current(&mig, Some(Some(1))));
    assert!(!repeatable_current(&mig, Some(None)));
    assert!(!repeatable_current(&mig, None));
    assert!(repeatable_current(&repeatable("R__x.sql", 0), Some(None)));
}

#[test]
fn history_rows_hold_what_was_applied() {
    let mig = MigrationFile { checksum: u64::MAX, ..versioned(u64::MAX, "V1__x.sql") };
    let call = insert_history_row(&mig, NOW);
    assert_eq!(
        call.sql,
        "INSERT INTO MIGRATIONS_HISTORY (NAME, VERSION, TYPE, CHECKSUM, APPLIED_AT) VALUES (:1, :2, 'V', :3, :4)"
    );
    assert!(matches!(
        &call.binds[..],
        [Bind::Text(name), Bind::Int(-1), Bind::Int(-1), Bind::Time(now)]
            if name == "V1__x.sql" && *now == NOW
    ));
    let (delete, insert) = upsert_history_row(&repeatable("R__x.sql", 3), NOW);
    assert_eq!(delete.sql, "DELETE FROM MIGRATIONS_HISTORY WHERE NAME = :1 AND TYPE = 'R'");
    assert_eq!(
        insert.sql,
        "INSERT INTO MIGRATIONS_HISTORY (NAME, VERSION, TYPE, CHECKSUM, APPLIED_AT) VALUES (:1, NULL, 'R', :2, :3)"
    );
    assert!(matches!(
        &insert.binds[..],
        [Bind::Text(_), Bind::Int(3), Bind::Time(now)] if *now == NOW
    ));
}

#[test]
fn extensions_are_sql_in_any_case() {
    for ext in ["sql", "SQL", "sQl"] {
        assert!(has_sql_extension(&Some(ext.to_string())));
    }
    for ext in ["", "sq", "sqlx", "txt", "\u{17f}ql"] {
        assert!(!has_sql_extension(&Some(ext.to_string())));
    }
    assert!(!has_sql_extension(&None));
}

#[test]
fn directories_are_walked_in_order() {
    let scan: DirectoryScan<String> = DirectoryScan::new("/sql".to_string());
    assert!(matches!(scan.request(), Request::ListDir("/sql")));
    let mut directory = entry("V9__dir.sql").unwrap();
    directory.is_file = false;
    let scan = scan.step(Reply::Listing(Listing::Entries(vec![
        entry("README.md"),
        Ok(directory),
        entry("R__b.sql"),
        entry("R__a.SQL"),
        entry("V2__x.SQL"),
        entry("noextension"),
        entry("V1__x.sql"),
    ])));
    assert!(matches!(scan.request(), Request::ReadBytes(p) if p == "/sql/R__b.sql"));
    let scan = scan.step(Reply::Bytes(Ok(b"b".to_vec())));
    assert!(matches!(scan.request(), Request::ReadBytes(p) if p == "/sql/V2__x.SQL"));
    let scan = scan.step(Reply::Bytes(Ok(b"two".to_vec())));
    assert!(matches!(scan.request(), Request::ReadBytes(p) if p == "/sql/V1__x.sql"));
    let scan = scan.step(Reply::Bytes(Ok(b"one".to_vec())));
    assert!(matches!(scan.request(), Request::Done));
    assert!(scan.is_done());
    let plan = scan.into_plan();
    let found: Vec<(&str, u64)> = plan.iter().map(|m| (m.name.as_str(), m.checksum)).collect();
    assert_eq!(
        found,
        vec![
            ("V1__x.sql", hash64(b"one")),
            ("V2__x.SQL", hash64(b"two")),
            ("R__b.sql", hash64(b"b")),
        ]
    );
}

#[test]
fn directories_that_cannot_be_walked_are_reported() {
    let new = || DirectoryScan::<String>::new("/sql".to_string());
    let scan = new().step(Reply::Listing(Listing::NotADirectory));
    assert!(matches!(scan.request(), Request::Failed("migrations dir '/sql' is not a directory")));
    let scan = new().step(Reply::Listing(Listing::Failed("denied".to_string())));
    assert!(matches!(scan.request(), Request::Failed("read_dir /sql failed: denied")));
    let scan = new().step(Reply::Listing(Listing::Entries(vec![
        entry("x.txt"),
        Err("lost".to_string()),
        entry("V1__x.sql"),
    ])));
    assert!(matches!(scan.request(), Request::Failed("read_dir entry error: lost")));
    let scan = new().step(Reply::Listing(Listing::Entries(vec![entry("V1__x.sql")])));
    let scan = scan.step(Reply::Bytes(Err(ReadFault::Open(FileFault {
        path: "\"/sql/V1__x.sql\"".to_string(),
        error: "denied".to_string(),
    }))));
    assert!(matches!(
        scan.request(),
        Request::Failed("open \"/sql/V1__x.sql\" failed: denied")
    ));
}

#[test]
fn names_are_asked_for_in_upper_case() {
    let call = table_exists("responses");
    assert_eq!(call.sql, "SELECT COUNT(*) FROM user_tables WHERE table_name = :1");
    assert!(matches!(&call.binds[..], [Bind::Text(name)] if name == "RESPONSES"));
    let call = index_exists("ix_straße");
    assert_eq!(call.sql, "SELECT COUNT(*) FROM user_indexes WHERE index_name = :1");
    assert!(matches!(&call.binds[..], [Bind::Text(name)] if name == "IX_STRASSE"));
}

#[test]
fn missing_objects_of_the_agent_runtime_are_created() {
    let mut run = init_agent_runtime_schema();
    let mut executed: Vec<String> = Vec::new();
    for _ in 0..8 {
        assert!(matches!(run.request::<String>(), Request::Count(_)));
        run = run.step::<String>(Reply::Count(Ok(0)));
        executed.push(sql_of(run.request()));
        run = run.step::<String>(Reply::Executed(Ok(())));
    }
    assert!(matches!(run.request::<String>(), Request::Done));
    assert!(executed[0].starts_with("CREATE TABLE RESPONSES ("));
    assert!(executed[1].starts_with("CREATE TABLE CONVERSATIONS ("));
    assert_eq!(executed[2], "CREATE INDEX IX_RESP_TTL_CLEANUP ON RESPONSES (EXPIRES_AT)");
    assert_eq!(
        executed[7],
        "CREATE INDEX IX_CONV_CONVERSATION_STORE_ID ON CONVERSATIONS (CONVERSATION_STORE_ID)"
    );
}

#[test]
fn existing_objects_of_the_agent_runtime_are_kept() {
    let mut run = init_agent_runtime_schema();
    for _ in 0..8 {
        run = run.step::<String>(Reply::Count(Ok(1)));
    }
    assert!(run.is_done());
}

#[test]
fn an_index_that_turns_up_meanwhile_is_tolerated() {
    for (code, tolerated) in [(955, true), (1408, true), (942, false)] {
        let run = EnsureRun::new(vec![create_index_if_missing("IX", "CREATE INDEX IX ON T (A)")]);
        let run = run.step::<String>(Reply::Count(Ok(0)));
        assert_eq!(sql_of(run.request()), "CREATE INDEX IX ON T (A)");
        let run = run.step::<String>(Reply::Executed(Err(ora(code))));
        if tolerated {
            assert!(run.is_done());
        } else {
            assert!(matches!(
                run.request::<String>(),
                Request::Failed("Oracle error (code 942): boom")
            ));
        }
    }
}

#[test]
fn a_table_that_turns_up_meanwhile_is_an_error() {
    let run = init_agent_runtime_schema();
    let run = run.step::<String>(Reply::Count(Ok(0)));
    let run = run.step::<String>(Reply::Executed(Err(ora(955))));
    assert!(matches!(run.request::<String>(), Request::Failed("Oracle error (code 955): boom")));
}

#[test]
fn failing_probe_is_an_error() {
    let run = init_agent_runtime_schema();
    let err = OracleError { db_error: None, text: "closed".to_string() };
    let run = run.step::<String>(Reply::Count(Err(err)));
    assert!(matches!(run.request::<String>(), Request::Failed("closed")));
}

#[test]
fn history_index_is_created_as_far_as_it_succeeds() {
    let run = ensure_migrations_table();
    assert_eq!(
        sql_of(run.request()),
        "SELECT COUNT(*) FROM user_tables WHERE table_name = 'MIGRATIONS_HISTORY'"
    );
    let run = run.step::<String>(Reply::Count(Ok(0)));
    assert_eq!(sql_of(run.request()), HISTORY_DDL);
    let run = run.step::<String>(Reply::Executed(Ok(())));
    assert_eq!(sql_of(run.request()), HISTORY_INDEX_DDL);
    let run = run.step::<String>(Reply::Executed(Err(ora(942))));
    assert!(run.is_done());
}

#[test]
fn history_table_is_left_alone_where_it_is() {
    assert!(ensure_migrations_table().step::<String>(Reply::Count(Ok(1))).is_done());
    assert!(ensure_migrations_table().step::<String>(Reply::Count(Ok(-1))).is_done());
}

#[test]
fn applied_migrations_are_passed_over() {
    let run = MigrationRun::new(vec![versioned(1, "V1__x.sql"), repeatable("R__x.sql", 3)], None);
    assert!(matches!(run.request(), Request::Count(_)));
    let run = run.step_at(Reply::Count(Ok(1)), NOW);
    assert!(matches!(run.request(), Request::FirstColumn(_)));
    let run = run.step_at(Reply::FirstColumn(Ok(Some(Some(3)))), NOW);
    assert!(matches!(run.request(), Request::Done));
}

#[test]
fn new_migrations_are_executed_and_recorded() {
    let mut p = Placeholders::new();
    p.insert("t".to_string(), "T".to_string());
    let run = MigrationRun::new(vec![versioned(1, "V1__x.sql"), repeatable("R__x.sql", 3)], Some(p));
    let run = run.step_at(Reply::Count(Ok(0)), NOW);
    assert!(matches!(run.request(), Request::ReadText(path) if path == "/sql/V1__x.sql"));
    let run = run.step_at(Reply::Text(Ok("CREATE ${t}\n/\nDROP ${t}\n/\n".to_string())), NOW);
    assert_eq!(sql_of(run.request()), "CREATE T");
    let run = run.step_at(Reply::Executed(Ok(())), NOW);
    assert_eq!(sql_of(run.request()), "DROP T");
    let run = run.step_at(Reply::Executed(Ok(())), NOW);
    assert!(matches!(
        run.request(),
        Request::Execute(call) if matches!(
            &call.binds[..],
            [Bind::Text(name), Bind::Int(1), Bind::Int(7), Bind::Time(now)]
                if name == "V1__x.sql" && *now == NOW
        )
    ));
    let run = run.step_at(Reply::Executed(Ok(())), NOW);
    assert!(matches!(run.request(), Request::Commit));
    let run = run.step_at(Reply::Committed(Ok(())), NOW);
    let run = run.step_at(Reply::FirstColumn(Ok(Some(Some(4)))), NOW);
    let run = run.step_at(Reply::Text(Ok(" \n".to_string())), NOW);
    assert!(sql_of(run.request()).starts_with("DELETE FROM MIGRATIONS_HISTORY"));
    let run = run.step_at(Reply::Executed(Err(ora(1))), NOW);
    assert!(sql_of(run.request()).starts_with("INSERT INTO MIGRATIONS_HISTORY"));
    let run = run.step_at(Reply::Executed(Ok(())), NOW);
    assert!(matches!(run.request(), Request::Commit));
    let run = run.step_at(Reply::Committed(Ok(())), NOW);
    assert!(matches!(run.request(), Request::Done));
}

#[test]
fn records_are_stamped_by_the_clock() {
    let run = MigrationRun::new(vec![versioned(1, "V1__x.sql")], None);
    let run = run.step(Reply::Count(Ok(0)));
    let run = run.step(Reply::Text(Ok(String::new())));
    match run.request() {
        Request::Execute(call) => match call.binds[3] {
            Bind::Time(t) => {
                assert!(t.secs > 1_600_000_000);
                assert!(t.nanos < 1_000_000_000);
            }
            _ => panic!("no time"),
        },
        _ => panic!("no record"),
    }
}

#[test]
fn failures_end_a_run_of_migrations() {
    let new = || MigrationRun::new(vec![versioned(1, "V1__x.sql"), versioned(2, "V2__x.sql")], None);
    let run = new().step_at(Reply::Count(Err(ora(942))), NOW);
    assert!(matches!(run.request(), Request::Failed("Oracle error (code 942): boom")));
    let run = new().step_at(Reply::Count(Ok(0)), NOW);
    let run = run.step_at(
        Reply::Text(Err(FileFault { path: "\"p\"".to_string(), error: "denied".to_string() })),
        NOW,
    );
    assert!(matches!(run.request(), Request::Failed("failed to read \"p\": denied")));
    let run = new().step_at(Reply::Count(Ok(0)), NOW);
    let run = run.step_at(Reply::Text(Ok("A\n/\nB".to_string())), NOW);
    let run = run.step_at(Reply::Executed(Err(ora(900))), NOW);
    assert!(matches!(run.request(), Request::Failed("Oracle error (code 900): boom")));
    let run = new().step_at(Reply::Count(Ok(0)), NOW);
    let run = run.step_at(Reply::Text(Ok(String::new())), NOW);
    let run = run.step_at(Reply::Executed(Err(ora(1))), NOW);
    assert!(matches!(run.request(), Request::Failed("Oracle error (code 1): boom")));
    let run = new().step_at(Reply::Count(Ok(0)), NOW);
    let run = run.step_at(Reply::Text(Ok(String::new())), NOW);
    let run = run.step_at(Reply::Executed(Ok(())), NOW);
    let run = run.step_at(Reply::Committed(Err(ora(2091))), NOW);
    assert!(matches!(run.request(), Request::Failed("Oracle error (code 2091): boom")));
    let run = MigrationRun::new(vec![repeatable("R__x.sql", 1)], None)
        .step_at(Reply::FirstColumn(Err(ora(942))), NOW);
    assert!(matches!(run.request(), Request::Failed("Oracle error (code 942): boom")));
}

#[test]
fn files_become_plain_statements() {
    let calls = apply_sql_file("A\n/\n\n/\nB ${x}", &None);
    let sql: Vec<&str> = calls.iter().map(|c| c.sql.as_str()).collect();
    assert_eq!(sql, vec!["A", "B ${x}"]);
    assert!(calls.iter().all(|c| c.binds.is_empty()));
}

/// A database with a history table that keeps what is committed.
#[derive(Default)]
struct Database {
    table: bool,
    rows: Vec<(String, i64)>,
    pending: Vec<(String, i64)>,
    executed: Vec<String>,
}

impl Database {
    fn name_of(call: &SqlCall) -> String {
        match &call.binds[0] {
            Bind::Text(name) => name.clone(),
            _ => panic!("no name"),
        }
    }

    fn execute(&mut self, call: &SqlCall) {
        self.executed.push(call.sql.clone());
        if call.sql == HISTORY_DDL {
            self.table = true;
        } else if call.sql.starts_with("INSERT INTO MIGRATIONS_HISTORY") {
            let ints = call.binds.iter().filter_map(|b| match b {
                Bind::Int(n) => Some(*n),
                _ => None,
            });
            self.pending.push((Self::name_of(call), ints.last().unwrap()));
        }
    }

    fn run(&mut self, mut script: SchemaScript<String>) {
        self.executed.clear();
        self.pending.clear();
        loop {
            let reply = match script.request() {
                Request::Count(call) if call.binds.is_empty() => {
                    Reply::Count(Ok(self.table as i64))
                }
                Request::Count(call) => {
                    let name = Self::name_of(call);
                    Reply::Count(Ok(self.rows.iter().filter(|r| r.0 == name).count() as i64))
                }
                Request::FirstColumn(call) => {
                    let name = Self::name_of(call);
                    let row = self.rows.iter().find(|r| r.0 == name);
                    Reply::FirstColumn(Ok(row.map(|r| Some(r.1))))
                }
                Request::Execute(call) => {
                    self.execute(call);
                    Reply::Executed(Ok(()))
                }
                Request::Commit => {
                    self.rows.append(&mut self.pending);
                    Reply::Committed(Ok(()))
                }
                Request::ListDir(dir) => {
                    assert_eq!(dir, "/sql");
                    Reply::Listing(Listing::Entries(vec![
                        entry("R__view.sql"),
                        entry("V10__b.sql"),
                        entry("notes.txt"),
                        entry("V9__a.sql"),
                    ]))
                }
                Request::ReadBytes(path) => Reply::Bytes(Ok(path.clone().into_bytes())),
                Request::ReadText(path) => Reply::Text(Ok(path.clone())),
                Request::Done => break,
                Request::Failed(e) => panic!("{e}"),
            };
            script = script.step_at(reply, NOW);
        }
    }
}

#[test]
fn empty_database_gets_all_migrations_of_a_directory() {
    let mut db = Database::default();
    db.run(SchemaScript::filesystem("/sql".to_string(), None));
    let inserts = |sql: &String| sql.starts_with("INSERT");
    assert_eq!(db.executed.len(), 9);
    assert_eq!(db.executed[0], HISTORY_DDL);
    assert_eq!(db.executed[1], HISTORY_INDEX_DDL);
    assert_eq!(db.executed[2], "/sql/V9__a.sql");
    assert!(inserts(&db.executed[3]));
    assert_eq!(db.executed[4], "/sql/V10__b.sql");
    assert!(inserts(&db.executed[5]));
    assert_eq!(db.executed[6], "/sql/R__view.sql");
    assert!(db.executed[7].starts_with("DELETE"));
    assert!(inserts(&db.executed[8]));
    assert!(db.pending.is_empty());
}

#[test]
fn second_call_over_an_unchanged_directory_does_nothing() {
    let mut db = Database::default();
    db.run(SchemaScript::filesystem("/sql".to_string(), None));
    let rows = db.rows.clone();
    assert_eq!(rows.len(), 3);
    db.run(SchemaScript::filesystem("/sql".to_string(), None));
    assert!(db.executed.is_empty());
    db.run(SchemaScript::apply_migrations_from_dir("/sql".to_string(), None));
    assert!(db.executed.is_empty());
    assert_eq!(db.rows, rows);
}

#[test]
fn scripts_without_work_are_done() {
    assert!(matches!(SchemaScript::<String>::nothing().request(), Request::Done));
    let script = SchemaScript::<String>::apply_migrations_from_dir("/sql".to_string(), None);
    let script = script.step(Reply::Listing(Listing::Entries(Vec::new())));
    assert!(matches!(script.request(), Request::Done));
}

#[test]
fn plan_does_not_depend_on_the_order_of_the_listing() {
    let files = || {
        vec![
            versioned(3, "V3__x.sql"),
            repeatable("R__b.sql", 1),
            versioned(1, "V1__x.sql"),
            repeatable("R__a.sql", 1),
            versioned(2, "V2__x.sql"),
        ]
    };
    let names = |plan: Vec<MigrationFile<String>>| -> Vec<String> {
        plan.into_iter().map(|m| m.name).collect()
    };
    let mut reversed = files();
    reversed.reverse();
    let plan = names(plan_migrations(files()));
    assert_eq!(plan, names(plan_migrations(reversed)));
    assert_eq!(plan, vec!["V1__x.sql", "V2__x.sql", "V3__x.sql", "R__a.sql", "R__b.sql"]);
}
