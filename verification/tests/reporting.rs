use mongobar::capture::{fingerprint, get_db_coll, hex, row_from_profile};
use mongobar::indicator::{Indicator, Metric};
use mongobar::json::Json;
use mongobar::mongobar::{write_lines, Build, ExecPlan, Mongobar, MongobarConfig, OpState};
use mongobar::dispatch::OpRunMode;
use mongobar::monitor::print_indicator;
use mongobar::op_logs::OpReadMode;
use mongobar::op_row::Op;
use mongobar::report::{fixed2_text, percent_text, report_csv, row_fields};
use mongobar::signal::Signal;
use mongobar::ind_keys;

fn parse(text: &str) -> Json {
    Json::parse(text).unwrap()
}

fn config() -> MongobarConfig {
    MongobarConfig {
        uri: "mongodb://localhost:27017".to_string(),
        db: "app".to_string(),
        loop_count: 2,
        thread_count: 8,
        rebuild: None,
    }
}

#[test]
fn two_decimal_places() {
    assert_eq!(fixed2_text(0, 1), "0.00");
    assert_eq!(fixed2_text(1, 3), "0.33");
    assert_eq!(fixed2_text(2, 3), "0.67");
    assert_eq!(fixed2_text(1, 8), "0.13");
    assert_eq!(fixed2_text(36, 4), "9.00");
    assert_eq!(fixed2_text(1999, 1000), "2.00");
    assert_eq!(fixed2_text(1234, 1000), "1.23");
    assert_eq!(fixed2_text(7, 0), "inf");
    assert_eq!(fixed2_text(0, 0), "NaN");
    assert_eq!(fixed2_text(3, 8), "0.38");
    assert_eq!(fixed2_text(1, 200), "0.01");
    assert_eq!(fixed2_text(1, 201), "0.00");
    assert_eq!(fixed2_text(usize::MAX, 1), format!("{}.00", usize::MAX));
    assert_eq!(percent_text(1, 3), "33.33");
    assert_eq!(percent_text(3, 3), "100.00");
    assert_eq!(percent_text(0, 0), "NaN");
    assert_eq!(percent_text(5, 0), "inf");
    assert_eq!(percent_text(usize::MAX, usize::MAX), "100.00");
}

#[test]
fn report_has_a_header_and_a_row_for_each_key() {
    let mut m = Metric::new();
    m.map_add("Find:a,b", 10, "{\"find\":\"c\"}");
    m.map_add("Count:", 3, "plain");
    m.map_add("Find:a,b", 5, "second, with \"quotes\"");
    assert_eq!(
        row_fields(&m.map_get("Find:a,b").unwrap()),
        vec![
            "Find:a,b",
            "7.50",
            "9.00",
            "2",
            "{\"find\":\"c\"}|second, with \"quotes\""
        ]
    );
    assert_eq!(
        report_csv(&m),
        "Key,AvgCost(ms),MidCost(ms),Count,Eg\n\
         \"Find:a,b\",7.50,9.00,2,\"{\"\"find\"\":\"\"c\"\"}|second, with \"\"quotes\"\"\"\n\
         Count:,3.00,3.00,1,plain\n"
    );
    assert_eq!(report_csv(&Metric::new()), "Key,AvgCost(ms),MidCost(ms),Count,Eg\n");
}

#[test]
fn fingerprint_is_the_sha3_of_the_payload_text() {
    assert_eq!(
        fingerprint(&Json::Null),
        "3ea445410f608e6453cdcb7dbe42d57a89aca018993d7e87da85993cbccc6308"
    );
    assert_eq!(
        fingerprint(&Json::Str(String::new())),
        "2891e375028730be57095e98096bb8af42ef027e46e427478b7ca7d1332bd85f"
    );
    let id = fingerprint(&parse("{ \"find\" : \"c\" }"));
    assert_eq!(
        id,
        "7b165decd5bff74d4efaed3b6f7e72a989351ca8a7f1af80b3984ae3cc422f8b"
    );
    assert_ne!(id, fingerprint(&parse("{\"find\":\"d\"}")));
}

#[test]
fn namespaces_split_at_the_first_dot() {
    assert_eq!(get_db_coll("db.coll"), ("db".to_string(), "coll".to_string()));
    assert_eq!(
        get_db_coll("db.system.views"),
        ("db".to_string(), "system.views".to_string())
    );
    assert_eq!(get_db_coll("nodot"), ("nodot".to_string(), String::new()));
    assert_eq!(get_db_coll(""), (String::new(), String::new()));
    assert_eq!(get_db_coll(".x"), (String::new(), "x".to_string()));
    assert_eq!(get_db_coll("x."), ("x".to_string(), String::new()));
    assert_eq!(get_db_coll("dé.cö"), ("dé".to_string(), "cö".to_string()));
}

#[test]
fn profile_entries_become_records() {
    let query = parse(
        "{\"ns\":\"app.users\",\"op\":\"query\",\"queryHash\":\"AB\",\"command\":{\"find\":\"users\",\"filter\":{\"a\":1},\"$db\":\"app\"}}",
    );
    let row = row_from_profile(&query, 1700).unwrap();
    assert_eq!(row.op, Op::Find);
    assert_eq!(row.db, "app");
    assert_eq!(row.coll, "users");
    assert_eq!(row.ns, "app.users");
    assert_eq!(row.ts, 1700);
    assert_eq!(row.cmd, parse("{\"find\":\"users\",\"filter\":{\"a\":1},\"$db\":\"app\"}"));
    assert_eq!(row.id, fingerprint(&row.cmd));
    assert_eq!(row.args, Json::Object(vec![]));

    let kinds = [
        ("insert", "{\"insert\":\"users\",\"documents\":[],\"$db\":\"app\"}", Op::Insert),
        ("update", "{\"q\":{},\"u\":{}}", Op::Update),
        ("remove", "{\"q\":{}}", Op::Delete),
        ("command", "{\"aggregate\":\"users\",\"pipeline\":[]}", Op::Aggregate),
        ("command", "{\"ping\":1}", Op::Command),
        ("aggregate", "{\"pipeline\":[]}", Op::Aggregate),
        ("getmore", "{\"getMore\":1}", Op::GetMore),
        ("findAndModify", "{\"query\":{}}", Op::FindAndModify),
    ];
    for (op, cmd, kind) in kinds {
        let entry = Json::Object(vec![
            ("ns".to_string(), Json::Str("app.users".to_string())),
            ("op".to_string(), Json::Str(op.to_string())),
            ("command".to_string(), parse(cmd)),
        ]);
        let row = row_from_profile(&entry, 5).unwrap();
        assert_eq!(row.op, kind);
        assert_eq!((row.db.as_str(), row.coll.as_str()), ("app", "users"));
    }
}

#[test]
fn profile_entries_that_give_no_record() {
    let cases = [
        "{\"op\":\"query\",\"command\":{}}",
        "{\"ns\":\"a.b\",\"command\":{}}",
        "{\"ns\":\"a.b\",\"op\":\"query\"}",
        "{\"ns\":\"a.b\",\"op\":\"query\",\"command\":7}",
        "{\"ns\":\"a.system.profile\",\"op\":\"getmore\",\"command\":{}}",
        "{\"ns\":\"a.b\",\"op\":\"query\",\"command\":{\"find\":\"b\",\"$db\":\"a\"}}",
        "{\"ns\":\"a.b\",\"op\":\"query\",\"queryHash\":\"X\",\"command\":{\"find\":\"b\"}}",
        "{\"ns\":\"a.b\",\"op\":\"insert\",\"command\":{\"insert\":\"b\",\"$db\":\"a\"}}",
        "{\"ns\":\"a.b\",\"op\":\"update\",\"command\":{\"q\":{},\"u\":[]}}",
        "{\"ns\":\"a.b\",\"op\":\"remove\",\"command\":{}}",
        "{\"ns\":\"a.b\",\"op\":\"command\",\"command\":{\"aggregate\":\"b\"}}",
        "{\"ns\":\"a.b\",\"op\":\"aggregate\",\"command\":{\"pipeline\":{}}}",
    ];
    for case in cases {
        assert_eq!(row_from_profile(&parse(case), 0), None, "{}", case);
    }
    let other = row_from_profile(&parse("{\"ns\":\"a.b\",\"op\":\"killcursors\",\"command\":{}}"), 9)
        .unwrap();
    assert_eq!(other.op, Op::Noop);
    assert_eq!(other.id, "");
    assert_eq!(other.ns, "");
    assert_eq!(other.ts, 0);
    assert_eq!(other.cmd, Json::Null);
}

#[test]
fn a_run_knows_its_files() {
    let m = Mongobar::new("/work", "shop", config());
    assert_eq!(m.dir, "/work/.mongobar");
    assert_eq!(m.cwd(), "/work/.mongobar/shop");
    assert_eq!(m.op_workdir, "/work/.mongobar/shop");
    assert_eq!(m.op_file_oplogs, "/work/.mongobar/shop/oplogs.op");
    assert_eq!(m.op_file_revert, "/work/.mongobar/shop/revert.op");
    assert_eq!(m.op_file_resume, "/work/.mongobar/shop/resume.op");
    assert_eq!(m.op_file_data, "/work/.mongobar/shop/data.op");
    assert_eq!(m.op_state_file, "/work/.mongobar/shop/state.json");
    assert_eq!(m.report_file(), "/work/.mongobar/shop/query_stats.csv");
    assert_eq!(m.save_as("/out", false, false), Ok("/out/shop.op".to_string()));
    assert_eq!(m.save_as("/out", true, true), Ok("/out/shop.op".to_string()));
    assert_eq!(m.save_as("/out", true, false), Ok("/out/shop.op".to_string()));
    assert_eq!(
        m.save_as("/out", false, true),
        Err("file /out/shop.op already exists, use --force to overwrite".to_string())
    );
    assert_eq!(m.config, config());
    assert_eq!(m.signal.get(), 0);
    assert!(m.ignore_field.is_empty());
    assert!(m.indicator.metric.is_empty());
}

#[test]
fn merges_take_only_what_is_given() {
    let m = Mongobar::new("/w", "n", config())
        .merge_config_uri(None)
        .merge_config_db(None)
        .merge_config_loop_count(None)
        .merge_config_thread_count(None);
    assert_eq!(m.config, config());
    let mut signal = Signal::new();
    signal.set(1);
    let m = m
        .merge_config_uri(Some("mongodb://other".to_string()))
        .merge_config_db(Some("d2".to_string()))
        .merge_config_loop_count(Some(0))
        .merge_config_thread_count(Some(70_000))
        .merge_config_rebuild(Some(true))
        .set_ignore_field(vec!["comment".to_string()])
        .set_signal(signal)
        .set_indicator(Indicator::new().init(vec!["logs".to_string()], "n".to_string()));
    assert_eq!(
        m.config,
        MongobarConfig {
            uri: "mongodb://other".to_string(),
            db: "d2".to_string(),
            loop_count: 0,
            thread_count: 70_000,
            rebuild: Some(true),
        }
    );
    assert_eq!(m.ignore_field, vec!["comment"]);
    assert_eq!(m.signal.get(), 1);
    assert_eq!(m.indicator.metric.len(), 1);
    assert_eq!(m.name, "n");
    let cut = m.merge_config_thread_count(Some(usize::MAX));
    assert_eq!(cut.config.thread_count, u32::MAX);
}

#[test]
fn plans_of_the_commands() {
    let m = Mongobar::new("/w", "n", config());
    assert_eq!(
        m.op_stress(Some("users".to_string()), true),
        ExecPlan {
            exec_file: "/w/.mongobar/n/oplogs.op".to_string(),
            thread_count: 8,
            loop_count: 2,
            mode: OpReadMode::FullLine(Some("users".to_string())),
            run_mode: OpRunMode::Readonly,
        }
    );
    assert_eq!(m.op_stress(None, false).run_mode, OpRunMode::ReadWrite);
    assert_eq!(
        m.op_run_revert(),
        ExecPlan {
            exec_file: "/w/.mongobar/n/revert.op".to_string(),
            thread_count: 8,
            loop_count: 1,
            mode: OpReadMode::ReadLine(false),
            run_mode: OpRunMode::ReadWrite,
        }
    );
    assert_eq!(
        m.op_import(),
        ExecPlan {
            exec_file: "/w/.mongobar/n/data.op".to_string(),
            thread_count: 1,
            loop_count: 1,
            mode: OpReadMode::StreamLine,
            run_mode: OpRunMode::ReadWrite,
        }
    );
    assert!(m.builds_revert(false));
    assert!(!m.builds_revert(true));
    assert!(m.builds_resume(false));
    assert!(!m.builds_resume(true));
    let rebuilding = Mongobar::new("/w", "n", config()).merge_config_rebuild(Some(true));
    assert!(rebuilding.builds_resume(true));
    let not_rebuilding = Mongobar::new("/w", "n", config()).merge_config_rebuild(Some(false));
    assert!(!not_rebuilding.builds_resume(true));
}

#[test]
fn replay_and_resume_need_the_log_to_restore_from() {
    let m = Mongobar::new("/w", "n", config());
    let mut ind = Indicator::new().init(ind_keys(), "n".to_string());
    assert_eq!(m.op_replay(&mut ind, false), None);
    assert_eq!(
        ind.consumers("logs"),
        vec!["OPReplay op_file_resume not exists, please run ui [Replay]->[Revert] first"]
    );
    assert_eq!(
        m.op_replay(&mut ind, true),
        Some(ExecPlan {
            exec_file: "/w/.mongobar/n/oplogs.op".to_string(),
            thread_count: 8,
            loop_count: 1,
            mode: OpReadMode::ReadLine(false),
            run_mode: OpRunMode::ReadWrite,
        })
    );
    assert_eq!(
        ind.take("logs").unwrap().logs(),
        vec![
            "OPReplay op_exec revert.op done",
            "OPReplay op_exec oplogs.op running..."
        ]
    );
    Mongobar::replay_done(&mut ind, 12_345);
    assert_eq!(
        ind.consumers("logs"),
        vec![
            "OPReplay op_exec revert.op done",
            "OPReplay op_exec oplogs.op done run(12.35s)"
        ]
    );
    assert_eq!(m.op_run_resume(&mut ind, false), None);
    assert_eq!(
        ind.consumers("logs"),
        vec!["OPReplay op_file_resume not exists"]
    );
    assert_eq!(
        m.op_run_resume(&mut ind, true),
        Some(ExecPlan {
            exec_file: "/w/.mongobar/n/resume.op".to_string(),
            thread_count: 8,
            loop_count: 1,
            mode: OpReadMode::StreamLine,
            run_mode: OpRunMode::ReadWrite,
        })
    );
    assert!(ind.consumers("logs").is_empty());
}

#[test]
fn the_console_waits_for_the_workers_and_then_shows_the_state() {
    let mut ind = Indicator::new().init(ind_keys(), "n".to_string());
    ind.set("thread_count", 4);
    ind.set("boot_worker", 3);
    ind.push("logs", "kept".to_string());
    let p = print_indicator(&mut ind, 0, 1700000000);
    assert_eq!(p.lines, vec!["IND [1700000000] wait for boot 3/4."]);
    assert_eq!(p.query_count, 0);
    assert_eq!(ind.take("logs").unwrap().logs(), vec!["kept"]);

    ind.set("boot_worker", 4);
    ind.set("query_count", 150);
    ind.set("cost_ms", 400);
    ind.set("progress", 160);
    ind.set("progress_total", 480);
    let p = print_indicator(&mut ind, 100, 1700000001);
    assert_eq!(
        p.lines,
        vec![
            "kept",
            "IND [1700000001] count: 50/s cost: 2.67ms progress: 33.33% 160/480"
        ]
    );
    assert_eq!(p.query_count, 150);
    assert!(ind.take("logs").unwrap().logs().is_empty());

    ind.set("progress_total", 0);
    ind.set("query_count", 0);
    let p = print_indicator(&mut ind, 0, 3);
    assert_eq!(
        p.lines,
        vec!["IND [3] count: 0/s cost: infms progress: inf% 160/0"]
    );
}

#[test]
fn op_revert_turns_the_text_of_a_log_into_the_text_that_undoes_it() {
    let m = Mongobar::new("/w", "n", config()).set_ignore_field(vec!["note".to_string()]);
    let content = "{\"id\":\"a\",\"op\":\"Insert\",\"db\":\"d\",\"coll\":\"c\",\"ts\":5,\"cmd\":{\"insert\":\"c\",\"documents\":[{\"_id\":1},{\"_id\":2}]}}\n\
broken\n\
{\"id\":\"f\",\"op\":\"Find\",\"cmd\":{}}\n\
{\"id\":\"b\",\"op\":\"Insert\",\"db\":\"d\",\"coll\":\"c\",\"cmd\":{\"documents\":[{\"_id\":3}]}}\n";
    assert_eq!(
        m.op_revert(content),
        "{\"id\":\"b\",\"op\":\"Delete\",\"db\":\"d\",\"coll\":\"c\",\"ns\":\"d.c\",\"ts\":0,\"cmd\":{\"deletes\":[{\"q\":{\"_id\":{\"$in\":[3]}},\"limit\":0}]},\"args\":{},\"key\":\"\",\"hash\":\"\"}\n\
{\"id\":\"a\",\"op\":\"Delete\",\"db\":\"d\",\"coll\":\"c\",\"ns\":\"d.c\",\"ts\":5,\"cmd\":{\"deletes\":[{\"q\":{\"_id\":{\"$in\":[1,2]}},\"limit\":0}]},\"args\":{},\"key\":\"\",\"hash\":\"\"}\n"
    );
    assert_eq!(m.op_revert(""), "");
    assert!(write_lines(&vec![]).is_empty());
}

#[test]
fn revert_run_lines() {
    let mut ind = Indicator::new().init(ind_keys(), "n".to_string());
    Mongobar::revert_built(&mut ind, 1500);
    assert_eq!(
        ind.take("logs").unwrap().logs(),
        vec![
            "OPReplay op_exec revert.op waiting... build(1.50s)",
            "OPReplay op_exec resume.op building..."
        ]
    );
    Mongobar::resume_built(&mut ind, 20);
    Mongobar::revert_done(&mut ind, 1500, 62_004);
    assert_eq!(
        ind.consumers("logs"),
        vec![
            "OPReplay op_exec revert.op done  build(1.50s) run(62.00s)",
            "OPReplay op_exec resume.op waiting... build(0.02s)"
        ]
    );
}

#[test]
fn op_resume_keeps_a_log_that_is_there_unless_told_to_rebuild() {
    let mut ind = Indicator::new().init(ind_keys(), "n".to_string());
    let m = Mongobar::new("/w", "n", config());
    assert_eq!(m.op_resume(&mut ind, false, 9), Build::Fresh);
    assert!(ind.consumers("logs").is_empty());
    assert_eq!(m.op_resume(&mut ind, true, 9), Build::Skip);
    assert_eq!(
        ind.consumers("logs"),
        vec!["OPResume [9] [/w/.mongobar/n/resume.op] file exists"]
    );
    let m = m.merge_config_rebuild(Some(true));
    assert_eq!(m.op_resume(&mut ind, true, 9), Build::Replace);
    assert_eq!(m.op_resume(&mut ind, false, 9), Build::Fresh);
    assert!(ind.consumers("logs").is_empty());
}

#[test]
fn op_pull_asks_for_the_entries_of_the_window() {
    let m = Mongobar::new("/w", "n", config());
    assert_eq!(
        m.op_pull(1000, 2000),
        parse("{\"ns\":{\"$ne\":\"app.system.profile\"},\"ts\":{\"$gte\":{\"$date\":1000},\"$lt\":{\"$date\":2000}}}")
    );
}

#[test]
fn report_of_a_run() {
    let mut ind = Indicator::new().init(ind_keys(), "n".to_string());
    ind.map_add("query_stats", "Find:a", 4, "eg");
    let m = Mongobar::new("/w", "n", config());
    let (path, csv) = m.report(&mut ind);
    assert_eq!(path, "/w/.mongobar/n/query_stats.csv");
    assert_eq!(csv, "Key,AvgCost(ms),MidCost(ms),Count,Eg\nFind:a,4.00,4.00,1,eg\n");
    assert_eq!(
        ind.consumers("logs"),
        vec!["Build Report \"/w/.mongobar/n/query_stats.csv\"."]
    );
}

#[test]
fn state_is_saved_and_loaded() {
    let m = Mongobar::new("/w", "n", config());
    assert_eq!(
        m.save_state(),
        "{\"stress_index\":0,\"stress_start_ts\":0,\"stress_end_ts\":0,\"record_start_ts\":0,\"record_end_ts\":0}"
    );
    let m = m
        .load_state("{\"stress_index\":3,\"record_start_ts\":-7,\"record_end_ts\":1700000000123}")
        .unwrap();
    assert_eq!(
        m.op_state,
        OpState {
            stress_index: 3,
            stress_start_ts: 0,
            stress_end_ts: 0,
            record_start_ts: -7,
            record_end_ts: 1700000000123,
        }
    );
    let text = m.save_state();
    let again = Mongobar::new("/w", "n", config()).load_state(&text).unwrap();
    assert_eq!(again.op_state, m.op_state);
    assert_eq!(again.name, "n");
    assert!(Mongobar::new("/w", "n", config()).load_state("").is_none());
    assert!(Mongobar::new("/w", "n", config()).load_state("[]").is_none());
    assert!(Mongobar::new("/w", "n", config())
        .load_state("{\"stress_index\":\"3\"}")
        .is_none());
}

#[test]
fn the_report_has_one_row_for_each_key() {
    let mut m = Metric::new();
    for (key, cost) in [("b", 1), ("a", 2), ("b", 3), ("c", 4), ("a", 6)] {
        m.map_add(key, cost, "e");
    }
    assert_eq!(m.map_keys(), vec!["b", "a", "c"]);
    // The report read off the map: for each key the row of what is held under it.
    let mut by_key = String::from("Key,AvgCost(ms),MidCost(ms),Count,Eg\n");
    for key in m.map_keys() {
        let stat = m.map_get(&key).unwrap();
        by_key.push_str(&row_fields(&stat).join(","));
        by_key.push('\n');
    }
    assert_eq!(report_csv(&m), by_key);
    assert_eq!(
        report_csv(&m),
        "Key,AvgCost(ms),MidCost(ms),Count,Eg\nb,2.00,2.00,2,e|e\na,4.00,3.00,2,e|e\nc,4.00,4.00,1,e\n"
    );
}

#[test]
fn bytes_in_hexadecimal_digits() {
    assert_eq!(hex(&vec![]), "");
    assert_eq!(hex(&vec![0x00, 0x0f, 0xa5, 0xff, 0x10, 0x9c]), "000fa5ff109c");
    let all: Vec<u8> = (0..=255).collect();
    let expected: String = all.iter().map(|b| format!("{:02x}", b)).collect();
    assert_eq!(hex(&all), expected);
}
