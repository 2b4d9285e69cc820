use onetcli::execution::{
    is_search_path_statement, ExecOptions, ProgressMeasure, RunAction, StreamAction, RunEvent, RunPhase, ScriptRun, SqlResult,
    TransactionError,
};

fn statements(list: &[&str]) -> Vec<String> {
    list.iter().map(|s| s.to_string()).collect()
}

fn one_row() -> RunEvent {
    RunEvent::Queried {
        columns: vec!["x".to_string()],
        column_meta: vec![],
        rows: vec![vec![Some("1".to_string())]],
        elapsed_ms: 2,
    }
}

/// Plays a run against a fake server that refuses statements containing "bad".
fn play(run: &mut ScriptRun) -> Vec<String> {
    let mut log = Vec::new();
    for _ in 0..100 {
        let action = run.action();
        let event = match &action {
            RunAction::BeginTransaction => { log.push("BEGIN".to_string()); RunEvent::Begun }
            RunAction::Prepare(s) => {
                log.push(format!("PREPARE {}", s));
                if s.contains("bad") { RunEvent::Failed("syntax error".to_string()) }
                else { RunEvent::Prepared { has_columns: s.starts_with("SELECT") } }
            }
            RunAction::SetSearchPath(s) => { log.push(format!("DIRECT {}", s)); RunEvent::Executed { rows_affected: 0, elapsed_ms: 1, message: None } }
            RunAction::Execute(s) => { log.push(format!("EXECUTE {}", s)); RunEvent::Executed { rows_affected: 3, elapsed_ms: 1, message: None } }
            RunAction::Query(s) => { log.push(format!("QUERY {}", s)); one_row() }
            RunAction::Commit => { log.push("COMMIT".to_string()); RunEvent::Committed }
            RunAction::Rollback => { log.push("ROLLBACK".to_string()); RunEvent::RolledBack }
            RunAction::Finished => break,
        };
        run.step(event);
    }
    log
}

#[test]
fn transaction_commits_when_all_succeed() {
    let mut run = ScriptRun::new(statements(&["SELECT 1", "UPDATE t SET a = 1"]), ExecOptions { transactional: true, stop_on_error: false, streaming: false });
    let log = play(&mut run);
    assert_eq!(log, vec!["BEGIN", "PREPARE SELECT 1", "QUERY SELECT 1", "PREPARE UPDATE t SET a = 1", "EXECUTE UPDATE t SET a = 1", "COMMIT"]);
    assert_eq!(run.progress(), (2, 2));
    let results = run.finish().unwrap();
    assert_eq!(results.len(), 2);
    assert!(matches!(results[0], SqlResult::Query(ref q) if q.sql == "SELECT 1" && q.rows.len() == 1 && q.elapsed_ms == 2));
    assert!(matches!(results[1], SqlResult::Exec(ref e) if e.rows_affected == 3 && e.sql == "UPDATE t SET a = 1"));
}

#[test]
fn transaction_rolls_back_at_first_error() {
    let mut run = ScriptRun::new(statements(&["UPDATE a", "bad one", "UPDATE b"]), ExecOptions { transactional: true, stop_on_error: false, streaming: false });
    let log = play(&mut run);
    assert_eq!(log, vec!["BEGIN", "PREPARE UPDATE a", "EXECUTE UPDATE a", "PREPARE bad one", "ROLLBACK"]);
    let results = run.finish().unwrap();
    assert_eq!(results.len(), 2);
    assert!(results[1].is_error());
}

#[test]
fn without_transaction_errors_are_collected() {
    let mut run = ScriptRun::new(statements(&["bad 1", "SET search_path TO x", "UPDATE b"]), ExecOptions { transactional: false, stop_on_error: false, streaming: false });
    let log = play(&mut run);
    assert_eq!(log, vec!["PREPARE bad 1", "DIRECT SET search_path TO x", "PREPARE UPDATE b", "EXECUTE UPDATE b"]);
    let results = run.finish().unwrap();
    assert_eq!(results.len(), 3);
    assert!(results[0].is_error());
    assert!(matches!(results[1], SqlResult::Exec(ref e) if e.message.as_deref() == Some("Search path changed")));
}

#[test]
fn stop_on_error_stops() {
    let mut run = ScriptRun::new(statements(&["UPDATE a", "bad", "UPDATE b"]), ExecOptions { transactional: false, stop_on_error: true, streaming: false });
    let _ = play(&mut run);
    assert_eq!(run.phase(), RunPhase::Done);
    assert_eq!(run.finish().unwrap().len(), 2);
}

#[test]
fn failed_begin_fails_the_run() {
    let mut run = ScriptRun::new(statements(&["UPDATE a"]), ExecOptions { transactional: true, stop_on_error: false, streaming: false });
    run.step(RunEvent::Failed("no connection".to_string()));
    assert_eq!(run.finish().err(), Some(TransactionError::BeginFailed));
}

#[test]
fn search_path_is_recognised_in_any_case() {
    assert!(is_search_path_statement("set Search_Path to public"));
    assert!(!is_search_path_statement("SELECT 'SET SEARCH_PATH'"));
}

/// Feeds items to a streamed run against a fake server that refuses
/// statements containing "bad"; the receiver closes after `open_for` records.
fn play_stream(run: &mut onetcli::execution::StreamRun, items: Vec<Result<String, String>>, open_for: usize) -> (Vec<String>, Vec<(u64, ProgressMeasure, bool)>) {
    let mut log = Vec::new();
    let mut records = Vec::new();
    let mut items = items.into_iter();
    let mut bytes = 0u64;
    let mut action = run.action();
    for _ in 0..100 {
        let open = records.len() < open_for;
        action = match action {
            StreamAction::BeginTransaction => { log.push("BEGIN".to_string()); run.step(RunEvent::Begun, open) }
            StreamAction::NextItem => match items.next() {
                Some(item) => { bytes += 10; run.on_item(item, bytes) }
                None => { log.push("END".to_string()); run.end_of_items() }
            },
            StreamAction::Prepare(s) => {
                log.push(format!("PREPARE {}", s));
                if s.contains("bad") { run.step(RunEvent::Failed("syntax".to_string()), open) }
                else { run.step(RunEvent::Prepared { has_columns: s.starts_with("SELECT") }, open) }
            }
            StreamAction::Execute(s) => { log.push(format!("EXECUTE {}", s)); run.step(RunEvent::Executed { rows_affected: 1, elapsed_ms: 0, message: None }, open) }
            StreamAction::Query(s) => { log.push(format!("QUERY {}", s)); run.step(one_row(), open) }
            StreamAction::Send(p) => {
                records.push((p.current, p.measure, p.result.is_error()));
                run.action()
            }
            StreamAction::Commit => { log.push("COMMIT".to_string()); run.step(RunEvent::Committed, open) }
            StreamAction::Rollback => { log.push("ROLLBACK".to_string()); run.step(RunEvent::RolledBack, open) }
            StreamAction::Finished => break,
        };
    }
    (log, records)
}

fn items(list: &[Result<&str, &str>]) -> Vec<Result<String, String>> {
    list.iter().map(|r| r.map(|s| s.to_string()).map_err(|e| e.to_string())).collect()
}

#[test]
fn streamed_run_reports_each_statement() {
    let mut run = onetcli::execution::StreamRun::new(ExecOptions { transactional: false, stop_on_error: false, streaming: false }, 100, true);
    let (log, records) = play_stream(&mut run, items(&[Ok("SELECT 1"), Ok("   "), Err("unterminated"), Ok("bad x"), Ok("UPDATE t")]), 100);
    assert_eq!(log, vec!["PREPARE SELECT 1", "QUERY SELECT 1", "PREPARE bad x", "PREPARE UPDATE t", "EXECUTE UPDATE t", "END"]);
    assert_eq!(
        records,
        vec![
            (1, ProgressMeasure::Bytes { read: 10, total: 100 }, false),
            (1, ProgressMeasure::Bytes { read: 30, total: 100 }, true),
            (2, ProgressMeasure::Bytes { read: 40, total: 100 }, true),
            (3, ProgressMeasure::Bytes { read: 50, total: 100 }, false),
        ]
    );
    let results = run.finish().unwrap();
    assert_eq!(results.len(), 4);
    assert!(matches!(results[1], SqlResult::Error(ref e) if e.sql.is_empty() && e.message == "Parse error: unterminated"));
    assert!(matches!(results[2], SqlResult::Error(ref e) if e.sql == "bad x"));
}

#[test]
fn streamed_transaction_rolls_back_after_error() {
    let mut run = onetcli::execution::StreamRun::new(ExecOptions { transactional: true, stop_on_error: false, streaming: false }, 0, true);
    let (log, records) = play_stream(&mut run, items(&[Ok("UPDATE a"), Ok("bad"), Ok("UPDATE b")]), 100);
    assert_eq!(log, vec!["BEGIN", "PREPARE UPDATE a", "EXECUTE UPDATE a", "PREPARE bad", "ROLLBACK"]);
    assert_eq!(records.len(), 2);
    let mut ok = onetcli::execution::StreamRun::new(ExecOptions { transactional: true, stop_on_error: false, streaming: false }, 0, true);
    let (log, _) = play_stream(&mut ok, items(&[Ok("UPDATE a")]), 100);
    assert_eq!(log, vec!["BEGIN", "PREPARE UPDATE a", "EXECUTE UPDATE a", "END", "COMMIT"]);
    let mut parse = onetcli::execution::StreamRun::new(ExecOptions { transactional: true, stop_on_error: false, streaming: false }, 0, true);
    let (log, _) = play_stream(&mut parse, items(&[Err("eof"), Ok("UPDATE a")]), 100);
    assert_eq!(log, vec!["BEGIN", "ROLLBACK"]);
}

#[test]
fn streamed_run_stops_when_receiver_is_gone() {
    let mut run = onetcli::execution::StreamRun::new(ExecOptions { transactional: true, stop_on_error: false, streaming: false }, 0, true);
    let (log, records) = play_stream(&mut run, items(&[Ok("UPDATE a"), Ok("UPDATE b"), Ok("UPDATE c")]), 1);
    assert_eq!(log, vec!["BEGIN", "PREPARE UPDATE a", "EXECUTE UPDATE a", "PREPARE UPDATE b", "EXECUTE UPDATE b", "COMMIT"]);
    assert_eq!(records.len(), 1);
    let mut plain = onetcli::execution::StreamRun::new(ExecOptions { transactional: false, stop_on_error: true, streaming: false }, 0, true);
    let (log, _) = play_stream(&mut plain, items(&[Ok("bad"), Ok("UPDATE b")]), 100);
    assert_eq!(log, vec!["PREPARE bad"]);
}

#[test]
fn in_memory_script_is_read_first_and_counted_by_statement() {
    let mut run = onetcli::execution::StreamRun::new(ExecOptions { transactional: true, stop_on_error: false, streaming: false }, 0, false);
    let (log, records) = play_stream(&mut run, items(&[Ok(" SELECT 1 "), Ok("  "), Err("eof"), Ok("UPDATE t")]), 100);
    assert_eq!(log, vec!["END", "BEGIN", "PREPARE SELECT 1", "QUERY SELECT 1", "PREPARE UPDATE t", "EXECUTE UPDATE t", "COMMIT"]);
    assert_eq!(
        records,
        vec![
            (1, ProgressMeasure::Statements { total: 2 }, false),
            (2, ProgressMeasure::Statements { total: 2 }, false),
        ]
    );
    let results = run.finish().unwrap();
    assert!(matches!(results[0], SqlResult::Query(ref q) if q.sql == "SELECT 1"));

    let mut plain = onetcli::execution::StreamRun::new(ExecOptions { transactional: false, stop_on_error: false, streaming: false }, 0, false);
    let (log, records) = play_stream(&mut plain, items(&[Ok("bad a"), Ok("UPDATE b")]), 100);
    assert_eq!(log, vec!["END", "PREPARE bad a", "PREPARE UPDATE b", "EXECUTE UPDATE b"]);
    assert_eq!(records[0], (1, ProgressMeasure::Statements { total: 2 }, true));
    let mut empty = onetcli::execution::StreamRun::new(ExecOptions { transactional: true, stop_on_error: false, streaming: false }, 0, false);
    let (log, _) = play_stream(&mut empty, items(&[]), 100);
    assert_eq!(log, vec!["END", "BEGIN", "COMMIT"]);
}
