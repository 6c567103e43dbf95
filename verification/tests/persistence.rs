use flowwisper::persistence::records::{
    DatabaseJob, DraftRecord, DraftSaveRequest, NoticeRecord, NoticeSaveRequest, PersistenceActor,
    PersistenceCommand, PersistenceReply, DEFAULT_DRAFT_TAG, DEFAULT_DRAFT_TITLE,
    MAX_NOTICE_HISTORY,
};
use flowwisper::persistence::retry::{AttemptOutcome, PersistAttempts, RetryStep};
use flowwisper::persistence::sqlite::{
    appended_actions, changed_session, history_preview, next_offset, plan_search,
    telemetry_excess, verify_encryption, EncryptionError, EnvKeyResolver, HistoryQuery,
    KeyResolver, SqliteConfig, SqlitePath, MAX_TELEMETRY_QUEUE,
};
use rusqlite::types::Value;
use rusqlite::Connection;

type Command = PersistenceCommand<u8, u8, u8, u8>;
type Reply = PersistenceReply<u8, u8, u8, u8>;

fn save_draft(actor: &mut PersistenceActor, request: DraftSaveRequest) -> DraftRecord {
    let command: Command = PersistenceCommand::StoreDraft {
        record: DraftRecord::from_request(request),
    };
    match actor.handle(command) {
        Reply::Draft(record) => record,
        _ => panic!("expected the stored draft"),
    }
}

fn list_drafts(actor: &mut PersistenceActor, limit: usize) -> Vec<DraftRecord> {
    let command: Command = PersistenceCommand::ListDrafts { limit };
    match actor.handle(command) {
        Reply::Drafts(list) => list,
        _ => panic!("expected drafts"),
    }
}

#[test]
fn saves_draft_with_defaults_and_retrieves_history() {
    let mut actor = PersistenceActor::new();
    let request = DraftSaveRequest {
        draft_id: "draft-1".into(),
        session_id: "session-1".into(),
        content: "Hello".into(),
        title: None,
        tags: None,
    };

    let record = save_draft(&mut actor, request);

    assert_eq!(record.title, DEFAULT_DRAFT_TITLE);
    assert_eq!(record.tags, vec![DEFAULT_DRAFT_TAG.to_string()]);

    let history = list_drafts(&mut actor, 10);
    assert_eq!(history.len(), 1);
    assert_eq!(history[0].draft_id, "draft-1");
    assert_eq!(history[0], record);
    assert!(record.created_at_ms > 0);
}

#[test]
fn respects_draft_list_limit_and_order() {
    let mut actor = PersistenceActor::new();
    for idx in 0..5 {
        let request = DraftSaveRequest {
            draft_id: format!("draft-{idx}"),
            session_id: "session".into(),
            content: format!("draft content {idx}"),
            title: Some(format!("Custom {idx}")),
            tags: Some(vec!["transcript".into(), idx.to_string()]),
        };
        save_draft(&mut actor, request);
    }

    let history = list_drafts(&mut actor, 3);

    assert_eq!(history.len(), 3);
    assert_eq!(history[0].draft_id, "draft-2");
    assert_eq!(history[1].draft_id, "draft-3");
    assert_eq!(history[2].draft_id, "draft-4");
    assert_eq!(history[2].title, "Custom 4");
    assert_eq!(
        history[2].tags,
        vec!["transcript".to_string(), "4".to_string()]
    );
}

#[test]
fn stores_notices_and_limits_history() {
    let mut actor = PersistenceActor::new();
    for idx in 0..(MAX_NOTICE_HISTORY + 5) {
        let request = NoticeSaveRequest {
            notice_id: format!("notice-{idx}"),
            session_id: "session".into(),
            action: "copy".into(),
            result: if idx % 2 == 0 {
                "success".into()
            } else {
                "failure".into()
            },
            level: "warn".into(),
            message: format!("notice #{idx}"),
            undo_token: None,
        };
        actor.store_notice(NoticeRecord::from_request(request));
    }

    let history = actor.collect_notices(50);
    assert_eq!(history.len(), 50);
    assert_eq!(history.first().unwrap().notice_id, "notice-195");
    assert_eq!(
        history.last().unwrap().notice_id,
        format!("notice-{}", MAX_NOTICE_HISTORY + 4)
    );
    assert_eq!(actor.collect_notices(1_000).len(), MAX_NOTICE_HISTORY);
}

#[test]
fn a_blank_title_is_replaced() {
    let record = DraftRecord::from_request_at(
        DraftSaveRequest {
            draft_id: "d".into(),
            session_id: "s".into(),
            content: "c".into(),
            title: Some("  ".into()),
            tags: Some(vec![]),
        },
        42,
    );
    assert_eq!(record.title, DEFAULT_DRAFT_TITLE);
    assert!(record.tags.is_empty());
    assert_eq!((record.created_at_ms, record.updated_at_ms), (42, 42));
}

#[test]
fn database_jobs_are_passed_on() {
    let mut actor = PersistenceActor::new();
    let command: Command = PersistenceCommand::UpdateAccuracy { update: 7 };
    match actor.handle(command) {
        Reply::Database(DatabaseJob::MarkAccuracy { update, event_type }) => {
            assert_eq!(update, 7);
            assert_eq!(event_type, "history_accuracy_marked");
        }
        _ => panic!("expected a job"),
    }
    let command: Command = PersistenceCommand::CleanupExpired { now_ms: 5 };
    assert!(matches!(
        actor.handle(command),
        Reply::Database(DatabaseJob::Cleanup { now_ms: 5 })
    ));
}

#[test]
fn storing_is_tried_three_times() {
    let mut attempts = PersistAttempts::new();
    assert!(matches!(
        attempts.attempted(AttemptOutcome::TimedOut),
        RetryStep::Again { pause_ms: 50 }
    ));
    assert!(matches!(
        attempts.attempted(AttemptOutcome::Failed("busy".into())),
        RetryStep::Again { .. }
    ));
    match attempts.attempted(AttemptOutcome::TimedOut) {
        RetryStep::GiveUp { error, .. } => assert_eq!(error, "persistence exceeded 200ms"),
        _ => panic!("expected to give up"),
    }
    let mut attempts = PersistAttempts::new();
    assert!(matches!(
        attempts.attempted(AttemptOutcome::Stored),
        RetryStep::Stored { attempt: 1 }
    ));
}

const SCHEMA: &str = "
CREATE TABLE sessions (
    session_id TEXT PRIMARY KEY,
    started_at_ms INTEGER NOT NULL,
    completed_at_ms INTEGER NOT NULL,
    duration_ms INTEGER NOT NULL,
    locale TEXT,
    app_identifier TEXT,
    app_version TEXT,
    raw_transcript TEXT NOT NULL,
    polished_transcript TEXT NOT NULL,
    confidence_score REAL,
    accuracy_flag TEXT,
    accuracy_remarks TEXT,
    post_actions TEXT NOT NULL DEFAULT '[]',
    expires_at_ms INTEGER NOT NULL,
    metadata TEXT NOT NULL DEFAULT '{}'
);
CREATE VIRTUAL TABLE session_index USING fts5(
    session_id UNINDEXED, raw_transcript, polished_transcript, app_identifier,
    content='sessions', content_rowid='rowid', tokenize='unicode61 remove_diacritics 2'
);
CREATE TRIGGER sessions_ai AFTER INSERT ON sessions BEGIN
    INSERT INTO session_index(rowid, session_id, raw_transcript, polished_transcript, app_identifier)
    VALUES (new.rowid, new.session_id, new.raw_transcript, new.polished_transcript, new.app_identifier);
END;";

fn database() -> Connection {
    let conn = Connection::open_in_memory().expect("memory");
    conn.execute_batch(SCHEMA).expect("schema");
    conn
}

fn insert(conn: &Connection, id: &str, polished: &str, app: &str, completed_at_ms: i64) {
    conn.execute(
        "INSERT INTO sessions (session_id, started_at_ms, completed_at_ms, duration_ms, locale, \
         app_identifier, raw_transcript, polished_transcript, expires_at_ms) \
         VALUES (?1, 1000, ?2, 0, 'en-US', ?3, 'raw history text', ?4, 0)",
        [
            Value::Text(id.into()),
            Value::Integer(completed_at_ms),
            Value::Text(app.into()),
            Value::Text(polished.into()),
        ],
    )
    .expect("insert");
}

fn search(conn: &Connection, query: &HistoryQuery) -> (Vec<String>, Option<usize>) {
    let plan = plan_search(query);
    let mut values: Vec<Value> = plan.values.iter().cloned().map(Value::Text).collect();
    let total: i64 = conn
        .prepare(&plan.count_sql)
        .expect("count statement")
        .query_row(rusqlite::params_from_iter(values.iter()), |row| row.get(0))
        .expect("count");
    values.push(Value::Integer(plan.limit));
    values.push(Value::Integer(plan.offset));
    let mut statement = conn.prepare(&plan.page_sql).expect("page statement");
    let ids: Vec<String> = statement
        .query_map(rusqlite::params_from_iter(values.iter()), |row| row.get(0))
        .expect("page")
        .map(|row| row.expect("row"))
        .collect();
    let next = next_offset(query.offset, ids.len(), total);
    (ids, next)
}

fn everything(limit: usize) -> HistoryQuery {
    HistoryQuery {
        keyword: None,
        locale: None,
        app_identifier: None,
        limit,
        offset: 0,
    }
}

#[test]
fn insert_session_and_search_returns_entry() {
    let conn = database();
    insert(&conn, "history-1", "polished history text", "com.example.app", 2_000);
    let (ids, next) = search(&conn, &everything(20));
    assert_eq!(ids, vec!["history-1"]);
    assert_eq!(next, None);

    let plan = plan_search(&everything(20));
    let (locale, raw, polished): (Option<String>, String, String) = conn
        .prepare(&plan.page_sql)
        .expect("page statement")
        .query_row([plan.limit, plan.offset], |row| {
            Ok((row.get("locale")?, row.get("raw_transcript")?, row.get("polished_transcript")?))
        })
        .expect("entry");
    assert_eq!(locale.as_deref(), Some("en-US"));
    assert_eq!(raw, "raw history text");
    assert!(history_preview(&raw, &polished, 120).contains("polished"));
}

#[test]
fn search_applies_keyword_and_filters() {
    let conn = database();
    insert(&conn, "history-filter-1", "special keyword transcript", "com.example.filtered", 2_000);
    insert(&conn, "history-filter-2", "different text", "com.other.app", 2_000);

    let query = HistoryQuery {
        keyword: Some("keyword".into()),
        locale: None,
        app_identifier: Some("com.example.filtered".into()),
        limit: 10,
        offset: 0,
    };

    let (ids, _) = search(&conn, &query);
    assert_eq!(ids.len(), 1);
    assert_eq!(ids[0], "history-filter-1");
}

#[test]
fn search_respects_pagination() {
    let conn = database();
    for idx in 0..3 {
        insert(&conn, &format!("history-page-{idx}"), "polished history text", "com.example.app", 1_000 + idx * 1_000);
    }

    let mut query = everything(1);
    let (first, next) = search(&conn, &query);
    assert_eq!(first, vec!["history-page-2"]);

    query.offset = next.unwrap_or(1);
    let (second, next) = search(&conn, &query);
    assert_eq!(second, vec!["history-page-1"]);
    assert_ne!(second[0], first[0]);

    query.offset = next.expect("one more");
    let (third, next) = search(&conn, &query);
    assert_eq!(third, vec!["history-page-0"]);
    assert_eq!(next, None);
}

#[test]
fn blank_filters_take_no_part() {
    let plan = plan_search(&HistoryQuery {
        keyword: Some("  ".into()),
        locale: Some(" en-US ".into()),
        app_identifier: None,
        limit: 5,
        offset: 7,
    });
    assert_eq!(plan.values, vec!["en-US"]);
    assert!(plan.page_sql.ends_with(
        "FROM sessions WHERE locale = ? ORDER BY completed_at_ms DESC LIMIT ? OFFSET ?"
    ));
    assert_eq!(plan.count_sql, "SELECT COUNT(*) FROM sessions WHERE locale = ?");
    assert_eq!((plan.limit, plan.offset), (5, 7));
}

#[test]
fn telemetry_queue_prunes_to_capacity() {
    let mut count: i64 = 0;
    for _ in 0..(MAX_TELEMETRY_QUEUE + 75) {
        count += 1;
        count -= telemetry_excess(count);
    }
    assert!(count <= MAX_TELEMETRY_QUEUE);
    assert!(count >= 100, "queue should retain at least 100 events");
}

#[test]
fn append_post_action_records_history() {
    let actions = appended_actions(None, "copy");
    assert_eq!(actions.len(), 1);
    assert_eq!(actions[0], "copy");
    assert_eq!(appended_actions(Some(actions), "insert"), vec!["copy", "insert"]);
    assert_eq!(
        changed_session(0, "missing", " for post action"),
        Err("session missing not found for post action".to_string())
    );
    assert_eq!(changed_session(1, "there", ""), Ok(()));
}

#[test]
fn encryption_is_checked_where_there_is_a_key() {
    assert_eq!(verify_encryption(false, &None), Ok(()));
    assert_eq!(verify_encryption(true, &None), Err(EncryptionError::Unsupported));
    assert_eq!(
        verify_encryption(true, &Some(" ".into())),
        Err(EncryptionError::EmptyVersion)
    );
    assert_eq!(verify_encryption(true, &Some("4.5".into())), Ok(()));
}

#[test]
fn configurations_have_their_sizes() {
    let config = SqliteConfig::memory(EnvKeyResolver { value: Some("k".into()) });
    assert_eq!(config.path.as_path(), None);
    assert_eq!((config.pool_size, config.busy_timeout_ms), (4, 250));
    assert_eq!(config.key_resolver.resolve_key(), Ok(Some("k".to_string())));
    let config = SqliteConfig::history_file("/data/history.db".into(), EnvKeyResolver { value: None });
    assert_eq!(config.path.as_path(), Some("/data/history.db"));
    assert_eq!(config.pool_size, 8);
    assert!(matches!(config.path, SqlitePath::File(_)));
}

#[test]
fn previews_are_cut_at_whole_characters() {
    assert_eq!(history_preview(" raw ", "  ", 120), "raw");
    let long = "字".repeat(100);
    let preview = history_preview("raw", &long, 120);
    assert!(preview.starts_with("字"));
    assert!(preview.chars().count() < 100);
}
