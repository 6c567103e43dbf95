//! Drafts and notices, kept in memory.
use vstd::prelude::*;

use crate::persistence::sqlite;
use crate::persistence::sqlite::{HistoryQuery, SearchPlan};
use crate::{bounded, clock, text};

verus! {

pub const DEFAULT_DRAFT_TITLE: &'static str = "Polished transcript";

pub const DEFAULT_DRAFT_TAG: &'static str = "transcript";

pub const MAX_DRAFT_HISTORY: usize = 240;

pub const MAX_NOTICE_HISTORY: usize = 240;

#[derive(Debug, Clone, PartialEq, Eq)]
pub struct DraftSaveRequest {
    pub draft_id: String,
    pub session_id: String,
    pub content: String,
    pub title: Option<String>,
    pub tags: Option<Vec<String>>,
}

#[derive(Debug, PartialEq, Eq)]
pub struct DraftRecord {
    pub draft_id: String,
    pub session_id: String,
    pub title: String,
    pub tags: Vec<String>,
    pub content: String,
    pub created_at_ms: u128,
    pub updated_at_ms: u128,
}

/// The contents of a draft.
pub struct DraftText {
    pub draft_id: Seq<char>,
    pub session_id: Seq<char>,
    pub title: Seq<char>,
    pub tags: Seq<Seq<char>>,
    pub content: Seq<char>,
    pub created_at_ms: u128,
    pub updated_at_ms: u128,
}

impl View for DraftRecord {
    type V = DraftText;

    open spec fn view(&self) -> DraftText {
        DraftText {
            draft_id: self.draft_id@,
            session_id: self.session_id@,
            title: self.title@,
            tags: text::texts(self.tags@),
            content: self.content@,
            created_at_ms: self.created_at_ms,
            updated_at_ms: self.updated_at_ms,
        }
    }
}

impl Clone for DraftRecord {
    fn clone(&self) -> (r: Self)
        ensures
            r@ == self@,
    {
        DraftRecord {
            draft_id: self.draft_id.clone(),
            session_id: self.session_id.clone(),
            title: self.title.clone(),
            tags: text::copy_strings(&self.tags),
            content: self.content.clone(),
            created_at_ms: self.created_at_ms,
            updated_at_ms: self.updated_at_ms,
        }
    }
}

/// The title that a draft gets: the one asked for, unless it is blank.
pub open spec fn draft_title(request: DraftSaveRequest) -> Seq<char> {
    match request.title {
        Some(title) => if text::trim(title@).len() > 0 {
            title@
        } else {
            "Polished transcript"@
        },
        None => "Polished transcript"@,
    }
}

/// The tags that a draft gets: those asked for, else the standard one.
pub open spec fn draft_tags(request: DraftSaveRequest) -> Seq<Seq<char>> {
    match request.tags {
        Some(tags) => text::texts(tags@),
        None => seq!["transcript"@],
    }
}

/// The draft that a request made at `timestamp_ms` asks for.
pub open spec fn draft_of(request: DraftSaveRequest, timestamp_ms: u128) -> DraftText {
    DraftText {
        draft_id: request.draft_id@,
        session_id: request.session_id@,
        title: draft_title(request),
        tags: draft_tags(request),
        content: request.content@,
        created_at_ms: timestamp_ms,
        updated_at_ms: timestamp_ms,
    }
}

impl DraftRecord {
    /// The draft that a request asks for, made now.
    pub fn from_request(request: DraftSaveRequest) -> (r: Self)
        ensures
            r@ == draft_of(request, r.created_at_ms),
    {
        Self::from_request_at(request, clock::current_timestamp_ms())
    }

    /// The draft that a request asks for, made at `timestamp_ms`.
    pub fn from_request_at(request: DraftSaveRequest, timestamp_ms: u128) -> (r: Self)
        ensures
            r@ == draft_of(request, timestamp_ms),
    {
        let title = match request.title {
            Some(title) => if !text::is_blank(title.as_str()) {
                title
            } else {
                DEFAULT_DRAFT_TITLE.to_owned()
            },
            None => DEFAULT_DRAFT_TITLE.to_owned(),
        };
        let tags = match request.tags {
            Some(tags) => tags,
            None => {
                let mut tags: Vec<String> = Vec::new();
                tags.push(DEFAULT_DRAFT_TAG.to_owned());
                assert(text::texts(tags@) =~= seq!["transcript"@]);
                tags
            },
        };
        DraftRecord {
            draft_id: request.draft_id,
            session_id: request.session_id,
            title,
            tags,
            content: request.content,
            created_at_ms: timestamp_ms,
            updated_at_ms: timestamp_ms,
        }
    }
}

#[derive(Debug, Clone, PartialEq, Eq)]
pub struct NoticeSaveRequest {
    pub notice_id: String,
    pub session_id: String,
    pub action: String,
    pub result: String,
    pub level: String,
    pub message: String,
    pub undo_token: Option<String>,
}

#[derive(Debug, PartialEq, Eq)]
pub struct NoticeRecord {
    pub notice_id: String,
    pub session_id: String,
    pub action: String,
    pub result: String,
    pub level: String,
    pub message: String,
    pub undo_token: Option<String>,
    pub timestamp_ms: u128,
}

/// The contents of a notice.
pub struct NoticeText {
    pub notice_id: Seq<char>,
    pub session_id: Seq<char>,
    pub action: Seq<char>,
    pub result: Seq<char>,
    pub level: Seq<char>,
    pub message: Seq<char>,
    pub undo_token: Option<Seq<char>>,
    pub timestamp_ms: u128,
}

impl View for NoticeRecord {
    type V = NoticeText;

    open spec fn view(&self) -> NoticeText {
        NoticeText {
            notice_id: self.notice_id@,
            session_id: self.session_id@,
            action: self.action@,
            result: self.result@,
            level: self.level@,
            message: self.message@,
            undo_token: text::opt_text(self.undo_token),
            timestamp_ms: self.timestamp_ms,
        }
    }
}

impl Clone for NoticeRecord {
    fn clone(&self) -> (r: Self)
        ensures
            r@ == self@,
    {
        NoticeRecord {
            notice_id: self.notice_id.clone(),
            session_id: self.session_id.clone(),
            action: self.action.clone(),
            result: self.result.clone(),
            level: self.level.clone(),
            message: self.message.clone(),
            undo_token: text::copy_opt(&self.undo_token),
            timestamp_ms: self.timestamp_ms,
        }
    }
}

/// The notice that a request made at `timestamp_ms` asks for.
pub open spec fn notice_of(request: NoticeSaveRequest, timestamp_ms: u128) -> NoticeText {
    NoticeText {
        notice_id: request.notice_id@,
        session_id: request.session_id@,
        action: request.action@,
        result: request.result@,
        level: request.level@,
        message: request.message@,
        undo_token: text::opt_text(request.undo_token),
        timestamp_ms,
    }
}

impl NoticeRecord {
    /// The notice that a request asks for, made now.
    pub fn from_request(request: NoticeSaveRequest) -> (r: Self)
        ensures
            r@ == notice_of(request, r.timestamp_ms),
    {
        Self::from_request_at(request, clock::current_timestamp_ms())
    }

    /// The notice that a request asks for, made at `timestamp_ms`.
    pub fn from_request_at(request: NoticeSaveRequest, timestamp_ms: u128) -> (r: Self)
        ensures
            r@ == notice_of(request, timestamp_ms),
    {
        NoticeRecord {
            notice_id: request.notice_id,
            session_id: request.session_id,
            action: request.action,
            result: request.result,
            level: request.level,
            message: request.message,
            undo_token: request.undo_token,
            timestamp_ms,
        }
    }
}

/// The telemetry event that follows a stored accuracy mark.
pub const ACCURACY_EVENT: &'static str = "history_accuracy_marked";

/// What the store is asked for. Sessions, accuracy marks, post actions and
/// telemetry payloads pass through it unread.
pub enum PersistenceCommand<S, U, A, P> {
    PersistSession { snapshot: S },
    SearchHistory { query: HistoryQuery },
    UpdateAccuracy { update: U },
    AppendPostAction { session_id: String, action: A },
    CleanupExpired { now_ms: i64 },
    EnqueueTelemetry { session_id: String, event_type: String, payload: P },
    StoreDraft { record: DraftRecord },
    StoreNotice { record: NoticeRecord },
    ListDrafts { limit: usize },
    ListNotices { limit: usize },
}

/// A job for the database.
pub enum DatabaseJob<S, U, A, P> {
    /// Store the session, with several attempts.
    Persist { snapshot: S },
    Search { plan: SearchPlan },
    /// Store the mark; if that works, queue a telemetry event of this type.
    MarkAccuracy { update: U, event_type: String },
    AppendPostAction { session_id: String, action: A },
    /// Delete the sessions that expired by then.
    Cleanup { now_ms: i64 },
    /// Queue the event; a failure is only logged.
    Telemetry { session_id: String, event_type: String, payload: P },
}

/// What the store answers.
pub enum PersistenceReply<S, U, A, P> {
    /// The database has to do the job.
    Database(DatabaseJob<S, U, A, P>),
    Draft(DraftRecord),
    Notice(NoticeRecord),
    Drafts(Vec<DraftRecord>),
    Notices(Vec<NoticeRecord>),
}

/// The drafts and notices of the running program.
pub struct PersistenceActor {
    drafts: Vec<DraftRecord>,
    notices: Vec<NoticeRecord>,
}

/// The contents of several drafts.
pub open spec fn draft_texts(list: Seq<DraftRecord>) -> Seq<DraftText> {
    list.map_values(|d: DraftRecord| d@)
}

/// The contents of several notices.
pub open spec fn notice_texts(list: Seq<NoticeRecord>) -> Seq<NoticeText> {
    list.map_values(|n: NoticeRecord| n@)
}

impl PersistenceActor {
    /// The drafts, oldest first.
    pub closed spec fn drafts(&self) -> Seq<DraftText> {
        draft_texts(self.drafts@)
    }

    /// The notices, oldest first.
    pub closed spec fn notices(&self) -> Seq<NoticeText> {
        notice_texts(self.notices@)
    }

    pub open spec fn wf(&self) -> bool {
        &&& self.drafts().len() <= MAX_DRAFT_HISTORY
        &&& self.notices().len() <= MAX_NOTICE_HISTORY
    }

    pub fn new() -> (r: Self)
        ensures
            r.wf(),
            r.drafts() == Seq::<DraftText>::empty(),
            r.notices() == Seq::<NoticeText>::empty(),
    {
        let r = PersistenceActor { drafts: Vec::new(), notices: Vec::new() };
        assert(r.drafts() =~= Seq::<DraftText>::empty());
        assert(r.notices() =~= Seq::<NoticeText>::empty());
        r
    }

    /// Keeps a draft and returns it.
    pub fn store_draft(&mut self, record: DraftRecord) -> (r: DraftRecord)
        requires
            old(self).wf(),
        ensures
            final(self).wf(),
            r@ == record@,
            final(self).drafts() == bounded::retained(
                old(self).drafts(),
                record@,
                MAX_DRAFT_HISTORY as nat,
            ),
            final(self).notices() == old(self).notices(),
    {
        let ghost before = self.drafts@;
        let copy = record.clone();
        bounded::push_with_limit(&mut self.drafts, record, MAX_DRAFT_HISTORY);
        assert(self.drafts() =~= bounded::retained(
            draft_texts(before),
            record@,
            MAX_DRAFT_HISTORY as nat,
        ));
        copy
    }

    /// Keeps a notice and returns it.
    pub fn store_notice(&mut self, record: NoticeRecord) -> (r: NoticeRecord)
        requires
            old(self).wf(),
        ensures
            final(self).wf(),
            r@ == record@,
            final(self).notices() == bounded::retained(
                old(self).notices(),
                record@,
                MAX_NOTICE_HISTORY as nat,
            ),
            final(self).drafts() == old(self).drafts(),
    {
        let ghost before = self.notices@;
        let copy = record.clone();
        bounded::push_with_limit(&mut self.notices, record, MAX_NOTICE_HISTORY);
        assert(self.notices() =~= bounded::retained(
            notice_texts(before),
            record@,
            MAX_NOTICE_HISTORY as nat,
        ));
        copy
    }

    /// The newest drafts, oldest first.
    pub fn collect_drafts(&self, limit: usize) -> (r: Vec<DraftRecord>)
        ensures
            draft_texts(r@) == bounded::newest(self.drafts(), limit as nat),
    {
        let from = bounded::newest_from(self.drafts.len(), limit);
        let mut out: Vec<DraftRecord> = Vec::new();
        let mut i: usize = from;
        while i < self.drafts.len()
            invariant
                from <= i <= self.drafts@.len(),
                draft_texts(out@) == draft_texts(self.drafts@).subrange(from as int, i as int),
            decreases self.drafts.len() - i,
        {
            let ghost before = draft_texts(out@);
            out.push(self.drafts[i].clone());
            assert(draft_texts(out@) =~= before.push(self.drafts@[i as int]@));
            i += 1;
            assert(draft_texts(out@) =~= draft_texts(self.drafts@).subrange(from as int, i as int));
        }
        assert(draft_texts(out@) =~= bounded::newest(self.drafts(), limit as nat));
        out
    }

    /// The newest notices, oldest first.
    pub fn collect_notices(&self, limit: usize) -> (r: Vec<NoticeRecord>)
        ensures
            notice_texts(r@) == bounded::newest(self.notices(), limit as nat),
    {
        let from = bounded::newest_from(self.notices.len(), limit);
        let mut out: Vec<NoticeRecord> = Vec::new();
        let mut i: usize = from;
        while i < self.notices.len()
            invariant
                from <= i <= self.notices@.len(),
                notice_texts(out@) == notice_texts(self.notices@).subrange(from as int, i as int),
            decreases self.notices.len() - i,
        {
            let ghost before = notice_texts(out@);
            out.push(self.notices[i].clone());
            assert(notice_texts(out@) =~= before.push(self.notices@[i as int]@));
            i += 1;
            assert(notice_texts(out@) =~= notice_texts(self.notices@).subrange(
                from as int,
                i as int,
            ));
        }
        assert(notice_texts(out@) =~= bounded::newest(self.notices(), limit as nat));
        out
    }

    /// Answers a command, or turns it into a job for the database.
    pub fn handle<S, U, A, P>(&mut self, command: PersistenceCommand<S, U, A, P>) -> (r:
        PersistenceReply<S, U, A, P>)
        requires
            old(self).wf(),
        ensures
            final(self).wf(),
            match command {
                PersistenceCommand::PersistSession { snapshot } => {
                    &&& r == PersistenceReply::<S, U, A, P>::Database(
                        DatabaseJob::Persist { snapshot },
                    )
                    &&& *final(self) == *old(self)
                },
                PersistenceCommand::SearchHistory { query } => {
                    &&& r matches PersistenceReply::Database(DatabaseJob::Search { plan })
                        && is_plan_for(plan, query)
                    &&& *final(self) == *old(self)
                },
                PersistenceCommand::UpdateAccuracy { update } => {
                    &&& r matches PersistenceReply::Database(
                        DatabaseJob::MarkAccuracy { update: u, event_type },
                    ) && u == update && event_type@ == "history_accuracy_marked"@
                    &&& *final(self) == *old(self)
                },
                PersistenceCommand::AppendPostAction { session_id, action } => {
                    &&& r == PersistenceReply::<S, U, A, P>::Database(
                        DatabaseJob::AppendPostAction { session_id, action },
                    )
                    &&& *final(self) == *old(self)
                },
                PersistenceCommand::CleanupExpired { now_ms } => {
                    &&& r == PersistenceReply::<S, U, A, P>::Database(
                        DatabaseJob::Cleanup { now_ms },
                    )
                    &&& *final(self) == *old(self)
                },
                PersistenceCommand::EnqueueTelemetry { session_id, event_type, payload } => {
                    &&& r == PersistenceReply::<S, U, A, P>::Database(
                        DatabaseJob::Telemetry { session_id, event_type, payload },
                    )
                    &&& *final(self) == *old(self)
                },
                PersistenceCommand::StoreDraft { record } => {
                    &&& r matches PersistenceReply::Draft(d) && d@ == record@
                    &&& final(self).drafts() == bounded::retained(
                        old(self).drafts(),
                        record@,
                        MAX_DRAFT_HISTORY as nat,
                    )
                    &&& final(self).notices() == old(self).notices()
                },
                PersistenceCommand::StoreNotice { record } => {
                    &&& r matches PersistenceReply::Notice(n) && n@ == record@
                    &&& final(self).notices() == bounded::retained(
                        old(self).notices(),
                        record@,
                        MAX_NOTICE_HISTORY as nat,
                    )
                    &&& final(self).drafts() == old(self).drafts()
                },
                PersistenceCommand::ListDrafts { limit } => {
                    &&& r matches PersistenceReply::Drafts(list) && draft_texts(list@)
                        == bounded::newest(old(self).drafts(), limit as nat)
                    &&& *final(self) == *old(self)
                },
                PersistenceCommand::ListNotices { limit } => {
                    &&& r matches PersistenceReply::Notices(list) && notice_texts(list@)
                        == bounded::newest(old(self).notices(), limit as nat)
                    &&& *final(self) == *old(self)
                },
            },
    {
        match command {
            PersistenceCommand::PersistSession { snapshot } => PersistenceReply::Database(
                DatabaseJob::Persist { snapshot },
            ),
            PersistenceCommand::SearchHistory { query } => PersistenceReply::Database(
                DatabaseJob::Search { plan: sqlite::plan_search(&query) },
            ),
            PersistenceCommand::UpdateAccuracy { update } => PersistenceReply::Database(
                DatabaseJob::MarkAccuracy { update, event_type: ACCURACY_EVENT.to_owned() },
            ),
            PersistenceCommand::AppendPostAction { session_id, action } => {
                PersistenceReply::Database(DatabaseJob::AppendPostAction { session_id, action })
            },
            PersistenceCommand::CleanupExpired { now_ms } => PersistenceReply::Database(
                DatabaseJob::Cleanup { now_ms },
            ),
            PersistenceCommand::EnqueueTelemetry { session_id, event_type, payload } => {
                PersistenceReply::Database(
                    DatabaseJob::Telemetry { session_id, event_type, payload },
                )
            },
            PersistenceCommand::StoreDraft { record } => PersistenceReply::Draft(
                self.store_draft(record),
            ),
            PersistenceCommand::StoreNotice { record } => PersistenceReply::Notice(
                self.store_notice(record),
            ),
            PersistenceCommand::ListDrafts { limit } => PersistenceReply::Drafts(
                self.collect_drafts(limit),
            ),
            PersistenceCommand::ListNotices { limit } => PersistenceReply::Notices(
                self.collect_notices(limit),
            ),
        }
    }
}

/// `plan` holds the statements of `query`.
pub open spec fn is_plan_for(plan: SearchPlan, query: HistoryQuery) -> bool {
    &&& text::texts(plan.values@) == sqlite::search_values(query)
    &&& plan.page_sql@ == sqlite::page_query(query)
    &&& plan.count_sql@ == sqlite::count_query(query)
    &&& plan.limit == query.limit as i64
    &&& plan.offset == query.offset as i64
}

/// A draft that was stored is the newest one listed.
pub proof fn law_stored_draft_is_listed_last(drafts: Seq<DraftText>, record: DraftText, limit: nat)
    requires
        limit > 0,
    ensures
        ({
            let after = bounded::retained(drafts, record, MAX_DRAFT_HISTORY as nat);
            bounded::newest(after, limit).len() > 0 && bounded::newest(after, limit).last()
                == record
        }),
{
}

/// A notice that was stored is the newest one listed.
pub proof fn law_stored_notice_is_listed_last(
    notices: Seq<NoticeText>,
    record: NoticeText,
    limit: nat,
)
    requires
        limit > 0,
    ensures
        ({
            let after = bounded::retained(notices, record, MAX_NOTICE_HISTORY as nat);
            bounded::newest(after, limit).len() > 0 && bounded::newest(after, limit).last()
                == record
        }),
{
}

/// A draft is what was asked for: its own title and tags where there are some,
/// the standard ones where there are none, and one time for both its dates.
pub proof fn law_draft_is_what_was_asked_for(request: DraftSaveRequest, timestamp_ms: u128)
    ensures
        ({
            let draft = draft_of(request, timestamp_ms);
            &&& draft.draft_id == request.draft_id@
            &&& draft.session_id == request.session_id@
            &&& draft.content == request.content@
            &&& draft.created_at_ms == timestamp_ms && draft.updated_at_ms == timestamp_ms
            &&& request.title is None ==> draft.title == "Polished transcript"@
            &&& request.title matches Some(title) ==> {
                &&& (exists|i: int| 0 <= i < title@.len() && !text::is_white(#[trigger] title@[i]))
                    ==> draft.title == title@
                &&& (forall|i: int| 0 <= i < title@.len() ==> text::is_white(#[trigger] title@[i]))
                    ==> draft.title == "Polished transcript"@
            }
            &&& request.tags is None ==> draft.tags == seq!["transcript"@]
            &&& request.tags matches Some(tags) ==> draft.tags == text::texts(tags@)
        }),
{
    if let Some(title) = request.title {
        text::lemma_trim_empty(title@);
    }
}

/// A notice is what was asked for, at its time.
pub proof fn law_notice_is_what_was_asked_for(request: NoticeSaveRequest, timestamp_ms: u128)
    ensures
        ({
            let notice = notice_of(request, timestamp_ms);
            &&& notice.notice_id == request.notice_id@
            &&& notice.session_id == request.session_id@
            &&& notice.action == request.action@
            &&& notice.result == request.result@
            &&& notice.level == request.level@
            &&& notice.message == request.message@
            &&& notice.undo_token == text::opt_text(request.undo_token)
            &&& notice.timestamp_ms == timestamp_ms
        }),
{
}

/// As many drafts and as many notices are kept, each counted for itself.
pub proof fn law_store_has_its_limits(actor: PersistenceActor)
    ensures
        actor.wf() <==> actor.drafts().len() <= 240 && actor.notices().len() <= 240,
{
}

} // verus!
