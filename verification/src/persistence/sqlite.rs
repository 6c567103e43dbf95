//! What the session history asks of its SQLite database, and what the answers
//! mean.
use vstd::prelude::*;
use vstd::utf8::encode_utf8;

use crate::{bounded, text};

verus! {

/// The environment variable with the key of the database.
pub const KEY_VARIABLE: &'static str = "FLOWWISPER_SQLCIPHER_KEY";

/// How many telemetry events wait for delivery at most. The oldest go first.
pub const MAX_TELEMETRY_QUEUE: i64 = 500;

/// Provides SQLCipher key material for the local database.
pub trait KeyResolver {
    /// The key, if the database has one, or why it cannot be had.
    fn resolve_key(&self) -> Result<Option<String>, String>;
}

/// Key resolver that hands out the key found in the environment.
#[derive(Debug, Clone)]
pub struct EnvKeyResolver {
    /// The value of the environment variable, if it is set.
    pub value: Option<String>,
}

impl KeyResolver for EnvKeyResolver {
    fn resolve_key(&self) -> (r: Result<Option<String>, String>)
        ensures
            r matches Ok(key) && text::opt_text(key) == text::opt_text(self.value),
    {
        Ok(text::copy_opt(&self.value))
    }
}

/// Storage location configuration for the SQLCipher database.
#[derive(Debug, Clone)]
pub enum SqlitePath {
    File(String),
    Memory,
}

impl SqlitePath {
    /// The file, if there is one.
    pub fn as_path(&self) -> (r: Option<&str>)
        ensures
            match *self {
                SqlitePath::File(path) => r matches Some(p) && p@ == path@,
                SqlitePath::Memory => r is None,
            },
    {
        match self {
            SqlitePath::File(path) => Some(path.as_str()),
            SqlitePath::Memory => None,
        }
    }
}

/// Configuration required to bootstrap SQLCipher persistence.
pub struct SqliteConfig<K> {
    pub path: SqlitePath,
    pub pool_size: u32,
    pub busy_timeout_ms: u64,
    pub key_resolver: K,
}

impl<K> SqliteConfig<K> {
    /// A database in memory.
    pub fn memory(key_resolver: K) -> (r: Self)
        ensures
            r.path is Memory,
            r.pool_size == 4,
            r.busy_timeout_ms == 250,
            r.key_resolver == key_resolver,
    {
        SqliteConfig { path: SqlitePath::Memory, pool_size: 4, busy_timeout_ms: 250, key_resolver }
    }

    /// The history database in a data directory.
    pub fn history_file(path: String, key_resolver: K) -> (r: Self)
        ensures
            r.path == SqlitePath::File(path),
            r.pool_size == 8,
            r.busy_timeout_ms == 250,
            r.key_resolver == key_resolver,
    {
        SqliteConfig {
            path: SqlitePath::File(path),
            pool_size: 8,
            busy_timeout_ms: 250,
            key_resolver,
        }
    }
}

/// Why a database does not count as encrypted.
#[derive(Debug, Clone, Copy, PartialEq, Eq, Structural)]
pub enum EncryptionError {
    /// The database knows no cipher.
    Unsupported,
    /// The database names no cipher version.
    EmptyVersion,
}

/// Checks that a database with a key is encrypted: it has to name its cipher
/// version. A database without a key stays in plain text.
pub fn verify_encryption(has_key: bool, cipher_version: &Option<String>) -> (r: Result<
    (),
    EncryptionError,
>)
    ensures
        r == if !has_key {
            Ok(())
        } else {
            match *cipher_version {
                None => Err(EncryptionError::Unsupported),
                Some(version) => if text::trim(version@).len() == 0 {
                    Err(EncryptionError::EmptyVersion)
                } else {
                    Ok(())
                },
            }
        },
{
    if !has_key {
        return Ok(());
    }
    match cipher_version {
        None => Err(EncryptionError::Unsupported),
        Some(version) => if text::is_blank(version.as_str()) {
            Err(EncryptionError::EmptyVersion)
        } else {
            Ok(())
        },
    }
}

/// A search in the session history.
#[derive(Debug, Clone)]
pub struct HistoryQuery {
    pub keyword: Option<String>,
    pub locale: Option<String>,
    pub app_identifier: Option<String>,
    pub limit: usize,
    pub offset: usize,
}

/// The statements of a search, with the values for their placeholders.
pub struct SearchPlan {
    /// Selects one page; after `values` it takes `limit` and `offset`.
    pub page_sql: String,
    /// Counts all matches; it takes `values`.
    pub count_sql: String,
    pub values: Vec<String>,
    pub limit: i64,
    pub offset: i64,
}

/// A filter that takes part in a search: it is given and not blank.
pub open spec fn filter_text(value: Option<String>) -> Option<Seq<char>> {
    match value {
        Some(v) => if text::trim(v@).len() > 0 {
            Some(text::trim(v@))
        } else {
            None
        },
        None => None,
    }
}

/// The conditions of a search.
pub open spec fn search_filters(query: HistoryQuery) -> Seq<Seq<char>> {
    (if filter_text(query.keyword) is Some {
        seq!["rowid IN (SELECT rowid FROM session_index WHERE session_index MATCH ?)"@]
    } else {
        Seq::empty()
    }) + (if filter_text(query.locale) is Some {
        seq!["locale = ?"@]
    } else {
        Seq::empty()
    }) + (if filter_text(query.app_identifier) is Some {
        seq!["app_identifier = ?"@]
    } else {
        Seq::empty()
    })
}

/// The values of a search: a keyword matches as the start of a word.
pub open spec fn search_values(query: HistoryQuery) -> Seq<Seq<char>> {
    (match filter_text(query.keyword) {
        Some(v) => seq![v.push('*')],
        None => Seq::empty(),
    }) + (match filter_text(query.locale) {
        Some(v) => seq![v],
        None => Seq::empty(),
    }) + (match filter_text(query.app_identifier) {
        Some(v) => seq![v],
        None => Seq::empty(),
    })
}

/// Texts with `sep` between them.
pub open spec fn joined_with(list: Seq<Seq<char>>, sep: Seq<char>) -> Seq<char>
    decreases list.len(),
{
    if list.len() == 0 {
        Seq::empty()
    } else if list.len() == 1 {
        list.first()
    } else {
        joined_with(list.drop_last(), sep) + sep + list.last()
    }
}

/// The `WHERE` part of a search, empty without a condition.
pub open spec fn where_part(filters: Seq<Seq<char>>) -> Seq<char> {
    if filters.len() == 0 {
        Seq::empty()
    } else {
        " WHERE "@ + joined_with(filters, " AND "@)
    }
}

/// The start of the statement that selects a page.
pub open spec fn page_start() -> Seq<char> {
    "SELECT session_id, started_at_ms, completed_at_ms, duration_ms, locale, app_identifier, app_version, raw_transcript, polished_transcript, confidence_score, accuracy_flag, accuracy_remarks, post_actions, metadata FROM sessions"@
}

/// The statement that selects a page of matches, newest first.
pub open spec fn page_query(query: HistoryQuery) -> Seq<char> {
    page_start() + where_part(search_filters(query))
        + " ORDER BY completed_at_ms DESC LIMIT ? OFFSET ?"@
}

/// The statement that counts all matches.
pub open spec fn count_query(query: HistoryQuery) -> Seq<char> {
    "SELECT COUNT(*) FROM sessions"@ + where_part(search_filters(query))
}

fn filter_value(value: &Option<String>) -> (r: Option<String>)
    ensures
        text::opt_text(r) == filter_text(*value),
{
    match value {
        Some(v) => {
            let t = text::trimmed(&text::chars_of(v.as_str()));
            if t.is_empty() {
                None
            } else {
                Some(text::string_of(&t))
            }
        },
        None => None,
    }
}

fn where_string(filters: &Vec<String>) -> (r: String)
    ensures
        r@ == where_part(text::texts(filters@)),
{
    let mut out = String::new();
    if filters.len() == 0 {
        return out;
    }
    text::append_text(&mut out, " WHERE ");
    let ghost all = text::texts(filters@);
    let mut i: usize = 0;
    while i < filters.len()
        invariant
            i <= filters@.len(),
            all == text::texts(filters@),
            out@ == " WHERE "@ + joined_with(all.take(i as int), " AND "@),
        decreases filters.len() - i,
    {
        if i > 0 {
            text::append_text(&mut out, " AND ");
        }
        text::append_text(&mut out, filters[i].as_str());
        proof {
            let head = all.take(i + 1);
            assert(head.drop_last() =~= all.take(i as int));
            assert(head.last() == filters@[i as int]@);
            if i == 0 {
                assert(head.first() == filters@[0]@);
            }
            assert(out@ =~= " WHERE "@ + joined_with(head, " AND "@));
        }
        i += 1;
    }
    assert(all.take(all.len() as int) =~= all);
    out
}

/// The statements that a search needs.
pub fn plan_search(query: &HistoryQuery) -> (plan: SearchPlan)
    ensures
        text::texts(plan.values@) == search_values(*query),
        plan.page_sql@ == page_query(*query),
        plan.count_sql@ == count_query(*query),
        plan.limit == query.limit as i64,
        plan.offset == query.offset as i64,
{
    let mut filters: Vec<String> = Vec::new();
    let mut values: Vec<String> = Vec::new();
    if let Some(keyword) = filter_value(&query.keyword) {
        filters.push(
            "rowid IN (SELECT rowid FROM session_index WHERE session_index MATCH ?)".to_owned(),
        );
        let mut prefix = keyword;
        prefix.push('*');
        values.push(prefix);
    }
    let ghost filters_1 = text::texts(filters@);
    let ghost values_1 = text::texts(values@);
    if let Some(locale) = filter_value(&query.locale) {
        filters.push("locale = ?".to_owned());
        values.push(locale);
        assert(text::texts(filters@) =~= filters_1.push("locale = ?"@));
        assert(text::texts(values@) =~= values_1.push(locale@));
    }
    let ghost filters_2 = text::texts(filters@);
    let ghost values_2 = text::texts(values@);
    if let Some(app) = filter_value(&query.app_identifier) {
        filters.push("app_identifier = ?".to_owned());
        values.push(app);
        assert(text::texts(filters@) =~= filters_2.push("app_identifier = ?"@));
        assert(text::texts(values@) =~= values_2.push(app@));
    }
    assert(text::texts(filters@) =~= search_filters(*query));
    assert(text::texts(values@) =~= search_values(*query));
    let condition = where_string(&filters);
    let mut page_sql = "SELECT session_id, started_at_ms, completed_at_ms, duration_ms, locale, app_identifier, app_version, raw_transcript, polished_transcript, confidence_score, accuracy_flag, accuracy_remarks, post_actions, metadata FROM sessions".to_owned();
    text::append_text(&mut page_sql, condition.as_str());
    text::append_text(&mut page_sql, " ORDER BY completed_at_ms DESC LIMIT ? OFFSET ?");
    let mut count_sql = "SELECT COUNT(*) FROM sessions".to_owned();
    text::append_text(&mut count_sql, condition.as_str());
    SearchPlan {
        page_sql,
        count_sql,
        values,
        limit: query.limit as i64,
        offset: query.offset as i64,
    }
}

proof fn lemma_where_push(filters: Seq<Seq<char>>, filter: Seq<char>)
    ensures
        where_part(filters.push(filter)) == if filters.len() == 0 {
            " WHERE "@ + filter
        } else {
            where_part(filters) + " AND "@ + filter
        },
{
    let all = filters.push(filter);
    assert(all.drop_last() =~= filters);
    if filters.len() == 0 {
        assert(all.first() == filter);
    } else {
        assert(where_part(all) =~= where_part(filters) + " AND "@ + filter);
    }
}

/// Whether a text holds more than whitespace.
pub open spec fn says_something(value: Option<String>) -> bool {
    value matches Some(v) && exists|i: int| 0 <= i < v@.len() && !text::is_white(#[trigger] v@[i])
}

proof fn lemma_says_something(value: Option<String>)
    ensures
        says_something(value) <==> filter_text(value) is Some,
{
    if let Some(v) = value {
        text::lemma_trim_empty(v@);
    }
}

/// Each filter of a search narrows it: an application that is asked for adds its
/// condition and its value at the end, in both statements, on top of what the
/// other filters ask.
pub proof fn law_application_narrows_a_search(query: HistoryQuery)
    requires
        says_something(query.app_identifier),
    ensures
        ({
            let wider = HistoryQuery { app_identifier: None, ..query };
            let joint = if says_something(query.keyword) || says_something(query.locale) {
                " AND "@
            } else {
                " WHERE "@
            };
            &&& count_query(query) == count_query(wider) + joint + "app_identifier = ?"@
            &&& search_values(query) == search_values(wider).push(
                text::trim(query.app_identifier->0@),
            )
        }),
{
    let wider = HistoryQuery { app_identifier: None, ..query };
    lemma_says_something(query.keyword);
    lemma_says_something(query.locale);
    lemma_says_something(query.app_identifier);
    lemma_where_push(search_filters(wider), "app_identifier = ?"@);
    assert(search_filters(query) =~= search_filters(wider).push("app_identifier = ?"@));
    assert(search_values(query) =~= search_values(wider).push(
        text::trim(query.app_identifier->0@),
    ));
    let start = "SELECT COUNT(*) FROM sessions"@;
    if search_filters(wider).len() == 0 {
        assert(search_filters(wider) =~= Seq::<Seq<char>>::empty());
        assert(count_query(wider) =~= start);
        assert(count_query(query) =~= count_query(wider) + " WHERE "@ + "app_identifier = ?"@);
    } else {
        assert(count_query(query) =~= count_query(wider) + " AND "@ + "app_identifier = ?"@);
    }
}

/// Each filter of a search narrows it: so does a locale that is asked for.
pub proof fn law_locale_narrows_a_search(query: HistoryQuery)
    requires
        says_something(query.locale),
        query.app_identifier is None,
    ensures
        ({
            let wider = HistoryQuery { locale: None, ..query };
            let joint = if says_something(query.keyword) {
                " AND "@
            } else {
                " WHERE "@
            };
            &&& count_query(query) == count_query(wider) + joint + "locale = ?"@
            &&& search_values(query) == search_values(wider).push(text::trim(query.locale->0@))
        }),
{
    let wider = HistoryQuery { locale: None, ..query };
    lemma_says_something(query.keyword);
    lemma_says_something(query.locale);
    lemma_where_push(search_filters(wider), "locale = ?"@);
    assert(search_filters(query) =~= search_filters(wider).push("locale = ?"@));
    assert(search_values(query) =~= search_values(wider).push(text::trim(query.locale->0@)));
    let start = "SELECT COUNT(*) FROM sessions"@;
    if search_filters(wider).len() == 0 {
        assert(search_filters(wider) =~= Seq::<Seq<char>>::empty());
        assert(count_query(wider) =~= start);
        assert(count_query(query) =~= count_query(wider) + " WHERE "@ + "locale = ?"@);
    } else {
        assert(count_query(query) =~= count_query(wider) + " AND "@ + "locale = ?"@);
    }
}

/// Each filter of a search narrows it: so does a keyword, which is looked up in
/// the index as the start of a word.
pub proof fn law_keyword_narrows_a_search(query: HistoryQuery)
    requires
        says_something(query.keyword),
        query.locale is None,
        query.app_identifier is None,
    ensures
        count_query(query) == "SELECT COUNT(*) FROM sessions"@ + " WHERE "@
            + "rowid IN (SELECT rowid FROM session_index WHERE session_index MATCH ?)"@,
        search_values(query) == seq![text::trim(query.keyword->0@) + seq!['*']],
{
    lemma_says_something(query.keyword);
    let condition = "rowid IN (SELECT rowid FROM session_index WHERE session_index MATCH ?)"@;
    lemma_where_push(Seq::empty(), condition);
    assert(search_filters(query) =~= Seq::<Seq<char>>::empty().push(condition));
    let word = text::trim(query.keyword->0@);
    assert(word.push('*') =~= word + seq!['*']);
    assert(search_values(query) =~= seq![word + seq!['*']]);
    assert(count_query(query) =~= "SELECT COUNT(*) FROM sessions"@ + " WHERE "@ + condition);
}

/// A search without filters finds everything, and a blank filter is none.
pub proof fn law_blank_filters_do_not_narrow(query: HistoryQuery)
    requires
        !says_something(query.keyword),
        !says_something(query.locale),
        !says_something(query.app_identifier),
    ensures
        count_query(query) == "SELECT COUNT(*) FROM sessions"@,
        search_values(query) == Seq::<Seq<char>>::empty(),
{
    lemma_says_something(query.keyword);
    lemma_says_something(query.locale);
    lemma_says_something(query.app_identifier);
    assert(search_filters(query) =~= Seq::<Seq<char>>::empty());
    assert(search_values(query) =~= Seq::<Seq<char>>::empty());
    assert(count_query(query) =~= "SELECT COUNT(*) FROM sessions"@);
}

/// Only the trimmed texts of the filters matter to a search, and a filter that
/// is blank counts as one that is missing.
pub proof fn law_only_trimmed_filters_matter(a: HistoryQuery, b: HistoryQuery)
    requires
        says_something(a.keyword) == says_something(b.keyword),
        says_something(a.locale) == says_something(b.locale),
        says_something(a.app_identifier) == says_something(b.app_identifier),
        says_something(a.keyword) ==> text::trim(a.keyword->0@) == text::trim(b.keyword->0@),
        says_something(a.locale) ==> text::trim(a.locale->0@) == text::trim(b.locale->0@),
        says_something(a.app_identifier) ==> text::trim(a.app_identifier->0@) == text::trim(
            b.app_identifier->0@,
        ),
    ensures
        count_query(a) == count_query(b),
        page_query(a) == page_query(b),
        search_values(a) == search_values(b),
{
    lemma_says_something(a.keyword);
    lemma_says_something(a.locale);
    lemma_says_something(a.app_identifier);
    lemma_says_something(b.keyword);
    lemma_says_something(b.locale);
    lemma_says_something(b.app_identifier);
}

/// A page is a part of what is counted: both statements have the same
/// conditions, and the page comes newest first, limited and from an offset on.
pub proof fn law_page_is_a_part_of_what_is_counted(query: HistoryQuery)
    ensures
        exists|conditions: Seq<char>| #![trigger "SELECT COUNT(*) FROM sessions"@ + conditions]
            {
                &&& count_query(query) == "SELECT COUNT(*) FROM sessions"@ + conditions
                &&& page_query(query)
                    == "SELECT session_id, started_at_ms, completed_at_ms, duration_ms, locale, app_identifier, app_version, raw_transcript, polished_transcript, confidence_score, accuracy_flag, accuracy_remarks, post_actions, metadata FROM sessions"@
                    + conditions + " ORDER BY completed_at_ms DESC LIMIT ? OFFSET ?"@
            },
{
    let conditions = where_part(search_filters(query));
    assert(count_query(query) == "SELECT COUNT(*) FROM sessions"@ + conditions);
}

/// Where the page after one with `found` entries starts, if `total` has more.
pub open spec fn page_after(offset: nat, found: nat, total: nat) -> Option<nat> {
    if offset + found < total {
        Some(offset + found)
    } else {
        None
    }
}

/// Where the next page of a search starts, if there is one.
pub fn next_offset(offset: usize, found: usize, total: i64) -> (r: Option<usize>)
    requires
        offset + found <= usize::MAX,
        0 <= total <= usize::MAX,
    ensures
        match r {
            Some(n) => page_after(offset as nat, found as nat, total as nat) == Some(n as nat),
            None => page_after(offset as nat, found as nat, total as nat) is None,
        },
{
    if offset + found < total as usize {
        Some(offset + found)
    } else {
        None
    }
}

/// The entries on the page of a database with `total` matches.
pub open spec fn page_len(offset: nat, limit: nat, total: nat) -> nat {
    if offset >= total {
        0
    } else if total - offset <= limit {
        (total - offset) as nat
    } else {
        limit
    }
}

/// Following the next offsets from any page visits the rest of the matches
/// without a gap or an overlap: a next page starts where this one ends and makes
/// progress, and without one nothing is left.
pub proof fn law_pages_cover_all_matches(offset: nat, limit: nat, total: nat)
    requires
        limit > 0,
        offset <= total,
    ensures
        ({
            let found = page_len(offset, limit, total);
            match page_after(offset, found, total) {
                Some(next) => next == offset + found && offset < next < total && found == limit,
                None => offset + found == total,
            }
        }),
{
}

/// The bytes that a character takes in UTF-8.
pub open spec fn utf8_len(c: char) -> nat {
    if c <= '\u{7f}' {
        1
    } else if c <= '\u{7ff}' {
        2
    } else if c <= '\u{ffff}' {
        3
    } else {
        4
    }
}

/// The bytes that a text takes in UTF-8.
pub open spec fn byte_len(s: Seq<char>) -> nat
    decreases s.len(),
{
    if s.len() == 0 {
        0
    } else {
        byte_len(s.drop_last()) + utf8_len(s.last())
    }
}

/// The longest start of `s` that takes at most `limit` bytes.
pub open spec fn fitting(s: Seq<char>, limit: nat) -> Seq<char>
    decreases s.len(),
{
    if byte_len(s) <= limit {
        s
    } else {
        fitting(s.drop_last(), limit)
    }
}

/// The preview of a session: its polished text, or the raw one if that is
/// blank, trimmed, and cut with an ellipsis if it takes more than `limit` bytes.
pub open spec fn preview_text(raw: Seq<char>, polished: Seq<char>, limit: nat) -> Seq<char> {
    let whole = text::trim(
        if text::trim(polished).len() == 0 {
            raw
        } else {
            polished
        },
    );
    if byte_len(whole) > limit {
        fitting(whole, limit).push('…')
    } else {
        whole
    }
}

fn char_utf8_len(c: char) -> (r: usize)
    ensures
        r == utf8_len(c),
{
    if c <= '\u{7f}' {
        1
    } else if c <= '\u{7ff}' {
        2
    } else if c <= '\u{ffff}' {
        3
    } else {
        4
    }
}

/// Cutting at the end of a fitting start, whose next character does not fit,
/// gives the longest one.
proof fn lemma_fitting_at(s: Seq<char>, k: int, limit: nat)
    requires
        0 <= k < s.len(),
        byte_len(s.take(k)) <= limit,
        byte_len(s.take(k + 1)) > limit,
    ensures
        fitting(s, limit) == s.take(k),
        byte_len(s) > limit,
    decreases s.len(),
{
    if s.len() == k + 1 {
        assert(s.take(k + 1) =~= s);
        assert(s.drop_last() =~= s.take(k));
        assert(fitting(s.take(k), limit) == s.take(k));
    } else {
        let t = s.drop_last();
        assert(t.take(k) =~= s.take(k));
        assert(t.take(k + 1) =~= s.take(k + 1));
        lemma_fitting_at(t, k, limit);
    }
}

/// The preview of a session.
pub fn history_preview(raw: &str, polished: &str, limit: usize) -> (r: String)
    requires
        limit <= usize::MAX - 4,
    ensures
        r@ == preview_text(raw@, polished@, limit as nat),
{
    let source = if text::is_blank(polished) {
        raw
    } else {
        polished
    };
    let whole = text::trimmed(&text::chars_of(source));
    let mut bytes: usize = 0;
    let mut i: usize = 0;
    while i < whole.len()
        invariant
            limit <= usize::MAX - 4,
            whole@ == text::trim(
                if text::trim(polished@).len() == 0 {
                    raw@
                } else {
                    polished@
                },
            ),
            i <= whole@.len(),
            bytes == byte_len(whole@.take(i as int)),
            bytes <= limit,
        decreases whole.len() - i,
    {
        assert(whole@.take(i + 1).drop_last() =~= whole@.take(i as int));
        let next: usize = bytes + char_utf8_len(whole[i]);
        if next > limit {
            proof {
                lemma_fitting_at(whole@, i as int, limit as nat);
            }
            let mut cut = text::copy_range(&whole, 0, i);
            assert(cut@ =~= whole@.take(i as int));
            cut.push('…');
            return text::string_of(&cut);
        }
        bytes = next;
        i += 1;
    }
    assert(whole@.take(i as int) =~= whole@);
    text::string_of(&whole)
}

/// The result of a statement that changes one session.
pub fn changed_session(affected: usize, session_id: &str, suffix: &str) -> (r: Result<(), String>)
    ensures
        affected > 0 ==> r is Ok,
        affected == 0 ==> (r matches Err(e) && e@ == "session "@ + session_id@ + " not found"@
            + suffix@),
{
    if affected == 0 {
        let mut error = "session ".to_owned();
        text::append_text(&mut error, session_id);
        text::append_text(&mut error, " not found");
        text::append_text(&mut error, suffix);
        Err(error)
    } else {
        Ok(())
    }
}

/// The actions of a session with one more. Actions that could not be read count
/// as none.
pub fn appended_actions<T>(existing: Option<Vec<T>>, action: T) -> (r: Vec<T>)
    ensures
        r@ == (match existing {
            Some(list) => list@,
            None => Seq::<T>::empty(),
        }).push(action),
{
    let mut actions: Vec<T> = match existing {
        Some(list) => list,
        None => Vec::new(),
    };
    actions.push(action);
    actions
}

/// How many of `count` telemetry events are too many.
pub open spec fn excess_of(count: int) -> int {
    if count <= MAX_TELEMETRY_QUEUE {
        0
    } else {
        count - MAX_TELEMETRY_QUEUE
    }
}

/// Once the excess is gone, five hundred events wait, or all there were if there
/// were fewer.
pub proof fn law_five_hundred_events_wait(count: int)
    requires
        count >= 0,
    ensures
        0 <= excess_of(count) <= count,
        count - excess_of(count) <= 500,
        excess_of(count) > 0 ==> count - excess_of(count) == 500,
{
}

/// How many of the oldest telemetry events have to go when `count` wait.
pub fn telemetry_excess(count: i64) -> (r: i64)
    requires
        count >= 0,
    ensures
        r == excess_of(count as int),
        r == if count > MAX_TELEMETRY_QUEUE {
            count - MAX_TELEMETRY_QUEUE
        } else {
            0
        },
{
    if count > MAX_TELEMETRY_QUEUE {
        count - MAX_TELEMETRY_QUEUE
    } else {
        0
    }
}

/// Dropping the excess after every addition keeps the newest events, up to the
/// capacity of the queue.
pub proof fn law_telemetry_queue_stays_within_capacity<T>(queue: Seq<T>, events: Seq<T>)
    requires
        queue.len() <= MAX_TELEMETRY_QUEUE,
    ensures
        ({
            let after = bounded::retained_all(queue, events, MAX_TELEMETRY_QUEUE as nat);
            &&& after.len() <= MAX_TELEMETRY_QUEUE
            &&& after == bounded::newest(queue + events, MAX_TELEMETRY_QUEUE as nat)
            &&& queue.len() + events.len() >= MAX_TELEMETRY_QUEUE ==> after.len()
                == MAX_TELEMETRY_QUEUE
        }),
{
    bounded::law_history_keeps_the_newest(queue, events, MAX_TELEMETRY_QUEUE as nat);
}

/// A preview is the start of the polished text, or of the raw one where that is
/// blank. Text that fits is shown whole; of text that does not, as much as fits,
/// and an ellipsis.
pub proof fn law_preview_shows_the_start(raw: Seq<char>, polished: Seq<char>, limit: nat)
    ensures
        ({
            let blank = forall|i: int|
                0 <= i < polished.len() ==> text::is_white(#[trigger] polished[i]);
            let whole = if blank {
                text::trim(raw)
            } else {
                text::trim(polished)
            };
            let shown = preview_text(raw, polished, limit);
            &&& byte_len(whole) <= limit ==> shown == whole
            &&& byte_len(whole) > limit ==> {
                let n = shown.len() - 1;
                &&& 0 <= n < whole.len()
                &&& shown.last() == '…'
                &&& shown.take(n) == whole.take(n)
                &&& byte_len(whole.take(n)) <= limit
                &&& byte_len(whole.take(n + 1)) > limit
            }
        }),
{
    text::lemma_trim_empty(polished);
    let whole = text::trim(
        if text::trim(polished).len() == 0 {
            raw
        } else {
            polished
        },
    );
    if byte_len(whole) > limit {
        lemma_fitting(whole, limit);
        let kept = fitting(whole, limit);
        assert(kept.push('…').take(kept.len() as int) =~= kept);
    }
}

proof fn lemma_fitting(s: Seq<char>, limit: nat)
    requires
        byte_len(s) > limit,
    ensures
        fitting(s, limit).len() < s.len(),
        fitting(s, limit) == s.take(fitting(s, limit).len() as int),
        byte_len(fitting(s, limit)) <= limit,
        byte_len(s.take((fitting(s, limit).len() + 1) as int)) > limit,
    decreases s.len(),
{
    let t = s.drop_last();
    if byte_len(t) > limit {
        lemma_fitting(t, limit);
        let n = fitting(t, limit).len() as int;
        assert(t.take(n) =~= s.take(n));
        assert(t.take(n + 1) =~= s.take(n + 1));
    } else {
        assert(fitting(t, limit) == t);
        assert(fitting(s, limit) == fitting(s.drop_last(), limit));
        assert(t =~= s.take(t.len() as int));
        assert(s.take((t.len() + 1) as int) =~= s);
    }
}

proof fn lemma_encoded_push(t: Seq<char>, c: char)
    ensures
        encode_utf8(t.push(c)).len() == encode_utf8(t).len() + utf8_len(c),
    decreases t.len(),
{
    let s = t.push(c);
    if t.len() == 0 {
        assert(s.drop_first() =~= t);
        assert(encode_utf8(s) == vstd::utf8::encode_scalar(c as u32) + encode_utf8(t));
        assert(vstd::utf8::encode_scalar(c as u32).len() == utf8_len(c));
    } else {
        lemma_encoded_push(t.drop_first(), c);
        assert(s.drop_first() =~= t.drop_first().push(c));
        assert(s[0] == t[0]);
    }
}

/// A text is as long in bytes as its UTF-8 form.
pub proof fn law_bytes_are_those_of_utf8(s: Seq<char>)
    ensures
        byte_len(s) == encode_utf8(s).len(),
    decreases s.len(),
{
    if s.len() > 0 {
        let t = s.drop_last();
        law_bytes_are_those_of_utf8(t);
        lemma_encoded_push(t, s.last());
        assert(t.push(s.last()) =~= s);
    }
}

} // verus!
