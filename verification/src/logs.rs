//! Append-only, bounded event log.  Every request, response, error and
//! update event of the RPC layer is recorded here; once the log is full the
//! oldest entries are evicted first.  The caller owning the composition root
//! wraps a [`LogStore`] in its own reference-counted lock and passes the lock
//! to every component that logs.

use vstd::prelude::*;

use crate::textops::{contains_seq, lower_of, str_contains, to_lowercase};

verus! {

/// Most entries the log keeps before evicting the oldest.
pub const LOG_MAX_ENTRIES: usize = 1000;

/// One observability event.
#[derive(Debug, Clone, PartialEq)]
pub struct LogEntry {
    /// Unix timestamp (seconds) when the event was recorded.
    pub timestamp: i64,
    /// What kind of event this is.
    pub entry_type: LogEntryType,
    /// The operation performed, such as `get_block`.
    pub operation: String,
    /// The endpoint the operation ran against.
    pub url: String,
    /// Request parameters, response summary, or error text.
    pub content: String,
    /// Status text, such as `200 OK`.
    pub status: String,
}

/// The kind of a log entry.
#[derive(Debug, Clone, Copy, PartialEq, Eq, Structural)]
pub enum LogEntryType {
    Request,
    Response,
    Error,
    Update,
}

/// The icon shown for each kind of entry.
pub open spec fn icon_spec(t: LogEntryType) -> Seq<char> {
    match t {
        LogEntryType::Request => "\u{2b06}\u{fe0f}"@,
        LogEntryType::Response => "\u{2b07}\u{fe0f}"@,
        LogEntryType::Error => "\u{274c}"@,
        LogEntryType::Update => "\u{1f504}"@,
    }
}

impl LogEntryType {
    /// A one-glyph icon for this kind of entry.
    pub fn icon(&self) -> (r: &'static str)
        ensures
            r@ == icon_spec(*self),
    {
        match self {
            LogEntryType::Request => "\u{2b06}\u{fe0f}",
            LogEntryType::Response => "\u{2b07}\u{fe0f}",
            LogEntryType::Error => "\u{274c}",
            LogEntryType::Update => "\u{1f504}",
        }
    }
}

/// The bounded log: entries oldest first, never more than `capacity` of them
/// after an append.
pub struct LogStore {
    pub entries: Vec<LogEntry>,
    pub capacity: usize,
}

/// What remains of `s` once everything before the last `cap` entries is
/// evicted.
pub open spec fn evicted(s: Seq<LogEntry>, cap: int) -> Seq<LogEntry> {
    if s.len() > cap {
        s.skip(s.len() - cap)
    } else {
        s
    }
}

/// Creates an empty log with the default capacity.
pub fn create_log_store() -> (r: LogStore)
    ensures
        r.entries@ == Seq::<LogEntry>::empty(),
        r.capacity == LOG_MAX_ENTRIES,
{
    create_log_store_with_capacity(LOG_MAX_ENTRIES)
}

/// Creates an empty log that evicts beyond the given capacity.
pub fn create_log_store_with_capacity(capacity: usize) -> (r: LogStore)
    ensures
        r.entries@ == Seq::<LogEntry>::empty(),
        r.capacity == capacity,
{
    LogStore { entries: Vec::new(), capacity }
}

/// Appends one entry, evicting the oldest entries if the log would exceed its
/// capacity.
pub fn add_log_entry(store: &mut LogStore, entry: LogEntry)
    ensures
        final(store).capacity == old(store).capacity,
        final(store).entries@ == evicted(
            old(store).entries@.push(entry),
            old(store).capacity as int,
        ),
        final(store).entries@.len() <= final(store).capacity,
{
    let ghost pushed: Seq<LogEntry> = old(store).entries@.push(entry);
    store.entries.push(entry);
    proof {
        assert(store.entries@ =~= pushed.skip(0));
    }
    while store.entries.len() > store.capacity
        invariant
            store.capacity == old(store).capacity,
            store.entries@.len() <= pushed.len(),
            pushed.len() > store.capacity ==> store.entries@.len() >= store.capacity,
            pushed.len() <= store.capacity ==> store.entries@.len() == pushed.len(),
            store.entries@ == pushed.skip(pushed.len() - store.entries@.len()),
        decreases store.entries@.len(),
    {
        store.entries.remove(0);
        proof {
            let n = store.entries@.len() as int;
            assert(store.entries@ =~= pushed.skip(pushed.len() - n));
        }
    }
    proof {
        if pushed.len() <= old(store).capacity {
            assert(pushed.skip(0) =~= pushed);
        }
    }
}

/// One fold step of repeated appends: the log contents after appending each
/// entry of `es` in turn to a log holding `s`.
pub open spec fn append_all(s: Seq<LogEntry>, es: Seq<LogEntry>, cap: int) -> Seq<LogEntry>
    decreases es.len(),
{
    if es.len() == 0 {
        s
    } else {
        evicted(append_all(s, es.drop_last(), cap).push(es.last()), cap)
    }
}

/// Appending entries one at a time evicts exactly as appending them all at
/// once would: only the last `cap` entries of the whole history remain.
pub proof fn lemma_append_all_evicts(s: Seq<LogEntry>, es: Seq<LogEntry>, cap: int)
    requires
        0 <= cap,
        s.len() <= cap,
    ensures
        append_all(s, es, cap) == evicted(s + es, cap),
    decreases es.len(),
{
    if es.len() == 0 {
        assert(s + es =~= s);
    } else {
        let es0 = es.drop_last();
        lemma_append_all_evicts(s, es0, cap);
        let x = s + es0;
        assert(append_all(s, es, cap) == evicted(append_all(s, es0, cap).push(es.last()), cap));
        assert(x.push(es.last()) =~= s + es);
        if x.len() <= cap {
            assert(append_all(s, es, cap) == evicted(s + es, cap));
        } else {
            assert(evicted(x, cap).push(es.last()) =~= (s + es).skip(x.len() - cap));
            assert(evicted(evicted(x, cap).push(es.last()), cap) =~= evicted(s + es, cap));
            assert(append_all(s, es, cap) == evicted(s + es, cap));
        }
    }
}

/// Eviction law: appending `es` to an empty log of capacity `cap`, where
/// `es` holds at least `cap` entries, leaves exactly the last `cap` of them,
/// oldest first.
pub proof fn lemma_log_eviction(es: Seq<LogEntry>, cap: int)
    requires
        0 <= cap <= es.len(),
    ensures
        append_all(Seq::<LogEntry>::empty(), es, cap) == es.skip(es.len() - cap),
{
    lemma_append_all_evicts(Seq::<LogEntry>::empty(), es, cap);
    assert(Seq::<LogEntry>::empty() + es =~= es);
    if es.len() == cap {
        assert(es.skip(0) =~= es);
    }
}

/// The entry that logging a request records.
pub open spec fn is_request_entry(
    e: LogEntry,
    now: i64,
    operation: Seq<char>,
    url: Seq<char>,
    params: Seq<char>,
) -> bool {
    &&& e.timestamp == now
    &&& e.entry_type == LogEntryType::Request
    &&& e.operation@ == operation
    &&& e.url@ == url
    &&& e.content@ == params
    &&& e.status@ == "Sent"@
}

/// Records an RPC request at the given time.
pub fn log_request(store: &mut LogStore, now: i64, operation: &str, url: &str, params: &str)
    ensures
        final(store).capacity == old(store).capacity,
        exists|e: LogEntry|
            #[trigger] is_request_entry(e, now, operation@, url@, params@) && final(store).entries@
                == evicted(old(store).entries@.push(e), old(store).capacity as int),
{
    let entry = LogEntry {
        timestamp: now,
        entry_type: LogEntryType::Request,
        operation: String::from_str(operation),
        url: String::from_str(url),
        content: String::from_str(params),
        status: String::from_str("Sent"),
    };
    proof {
        assert(is_request_entry(entry, now, operation@, url@, params@));
    }
    add_log_entry(store, entry);
}

/// The entry that logging a response records.
pub open spec fn is_response_entry(
    e: LogEntry,
    now: i64,
    operation: Seq<char>,
    url: Seq<char>,
    response: Seq<char>,
    status: Seq<char>,
) -> bool {
    &&& e.timestamp == now
    &&& e.entry_type == LogEntryType::Response
    &&& e.operation@ == operation
    &&& e.url@ == url
    &&& e.content@ == response
    &&& e.status@ == status
}

/// Records an RPC response at the given time.
pub fn log_response(
    store: &mut LogStore,
    now: i64,
    operation: &str,
    url: &str,
    response: &str,
    status: &str,
)
    ensures
        final(store).capacity == old(store).capacity,
        exists|e: LogEntry|
            #[trigger] is_response_entry(e, now, operation@, url@, response@, status@)
                && final(store).entries@ == evicted(
                old(store).entries@.push(e),
                old(store).capacity as int,
            ),
{
    let entry = LogEntry {
        timestamp: now,
        entry_type: LogEntryType::Response,
        operation: String::from_str(operation),
        url: String::from_str(url),
        content: String::from_str(response),
        status: String::from_str(status),
    };
    proof {
        assert(is_response_entry(entry, now, operation@, url@, response@, status@));
    }
    add_log_entry(store, entry);
}

/// The entry that logging an error records.
pub open spec fn is_error_entry(
    e: LogEntry,
    now: i64,
    operation: Seq<char>,
    url: Seq<char>,
    error: Seq<char>,
) -> bool {
    &&& e.timestamp == now
    &&& e.entry_type == LogEntryType::Error
    &&& e.operation@ == operation
    &&& e.url@ == url
    &&& e.content@ == error
    &&& e.status@ == "Error"@
}

/// Records a failed RPC call at the given time.
pub fn log_error(store: &mut LogStore, now: i64, operation: &str, url: &str, error: &str)
    ensures
        final(store).capacity == old(store).capacity,
        exists|e: LogEntry|
            #[trigger] is_error_entry(e, now, operation@, url@, error@) && final(store).entries@
                == evicted(old(store).entries@.push(e), old(store).capacity as int),
{
    let entry = LogEntry {
        timestamp: now,
        entry_type: LogEntryType::Error,
        operation: String::from_str(operation),
        url: String::from_str(url),
        content: String::from_str(error),
        status: String::from_str("Error"),
    };
    proof {
        assert(is_error_entry(entry, now, operation@, url@, error@));
    }
    add_log_entry(store, entry);
}

/// The entry that logging an update event records.
pub open spec fn is_update_entry(
    e: LogEntry,
    now: i64,
    operation: Seq<char>,
    message: Seq<char>,
    status: Seq<char>,
) -> bool {
    &&& e.timestamp == now
    &&& e.entry_type == LogEntryType::Update
    &&& e.operation@ == operation
    &&& e.url@ == "updater"@
    &&& e.content@ == message
    &&& e.status@ == status
}

/// Records an update-related event at the given time.
pub fn log_update(store: &mut LogStore, now: i64, operation: &str, message: &str, status: &str)
    ensures
        final(store).capacity == old(store).capacity,
        exists|e: LogEntry|
            #[trigger] is_update_entry(e, now, operation@, message@, status@)
                && final(store).entries@ == evicted(
                old(store).entries@.push(e),
                old(store).capacity as int,
            ),
{
    let entry = LogEntry {
        timestamp: now,
        entry_type: LogEntryType::Update,
        operation: String::from_str(operation),
        url: String::from_str("updater"),
        content: String::from_str(message),
        status: String::from_str(status),
    };
    proof {
        assert(is_update_entry(entry, now, operation@, message@, status@));
    }
    add_log_entry(store, entry);
}

impl LogStore {
    /// Drops every entry.
    pub fn clear(&mut self)
        ensures
            final(self).entries@ == Seq::<LogEntry>::empty(),
            final(self).capacity == old(self).capacity,
    {
        self.entries.clear();
    }
}

/// Whether an entry matches a lower-cased search needle in any of its text
/// fields.
pub open spec fn log_matches(e: LogEntry, needle: Seq<char>) -> bool {
    ||| contains_seq(lower_of(e.operation@), needle)
    ||| contains_seq(lower_of(e.url@), needle)
    ||| contains_seq(lower_of(e.content@), needle)
    ||| contains_seq(lower_of(e.status@), needle)
}

/// The entries of `s` that match the needle, in order.
pub open spec fn filtered_logs(s: Seq<LogEntry>, needle: Seq<char>) -> Seq<LogEntry>
    decreases s.len(),
{
    if s.len() == 0 {
        Seq::empty()
    } else if log_matches(s.last(), needle) {
        filtered_logs(s.drop_last(), needle).push(s.last())
    } else {
        filtered_logs(s.drop_last(), needle)
    }
}

fn clone_log_entry(e: &LogEntry) -> (r: LogEntry)
    ensures
        r == *e,
{
    LogEntry {
        timestamp: e.timestamp,
        entry_type: e.entry_type,
        operation: e.operation.clone(),
        url: e.url.clone(),
        content: e.content.clone(),
        status: e.status.clone(),
    }
}

/// Keeps the entries whose operation, URL, content or status contains the
/// search term, case-insensitively; an empty term keeps everything.
pub fn filter_logs(logs: &Vec<LogEntry>, search_term: &str) -> (r: Vec<LogEntry>)
    ensures
        search_term@.len() == 0 ==> r@ == logs@,
        search_term@.len() > 0 ==> r@ == filtered_logs(logs@, lower_of(search_term@)),
{
    let mut r: Vec<LogEntry> = Vec::new();
    if search_term.is_empty() {
        let mut i: usize = 0;
        while i < logs.len()
            invariant
                i <= logs.len(),
                r@ == logs@.take(i as int),
            decreases logs.len() - i,
        {
            r.push(clone_log_entry(&logs[i]));
            proof {
                assert(r@ =~= logs@.take(i + 1));
            }
            i += 1;
        }
        proof {
            assert(logs@.take(logs@.len() as int) =~= logs@);
        }
        return r;
    }
    let needle = to_lowercase(search_term);
    let mut i: usize = 0;
    while i < logs.len()
        invariant
            i <= logs.len(),
            needle@ == lower_of(search_term@),
            r@ == filtered_logs(logs@.take(i as int), needle@),
        decreases logs.len() - i,
    {
        let e = &logs[i];
        let keep = {
            let op_l = to_lowercase(e.operation.as_str());
            let url_l = to_lowercase(e.url.as_str());
            let content_l = to_lowercase(e.content.as_str());
            let status_l = to_lowercase(e.status.as_str());
            str_contains(op_l.as_str(), needle.as_str()) || str_contains(
                url_l.as_str(),
                needle.as_str(),
            ) || str_contains(content_l.as_str(), needle.as_str()) || str_contains(
                status_l.as_str(),
                needle.as_str(),
            )
        };
        proof {
            assert(logs@.take(i + 1).drop_last() =~= logs@.take(i as int));
            assert(logs@.take(i + 1).last() == logs@[i as int]);
        }
        if keep {
            r.push(clone_log_entry(e));
        }
        i += 1;
    }
    proof {
        assert(logs@.take(logs@.len() as int) =~= logs@);
    }
    r
}

} // verus!
