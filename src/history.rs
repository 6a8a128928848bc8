//! The message log of one connection.
//!
//! A log holds its records sorted by the pair (timestamp, id), which is the
//! order that pagination and export use. Ids are handed out from a counter
//! that only grows, so every record has an id below the counter and no two
//! records share a key.
use vstd::prelude::*;
use crate::models::{HistoryMessageRecord, MessageDirection, MqttBatchItem};
use crate::strings::{csv_quoted, has_prefix, push_csv_field, safe_connection_id, sanitized};
use crate::text::{char_vec, decimal, digit, matches_at, push_decimal, push_str};

verus! {

/// Largest page a query returns.
pub const MAX_QUERY_LIMIT: usize = 1000;

/// The ordering key of a record.
pub open spec fn key_of(r: HistoryMessageRecord) -> (int, int) {
    (r.timestamp as int, r.id as int)
}

/// Strict order on keys: by timestamp, then by id.
pub open spec fn key_lt(a: (int, int), b: (int, int)) -> bool {
    a.0 < b.0 || (a.0 == b.0 && a.1 < b.1)
}

/// Records strictly ascending by key.
pub open spec fn sorted_by_key(s: Seq<HistoryMessageRecord>) -> bool {
    forall|i: int, j: int| 0 <= i < j < s.len() ==> key_lt(key_of(s[i]), key_of(s[j]))
}

/// Number of leading records whose key is below `k`: where a record with key
/// `k` belongs, and how many records lie strictly before a cursor `k`.
pub open spec fn position_of(s: Seq<HistoryMessageRecord>, k: (int, int)) -> int
    decreases s.len(),
{
    if s.len() == 0 {
        0
    } else if key_lt(key_of(s.last()), k) {
        s.len() as int
    } else {
        position_of(s.drop_last(), k)
    }
}

/// A requested page size brought into `[1, MAX_QUERY_LIMIT]`.
pub open spec fn clamped(limit: int) -> int {
    if limit < 1 {
        1
    } else if limit > MAX_QUERY_LIMIT {
        MAX_QUERY_LIMIT as int
    } else {
        limit
    }
}

pub open spec fn min_of(a: int, b: int) -> int {
    if a < b {
        a
    } else {
        b
    }
}

/// The `n` newest records, oldest first.
pub open spec fn latest_page(s: Seq<HistoryMessageRecord>, n: int) -> Seq<HistoryMessageRecord> {
    s.subrange(s.len() - min_of(n, s.len() as int), s.len() as int)
}

/// The `n` newest records strictly older than the cursor `c`, oldest first.
pub open spec fn page_before(s: Seq<HistoryMessageRecord>, c: (int, int), n: int) -> Seq<
    HistoryMessageRecord,
> {
    let k = position_of(s, c);
    s.subrange(k - min_of(n, k), k)
}

/// A batch item turned into a record with the given id.
pub open spec fn stamp(item: MqttBatchItem, id: int) -> HistoryMessageRecord {
    HistoryMessageRecord {
        id: id as i64,
        timestamp: item.timestamp,
        topic: item.topic,
        payload: item.payload,
        qos: item.qos,
        retain: item.retain,
        direction: item.direction,
    }
}

/// A batch turned into records with consecutive ids from `first_id`.
pub open spec fn stamp_all(b: Seq<MqttBatchItem>, first_id: int) -> Seq<HistoryMessageRecord> {
    Seq::new(b.len(), |i: int| stamp(b[i], first_id + i))
}

/// `s` with `r` put where its key belongs.
pub open spec fn insert_by_key(s: Seq<HistoryMessageRecord>, r: HistoryMessageRecord) -> Seq<
    HistoryMessageRecord,
> {
    s.insert(position_of(s, key_of(r)), r)
}

/// The records of `s` after the batch `b` was added with ids from `first_id`.
pub open spec fn appended(s: Seq<HistoryMessageRecord>, b: Seq<MqttBatchItem>, first_id: int) -> Seq<
    HistoryMessageRecord,
>
    decreases b.len(),
{
    if b.len() == 0 {
        s
    } else {
        insert_by_key(
            appended(s, b.drop_last(), first_id),
            stamp(b.last(), first_id + b.len() - 1),
        )
    }
}

/// Largest id among the records, 0 when there are none.
pub open spec fn max_id(s: Seq<HistoryMessageRecord>) -> int
    decreases s.len(),
{
    if s.len() == 0 {
        0
    } else if s.last().id > max_id(s.drop_last()) {
        s.last().id as int
    } else {
        max_id(s.drop_last())
    }
}

/// Every id lies in `[1, next_id)`.
pub open spec fn ids_below(s: Seq<HistoryMessageRecord>, next_id: int) -> bool {
    forall|i: int| 0 <= i < s.len() ==> 1 <= #[trigger] s[i].id < next_id
}

proof fn lemma_position_of(s: Seq<HistoryMessageRecord>, k: (int, int))
    requires
        sorted_by_key(s),
    ensures
        0 <= position_of(s, k) <= s.len(),
        forall|i: int| 0 <= i < position_of(s, k) ==> key_lt(#[trigger] key_of(s[i]), k),
        forall|i: int| position_of(s, k) <= i < s.len() ==> !key_lt(#[trigger] key_of(s[i]), k),
    decreases s.len(),
{
    if s.len() > 0 {
        let d = s.drop_last();
        assert(sorted_by_key(d));
        if key_lt(key_of(s.last()), k) {
            assert forall|i: int| 0 <= i < s.len() implies key_lt(#[trigger] key_of(s[i]), k) by {
                if i < s.len() - 1 {
                    assert(key_lt(key_of(s[i]), key_of(s.last())));
                }
            }
        } else {
            lemma_position_of(d, k);
            assert forall|i: int| 0 <= i < s.len() implies #[trigger] key_of(s[i]) == (if i < s.len()
                - 1 {
                key_of(d[i])
            } else {
                key_of(s.last())
            }) by {}
        }
    }
}

proof fn lemma_insert_sorted(s: Seq<HistoryMessageRecord>, r: HistoryMessageRecord, next_id: int)
    requires
        sorted_by_key(s),
        ids_below(s, next_id),
        r.id == next_id,
    ensures
        sorted_by_key(insert_by_key(s, r)),
        ids_below(insert_by_key(s, r), next_id + 1) <== 1 <= next_id,
        insert_by_key(s, r).len() == s.len() + 1,
        forall|x: HistoryMessageRecord| #[trigger]
            insert_by_key(s, r).contains(x) <==> (s.contains(x) || x == r),
{
    lemma_position_of(s, key_of(r));
    let p = position_of(s, key_of(r));
    let t = insert_by_key(s, r);
    assert forall|i: int, j: int| 0 <= i < j < t.len() implies key_lt(
        key_of(t[i]),
        key_of(t[j]),
    ) by {
        if j < p {
        } else if j == p {
        } else if i < p {
        } else if i == p {
            assert(t[j] == s[j - 1]);
            assert(s[j - 1].id < next_id);
        } else {
        }
    }
    assert forall|x: HistoryMessageRecord| #[trigger]
        t.contains(x) <==> (s.contains(x) || x == r) by {
        if t.contains(x) {
            let i = choose|i: int| 0 <= i < t.len() && t[i] == x;
            if i < p {
                assert(s[i] == x);
            } else if i > p {
                assert(s[i - 1] == x);
            }
        }
        if s.contains(x) {
            let i = choose|i: int| 0 <= i < s.len() && s[i] == x;
            if i < p {
                assert(t[i] == x);
            } else {
                assert(t[i + 1] == x);
            }
        }
        if x == r {
            assert(t[p] == x);
        }
    }
}

proof fn lemma_position_at(s: Seq<HistoryMessageRecord>, j: int)
    requires
        sorted_by_key(s),
        0 <= j < s.len(),
    ensures
        position_of(s, key_of(s[j])) == j,
{
    lemma_position_of(s, key_of(s[j]));
    let p = position_of(s, key_of(s[j]));
    if p < j {
        assert(key_lt(key_of(s[p]), key_of(s[j])));
    } else if p > j {
        assert(key_lt(key_of(s[j]), key_of(s[j])));
    }
}

proof fn lemma_appended_keeps_all(s: Seq<HistoryMessageRecord>, b: Seq<MqttBatchItem>, first: int)
    requires
        sorted_by_key(s),
        ids_below(s, first),
        1 <= first,
        first + b.len() <= i64::MAX,
    ensures
        sorted_by_key(appended(s, b, first)),
        ids_below(appended(s, b, first), first + b.len()),
        appended(s, b, first).len() == s.len() + b.len(),
        forall|x: HistoryMessageRecord| #[trigger]
            appended(s, b, first).contains(x) <==> (s.contains(x) || stamp_all(b, first).contains(
                x,
            )),
    decreases b.len(),
{
    if b.len() > 0 {
        let d = b.drop_last();
        lemma_appended_keeps_all(s, d, first);
        let prev = appended(s, d, first);
        let r = stamp(b.last(), first + b.len() - 1);
        lemma_insert_sorted(prev, r, first + d.len());
        assert forall|x: HistoryMessageRecord| #[trigger]
            stamp_all(b, first).contains(x) <==> (stamp_all(d, first).contains(x) || x == r) by {
            if stamp_all(b, first).contains(x) {
                let i = choose|i: int| 0 <= i < b.len() && stamp_all(b, first)[i] == x;
                if i < d.len() {
                    assert(stamp_all(d, first)[i] == x);
                }
            }
            if stamp_all(d, first).contains(x) {
                let i = choose|i: int| 0 <= i < d.len() && stamp_all(d, first)[i] == x;
                assert(stamp_all(b, first)[i] == x);
            }
            if x == r {
                assert(stamp_all(b, first)[b.len() - 1] == x);
            }
        }
    }
}

/// Appending a batch to an empty log and then reading a page large enough for
/// all of it returns exactly the appended records, with ids 1, 2, ..., ascending
/// by (timestamp, id); when the batch is in chronological order this is the
/// batch itself, in its own order.
pub proof fn lemma_append_then_latest(b: Seq<MqttBatchItem>, n: int)
    requires
        n >= b.len(),
        b.len() < i64::MAX,
    ensures
        latest_page(appended(Seq::empty(), b, 1), n) == appended(Seq::empty(), b, 1),
        sorted_by_key(appended(Seq::empty(), b, 1)),
        appended(Seq::empty(), b, 1).len() == b.len(),
        forall|x: HistoryMessageRecord| #[trigger]
            appended(Seq::empty(), b, 1).contains(x) <==> stamp_all(b, 1).contains(x),
        (forall|i: int, j: int|
            0 <= i < j < b.len() ==> b[i].timestamp <= b[j].timestamp) ==> appended(
            Seq::empty(),
            b,
            1,
        ) == stamp_all(b, 1),
{
    lemma_appended_keeps_all(Seq::empty(), b, 1);
    let a = appended(Seq::<HistoryMessageRecord>::empty(), b, 1);
    assert(a.subrange(0, a.len() as int) =~= a);
    if forall|i: int, j: int| 0 <= i < j < b.len() ==> b[i].timestamp <= b[j].timestamp {
        lemma_appended_in_order(b);
    }
}

proof fn lemma_appended_in_order(b: Seq<MqttBatchItem>)
    requires
        b.len() < i64::MAX,
        forall|i: int, j: int| 0 <= i < j < b.len() ==> b[i].timestamp <= b[j].timestamp,
    ensures
        appended(Seq::empty(), b, 1) == stamp_all(b, 1),
    decreases b.len(),
{
    if b.len() > 0 {
        let d = b.drop_last();
        lemma_appended_in_order(d);
        let prev = stamp_all(d, 1);
        let r = stamp(b.last(), b.len() as int);
        if d.len() > 0 {
            assert(prev.last() == stamp(d.last(), d.len() as int));
            assert(key_lt(key_of(prev.last()), key_of(r)));
        }
        assert(position_of(prev, key_of(r)) == prev.len());
        assert(prev.insert(prev.len() as int, r) =~= stamp_all(b, 1));
    }
}

/// A page before a cursor holds only records strictly older than the cursor.
/// Paging on with the oldest record of each page as the next cursor covers
/// every record exactly once: the records older than the cursor are the page
/// together with the records older than the next cursor, the two never
/// overlap, fewer records remain older than the next cursor, and a page comes
/// back empty only when no record is older than the cursor.
pub proof fn lemma_page_before(s: Seq<HistoryMessageRecord>, c: (int, int), n: int)
    requires
        sorted_by_key(s),
        n >= 1,
    ensures
        forall|i: int|
            0 <= i < page_before(s, c, n).len() ==> key_lt(
                key_of(#[trigger] page_before(s, c, n)[i]),
                c,
            ),
        page_before(s, c, n).len() == 0 <==> (forall|x: HistoryMessageRecord|
            #[trigger] s.contains(x) ==> !key_lt(key_of(x), c)),
        page_before(s, c, n).len() > 0 ==> {
            let p = page_before(s, c, n);
            let next = key_of(p[0]);
            &&& forall|x: HistoryMessageRecord| #[trigger]
                s.contains(x) ==> (key_lt(key_of(x), c) <==> (p.contains(x) || key_lt(
                    key_of(x),
                    next,
                )))
            &&& forall|x: HistoryMessageRecord| #[trigger]
                p.contains(x) ==> !key_lt(key_of(x), next)
            &&& position_of(s, next) < position_of(s, c)
        },
{
    lemma_position_of(s, c);
    let k = position_of(s, c);
    let m = min_of(n, k);
    let p = page_before(s, c, n);
    assert(p.len() == m);
    if m == 0 {
        assert forall|x: HistoryMessageRecord| #[trigger] s.contains(x) implies !key_lt(
            key_of(x),
            c,
        ) by {
            let i = choose|i: int| 0 <= i < s.len() && s[i] == x;
        }
    } else {
        assert(s.contains(s[0]));
        lemma_position_at(s, k - m);
        let next = key_of(p[0]);
        assert(p[0] == s[k - m]);
        assert forall|x: HistoryMessageRecord| #[trigger] s.contains(x) implies (key_lt(
            key_of(x),
            c,
        ) <==> (p.contains(x) || key_lt(key_of(x), next))) by {
            let i = choose|i: int| 0 <= i < s.len() && s[i] == x;
            if k - m <= i < k {
                assert(p[i - (k - m)] == x);
            }
            if i < k - m {
                assert(key_lt(key_of(s[i]), key_of(s[k - m])));
            }
            if p.contains(x) {
                let j = choose|j: int| 0 <= j < p.len() && p[j] == x;
                assert(s[k - m + j] == x);
            }
            if i > k - m {
                assert(key_lt(key_of(s[k - m]), key_of(s[i])));
            }
        }
        assert forall|x: HistoryMessageRecord| #[trigger] p.contains(x) implies !key_lt(
            key_of(x),
            next,
        ) by {
            let j = choose|j: int| 0 <= j < p.len() && p[j] == x;
            if j > 0 {
                assert(key_lt(key_of(s[k - m]), key_of(s[k - m + j])));
            }
        }
    }
}

/// Clearing a log leaves it as a newly created one: the same batch appended
/// to either, then read back with the same page size, gives the same records
/// and the same ids.
pub proof fn lemma_clear_resets(cleared: HistoryLog, fresh: HistoryLog, b: Seq<MqttBatchItem>, n: int)
    requires
        cleared.rows() == Seq::<HistoryMessageRecord>::empty(),
        cleared.next_id() == 1,
        fresh.rows() == Seq::<HistoryMessageRecord>::empty(),
        fresh.next_id() == 1,
    ensures
        appended(cleared.rows(), b, cleared.next_id()) == appended(fresh.rows(), b, fresh.next_id()),
        latest_page(appended(cleared.rows(), b, cleared.next_id()), n) == latest_page(
            appended(fresh.rows(), b, fresh.next_id()),
            n,
        ),
        cleared.next_id() + b.len() == fresh.next_id() + b.len(),
{
}

/// File format of an export.
#[derive(Clone, Copy, Debug, PartialEq, Eq, Structural)]
pub enum ExportFormat {
    Ndjson,
    Csv,
}

/// Whether a format name reads `csv`, ignoring ASCII case.
pub open spec fn names_csv(s: Seq<char>) -> bool {
    &&& s.len() == 3
    &&& (s[0] == 'c' || s[0] == 'C')
    &&& (s[1] == 's' || s[1] == 'S')
    &&& (s[2] == 'v' || s[2] == 'V')
}

/// The format a name selects: CSV for `csv` in any ASCII case, NDJSON otherwise.
pub fn export_format(name: &str) -> (f: ExportFormat)
    ensures
        f == (if names_csv(name@) {
            ExportFormat::Csv
        } else {
            ExportFormat::Ndjson
        }),
{
    let c = char_vec(name);
    if c.len() == 3 && (c[0] == 'c' || c[0] == 'C') && (c[1] == 's' || c[1] == 'S') && (c[2]
        == 'v' || c[2] == 'V') {
        ExportFormat::Csv
    } else {
        ExportFormat::Ndjson
    }
}

impl ExportFormat {
    /// File extension of the format.
    pub fn extension(&self) -> (r: &'static str)
        ensures
            r@ == (if *self == ExportFormat::Csv {
                "csv"@
            } else {
                "ndjson"@
            }),
    {
        match self {
            ExportFormat::Csv => "csv",
            ExportFormat::Ndjson => "ndjson",
        }
    }
}

/// Whether the record's timestamp lies within the optional inclusive bounds.
pub open spec fn in_bounds(r: HistoryMessageRecord, from_ts: Option<u64>, to_ts: Option<u64>) -> bool {
    &&& (from_ts matches Some(f) ==> f <= r.timestamp)
    &&& (to_ts matches Some(t) ==> r.timestamp <= t)
}

/// The records within the bounds, in their order.
pub open spec fn matching(s: Seq<HistoryMessageRecord>, from_ts: Option<u64>, to_ts: Option<u64>) -> Seq<
    HistoryMessageRecord,
>
    decreases s.len(),
{
    if s.len() == 0 {
        Seq::empty()
    } else if in_bounds(s.last(), from_ts, to_ts) {
        matching(s.drop_last(), from_ts, to_ts).push(s.last())
    } else {
        matching(s.drop_last(), from_ts, to_ts)
    }
}

/// The export rows are exactly the records within the bounds, each once, in
/// the log's order; their number, which `export_rows` reports, is therefore
/// the number of records that match the bounds.
pub proof fn lemma_export_matches(s: Seq<HistoryMessageRecord>, from_ts: Option<u64>, to_ts: Option<u64>)
    ensures
        forall|x: HistoryMessageRecord| #[trigger]
            matching(s, from_ts, to_ts).contains(x) <==> (s.contains(x) && in_bounds(x, from_ts, to_ts)),
        matching(s, from_ts, to_ts).len() <= s.len(),
        (forall|x: HistoryMessageRecord| s.contains(x) ==> #[trigger] in_bounds(x, from_ts, to_ts))
            ==> matching(s, from_ts, to_ts) == s,
    decreases s.len(),
{
    if s.len() > 0 {
        let d = s.drop_last();
        lemma_export_matches(d, from_ts, to_ts);
        let m = matching(d, from_ts, to_ts);
        assert forall|x: HistoryMessageRecord| #[trigger] s.contains(x) <==> (d.contains(x) || x
            == s.last()) by {
            if s.contains(x) {
                let i = choose|i: int| 0 <= i < s.len() && s[i] == x;
                if i < s.len() - 1 {
                    assert(d[i] == x);
                }
            }
            if d.contains(x) {
                let i = choose|i: int| 0 <= i < d.len() && d[i] == x;
                assert(s[i] == x);
            }
        }
        if in_bounds(s.last(), from_ts, to_ts) {
            assert forall|x: HistoryMessageRecord| #[trigger] m.push(s.last()).contains(x) <==> (
            m.contains(x) || x == s.last()) by {
                if m.push(s.last()).contains(x) {
                    let i = choose|i: int| 0 <= i < m.len() + 1 && m.push(s.last())[i] == x;
                    if i < m.len() {
                        assert(m[i] == x);
                    }
                }
                if m.contains(x) {
                    let i = choose|i: int| 0 <= i < m.len() && m[i] == x;
                    assert(m.push(s.last())[i] == x);
                }
                if x == s.last() {
                    assert(m.push(s.last())[m.len() as int] == x);
                }
            }
        }
        if forall|x: HistoryMessageRecord| s.contains(x) ==> #[trigger] in_bounds(x, from_ts, to_ts) {
            assert forall|x: HistoryMessageRecord| d.contains(x) implies #[trigger] in_bounds(
                x,
                from_ts,
                to_ts,
            ) by {
                assert(s.contains(x));
            }
            assert(s.contains(s.last()));
            assert(d.push(s.last()) =~= s);
        }
    }
}

/// Stored code of a direction: 1 for outbound, 0 for inbound.
pub open spec fn direction_code(d: MessageDirection) -> i64 {
    if d == MessageDirection::Out {
        1
    } else {
        0
    }
}

/// See [`direction_code`].
pub fn direction_to_int(direction: MessageDirection) -> (r: i64)
    ensures
        r == direction_code(direction),
{
    match direction {
        MessageDirection::Out => 1,
        MessageDirection::In => 0,
    }
}

/// A record read back from its stored columns: integers as the store keeps
/// them, retain true only for 1, direction outbound only for 1.
pub fn record_from_row(
    id: i64,
    ts_ms: i64,
    topic: String,
    payload: String,
    qos: i64,
    retain: i64,
    direction: i64,
) -> (r: HistoryMessageRecord)
    ensures
        r.id == id,
        r.timestamp == ts_ms as u64,
        r.topic == topic,
        r.payload == payload,
        r.qos == qos as u8,
        r.retain == (retain == 1),
        r.direction == (if direction == 1 {
            MessageDirection::Out
        } else {
            MessageDirection::In
        }),
{
    HistoryMessageRecord {
        id,
        timestamp: ts_ms as u64,
        topic,
        payload,
        qos: qos as u8,
        retain: retain == 1,
        direction: if direction == 1 {
            MessageDirection::Out
        } else {
            MessageDirection::In
        },
    }
}

/// The name a store file is renamed to before it is deleted at `now`.
pub fn deleting_path(path: &str, now: u64) -> (r: String)
    ensures
        r@ == path@ + ".deleting."@ + decimal(now as nat),
{
    let mut out = String::from_str(path);
    push_str(&mut out, ".deleting.");
    push_decimal(&mut out, now);
    out
}

/// Whether `pat` occurs somewhere in `s`.
pub open spec fn contains_text(s: Seq<char>, pat: Seq<char>) -> bool {
    exists|i: int| 0 <= i <= s.len() && has_prefix(#[trigger] s.subrange(i, s.len() as int), pat)
}

/// Whether a file in the history directory is a store whose deletion was
/// deferred: its name holds `.deleting.`.
pub fn is_deleting_leftover(file_name: &str) -> (r: bool)
    ensures
        r == contains_text(file_name@, ".deleting."@),
{
    let s = char_vec(file_name);
    let p = char_vec(".deleting.");
    let mut i: usize = 0;
    loop
        invariant
            s@ == file_name@,
            p@ == ".deleting."@,
            i <= s@.len(),
            forall|j: int| 0 <= j < i ==> !has_prefix(#[trigger] s@.subrange(j, s@.len() as int), p@),
        decreases s@.len() - i,
    {
        if matches_at(&s, i, &p) {
            return true;
        }
        if i == s.len() {
            assert forall|j: int| 0 <= j <= s@.len() implies !has_prefix(
                #[trigger] s@.subrange(j, s@.len() as int),
                p@,
            ) by {
                if j < i {
                }
            }
            return false;
        }
        i += 1;
    }
}

/// Name of an export file made at `now`: `<safe id>-history-<now>.<extension>`.
pub open spec fn export_name(connection_id: Seq<char>, now: u64, f: ExportFormat) -> Seq<char> {
    sanitized(connection_id) + "-history-"@ + decimal(now as nat) + "."@ + (if f == ExportFormat::Csv {
        "csv"@
    } else {
        "ndjson"@
    })
}

/// See [`export_name`].
pub fn export_file_name(connection_id: &str, now: u64, format: ExportFormat) -> (r: String)
    ensures
        r@ == export_name(connection_id@, now, format),
{
    let mut name = safe_connection_id(connection_id);
    push_str(&mut name, "-history-");
    push_decimal(&mut name, now);
    push_str(&mut name, ".");
    push_str(&mut name, format.extension());
    name
}

/// Lowercase hexadecimal digit of `d` in `[0, 16)`.
pub open spec fn hex_digit(d: int) -> char {
    if d < 10 {
        digit(d as nat)
    } else if d == 10 {
        'a'
    } else if d == 11 {
        'b'
    } else if d == 12 {
        'c'
    } else if d == 13 {
        'd'
    } else if d == 14 {
        'e'
    } else {
        'f'
    }
}

/// A character inside a JSON string literal: quote and backslash escaped,
/// backspace, tab, line feed, form feed and carriage return as short
/// escapes, the other characters below U+0020 as `\u00xx`, all else as is.
pub open spec fn json_escaped(c: char) -> Seq<char> {
    if c == '"' {
        seq!['\\', '"']
    } else if c == '\\' {
        seq!['\\', '\\']
    } else if c == '\u{8}' {
        seq!['\\', 'b']
    } else if c == '\t' {
        seq!['\\', 't']
    } else if c == '\n' {
        seq!['\\', 'n']
    } else if c == '\u{c}' {
        seq!['\\', 'f']
    } else if c == '\r' {
        seq!['\\', 'r']
    } else if (c as u32) < 0x20 {
        seq!['\\', 'u', '0', '0', hex_digit((c as u32) as int / 16), hex_digit((c as u32) as int % 16)]
    } else {
        seq![c]
    }
}

/// The escaped characters of `s`, in order.
pub open spec fn json_body(s: Seq<char>) -> Seq<char>
    decreases s.len(),
{
    if s.len() == 0 {
        Seq::empty()
    } else {
        json_escaped(s[0]) + json_body(s.drop_first())
    }
}

/// The JSON string literal of `s`.
pub open spec fn json_quoted(s: Seq<char>) -> Seq<char> {
    seq!['"'] + json_body(s) + seq!['"']
}

/// Relies on `serde_json::to_string` applied to a `str`: the JSON string
/// literal of `s`, escaped as its string formatter does. Serialising a
/// string into memory does not fail.
#[verifier::external_body]
fn json_string(s: &str) -> (r: String)
    ensures
        r@ == json_quoted(s@),
{
    serde_json::to_string(s).unwrap_or_default()
}

/// A number between double quotes.
pub open spec fn quoted_number(n: nat) -> Seq<char> {
    seq!['"'] + decimal(n) + seq!['"']
}

/// Name of a direction in exports.
pub open spec fn direction_name(d: MessageDirection) -> Seq<char> {
    if d == MessageDirection::Out {
        "out"@
    } else {
        "in"@
    }
}

/// One CSV row: every field quoted, retain as 1 or 0, direction as in or out.
pub open spec fn csv_line(r: HistoryMessageRecord) -> Seq<char> {
    quoted_number(r.id as nat) + seq![','] + quoted_number(r.timestamp as nat) + seq![',']
        + csv_quoted(r.topic@) + seq![','] + csv_quoted(r.payload@) + seq![','] + quoted_number(
        r.qos as nat,
    ) + seq![','] + quoted_number(
        if r.retain {
            1
        } else {
            0
        },
    ) + seq![','] + csv_quoted(direction_name(r.direction)) + seq!['\n']
}

/// One NDJSON row: the record as a JSON object with the fields id, timestamp,
/// topic, payload, qos, retain and direction.
pub open spec fn ndjson_line(r: HistoryMessageRecord) -> Seq<char> {
    "{\"id\":"@ + decimal(r.id as nat) + ",\"timestamp\":"@ + decimal(r.timestamp as nat)
        + ",\"topic\":"@ + json_quoted(r.topic@) + ",\"payload\":"@ + json_quoted(r.payload@)
        + ",\"qos\":"@ + decimal(r.qos as nat) + ",\"retain\":"@ + (if r.retain {
        "true"@
    } else {
        "false"@
    }) + ",\"direction\":\""@ + direction_name(r.direction) + "\"}\n"@
}

/// The header row of a format: CSV names the columns, NDJSON has none.
pub open spec fn header(f: ExportFormat) -> Seq<char> {
    if f == ExportFormat::Csv {
        "id,timestamp,topic,payload,qos,retain,direction\n"@
    } else {
        Seq::empty()
    }
}

/// The export file of the records: the header, then one row per record.
pub open spec fn document(f: ExportFormat, s: Seq<HistoryMessageRecord>) -> Seq<char>
    decreases s.len(),
{
    if s.len() == 0 {
        header(f)
    } else {
        document(f, s.drop_last()) + (if f == ExportFormat::Csv {
            csv_line(s.last())
        } else {
            ndjson_line(s.last())
        })
    }
}

fn push_quoted_number(out: &mut String, n: u64)
    ensures
        final(out)@ == old(out)@ + quoted_number(n as nat),
{
    crate::text::push_char(out, '"');
    push_decimal(out, n);
    crate::text::push_char(out, '"');
    assert(final(out)@ =~= old(out)@ + quoted_number(n as nat));
}

fn direction_str(d: MessageDirection) -> (r: &'static str)
    ensures
        r@ == direction_name(d),
{
    match d {
        MessageDirection::Out => "out",
        MessageDirection::In => "in",
    }
}

fn push_csv_line(out: &mut String, r: &HistoryMessageRecord)
    requires
        r.id >= 0,
    ensures
        final(out)@ == old(out)@ + csv_line(*r),
{
    push_quoted_number(out, r.id as u64);
    push_str(out, ",");
    push_quoted_number(out, r.timestamp);
    push_str(out, ",");
    push_csv_field(out, r.topic.as_str());
    push_str(out, ",");
    push_csv_field(out, r.payload.as_str());
    push_str(out, ",");
    push_quoted_number(out, r.qos as u64);
    push_str(out, ",");
    push_quoted_number(out, if r.retain { 1 } else { 0 });
    push_str(out, ",");
    push_csv_field(out, direction_str(r.direction));
    push_str(out, "\n");
    proof {
        reveal_strlit(",");
        reveal_strlit("\n");
    }
    assert(final(out)@ =~= old(out)@ + csv_line(*r));
}

fn push_ndjson_line(out: &mut String, r: &HistoryMessageRecord)
    requires
        r.id >= 0,
    ensures
        final(out)@ == old(out)@ + ndjson_line(*r),
{
    push_str(out, "{\"id\":");
    push_decimal(out, r.id as u64);
    push_str(out, ",\"timestamp\":");
    push_decimal(out, r.timestamp);
    push_str(out, ",\"topic\":");
    let topic = json_string(r.topic.as_str());
    push_str(out, topic.as_str());
    push_str(out, ",\"payload\":");
    let payload = json_string(r.payload.as_str());
    push_str(out, payload.as_str());
    push_str(out, ",\"qos\":");
    push_decimal(out, r.qos as u64);
    push_str(out, ",\"retain\":");
    if r.retain {
        push_str(out, "true");
    } else {
        push_str(out, "false");
    }
    push_str(out, ",\"direction\":\"");
    push_str(out, direction_str(r.direction));
    push_str(out, "\"}\n");
    assert(final(out)@ =~= old(out)@ + ndjson_line(*r));
}

fn header_str(f: ExportFormat) -> (r: &'static str)
    ensures
        r@ == header(f),
{
    match f {
        ExportFormat::Csv => "id,timestamp,topic,payload,qos,retain,direction\n",
        ExportFormat::Ndjson => {
            proof {
                reveal_strlit("");
            }
            ""
        },
    }
}

/// Index of the first record whose key is not below `(ts, id)`.
fn position_in(records: &Vec<HistoryMessageRecord>, ts: u64, id: i64) -> (p: usize)
    ensures
        p as int == position_of(records@, (ts as int, id as int)),
{
    let ghost k = (ts as int, id as int);
    let mut i: usize = records.len();
    assert(records@.subrange(0, i as int) =~= records@);
    loop
        invariant
            k == (ts as int, id as int),
            i <= records@.len(),
            position_of(records@, k) == position_of(records@.subrange(0, i as int), k),
        decreases i,
    {
        let ghost pre = records@.subrange(0, i as int);
        if i == 0 {
            return i;
        }
        if below(&records[i - 1], ts, id) {
            assert(pre.last() == records@[i - 1]);
            return i;
        }
        assert(pre.drop_last() =~= records@.subrange(0, i - 1));
        assert(pre.last() == records@[i - 1]);
        i -= 1;
    }
}

/// The header row of an export file; see [`header`].
pub fn export_header(format: ExportFormat) -> (r: String)
    ensures
        r@ == header(format),
{
    String::from_str(header_str(format))
}

/// The export row of one record: a CSV row or an NDJSON line.
pub open spec fn export_line_of(f: ExportFormat, r: HistoryMessageRecord) -> Seq<char> {
    if f == ExportFormat::Csv {
        csv_line(r)
    } else {
        ndjson_line(r)
    }
}

/// See [`export_line_of`]; lets an export be written one record at a time.
pub fn export_line(format: ExportFormat, record: &HistoryMessageRecord) -> (r: String)
    requires
        record.id >= 0,
    ensures
        r@ == export_line_of(format, *record),
{
    let mut out = String::new();
    match format {
        ExportFormat::Csv => push_csv_line(&mut out, record),
        ExportFormat::Ndjson => push_ndjson_line(&mut out, record),
    }
    assert(out@ =~= export_line_of(format, *record));
    out
}

/// Writing the header, then the row of each record in turn, gives the export
/// document of those records.
pub proof fn lemma_document_by_lines(f: ExportFormat, s: Seq<HistoryMessageRecord>, r: HistoryMessageRecord)
    ensures
        document(f, s.push(r)) == document(f, s) + export_line_of(f, r),
        document(f, Seq::empty()) == header(f),
{
    assert(s.push(r).drop_last() =~= s);
}

/// The message log of one connection.
pub struct HistoryLog {
    records: Vec<HistoryMessageRecord>,
    next_id: i64,
}

fn copy_record(r: &HistoryMessageRecord) -> (c: HistoryMessageRecord)
    ensures
        c == *r,
{
    HistoryMessageRecord {
        id: r.id,
        timestamp: r.timestamp,
        topic: r.topic.clone(),
        payload: r.payload.clone(),
        qos: r.qos,
        retain: r.retain,
        direction: r.direction,
    }
}

fn stamp_item(item: &MqttBatchItem, id: i64) -> (r: HistoryMessageRecord)
    ensures
        r == stamp(*item, id as int),
{
    HistoryMessageRecord {
        id,
        timestamp: item.timestamp,
        topic: item.topic.clone(),
        payload: item.payload.clone(),
        qos: item.qos,
        retain: item.retain,
        direction: item.direction,
    }
}

/// Whether the record's key lies below `(ts, id)`.
fn below(r: &HistoryMessageRecord, ts: u64, id: i64) -> (b: bool)
    ensures
        b == key_lt(key_of(*r), (ts as int, id as int)),
{
    r.timestamp < ts || (r.timestamp == ts && r.id < id)
}

/// Brings a requested page size into `[1, MAX_QUERY_LIMIT]`.
pub fn clamp_limit(limit: usize) -> (r: usize)
    ensures
        r as int == clamped(limit as int),
{
    if limit < 1 {
        1
    } else if limit > MAX_QUERY_LIMIT {
        MAX_QUERY_LIMIT
    } else {
        limit
    }
}

impl HistoryLog {
    /// The records, ascending by key.
    pub closed spec fn rows(&self) -> Seq<HistoryMessageRecord> {
        self.records@
    }

    /// The id the next stored record receives.
    pub closed spec fn next_id(&self) -> int {
        self.next_id as int
    }

    /// Keys strictly ascending, ids in `[1, next_id)`.
    pub open spec fn wf(&self) -> bool {
        &&& sorted_by_key(self.rows())
        &&& ids_below(self.rows(), self.next_id())
        &&& 1 <= self.next_id() <= i64::MAX
    }

    /// Every log is well formed.
    #[verifier::type_invariant]
    spec fn inv(&self) -> bool {
        self.wf()
    }

    /// A log with no records, as a newly created store.
    pub fn new() -> (r: HistoryLog)
        ensures
            r.wf(),
            r.rows() == Seq::<HistoryMessageRecord>::empty(),
            r.next_id() == 1,
    {
        HistoryLog { records: Vec::new(), next_id: 1 }
    }

    /// The id the next stored record receives.
    pub fn next_record_id(&self) -> (r: i64)
        ensures
            r == self.next_id(),
    {
        self.next_id
    }

    /// Number of stored records.
    pub fn len(&self) -> (n: usize)
        ensures
            n == self.rows().len(),
    {
        self.records.len()
    }

    /// Removes every record; ids start again from 1, as in a recreated store.
    pub fn clear(&mut self)
        ensures
            final(self).wf(),
            final(self).rows() == Seq::<HistoryMessageRecord>::empty(),
            final(self).next_id() == 1,
    {
        *self = HistoryLog { records: Vec::new(), next_id: 1 };
    }

    /// The records that `append(messages)` would add, with the ids they would
    /// receive, in batch order: what a durable copy of the log must write.
    pub fn stamped(&self, messages: &Vec<MqttBatchItem>) -> (r: Vec<HistoryMessageRecord>)
        requires
            self.next_id() + messages@.len() <= i64::MAX,
        ensures
            r@ == stamp_all(messages@, self.next_id()),
    {
        proof {
            use_type_invariant(self);
        }
        let mut out: Vec<HistoryMessageRecord> = Vec::new();
        let mut i: usize = 0;
        while i < messages.len()
            invariant
                i <= messages@.len(),
                1 <= self.next_id(),
                self.next_id() + messages@.len() <= i64::MAX,
                out@ == stamp_all(messages@.subrange(0, i as int), self.next_id()),
            decreases messages@.len() - i,
        {
            let id: i64 = self.next_id + i as i64;
            let rec = stamp_item(&messages[i], id);
            out.push(rec);
            assert forall|j: int| 0 <= j < i + 1 implies #[trigger] out@[j] == stamp_all(
                messages@.subrange(0, i + 1),
                self.next_id(),
            )[j] by {
                if j < i {
                    assert(out@[j] == stamp_all(messages@.subrange(0, i as int), self.next_id())[j]);
                }
            }
            assert(out@ =~= stamp_all(messages@.subrange(0, i + 1), self.next_id()));
            i += 1;
        }
        assert(messages@.subrange(0, i as int) =~= messages@);
        out
    }

    /// Adds the batch in one step: each message becomes a record with the next
    /// id, placed by its key. An empty batch changes nothing.
    pub fn append(&mut self, messages: &Vec<MqttBatchItem>)
        requires
            old(self).next_id() + messages@.len() <= i64::MAX,
        ensures
            final(self).wf(),
            final(self).rows() == appended(old(self).rows(), messages@, old(self).next_id()),
            final(self).next_id() == old(self).next_id() + messages@.len(),
    {
        proof {
            use_type_invariant(&*self);
        }
        let ghost s0 = self.records@;
        let ghost n0 = self.next_id as int;
        let mut records: Vec<HistoryMessageRecord> = Vec::new();
        std::mem::swap(&mut records, &mut self.records);
        let mut next_id: i64 = self.next_id;
        let mut i: usize = 0;
        assert(messages@.subrange(0, 0) =~= Seq::<MqttBatchItem>::empty());
        while i < messages.len()
            invariant
                n0 + messages@.len() <= i64::MAX,
                i <= messages@.len(),
                sorted_by_key(records@),
                ids_below(records@, next_id as int),
                1 <= next_id,
                next_id == n0 + i,
                records@ == appended(s0, messages@.subrange(0, i as int), n0),
            decreases messages@.len() - i,
        {
            let rec = stamp_item(&messages[i], next_id);
            let pos = position_in(&records, rec.timestamp, rec.id);
            proof {
                lemma_insert_sorted(records@, rec, next_id as int);
                lemma_position_of(records@, key_of(rec));
                let b = messages@.subrange(0, i + 1);
                assert(b.drop_last() =~= messages@.subrange(0, i as int));
                assert(b.last() == messages@[i as int]);
            }
            records.insert(pos, rec);
            next_id = next_id + 1;
            i += 1;
        }
        assert(messages@.subrange(0, i as int) =~= messages@);
        *self = HistoryLog { records, next_id };
    }

    /// Rebuilds a log from stored records. `None` unless the records are
    /// strictly ascending by key with ids in `[1, i64::MAX)`; the next id is
    /// one past the largest.
    pub fn from_rows(rows: Vec<HistoryMessageRecord>) -> (r: Option<HistoryLog>)
        ensures
            r is Some <==> (sorted_by_key(rows@) && ids_below(rows@, i64::MAX as int)),
            r matches Some(log) ==> log.wf() && log.rows() == rows@ && log.next_id() == 1
                + max_id(rows@),
    {
        let mut max: i64 = 0;
        let mut i: usize = 0;
        while i < rows.len()
            invariant
                i <= rows@.len(),
                sorted_by_key(rows@.subrange(0, i as int)),
                ids_below(rows@.subrange(0, i as int), i64::MAX as int),
                max == max_id(rows@.subrange(0, i as int)),
                0 <= max < i64::MAX,
                forall|j: int| 0 <= j < i ==> rows@[j].id <= max,
            decreases rows@.len() - i,
        {
            let r = &rows[i];
            let ghost pre = rows@.subrange(0, i + 1);
            assert(pre.drop_last() =~= rows@.subrange(0, i as int));
            if r.id < 1 || r.id == i64::MAX {
                assert(!ids_below(rows@, i64::MAX as int)) by {
                    assert(rows@[i as int] == r);
                }
                return None;
            }
            if i > 0 && !below(&rows[i - 1], r.timestamp, r.id) {
                assert(!sorted_by_key(rows@)) by {
                    assert(rows@[i as int] == *r);
                    assert(!key_lt(key_of(rows@[i - 1]), key_of(rows@[i as int])));
                }
                return None;
            }
            proof {
                assert forall|a: int, b: int| 0 <= a < b < pre.len() implies key_lt(
                    key_of(pre[a]),
                    key_of(pre[b]),
                ) by {
                    if b == i && a < i - 1 {
                        assert(key_lt(key_of(pre[a]), key_of(pre[i - 1])));
                    }
                }
            }
            if r.id > max {
                max = r.id;
            }
            i += 1;
        }
        assert(rows@.subrange(0, i as int) =~= rows@);
        Some(HistoryLog { records: rows, next_id: max + 1 })
    }

    /// The export of the records whose timestamp lies within the optional
    /// inclusive bounds, ascending by (timestamp, id), and how many rows it holds.
    pub fn export_rows(&self, format: ExportFormat, from_ts: Option<u64>, to_ts: Option<u64>) -> (r: (
        String,
        u64,
    ))
        ensures
            r.0@ == document(format, matching(self.rows(), from_ts, to_ts)),
            r.1 == matching(self.rows(), from_ts, to_ts).len(),
    {
        proof {
            use_type_invariant(self);
        }
        let mut out = String::new();
        push_str(&mut out, header_str(format));
        let mut count: u64 = 0;
        let mut i: usize = 0;
        assert(self.records@.subrange(0, 0) =~= Seq::<HistoryMessageRecord>::empty());
        assert(out@ =~= header(format));
        while i < self.records.len()
            invariant
                self.wf(),
                i <= self.records@.len(),
                out@ == document(format, matching(self.records@.subrange(0, i as int), from_ts, to_ts)),
                count == matching(self.records@.subrange(0, i as int), from_ts, to_ts).len(),
                count <= i,
            decreases self.records@.len() - i,
        {
            let r = &self.records[i];
            let ghost pre = self.records@.subrange(0, i + 1);
            assert(pre.drop_last() =~= self.records@.subrange(0, i as int));
            assert(pre.last() == *r);
            let inside = match (from_ts, to_ts) {
                (Some(f), Some(t)) => f <= r.timestamp && r.timestamp <= t,
                (Some(f), None) => f <= r.timestamp,
                (None, Some(t)) => r.timestamp <= t,
                (None, None) => true,
            };
            let ghost m = matching(self.records@.subrange(0, i as int), from_ts, to_ts);
            assert(inside == in_bounds(*r, from_ts, to_ts));
            if inside {
                assert(matching(pre, from_ts, to_ts) == m.push(*r));
                assert(m.push(*r).drop_last() =~= m);
                assert(self.records@[i as int].id >= 1);
                match format {
                    ExportFormat::Csv => push_csv_line(&mut out, r),
                    ExportFormat::Ndjson => push_ndjson_line(&mut out, r),
                }
                count = count + 1;
            }
            i += 1;
        }
        assert(self.records@.subrange(0, i as int) =~= self.records@);
        (out, count)
    }

    /// Copies of the records at indexes `[from, to)`.
    fn copy_range(&self, from: usize, to: usize) -> (r: Vec<HistoryMessageRecord>)
        requires
            from <= to <= self.rows().len(),
        ensures
            r@ == self.rows().subrange(from as int, to as int),
    {
        let mut out: Vec<HistoryMessageRecord> = Vec::new();
        let mut i: usize = from;
        while i < to
            invariant
                from <= i <= to <= self.records@.len(),
                out@ == self.records@.subrange(from as int, i as int),
            decreases to - i,
        {
            let c = copy_record(&self.records[i]);
            out.push(c);
            assert(out@ =~= self.records@.subrange(from as int, i + 1));
            i += 1;
        }
        out
    }

    /// The newest `limit` records (clamped to `[1, MAX_QUERY_LIMIT]`), oldest first.
    pub fn query_latest(&self, limit: usize) -> (r: Vec<HistoryMessageRecord>)
        ensures
            r@ == latest_page(self.rows(), clamped(limit as int)),
    {
        let n = clamp_limit(limit);
        let len = self.records.len();
        let m = if n < len {
            n
        } else {
            len
        };
        self.copy_range(len - m, len)
    }

    /// The newest `limit` records (clamped to `[1, MAX_QUERY_LIMIT]`) whose key
    /// lies strictly below the cursor `(before_ts, before_id)`, oldest first.
    pub fn query_before(&self, before_ts: u64, before_id: i64, limit: usize) -> (r: Vec<
        HistoryMessageRecord,
    >)
        ensures
            r@ == page_before(
                self.rows(),
                (before_ts as int, before_id as int),
                clamped(limit as int),
            ),
    {
        let n = clamp_limit(limit);
        let k = position_in(&self.records, before_ts, before_id);
        proof {
            let s = self.records@;
            assert(0 <= position_of(s, (before_ts as int, before_id as int)) <= s.len()) by {
                lemma_position_bounds(s, (before_ts as int, before_id as int));
            }
        }
        let m = if n < k {
            n
        } else {
            k
        };
        self.copy_range(k - m, k)
    }
}

proof fn lemma_position_bounds(s: Seq<HistoryMessageRecord>, k: (int, int))
    ensures
        0 <= position_of(s, k) <= s.len(),
    decreases s.len(),
{
    if s.len() > 0 {
        lemma_position_bounds(s.drop_last(), k);
    }
}

} // verus!
