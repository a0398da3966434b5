//! The usage-counter aggregator: every event lands in four rollup buckets
//! (all-time, year, month, day), each write guarded by an optimistic
//! version check that drops the increment when it lost a race.

use vstd::prelude::*;

use crate::clock::{now_iso, now_ymd};
use crate::text::{two_digit, two_digit_text};
use crate::models::{RecordType, StatMonth, StatYear, StatYearView, Stats, StatsView};
use crate::registry::{Registry, RegistryView};

verus! {

/// The remainder of a division by one hundred with the dividend's sign, as
/// machine division computes it.
pub open spec fn rem_100(y: int) -> int {
    if y >= 0 {
        y % 100
    } else {
        -((-y) % 100)
    }
}

/// The composite rollup id: `-1` for all-time, else two digits of the year,
/// two of the month and two of the day, missing parts as zero.
pub open spec fn spec_stats_id(year: Option<i32>, month: Option<u32>, day: Option<u32>) -> int {
    match year {
        None => -1,
        Some(y) => {
            let m = match month {
                Some(m) => m as int,
                None => 0,
            };
            let d = match day {
                Some(d) => d as int,
                None => 0,
            };
            rem_100(y as int) * 10000 + m * 100 + d
        },
    }
}

/// Derives the composite id of a rollup bucket from its calendar parts.
pub fn stats_get_id_for(year: Option<i32>, month: Option<u32>, day: Option<u32>) -> (r: i64)
    ensures
        r as int == spec_stats_id(year, month, day),
{
    let y = match year {
        Some(y) => y,
        None => {
            return -1;
        },
    };
    let wide: i64 = y as i64;
    let y_short: i64 = if wide >= 0 {
        wide % 100
    } else {
        -((-wide) % 100)
    };
    let m: i64 = match month {
        Some(m) => m as i64,
        None => 0,
    };
    let d: i64 = match day {
        Some(d) => d as i64,
        None => 0,
    };
    y_short * 10000 + m * 100 + d
}

/// A rollup bucket that has never been written: all counters zero.
pub open spec fn fresh_bucket(id: i64, created: Seq<char>) -> StatsView {
    StatsView {
        id,
        messages: 0,
        messages_size_bytes: 0,
        files: 0,
        files_size_bytes: 0,
        devices: 0,
        sessions: 0,
        version: 0,
        date_created_utc: created,
    }
}

/// The stored bucket, or a fresh one when the id has no row yet.
pub open spec fn bucket_or_new(
    stats: Map<i64, StatsView>,
    id: i64,
    created: Seq<char>,
) -> StatsView {
    if stats.contains_key(id) {
        stats[id]
    } else {
        fresh_bucket(id, created)
    }
}

/// The stored bucket with the given id, or a fresh one, created now.
pub fn stats_find_by_id_or_new(reg: &Registry, id: i64, created: &str) -> (r: Stats)
    ensures
        r.deep_view() == bucket_or_new(reg@.stats, id, created@),
{
    match reg.stats_row(id) {
        Some(s) => s,
        None => {
            let mut date = String::new();
            date.append(created);
            Stats {
                id,
                messages: 0,
                messages_size_bytes: 0,
                files: 0,
                files_size_bytes: 0,
                devices: 0,
                sessions: 0,
                version: 0,
                date_created_utc: date,
            }
        },
    }
}

/// The bucket with one plain counter raised by the increment.
pub open spec fn counter_bumped(s: StatsView, record_type: RecordType, inc: i64) -> StatsView {
    match record_type {
        RecordType::Session => StatsView { sessions: (s.sessions + inc) as i64, ..s },
        RecordType::Device => StatsView { devices: (s.devices + inc) as i64, ..s },
        RecordType::Message => StatsView { messages: (s.messages + inc) as i64, ..s },
    }
}

/// The plain counter a record type addresses.
pub open spec fn counter_of(s: StatsView, record_type: RecordType) -> int {
    match record_type {
        RecordType::Session => s.sessions as int,
        RecordType::Device => s.devices as int,
        RecordType::Message => s.messages as int,
    }
}

/// Whether one bucket can take the increment without leaving the machine
/// range, and its version can still grow.
pub open spec fn record_fits(
    stats: Map<i64, StatsView>,
    id: i64,
    record_type: RecordType,
    inc: i64,
) -> bool {
    let b = bucket_or_new(stats, id, Seq::<char>::empty());
    &&& i64::MIN <= counter_of(b, record_type) + inc <= i64::MAX
    &&& b.version < i64::MAX
    &&& b.id == id
}

/// The rollup map after one plain event landed in one bucket.
pub open spec fn recorded(
    stats: Map<i64, StatsView>,
    id: i64,
    created: Seq<char>,
    record_type: RecordType,
    inc: i64,
) -> Map<i64, StatsView> {
    let b = counter_bumped(bucket_or_new(stats, id, created), record_type, inc);
    stats.insert(id, StatsView { version: (b.version + 1) as i64, ..b })
}

/// The rollup map after one plain event landed in all four buckets of one
/// calendar day: all-time first, then year, month and day.
pub open spec fn recorded_all(
    stats: Map<i64, StatsView>,
    year: i32,
    month: u32,
    day: u32,
    created: Seq<char>,
    record_type: RecordType,
    inc: i64,
) -> Map<i64, StatsView> {
    recorded(
        recorded(
            recorded(
                recorded(stats, -1i64, created, record_type, inc),
                spec_stats_id(Some(year), None, None) as i64,
                created,
                record_type,
                inc,
            ),
            spec_stats_id(Some(year), Some(month), None) as i64,
            created,
            record_type,
            inc,
        ),
        spec_stats_id(Some(year), Some(month), Some(day)) as i64,
        created,
        record_type,
        inc,
    )
}

/// Bumps the version and commits the bucket unless the stored version moved
/// since it was read; a lost race drops the increment.
fn upsert_stats(reg: &mut Registry, stats: &mut Stats) -> (r: bool)
    requires
        old(stats).version < i64::MAX,
    ensures
        final(stats).deep_view() == (StatsView {
            version: (old(stats).deep_view().version + 1) as i64,
            ..old(stats).deep_view()
        }),
        r == (!old(reg)@.stats.contains_key(old(stats).id) || old(reg)@.stats[old(
            stats,
        ).id].version == old(stats).version),
        r ==> final(reg)@ == (RegistryView {
            stats: old(reg)@.stats.insert(old(stats).id, final(stats).deep_view()),
            ..old(reg)@
        }),
        !r ==> final(reg)@ == old(reg)@,
{
    stats.version = stats.version + 1;
    reg.upsert_stats_guarded(stats.clone())
}

/// Raises one plain counter in all four rollup buckets of the given day.
/// Every write lands: nothing raced the reads in between.
pub fn record_stats_at(
    reg: &mut Registry,
    year: i32,
    month: u32,
    day: u32,
    created: &str,
    record_type: RecordType,
    inc: i64,
)
    requires
        1 <= month <= 12,
        1 <= day <= 31,
        forall|id: i64| record_fits(old(reg)@.stats, id, record_type, inc),
    ensures
        final(reg)@ == (RegistryView {
            stats: recorded_all(old(reg)@.stats, year, month, day, created@, record_type, inc),
            ..old(reg)@
        }),
{
    let id_year = stats_get_id_for(Some(year), None, None);
    let id_month = stats_get_id_for(Some(year), Some(month), None);
    let id_day = stats_get_id_for(Some(year), Some(month), Some(day));

    proof {
        assert(record_fits(old(reg)@.stats, -1i64, record_type, inc));
        assert(record_fits(old(reg)@.stats, id_year, record_type, inc));
        assert(record_fits(old(reg)@.stats, id_month, record_type, inc));
        assert(record_fits(old(reg)@.stats, id_day, record_type, inc));
    }
    let mut all_time = stats_find_by_id_or_new(reg, -1, created);
    let mut this_year = stats_find_by_id_or_new(reg, id_year, created);
    let mut this_month = stats_find_by_id_or_new(reg, id_month, created);
    let mut today = stats_find_by_id_or_new(reg, id_day, created);

    apply_record(&mut all_time, record_type, inc);
    apply_record(&mut this_year, record_type, inc);
    apply_record(&mut this_month, record_type, inc);
    apply_record(&mut today, record_type, inc);

    let _ = upsert_stats(reg, &mut all_time);
    let _ = upsert_stats(reg, &mut this_year);
    let _ = upsert_stats(reg, &mut this_month);
    let _ = upsert_stats(reg, &mut today);
    proof {
        let m0 = old(reg)@.stats;
        let c = created@;
        assert(0 <= (year as int) % 100 < 100 && 0 <= (-(year as int)) % 100 < 100);
        assert(-100 < rem_100(year as int) < 100);
        assert(id_year != -1 && id_month != -1 && id_day != -1);
        assert(id_year != id_month && id_year != id_day && id_month != id_day);
        let m1 = recorded(m0, -1i64, c, record_type, inc);
        let m2 = recorded(m1, id_year, c, record_type, inc);
        let m3 = recorded(m2, id_month, c, record_type, inc);
        let m4 = recorded(m3, id_day, c, record_type, inc);
        assert(bucket_or_new(m1, id_year, c) == bucket_or_new(m0, id_year, c));
        assert(bucket_or_new(m2, id_month, c) == bucket_or_new(m0, id_month, c));
        assert(bucket_or_new(m3, id_day, c) == bucket_or_new(m0, id_day, c));
        assert(reg@.stats =~= m4);
        assert(recorded_all(m0, year, month, day, c, record_type, inc) == m4);
    }
}

/// Raises one plain counter on a bucket already read out.
fn apply_record(s: &mut Stats, record_type: RecordType, inc: i64)
    requires
        i64::MIN <= counter_of(old(s).deep_view(), record_type) + inc <= i64::MAX,
    ensures
        final(s).deep_view() == counter_bumped(old(s).deep_view(), record_type, inc),
{
    match record_type {
        RecordType::Session => {
            s.sessions = s.sessions + inc;
        },
        RecordType::Device => {
            s.devices = s.devices + inc;
        },
        RecordType::Message => {
            s.messages = s.messages + inc;
        },
    }
}

/// Raises one plain counter in all four rollup buckets of the current day.
pub fn record_stats(reg: &mut Registry, record_type: RecordType, inc: i64)
    requires
        forall|id: i64| record_fits(old(reg)@.stats, id, record_type, inc),
    ensures
        exists|year: i32, month: u32, day: u32, created: Seq<char>|
            {
                &&& 1 <= month <= 12
                &&& 1 <= day <= 31
                &&& final(reg)@ == (RegistryView {
                    stats: #[trigger] recorded_all(
                        old(reg)@.stats,
                        year,
                        month,
                        day,
                        created,
                        record_type,
                        inc,
                    ),
                    ..old(reg)@
                })
            },
{
    let (year, month, day) = now_ymd();
    let created = now_iso();
    record_stats_at(reg, year, month, day, created.as_str(), record_type, inc);
}

/// The bucket after one message landed: message count and size always grow;
/// an attached file also raises the file count and size.
pub open spec fn message_bumped(
    s: StatsView,
    msg_size_bytes: i64,
    file_size_bytes: Option<i64>,
) -> StatsView {
    let with_msg = StatsView {
        messages: (s.messages + 1) as i64,
        messages_size_bytes: (s.messages_size_bytes + msg_size_bytes) as i64,
        ..s
    };
    match file_size_bytes {
        Some(fs) => StatsView {
            files: (with_msg.files + 1) as i64,
            files_size_bytes: (with_msg.files_size_bytes + fs) as i64,
            ..with_msg
        },
        None => with_msg,
    }
}

/// Whether one bucket can take a message record without leaving the range.
pub open spec fn message_record_fits(
    stats: Map<i64, StatsView>,
    id: i64,
    msg_size_bytes: i64,
    file_size_bytes: Option<i64>,
) -> bool {
    let b = bucket_or_new(stats, id, Seq::<char>::empty());
    &&& b.messages < i64::MAX
    &&& i64::MIN <= b.messages_size_bytes + msg_size_bytes <= i64::MAX
    &&& (file_size_bytes is Some ==> b.files < i64::MAX && i64::MIN <= b.files_size_bytes
        + file_size_bytes.unwrap() <= i64::MAX)
    &&& b.version < i64::MAX
    &&& b.id == id
}

/// The rollup map after one message landed in one bucket.
pub open spec fn message_recorded(
    stats: Map<i64, StatsView>,
    id: i64,
    created: Seq<char>,
    msg_size_bytes: i64,
    file_size_bytes: Option<i64>,
) -> Map<i64, StatsView> {
    let b = message_bumped(bucket_or_new(stats, id, created), msg_size_bytes, file_size_bytes);
    stats.insert(id, StatsView { version: (b.version + 1) as i64, ..b })
}

/// The rollup map after one message landed in all four buckets of one
/// calendar day: all-time first, then year, month and day.
pub open spec fn message_recorded_all(
    stats: Map<i64, StatsView>,
    year: i32,
    month: u32,
    day: u32,
    created: Seq<char>,
    msg_size_bytes: i64,
    file_size_bytes: Option<i64>,
) -> Map<i64, StatsView> {
    message_recorded(
        message_recorded(
            message_recorded(
                message_recorded(stats, -1i64, created, msg_size_bytes, file_size_bytes),
                spec_stats_id(Some(year), None, None) as i64,
                created,
                msg_size_bytes,
                file_size_bytes,
            ),
            spec_stats_id(Some(year), Some(month), None) as i64,
            created,
            msg_size_bytes,
            file_size_bytes,
        ),
        spec_stats_id(Some(year), Some(month), Some(day)) as i64,
        created,
        msg_size_bytes,
        file_size_bytes,
    )
}

/// Raises one bucket already read out by one message.
fn apply_message(s: &mut Stats, msg_size_bytes: i64, file_size_bytes: Option<i64>)
    requires
        old(s).messages < i64::MAX,
        i64::MIN <= old(s).messages_size_bytes + msg_size_bytes <= i64::MAX,
        file_size_bytes is Some ==> old(s).files < i64::MAX && i64::MIN <= old(s).files_size_bytes
            + file_size_bytes.unwrap() <= i64::MAX,
    ensures
        final(s).deep_view() == message_bumped(old(s).deep_view(), msg_size_bytes, file_size_bytes),
{
    s.messages = s.messages + 1;
    s.messages_size_bytes = s.messages_size_bytes + msg_size_bytes;
    if let Some(fs) = file_size_bytes {
        s.files = s.files + 1;
        s.files_size_bytes = s.files_size_bytes + fs;
    }
}

/// Records one message, and its file if attached, in all four rollup
/// buckets of the given day.  Every write lands.
pub fn record_message_stats_at(
    reg: &mut Registry,
    year: i32,
    month: u32,
    day: u32,
    created: &str,
    msg_size_bytes: i64,
    file_size_bytes: Option<i64>,
)
    requires
        1 <= month <= 12,
        1 <= day <= 31,
        forall|id: i64|
            message_record_fits(old(reg)@.stats, id, msg_size_bytes, file_size_bytes),
    ensures
        final(reg)@ == (RegistryView {
            stats: message_recorded_all(
                old(reg)@.stats,
                year,
                month,
                day,
                created@,
                msg_size_bytes,
                file_size_bytes,
            ),
            ..old(reg)@
        }),
{
    let id_year = stats_get_id_for(Some(year), None, None);
    let id_month = stats_get_id_for(Some(year), Some(month), None);
    let id_day = stats_get_id_for(Some(year), Some(month), Some(day));

    proof {
        assert(message_record_fits(old(reg)@.stats, -1i64, msg_size_bytes, file_size_bytes));
        assert(message_record_fits(old(reg)@.stats, id_year, msg_size_bytes, file_size_bytes));
        assert(message_record_fits(old(reg)@.stats, id_month, msg_size_bytes, file_size_bytes));
        assert(message_record_fits(old(reg)@.stats, id_day, msg_size_bytes, file_size_bytes));
    }
    let mut all_time = stats_find_by_id_or_new(reg, -1, created);
    let mut this_year = stats_find_by_id_or_new(reg, id_year, created);
    let mut this_month = stats_find_by_id_or_new(reg, id_month, created);
    let mut today = stats_find_by_id_or_new(reg, id_day, created);

    apply_message(&mut all_time, msg_size_bytes, file_size_bytes);
    apply_message(&mut this_year, msg_size_bytes, file_size_bytes);
    apply_message(&mut this_month, msg_size_bytes, file_size_bytes);
    apply_message(&mut today, msg_size_bytes, file_size_bytes);

    let _ = upsert_stats(reg, &mut all_time);
    let _ = upsert_stats(reg, &mut this_year);
    let _ = upsert_stats(reg, &mut this_month);
    let _ = upsert_stats(reg, &mut today);
    proof {
        let m0 = old(reg)@.stats;
        let c = created@;
        assert(0 <= (year as int) % 100 < 100 && 0 <= (-(year as int)) % 100 < 100);
        assert(-100 < rem_100(year as int) < 100);
        assert(id_year != -1 && id_month != -1 && id_day != -1);
        assert(id_year != id_month && id_year != id_day && id_month != id_day);
        let m1 = message_recorded(m0, -1i64, c, msg_size_bytes, file_size_bytes);
        let m2 = message_recorded(m1, id_year, c, msg_size_bytes, file_size_bytes);
        let m3 = message_recorded(m2, id_month, c, msg_size_bytes, file_size_bytes);
        let m4 = message_recorded(m3, id_day, c, msg_size_bytes, file_size_bytes);
        assert(bucket_or_new(m1, id_year, c) == bucket_or_new(m0, id_year, c));
        assert(bucket_or_new(m2, id_month, c) == bucket_or_new(m0, id_month, c));
        assert(bucket_or_new(m3, id_day, c) == bucket_or_new(m0, id_day, c));
        assert(reg@.stats =~= m4);
        assert(message_recorded_all(m0, year, month, day, c, msg_size_bytes, file_size_bytes)
            == m4);
    }
}

/// Records one message, and its file if attached, in all four rollup
/// buckets of the current day.
pub fn record_message_stats(reg: &mut Registry, msg_size_bytes: i64, file_size_bytes: Option<i64>)
    requires
        forall|id: i64|
            message_record_fits(old(reg)@.stats, id, msg_size_bytes, file_size_bytes),
    ensures
        exists|year: i32, month: u32, day: u32, created: Seq<char>|
            {
                &&& 1 <= month <= 12
                &&& 1 <= day <= 31
                &&& final(reg)@ == (RegistryView {
                    stats: #[trigger] message_recorded_all(
                        old(reg)@.stats,
                        year,
                        month,
                        day,
                        created,
                        msg_size_bytes,
                        file_size_bytes,
                    ),
                    ..old(reg)@
                })
            },
{
    let (year, month, day) = now_ymd();
    let created = now_iso();
    record_message_stats_at(
        reg,
        year,
        month,
        day,
        created.as_str(),
        msg_size_bytes,
        file_size_bytes,
    );
}


/// An id-keyed counter store: every bucket sits under its own id, as every
/// write through this library leaves it.
pub open spec fn stats_keyed(stats: Map<i64, StatsView>) -> bool {
    forall|k: i64| #[trigger] stats.contains_key(k) ==> stats[k].id == k
}

/// The rows a listing hands out: each is a stored bucket past the all-time
/// row, under its own key, each key exactly once, and every such key shows.
pub open spec fn rollup_rows_ok(
    rs: Seq<StatsView>,
    stats: Map<i64, StatsView>,
    ks: Seq<i64>,
) -> bool {
    &&& ks.len() == rs.len()
    &&& forall|j: int|
        0 <= j < rs.len() ==> stats.contains_key(#[trigger] ks[j]) && ks[j] > 1 && rs[j]
            == stats[ks[j]]
    &&& forall|a: int, b: int| 0 <= a < b < ks.len() ==> ks[a] != ks[b]
    &&& forall|k: i64| #[trigger] stats.contains_key(k) && k > 1 ==> ks.contains(k)
}

/// Reads every rollup bucket past the all-time row out of the store,
/// alongside the key each row was stored under.
pub fn rollup_rows(reg: &Registry) -> (r: (Vec<i64>, Vec<Stats>))
    ensures
        rollup_rows_ok(r.1.deep_view(), reg@.stats, r.0@),
{
    let ids = reg.stats_ids();
    let ghost idsv = ids@;
    let mut out: Vec<Stats> = Vec::new();
    let mut keys: Vec<i64> = Vec::new();
    let n = ids.len();
    let mut i: usize = 0;
    while i < n
        invariant
            i <= n,
            n == idsv.len(),
            ids@ == idsv,
            forall|k: i64| idsv.contains(k) <==> reg@.stats.contains_key(k),
            forall|a: int, b: int| 0 <= a < b < idsv.len() ==> idsv[a] != idsv[b],
            keys@.len() == out.deep_view().len(),
            forall|j: int|
                0 <= j < out.deep_view().len() ==> reg@.stats.contains_key(#[trigger] keys@[j])
                    && keys@[j] > 1 && out.deep_view()[j] == reg@.stats[keys@[j]],
            forall|j: int|
                #![trigger keys@[j]]
                0 <= j < out.deep_view().len() ==> exists|a: int|
                    0 <= a < i && idsv[a] == keys@[j],
            forall|a: int| 0 <= a < i && idsv[a] > 1 ==> keys@.contains(#[trigger] idsv[a]),
            forall|a: int, b: int| 0 <= a < b < keys@.len() ==> keys@[a] != keys@[b],
        decreases n - i,
    {
        let id = ids[i];
        if id > 1 {
            let ghost pre_ks = keys@;
            let row = match reg.stats_row(id) {
                Some(s) => s,
                None => {
                    proof {
                        assert(idsv.contains(id));
                        assert(false);
                    }
                    return (Vec::new(), Vec::new());
                },
            };
            let ghost pre_out = out.deep_view();
            out.push(row);
            keys.push(id);
            proof {
                assert(keys@ == pre_ks.push(id));
                assert(out.deep_view() =~= pre_out.push(reg@.stats[id]));
                assert forall|a: int, b: int|
                    0 <= a < b < keys@.len() implies keys@[a] != keys@[b] by {
                    if b == keys@.len() - 1 {
                        let w = choose|w: int| 0 <= w < i && idsv[w] == pre_ks[a];
                        assert(idsv[w] != idsv[i as int]);
                    }
                }
                assert forall|a: int|
                    0 <= a < i + 1 && idsv[a] > 1 implies keys@.contains(
                    #[trigger] idsv[a]) by {
                    if a < i as int {
                        let w = choose|w: int| 0 <= w < pre_ks.len() && pre_ks[w] == idsv[a];
                        assert(keys@[w] == idsv[a]);
                    } else {
                        assert(keys@[keys@.len() - 1] == idsv[a]);
                    }
                }
            }
        } else {
            proof {
                assert forall|a: int|
                    0 <= a < i + 1 && idsv[a] > 1 implies keys@.contains(
                    #[trigger] idsv[a]) by {
                    if a < i as int {
                        let w = choose|w: int|
                            0 <= w < keys@.len() && keys@[w] == idsv[a];
                    }
                }
            }
        }
        i += 1;
    }
    proof {
        assert forall|k: i64| #[trigger] reg@.stats.contains_key(k) && k > 1 implies keys
            @.contains(k) by {
            assert(idsv.contains(k));
            let a = choose|a: int| 0 <= a < idsv.len() && idsv[a] == k;
            assert(keys@.contains(idsv[a]));
        }
        assert(rollup_rows_ok(out.deep_view(), reg@.stats, keys@));
    }
    (keys, out)
}

/// The two-digit year label a rollup id carries.
pub open spec fn year_label(id: i64) -> Seq<char> {
    two_digit_text((id as int / 10000) % 100)
}

/// The numeric year group a rollup id falls in.
pub open spec fn year_num(id: i64) -> int {
    (id as int / 10000) % 100
}

/// The two-digit month label a rollup id carries.
pub open spec fn month_label(id: i64) -> Seq<char> {
    two_digit_text(month_num(id))
}

/// The numeric month group a rollup id falls in.
pub open spec fn month_num(id: i64) -> int {
    (id as int / 100) % 100
}

/// Every day bucket of a grouped report is one of the listed rows and sits
/// under the labels its id carries.
pub open spec fn grouped_sound(years: Seq<StatYearView>, rs: Seq<StatsView>) -> bool {
    forall|iy: int, im: int, idx: int|
        0 <= iy < years.len() && 0 <= im < years[iy].months.len() && 0 <= idx < years[iy].months[
            im
        ].days.len() ==> {
            let day = #[trigger] years[iy].months[im].days[idx];
            &&& rs.contains(day)
            &&& years[iy].year == year_label(day.id)
            &&& years[iy].months[im].month == month_label(day.id)
        }
}

/// Whether a day bucket appears somewhere in one year group.
pub open spec fn year_holds(y: StatYearView, day: StatsView) -> bool {
    exists|im: int| 0 <= im < y.months.len() && y.months[im].days.contains(day)
}

/// Whether a day bucket appears somewhere in a grouped report.
pub open spec fn report_holds(years: Seq<StatYearView>, day: StatsView) -> bool {
    exists|iy: int| 0 <= iy < years.len() && year_holds(years[iy], day)
}

/// Every listed row shows somewhere in a grouped report.
pub open spec fn grouped_complete(years: Seq<StatYearView>, rs: Seq<StatsView>) -> bool {
    forall|j: int| 0 <= j < rs.len() ==> report_holds(years, #[trigger] rs[j])
}

/// No year label repeats in a grouped report.
pub open spec fn grouped_years_distinct(years: Seq<StatYearView>) -> bool {
    forall|a: int, b: int| 0 <= a < b < years.len() ==> years[a].year != years[b].year
}

/// The year groups come in ascending label order.
pub open spec fn grouped_years_ascending(years: Seq<StatYearView>) -> bool {
    forall|a: int, b: int|
        0 <= a < b < years.len() ==> crate::text::label_num(years[a].year) < crate::text::label_num(
            years[b].year,
        )
}

/// The month groups of each year come in ascending label order.
pub open spec fn grouped_months_ascending(years: Seq<StatYearView>) -> bool {
    forall|iy: int, a: int, b: int|
        0 <= iy < years.len() && 0 <= a < b < years[iy].months.len()
            ==> crate::text::label_num((#[trigger] years[iy].months[a]).month)
            < crate::text::label_num((#[trigger] years[iy].months[b]).month)
}

/// No month label repeats within a year of a grouped report.
pub open spec fn grouped_months_distinct(years: Seq<StatYearView>) -> bool {
    forall|iy: int, a: int, b: int|
        0 <= iy < years.len() && 0 <= a < b < years[iy].months.len() ==> (
        #[trigger] years[iy].months[a]).month != (#[trigger] years[iy].months[b]).month
}

/// No day bucket repeats within a month of a grouped report.
pub open spec fn grouped_days_distinct(years: Seq<StatYearView>) -> bool {
    forall|iy: int, im: int, a: int, b: int|
        0 <= iy < years.len() && 0 <= im < years[iy].months.len() && 0 <= a < b < years[iy].months[
            im
        ].days.len() ==> (#[trigger] years[iy].months[im].days[a]).id != (
        #[trigger] years[iy].months[im].days[b]).id
}

/// A well-grouped usage report over a row listing: every day bucket is one
/// of the rows and sits under the labels its id carries, every row shows
/// somewhere, years and months come in ascending label order with no label
/// repeated, and no day repeats within a month.
pub open spec fn grouped_ok(years: Seq<StatYearView>, rs: Seq<StatsView>) -> bool {
    &&& grouped_sound(years, rs)
    &&& grouped_complete(years, rs)
    &&& grouped_years_distinct(years)
    &&& grouped_years_ascending(years)
    &&& grouped_months_distinct(years)
    &&& grouped_months_ascending(years)
    &&& grouped_days_distinct(years)
}

/// Collects the rows of one month group, in listing order.
fn build_month(rows: &Vec<Stats>, yn: i64, mn: i64) -> (r: StatMonth)
    requires
        0 <= mn < 100,
        forall|j: int| 0 <= j < rows.deep_view().len() ==> (#[trigger] rows.deep_view()[j]).id > 1,
        forall|a: int, b: int|
            0 <= a < b < rows.deep_view().len() ==> (#[trigger] rows.deep_view()[a]).id != (
            #[trigger] rows.deep_view()[b]).id,
    ensures
        r.deep_view().month == two_digit_text(mn as int),
        forall|idx: int|
            0 <= idx < r.deep_view().days.len() ==> {
                let day = #[trigger] r.deep_view().days[idx];
                &&& rows.deep_view().contains(day)
                &&& year_num(day.id) == yn
                &&& month_num(day.id) == mn
            },
        forall|j: int|
            0 <= j < rows.deep_view().len() && year_num((#[trigger] rows.deep_view()[j]).id) == yn
                && month_num(rows.deep_view()[j].id) == mn ==> r.deep_view().days.contains(
                rows.deep_view()[j],
            ),
        forall|a: int, b: int|
            0 <= a < b < r.deep_view().days.len() ==> (#[trigger] r.deep_view().days[a]).id != (
            #[trigger] r.deep_view().days[b]).id,
{
    let ghost rs = rows.deep_view();
    let n = rows.len();
    proof {
        assert(rs.len() == rows@.len());
    }
    let mut days: Vec<Stats> = Vec::new();
    let mut js: Ghost<Seq<int>> = Ghost(Seq::<int>::empty());
    let mut i: usize = 0;
    while i < n
        invariant
            i <= n,
            n == rows@.len(),
            rows.deep_view() == rs,
            rs.len() == n,
            forall|j: int| 0 <= j < rs.len() ==> (#[trigger] rs[j]).id > 1,
            forall|a: int, b: int| 0 <= a < b < rs.len() ==> rs[a].id != rs[b].id,
            js@.len() == days.deep_view().len(),
            forall|x: int|
                0 <= x < js@.len() ==> 0 <= #[trigger] js@[x] < i && days.deep_view()[x]
                    == rs[js@[x]] && year_num(rs[js@[x]].id) == yn && month_num(rs[js@[x]].id)
                    == mn,
            forall|x: int, b: int| 0 <= x < b < js@.len() ==> js@[x] < js@[b],
            forall|j: int|
                0 <= j < i && year_num((#[trigger] rs[j]).id) == yn && month_num(rs[j].id) == mn
                    ==> days.deep_view().contains(rs[j]),
        decreases n - i,
    {
        let row = &rows[i];
        proof {
            assert(row.id == rs[i as int].id);
        }
        let uid = row.id as u64;
        let row_yn: i64 = ((uid / 10000) % 100) as i64;
        let row_mn: i64 = ((uid / 100) % 100) as i64;
        proof {
            assert(row_yn as int == year_num(rs[i as int].id));
            assert(row_mn as int == month_num(rs[i as int].id));
        }
        if row_yn == yn && row_mn == mn {
            let ghost pre_days = days.deep_view();
            days.push(row.clone());
            proof {
                js@ = js@.push(i as int);
                assert(days.deep_view() =~= pre_days.push(rs[i as int]));
                assert(days.deep_view()[days.deep_view().len() - 1] == rs[i as int]);
                assert forall|j: int|
                    0 <= j < i + 1 && year_num((#[trigger] rs[j]).id) == yn && month_num(rs[j].id)
                        == mn implies days.deep_view().contains(rs[j]) by {
                    if j < i as int {
                        let w = choose|w: int| 0 <= w < pre_days.len() && pre_days[w] == rs[j];
                        assert(days.deep_view()[w] == rs[j]);
                    }
                }
            }
        } else {
            proof {
                assert forall|j: int|
                    0 <= j < i + 1 && year_num((#[trigger] rs[j]).id) == yn && month_num(rs[j].id)
                        == mn implies days.deep_view().contains(rs[j]) by {}
            }
        }
        i += 1;
    }
    let month = two_digit(mn as u64);
    let r = StatMonth { month, days };
    proof {
        assert forall|a: int, b: int|
            0 <= a < b < r.deep_view().days.len() implies (#[trigger] r.deep_view().days[a]).id
            != (#[trigger] r.deep_view().days[b]).id by {
            assert(r.deep_view().days[a] == rs[js@[a]] && r.deep_view().days[b] == rs[js@[b]]);
            assert(rs[js@[a]].id != rs[js@[b]].id);
        }
        assert forall|idx: int|
            0 <= idx < r.deep_view().days.len() implies {
            let day = #[trigger] r.deep_view().days[idx];
            &&& rs.contains(day)
            &&& year_num(day.id) == yn
            &&& month_num(day.id) == mn
        } by {
            assert(r.deep_view().days[idx] == rs[js@[idx]]);
            assert(rs.contains(rs[js@[idx]]));
        }
    }
    r
}

/// Collects the month groups of one year, in order of first appearance.
fn build_year(rows: &Vec<Stats>, yn: i64) -> (r: StatYear)
    requires
        0 <= yn < 100,
        forall|j: int| 0 <= j < rows.deep_view().len() ==> (#[trigger] rows.deep_view()[j]).id > 1,
        forall|a: int, b: int|
            0 <= a < b < rows.deep_view().len() ==> (#[trigger] rows.deep_view()[a]).id != (
            #[trigger] rows.deep_view()[b]).id,
    ensures
        r.deep_view().year == two_digit_text(yn as int),
        forall|im: int, idx: int|
            0 <= im < r.deep_view().months.len() && 0 <= idx < r.deep_view().months[im].days.len()
                ==> {
                let day = #[trigger] r.deep_view().months[im].days[idx];
                &&& rows.deep_view().contains(day)
                &&& year_num(day.id) == yn
                &&& r.deep_view().months[im].month == month_label(day.id)
            },
        forall|j: int|
            0 <= j < rows.deep_view().len() && year_num((#[trigger] rows.deep_view()[j]).id) == yn
                ==> exists|im: int, idx: int|
                #![auto]
                0 <= im < r.deep_view().months.len() && 0 <= idx < r.deep_view().months[
                    im
                ].days.len() && r.deep_view().months[im].days[idx] == rows.deep_view()[j],
        forall|a: int, b: int|
            0 <= a < b < r.deep_view().months.len() ==> (#[trigger] r.deep_view().months[a]).month
                != (#[trigger] r.deep_view().months[b]).month,
        forall|a: int, b: int|
            0 <= a < b < r.deep_view().months.len() ==> crate::text::label_num(
                (#[trigger] r.deep_view().months[a]).month,
            ) < crate::text::label_num((#[trigger] r.deep_view().months[b]).month),
        forall|im: int, a: int, b: int|
            0 <= im < r.deep_view().months.len() && 0 <= a < b < r.deep_view().months[
                im
            ].days.len() ==> (#[trigger] r.deep_view().months[im].days[a]).id != (
            #[trigger] r.deep_view().months[im].days[b]).id,
{
    let ghost rs = rows.deep_view();
    let n = rows.len();
    proof {
        assert(rs.len() == rows@.len());
    }
    let mut mnums: Vec<i64> = Vec::new();
    let mut i: usize = 0;
    while i < n
        invariant
            i <= n,
            n == rows@.len(),
            rows.deep_view() == rs,
            rs.len() == n,
            forall|j: int| 0 <= j < rs.len() ==> (#[trigger] rs[j]).id > 1,
            forall|a: int, b: int| 0 <= a < b < mnums@.len() ==> mnums@[a] != mnums@[b],
            forall|a: int| 0 <= a < mnums@.len() ==> 0 <= #[trigger] mnums@[a] < 100,
            forall|j: int|
                0 <= j < i && year_num((#[trigger] rs[j]).id) == yn ==> mnums@.contains(
                    month_num(rs[j].id) as i64,
                ),
        decreases n - i,
    {
        let row = &rows[i];
        proof {
            assert(row.id == rs[i as int].id);
        }
        let uid = row.id as u64;
        let row_yn: i64 = ((uid / 10000) % 100) as i64;
        let row_mn: i64 = ((uid / 100) % 100) as i64;
        proof {
            assert(row_yn as int == year_num(rs[i as int].id));
            assert(row_mn as int == month_num(rs[i as int].id));
        }
        let ghost m0 = mnums@;
        if row_yn == yn {
            let mut seen = false;
            let m = mnums.len();
            let mut a: usize = 0;
            while a < m
                invariant
                    a <= m,
                    m == mnums@.len(),
                    mnums@ == m0,
                    seen <==> exists|w: int| 0 <= w < a && mnums@[w] == row_mn,
                decreases m - a,
            {
                if mnums[a] == row_mn {
                    seen = true;
                }
                proof {
                    if mnums@[a as int] == row_mn {
                        assert(exists|w: int| 0 <= w < a + 1 && mnums@[w] == row_mn);
                    }
                }
                a += 1;
            }
            if !seen {
                mnums.push(row_mn);
                proof {
                    assert(mnums@ == m0.push(row_mn));
                    assert(mnums@[mnums@.len() - 1] == row_mn);
                    assert forall|x: int, b: int|
                        0 <= x < b < mnums@.len() implies mnums@[x] != mnums@[b] by {
                        if b == mnums@.len() - 1 {
                            assert(!(exists|w: int| 0 <= w < m0.len() && m0[w] == row_mn));
                        }
                    }
                }
            } else {
                proof {
                    let w = choose|w: int| 0 <= w < m0.len() && m0[w] == row_mn;
                    assert(mnums@[w] == row_mn);
                }
            }
            proof {
                assert(mnums@.contains(row_mn));
                assert forall|v: i64| m0.contains(v) implies mnums@.contains(v) by {
                    let w = choose|w: int| 0 <= w < m0.len() && m0[w] == v;
                    assert(mnums@[w] == v);
                }
                assert forall|j: int|
                    0 <= j < i + 1 && year_num((#[trigger] rs[j]).id) == yn implies mnums
                    @.contains(month_num(rs[j].id) as i64) by {
                    if j < i as int {
                        assert(m0.contains(month_num(rs[j].id) as i64));
                    } else {
                        assert(row_mn == month_num(rs[j].id) as i64);
                    }
                }
            }
        }
        i += 1;
    }

    let ghost raw_mnums = mnums@;
    let mnums = sort_nums(&mnums);
    proof {
        assert forall|x: int| 0 <= x < mnums@.len() implies 0 <= #[trigger] mnums@[x] < 100 by {
            assert(mnums@.contains(mnums@[x]));
            assert(raw_mnums.contains(mnums@[x]));
            let w = choose|w: int| 0 <= w < raw_mnums.len() && raw_mnums[w] == mnums@[x];
        }
        assert forall|j: int|
            0 <= j < rs.len() && year_num((#[trigger] rs[j]).id) == yn implies mnums@.contains(
            month_num(rs[j].id) as i64) by {
            assert(raw_mnums.contains(month_num(rs[j].id) as i64));
        }
    }

    let mut months: Vec<StatMonth> = Vec::new();
    let nm = mnums.len();
    let mut a: usize = 0;
    while a < nm
        invariant
            a <= nm,
            nm == mnums@.len(),
            rows.deep_view() == rs,
            rs.len() == n,
            n == rows@.len(),
            forall|x: int, b: int| 0 <= x < b < mnums@.len() ==> mnums@[x] < mnums@[b],
            forall|x: int| 0 <= x < mnums@.len() ==> 0 <= #[trigger] mnums@[x] < 100,
            forall|j: int| 0 <= j < rs.len() ==> (#[trigger] rs[j]).id > 1,
            forall|a2: int, b: int|
                0 <= a2 < b < rs.len() ==> (#[trigger] rs[a2]).id != (#[trigger] rs[b]).id,
            forall|j: int|
                0 <= j < rs.len() && year_num((#[trigger] rs[j]).id) == yn ==> mnums@.contains(
                    month_num(rs[j].id) as i64,
                ),
            months.deep_view().len() == a,
            forall|x: int|
                0 <= x < a ==> (#[trigger] months.deep_view()[x]).month == two_digit_text(
                    mnums@[x] as int,
                ),
            forall|im: int, idx: int|
                0 <= im < months.deep_view().len() && 0 <= idx < months.deep_view()[im].days.len()
                    ==> {
                    let day = #[trigger] months.deep_view()[im].days[idx];
                    &&& rs.contains(day)
                    &&& year_num(day.id) == yn
                    &&& month_num(day.id) == mnums@[im]
                    &&& months.deep_view()[im].month == month_label(day.id)
                },
            forall|j: int, x: int|
                #![trigger rs[j], mnums@[x]]
                0 <= j < rs.len() && year_num(rs[j].id) == yn && 0 <= x < a && mnums@[x]
                    == month_num(rs[j].id) as i64 ==> months.deep_view()[x].days.contains(rs[j]),
            forall|im: int, x: int, b: int|
                0 <= im < months.deep_view().len() && 0 <= x < b < months.deep_view()[
                    im
                ].days.len() ==> (#[trigger] months.deep_view()[im].days[x]).id != (
                #[trigger] months.deep_view()[im].days[b]).id,
        decreases nm - a,
    {
        let mn = mnums[a];
        let month_group = build_month(rows, yn, mn);
        let ghost pre_months = months.deep_view();
        months.push(month_group);
        proof {
            assert(months.deep_view() =~= pre_months.push(month_group.deep_view()));
            assert forall|j: int, x: int|
                #![trigger rs[j], mnums@[x]]
                0 <= j < rs.len() && year_num(rs[j].id) == yn && 0 <= x < a + 1 && mnums@[x]
                    == month_num(rs[j].id) as i64 implies months.deep_view()[x].days.contains(
                rs[j]) by {
                if x < a as int {
                    assert(months.deep_view()[x] == pre_months[x]);
                    assert(pre_months[x].days.contains(rs[j]));
                } else {
                    assert(months.deep_view()[x] == month_group.deep_view());
                    assert(month_num(rs[j].id) == mn as int);
                    assert(month_group.deep_view().days.contains(rs[j]));
                }
            }
        }
        a += 1;
    }
    let year = two_digit(yn as u64);
    let r = StatYear { year, months };
    proof {
        assert forall|x: int, b: int|
            0 <= x < b < r.deep_view().months.len() implies (
        #[trigger] r.deep_view().months[x]).month != (#[trigger] r.deep_view().months[b]).month by {
            crate::text::lemma_two_digit_injective(mnums@[x] as int, mnums@[b] as int);
        }
        assert forall|x: int, b: int|
            0 <= x < b < r.deep_view().months.len() implies crate::text::label_num(
            (#[trigger] r.deep_view().months[x]).month) < crate::text::label_num(
            (#[trigger] r.deep_view().months[b]).month) by {
            crate::text::lemma_label_num_round_trip(mnums@[x] as int);
            crate::text::lemma_label_num_round_trip(mnums@[b] as int);
        }
        assert forall|j: int|
            0 <= j < rs.len() && year_num((#[trigger] rs[j]).id) == yn implies exists|
            im: int,
            idx: int,
        |
            #![auto]
            0 <= im < r.deep_view().months.len() && 0 <= idx < r.deep_view().months[
                im
            ].days.len() && r.deep_view().months[im].days[idx] == rs[j] by {
            let x = choose|x: int|
                0 <= x < mnums@.len() && mnums@[x] == month_num(rs[j].id) as i64;
            assert(r.deep_view().months[x].days.contains(rs[j]));
            let idx = choose|idx: int|
                0 <= idx < r.deep_view().months[x].days.len() && r.deep_view().months[x].days[idx]
                    == rs[j];
            assert(0 <= x < r.deep_view().months.len() && 0 <= idx < r.deep_view().months[
                x
            ].days.len() && r.deep_view().months[x].days[idx] == rs[j]);
        }
    }
    r
}

/// Sorts pairwise-distinct numbers into strictly ascending order, keeping
/// exactly the same members.
fn sort_nums(v: &Vec<i64>) -> (r: Vec<i64>)
    requires
        forall|a: int, b: int| 0 <= a < b < v@.len() ==> v@[a] != v@[b],
    ensures
        forall|k: i64| r@.contains(k) <==> v@.contains(k),
        forall|a: int, b: int| 0 <= a < b < r@.len() ==> r@[a] < r@[b],
{
    let n = v.len();
    let mut out: Vec<i64> = Vec::new();
    proof {
        assert(v@.take(0) =~= Seq::<i64>::empty());
    }
    let mut i: usize = 0;
    while i < n
        invariant
            i <= n,
            n == v@.len(),
            forall|a: int, b: int| 0 <= a < b < v@.len() ==> v@[a] != v@[b],
            forall|k: i64| out@.contains(k) <==> v@.take(i as int).contains(k),
            forall|a: int, b: int| 0 <= a < b < out@.len() ==> out@[a] < out@[b],
        decreases n - i,
    {
        let x = v[i];
        proof {
            if out@.contains(x) {
                let w = choose|w: int| 0 <= w < i && v@.take(i as int)[w] == x;
                assert(v@[w] != v@[i as int]);
            }
        }
        let m = out.len();
        let mut p: usize = 0;
        while p < m && out[p] < x
            invariant
                p <= m,
                m == out@.len(),
                forall|a: int| 0 <= a < p ==> out@[a] < x,
            decreases m - p,
        {
            p += 1;
        }
        let ghost pre_out = out@;
        out.insert(p, x);
        proof {
            assert(out@ == pre_out.insert(p as int, x));
            assert forall|a: int, b: int|
                0 <= a < b < out@.len() implies out@[a] < out@[b] by {
                if b < p as int {
                    assert(out@[a] == pre_out[a] && out@[b] == pre_out[b]);
                } else if a > p as int {
                    assert(out@[a] == pre_out[a - 1] && out@[b] == pre_out[b - 1]);
                } else if a == p as int {
                    assert(out@[a] == x && out@[b] == pre_out[b - 1]);
                    assert(!pre_out.contains(x));
                    assert(pre_out[b - 1] != x);
                    if p < m {
                        assert(!(pre_out[p as int] < x));
                        if b - 1 > p as int {
                            assert(pre_out[p as int] < pre_out[b - 1]);
                        }
                    }
                } else if b == p as int {
                    assert(out@[b] == x && out@[a] == pre_out[a]);
                } else {
                    assert(out@[a] == pre_out[a] && out@[b] == pre_out[b - 1]);
                    assert(pre_out[b - 1] != x);
                    if b - 1 == a {
                        assert(!pre_out.contains(x));
                    } else {
                        assert(pre_out[a] < pre_out[b - 1]);
                    }
                }
            }
            assert forall|k: i64| out@.contains(k) <==> v@.take(i as int + 1).contains(k) by {
                let t = v@.take(i as int + 1);
                assert(t.drop_last() =~= v@.take(i as int));
                assert(t.last() == v@[i as int]);
                if out@.contains(k) {
                    let w = choose|w: int| 0 <= w < out@.len() && out@[w] == k;
                    if w == p as int {
                        assert(t[t.len() - 1] == k);
                    } else {
                        let w0: int = if w < p as int {
                            w
                        } else {
                            w - 1
                        };
                        assert(pre_out[w0] == k);
                        assert(pre_out.contains(k));
                        let u = choose|u: int| 0 <= u < i && v@.take(i as int)[u] == k;
                        assert(t[u] == k);
                    }
                }
                if t.contains(k) {
                    let u = choose|u: int| 0 <= u < t.len() && t[u] == k;
                    if u == i as int {
                        assert(out@[p as int] == k);
                    } else {
                        assert(v@.take(i as int)[u] == k);
                        assert(pre_out.contains(k));
                        let w = choose|w: int| 0 <= w < pre_out.len() && pre_out[w] == k;
                        let w2: int = if w < p as int {
                            w
                        } else {
                            w + 1
                        };
                        assert(out@[w2] == k);
                    }
                }
            }
        }
        i += 1;
    }
    proof {
        assert(v@.take(n as int) =~= v@);
    }
    out
}

/// Groups rollup rows into the year, month, day report tree, years and
/// months in ascending label order.
pub fn group_rollups(rows: &Vec<Stats>) -> (r: Vec<StatYear>)
    requires
        forall|a: int, b: int|
            0 <= a < b < rows.deep_view().len() ==> (#[trigger] rows.deep_view()[a]).id != (
            #[trigger] rows.deep_view()[b]).id,
        forall|j: int| 0 <= j < rows.deep_view().len() ==> (#[trigger] rows.deep_view()[j]).id > 1,
    ensures
        grouped_ok(r.deep_view(), rows.deep_view()),
{
    let ghost rs = rows.deep_view();
    let n = rows.len();
    proof {
        assert(rs.len() == rows@.len());
    }

    let mut ynums: Vec<i64> = Vec::new();
    let mut i: usize = 0;
    while i < n
        invariant
            i <= n,
            n == rows@.len(),
            rows.deep_view() == rs,
            rs.len() == n,
            forall|j: int| 0 <= j < rs.len() ==> (#[trigger] rs[j]).id > 1,
            forall|a: int, b: int| 0 <= a < b < ynums@.len() ==> ynums@[a] != ynums@[b],
            forall|a: int| 0 <= a < ynums@.len() ==> 0 <= #[trigger] ynums@[a] < 100,
            forall|j: int|
                0 <= j < i ==> ynums@.contains(year_num((#[trigger] rs[j]).id) as i64),
        decreases n - i,
    {
        let row = &rows[i];
        proof {
            assert(row.id == rs[i as int].id);
        }
        let uid = row.id as u64;
        let yn: i64 = ((uid / 10000) % 100) as i64;
        proof {
            assert(yn as int == year_num(rs[i as int].id));
        }
        let ghost y0 = ynums@;
        let mut seen = false;
        let m = ynums.len();
        let mut a: usize = 0;
        while a < m
            invariant
                a <= m,
                m == ynums@.len(),
                ynums@ == y0,
                seen <==> exists|w: int| 0 <= w < a && ynums@[w] == yn,
            decreases m - a,
        {
            if ynums[a] == yn {
                seen = true;
            }
            proof {
                if ynums@[a as int] == yn {
                    assert(exists|w: int| 0 <= w < a + 1 && ynums@[w] == yn);
                }
            }
            a += 1;
        }
        if !seen {
            ynums.push(yn);
            proof {
                assert(ynums@ == y0.push(yn));
                assert(ynums@[ynums@.len() - 1] == yn);
                assert forall|x: int, b: int|
                    0 <= x < b < ynums@.len() implies ynums@[x] != ynums@[b] by {
                    if b == ynums@.len() - 1 {
                        assert(!(exists|w: int| 0 <= w < y0.len() && y0[w] == yn));
                    }
                }
            }
        } else {
            proof {
                let w = choose|w: int| 0 <= w < y0.len() && y0[w] == yn;
                assert(ynums@[w] == yn);
            }
        }
        proof {
            assert(ynums@.contains(yn));
            assert forall|v: i64| y0.contains(v) implies ynums@.contains(v) by {
                let w = choose|w: int| 0 <= w < y0.len() && y0[w] == v;
                assert(ynums@[w] == v);
            }
            assert forall|j: int|
                0 <= j < i + 1 implies ynums@.contains(
                year_num((#[trigger] rs[j]).id) as i64) by {
                if j < i as int {
                    assert(y0.contains(year_num(rs[j].id) as i64));
                } else {
                    assert(yn == year_num(rs[j].id) as i64);
                }
            }
        }
        i += 1;
    }

    let ghost raw_ynums = ynums@;
    let ynums = sort_nums(&ynums);
    proof {
        assert forall|x: int| 0 <= x < ynums@.len() implies 0 <= #[trigger] ynums@[x] < 100 by {
            assert(ynums@.contains(ynums@[x]));
            assert(raw_ynums.contains(ynums@[x]));
            let w = choose|w: int| 0 <= w < raw_ynums.len() && raw_ynums[w] == ynums@[x];
        }
        assert forall|j: int|
            0 <= j < rs.len() implies ynums@.contains(
            year_num((#[trigger] rs[j]).id) as i64) by {
            assert(raw_ynums.contains(year_num(rs[j].id) as i64));
        }
    }

    let mut out: Vec<StatYear> = Vec::new();
    let ny = ynums.len();
    let mut a: usize = 0;
    while a < ny
        invariant
            a <= ny,
            ny == ynums@.len(),
            rows.deep_view() == rs,
            rs.len() == n,
            n == rows@.len(),
            forall|x: int, b: int| 0 <= x < b < ynums@.len() ==> ynums@[x] < ynums@[b],
            forall|x: int| 0 <= x < ynums@.len() ==> 0 <= #[trigger] ynums@[x] < 100,
            forall|j: int| 0 <= j < rs.len() ==> (#[trigger] rs[j]).id > 1,
            forall|a2: int, b: int|
                0 <= a2 < b < rs.len() ==> (#[trigger] rs[a2]).id != (#[trigger] rs[b]).id,
            forall|j: int|
                0 <= j < rs.len() ==> ynums@.contains(year_num((#[trigger] rs[j]).id) as i64),
            out.deep_view().len() == a,
            forall|x: int|
                0 <= x < a ==> (#[trigger] out.deep_view()[x]).year == two_digit_text(
                    ynums@[x] as int,
                ),
            forall|iy: int, im: int, idx: int|
                0 <= iy < out.deep_view().len() && 0 <= im < out.deep_view()[iy].months.len() && 0
                    <= idx < out.deep_view()[iy].months[im].days.len() ==> {
                    let day = #[trigger] out.deep_view()[iy].months[im].days[idx];
                    &&& rs.contains(day)
                    &&& year_num(day.id) == ynums@[iy]
                    &&& out.deep_view()[iy].year == year_label(day.id)
                    &&& out.deep_view()[iy].months[im].month == month_label(day.id)
                },
            forall|j: int, x: int|
                #![trigger rs[j], ynums@[x]]
                0 <= j < rs.len() && 0 <= x < a && ynums@[x] == year_num(
                    rs[j].id,
                ) as i64 ==> exists|im: int, idx: int|
                    #![auto]
                    0 <= im < out.deep_view()[x].months.len() && 0 <= idx < out.deep_view()[
                        x
                    ].months[im].days.len() && out.deep_view()[x].months[im].days[idx] == rs[j],
            forall|iy: int, x: int, b: int|
                0 <= iy < out.deep_view().len() && 0 <= x < b < out.deep_view()[iy].months.len()
                    ==> (#[trigger] out.deep_view()[iy].months[x]).month != (
                #[trigger] out.deep_view()[iy].months[b]).month,
            forall|iy: int, x: int, b: int|
                0 <= iy < out.deep_view().len() && 0 <= x < b < out.deep_view()[iy].months.len()
                    ==> crate::text::label_num(
                    (#[trigger] out.deep_view()[iy].months[x]).month,
                ) < crate::text::label_num((#[trigger] out.deep_view()[iy].months[b]).month),
            forall|iy: int, im: int, x: int, b: int|
                0 <= iy < out.deep_view().len() && 0 <= im < out.deep_view()[iy].months.len() && 0
                    <= x < b < out.deep_view()[iy].months[im].days.len() ==> (
                #[trigger] out.deep_view()[iy].months[im].days[x]).id != (
                #[trigger] out.deep_view()[iy].months[im].days[b]).id,
        decreases ny - a,
    {
        let yn = ynums[a];
        let year_group = build_year(rows, yn);
        let ghost pre_out = out.deep_view();
        out.push(year_group);
        proof {
            assert(out.deep_view() =~= pre_out.push(year_group.deep_view()));
            assert forall|j: int, x: int|
                #![trigger rs[j], ynums@[x]]
                0 <= j < rs.len() && 0 <= x < a + 1 && ynums@[x] == year_num(rs[j].id) as i64
                    implies exists|im: int, idx: int|
                    #![auto]
                    0 <= im < out.deep_view()[x].months.len() && 0 <= idx < out.deep_view()[
                        x
                    ].months[im].days.len() && out.deep_view()[x].months[im].days[idx]
                        == rs[j] by {
                if x < a as int {
                    let (im, idx): (int, int) = choose|im: int, idx: int|
                        #![auto]
                        0 <= im < pre_out[x].months.len() && 0 <= idx < pre_out[x].months[
                            im
                        ].days.len() && pre_out[x].months[im].days[idx] == rs[j];
                    assert(out.deep_view()[x] == pre_out[x]);
                    assert(0 <= im < out.deep_view()[x].months.len() && 0 <= idx
                        < out.deep_view()[x].months[im].days.len() && out.deep_view()[x].months[
                        im
                    ].days[idx] == rs[j]);
                } else {
                    assert(year_num(rs[j].id) == yn as int);
                    let (im, idx): (int, int) = choose|im: int, idx: int|
                        #![auto]
                        0 <= im < year_group.deep_view().months.len() && 0 <= idx
                            < year_group.deep_view().months[im].days.len()
                            && year_group.deep_view().months[im].days[idx] == rs[j];
                    assert(out.deep_view()[x] == year_group.deep_view());
                    assert(0 <= im < out.deep_view()[x].months.len() && 0 <= idx
                        < out.deep_view()[x].months[im].days.len() && out.deep_view()[x].months[
                        im
                    ].days[idx] == rs[j]);
                }
            }
        }
        a += 1;
    }
    proof {
        assert forall|x: int, b: int|
            0 <= x < b < out.deep_view().len() implies out.deep_view()[x].year
            != out.deep_view()[b].year by {
            crate::text::lemma_two_digit_injective(ynums@[x] as int, ynums@[b] as int);
        }
        let years = out.deep_view();
        assert forall|j: int|
            0 <= j < rs.len() implies report_holds(years, #[trigger] rs[j]) by {
            let x = choose|x: int|
                0 <= x < ynums@.len() && ynums@[x] == year_num(rs[j].id) as i64;
            let (im, idx): (int, int) = choose|im: int, idx: int|
                #![auto]
                0 <= im < years[x].months.len() && 0 <= idx < years[x].months[im].days.len()
                    && years[x].months[im].days[idx] == rs[j];
            assert(years[x].months[im].days[idx] == rs[j]);
            assert(years[x].months[im].days.contains(rs[j]));
            assert(year_holds(years[x], rs[j]));
        }
        assert(grouped_complete(years, rs));
        assert(grouped_sound(years, rs)) by {
            assert forall|iy: int, im: int, idx: int|
                0 <= iy < years.len() && 0 <= im < years[iy].months.len() && 0 <= idx < years[
                    iy
                ].months[im].days.len() implies {
                let day = #[trigger] years[iy].months[im].days[idx];
                &&& rs.contains(day)
                &&& years[iy].year == year_label(day.id)
                &&& years[iy].months[im].month == month_label(day.id)
            } by {}
        }
        assert(grouped_months_distinct(years)) by {
            assert forall|iy: int, a2: int, b: int|
                0 <= iy < years.len() && 0 <= a2 < b < years[iy].months.len() implies (
            #[trigger] years[iy].months[a2]).month != (#[trigger] years[iy].months[b]).month by {}
        }
        assert(grouped_days_distinct(years)) by {
            assert forall|iy: int, im: int, a2: int, b: int|
                0 <= iy < years.len() && 0 <= im < years[iy].months.len() && 0 <= a2 < b < years[
                    iy
                ].months[im].days.len() implies (#[trigger] years[iy].months[im].days[a2]).id != (
            #[trigger] years[iy].months[im].days[b]).id by {}
        }
        assert(grouped_years_distinct(years)) by {
            assert forall|a2: int, b: int|
                0 <= a2 < b < years.len() implies years[a2].year != years[b].year by {
                crate::text::lemma_two_digit_injective(ynums@[a2] as int, ynums@[b] as int);
            }
        }
        assert(grouped_years_ascending(years)) by {
            assert forall|a2: int, b: int|
                0 <= a2 < b < years.len() implies crate::text::label_num(years[a2].year)
                < crate::text::label_num(years[b].year) by {
                crate::text::lemma_label_num_round_trip(ynums@[a2] as int);
                crate::text::lemma_label_num_round_trip(ynums@[b] as int);
            }
        }
        assert(grouped_months_ascending(years)) by {
            assert forall|iy: int, a2: int, b: int|
                0 <= iy < years.len() && 0 <= a2 < b < years[iy].months.len()
                    implies crate::text::label_num((#[trigger] years[iy].months[a2]).month)
                    < crate::text::label_num((#[trigger] years[iy].months[b]).month) by {}
        }
        assert(grouped_ok(years, rs));
    }
    out
}

/// Reads the whole usage report: every rollup bucket past the all-time row,
/// grouped into the year, month, day tree, years and months ascending.
pub fn get_all_stats(reg: &Registry) -> (r: Vec<StatYear>)
    requires
        stats_keyed(reg@.stats),
    ensures
        exists|rs: Seq<StatsView>, ks: Seq<i64>|
            #![trigger rollup_rows_ok(rs, reg@.stats, ks)]
            rollup_rows_ok(rs, reg@.stats, ks) && grouped_ok(r.deep_view(), rs),
{
    let (keys, rows) = rollup_rows(reg);
    proof {
        assert(rollup_rows_ok(rows.deep_view(), reg@.stats, keys@));
        assert forall|a: int, b: int|
            0 <= a < b < rows.deep_view().len() implies (#[trigger] rows.deep_view()[a]).id != (
        #[trigger] rows.deep_view()[b]).id by {
            assert(rows.deep_view()[a] == reg@.stats[keys@[a]] && rows.deep_view()[b]
                == reg@.stats[keys@[b]]);
            assert(reg@.stats.contains_key(keys@[a]) && reg@.stats.contains_key(keys@[b]));
            assert(rows.deep_view()[a].id == keys@[a] && rows.deep_view()[b].id == keys@[b]);
            assert(keys@[a] != keys@[b]);
        }
        assert forall|j: int|
            0 <= j < rows.deep_view().len() implies (#[trigger] rows.deep_view()[j]).id > 1 by {
            assert(rows.deep_view()[j] == reg@.stats[keys@[j]]);
            assert(keys@[j] > 1);
        }
    }
    let grouped = group_rollups(&rows);
    proof {
        assert(rollup_rows_ok(rows.deep_view(), reg@.stats, keys@) && grouped_ok(
            grouped.deep_view(),
            rows.deep_view(),
        ));
    }
    grouped
}

} // verus!
