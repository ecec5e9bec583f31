use vstd::prelude::*;

use crate::datetime::{datetime_le, datetime_lt, Date, DateTime};
use crate::scan::{file_name_of, file_name_seq};

verus! {

/// One scanned media file together with its capture timestamp.
#[derive(Debug)]
pub struct MediaRecord {
    pub path: String,
    pub captured_at: DateTime,
}

/// The mathematical value of a [`MediaRecord`].
pub struct MediaRecordView {
    pub path: Seq<char>,
    pub captured_at: DateTime,
}

impl View for MediaRecord {
    type V = MediaRecordView;

    open spec fn view(&self) -> MediaRecordView {
        MediaRecordView { path: self.path@, captured_at: self.captured_at }
    }
}

impl DeepView for MediaRecord {
    type V = MediaRecordView;

    open spec fn deep_view(&self) -> MediaRecordView {
        self@
    }
}

impl MediaRecord {
    /// An identical copy of this record.
    pub fn duplicate(&self) -> (r: MediaRecord)
        ensures
            r@ == self@,
    {
        MediaRecord { path: self.path.clone(), captured_at: self.captured_at }
    }
}

/// The half-open time window records are filtered against: `start` is
/// inclusive, `end` exclusive. An inverted window is not an error; it
/// simply admits nothing.
#[derive(Clone, Copy, PartialEq, Eq, Structural, Debug)]
pub struct TimeWindow {
    pub start: DateTime,
    pub end: DateTime,
}

/// Whether `dt` lies in the window: `start <= dt < end`.
pub open spec fn in_window(dt: DateTime, w: TimeWindow) -> bool {
    datetime_le(w.start, dt) && datetime_lt(dt, w.end)
}

impl TimeWindow {
    /// Whether `dt` lies in this window (`start` inclusive, `end` exclusive).
    pub fn contains(&self, dt: &DateTime) -> (r: bool)
        ensures
            r == in_window(*dt, *self),
    {
        self.start.le(dt) && dt.lt(&self.end)
    }
}

/// The identity under which duplicate imports are detected: the file name
/// together with the calendar date of capture.
#[derive(Debug)]
pub struct DedupKey {
    pub file_name: String,
    pub date: Date,
}

/// The mathematical value of a [`DedupKey`].
pub struct DedupKeyView {
    pub file_name: Seq<char>,
    pub date: Date,
}

impl View for DedupKey {
    type V = DedupKeyView;

    open spec fn view(&self) -> DedupKeyView {
        DedupKeyView { file_name: self.file_name@, date: self.date }
    }
}

impl DeepView for DedupKey {
    type V = DedupKeyView;

    open spec fn deep_view(&self) -> DedupKeyView {
        self@
    }
}

/// The deduplication key of a record: its file name and capture date.
pub open spec fn key_of(r: MediaRecordView) -> DedupKeyView {
    DedupKeyView { file_name: file_name_seq(r.path), date: r.captured_at.date }
}

/// The deduplication key of `r`.
pub fn dedup_key(r: &MediaRecord) -> (k: DedupKey)
    ensures
        k@ == key_of(r@),
{
    DedupKey { file_name: file_name_of(r.path.as_str()), date: r.captured_at.date }
}

/// Whether some record in `s` has key `k`.
pub open spec fn has_key(s: Seq<MediaRecordView>, k: DedupKeyView) -> bool {
    exists|i: int| 0 <= i < s.len() && key_of(s[i]) == k
}

/// The surviving subset of `records` under window `w`: records outside the
/// window are dropped, and of several records sharing a deduplication key
/// the first kept one wins.
pub open spec fn spec_surviving(records: Seq<MediaRecordView>, w: TimeWindow) -> Seq<
    MediaRecordView,
>
    decreases records.len(),
{
    if records.len() == 0 {
        Seq::empty()
    } else {
        let prev = spec_surviving(records.drop_last(), w);
        let r = records.last();
        if in_window(r.captured_at, w) && !has_key(prev, key_of(r)) {
            prev.push(r)
        } else {
            prev
        }
    }
}

/// Whether one of `keys` is the key `(name, date)`.
fn keys_contain(keys: &Vec<DedupKey>, name: &String, date: &Date) -> (r: bool)
    ensures
        r == exists|j: int|
            0 <= j < keys@.len() && keys@[j]@.file_name == name@ && keys@[j]@.date == *date,
{
    let n = keys.len();
    let mut j: usize = 0;
    while j < n
        invariant
            j <= n,
            n == keys@.len(),
            forall|t: int|
                0 <= t < j ==> !(keys@[t]@.file_name == name@ && keys@[t]@.date == *date),
        decreases n - j,
    {
        let k = &keys[j];
        if k.file_name == *name && k.date.year == date.year && k.date.month == date.month
            && k.date.day == date.day {
            assert(keys@[j as int]@.date == *date);
            return true;
        }
        j = j + 1;
    }
    false
}

/// Keep the records that lie in `window`, dropping every record whose
/// deduplication key an earlier kept record already carries.
pub fn filter_images(records: &Vec<MediaRecord>, window: &TimeWindow) -> (r: Vec<MediaRecord>)
    ensures
        r.deep_view() == spec_surviving(records.deep_view(), *window),
{
    let n = records.len();
    let mut out: Vec<MediaRecord> = Vec::new();
    let mut keys: Vec<DedupKey> = Vec::new();
    let mut i: usize = 0;
    while i < n
        invariant
            i <= n,
            n == records@.len(),
            out.deep_view() == spec_surviving(records.deep_view().take(i as int), *window),
            keys@.len() == out@.len(),
            forall|t: int|
                0 <= t < keys@.len() ==> keys@[t]@ == key_of(#[trigger] out.deep_view()[t]),
        decreases n - i,
    {
        let ghost prefix = records.deep_view().take(i as int);
        let ghost prev = spec_surviving(prefix, *window);
        let rec = &records[i];
        let name = file_name_of(rec.path.as_str());
        let in_range = window.contains(&rec.captured_at);
        let dup = keys_contain(&keys, &name, &rec.captured_at.date);
        proof {
            assert(records.deep_view().take(i + 1).drop_last() =~= prefix);
            assert(records.deep_view().take(i + 1).last() == records.deep_view()[i as int]);
            assert(dup == has_key(prev, key_of(records.deep_view()[i as int]))) by {
                if dup {
                    let j = choose|j: int|
                        0 <= j < keys@.len() && keys@[j]@.file_name == name@ && keys@[j]@.date
                            == rec.captured_at.date;
                    assert(key_of(out.deep_view()[j]) == key_of(
                        records.deep_view()[i as int],
                    ));
                } else {
                    if has_key(prev, key_of(records.deep_view()[i as int])) {
                        let j = choose|j: int|
                            0 <= j < prev.len() && key_of(prev[j]) == key_of(
                                records.deep_view()[i as int],
                            );
                        assert(keys@[j]@.file_name == name@ && keys@[j]@.date
                            == rec.captured_at.date);
                    }
                }
            }
        }
        if in_range && !dup {
            out.push(rec.duplicate());
            keys.push(DedupKey { file_name: name, date: rec.captured_at.date });
            assert(out.deep_view() =~= prev.push(records.deep_view()[i as int]));
        }
        i = i + 1;
    }
    proof {
        assert(records.deep_view().take(n as int) =~= records.deep_view());
    }
    out
}

/// Every surviving record lies inside the window.
pub proof fn lemma_survivors_in_window(records: Seq<MediaRecordView>, w: TimeWindow)
    ensures
        forall|i: int|
            0 <= i < spec_surviving(records, w).len() ==> in_window(
                #[trigger] spec_surviving(records, w)[i].captured_at,
                w,
            ),
    decreases records.len(),
{
    if records.len() > 0 {
        lemma_survivors_in_window(records.drop_last(), w);
        let s = spec_surviving(records, w);
        let prev = spec_surviving(records.drop_last(), w);
        let r = records.last();
        if in_window(r.captured_at, w) && !has_key(prev, key_of(r)) {
            assert forall|i: int| 0 <= i < s.len() implies in_window(s[i].captured_at, w) by {
                if i < prev.len() {
                    assert(s[i] == prev[i]);
                } else {
                    assert(s[i] == r);
                }
            }
        }
    }
}

/// No two surviving records share a deduplication key.
pub proof fn lemma_survivors_distinct_keys(records: Seq<MediaRecordView>, w: TimeWindow)
    ensures
        forall|i: int, j: int|
            0 <= i < j < spec_surviving(records, w).len() ==> key_of(
                #[trigger] spec_surviving(records, w)[i],
            ) != key_of(#[trigger] spec_surviving(records, w)[j]),
    decreases records.len(),
{
    if records.len() > 0 {
        lemma_survivors_distinct_keys(records.drop_last(), w);
        let s = spec_surviving(records, w);
        let prev = spec_surviving(records.drop_last(), w);
        if s != prev {
            assert forall|i: int, j: int| 0 <= i < j < s.len() implies key_of(s[i]) != key_of(
                s[j],
            ) by {
                if j == s.len() - 1 {
                    assert(!has_key(prev, key_of(records.last())));
                    assert(key_of(prev[i]) != key_of(records.last()));
                }
            }
        }
    }
}

/// An instant equal to the window's exclusive end lies outside it; one
/// equal to the inclusive start lies inside it whenever the window is
/// not empty at that point.
pub proof fn lemma_window_boundary(w: TimeWindow, dt: DateTime)
    ensures
        dt == w.end ==> !in_window(dt, w),
        dt == w.start && datetime_lt(dt, w.end) ==> in_window(dt, w),
{
}

} // verus!
