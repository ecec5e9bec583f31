use vstd::prelude::*;
use vstd::string::StringExecFns;

use crate::datetime::{date_valid, datetime_valid, Date};
use crate::format::{date_seq, format_date, format_year, year_seq};
use crate::records::{MediaRecord, MediaRecordView};
use crate::scan::{file_name_of, file_name_seq};

verus! {

/// The destination directory for capture date `d` under `root`:
/// `root/YYYY/YYYY-MM-DD`.
pub open spec fn dest_dir_seq(root: Seq<char>, d: Date) -> Seq<char> {
    root + seq!['/'] + year_seq(d.year as int) + seq!['/'] + date_seq(d)
}

/// The destination path of record `r` under `root`: its destination
/// directory followed by its original file name.
pub open spec fn dest_path_seq(root: Seq<char>, r: MediaRecordView) -> Seq<char> {
    dest_dir_seq(root, r.captured_at.date) + seq!['/'] + file_name_seq(r.path)
}

/// The destination directory for capture date `d` under `root`.
pub fn dest_dir_for(root: &str, d: &Date) -> (r: String)
    requires
        date_valid(*d),
    ensures
        r@ == dest_dir_seq(root@, *d),
{
    let mut r = String::from_str(root);
    r.append("/");
    let y = format_year(d);
    r.append(y.as_str());
    r.append("/");
    let full = format_date(d);
    r.append(full.as_str());
    proof {
        reveal_strlit("/");
        assert("/"@ =~= seq!['/']);
        assert(r@ =~= dest_dir_seq(root@, *d));
    }
    r
}

/// The destination path of record `rec` under `root`.
pub fn dest_path_for(root: &str, rec: &MediaRecord) -> (r: String)
    requires
        date_valid(rec.captured_at.date),
    ensures
        r@ == dest_path_seq(root@, rec@),
{
    let mut r = dest_dir_for(root, &rec.captured_at.date);
    r.append("/");
    let name = file_name_of(rec.path.as_str());
    r.append(name.as_str());
    proof {
        reveal_strlit("/");
        assert("/"@ =~= seq!['/']);
        assert(r@ =~= dest_path_seq(root@, rec@));
    }
    r
}

/// One pending copy: source path and computed destination path.
#[derive(Debug)]
pub struct CopyOp {
    pub src: String,
    pub dest: String,
}

/// The mathematical value of a [`CopyOp`].
pub struct CopyOpView {
    pub src: Seq<char>,
    pub dest: Seq<char>,
}

impl View for CopyOp {
    type V = CopyOpView;

    open spec fn view(&self) -> CopyOpView {
        CopyOpView { src: self.src@, dest: self.dest@ }
    }
}

impl DeepView for CopyOp {
    type V = CopyOpView;

    open spec fn deep_view(&self) -> CopyOpView {
        self@
    }
}

/// The copies an import of `records` under `root` performs when the
/// destination already holds the paths `existing`, paired with the paths
/// present once the import is done. Records are taken in order; a record
/// whose destination path is already present is skipped, never
/// overwritten.
pub open spec fn spec_plan(
    records: Seq<MediaRecordView>,
    root: Seq<char>,
    existing: Seq<Seq<char>>,
) -> (Seq<CopyOpView>, Seq<Seq<char>>)
    decreases records.len(),
{
    if records.len() == 0 {
        (Seq::empty(), existing)
    } else {
        let r = records.first();
        let dest = dest_path_seq(root, r);
        if existing.contains(dest) {
            spec_plan(records.drop_first(), root, existing)
        } else {
            let rest = spec_plan(records.drop_first(), root, existing.push(dest));
            (seq![CopyOpView { src: r.path, dest }] + rest.0, rest.1)
        }
    }
}

/// The outcome of one import phase: the copies to perform, in record
/// order, and the destination paths present once they are done.
pub struct ImportPlan {
    pub copies: Vec<CopyOp>,
    pub present_after: Vec<String>,
}

/// Whether `s` is one of the paths in `v`.
fn contains_path(v: &Vec<String>, s: &String) -> (r: bool)
    ensures
        r == v.deep_view().contains(s@),
{
    let n = v.len();
    let mut j: usize = 0;
    while j < n
        invariant
            j <= n,
            n == v@.len(),
            forall|t: int| 0 <= t < j ==> v.deep_view()[t] != s@,
        decreases n - j,
    {
        if v[j] == *s {
            assert(v.deep_view()[j as int] == s@);
            return true;
        }
        j = j + 1;
    }
    assert(!v.deep_view().contains(s@));
    false
}

/// A copy of a list of paths.
fn clone_paths(v: &Vec<String>) -> (r: Vec<String>)
    ensures
        r.deep_view() == v.deep_view(),
{
    let n = v.len();
    let mut r: Vec<String> = Vec::new();
    let mut i: usize = 0;
    assert(r.deep_view() =~= v.deep_view().take(0));
    while i < n
        invariant
            i <= n,
            n == v@.len(),
            r@.len() == i,
            r.deep_view() == v.deep_view().take(i as int),
        decreases n - i,
    {
        let ghost prevv = r@;
        let x = v[i].clone();
        r.push(x);
        proof {
            let new = r.deep_view();
            let tk = v.deep_view().take(i as int + 1);
            assert(new.len() == tk.len());
            assert forall|t: int| 0 <= t < new.len() implies new[t] == tk[t] by {
                assert(new[t] == r@[t].deep_view());
                if t < i {
                    assert(r@[t] == prevv[t]);
                    assert(prevv[t].deep_view() == v.deep_view().take(i as int)[t]);
                } else {
                    assert(r@[t] == v@[i as int]);
                }
            }
            assert(new =~= tk);
        }
        i = i + 1;
    }
    assert(v.deep_view().take(n as int) =~= v.deep_view());
    r
}

/// Compute the copies that import `records` under `root`, given the
/// destination paths that already exist: each record's destination is
/// `root/YYYY/YYYY-MM-DD/name`, and a record whose destination is already
/// present is skipped.
pub fn plan_imports(records: &Vec<MediaRecord>, root: &str, existing: &Vec<String>) -> (p:
    ImportPlan)
    requires
        forall|i: int|
            0 <= i < records.deep_view().len() ==> datetime_valid(
                (#[trigger] records.deep_view()[i]).captured_at,
            ),
    ensures
        p.copies.deep_view() == spec_plan(records.deep_view(), root@, existing.deep_view()).0,
        p.present_after.deep_view() == spec_plan(
            records.deep_view(),
            root@,
            existing.deep_view(),
        ).1,
{
    let ghost rdv = records.deep_view();
    let ghost e0 = existing.deep_view();
    let n = records.len();
    let mut copies: Vec<CopyOp> = Vec::new();
    let mut present: Vec<String> = clone_paths(existing);
    let mut i: usize = 0;
    proof {
        assert(rdv.len() == records@.len());
        assert(rdv.skip(0) =~= rdv);
    }
    while i < n
        invariant
            i <= n,
            n == records@.len(),
            rdv == records.deep_view(),
            rdv.len() == n,
            forall|t: int|
                0 <= t < rdv.len() ==> datetime_valid((#[trigger] rdv[t]).captured_at),
            spec_plan(rdv, root@, e0).0 == copies.deep_view() + spec_plan(
                rdv.skip(i as int),
                root@,
                present.deep_view(),
            ).0,
            spec_plan(rdv, root@, e0).1 == spec_plan(
                rdv.skip(i as int),
                root@,
                present.deep_view(),
            ).1,
        decreases n - i,
    {
        let ghost pre = present.deep_view();
        let rec = &records[i];
        assert(rec@ == rdv[i as int]);
        let dest = dest_path_for(root, rec);
        proof {
            assert(rdv.skip(i as int).first() == rdv[i as int]);
            assert(rdv.skip(i as int).drop_first() =~= rdv.skip(i + 1));
        }
        if contains_path(&present, &dest) {
            // already present at the destination: never overwrite
        } else {
            let op = CopyOp { src: rec.path.clone(), dest: dest.clone() };
            copies.push(op);
            present.push(dest);
            proof {
                assert(present.deep_view() =~= pre.push(dest_path_seq(root@, rdv[i as int])));
                assert(copies.deep_view().last().src == rdv[i as int].path);
                let head = seq![
                    CopyOpView { src: rdv[i as int].path, dest: dest_path_seq(root@, rdv[i as int]) },
                ];
                assert(copies.deep_view() =~= copies.deep_view().drop_last() + head);
                assert((copies.deep_view().drop_last() + head) + spec_plan(
                    rdv.skip(i + 1),
                    root@,
                    present.deep_view(),
                ).0 =~= copies.deep_view().drop_last() + (head + spec_plan(
                    rdv.skip(i + 1),
                    root@,
                    present.deep_view(),
                ).0));
            }
        }
        i = i + 1;
    }
    proof {
        assert(rdv.skip(n as int) =~= Seq::<MediaRecordView>::empty());
        assert(copies.deep_view() + Seq::<CopyOpView>::empty() =~= copies.deep_view());
    }
    ImportPlan { copies, present_after: present }
}

/// A path present before an import phase is still present after it:
/// the phase only adds paths.
pub proof fn lemma_plan_keeps_existing(
    records: Seq<MediaRecordView>,
    root: Seq<char>,
    existing: Seq<Seq<char>>,
    p: Seq<char>,
)
    requires
        existing.contains(p),
    ensures
        spec_plan(records, root, existing).1.contains(p),
    decreases records.len(),
{
    if records.len() > 0 {
        let dest = dest_path_seq(root, records.first());
        if existing.contains(dest) {
            lemma_plan_keeps_existing(records.drop_first(), root, existing, p);
        } else {
            let i = choose|i: int| 0 <= i < existing.len() && existing[i] == p;
            assert(existing.push(dest)[i] == p);
            lemma_plan_keeps_existing(records.drop_first(), root, existing.push(dest), p);
        }
    }
}

/// After an import phase, every record's destination path is present,
/// whether it was copied by the phase or already there.
pub proof fn lemma_plan_covers(
    records: Seq<MediaRecordView>,
    root: Seq<char>,
    existing: Seq<Seq<char>>,
)
    ensures
        forall|i: int|
            0 <= i < records.len() ==> spec_plan(records, root, existing).1.contains(
                dest_path_seq(root, #[trigger] records[i]),
            ),
    decreases records.len(),
{
    if records.len() > 0 {
        let dest = dest_path_seq(root, records.first());
        let after = if existing.contains(dest) {
            existing
        } else {
            existing.push(dest)
        };
        assert(after.contains(dest)) by {
            if !existing.contains(dest) {
                assert(existing.push(dest).last() == dest);
            }
        }
        lemma_plan_keeps_existing(records.drop_first(), root, after, dest);
        lemma_plan_covers(records.drop_first(), root, after);
        assert forall|i: int|
            0 <= i < records.len() implies spec_plan(records, root, existing).1.contains(
            dest_path_seq(root, records[i]),
        ) by {
            if i > 0 {
                assert(records.drop_first()[i - 1] == records[i]);
            }
        }
    }
}

/// A phase whose every destination path is already present copies nothing
/// and leaves the destination as it was.
pub proof fn lemma_plan_all_present(
    records: Seq<MediaRecordView>,
    root: Seq<char>,
    existing: Seq<Seq<char>>,
)
    requires
        forall|i: int|
            0 <= i < records.len() ==> existing.contains(
                dest_path_seq(root, #[trigger] records[i]),
            ),
    ensures
        spec_plan(records, root, existing).0 == Seq::<CopyOpView>::empty(),
        spec_plan(records, root, existing).1 == existing,
    decreases records.len(),
{
    if records.len() > 0 {
        assert(existing.contains(dest_path_seq(root, records[0])));
        assert forall|i: int|
            0 <= i < records.drop_first().len() implies existing.contains(
            dest_path_seq(root, #[trigger] records.drop_first()[i]),
        ) by {
            assert(records.drop_first()[i] == records[i + 1]);
        }
        lemma_plan_all_present(records.drop_first(), root, existing);
    }
}

/// Importing is idempotent: running the import phase a second time, over
/// the same records and the destination state the first run left behind,
/// performs no copy at all.
pub proof fn lemma_import_idempotent(
    records: Seq<MediaRecordView>,
    root: Seq<char>,
    existing: Seq<Seq<char>>,
)
    ensures
        spec_plan(records, root, spec_plan(records, root, existing).1).0 == Seq::<
            CopyOpView,
        >::empty(),
        spec_plan(records, root, spec_plan(records, root, existing).1).1 == spec_plan(
            records,
            root,
            existing,
        ).1,
{
    lemma_plan_covers(records, root, existing);
    lemma_plan_all_present(records, root, spec_plan(records, root, existing).1);
}

} // verus!
