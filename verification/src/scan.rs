use vstd::prelude::*;
use vstd::string::StrSliceExecFns;
use vstd::string::StringExecFns;

verus! {

/// The file-name part of a path: everything after the last `/`,
/// or the whole path when it has no `/`.
pub open spec fn file_name_seq(s: Seq<char>) -> Seq<char>
    decreases s.len(),
{
    if s.len() == 0 {
        s
    } else if s.last() == '/' {
        Seq::empty()
    } else {
        file_name_seq(s.drop_last()).push(s.last())
    }
}

/// The extension of a file name: everything after the last `.`, provided
/// that `.` is not the leading character. A name without a `.` past its
/// first character has no extension.
pub open spec fn extension_seq(f: Seq<char>) -> Option<Seq<char>>
    decreases f.len(),
{
    if f.len() <= 1 {
        None
    } else if f.last() == '.' {
        Some(Seq::empty())
    } else {
        match extension_seq(f.drop_last()) {
            Some(e) => Some(e.push(f.last())),
            None => None,
        }
    }
}

/// Whether `c` is an ASCII upper-case letter.
pub open spec fn is_upper(c: char) -> bool {
    0x41 <= (c as u32) && (c as u32) <= 0x5a
}

/// `c` with an ASCII upper-case letter folded to lower case.
pub open spec fn lower_char(c: char) -> char {
    if is_upper(c) {
        (((c as u8) + 0x20) as u8) as char
    } else {
        c
    }
}

/// `s` with every ASCII upper-case letter folded to lower case.
pub open spec fn lower_seq(s: Seq<char>) -> Seq<char> {
    s.map_values(|c: char| lower_char(c))
}

/// Whether `e` is, case-insensitively, one of the media extensions
/// `jpg`, `jpeg`, `rw2`, `dng`, `mp4`, `nef`.
pub open spec fn is_media_ext(e: Seq<char>) -> bool {
    ||| lower_seq(e) == "jpg"@
    ||| lower_seq(e) == "jpeg"@
    ||| lower_seq(e) == "rw2"@
    ||| lower_seq(e) == "dng"@
    ||| lower_seq(e) == "mp4"@
    ||| lower_seq(e) == "nef"@
}

/// Whether the file at path `p` is a candidate for import: its file name
/// has an extension in the media whitelist.
pub open spec fn is_candidate_path(p: Seq<char>) -> bool {
    match extension_seq(file_name_seq(p)) {
        Some(e) => is_media_ext(e),
        None => false,
    }
}

proof fn lemma_file_name_subrange(s: Seq<char>, cut: int)
    requires
        0 <= cut <= s.len(),
        forall|j: int| cut <= j < s.len() ==> s[j] != '/',
        cut == 0 || s[cut - 1] == '/',
    ensures
        file_name_seq(s) == s.subrange(cut, s.len() as int),
    decreases s.len(),
{
    if cut == s.len() {
        if s.len() == 0 {
            assert(file_name_seq(s) =~= s.subrange(cut, s.len() as int));
        } else {
            assert(s.last() == s[cut - 1]);
            assert(file_name_seq(s) =~= s.subrange(cut, s.len() as int));
        }
    } else {
        assert(s.last() != '/');
        let d = s.drop_last();
        lemma_file_name_subrange(d, cut);
        assert(file_name_seq(s) == file_name_seq(d).push(s.last()));
        assert(d.subrange(cut, d.len() as int) =~= s.subrange(cut, s.len() - 1));
        assert(s.subrange(cut, s.len() - 1).push(s.last()) =~= s.subrange(
            cut,
            s.len() as int,
        ));
    }
}

proof fn lemma_extension_subrange(f: Seq<char>, dot: int)
    requires
        1 <= dot < f.len(),
        f[dot] == '.',
        forall|j: int| dot < j < f.len() ==> f[j] != '.',
    ensures
        extension_seq(f) == Some(f.subrange(dot + 1, f.len() as int)),
    decreases f.len(),
{
    if dot == f.len() - 1 {
        assert(f.last() == '.');
        assert(f.len() > 1);
        assert(extension_seq(f) == Some(Seq::<char>::empty()));
        assert(Seq::<char>::empty() =~= f.subrange(dot + 1, f.len() as int));
    } else {
        assert(f.last() != '.');
        let d = f.drop_last();
        lemma_extension_subrange(d, dot);
        assert(d.subrange(dot + 1, d.len() as int) =~= f.subrange(dot + 1, f.len() - 1));
        assert(f.subrange(dot + 1, f.len() - 1).push(f.last()) =~= f.subrange(
            dot + 1,
            f.len() as int,
        ));
    }
}

proof fn lemma_extension_none(f: Seq<char>)
    requires
        forall|j: int| 1 <= j < f.len() ==> f[j] != '.',
    ensures
        extension_seq(f) == None::<Seq<char>>,
    decreases f.len(),
{
    if f.len() <= 1 {
    } else {
        assert(f.last() != '.');
        lemma_extension_none(f.drop_last());
    }
}

/// The position right after the last `/` of `path`, or `0` when it has
/// none: the file name starts there.
fn file_name_start(path: &str) -> (cut: usize)
    ensures
        cut <= path@.len(),
        forall|j: int| cut <= j < path@.len() ==> path@[j] != '/',
        cut == 0 || path@[cut - 1] == '/',
{
    let n = path.unicode_len();
    let mut i: usize = n;
    while i > 0
        invariant
            i <= n,
            n == path@.len(),
            forall|j: int| i <= j < n ==> path@[j] != '/',
        decreases i,
    {
        if path.get_char(i - 1) == '/' {
            return i;
        }
        i = i - 1;
    }
    0
}

/// The file-name part of `path`: everything after the last `/`.
pub fn file_name_of(path: &str) -> (r: String)
    ensures
        r@ == file_name_seq(path@),
{
    let n = path.unicode_len();
    let cut = file_name_start(path);
    proof {
        lemma_file_name_subrange(path@, cut as int);
    }
    String::from_str(path.substring_char(cut, n))
}

/// The position of the last `.` of `name` that does not lead it, if any.
fn last_dot(name: &str) -> (r: Option<usize>)
    ensures
        match r {
            Some(d) => {
                &&& 1 <= d < name@.len()
                &&& d < usize::MAX
                &&& name@[d as int] == '.'
                &&& forall|j: int| d < j < name@.len() ==> name@[j] != '.'
            },
            None => forall|j: int| 1 <= j < name@.len() ==> name@[j] != '.',
        },
{
    let n = name.unicode_len();
    let mut i: usize = n;
    while i > 1
        invariant
            i <= n,
            n == name@.len(),
            forall|j: int| i <= j < n ==> name@[j] != '.',
        decreases i,
    {
        if name.get_char(i - 1) == '.' {
            return Some(i - 1);
        }
        i = i - 1;
    }
    None
}

/// Fold one ASCII upper-case letter to lower case.
fn lower_char_exec(c: char) -> (r: char)
    ensures
        r == lower_char(c),
{
    let u = c as u32;
    if 0x41 <= u && u <= 0x5a {
        ((u as u8) + 0x20) as char
    } else {
        c
    }
}

/// Whether the characters of `s` from position `from` on, folded to ASCII
/// lower case, spell exactly `lit`.
fn lower_tail_eq(s: &str, from: usize, lit: &str) -> (r: bool)
    requires
        from <= s@.len(),
    ensures
        r == (lower_seq(s@.subrange(from as int, s@.len() as int)) == lit@),
{
    let ghost tail = s@.subrange(from as int, s@.len() as int);
    let n = s.unicode_len();
    let m = lit.unicode_len();
    if n - from != m {
        assert(lower_seq(tail).len() == tail.len());
        return false;
    }
    let mut i: usize = 0;
    while i < m
        invariant
            0 <= i <= m,
            from + m == n,
            n == s@.len(),
            m == lit@.len(),
            tail == s@.subrange(from as int, s@.len() as int),
            forall|j: int| 0 <= j < i ==> lower_char(tail[j]) == lit@[j],
        decreases m - i,
    {
        let c = lower_char_exec(s.get_char(from + i));
        let l = lit.get_char(i);
        if c != l {
            assert(lower_seq(tail)[i as int] != lit@[i as int]);
            return false;
        }
        i = i + 1;
    }
    assert(lower_seq(tail) =~= lit@);
    true
}

/// Whether the file at `path` is an import candidate: its name carries,
/// case-insensitively, one of the extensions `jpg`, `jpeg`, `rw2`, `dng`,
/// `mp4`, `nef`.
pub fn is_candidate(path: &str) -> (r: bool)
    ensures
        r == is_candidate_path(path@),
{
    let name = file_name_of(path);
    let name = name.as_str();
    match last_dot(name) {
        None => {
            proof {
                lemma_extension_none(name@);
            }
            false
        },
        Some(d) => {
            proof {
                lemma_extension_subrange(name@, d as int);
            }
            let from = d + 1;
            lower_tail_eq(name, from, "jpg") || lower_tail_eq(name, from, "jpeg")
                || lower_tail_eq(name, from, "rw2") || lower_tail_eq(name, from, "dng")
                || lower_tail_eq(name, from, "mp4") || lower_tail_eq(name, from, "nef")
        },
    }
}

/// One entry a directory walk yielded: its path and whether it is a
/// plain file. Entries that erred during traversal never reach this
/// point; the walk skips them.
pub struct ScanEntry {
    pub path: String,
    pub is_file: bool,
}

/// The mathematical value of a [`ScanEntry`].
pub struct ScanEntryView {
    pub path: Seq<char>,
    pub is_file: bool,
}

impl View for ScanEntry {
    type V = ScanEntryView;

    open spec fn view(&self) -> ScanEntryView {
        ScanEntryView { path: self.path@, is_file: self.is_file }
    }
}

impl DeepView for ScanEntry {
    type V = ScanEntryView;

    open spec fn deep_view(&self) -> ScanEntryView {
        self@
    }
}

/// The candidate paths among walked entries, in walk order: the plain
/// files whose extension is in the media whitelist.
pub open spec fn candidate_paths(entries: Seq<ScanEntryView>) -> Seq<Seq<char>>
    decreases entries.len(),
{
    if entries.len() == 0 {
        Seq::empty()
    } else {
        let rest = candidate_paths(entries.drop_last());
        let e = entries.last();
        if e.is_file && is_candidate_path(e.path) {
            rest.push(e.path)
        } else {
            rest
        }
    }
}

/// Keep, in order, the paths of the plain files whose extension is in
/// the media whitelist.
pub fn filter_candidates(entries: &Vec<ScanEntry>) -> (r: Vec<String>)
    ensures
        r.deep_view() == candidate_paths(entries.deep_view()),
{
    let ghost edv = entries.deep_view();
    let n = entries.len();
    let mut r: Vec<String> = Vec::new();
    let mut i: usize = 0;
    proof {
        assert(edv.len() == entries@.len());
        assert(edv.take(0) =~= Seq::<ScanEntryView>::empty());
    }
    while i < n
        invariant
            i <= n,
            n == entries@.len(),
            edv == entries.deep_view(),
            edv.len() == n,
            r.deep_view() == candidate_paths(edv.take(i as int)),
        decreases n - i,
    {
        let ghost prev = r.deep_view();
        let e = &entries[i];
        proof {
            assert(e@ == edv[i as int]);
            assert(edv.take(i + 1).drop_last() =~= edv.take(i as int));
            assert(edv.take(i + 1).last() == edv[i as int]);
        }
        if e.is_file && is_candidate(e.path.as_str()) {
            r.push(e.path.clone());
            assert(r.deep_view() =~= prev.push(edv[i as int].path));
        }
        i = i + 1;
    }
    proof {
        assert(edv.take(n as int) =~= edv);
    }
    r
}

} // verus!
