use vstd::prelude::*;
use vstd::string::StringExecFns;

use crate::datetime::{datetime_valid, DateTime};
use crate::parse::{datetime_of_str, is_datetime_str_sep, parse_exif_datetime};

verus! {

/// Why no capture timestamp could be resolved for a file.
#[derive(Clone, Copy, PartialEq, Eq, Structural, Debug)]
pub enum MetadataCause {
    /// No strategy of the chain located a timestamp tag.
    NoTimestampTag,
    /// A tag was located but its value is not `YYYY:MM:DD HH:MM:SS`.
    UnparsableTimestamp,
}

/// Failure to resolve a capture timestamp: the file and the last cause.
#[derive(Debug)]
pub struct MetadataError {
    pub path: String,
    pub cause: MetadataCause,
}

/// The first tag value an ordered chain of read attempts located.
pub open spec fn first_found(reads: Seq<Option<Seq<char>>>) -> Option<Seq<char>>
    decreases reads.len(),
{
    if reads.len() == 0 {
        None
    } else {
        match reads.first() {
            Some(s) => Some(s),
            None => first_found(reads.drop_first()),
        }
    }
}

/// What the extraction chain resolves to: the timestamp denoted by the
/// first located tag value, or the cause of failure.
pub open spec fn spec_resolve(reads: Seq<Option<Seq<char>>>) -> Result<DateTime, MetadataCause> {
    match first_found(reads) {
        None => Err(MetadataCause::NoTimestampTag),
        Some(s) => if is_datetime_str_sep(s, ':', ' ') {
            Ok(datetime_of_str(s))
        } else {
            Err(MetadataCause::UnparsableTimestamp)
        },
    }
}

proof fn lemma_first_found_skip(reads: Seq<Option<Seq<char>>>, i: int)
    requires
        0 <= i <= reads.len(),
        forall|j: int| 0 <= j < i ==> reads[j] is None,
    ensures
        first_found(reads) == first_found(reads.skip(i)),
    decreases i,
{
    if i == 0 {
        assert(reads.skip(0) =~= reads);
    } else {
        lemma_first_found_skip(reads, i - 1);
        let prev = reads.skip(i - 1);
        assert(prev.len() > 0);
        assert(prev.first() == reads[i - 1]);
        assert(prev.first() is None);
        assert(first_found(prev) == first_found(prev.drop_first()));
        assert(prev.drop_first() =~= reads.skip(i));
    }
}

/// Resolve the capture timestamp of the file at `path` from the outcomes
/// of the ordered chain of tag-read strategies: the first located value
/// decides, and must denote a valid `YYYY:MM:DD HH:MM:SS` instant.
pub fn resolve_capture_time(path: &str, reads: &Vec<Option<String>>) -> (r: Result<
    DateTime,
    MetadataError,
>)
    ensures
        match r {
            Ok(dt) => spec_resolve(reads.deep_view()) == Ok::<DateTime, MetadataCause>(dt)
                && datetime_valid(dt),
            Err(e) => spec_resolve(reads.deep_view()) == Err::<DateTime, MetadataCause>(e.cause)
                && e.path@ == path@,
        },
{
    let ghost rdv = reads.deep_view();
    let n = reads.len();
    let mut i: usize = 0;
    proof {
        assert(rdv.len() == reads@.len());
    }
    while i < n
        invariant
            i <= n,
            n == reads@.len(),
            rdv == reads.deep_view(),
            rdv.len() == n,
            forall|j: int| 0 <= j < i ==> rdv[j] is None,
        decreases n - i,
    {
        match &reads[i] {
            Some(s) => {
                proof {
                    lemma_first_found_skip(rdv, i as int);
                    assert(rdv.skip(i as int).first() == rdv[i as int]);
                    assert(first_found(rdv) == Some(s@));
                }
                return match parse_exif_datetime(s.as_str()) {
                    Some(dt) => Ok(dt),
                    None => Err(
                        MetadataError {
                            path: String::from_str(path),
                            cause: MetadataCause::UnparsableTimestamp,
                        },
                    ),
                };
            },
            None => {
                assert(rdv[i as int] is None);
            },
        }
        i = i + 1;
    }
    proof {
        lemma_first_found_skip(rdv, n as int);
        assert(rdv.skip(n as int) =~= Seq::<Option<Seq<char>>>::empty());
    }
    Err(MetadataError { path: String::from_str(path), cause: MetadataCause::NoTimestampTag })
}

} // verus!
