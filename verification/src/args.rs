use vstd::prelude::*;
use vstd::string::StrSliceExecFns;
use vstd::string::StringExecFns;

use crate::datetime::{spec_epoch, spec_far_future};
use crate::parse::{parse_date_or_datetime, spec_parse_arg};
use crate::records::TimeWindow;

verus! {

/// One named command-line option: a `-`/`--` name and the value after it.
pub struct NamedArg {
    pub name: String,
    pub value: String,
}

/// The mathematical value of a [`NamedArg`].
pub struct NamedArgView {
    pub name: Seq<char>,
    pub value: Seq<char>,
}

impl View for NamedArg {
    type V = NamedArgView;

    open spec fn view(&self) -> NamedArgView {
        NamedArgView { name: self.name@, value: self.value@ }
    }
}

impl DeepView for NamedArg {
    type V = NamedArgView;

    open spec fn deep_view(&self) -> NamedArgView {
        self@
    }
}

/// Whether `s` opens with `-`, marking it an option name.
pub open spec fn is_option_name(s: Seq<char>) -> bool {
    s.len() > 0 && s[0] == '-'
}

/// The name/value pairs read from `args` while an unconsumed option name
/// `current` is pending: an argument opening with `-` becomes the pending
/// name; any other argument becomes the pending name's value, or is
/// dropped when no name is pending.
pub open spec fn named_args_from(args: Seq<Seq<char>>, current: Option<Seq<char>>) -> Seq<
    NamedArgView,
>
    decreases args.len(),
{
    if args.len() == 0 {
        Seq::empty()
    } else {
        let a = args.first();
        if is_option_name(a) {
            named_args_from(args.drop_first(), Some(a))
        } else {
            match current {
                Some(name) => seq![NamedArgView { name, value: a }] + named_args_from(
                    args.drop_first(),
                    None,
                ),
                None => named_args_from(args.drop_first(), None),
            }
        }
    }
}

/// The name/value pairs read from the argument list.
pub open spec fn spec_named_args(args: Seq<Seq<char>>) -> Seq<NamedArgView> {
    named_args_from(args, None)
}

/// Read the named options out of an argument list: each argument opening
/// with `-` names an option, and the next argument that does not open
/// with `-` is its value. Of equal names the later pair stands, as
/// [`lookup`] takes the last one.
pub fn get_named_args(args: &Vec<String>) -> (r: Vec<NamedArg>)
    ensures
        r.deep_view() == spec_named_args(args.deep_view()),
{
    let ghost adv = args.deep_view();
    let n = args.len();
    let mut r: Vec<NamedArg> = Vec::new();
    let mut current: Option<&String> = None;
    let mut i: usize = 0;
    proof {
        assert(adv.len() == args@.len());
        assert(adv.skip(0) =~= adv);
    }
    while i < n
        invariant
            i <= n,
            n == args@.len(),
            adv == args.deep_view(),
            adv.len() == n,
            spec_named_args(adv) == r.deep_view() + named_args_from(
                adv.skip(i as int),
                match current {
                    Some(c) => Some(c@),
                    None => None,
                },
            ),
        decreases n - i,
    {
        let ghost cur = match current {
            Some(c) => Some(c@),
            None => None::<Seq<char>>,
        };
        let a = &args[i];
        proof {
            assert(a@ == adv[i as int]);
            assert(adv.skip(i as int).first() == adv[i as int]);
            assert(adv.skip(i as int).drop_first() =~= adv.skip(i + 1));
        }
        let dash = a.as_str().unicode_len() > 0 && a.as_str().get_char(0) == '-';
        if dash {
            current = Some(a);
        } else if let Some(name) = current {
            let pair = NamedArg { name: name.clone(), value: a.clone() };
            r.push(pair);
            current = None;
            proof {
                let head = seq![NamedArgView { name: cur.unwrap(), value: adv[i as int] }];
                assert(r.deep_view() =~= r.deep_view().drop_last() + head);
                assert((r.deep_view().drop_last() + head) + named_args_from(
                    adv.skip(i + 1),
                    None,
                ) =~= r.deep_view().drop_last() + (head + named_args_from(
                    adv.skip(i + 1),
                    None,
                )));
            }
        }
        i = i + 1;
    }
    proof {
        assert(adv.skip(n as int) =~= Seq::<Seq<char>>::empty());
        assert(r.deep_view() + Seq::<NamedArgView>::empty() =~= r.deep_view());
    }
    r
}

/// The value of the last pair named `name`, if any: a later occurrence
/// of an option overrides an earlier one.
pub open spec fn lookup(pairs: Seq<NamedArgView>, name: Seq<char>) -> Option<Seq<char>>
    decreases pairs.len(),
{
    if pairs.len() == 0 {
        None
    } else if pairs.last().name == name {
        Some(pairs.last().value)
    } else {
        lookup(pairs.drop_last(), name)
    }
}

/// The value of the option `name`, the last occurrence winning.
pub fn lookup_named(pairs: &Vec<NamedArg>, name: &str) -> (r: Option<String>)
    ensures
        match r {
            Some(v) => lookup(pairs.deep_view(), name@) == Some(v@),
            None => lookup(pairs.deep_view(), name@) is None,
        },
{
    let wanted = String::from_str(name);
    let n = pairs.len();
    let mut i: usize = n;
    proof {
        assert(pairs.deep_view().len() == pairs@.len());
        assert(pairs.deep_view().take(n as int) =~= pairs.deep_view());
    }
    while i > 0
        invariant
            i <= n,
            n == pairs@.len(),
            wanted@ == name@,
            lookup(pairs.deep_view(), name@) == lookup(
                pairs.deep_view().take(i as int),
                name@,
            ),
        decreases i,
    {
        let p = &pairs[i - 1];
        proof {
            let tk = pairs.deep_view().take(i as int);
            assert(pairs.deep_view()[i - 1] == pairs@[i - 1].deep_view());
            assert(tk.last() == p@);
            assert(tk.drop_last() =~= pairs.deep_view().take(i - 1));
        }
        if p.name == wanted {
            assert(lookup(pairs.deep_view().take(i as int), name@) == Some(p.value@));
            return Some(p.value.clone());
        }
        assert(lookup(pairs.deep_view().take(i as int), name@) == lookup(
            pairs.deep_view().take(i - 1),
            name@,
        ));
        i = i - 1;
    }
    proof {
        assert(pairs.deep_view().take(0) =~= Seq::<NamedArgView>::empty());
    }
    None
}

/// A malformed time bound on the command line.
#[derive(Clone, Copy, PartialEq, Eq, Structural, Debug)]
pub enum ArgError {
    /// The value of `--time-from` denotes no date or timestamp.
    BadTimeFrom,
    /// The value of `--time-to` denotes no date or timestamp.
    BadTimeTo,
}

/// The time window the named options call for: `--time-from` and
/// `--time-to` when given and well formed, the epoch and the far-future
/// sentinel otherwise; or the first malformed bound.
pub open spec fn spec_time_range(pairs: Seq<NamedArgView>) -> Result<TimeWindow, ArgError> {
    let from = lookup(pairs, "--time-from"@);
    let to = lookup(pairs, "--time-to"@);
    if from is Some && spec_parse_arg(from.unwrap()) is None {
        Err(ArgError::BadTimeFrom)
    } else if to is Some && spec_parse_arg(to.unwrap()) is None {
        Err(ArgError::BadTimeTo)
    } else {
        Ok(
            TimeWindow {
                start: match from {
                    Some(v) => spec_parse_arg(v).unwrap(),
                    None => spec_epoch(),
                },
                end: match to {
                    Some(v) => spec_parse_arg(v).unwrap(),
                    None => spec_far_future(),
                },
            },
        )
    }
}

/// The time window the named options call for. A missing `--time-from`
/// defaults to the epoch, a missing `--time-to` to the far-future
/// sentinel; a malformed value is the first error, never a default.
pub fn get_input_time_range(pairs: &Vec<NamedArg>) -> (r: Result<TimeWindow, ArgError>)
    ensures
        r == spec_time_range(pairs.deep_view()),
{
    let start = match lookup_named(pairs, "--time-from") {
        Some(v) => match parse_date_or_datetime(v.as_str()) {
            Some(dt) => dt,
            None => {
                return Err(ArgError::BadTimeFrom);
            },
        },
        None => crate::datetime::epoch(),
    };
    let end = match lookup_named(pairs, "--time-to") {
        Some(v) => match parse_date_or_datetime(v.as_str()) {
            Some(dt) => dt,
            None => {
                return Err(ArgError::BadTimeTo);
            },
        },
        None => crate::datetime::far_future(),
    };
    Ok(TimeWindow { start, end })
}

} // verus!
