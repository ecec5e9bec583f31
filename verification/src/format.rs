use vstd::prelude::*;

use crate::datetime::{date_valid, Date};

verus! {

/// The character for a single decimal digit `d` (`0 <= d <= 9`).
pub open spec fn digit_char(d: int) -> char {
    ((0x30 + d) as u8) as char
}

/// `n` written as exactly two decimal digits, zero-padded (`0 <= n <= 99`).
pub open spec fn two_digit_seq(n: int) -> Seq<char> {
    seq![digit_char(n / 10), digit_char(n % 10)]
}

/// `n` written as exactly four decimal digits, zero-padded (`0 <= n <= 9999`).
pub open spec fn four_digit_seq(n: int) -> Seq<char> {
    seq![
        digit_char(n / 1000),
        digit_char((n / 100) % 10),
        digit_char((n / 10) % 10),
        digit_char(n % 10),
    ]
}

/// The directory name for a year: `YYYY`.
pub open spec fn year_seq(y: int) -> Seq<char> {
    four_digit_seq(y)
}

/// The directory name for a date: `YYYY-MM-DD`.
pub open spec fn date_seq(d: Date) -> Seq<char> {
    four_digit_seq(d.year as int) + seq!['-'] + two_digit_seq(d.month as int) + seq!['-']
        + two_digit_seq(d.day as int)
}

/// Relies on `String::from_utf8`: a buffer of ASCII bytes decodes to the
/// string whose characters are exactly those bytes.
#[verifier::external_body]
fn ascii_to_string(bytes: Vec<u8>) -> (r: String)
    requires
        forall|i: int| 0 <= i < bytes@.len() ==> bytes@[i] < 0x80,
    ensures
        r@.len() == bytes@.len(),
        forall|i: int| 0 <= i < r@.len() ==> r@[i] == (bytes@[i] as char),
{
    match String::from_utf8(bytes) {
        Ok(s) => s,
        Err(_) => String::new(),
    }
}

/// Push `n` as exactly two zero-padded decimal digits onto `out`.
fn push_two_digits(out: &mut Vec<u8>, n: u8)
    requires
        n <= 99,
    ensures
        final(out)@.len() == old(out)@.len() + 2,
        final(out)@ == old(out)@ + seq![(0x30 + n / 10) as u8, (0x30 + n % 10) as u8],
{
    let ghost orig = out@;
    out.push(0x30 + n / 10);
    out.push(0x30 + n % 10);
    assert(out@ =~= orig + seq![(0x30 + n / 10) as u8, (0x30 + n % 10) as u8]);
}

/// Push `n` as exactly four zero-padded decimal digits onto `out`.
fn push_four_digits(out: &mut Vec<u8>, n: u16)
    requires
        n <= 9999,
    ensures
        final(out)@.len() == old(out)@.len() + 4,
        final(out)@ == old(out)@ + seq![
            (0x30 + n / 1000) as u8,
            (0x30 + (n / 100) % 10) as u8,
            (0x30 + (n / 10) % 10) as u8,
            (0x30 + n % 10) as u8,
        ],
{
    let ghost orig = out@;
    out.push(0x30 + (n / 1000) as u8);
    out.push(0x30 + ((n / 100) % 10) as u8);
    out.push(0x30 + ((n / 10) % 10) as u8);
    out.push(0x30 + (n % 10) as u8);
    assert(out@ =~= orig + seq![
        (0x30 + n / 1000) as u8,
        (0x30 + (n / 100) % 10) as u8,
        (0x30 + (n / 10) % 10) as u8,
        (0x30 + n % 10) as u8,
    ]);
}

/// `n` written in decimal, no padding: the digits of `n / 10`, if any,
/// then the digit of `n % 10`.
pub open spec fn dec_seq(n: nat) -> Seq<char>
    decreases n,
{
    if n < 10 {
        seq![digit_char(n as int)]
    } else {
        dec_seq(n / 10).push(digit_char((n % 10) as int))
    }
}

/// `n` written in decimal.
pub fn to_decimal(n: usize) -> (r: String)
    ensures
        r@ == dec_seq(n as nat),
{
    let mut rev: Vec<u8> = Vec::new();
    let mut m: usize = n;
    while m >= 10
        invariant
            dec_seq(n as nat) =~= dec_seq(m as nat) + Seq::new(
                rev@.len(),
                |i: int| digit_char(rev@[rev@.len() - 1 - i] as int),
            ),
            forall|i: int| 0 <= i < rev@.len() ==> rev@[i] <= 9,
        decreases m,
    {
        let ghost tail = Seq::new(rev@.len(), |i: int| digit_char(rev@[rev@.len() - 1 - i] as int));
        rev.push((m % 10) as u8);
        proof {
            let tail2 = Seq::new(
                rev@.len(),
                |i: int| digit_char(rev@[rev@.len() - 1 - i] as int),
            );
            assert(dec_seq(m as nat) == dec_seq((m as nat) / 10).push(
                digit_char(((m as nat) % 10) as int),
            ));
            assert(tail2 =~= seq![digit_char((m % 10) as int)] + tail);
            assert(dec_seq((m as nat) / 10) + tail2 =~= (dec_seq((m as nat) / 10).push(
                digit_char(((m as nat) % 10) as int),
            )) + tail);
        }
        m = m / 10;
    }
    let ghost tail = Seq::new(rev@.len(), |i: int| digit_char(rev@[rev@.len() - 1 - i] as int));
    let mut bytes: Vec<u8> = Vec::new();
    bytes.push(0x30 + (m % 10) as u8);
    proof {
        assert(dec_seq(m as nat) =~= seq![digit_char(m as int)]);
        assert(bytes@ =~= seq![(0x30 + m % 10) as u8]);
    }
    let mut j: usize = rev.len();
    while j > 0
        invariant
            j <= rev@.len(),
            m < 10,
            dec_seq(m as nat).len() == 1,
            forall|i: int| 0 <= i < rev@.len() ==> rev@[i] <= 9,
            bytes@.len() == 1 + (rev@.len() - j),
            forall|i: int|
                0 <= i < bytes@.len() ==> bytes@[i] < 0x80 && (#[trigger] bytes@[i]) as int
                    == (dec_seq(m as nat) + tail)[i] as u8,
            dec_seq(n as nat) == dec_seq(m as nat) + tail,
            tail == Seq::new(rev@.len(), |i: int| digit_char(rev@[rev@.len() - 1 - i] as int)),
        decreases j,
    {
        bytes.push(0x30 + rev[j - 1]);
        proof {
            let pos = bytes@.len() - 1;
            assert(tail[pos - 1] == digit_char(rev@[j - 1] as int));
            assert((dec_seq(m as nat) + tail)[pos] == tail[pos - 1]);
            assert(rev@[j - 1] <= 9);
            assert(digit_char(rev@[j - 1] as int) as u8 == 0x30 + rev@[j - 1]);
            assert(bytes@[pos] == 0x30 + rev@[j - 1]);
        }
        j = j - 1;
    }
    let r = ascii_to_string(bytes);
    proof {
        let want = dec_seq(n as nat);
        assert(r@.len() == want.len());
        assert forall|i: int| 0 <= i < r@.len() implies r@[i] == want[i] by {
            assert(want[i] as u8 as char == want[i]) by {
                if i < dec_seq(m as nat).len() {
                } else {
                    assert(want[i] == tail[i - 1]);
                }
            }
        }
        assert(r@ =~= want);
    }
    r
}

/// `k` spaces, none when `k` is not positive.
pub open spec fn spaces(k: int) -> Seq<char> {
    Seq::new(if k <= 0 { 0 } else { k as nat }, |i: int| ' ')
}

/// The progress label shown for the task at position `pos` of `total`:
/// `[`, the position right-aligned to the width of `total`, `/`, the
/// total, `] `.
pub open spec fn progress_label_seq(pos: nat, total: nat) -> Seq<char> {
    let num = dec_seq(pos);
    let tot = dec_seq(total);
    seq!['['] + spaces(tot.len() - num.len()) + num + seq!['/'] + tot + seq![']', ' ']
}

/// The progress label for the task at position `pos` of `total`.
pub fn format_progress(pos: usize, total: usize) -> (r: String)
    ensures
        r@ == progress_label_seq(pos as nat, total as nat),
{
    let num = to_decimal(pos);
    let tot = to_decimal(total);
    let numlen = num.as_str().unicode_len();
    let totlen = tot.as_str().unicode_len();
    let pad: usize = if numlen < totlen {
        totlen - numlen
    } else {
        0
    };
    let mut r = String::from_str("[");
    proof {
        reveal_strlit("[");
        assert(r@ =~= seq!['['] + spaces(0));
    }
    let mut p: usize = 0;
    while p < pad
        invariant
            p <= pad,
            r@ == seq!['['] + spaces(p as int),
        decreases pad - p,
    {
        r.append(" ");
        proof {
            reveal_strlit(" ");
            assert(r@ =~= seq!['['] + spaces(p + 1));
        }
        p = p + 1;
    }
    r.append(num.as_str());
    r.append("/");
    r.append(tot.as_str());
    r.append("] ");
    proof {
        reveal_strlit("/");
        reveal_strlit("] ");
        assert(spaces(pad as int) =~= spaces(
            dec_seq(total as nat).len() - dec_seq(pos as nat).len(),
        ));
        assert(r@ =~= progress_label_seq(pos as nat, total as nat));
    }
    r
}

/// The year of `d` formatted as `YYYY`.
pub fn format_year(d: &Date) -> (r: String)
    requires
        date_valid(*d),
    ensures
        r@ == year_seq(d.year as int),
{
    let mut bytes: Vec<u8> = Vec::new();
    push_four_digits(&mut bytes, d.year);
    let r = ascii_to_string(bytes);
    assert(r@ =~= year_seq(d.year as int));
    r
}

/// `d` formatted as `YYYY-MM-DD`, zero-padded.
pub fn format_date(d: &Date) -> (r: String)
    requires
        date_valid(*d),
    ensures
        r@ == date_seq(*d),
{
    let mut bytes: Vec<u8> = Vec::new();
    push_four_digits(&mut bytes, d.year);
    bytes.push(0x2d);
    push_two_digits(&mut bytes, d.month);
    bytes.push(0x2d);
    push_two_digits(&mut bytes, d.day);
    let r = ascii_to_string(bytes);
    assert(r@ =~= date_seq(*d));
    r
}

} // verus!
