//! Choice of the messages to inspect, and the texts handed to the mailbox for it.
use vstd::prelude::*;

use crate::text::{append_chars, chars_of, string_of};

verus! {

/// How many messages one run inspects unless configured otherwise.
pub const DEFAULT_MAX_BATCH: usize = 9;

/// The first `max_batch` candidates, in the order the search returned them.
pub fn select(candidates: &Vec<u32>, max_batch: usize) -> (r: Vec<u32>)
    ensures
        r@ == candidates@.take(
            if candidates@.len() < max_batch {
                candidates@.len() as int
            } else {
                max_batch as int
            },
        ),
{
    let mut out: Vec<u32> = Vec::new();
    let mut i: usize = 0;
    while i < candidates.len() && i < max_batch
        invariant
            i <= candidates.len(),
            i <= max_batch,
            out@ == candidates@.take(i as int),
        decreases candidates.len() - i,
    {
        out.push(candidates[i]);
        i += 1;
        assert(out@ =~= candidates@.take(i as int));
    }
    out
}

pub open spec fn digits() -> Seq<char> {
    seq!['0', '1', '2', '3', '4', '5', '6', '7', '8', '9']
}

/// The decimal digits of `n`, without leading zeros.
pub open spec fn decimal(n: nat) -> Seq<char>
    decreases n,
{
    if n < 10 {
        seq![digits()[n as int]]
    } else {
        decimal(n / 10).push(digits()[(n % 10) as int])
    }
}

/// `n` as exactly `width` decimal digits, padded with leading zeros, for `n < 10^width`.
pub open spec fn padded(n: nat, width: nat) -> Seq<char>
    decreases width,
{
    if width == 0 {
        Seq::empty()
    } else {
        padded(n / 10, (width - 1) as nat).push(digits()[(n % 10) as int])
    }
}

fn digit_char(d: u32) -> (c: char)
    requires
        d < 10,
    ensures
        c == digits()[d as int],
{
    let table: Vec<char> = vec!['0', '1', '2', '3', '4', '5', '6', '7', '8', '9'];
    assert(table@ =~= digits());
    table[d as usize]
}

/// Appends the decimal digits of `n`.
pub fn push_decimal(out: &mut Vec<char>, n: u32)
    ensures
        final(out)@ == old(out)@ + decimal(n as nat),
    decreases n,
{
    if n >= 10 {
        push_decimal(out, n / 10);
    }
    out.push(digit_char(n % 10));
    assert(final(out)@ =~= old(out)@ + decimal(n as nat));
}

/// Appends `n` as `width` digits with leading zeros.
pub fn push_padded(out: &mut Vec<char>, n: u32, width: u32)
    ensures
        final(out)@ == old(out)@ + padded(n as nat, width as nat),
    decreases width,
{
    if width > 0 {
        push_padded(out, n / 10, width - 1);
        out.push(digit_char(n % 10));
    }
    assert(final(out)@ =~= old(out)@ + padded(n as nat, width as nat));
}

/// The identifiers joined by commas, as a sequence set for the mailbox.
pub open spec fn sequence_set_spec(ids: Seq<u32>) -> Seq<char>
    decreases ids.len(),
{
    if ids.len() == 0 {
        Seq::empty()
    } else if ids.len() == 1 {
        decimal(ids[0] as nat)
    } else {
        sequence_set_spec(ids.drop_last()) + seq![','] + decimal(ids.last() as nat)
    }
}

/// Writes the identifiers as a comma-separated sequence set.
pub fn sequence_set(ids: &Vec<u32>) -> (r: String)
    ensures
        r@ == sequence_set_spec(ids@),
{
    let mut out: Vec<char> = Vec::new();
    let mut i: usize = 0;
    while i < ids.len()
        invariant
            i <= ids.len(),
            out@ == sequence_set_spec(ids@.take(i as int)),
        decreases ids.len() - i,
    {
        if i > 0 {
            out.push(',');
        }
        push_decimal(&mut out, ids[i]);
        proof {
            assert(ids@.take(i + 1).drop_last() =~= ids@.take(i as int));
            if i == 0 {
                assert(out@ =~= decimal(ids@[0] as nat));
            }
        }
        i += 1;
    }
    assert(ids@.take(ids.len() as int) =~= ids@);
    string_of(out.as_slice())
}

/// A calendar day.
#[derive(Clone, Copy, Debug, PartialEq, Eq, Structural)]
pub struct CalendarDate {
    pub year: u32,
    pub month: u32,
    pub day: u32,
}

impl CalendarDate {
    /// A month from 1 to 12, a day from 1 to 31, and a year of at most four digits.
    pub open spec fn wf(&self) -> bool {
        1 <= self.month <= 12 && 1 <= self.day <= 31 && self.year <= 9999
    }
}

pub open spec fn month_names() -> Seq<Seq<char>> {
    seq![
        "Jan"@,
        "Feb"@,
        "Mar"@,
        "Apr"@,
        "May"@,
        "Jun"@,
        "Jul"@,
        "Aug"@,
        "Sep"@,
        "Oct"@,
        "Nov"@,
        "Dec"@,
    ]
}

/// The day as `DD-Mon-YYYY`.
pub open spec fn date_text(d: CalendarDate) -> Seq<char> {
    padded(d.day as nat, 2) + seq!['-'] + month_names()[d.month - 1] + seq!['-'] + padded(
        d.year as nat,
        4,
    )
}

fn month_name(month: u32) -> (r: &'static str)
    requires
        1 <= month <= 12,
    ensures
        r@ == month_names()[month - 1],
{
    match month {
        1 => "Jan",
        2 => "Feb",
        3 => "Mar",
        4 => "Apr",
        5 => "May",
        6 => "Jun",
        7 => "Jul",
        8 => "Aug",
        9 => "Sep",
        10 => "Oct",
        11 => "Nov",
        _ => "Dec",
    }
}

/// The search criterion: mail from `sender` dated on or after `since`.
pub open spec fn criterion_text(sender: Seq<char>, since: CalendarDate) -> Seq<char> {
    "FROM "@ + sender + " SINCE "@ + date_text(since)
}

/// Builds the search criterion for mail from `sender` dated on or after `since`.
pub fn search_criterion(sender: &str, since: &CalendarDate) -> (r: String)
    requires
        since.wf(),
    ensures
        r@ == criterion_text(sender@, *since),
{
    let mut out: Vec<char> = chars_of("FROM ");
    append_chars(&mut out, &chars_of(sender));
    append_chars(&mut out, &chars_of(" SINCE "));
    push_padded(&mut out, since.day, 2);
    out.push('-');
    append_chars(&mut out, &chars_of(month_name(since.month)));
    out.push('-');
    push_padded(&mut out, since.year, 4);
    assert(out@ =~= criterion_text(sender@, *since));
    string_of(out.as_slice())
}

} // verus!
