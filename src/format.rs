use vstd::prelude::*;
use vstd::string::*;

use crate::record::{Penalty, RecordView, TimeRecord};

verus! {

/// The character of a decimal digit.
pub open spec fn digit_char(d: nat) -> char
    recommends
        d < 10,
{
    seq!['0', '1', '2', '3', '4', '5', '6', '7', '8', '9'][d as int]
}

/// `n` in decimal, without leading zeros.
pub open spec fn decimal(n: nat) -> Seq<char>
    decreases n,
{
    if n < 10 {
        seq![digit_char(n)]
    } else {
        decimal(n / 10).push(digit_char(n % 10))
    }
}

/// `n` in decimal, left-padded with zeros to at least `width` characters.
pub open spec fn padded(n: nat, width: nat) -> Seq<char> {
    let d = decimal(n);
    if d.len() >= width {
        d
    } else {
        Seq::new((width - d.len()) as nat, |i: int| '0') + d
    }
}

/// A duration in milliseconds as `m:ss.mmm`, or `s.mmm` under a minute.
pub open spec fn time_text(ms: nat) -> Seq<char> {
    let minutes = ms / 60000;
    let seconds = (ms % 60000) / 1000;
    let millis = ms % 1000;
    if minutes > 0 {
        decimal(minutes) + seq![':'] + padded(seconds, 2) + seq!['.'] + padded(millis, 3)
    } else {
        decimal(seconds) + seq!['.'] + padded(millis, 3)
    }
}

/// How a record's time is shown: `DNF`, the time with a trailing `+` for a
/// `+2`, or the bare time.
pub open spec fn record_text(r: RecordView) -> Seq<char> {
    match r.penalty {
        Some(Penalty::Dnf) => "DNF"@,
        Some(Penalty::Plus2) => time_text(r.time as nat) + "+"@,
        None => time_text(r.time as nat),
    }
}

fn digit_str(d: u64) -> (r: &'static str)
    requires
        d < 10,
    ensures
        r@ == seq![digit_char(d as nat)],
{
    proof {
        reveal_strlit("0");
        reveal_strlit("1");
        reveal_strlit("2");
        reveal_strlit("3");
        reveal_strlit("4");
        reveal_strlit("5");
        reveal_strlit("6");
        reveal_strlit("7");
        reveal_strlit("8");
        reveal_strlit("9");
    }
    let r = match d {
        0 => "0",
        1 => "1",
        2 => "2",
        3 => "3",
        4 => "4",
        5 => "5",
        6 => "6",
        7 => "7",
        8 => "8",
        _ => "9",
    };
    assert(r@ =~= seq![digit_char(d as nat)]);
    r
}

/// `n` in decimal.
pub fn decimal_string(n: u64) -> (r: String)
    ensures
        r@ == decimal(n as nat),
    decreases n,
{
    if n < 10 {
        String::from_str(digit_str(n))
    } else {
        let mut s = decimal_string(n / 10);
        s.append(digit_str(n % 10));
        s
    }
}

/// `n` in decimal, left-padded with zeros to at least `width` characters.
pub fn padded_decimal(n: u64, width: usize) -> (r: String)
    ensures
        r@ == padded(n as nat, width as nat),
{
    let d = decimal_string(n);
    let len = d.as_str().unicode_len();
    if len >= width {
        return d;
    }
    proof {
        reveal_strlit("0");
    }
    let mut r = String::new();
    let mut i: usize = 0;
    while i < width - len
        invariant
            len < width,
            i <= width - len,
            r@ =~= Seq::new(i as nat, |j: int| '0'),
        decreases width - len - i,
    {
        proof {
            reveal_strlit("0");
        }
        r.append("0");
        i = i + 1;
    }
    r.append(d.as_str());
    r
}

/// A duration in milliseconds as `m:ss.mmm`, or `s.mmm` under a minute.
pub fn format_time(ms: u64) -> (r: String)
    ensures
        r@ == time_text(ms as nat),
{
    proof {
        reveal_strlit(":");
        reveal_strlit(".");
    }
    let minutes = ms / 60000;
    let seconds = (ms % 60000) / 1000;
    let millis = ms % 1000;
    if minutes > 0 {
        let mut r = decimal_string(minutes);
        r.append(":");
        let s = padded_decimal(seconds, 2);
        r.append(s.as_str());
        r.append(".");
        let m = padded_decimal(millis, 3);
        r.append(m.as_str());
        assert(r@ =~= time_text(ms as nat));
        r
    } else {
        let mut r = decimal_string(seconds);
        r.append(".");
        let m = padded_decimal(millis, 3);
        r.append(m.as_str());
        assert(r@ =~= time_text(ms as nat));
        r
    }
}

impl TimeRecord {
    /// The text shown for this record's time.
    pub fn display_text(&self) -> (r: String)
        ensures
            r@ == record_text(self@),
    {
        match self.penalty {
            Some(Penalty::Dnf) => String::from_str("DNF"),
            Some(Penalty::Plus2) => {
                let t = format_time(self.time);
                t.concat("+")
            },
            None => format_time(self.time),
        }
    }
}

} // verus!
