use vstd::prelude::*;
use vstd::string::*;

verus! {

#[verifier::external_type_specification]
#[verifier::external_body]
pub struct ExInstant(std::time::Instant);

/// Relies on `std::time::Instant::now`: the current reading of a monotonic
/// clock. Nothing can be stated of its value.
pub assume_specification[ std::time::Instant::now ]() -> std::time::Instant;

/// Reads the clock at the start of a pass.
pub fn start_timer() -> std::time::Instant {
    std::time::Instant::now()
}

/// The progress percentage reported after `done` of `total` bytes: the
/// rounded-down share, shown as 100 from 99 on (and for an empty input).
pub open spec fn progress_percent_spec(done: nat, total: nat) -> nat {
    if total == 0 {
        100
    } else {
        let p = done * 100 / total;
        if p > 98 {
            100
        } else {
            p
        }
    }
}

/// The progress percentage after `done` of `total` bytes.
pub fn progress_percent(done: u64, total: u64) -> (r: u64)
    ensures
        r == progress_percent_spec(done as nat, total as nat),
        r <= 100,
{
    if total == 0 {
        return 100;
    }
    let p = (done as u128) * 100 / (total as u128);
    if p > 98 {
        100
    } else {
        p as u64
    }
}

/// Remembers the last percentage reported during one pass, so that each
/// distinct percentage is reported once.
pub struct ProgressTracker {
    pub last: Option<u64>,
}

impl ProgressTracker {
    /// A tracker that has reported nothing yet.
    pub fn new() -> (r: Self)
        ensures
            r.last is None,
    {
        ProgressTracker { last: None }
    }

    /// The percentage to report after `done` of `total` bytes, or `None` when
    /// it equals the one reported last.
    pub fn observe(&mut self, done: u64, total: u64) -> (r: Option<u64>)
        ensures
            old(self).last == Some(progress_percent_spec(done as nat, total as nat) as u64) ==> r is None
                && final(self).last == old(self).last,
            old(self).last != Some(progress_percent_spec(done as nat, total as nat) as u64) ==> r == Some(
                progress_percent_spec(done as nat, total as nat) as u64,
            ) && final(self).last == r,
    {
        let p = progress_percent(done, total);
        match self.last {
            Some(l) => {
                if l == p {
                    return None;
                }
            },
            None => {},
        }
        self.last = Some(p);
        Some(p)
    }
}

/// The character of a decimal digit.
pub open spec fn digit_char(d: nat) -> char {
    if d == 0 {
        '0'
    } else if d == 1 {
        '1'
    } else if d == 2 {
        '2'
    } else if d == 3 {
        '3'
    } else if d == 4 {
        '4'
    } else if d == 5 {
        '5'
    } else if d == 6 {
        '6'
    } else if d == 7 {
        '7'
    } else if d == 8 {
        '8'
    } else {
        '9'
    }
}

/// The decimal representation of `n`, without leading zeros.
pub open spec fn decimal(n: nat) -> Seq<char>
    decreases n,
{
    if n < 10 {
        seq![digit_char(n)]
    } else {
        decimal(n / 10) + seq![digit_char(n % 10)]
    }
}

/// `n` in decimal, padded with zeros to at least three digits.
pub open spec fn decimal3(n: nat) -> Seq<char> {
    if n < 10 {
        "00"@ + decimal(n)
    } else if n < 100 {
        "0"@ + decimal(n)
    } else {
        decimal(n)
    }
}

/// The display form of an elapsed time of `secs` whole seconds and `millis`
/// milliseconds: `1h 2m 3s`, `2m 3s`, or `3.045s`.
pub open spec fn format_duration_spec(secs: nat, millis: nat) -> Seq<char> {
    let hours = secs / 3600;
    let minutes = (secs % 3600) / 60;
    let seconds = secs % 60;
    if hours > 0 {
        decimal(hours) + "h "@ + decimal(minutes) + "m "@ + decimal(seconds) + "s"@
    } else if minutes > 0 {
        decimal(minutes) + "m "@ + decimal(seconds) + "s"@
    } else {
        decimal(seconds) + "."@ + decimal3(millis) + "s"@
    }
}

fn digit_string(d: u64) -> (r: String)
    requires
        d < 10,
    ensures
        r@ == seq![digit_char(d as nat)],
{
    proof {
        reveal_strlit("0");
        reveal_strlit("1");
        reveal_strlit("2");
        reveal_strlit("3");
        reveal_strlit("4");
        reveal_strlit("5");
        reveal_strlit("6");
        reveal_strlit("7");
        reveal_strlit("8");
        reveal_strlit("9");
    }
    let s = if d == 0 {
        "0"
    } else if d == 1 {
        "1"
    } else if d == 2 {
        "2"
    } else if d == 3 {
        "3"
    } else if d == 4 {
        "4"
    } else if d == 5 {
        "5"
    } else if d == 6 {
        "6"
    } else if d == 7 {
        "7"
    } else if d == 8 {
        "8"
    } else {
        "9"
    };
    let r = String::from_str(s);
    assert(r@ =~= seq![digit_char(d as nat)]);
    r
}

/// `n` in decimal.
pub fn decimal_string(n: u64) -> (r: String)
    ensures
        r@ == decimal(n as nat),
    decreases n,
{
    if n < 10 {
        digit_string(n)
    } else {
        let mut s = decimal_string(n / 10);
        let d = digit_string(n % 10);
        s.append(d.as_str());
        s
    }
}

/// Formats an elapsed time of `total_secs` whole seconds and `millis`
/// milliseconds for display.
pub fn format_duration(total_secs: u64, millis: u32) -> (r: String)
    ensures
        r@ == format_duration_spec(total_secs as nat, millis as nat),
{
    let hours = total_secs / 3600;
    let minutes = (total_secs % 3600) / 60;
    let seconds = total_secs % 60;
    if hours > 0 {
        let mut s = decimal_string(hours);
        s.append("h ");
        s.append(decimal_string(minutes).as_str());
        s.append("m ");
        s.append(decimal_string(seconds).as_str());
        s.append("s");
        s
    } else if minutes > 0 {
        let mut s = decimal_string(minutes);
        s.append("m ");
        s.append(decimal_string(seconds).as_str());
        s.append("s");
        s
    } else {
        let mut s = decimal_string(seconds);
        s.append(".");
        if millis < 10 {
            s.append("00");
        } else if millis < 100 {
            s.append("0");
        }
        s.append(decimal_string(millis as u64).as_str());
        s.append("s");
        s
    }
}

} // verus!
