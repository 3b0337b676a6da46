//! Clock values at minute resolution, and evenly spaced runs of them.

use vstd::prelude::*;
use vstd::string::*;

verus! {

/// A time of day: an hour, a minute, and the minute of the day they add up to.
#[derive(Clone, Copy, Debug, PartialEq, Eq, Structural)]
pub struct TimeOfDay {
    pub hour: u16,
    pub minute: u16,
    pub total: u16,
}

/// The character that stands for a digit below ten.
pub open spec fn digit_char(d: int) -> char {
    if d == 0 {
        '0'
    } else if d == 1 {
        '1'
    } else if d == 2 {
        '2'
    } else if d == 3 {
        '3'
    } else if d == 4 {
        '4'
    } else if d == 5 {
        '5'
    } else if d == 6 {
        '6'
    } else if d == 7 {
        '7'
    } else if d == 8 {
        '8'
    } else {
        '9'
    }
}

/// The decimal numeral of `n`, without leading zeros.
pub open spec fn decimal_text(n: nat) -> Seq<char>
    decreases n,
{
    if n < 10 {
        seq![digit_char(n as int)]
    } else {
        decimal_text(n / 10).push(digit_char((n % 10) as int))
    }
}

/// The numeral of `n` in at least two digits: one leading zero below ten.
pub open spec fn two_digit_text(n: nat) -> Seq<char> {
    if n < 10 {
        seq!['0'] + decimal_text(n)
    } else {
        decimal_text(n)
    }
}

/// The text `HH:MM` of an hour and a minute.
pub open spec fn clock_text(hour: nat, minute: nat) -> Seq<char> {
    two_digit_text(hour) + seq![':'] + two_digit_text(minute)
}

/// The one-character string of a digit.
fn digit_str(d: u16) -> (s: &'static str)
    requires
        d < 10,
    ensures
        s@ == seq![digit_char(d as int)],
{
    proof {
        reveal_strlit("0");
        reveal_strlit("1");
        reveal_strlit("2");
        reveal_strlit("3");
        reveal_strlit("4");
        reveal_strlit("5");
        reveal_strlit("6");
        reveal_strlit("7");
        reveal_strlit("8");
        reveal_strlit("9");
    }
    let s = if d == 0 {
        "0"
    } else if d == 1 {
        "1"
    } else if d == 2 {
        "2"
    } else if d == 3 {
        "3"
    } else if d == 4 {
        "4"
    } else if d == 5 {
        "5"
    } else if d == 6 {
        "6"
    } else if d == 7 {
        "7"
    } else if d == 8 {
        "8"
    } else {
        "9"
    };
    assert(s@ =~= seq![digit_char(d as int)]);
    s
}

/// Appends the decimal numeral of `n` to `out`.
fn append_decimal(out: &mut String, n: u16)
    ensures
        final(out)@ == old(out)@ + decimal_text(n as nat),
    decreases n,
{
    if n >= 10 {
        append_decimal(out, n / 10);
    }
    out.append(digit_str(n % 10));
    assert(out@ =~= old(out)@ + decimal_text(n as nat));
}

/// Appends `n` in at least two digits to `out`.
fn append_two_digits(out: &mut String, n: u16)
    ensures
        final(out)@ == old(out)@ + two_digit_text(n as nat),
{
    if n < 10 {
        proof {
            reveal_strlit("0");
        }
        out.append("0");
    }
    append_decimal(out, n);
    assert(out@ =~= old(out)@ + two_digit_text(n as nat));
}

impl TimeOfDay {
    /// Whether `total` is the minute of the day that `hour` and `minute` give.
    pub open spec fn is_consistent(&self) -> bool {
        self.total == self.hour * 60 + self.minute
    }

    /// The clock value that starts `minutes` after midnight.
    pub open spec fn at_minute(minutes: int) -> TimeOfDay {
        TimeOfDay { hour: (minutes / 60) as u16, minute: (minutes % 60) as u16, total: minutes as u16 }
    }

    /// A clock value from an hour and a minute. Neither is held to the range
    /// of a day; their minute count has to fit the width of `total`.
    pub fn new(hour: u16, minute: u16) -> (t: Self)
        requires
            hour * 60 + minute <= u16::MAX,
        ensures
            t.hour == hour,
            t.minute == minute,
            t.total == hour * 60 + minute,
            t.is_consistent(),
    {
        let total = hour * 60 + minute;
        Self { hour, minute, total }
    }

    /// The clock value that starts `minutes` after midnight.
    pub fn from_minutes(minutes: u16) -> (t: Self)
        ensures
            t == Self::at_minute(minutes as int),
            t.hour == minutes / 60,
            t.minute == minutes % 60,
            t.minute < 60,
            t.total == minutes,
            t.is_consistent(),
    {
        let hour = minutes / 60;
        let minute = minutes % 60;
        Self { hour, minute, total: minutes }
    }

    /// The text `HH:MM`, each part with a leading zero below ten.
    pub fn to_string(&self) -> (s: String)
        ensures
            s@ == clock_text(self.hour as nat, self.minute as nat),
    {
        let mut s = String::new();
        append_two_digits(&mut s, self.hour);
        proof {
            reveal_strlit(":");
        }
        s.append(":");
        append_two_digits(&mut s, self.minute);
        assert(s@ =~= clock_text(self.hour as nat, self.minute as nat));
        s
    }
}

/// The distance between two values of a range: a number of hours or of
/// minutes.
#[derive(Clone, Copy, Debug, PartialEq, Eq, Structural)]
pub enum StepType {
    Hour(u16),
    Minute(u16),
}

impl StepType {
    /// The step in minutes.
    pub open spec fn minutes(self) -> int {
        match self {
            StepType::Hour(n) => n * 60,
            StepType::Minute(n) => n as int,
        }
    }

    /// The step in minutes.
    pub fn step_minutes(&self) -> (m: u32)
        ensures
            m == self.minutes(),
    {
        match *self {
            StepType::Hour(n) => n as u32 * 60,
            StepType::Minute(n) => n as u32,
        }
    }
}

/// The clock values from `start` on that lie a whole number of steps after
/// it and not after `end`, handed out one by one.
///
/// The bounds and the step never change; only the cursor, the minute of the
/// value that comes next, moves.
pub struct TimeOfDayRange {
    start: TimeOfDay,
    end: TimeOfDay,
    step_type: StepType,
    current_minute: u32,
}

impl TimeOfDayRange {
    #[verifier::type_invariant]
    spec fn inv(&self) -> bool {
        &&& self.start.total < self.end.total
        &&& self.start.total <= self.current_minute
        &&& self.current_minute <= self.end.total + self.step_type.minutes()
    }

    /// The first value of the range.
    pub closed spec fn start(&self) -> TimeOfDay {
        self.start
    }

    /// The bound that no value of the range lies after.
    pub closed spec fn end(&self) -> TimeOfDay {
        self.end
    }

    /// The distance between two values.
    pub closed spec fn step_type(&self) -> StepType {
        self.step_type
    }

    /// The minute of the value that comes next.
    pub closed spec fn cursor(&self) -> int {
        self.current_minute as int
    }

    /// Whether the range has handed out all its values.
    pub open spec fn is_exhausted(&self) -> bool {
        self.cursor() > self.end().total
    }

    /// A range from `start` to `end`, with its cursor at `start`. It exists
    /// only where `start` lies before `end`.
    pub fn new(start: TimeOfDay, end: TimeOfDay, step_type: StepType) -> (r: Result<Self, ()>)
        ensures
            r is Ok <==> start.total < end.total,
            r matches Ok(range) ==> {
                &&& range.start() == start
                &&& range.end() == end
                &&& range.step_type() == step_type
                &&& range.cursor() == start.total
            },
    {
        if start.total >= end.total {
            return Err(());
        }
        Ok(Self { start, end, step_type, current_minute: start.total as u32 })
    }

    /// The value at the cursor, if the cursor is not past `end`; the cursor
    /// then moves on by one step. Past `end` there is no value and nothing
    /// changes.
    pub fn next(&mut self) -> (r: Option<TimeOfDay>)
        ensures
            final(self).start() == old(self).start(),
            final(self).end() == old(self).end(),
            final(self).step_type() == old(self).step_type(),
            old(self).is_exhausted() ==> r is None && final(self).cursor() == old(self).cursor(),
            !old(self).is_exhausted() ==> {
                &&& r == Some(TimeOfDay::at_minute(old(self).cursor()))
                &&& old(self).start().total <= old(self).cursor() <= old(self).end().total
                &&& final(self).cursor() == old(self).cursor() + old(self).step_type().minutes()
            },
    {
        proof {
            use_type_invariant(&*self);
        }
        if self.current_minute > self.end.total as u32 {
            return None;
        }
        let item = TimeOfDay::from_minutes(self.current_minute as u16);
        let step = self.step_type.step_minutes();
        self.current_minute = self.current_minute + step;
        Some(item)
    }
}

} // verus!
