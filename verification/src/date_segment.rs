//! Typing and stepping the numeric segments (year, month, day) of a date field.
use vstd::prelude::*;
use vstd::string::*;
use crate::text::{decimal, digit_char, push_decimal, push_str};
use crate::calendar::{CalendarDate, date_before, days_in_month, from_calendar_date, month_days};
use crate::date_picker::{DateRange, in_any_range, in_some_range};

verus! {

/// The range of the integer type a segment holds, and whether it is signed.
#[derive(Clone, Copy, PartialEq, Eq, Structural, Debug)]
pub struct SegmentType {
    /// The type's smallest value.
    pub lo: i64,
    /// The type's largest value.
    pub hi: i64,
    /// Whether the type is signed (a leading `-` is then accepted).
    pub signed: bool,
}

/// The largest magnitude a segment type may have.
pub open spec fn type_limit() -> int {
    0x100_0000_0000
}

impl SegmentType {
    /// The type's bounds are sensible: `lo <= 0 <= hi`, both moderate.
    pub open spec fn wf(self) -> bool {
        -type_limit() <= self.lo <= 0 <= self.hi <= type_limit() && (!self.signed ==> self.lo == 0)
    }
}

/// The value of a decimal digit character.
pub open spec fn digit_value(c: char) -> int {
    (c as int) - ('0' as int)
}

/// Whether every character is a decimal digit.
pub open spec fn all_digits(s: Seq<char>) -> bool {
    forall|i: int| 0 <= i < s.len() ==> '0' <= #[trigger] s[i] <= '9'
}

/// The number that a run of decimal digits denotes.
pub open spec fn digits_value(s: Seq<char>) -> int
    decreases s.len(),
{
    if s.len() == 0 {
        0
    } else {
        digits_value(s.drop_last()) * 10 + digit_value(s.last())
    }
}

/// What parsing `s` as an integer of type `t` gives: an optional sign (`-` only for a
/// signed type), then at least one digit, the value within the type's range.
pub open spec fn parse_spec(s: Seq<char>, t: SegmentType) -> Option<int> {
    let neg = s.len() > 0 && s[0] == '-';
    let body = if s.len() > 0 && (s[0] == '-' || s[0] == '+') {
        s.drop_first()
    } else {
        s
    };
    if body.len() == 0 || !all_digits(body) || (neg && !t.signed) {
        None
    } else {
        let v = if neg {
            -digits_value(body)
        } else {
            digits_value(body)
        };
        if t.lo <= v <= t.hi {
            Some(v)
        } else {
            None
        }
    }
}

proof fn lemma_digits_value_nonneg(s: Seq<char>)
    requires
        all_digits(s),
    ensures
        digits_value(s) >= 0,
    decreases s.len(),
{
    if s.len() > 0 {
        assert(all_digits(s.drop_last())) by {
            assert forall|i: int| 0 <= i < s.drop_last().len() implies '0' <= #[trigger] s.drop_last()[i] <= '9' by {
                assert(s.drop_last()[i] == s[i]);
            }
        }
        lemma_digits_value_nonneg(s.drop_last());
    }
}

/// Parses `s` as an integer of type `t`.
pub fn parse_segment(s: &[char], t: SegmentType) -> (r: Option<i64>)
    requires
        t.wf(),
    ensures
        match parse_spec(s@, t) {
            Some(v) => r == Some(v as i64),
            None => r is None,
        },
{
    let n = s.len();
    let neg = n > 0 && s[0] == '-';
    let start: usize = if n > 0 && (s[0] == '-' || s[0] == '+') {
        1
    } else {
        0
    };
    let ghost body = s@.skip(start as int);
    assert(body =~= if s@.len() > 0 && (s@[0] == '-' || s@[0] == '+') {
        s@.drop_first()
    } else {
        s@
    });
    if start >= n || (neg && !t.signed) {
        return None;
    }
    let cap: i64 = 0x100_0000_0001;
    let mut acc: i64 = 0;
    let mut i: usize = start;
    while i < n
        invariant
            start <= i <= n,
            n == s@.len(),
            body == s@.skip(start as int),
            body == if s@.len() > 0 && (s@[0] == '-' || s@[0] == '+') {
                s@.drop_first()
            } else {
                s@
            },
            neg == (s@.len() > 0 && s@[0] == '-'),
            !(neg && !t.signed),
            t.wf(),
            cap == type_limit() + 1,
            all_digits(body.take(i - start)),
            0 <= acc <= cap,
            acc == if digits_value(body.take(i - start)) < cap {
                digits_value(body.take(i - start))
            } else {
                cap as int
            },
        decreases n - i,
    {
        let c = s[i];
        let ghost pre = body.take(i - start);
        let ghost next = body.take(i + 1 - start);
        assert(next.drop_last() =~= pre);
        assert(next.last() == c);
        if !('0' <= c && c <= '9') {
            assert(!all_digits(body)) by {
                assert(body[i - start] == c);
            }
            return None;
        }
        assert(all_digits(next)) by {
            assert forall|j: int| 0 <= j < next.len() implies '0' <= #[trigger] next[j] <= '9' by {
                if j < pre.len() {
                    assert(next[j] == pre[j]);
                }
            }
        }
        proof {
            lemma_digits_value_nonneg(pre);
        }
        let d: i64 = (c as u32 - '0' as u32) as i64;
        assert(d == digit_value(c));
        if acc >= cap {
            acc = cap;
        } else {
            let v = acc * 10 + d;
            acc = if v < cap {
                v
            } else {
                cap
            };
        }
        i = i + 1;
    }
    assert(body.take(n - start) =~= body);
    proof {
        lemma_digits_value_nonneg(body);
    }
    if neg {
        if acc >= cap || -acc < t.lo {
            None
        } else {
            Some(-acc)
        }
    } else {
        if acc > t.hi {
            None
        } else {
            Some(acc)
        }
    }
}

/// A key press on a date segment.
#[derive(Clone, PartialEq, Eq, Debug)]
pub enum SegmentKey {
    /// A key that types text.
    Character(String),
    /// Backspace.
    Backspace,
    /// Delete.
    Delete,
    /// Left arrow.
    ArrowLeft,
    /// Right arrow.
    ArrowRight,
    /// Enter.
    Enter,
    /// Up arrow.
    ArrowUp,
    /// Down arrow.
    ArrowDown,
    /// Any other key.
    Other,
}

/// Where focus goes after a key press.
#[derive(Clone, Copy, PartialEq, Eq, Structural, Debug)]
pub enum FocusMove {
    /// Focus stays.
    Stay,
    /// Focus moves to the next segment.
    Next,
    /// Focus moves to the previous segment.
    Prev,
}

/// What a key press on a segment does.
#[derive(Clone, Copy, PartialEq, Eq, Structural, Debug)]
pub struct SegmentOutcome {
    /// The value handed to the change callback, when it is called.
    pub change: Option<Option<i64>>,
    /// Where focus goes.
    pub focus: FocusMove,
    /// Whether the next typed digit starts a new text.
    pub reset: bool,
    /// Whether the key's default action is prevented.
    pub prevent_default: bool,
}

/// The smaller of two integers.
pub open spec fn min_int(a: int, b: int) -> int {
    if a <= b {
        a
    } else {
        b
    }
}

/// The value change and focus move that setting the segment's text to `text` causes: an
/// empty text clears the value and moves back; otherwise the parsed value, capped at
/// `max`, and a move forward when it is in range and one more digit could not stay in
/// range.
pub open spec fn set_text_spec(text: Seq<char>, min: int, max: int, t: SegmentType) -> (Option<int>, FocusMove) {
    if text.len() == 0 {
        (None, FocusMove::Prev)
    } else {
        match parse_spec(text, t) {
            None => (None, FocusMove::Stay),
            Some(p) => {
                let v = min_int(p, max);
                let longer = match parse_spec(text.push('0'), t) {
                    Some(n) => n,
                    None => v,
                };
                (Some(v), if v >= min && v <= max && longer > max {
                    FocusMove::Next
                } else {
                    FocusMove::Stay
                })
            },
        }
    }
}

/// A stepped value brought back into `[min, max]` by wrapping to the other end.
pub open spec fn roll_spec(v: int, min: int, max: int) -> int {
    if v < min {
        max
    } else if v > max {
        min
    } else {
        v
    }
}

/// An optional value as integers.
pub open spec fn opt_int(v: Option<i64>) -> Option<int> {
    match v {
        Some(x) => Some(x as int),
        None => None,
    }
}

/// The outcome of setting the text: the callback gets the value, focus moves as
/// `set_text_spec` says.
pub open spec fn text_outcome(text: Seq<char>, min: int, max: int, t: SegmentType, reset: bool, prevent: bool) -> (Option<Option<int>>, FocusMove, bool, bool) {
    let (v, f) = set_text_spec(text, min, max, t);
    (Some(v), f, reset, prevent)
}

/// What a key press on a segment does, given the segment's text, reset flag and value.
pub open spec fn segment_keydown_spec(
    key: SegmentKey,
    ctrl: bool,
    meta: bool,
    alt: bool,
    text: Seq<char>,
    reset: bool,
    value: Option<int>,
    default: int,
    min: int,
    max: int,
    max_length: int,
    t: SegmentType,
) -> (Option<Option<int>>, FocusMove, bool, bool) {
    match key {
        SegmentKey::Character(s) => if ctrl || meta || alt {
            (None, FocusMove::Stay, reset, false)
        } else if parse_spec(s@, t) is Some {
            let restart = text.len() == max_length || reset;
            let base = if restart {
                Seq::empty()
            } else {
                text
            };
            text_outcome(base + s@, min, max, t, if restart {
                false
            } else {
                reset
            }, true)
        } else {
            (None, FocusMove::Stay, reset, true)
        },
        SegmentKey::Backspace => text_outcome(if ctrl || meta {
            Seq::empty()
        } else if text.len() > 0 {
            text.drop_last()
        } else {
            text
        }, min, max, t, reset, false),
        SegmentKey::Delete => text_outcome(text.drop_first(), min, max, t, reset, false),
        SegmentKey::ArrowLeft => (None, FocusMove::Prev, reset, false),
        SegmentKey::ArrowRight => (None, FocusMove::Next, reset, false),
        SegmentKey::Enter => (None, FocusMove::Next, reset, true),
        SegmentKey::ArrowUp => (Some(Some(match value {
            Some(v) => roll_spec(v + 1, min, max),
            None => default,
        })), FocusMove::Stay, reset, false),
        SegmentKey::ArrowDown => (Some(Some(match value {
            Some(v) => roll_spec(v - 1, min, max),
            None => default,
        })), FocusMove::Stay, reset, false),
        SegmentKey::Other => (None, FocusMove::Stay, reset, false),
    }
}

/// An optional change as integers.
pub open spec fn change_int(c: Option<Option<i64>>) -> Option<Option<int>> {
    match c {
        Some(v) => Some(opt_int(v)),
        None => None,
    }
}

fn set_text(text: &[char], min: i64, max: i64, t: SegmentType) -> (r: (Option<i64>, FocusMove))
    requires
        t.wf(),
    ensures
        (opt_int(r.0), r.1) == set_text_spec(text@, min as int, max as int, t),
{
    if text.len() == 0 {
        return (None, FocusMove::Prev);
    }
    match parse_segment(text, t) {
        None => (None, FocusMove::Stay),
        Some(p) => {
            let v = if p <= max {
                p
            } else {
                max
            };
            let mut longer_text: Vec<char> = Vec::new();
            let mut i: usize = 0;
            while i < text.len()
                invariant
                    0 <= i <= text@.len(),
                    longer_text@ == text@.take(i as int),
                decreases text@.len() - i,
            {
                longer_text.push(text[i]);
                i = i + 1;
            }
            longer_text.push('0');
            assert(longer_text@ =~= text@.push('0'));
            let longer = match parse_segment(longer_text.as_slice(), t) {
                Some(n) => n,
                None => v,
            };
            let focus = if v >= min && v <= max && longer > max {
                FocusMove::Next
            } else {
                FocusMove::Stay
            };
            (Some(v), focus)
        },
    }
}

/// Applies a key press to a date segment holding `value` and showing `text`, for an
/// integer type `t` and the allowed range `[min, max]`.
pub fn segment_keydown(
    key: SegmentKey,
    ctrl: bool,
    meta: bool,
    alt: bool,
    text: &[char],
    reset: bool,
    value: Option<i64>,
    default: i64,
    min: i64,
    max: i64,
    max_length: usize,
    t: SegmentType,
) -> (r: SegmentOutcome)
    requires
        t.wf(),
        t.lo <= min,
        max <= t.hi,
        key is Delete ==> text@.len() > 0,
        key is ArrowUp ==> (value matches Some(v) ==> v < t.hi),
        key is ArrowDown ==> (value matches Some(v) ==> v > t.lo),
    ensures
        (change_int(r.change), r.focus, r.reset, r.prevent_default) == segment_keydown_spec(
            key,
            ctrl,
            meta,
            alt,
            text@,
            reset,
            opt_int(value),
            default as int,
            min as int,
            max as int,
            max_length as int,
            t,
        ),
{
    let roll = |v: i64| -> (w: i64)
        ensures
            w == roll_spec(v as int, min as int, max as int),
        {
            if v < min {
                max
            } else if v > max {
                min
            } else {
                v
            }
        };
    match key {
        SegmentKey::Character(s) => {
            if ctrl || meta || alt {
                return SegmentOutcome { change: None, focus: FocusMove::Stay, reset, prevent_default: false };
            }
            let typed: Vec<char> = chars_of(s.as_str());
            if parse_segment(typed.as_slice(), t).is_none() {
                return SegmentOutcome { change: None, focus: FocusMove::Stay, reset, prevent_default: true };
            }
            let restart = text.len() == max_length || reset;
            let mut next: Vec<char> = Vec::new();
            if !restart {
                let mut i: usize = 0;
                while i < text.len()
                    invariant
                        0 <= i <= text@.len(),
                        next@ == text@.take(i as int),
                    decreases text@.len() - i,
                {
                    next.push(text[i]);
                    i = i + 1;
                }
                assert(next@ =~= text@);
            }
            let ghost base = next@;
            let mut j: usize = 0;
            while j < typed.len()
                invariant
                    0 <= j <= typed@.len(),
                    next@ == base + typed@.take(j as int),
                decreases typed@.len() - j,
            {
                next.push(typed[j]);
                assert(base + typed@.take(j + 1) =~= (base + typed@.take(j as int)).push(typed@[j as int]));
                j = j + 1;
            }
            assert(typed@.take(j as int) =~= typed@);
            assert(base =~= if restart {
                Seq::<char>::empty()
            } else {
                text@
            });
            let (v, f) = set_text(next.as_slice(), min, max, t);
            SegmentOutcome {
                change: Some(v),
                focus: f,
                reset: if restart {
                    false
                } else {
                    reset
                },
                prevent_default: true,
            }
        },
        SegmentKey::Backspace => {
            let mut next: Vec<char> = Vec::new();
            if !(ctrl || meta) {
                let keep = if text.len() > 0 {
                    text.len() - 1
                } else {
                    0
                };
                let mut i: usize = 0;
                while i < keep
                    invariant
                        0 <= i <= keep <= text@.len(),
                        next@ == text@.take(i as int),
                    decreases keep - i,
                {
                    next.push(text[i]);
                    i = i + 1;
                }
                assert(next@ =~= if text@.len() > 0 {
                    text@.drop_last()
                } else {
                    text@
                });
            }
            let (v, f) = set_text(next.as_slice(), min, max, t);
            SegmentOutcome { change: Some(v), focus: f, reset, prevent_default: false }
        },
        SegmentKey::Delete => {
            let mut next: Vec<char> = Vec::new();
            let mut i: usize = 1;
            while i < text.len()
                invariant
                    1 <= i <= text@.len(),
                    next@ == text@.subrange(1, i as int),
                decreases text@.len() - i,
            {
                next.push(text[i]);
                assert(text@.subrange(1, i + 1) =~= text@.subrange(1, i as int).push(text@[i as int]));
                i = i + 1;
            }
            assert(next@ =~= text@.drop_first());
            let (v, f) = set_text(next.as_slice(), min, max, t);
            SegmentOutcome { change: Some(v), focus: f, reset, prevent_default: false }
        },
        SegmentKey::ArrowLeft => SegmentOutcome { change: None, focus: FocusMove::Prev, reset, prevent_default: false },
        SegmentKey::ArrowRight => SegmentOutcome { change: None, focus: FocusMove::Next, reset, prevent_default: false },
        SegmentKey::Enter => SegmentOutcome { change: None, focus: FocusMove::Next, reset, prevent_default: true },
        SegmentKey::ArrowUp => {
            let v = match value {
                Some(v) => roll(v + 1),
                None => default,
            };
            SegmentOutcome { change: Some(Some(v)), focus: FocusMove::Stay, reset, prevent_default: false }
        },
        SegmentKey::ArrowDown => {
            let v = match value {
                Some(v) => roll(v - 1),
                None => default,
            };
            SegmentOutcome { change: Some(Some(v)), focus: FocusMove::Stay, reset, prevent_default: false }
        },
        SegmentKey::Other => SegmentOutcome { change: None, focus: FocusMove::Stay, reset, prevent_default: false },
    }
}

/// The characters of `s`.
pub fn chars_of(s: &str) -> (r: Vec<char>)
    ensures
        r@ == s@,
{
    let n = s.unicode_len();
    let mut r: Vec<char> = Vec::new();
    let mut i: usize = 0;
    while i < n
        invariant
            0 <= i <= n,
            n == s@.len(),
            r@ == s@.take(i as int),
        decreases n - i,
    {
        r.push(s.get_char(i));
        i = i + 1;
    }
    assert(r@ =~= s@);
    r
}

/// The text of an integer: a minus sign for negative values, then the decimal digits.
pub open spec fn int_text(v: int) -> Seq<char> {
    if v < 0 {
        seq!['-'] + decimal((-v) as nat)
    } else {
        decimal(v as nat)
    }
}

/// `s` padded on the left with zeros to at least `width` characters.
pub open spec fn pad_zeros(s: Seq<char>, width: int) -> Seq<char> {
    if s.len() >= width {
        s
    } else {
        Seq::new((width - s.len()) as nat, |i: int| '0') + s
    }
}

/// `p` repeated `n` times.
pub open spec fn repeat_text(p: Seq<char>, n: nat) -> Seq<char>
    decreases n,
{
    if n == 0 {
        Seq::empty()
    } else {
        repeat_text(p, (n - 1) as nat) + p
    }
}

/// What a segment shows: its value zero-padded to `max_length`, or the placeholder
/// repeated `max_length` times when it has none.
pub fn segment_display(value: Option<i64>, placeholder: &str, max_length: usize) -> (r: String)
    requires
        value matches Some(v) ==> v > i64::MIN,
    ensures
        r@ == match value {
            Some(v) => pad_zeros(int_text(v as int), max_length as int),
            None => repeat_text(placeholder@, max_length as nat),
        },
{
    let mut out = String::new();
    match value {
        Some(v) => {
            let mut body = String::new();
            if v < 0 {
                proof {
                    reveal_strlit("-");
                }
                push_str(&mut body, "-");
                push_decimal(&mut body, (-v) as u64);
            } else {
                push_decimal(&mut body, v as u64);
            }
            assert(body@ =~= int_text(v as int));
            let len = body.unicode_len();
            if len < max_length {
                let mut k: usize = 0;
                while k < max_length - len
                    invariant
                        len < max_length,
                        0 <= k <= max_length - len,
                        out@ == Seq::new(k as nat, |i: int| '0'),
                    decreases max_length - len - k,
                {
                    proof {
                        reveal_strlit("0");
                    }
                    push_str(&mut out, "0");
                    assert(out@ =~= Seq::new((k + 1) as nat, |i: int| '0'));
                    k = k + 1;
                }
            }
            push_str(&mut out, body.as_str());
            assert(out@ =~= pad_zeros(int_text(v as int), max_length as int));
        },
        None => {
            let mut k: usize = 0;
            while k < max_length
                invariant
                    0 <= k <= max_length,
                    out@ == repeat_text(placeholder@, k as nat),
                decreases max_length - k,
            {
                push_str(&mut out, placeholder);
                k = k + 1;
            }
        },
    }
    out
}

/// The value change a segment makes when it is not focused: a value outside
/// `[min, max]` is clamped into it.
pub fn blurred_clamp(focused: bool, value: Option<i64>, min: i64, max: i64) -> (r: Option<i64>)
    requires
        (!focused && value is Some) ==> min <= max,
    ensures
        r == match value {
            Some(v) if !focused && (v < min || v > max) => Some(if v < min {
                min
            } else {
                max
            }),
            _ => None,
        },
{
    if focused {
        return None;
    }
    match value {
        Some(v) => {
            if v < min {
                Some(min)
            } else if v > max {
                Some(max)
            } else {
                None
            }
        },
        None => None,
    }
}

/// The ranges the year, month and day segments of a date field allow.
#[derive(Clone, Copy, PartialEq, Eq, Structural, Debug)]
pub struct DateBounds {
    /// Smallest year.
    pub min_year: i32,
    /// Largest year.
    pub max_year: i32,
    /// Smallest month.
    pub min_month: u8,
    /// Largest month.
    pub max_month: u8,
    /// Smallest day.
    pub min_day: u8,
    /// Largest day.
    pub max_day: u8,
}

/// The segment ranges for the entered year and month within `[min_date, max_date]`: the
/// years of the two ends; the months and days of an end when the entered year (and
/// month) are that end's; else the whole year, and the length of the entered month (31
/// when no valid month is entered).
pub open spec fn bounds_spec(year: Option<i32>, month: Option<u8>, min_date: CalendarDate, max_date: CalendarDate) -> DateBounds {
    DateBounds {
        min_year: min_date.year,
        max_year: max_date.year,
        min_month: match year {
            Some(y) if y == min_date.year => min_date.month,
            _ => 1,
        },
        max_month: match year {
            Some(y) if y == max_date.year => max_date.month,
            _ => 12,
        },
        min_day: match (year, month) {
            (Some(y), Some(m)) if y == min_date.year && m == min_date.month => min_date.day,
            _ => 1,
        },
        max_day: match (year, month) {
            (Some(y), Some(m)) if y == max_date.year && m == max_date.month => max_date.day,
            (Some(y), Some(m)) => if 1 <= m <= 12 {
                days_in_month(y as int, m as int) as u8
            } else {
                31
            },
            _ => 31,
        },
    }
}

/// The ranges of a date field's segments for the entered year and month.
pub fn date_element_bounds(year: Option<i32>, month: Option<u8>, min_date: CalendarDate, max_date: CalendarDate) -> (r: DateBounds)
    ensures
        r == bounds_spec(year, month, min_date, max_date),
{
    let min_month = match year {
        Some(y) if y == min_date.year => min_date.month,
        _ => 1,
    };
    let max_month = match year {
        Some(y) if y == max_date.year => max_date.month,
        _ => 12,
    };
    let min_day = match (year, month) {
        (Some(y), Some(m)) if y == min_date.year && m == min_date.month => min_date.day,
        _ => 1,
    };
    let max_day = match (year, month) {
        (Some(y), Some(m)) if y == max_date.year && m == max_date.month => max_date.day,
        (Some(y), Some(m)) => if 1 <= m && m <= 12 {
            month_days(y, m)
        } else {
            31
        },
        _ => 31,
    };
    DateBounds { min_year: min_date.year, max_year: max_date.year, min_month, max_month, min_day, max_day }
}

/// The date a date field's segments name, when all three are entered, the date exists,
/// it lies in `[min_date, max_date]` and in none of the disabled ranges.
pub open spec fn entered_date_spec(
    year: Option<i32>,
    month: Option<u8>,
    day: Option<u8>,
    min_date: CalendarDate,
    max_date: CalendarDate,
    disabled_ranges: Seq<DateRange>,
) -> Option<CalendarDate> {
    match (year, month, day) {
        (Some(y), Some(m), Some(d)) => {
            let date = CalendarDate { year: y, month: m, day: d };
            if 1 <= m <= 12 && date.valid() && !date.before(min_date) && !max_date.before(date)
                && !in_some_range(disabled_ranges, date) {
                Some(date)
            } else {
                None
            }
        },
        _ => None,
    }
}

/// The date that the entered segments name, if they name one within range and outside
/// every disabled range.
pub fn entered_date(
    year: Option<i32>,
    month: Option<u8>,
    day: Option<u8>,
    min_date: CalendarDate,
    max_date: CalendarDate,
    disabled_ranges: &[DateRange],
) -> (r: Option<CalendarDate>)
    ensures
        r == entered_date_spec(year, month, day, min_date, max_date, disabled_ranges@),
{
    match (year, month, day) {
        (Some(y), Some(m), Some(d)) => {
            if !(1 <= m && m <= 12) {
                return None;
            }
            match from_calendar_date(y, m, d) {
                Some(date) => {
                    if date_before(date, min_date) || date_before(max_date, date) || in_any_range(
                        disabled_ranges,
                        date,
                    ) {
                        None
                    } else {
                        Some(date)
                    }
                },
                None => None,
            }
        },
        _ => None,
    }
}

/// Stepping a value with the arrow keys keeps it within `[min, max]`, and a typed value
/// never exceeds `max`.
pub proof fn law_segment_values_bounded(v: int, min: int, max: int, text: Seq<char>, t: SegmentType)
    requires
        min <= max,
    ensures
        min <= roll_spec(v + 1, min, max) <= max,
        min <= roll_spec(v - 1, min, max) <= max,
        set_text_spec(text, min, max, t).0 matches Some(x) ==> x <= max,
{
}

/// The arrow keys step a value within `[min, max]` by one: Up gives the next value and
/// Down the previous one, and only a step past an end wraps to the other end. So Up then
/// Down (below `max`), and Down then Up (above `min`), come back to the value. With no
/// value, either key gives the default.
pub proof fn law_arrow_steps_by_one(
    ctrl: bool,
    meta: bool,
    alt: bool,
    text: Seq<char>,
    reset: bool,
    v: int,
    default: int,
    min: int,
    max: int,
    max_length: int,
    t: SegmentType,
)
    requires
        min <= v <= max,
    ensures
        ({
            let up = segment_keydown_spec(SegmentKey::ArrowUp, ctrl, meta, alt, text, reset, Some(v), default, min, max, max_length, t).0;
            let down = segment_keydown_spec(SegmentKey::ArrowDown, ctrl, meta, alt, text, reset, Some(v), default, min, max, max_length, t).0;
            &&& v < max ==> up == Some(Some(v + 1))
            &&& v == max ==> up == Some(Some(min))
            &&& v > min ==> down == Some(Some(v - 1))
            &&& v == min ==> down == Some(Some(max))
            &&& v < max ==> segment_keydown_spec(SegmentKey::ArrowDown, ctrl, meta, alt, text, reset, Some(v + 1), default, min, max, max_length, t).0
                == Some(Some(v))
            &&& v > min ==> segment_keydown_spec(SegmentKey::ArrowUp, ctrl, meta, alt, text, reset, Some(v - 1), default, min, max, max_length, t).0
                == Some(Some(v))
        }),
        segment_keydown_spec(SegmentKey::ArrowUp, ctrl, meta, alt, text, reset, None, default, min, max, max_length, t).0
            == Some(Some(default)),
        segment_keydown_spec(SegmentKey::ArrowDown, ctrl, meta, alt, text, reset, None, default, min, max, max_length, t).0
            == Some(Some(default)),
{
}

/// The decimal text of a number is all digits and denotes that number.
pub proof fn lemma_decimal_digits(n: nat)
    ensures
        all_digits(decimal(n)),
        digits_value(decimal(n)) == n,
        decimal(n).len() > 0,
    decreases n,
{
    let k = n % 10;
    assert(digit_char(k) as int == 48 + k);
    if n < 10 {
        assert(decimal(n).drop_last() =~= Seq::<char>::empty());
        assert(digits_value(Seq::<char>::empty()) == 0);
        assert(decimal(n).last() == digit_char(n));
        assert(digits_value(decimal(n)) == digit_value(digit_char(n)));
    } else {
        lemma_decimal_digits(n / 10);
        let d = decimal(n);
        assert(d.drop_last() =~= decimal(n / 10));
        assert(d.last() == digit_char(k));
        assert(digits_value(d) == (n / 10) * 10 + k);
        assert forall|i: int| 0 <= i < d.len() implies '0' <= #[trigger] d[i] <= '9' by {
            if i < d.len() - 1 {
                assert(d[i] == decimal(n / 10)[i]);
            }
        }
    }
}

/// A segment's value written out as text parses back to that value.
pub proof fn law_text_parses_back(v: int, t: SegmentType)
    requires
        t.wf(),
        t.lo <= v <= t.hi,
    ensures
        parse_spec(int_text(v), t) == Some(v),
{
    if v < 0 {
        lemma_decimal_digits((-v) as nat);
        let s = int_text(v);
        assert(s.drop_first() =~= decimal((-v) as nat));
        assert(t.signed);
    } else {
        lemma_decimal_digits(v as nat);
        let s = decimal(v as nat);
        assert(s[0] != '-' && s[0] != '+') by {
            assert('0' <= s[0] <= '9');
        }
    }
}

} // verus!
