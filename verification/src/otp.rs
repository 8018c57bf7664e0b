//! One-time-password input: the accepted-character pattern and the editing rules.
use vstd::prelude::*;
use vstd::string::*;
use crate::attributes::{Attribute, AttributeView, attrs_view};
use crate::selection::str_eq;

verus! {

/// One alternative of a character class.
#[derive(Clone, Copy, PartialEq, Eq, Structural, Debug)]
pub enum CharMatcher {
    /// Exactly this character.
    Char(char),
    /// Any character from the first to the second, inclusive.
    Range(char, char),
    /// An ASCII digit.
    Digit,
}

/// Whether matcher `m` accepts `c`.
pub open spec fn matcher_accepts(m: CharMatcher, c: char) -> bool {
    match m {
        CharMatcher::Char(e) => e == c,
        CharMatcher::Range(s, e) => (s as u32) <= (c as u32) && (c as u32) <= (e as u32),
        CharMatcher::Digit => '0' <= c && c <= '9',
    }
}

/// Whether some matcher of `class` accepts `c`.
pub open spec fn class_accepts(class: Seq<CharMatcher>, c: char) -> bool {
    exists|j: int| 0 <= j < class.len() && matcher_accepts(class[j], c)
}

/// `m` in front of a parse result.
pub open spec fn prepend(m: CharMatcher, r: Option<Seq<CharMatcher>>) -> Option<Seq<CharMatcher>> {
    match r {
        Some(x) => Some(seq![m] + x),
        None => None,
    }
}

/// The matchers of a bracket-class body: `\d` is a digit, `\x` escapes `x`, `a-b` is a
/// range, anything else a single character; a dangling `\` or `a-` fails.
pub open spec fn parse_class_spec(s: Seq<char>) -> Option<Seq<CharMatcher>>
    decreases s.len(),
{
    if s.len() == 0 {
        Some(Seq::empty())
    } else if s[0] == '\\' && s.len() < 2 {
        None
    } else if s[0] == '\\' && s[1] == 'd' {
        prepend(CharMatcher::Digit, parse_class_spec(s.skip(2)))
    } else {
        let k: int = if s[0] == '\\' {
            2
        } else {
            1
        };
        let start = s[k - 1];
        if s.len() > k && s[k] == '-' {
            if s.len() < k + 2 {
                None
            } else {
                prepend(CharMatcher::Range(start, s[k + 1]), parse_class_spec(s.skip(k + 2)))
            }
        } else {
            prepend(CharMatcher::Char(start), parse_class_spec(s.skip(k)))
        }
    }
}

/// `prefix` in front of every matcher list a parse yields.
pub open spec fn prepend_all(prefix: Seq<CharMatcher>, r: Option<Seq<CharMatcher>>) -> Option<Seq<CharMatcher>> {
    match r {
        Some(x) => Some(prefix + x),
        None => None,
    }
}

/// Parses the characters `from..to` of `s` as a bracket-class body.
fn parse_class_range(s: &str, from: usize, to: usize) -> (r: Option<Vec<CharMatcher>>)
    requires
        from <= to <= s@.len(),
    ensures
        r matches Some(v) ==> parse_class_spec(s@.subrange(from as int, to as int)) == Some(v@),
        r is None ==> parse_class_spec(s@.subrange(from as int, to as int)) is None,
{
    let ghost whole = s@.subrange(from as int, to as int);
    let mut out: Vec<CharMatcher> = Vec::new();
    let mut i: usize = from;
    while i < to
        invariant
            from <= i <= to <= s@.len(),
            whole == s@.subrange(from as int, to as int),
            parse_class_spec(whole) == prepend_all(out@, parse_class_spec(s@.subrange(i as int, to as int))),
        decreases to - i,
    {
        let ghost t = s@.subrange(i as int, to as int);
        let c0 = s.get_char(i);
        let k: usize;
        let start: char;
        if c0 == '\\' {
            if i + 1 >= to {
                return None;
            }
            let c1 = s.get_char(i + 1);
            if c1 == 'd' {
                proof {
                    assert(t.skip(2) =~= s@.subrange(i + 2, to as int));
                    assert(prepend_all(out@.push(CharMatcher::Digit), parse_class_spec(t.skip(2)))
                        == prepend_all(out@, parse_class_spec(t)));
                }
                out.push(CharMatcher::Digit);
                i = i + 2;
                continue;
            }
            k = 2;
            start = c1;
        } else {
            k = 1;
            start = c0;
        }
        if i + k < to && s.get_char(i + k) == '-' {
            if i + k + 1 >= to {
                return None;
            }
            let end = s.get_char(i + k + 1);
            proof {
                assert(t.skip(k + 2) =~= s@.subrange(i + k + 2, to as int));
                assert(prepend_all(out@.push(CharMatcher::Range(start, end)), parse_class_spec(t.skip(k + 2)))
                    =~= prepend_all(out@, parse_class_spec(t)));
            }
            out.push(CharMatcher::Range(start, end));
            i = i + k + 2;
        } else {
            proof {
                assert(t.skip(k as int) =~= s@.subrange(i + k, to as int));
                assert(prepend_all(out@.push(CharMatcher::Char(start)), parse_class_spec(t.skip(k as int)))
                    =~= prepend_all(out@, parse_class_spec(t)));
            }
            out.push(CharMatcher::Char(start));
            i = i + k;
        }
    }
    proof {
        assert(s@.subrange(i as int, to as int) =~= Seq::<char>::empty());
        assert(out@ + Seq::<CharMatcher>::empty() =~= out@);
    }
    Some(out)
}

/// Parses a bracket-class body such as `0-9a-f` or `\dX`.
pub fn parse_char_class(class: &str) -> (r: Option<Vec<CharMatcher>>)
    ensures
        r matches Some(v) ==> parse_class_spec(class@) == Some(v@),
        r is None ==> parse_class_spec(class@) is None,
{
    let n = class.unicode_len();
    proof {
        assert(class@.subrange(0, n as int) =~= class@);
    }
    parse_class_range(class, 0, n)
}

/// The part of a pattern that describes one character: a leading `^` and a trailing `$`
/// anchor removed (each when present), then one trailing `*` or `+`.
pub open spec fn pattern_core(p: Seq<char>) -> Seq<char> {
    let p1 = if p.len() > 0 && p[0] == '^' {
        p.drop_first()
    } else {
        p
    };
    let p2 = if p1.len() > 0 && p1.last() == '$' {
        p1.drop_last()
    } else {
        p1
    };
    if p2.len() > 0 && (p2.last() == '*' || p2.last() == '+') {
        p2.drop_last()
    } else {
        p2
    }
}

/// The character class a whole-value pattern allows: `\d`, or a bracket class; `None`
/// for any other pattern (which then accepts everything).
pub open spec fn full_value_class_spec(p: Seq<char>) -> Option<Seq<CharMatcher>> {
    let c = pattern_core(p);
    if c == seq!['\\', 'd'] {
        Some(seq![CharMatcher::Digit])
    } else if c.len() > 0 && c[0] == '[' && c.last() == ']' {
        parse_class_spec(c.subrange(1, c.len() - 1))
    } else {
        None
    }
}

/// The bounds `lo..hi` of the characters of `p` that `pattern_core` keeps.
fn core_bounds(p: &str) -> (r: (usize, usize))
    ensures
        r.0 <= r.1 <= p@.len(),
        p@.subrange(r.0 as int, r.1 as int) == pattern_core(p@),
{
    let n = p.unicode_len();
    let lo1: usize = if n > 0 && p.get_char(0) == '^' {
        1
    } else {
        0
    };
    let ghost p1 = if p@.len() > 0 && p@[0] == '^' {
        p@.drop_first()
    } else {
        p@
    };
    assert(p1 =~= p@.subrange(lo1 as int, n as int));
    let (lo, hi): (usize, usize) = if n > lo1 && p.get_char(n - 1) == '$' {
        (lo1, n - 1)
    } else {
        (lo1, n)
    };
    let ghost p2 = if p1.len() > 0 && p1.last() == '$' {
        p1.drop_last()
    } else {
        p1
    };
    assert(p2 =~= p@.subrange(lo as int, hi as int));
    if hi > lo && (p.get_char(hi - 1) == '*' || p.get_char(hi - 1) == '+') {
        assert(p2.drop_last() =~= p@.subrange(lo as int, hi - 1));
        (lo, hi - 1)
    } else {
        (lo, hi)
    }
}

/// Parses a whole-value pattern such as `^[0-9]*$` or `\d+` into its character class.
pub fn parse_full_value_char_class(pattern: &str) -> (r: Option<Vec<CharMatcher>>)
    ensures
        r matches Some(v) ==> full_value_class_spec(pattern@) == Some(v@),
        r is None ==> full_value_class_spec(pattern@) is None,
{
    let p = pattern;
    let (lo, hi) = core_bounds(p);
    let ghost core = p@.subrange(lo as int, hi as int);
    if hi - lo == 2 && p.get_char(lo) == '\\' && p.get_char(lo + 1) == 'd' {
        assert(core =~= seq!['\\', 'd']);
        let mut v: Vec<CharMatcher> = Vec::new();
        v.push(CharMatcher::Digit);
        assert(v@ =~= seq![CharMatcher::Digit]);
        return Some(v);
    }
    assert(core != seq!['\\', 'd']) by {
        if core == seq!['\\', 'd'] {
            assert(core.len() == 2 && core[0] == '\\' && core[1] == 'd');
        }
    }
    if hi > lo && p.get_char(lo) == '[' && p.get_char(hi - 1) == ']' {
        if hi - lo < 2 {
            return None;
        }
        assert(core.subrange(1, core.len() - 1) =~= p@.subrange(lo + 1, hi - 1));
        parse_class_range(p, lo + 1, hi - 1)
    } else {
        None
    }
}

/// Whether a value is allowed: it is empty, there is no class, or every character is in it.
pub open spec fn value_allowed(class: Option<Seq<CharMatcher>>, v: Seq<char>) -> bool {
    v.len() == 0 || match class {
        None => true,
        Some(c) => forall|i: int| 0 <= i < v.len() ==> class_accepts(c, #[trigger] v[i]),
    }
}

/// An input pattern reduced to the character class it allows.
pub struct PatternMatcher {
    /// The pattern text.
    pub pattern: String,
    /// The allowed characters, when the pattern is a recognised class.
    pub class: Option<Vec<CharMatcher>>,
}

/// The view of an optional matcher list.
pub open spec fn class_view(c: Option<Vec<CharMatcher>>) -> Option<Seq<CharMatcher>> {
    match c {
        Some(v) => Some(v@),
        None => None,
    }
}

impl PatternMatcher {
    /// The matcher for `pattern`.
    pub fn new(pattern: &str) -> (r: PatternMatcher)
        ensures
            r.pattern@ == pattern@,
            class_view(r.class) == full_value_class_spec(pattern@),
    {
        PatternMatcher {
            pattern: String::from_str(pattern),
            class: parse_full_value_char_class(pattern),
        }
    }

    fn accepts_char(class: &Vec<CharMatcher>, c: char) -> (r: bool)
        ensures
            r == class_accepts(class@, c),
    {
        let mut j: usize = 0;
        while j < class.len()
            invariant
                0 <= j <= class@.len(),
                forall|k: int| 0 <= k < j ==> !matcher_accepts(class@[k], c),
            decreases class@.len() - j,
        {
            let ok = match class[j] {
                CharMatcher::Char(e) => e == c,
                CharMatcher::Range(s, e) => (s as u32) <= (c as u32) && (c as u32) <= (e as u32),
                CharMatcher::Digit => '0' <= c && c <= '9',
            };
            if ok {
                return true;
            }
            j = j + 1;
        }
        false
    }

    /// Whether the characters of `value` are allowed.
    pub fn matches_chars(&self, value: &[char]) -> (r: bool)
        ensures
            r == value_allowed(class_view(self.class), value@),
    {
        if value.len() == 0 {
            return true;
        }
        match &self.class {
            None => true,
            Some(class) => {
                let mut i: usize = 0;
                while i < value.len()
                    invariant
                        0 <= i <= value@.len(),
                        class_view(self.class) == Some(class@),
                        forall|k: int| 0 <= k < i ==> class_accepts(class@, #[trigger] value@[k]),
                    decreases value@.len() - i,
                {
                    let c = value[i];
                    if !PatternMatcher::accepts_char(class, c) {
                        assert(value@[i as int] == c);
                        assert(value@.len() > 0);
                        return false;
                    }
                    i = i + 1;
                }
                true
            },
        }
    }

    /// Whether `value` is allowed.
    pub fn matches(&self, value: &str) -> (r: bool)
        ensures
            r == value_allowed(class_view(self.class), value@),
    {
        let n = value.unicode_len();
        if n == 0 {
            return true;
        }
        match &self.class {
            None => true,
            Some(class) => {
                let mut i: usize = 0;
                while i < n
                    invariant
                        0 <= i <= n,
                        n == value@.len(),
                        n > 0,
                        class_view(self.class) == Some(class@),
                        forall|k: int| 0 <= k < i ==> class_accepts(class@, #[trigger] value@[k]),
                    decreases n - i,
                {
                    let c = value.get_char(i);
                    if !PatternMatcher::accepts_char(class, c) {
                        assert(value@[i as int] == c);
                        return false;
                    }
                    i = i + 1;
                }
                true
            },
        }
    }

    /// Two matchers are equal when their pattern texts are.
    pub fn eq(&self, other: &PatternMatcher) -> (r: bool)
        ensures
            r == (self.pattern@ == other.pattern@),
    {
        self.pattern.eq(&other.pattern)
    }
}


/// A key press seen by the one-time-password input.
#[derive(Clone, Copy, PartialEq, Eq, Structural, Debug)]
pub enum OtpKey {
    /// Left arrow.
    ArrowLeft,
    /// Right arrow.
    ArrowRight,
    /// Home.
    Home,
    /// End.
    End,
    /// Backspace.
    Backspace,
    /// Delete.
    Delete,
    /// A key that types exactly one character.
    Character(char),
    /// Any other key.
    Other,
}

/// The outcome of an edit: the new characters and cursor, whether the value changed, and
/// whether it changed to a complete value.
pub struct OtpEdit {
    /// The characters after the edit.
    pub chars: Vec<char>,
    /// The cursor after the edit.
    pub cursor: usize,
    /// Whether the value changed.
    pub changed: bool,
    /// Whether the value changed and now has the full length.
    pub complete: bool,
}

/// The characters, cursor and change flag after a key press.
pub open spec fn keydown_spec(
    disabled: bool,
    max: int,
    chars: Seq<char>,
    cursor: int,
    key: OtpKey,
    ctrl: bool,
    meta: bool,
    alt: bool,
    class: Option<Seq<CharMatcher>>,
) -> (Seq<char>, int, bool) {
    let len = chars.len() as int;
    if disabled || max == 0 {
        (chars, cursor, false)
    } else {
        match key {
            OtpKey::ArrowLeft => (chars, if cursor > 0 {
                cursor - 1
            } else {
                0
            }, false),
            OtpKey::ArrowRight => (chars, if cursor < max {
                cursor + 1
            } else {
                cursor
            }, false),
            OtpKey::Home => (chars, 0, false),
            OtpKey::End => (chars, len, false),
            OtpKey::Backspace => if ctrl || meta {
                if len > 0 {
                    (Seq::empty(), 0, true)
                } else {
                    (chars, cursor, false)
                }
            } else {
                let eff = if cursor < len {
                    cursor
                } else {
                    len
                };
                if eff > 0 {
                    (chars.remove(eff - 1), eff - 1, true)
                } else {
                    (chars, cursor, false)
                }
            },
            OtpKey::Delete => if cursor < len {
                (chars.remove(cursor), cursor, true)
            } else {
                (chars, cursor, false)
            },
            OtpKey::Character(c) => if ctrl || meta || alt {
                (chars, cursor, false)
            } else {
                let at = if cursor < len {
                    cursor
                } else {
                    len
                };
                if at < max {
                    let next0 = if at < len {
                        chars.update(at, c)
                    } else {
                        chars.push(c)
                    };
                    let next = if next0.len() > max {
                        next0.take(max)
                    } else {
                        next0
                    };
                    if !value_allowed(class, next) {
                        (chars, cursor, false)
                    } else {
                        (next, if at + 1 < max {
                            at + 1
                        } else {
                            max
                        }, true)
                    }
                } else {
                    (chars, cursor, false)
                }
            },
            OtpKey::Other => (chars, cursor, false),
        }
    }
}

/// Applies a key press to the value of a one-time-password input of `max` characters.
pub fn otp_keydown(
    disabled: bool,
    max: usize,
    chars: Vec<char>,
    cursor: usize,
    key: OtpKey,
    ctrl: bool,
    meta: bool,
    alt: bool,
    matcher: &PatternMatcher,
) -> (r: OtpEdit)
    ensures
        ({
            let (c, k, ch) = keydown_spec(
                disabled,
                max as int,
                chars@,
                cursor as int,
                key,
                ctrl,
                meta,
                alt,
                class_view(matcher.class),
            );
            &&& r.chars@ == c
            &&& r.cursor == k
            &&& r.changed == ch
            &&& r.complete == (ch && c.len() == max)
        }),
{
    let mut chars = chars;
    if disabled || max == 0 {
        return OtpEdit { chars, cursor, changed: false, complete: false };
    }
    let len = chars.len();
    let mut new_cursor = cursor;
    let mut changed = false;
    match key {
        OtpKey::ArrowLeft => {
            new_cursor = if cursor > 0 {
                cursor - 1
            } else {
                0
            };
        },
        OtpKey::ArrowRight => {
            if cursor < max {
                new_cursor = cursor + 1;
            }
        },
        OtpKey::Home => {
            new_cursor = 0;
        },
        OtpKey::End => {
            new_cursor = len;
        },
        OtpKey::Backspace => {
            if ctrl || meta {
                if len > 0 {
                    chars = Vec::new();
                    new_cursor = 0;
                    changed = true;
                }
            } else {
                let eff = if cursor < len {
                    cursor
                } else {
                    len
                };
                if eff > 0 {
                    chars.remove(eff - 1);
                    new_cursor = eff - 1;
                    changed = true;
                }
            }
        },
        OtpKey::Delete => {
            if cursor < len {
                chars.remove(cursor);
                changed = true;
            }
        },
        OtpKey::Character(c) => {
            if !(ctrl || meta || alt) {
                let at = if cursor < len {
                    cursor
                } else {
                    len
                };
                if at < max {
                    let mut next = chars.clone();
                    if at < len {
                        next.set(at, c);
                    } else {
                        next.push(c);
                    }
                    if next.len() > max {
                        next.truncate(max);
                    }
                    if !matcher.matches_chars(next.as_slice()) {
                        return OtpEdit { chars, cursor, changed: false, complete: false };
                    }
                    chars = next;
                    new_cursor = if at + 1 < max {
                        at + 1
                    } else {
                        max
                    };
                    changed = true;
                }
            }
        },
        OtpKey::Other => {},
    }
    let complete = changed && chars.len() == max;
    OtpEdit { chars, cursor: new_cursor, changed, complete }
}

/// The characters an input event leaves: at most the first `max` of `raw`, unless they are
/// not allowed, in which case nothing changes.
pub open spec fn input_spec(raw: Seq<char>, max: int) -> Seq<char> {
    if raw.len() > max {
        raw.take(max)
    } else {
        raw
    }
}

/// Applies raw input (paste, autofill, IME) to a one-time-password input: `None` when the
/// first `max` characters are not allowed; otherwise those characters, with the cursor
/// after them.
pub fn otp_input(raw: &[char], max: usize, current: &[char], matcher: &PatternMatcher) -> (r: Option<OtpEdit>)
    ensures
        ({
            let f = input_spec(raw@, max as int);
            &&& r is None <==> !value_allowed(class_view(matcher.class), f)
            &&& r matches Some(e) ==> {
                &&& e.chars@ == f
                &&& e.cursor == f.len()
                &&& e.changed == (f != current@)
                &&& e.complete == (f != current@ && max > 0 && f.len() == max)
            }
        }),
{
    let mut filtered: Vec<char> = Vec::new();
    let mut i: usize = 0;
    while i < raw.len() && i < max
        invariant
            0 <= i <= raw@.len(),
            i <= max,
            filtered@ =~= raw@.take(i as int),
        decreases raw@.len() - i,
    {
        filtered.push(raw[i]);
        i = i + 1;
    }
    proof {
        assert(filtered@ =~= input_spec(raw@, max as int));
    }
    if !matcher.matches_chars(filtered.as_slice()) {
        return None;
    }
    let len = filtered.len();
    let mut same = len == current.len();
    let mut k: usize = 0;
    while same && k < len
        invariant
            0 <= k <= len,
            len == filtered@.len(),
            same ==> len == current@.len(),
            same ==> forall|j: int| 0 <= j < k ==> filtered@[j] == current@[j],
            !same ==> filtered@ != current@,
        decreases len - k,
    {
        if filtered[k] != current[k] {
            same = false;
        }
        k = k + 1;
    }
    proof {
        if same {
            assert(filtered@ =~= current@);
        }
    }
    let changed = !same;
    let complete = changed && max > 0 && len == max;
    Some(OtpEdit { chars: filtered, cursor: len, changed, complete })
}

/// The slot that shows the cursor: none unless focused, else the cursor limited to the last slot.
pub fn active_index(focused: bool, max: usize, cursor: usize) -> (r: Option<usize>)
    ensures
        r == (if !focused || max == 0 {
            None
        } else {
            Some(if cursor < max - 1 {
                cursor
            } else {
                (max - 1) as usize
            })
        }),
{
    if !focused || max == 0 {
        return None;
    }
    Some(
        if cursor < max - 1 {
            cursor
        } else {
            max - 1
        },
    )
}

/// A typed character that changes the value leaves a value the pattern allows and no
/// longer than the input; deleting shortens the value; moving the cursor keeps it.
pub proof fn law_keydown_keeps_value_valid(
    disabled: bool,
    max: int,
    chars: Seq<char>,
    cursor: int,
    key: OtpKey,
    ctrl: bool,
    meta: bool,
    alt: bool,
    class: Option<Seq<CharMatcher>>,
)
    requires
        0 <= cursor,
        max >= 0,
    ensures
        ({
            let (c, k, changed) = keydown_spec(disabled, max, chars, cursor, key, ctrl, meta, alt, class);
            &&& (changed && key is Character) ==> value_allowed(class, c) && c.len() <= max
            &&& (changed && (key is Backspace || key is Delete)) ==> c.len() < chars.len()
            &&& !changed ==> c == chars
        }),
{
}

/// Backspace (without ctrl or meta) deletes the character just before the cursor: the
/// characters before it and those from the cursor on are kept, and the cursor moves back
/// onto the deleted place. At the start there is nothing to delete. Delete removes the
/// character at the cursor the same way and leaves the cursor where it is.
pub proof fn law_deletions_remove_one_character(
    max: int,
    chars: Seq<char>,
    cursor: int,
    alt: bool,
    class: Option<Seq<CharMatcher>>,
)
    requires
        0 <= cursor,
        max > 0,
    ensures
        ({
            let e = if cursor < chars.len() {
                cursor
            } else {
                chars.len() as int
            };
            let (c, k, changed) = keydown_spec(false, max, chars, cursor, OtpKey::Backspace, false, false, alt, class);
            &&& e > 0 ==> {
                &&& changed && k == e - 1
                &&& c.len() + 1 == chars.len()
                &&& c.take(e - 1) == chars.take(e - 1)
                &&& c.skip(e - 1) == chars.skip(e)
            }
            &&& e == 0 ==> !changed && c == chars && k == cursor
        }),
        ({
            let (c, k, changed) = keydown_spec(false, max, chars, cursor, OtpKey::Delete, false, false, alt, class);
            &&& cursor < chars.len() ==> {
                &&& changed && k == cursor
                &&& c.len() + 1 == chars.len()
                &&& c.take(cursor) == chars.take(cursor)
                &&& c.skip(cursor) == chars.skip(cursor + 1)
            }
            &&& cursor >= chars.len() ==> !changed && c == chars && k == cursor
        }),
{
    let e = if cursor < chars.len() {
        cursor
    } else {
        chars.len() as int
    };
    if e > 0 {
        let c = chars.remove(e - 1);
        assert(c.take(e - 1) =~= chars.take(e - 1));
        assert(c.skip(e - 1) =~= chars.skip(e));
    }
    if cursor < chars.len() {
        let c = chars.remove(cursor);
        assert(c.take(cursor) =~= chars.take(cursor));
        assert(c.skip(cursor) =~= chars.skip(cursor + 1));
    }
}

/// A typed character (without ctrl, meta or alt) that the input takes is written at the
/// cursor (or appended at the end): it replaces the character there, every character
/// before it is kept, and the cursor moves one place on, up to the input's length.
pub proof fn law_typed_character_lands_at_cursor(
    max: int,
    chars: Seq<char>,
    cursor: int,
    c: char,
    class: Option<Seq<CharMatcher>>,
)
    requires
        0 <= cursor,
        max > 0,
        chars.len() <= max,
    ensures
        ({
            let at = if cursor < chars.len() {
                cursor
            } else {
                chars.len() as int
            };
            let (r, k, changed) = keydown_spec(false, max, chars, cursor, OtpKey::Character(c), false, false, false, class);
            changed ==> {
                &&& at < max
                &&& r[at] == c
                &&& r.take(at) == chars.take(at)
                &&& at < chars.len() ==> r.skip(at + 1) == chars.skip(at + 1)
                &&& r.len() == (if at < chars.len() { chars.len() as int } else { chars.len() + 1int })
                &&& k == at + 1
            }
        }),
{
    let at = if cursor < chars.len() {
        cursor
    } else {
        chars.len() as int
    };
    if at < max {
        if at < chars.len() {
            let n = chars.update(at, c);
            assert(n.take(at) =~= chars.take(at));
            assert(n.skip(at + 1) =~= chars.skip(at + 1));
        } else {
            let n = chars.push(c);
            assert(n.take(at) =~= chars.take(at));
        }
    }
}

/// What input leaves is a prefix of the raw text, no longer than the input allows.
pub proof fn law_input_valid(raw: Seq<char>, max: int)
    requires
        max >= 0,
    ensures
        input_spec(raw, max).len() <= max,
        input_spec(raw, max) == raw.take(input_spec(raw, max).len() as int),
{
    if raw.len() <= max {
        assert(raw.take(raw.len() as int) =~= raw);
    }
}

/// Whether an attribute name labels the input rather than the wrapper: `aria-label` or
/// `aria-labelledby`, spelled with a dash or an underscore.
pub open spec fn is_label_name(n: Seq<char>) -> bool {
    ||| n == seq!['a', 'r', 'i', 'a', '-', 'l', 'a', 'b', 'e', 'l']
    ||| n == seq!['a', 'r', 'i', 'a', '_', 'l', 'a', 'b', 'e', 'l']
    ||| n == seq!['a', 'r', 'i', 'a', '-', 'l', 'a', 'b', 'e', 'l', 'l', 'e', 'd', 'b', 'y']
    ||| n == seq!['a', 'r', 'i', 'a', '_', 'l', 'a', 'b', 'e', 'l', 'l', 'e', 'd', 'b', 'y']
}

/// The attributes that label the input.
pub open spec fn label_attr<T>() -> spec_fn(AttributeView<T>) -> bool {
    |a: AttributeView<T>| is_label_name(a.name)
}

/// The attributes that go to the wrapper.
pub open spec fn wrapper_attr<T>() -> spec_fn(AttributeView<T>) -> bool {
    |a: AttributeView<T>| !is_label_name(a.name)
}

/// Whether `name` labels the input.
fn label_name(name: &str) -> (r: bool)
    ensures
        r == is_label_name(name@),
{
    proof {
        reveal_strlit("aria-label");
        reveal_strlit("aria_label");
        reveal_strlit("aria-labelledby");
        reveal_strlit("aria_labelledby");
        assert("aria-label"@ =~= seq!['a', 'r', 'i', 'a', '-', 'l', 'a', 'b', 'e', 'l']);
        assert("aria_label"@ =~= seq!['a', 'r', 'i', 'a', '_', 'l', 'a', 'b', 'e', 'l']);
        assert("aria-labelledby"@ =~= seq!['a', 'r', 'i', 'a', '-', 'l', 'a', 'b', 'e', 'l', 'l', 'e', 'd', 'b', 'y']);
        assert("aria_labelledby"@ =~= seq!['a', 'r', 'i', 'a', '_', 'l', 'a', 'b', 'e', 'l', 'l', 'e', 'd', 'b', 'y']);
    }
    str_eq(name, "aria-label") || str_eq(name, "aria_label") || str_eq(name, "aria-labelledby")
        || str_eq(name, "aria_labelledby")
}

/// Splits the attributes given to the input component: the labelling ones go to the input
/// element, the others to the wrapper, each keeping their order.
pub fn split_label_attributes<T>(attributes: Vec<Attribute<T>>) -> (r: (Vec<Attribute<T>>, Vec<Attribute<T>>))
    ensures
        attrs_view(r.0@) == attrs_view(attributes@).filter(label_attr()),
        attrs_view(r.1@) == attrs_view(attributes@).filter(wrapper_attr()),
{
    let ghost s = attrs_view(attributes@);
    let mut rest = attributes;
    let mut labels: Vec<Attribute<T>> = Vec::new();
    let mut others: Vec<Attribute<T>> = Vec::new();
    let ghost mut i: int = 0;
    while rest.len() > 0
        invariant
            0 <= i <= s.len(),
            attrs_view(rest@) == s.skip(i),
            attrs_view(labels@) == s.take(i).filter(label_attr()),
            attrs_view(others@) == s.take(i).filter(wrapper_attr()),
        decreases rest@.len(),
    {
        let ghost before = rest@;
        proof {
            assert(attrs_view(before).len() == before.len());
            assert(attrs_view(before)[0] == before[0]@);
            assert(s.skip(i)[0] == s[i]);
        }
        let a = rest.remove(0);
        proof {
            reveal(Seq::filter);
            assert(a@ == s[i]);
            assert forall|k: int| 0 <= k < rest@.len() implies #[trigger] attrs_view(rest@)[k] == s.skip(i + 1)[k] by {
                assert(rest@[k] == before[k + 1]);
                assert(attrs_view(before)[k + 1] == before[k + 1]@);
                assert(s.skip(i)[k + 1] == s.skip(i + 1)[k]);
            }
            assert(attrs_view(rest@) =~= s.skip(i + 1));
            assert(s.take(i + 1).drop_last() =~= s.take(i));
            assert(s.take(i + 1).last() == s[i]);
        }
        if label_name(a.name.as_str()) {
            labels.push(a);
            proof {
                assert(attrs_view(labels@) =~= s.take(i + 1).filter(label_attr()));
                assert(attrs_view(others@) =~= s.take(i + 1).filter(wrapper_attr()));
            }
        } else {
            others.push(a);
            proof {
                assert(attrs_view(labels@) =~= s.take(i + 1).filter(label_attr()));
                assert(attrs_view(others@) =~= s.take(i + 1).filter(wrapper_attr()));
            }
        }
        proof {
            i = i + 1;
        }
    }
    proof {
        assert(s.skip(i).len() == 0);
        assert(s.take(i) =~= s);
    }
    (labels, others)
}

} // verus!
