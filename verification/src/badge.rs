//! What a badge shows, the loading state of an avatar image, and the roles of a separator.
use vstd::prelude::*;
use crate::text::{decimal, push_str, push_usize};

verus! {

/// The badge colour used when the given one is not a hexadecimal number.
pub const DEF_COLOR: &'static str = "EB5160";

/// The value of a hexadecimal digit, if `c` is one.
pub open spec fn hex_digit(c: char) -> Option<int> {
    if '0' <= c && c <= '9' {
        Some(c as int - '0' as int)
    } else if 'a' <= c && c <= 'f' {
        Some(c as int - 'a' as int + 10)
    } else if 'A' <= c && c <= 'F' {
        Some(c as int - 'A' as int + 10)
    } else {
        None
    }
}

/// The value of a run of hexadecimal digits, if every character is one.
pub open spec fn hex_value(s: Seq<char>) -> Option<int>
    decreases s.len(),
{
    if s.len() == 0 {
        Some(0)
    } else {
        match (hex_value(s.drop_last()), hex_digit(s.last())) {
            (Some(v), Some(d)) => Some(v * 16 + d),
            _ => None,
        }
    }
}

/// What `u32::from_str_radix(s, 16)` accepts: an optional `+`, then at least one
/// hexadecimal digit, the value fitting in `u32`.
pub open spec fn hex_u32_spec(s: Seq<char>) -> Option<int> {
    let digits = if s.len() > 0 && s[0] == '+' {
        s.drop_first()
    } else {
        s
    };
    if digits.len() == 0 {
        None
    } else {
        match hex_value(digits) {
            Some(v) => if v <= u32::MAX {
                Some(v)
            } else {
                None
            },
            None => None,
        }
    }
}

/// The digits of a longer run of hexadecimal digits are worth at least those of its prefix.
proof fn lemma_hex_value_prefix(t: Seq<char>, k: int)
    requires
        0 <= k <= t.len(),
        hex_value(t) is Some,
    ensures
        hex_value(t.take(k)) is Some,
        hex_value(t.take(k))->0 <= hex_value(t)->0,
    decreases t.len(),
{
    if k < t.len() {
        let u = t.drop_last();
        lemma_hex_value_prefix(u, k);
        assert(u.take(k) =~= t.take(k));
        lemma_hex_value_nonneg(u);
    } else {
        assert(t.take(k) =~= t);
    }
}

proof fn lemma_hex_value_nonneg(t: Seq<char>)
    requires
        hex_value(t) is Some,
    ensures
        hex_value(t)->0 >= 0,
    decreases t.len(),
{
    if t.len() > 0 {
        lemma_hex_value_nonneg(t.drop_last());
    }
}

/// Reads `s` as `u32::from_str_radix(s, 16)` does: an optional `+`, then one or more
/// hexadecimal digits whose value fits in `u32`.
fn parse_hex_u32(s: &str) -> (r: Option<u32>)
    ensures
        match hex_u32_spec(s@) {
            Some(v) => r == Some(v as u32),
            None => r is None,
        },
{
    let n = s.unicode_len();
    let start: usize = if n > 0 && s.get_char(0) == '+' {
        1
    } else {
        0
    };
    let ghost digits = if s@.len() > 0 && s@[0] == '+' {
        s@.drop_first()
    } else {
        s@
    };
    if start == n {
        proof {
            assert(digits.len() == 0);
        }
        return None;
    }
    proof {
        assert(digits =~= s@.subrange(start as int, n as int));
        assert(s@.subrange(start as int, start as int) =~= Seq::<char>::empty());
    }
    let mut v: u64 = 0;
    let mut i: usize = start;
    while i < n
        invariant
            start <= i <= n,
            n == s@.len(),
            start < n,
            digits =~= s@.subrange(start as int, n as int),
            digits == (if s@.len() > 0 && s@[0] == '+' {
                s@.drop_first()
            } else {
                s@
            }),
            digits.len() > 0,
            hex_value(s@.subrange(start as int, i as int)) == Some(v as int),
            v <= u32::MAX,
        decreases n - i,
    {
        let c = s.get_char(i);
        let ghost prefix = s@.subrange(start as int, i + 1);
        proof {
            assert(prefix.drop_last() =~= s@.subrange(start as int, i as int));
            assert(prefix.last() == c);
            assert(digits.take(i + 1 - start) =~= prefix);
        }
        let d: u64 = if '0' <= c && c <= '9' {
            (c as u64) - ('0' as u64)
        } else if 'a' <= c && c <= 'f' {
            (c as u64) - ('a' as u64) + 10
        } else if 'A' <= c && c <= 'F' {
            (c as u64) - ('A' as u64) + 10
        } else {
            proof {
                assert(hex_digit(c) is None);
                assert(hex_value(prefix) is None);
                if hex_value(digits) is Some {
                    lemma_hex_value_prefix(digits, i + 1 - start);
                }
            }
            return None;
        };
        proof {
            assert(hex_digit(c) == Some(d as int));
        }
        v = v * 16 + d;
        proof {
            assert(hex_value(prefix) == Some(v as int));
        }
        if v > 0xffff_ffffu64 {
            proof {
                if hex_value(digits) is Some {
                    lemma_hex_value_prefix(digits, i + 1 - start);
                }
            }
            return None;
        }
        i = i + 1;
    }
    proof {
        assert(s@.subrange(start as int, n as int) =~= digits);
    }
    Some(v as u32)
}

/// The settings of a badge.
pub struct BadgeProps {
    /// The number to show.
    pub count: u32,
    /// Above this number the badge shows this number followed by `+`.
    pub overflow_count: u32,
    /// Whether the badge is a dot without text.
    pub dot: bool,
    /// Whether the badge shows when the count is zero.
    pub show_zero: bool,
    /// The colour, as hexadecimal digits.
    pub color: String,
}

/// What a badge shows.
pub struct BadgeRender {
    /// The text.
    pub text: String,
    /// Whether the text gets padding (it is longer than one character).
    pub padding: bool,
    /// Whether the badge is a dot.
    pub dot: bool,
    /// The colour, as hexadecimal digits.
    pub color: String,
    /// Whether the badge shows at all.
    pub visible: bool,
}

/// The text of a badge: nothing for a dot, the overflow count and `+` when the count is
/// above it, else the count.
pub open spec fn badge_text_spec(count: u32, overflow_count: u32, dot: bool) -> Seq<char> {
    if dot {
        Seq::empty()
    } else if overflow_count < count {
        decimal(overflow_count as nat) + seq!['+']
    } else {
        decimal(count as nat)
    }
}

/// The decisions of a badge: its text, padding, colour and whether it shows.
pub fn badge(props: &BadgeProps) -> (r: BadgeRender)
    ensures
        r.text@ == badge_text_spec(props.count, props.overflow_count, props.dot),
        r.padding == (r.text@.len() > 1),
        r.dot == props.dot,
        r.color@ == if hex_u32_spec(props.color@) is Some {
            props.color@
        } else {
            DEF_COLOR@
        },
        r.visible == (props.count > 0 || props.show_zero),
{
    let mut text = String::new();
    if !props.dot {
        if props.overflow_count < props.count {
            push_usize(&mut text, props.overflow_count as usize);
            proof {
                reveal_strlit("+");
            }
            push_str(&mut text, "+");
        } else {
            push_usize(&mut text, props.count as usize);
        }
    }
    let padding = text.unicode_len() > 1;
    let color = match parse_hex_u32(props.color.as_str()) {
        Some(_) => props.color.clone(),
        None => DEF_COLOR.to_string(),
    };
    BadgeRender { text, padding, dot: props.dot, color, visible: props.count > 0 || props.show_zero }
}

/// The loading state of an avatar's image.
#[derive(Clone, Copy, PartialEq, Eq, Structural, Debug)]
pub enum AvatarState {
    /// The image is loading.
    Loading,
    /// The image loaded.
    Loaded,
    /// The image failed to load.
    Error,
    /// There is no image.
    Empty,
}

impl AvatarState {
    /// The `data-state` text.
    pub fn as_str(self) -> (r: &'static str)
        ensures
            r@ == match self {
                AvatarState::Loading => seq!['l', 'o', 'a', 'd', 'i', 'n', 'g'],
                AvatarState::Loaded => seq!['l', 'o', 'a', 'd', 'e', 'd'],
                AvatarState::Error => seq!['e', 'r', 'r', 'o', 'r'],
                AvatarState::Empty => seq!['e', 'm', 'p', 't', 'y'],
            },
    {
        match self {
            AvatarState::Loading => {
                proof {
                    reveal_strlit("loading");
                }
                "loading"
            },
            AvatarState::Loaded => {
                proof {
                    reveal_strlit("loaded");
                }
                "loaded"
            },
            AvatarState::Error => {
                proof {
                    reveal_strlit("error");
                }
                "error"
            },
            AvatarState::Empty => {
                proof {
                    reveal_strlit("empty");
                }
                "empty"
            },
        }
    }
}

/// Shared state of an avatar: the image's state and which parts it has.
pub struct AvatarCtx {
    /// The image's loading state.
    pub state: AvatarState,
    /// Whether a fallback part was given.
    pub has_fallback_child: bool,
    /// Whether an image part was given.
    pub has_image_child: bool,
}

impl AvatarCtx {
    /// An avatar without parts: there is no image.
    pub fn new() -> (r: AvatarCtx)
        ensures
            r == (AvatarCtx { state: AvatarState::Empty, has_fallback_child: false, has_image_child: false }),
    {
        AvatarCtx { state: AvatarState::Empty, has_fallback_child: false, has_image_child: false }
    }

    /// An image part mounted: it starts loading.
    pub fn image_mounted(&mut self)
        ensures
            *final(self) == (AvatarCtx { state: AvatarState::Loading, has_image_child: true, ..*old(self) }),
    {
        self.has_image_child = true;
        self.state = AvatarState::Loading;
    }

    /// A fallback part mounted.
    pub fn fallback_mounted(&mut self)
        ensures
            *final(self) == (AvatarCtx { has_fallback_child: true, ..*old(self) }),
    {
        self.has_fallback_child = true;
    }

    /// The image loaded; returns the new state for the change callback.
    pub fn image_loaded(&mut self) -> (r: AvatarState)
        ensures
            r == AvatarState::Loaded,
            *final(self) == (AvatarCtx { state: AvatarState::Loaded, ..*old(self) }),
    {
        self.state = AvatarState::Loaded;
        AvatarState::Loaded
    }

    /// The image failed to load; returns the new state for the change callback.
    pub fn image_failed(&mut self) -> (r: AvatarState)
        ensures
            r == AvatarState::Error,
            *final(self) == (AvatarCtx { state: AvatarState::Error, ..*old(self) }),
    {
        self.state = AvatarState::Error;
        AvatarState::Error
    }

    /// Whether the fallback shows: the image failed or there is none.
    pub fn show_fallback(&self) -> (r: bool)
        ensures
            r == (self.state == AvatarState::Error || self.state == AvatarState::Empty),
    {
        self.state == AvatarState::Error || self.state == AvatarState::Empty
    }

    /// Whether the built-in fallback shows: a fallback is due, none was given, and an image
    /// part was.
    pub fn show_default_fallback(&self) -> (r: bool)
        ensures
            r == ((self.state == AvatarState::Error || self.state == AvatarState::Empty)
                && !self.has_fallback_child && self.has_image_child),
    {
        self.show_fallback() && !self.has_fallback_child && self.has_image_child
    }

    /// Whether the image shows: unless it failed.
    pub fn show_image(&self) -> (r: bool)
        ensures
            r == (self.state != AvatarState::Error),
    {
        self.state != AvatarState::Error
    }
}

/// The `role` of a separator: `none` when decorative, else `separator`.
pub fn separator_role(decorative: bool) -> (r: &'static str)
    ensures
        r@ == if decorative {
            seq!['n', 'o', 'n', 'e']
        } else {
            seq!['s', 'e', 'p', 'a', 'r', 'a', 't', 'o', 'r']
        },
{
    if decorative {
        proof {
            reveal_strlit("none");
        }
        "none"
    } else {
        proof {
            reveal_strlit("separator");
        }
        "separator"
    }
}

/// The `aria-orientation` of a separator: none when decorative, else `horizontal` or
/// `vertical`.
pub fn separator_orientation(horizontal: bool, decorative: bool) -> (r: Option<&'static str>)
    ensures
        match r {
            Some(s) => !decorative && s@ == if horizontal {
                seq!['h', 'o', 'r', 'i', 'z', 'o', 'n', 't', 'a', 'l']
            } else {
                seq!['v', 'e', 'r', 't', 'i', 'c', 'a', 'l']
            },
            None => decorative,
        },
{
    if decorative {
        return None;
    }
    if horizontal {
        proof {
            reveal_strlit("horizontal");
        }
        Some("horizontal")
    } else {
        proof {
            reveal_strlit("vertical");
        }
        Some("vertical")
    }
}

} // verus!
