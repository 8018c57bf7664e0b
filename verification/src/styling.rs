//! Small value types that components turn into attribute text: sides and alignments,
//! checkbox states, SVG view boxes and stroke shapes, scrolling options.
use vstd::prelude::*;
use vstd::string::*;
use crate::text::{decimal, push_str, push_usize};

verus! {

/// The side where content is displayed relative to its trigger.
#[derive(Clone, Copy, PartialEq, Eq, Structural, Debug)]
pub enum ContentSide {
    /// Above the trigger.
    Top,
    /// To the right of the trigger.
    Right,
    /// Below the trigger.
    Bottom,
    /// To the left of the trigger.
    Left,
}

impl ContentSide {
    /// The attribute text of the side.
    pub fn as_str(&self) -> (r: &'static str)
        ensures
            r@ == match *self {
                ContentSide::Top => seq!['t', 'o', 'p'],
                ContentSide::Right => seq!['r', 'i', 'g', 'h', 't'],
                ContentSide::Bottom => seq!['b', 'o', 't', 't', 'o', 'm'],
                ContentSide::Left => seq!['l', 'e', 'f', 't'],
            },
    {
        match self {
            ContentSide::Top => {
                proof {
                    reveal_strlit("top");
                }
                "top"
            },
            ContentSide::Right => {
                proof {
                    reveal_strlit("right");
                }
                "right"
            },
            ContentSide::Bottom => {
                proof {
                    reveal_strlit("bottom");
                }
                "bottom"
            },
            ContentSide::Left => {
                proof {
                    reveal_strlit("left");
                }
                "left"
            },
        }
    }
}

/// The alignment of content relative to its trigger.
#[derive(Clone, Copy, PartialEq, Eq, Structural, Debug)]
pub enum ContentAlign {
    /// Aligned to the start of the trigger.
    Start,
    /// Centred on the trigger.
    Center,
    /// Aligned to the end of the trigger.
    End,
}

impl ContentAlign {
    /// The attribute text of the alignment.
    pub fn as_str(&self) -> (r: &'static str)
        ensures
            r@ == match *self {
                ContentAlign::Start => seq!['s', 't', 'a', 'r', 't'],
                ContentAlign::Center => seq!['c', 'e', 'n', 't', 'e', 'r'],
                ContentAlign::End => seq!['e', 'n', 'd'],
            },
    {
        match self {
            ContentAlign::Start => {
                proof {
                    reveal_strlit("start");
                }
                "start"
            },
            ContentAlign::Center => {
                proof {
                    reveal_strlit("center");
                }
                "center"
            },
            ContentAlign::End => {
                proof {
                    reveal_strlit("end");
                }
                "end"
            },
        }
    }
}

/// The state of a checkbox.
#[derive(Clone, Copy, PartialEq, Eq, Structural, Debug)]
pub enum CheckboxState {
    /// Checked.
    Checked,
    /// Neither checked nor unchecked.
    Indeterminate,
    /// Unchecked.
    Unchecked,
}

impl CheckboxState {
    /// The `aria-checked` text: `true`, `mixed` or `false`.
    pub fn to_aria_checked(self) -> (r: &'static str)
        ensures
            r@ == match self {
                CheckboxState::Checked => seq!['t', 'r', 'u', 'e'],
                CheckboxState::Indeterminate => seq!['m', 'i', 'x', 'e', 'd'],
                CheckboxState::Unchecked => seq!['f', 'a', 'l', 's', 'e'],
            },
    {
        match self {
            CheckboxState::Checked => {
                proof {
                    reveal_strlit("true");
                }
                "true"
            },
            CheckboxState::Indeterminate => {
                proof {
                    reveal_strlit("mixed");
                }
                "mixed"
            },
            CheckboxState::Unchecked => {
                proof {
                    reveal_strlit("false");
                }
                "false"
            },
        }
    }

    /// The `data-state` text: `checked`, `indeterminate` or `unchecked`.
    pub fn to_data_state(self) -> (r: &'static str)
        ensures
            r@ == match self {
                CheckboxState::Checked => seq!['c', 'h', 'e', 'c', 'k', 'e', 'd'],
                CheckboxState::Indeterminate => seq![
                    'i', 'n', 'd', 'e', 't', 'e', 'r', 'm', 'i', 'n', 'a', 't', 'e',
                ],
                CheckboxState::Unchecked => seq!['u', 'n', 'c', 'h', 'e', 'c', 'k', 'e', 'd'],
            },
    {
        match self {
            CheckboxState::Checked => {
                proof {
                    reveal_strlit("checked");
                }
                "checked"
            },
            CheckboxState::Indeterminate => {
                proof {
                    reveal_strlit("indeterminate");
                }
                "indeterminate"
            },
            CheckboxState::Unchecked => {
                proof {
                    reveal_strlit("unchecked");
                }
                "unchecked"
            },
        }
    }

    /// Whether the box counts as checked: every state but `Unchecked`.
    pub fn is_checked(self) -> (r: bool)
        ensures
            r == (self != CheckboxState::Unchecked),
    {
        match self {
            CheckboxState::Unchecked => false,
            _ => true,
        }
    }

    /// The state a click leads to: `Unchecked` becomes `Checked`, anything else
    /// `Unchecked`.
    pub fn not(self) -> (r: CheckboxState)
        ensures
            r == if self == CheckboxState::Unchecked {
                CheckboxState::Checked
            } else {
                CheckboxState::Unchecked
            },
    {
        match self {
            CheckboxState::Unchecked => CheckboxState::Checked,
            _ => CheckboxState::Unchecked,
        }
    }
}

impl From<CheckboxState> for bool {
    /// Whether the state counts as checked: every state but `Unchecked`.
    fn from(value: CheckboxState) -> (r: bool) {
        value.is_checked()
    }
}

impl vstd::std_specs::convert::FromSpecImpl<CheckboxState> for bool {
    open spec fn obeys_from_spec() -> bool {
        true
    }

    open spec fn from_spec(v: CheckboxState) -> bool {
        v != CheckboxState::Unchecked
    }
}

/// The position and size, in user space, of an SVG viewport.
#[derive(Clone, Copy, PartialEq, Eq, Structural, Debug)]
pub struct ViewBox {
    /// The left edge.
    pub min_x: u16,
    /// The top edge.
    pub min_y: u16,
    /// The width.
    pub width: u16,
    /// The height.
    pub height: u16,
}

impl ViewBox {
    /// A view box with top-left corner `(min_x, min_y)` and the given size.
    pub fn new(min_x: u16, min_y: u16, width: u16, height: u16) -> (r: ViewBox)
        ensures
            r == (ViewBox { min_x, min_y, width, height }),
    {
        ViewBox { min_x, min_y, width, height }
    }

    /// The `viewBox` attribute text: the four numbers separated by single spaces.
    pub fn to_string(&self) -> (r: String)
        ensures
            r@ == decimal(self.min_x as nat) + seq![' '] + decimal(self.min_y as nat) + seq![' ']
                + decimal(self.width as nat) + seq![' '] + decimal(self.height as nat),
    {
        let mut out = String::new();
        proof {
            reveal_strlit(" ");
        }
        push_usize(&mut out, self.min_x as usize);
        push_str(&mut out, " ");
        push_usize(&mut out, self.min_y as usize);
        push_str(&mut out, " ");
        push_usize(&mut out, self.width as usize);
        push_str(&mut out, " ");
        push_usize(&mut out, self.height as usize);
        out
    }
}

impl Default for ViewBox {
    fn default() -> (r: ViewBox)
        ensures
            r == (ViewBox { min_x: 0, min_y: 0, width: 24, height: 24 }),
    {
        ViewBox::new(0, 0, 24, 24)
    }
}

/// The shape at the ends of open sub-paths.
#[derive(Clone, Copy, PartialEq, Eq, Structural, Debug)]
pub enum LineCap {
    /// The stroke stops at the endpoints.
    Butt,
    /// The stroke ends in a half circle.
    Round,
    /// The stroke ends in a half square.
    Square,
}

impl LineCap {
    /// The class text of the cap.
    pub fn to_class(self) -> (r: &'static str)
        ensures
            r@ == match self {
                LineCap::Butt => seq!['b', 'u', 't', 't'],
                LineCap::Round => seq!['r', 'o', 'u', 'n', 'd'],
                LineCap::Square => seq!['s', 'q', 'u', 'a', 'r', 'e'],
            },
    {
        match self {
            LineCap::Butt => {
                proof {
                    reveal_strlit("butt");
                }
                "butt"
            },
            LineCap::Round => {
                proof {
                    reveal_strlit("round");
                }
                "round"
            },
            LineCap::Square => {
                proof {
                    reveal_strlit("square");
                }
                "square"
            },
        }
    }
}

impl Default for LineCap {
    fn default() -> (r: LineCap)
        ensures
            r == LineCap::Round,
    {
        LineCap::Round
    }
}

/// The shape where path segments join.
#[derive(Clone, Copy, PartialEq, Eq, Structural, Debug)]
pub enum LineJoin {
    /// Arcs extending the outer edges.
    Arcs,
    /// A bevelled corner.
    Bevel,
    /// A mitred corner.
    Miter,
    /// A mitred corner clipped on very sharp joins.
    MiterClip,
    /// A round corner.
    Round,
}

impl LineJoin {
    /// The class text of the join.
    pub fn to_class(self) -> (r: &'static str)
        ensures
            r@ == match self {
                LineJoin::Arcs => seq!['a', 'r', 'c', 's'],
                LineJoin::Bevel => seq!['b', 'e', 'v', 'e', 'l'],
                LineJoin::Miter => seq!['m', 'i', 't', 'e', 'r'],
                LineJoin::MiterClip => seq!['m', 'i', 't', 'e', 'r', '-', 'c', 'l', 'i', 'p'],
                LineJoin::Round => seq!['r', 'o', 'u', 'n', 'd'],
            },
    {
        match self {
            LineJoin::Arcs => {
                proof {
                    reveal_strlit("arcs");
                }
                "arcs"
            },
            LineJoin::Bevel => {
                proof {
                    reveal_strlit("bevel");
                }
                "bevel"
            },
            LineJoin::Miter => {
                proof {
                    reveal_strlit("miter");
                }
                "miter"
            },
            LineJoin::MiterClip => {
                proof {
                    reveal_strlit("miter-clip");
                }
                "miter-clip"
            },
            LineJoin::Round => {
                proof {
                    reveal_strlit("round");
                }
                "round"
            },
        }
    }
}

impl Default for LineJoin {
    fn default() -> (r: LineJoin)
        ensures
            r == LineJoin::Round,
    {
        LineJoin::Round
    }
}

/// The direction in which scrolling is allowed.
#[derive(Clone, Copy, PartialEq, Eq, Structural, Debug)]
pub enum ScrollDirection {
    /// Vertical only.
    Vertical,
    /// Horizontal only.
    Horizontal,
    /// Both directions.
    Both,
}

impl Default for ScrollDirection {
    fn default() -> (r: ScrollDirection)
        ensures
            r == ScrollDirection::Both,
    {
        ScrollDirection::Both
    }
}

/// How scrollbars are shown.
#[derive(Clone, Copy, PartialEq, Eq, Structural, Debug)]
pub enum ScrollType {
    /// The browser's default.
    Auto,
    /// Always shown.
    Always,
    /// Hidden, with scrolling still possible.
    Hidden,
}

impl Default for ScrollType {
    fn default() -> (r: ScrollType)
        ensures
            r == ScrollType::Auto,
    {
        ScrollType::Auto
    }
}

/// A click always flips whether a checkbox counts as checked, and clicking twice returns a
/// checked or unchecked box to its state (an indeterminate box becomes checked).
pub proof fn law_checkbox_click_flips(s: CheckboxState)
    ensures
        ({
            let t = if s == CheckboxState::Unchecked {
                CheckboxState::Checked
            } else {
                CheckboxState::Unchecked
            };
            let u = if t == CheckboxState::Unchecked {
                CheckboxState::Checked
            } else {
                CheckboxState::Unchecked
            };
            &&& (t != CheckboxState::Unchecked) == !(s != CheckboxState::Unchecked)
            &&& s != CheckboxState::Indeterminate ==> u == s
            &&& s == CheckboxState::Indeterminate ==> u == CheckboxState::Checked
        }),
{
}

} // verus!
