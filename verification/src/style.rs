//! Widget configuration tables: the button styles and sizes, their layout
//! numbers, and the plain shape values leaf content is described by.  Colors
//! and fonts are opaque values here; resolving them belongs to the theme
//! layer outside the core.

use vstd::prelude::*;
use crate::custom::CustomRule;
use crate::fsm::{ButtonFsm, ButtonState};
use crate::event::MouseEvent;
use crate::overlay::{Padding, Size};

verus! {

/// An RGBA color value; the core never interprets it.
#[derive(Clone, Copy, Debug, PartialEq, Eq, Structural)]
pub struct Color(pub u8, pub u8, pub u8, pub u8);

/// The text roles a theme resolves to a color and font.
#[derive(Clone, Copy, Debug, PartialEq, Eq, Structural)]
pub enum TextStyle {
    Heading,
    Primary,
    Secondary,
    Error,
    Keyboard,
    Label(Color),
}

/// The text sizes a theme resolves to font metrics.
#[derive(Clone, Copy, Debug, PartialEq, Eq, Structural)]
pub enum TextSize {
    H3,
    H4,
    H5,
    Lg,
    Md,
    Sm,
}

/// The looks a button comes in.
#[derive(Clone, Copy, Debug, PartialEq, Eq, Structural)]
pub enum ButtonStyle {
    Primary,
    Secondary,
    /// The understated look (the ghost style).
    Tertiary,
}

/// How a button takes horizontal space.
#[derive(Clone, Copy, Debug, PartialEq, Eq, Structural)]
pub enum ButtonWidth {
    /// Hug the content (match the content child's negotiated width).
    Fit,
    /// Take whatever is offered.
    Fill,
}

impl ButtonWidth {
    /// The size rule the button's own overlay uses on the horizontal axis:
    /// hugging matches the content child, filling accepts anything.
    pub fn get(&self) -> (r: Size)
        ensures
            r == match self {
                ButtonWidth::Fit => Size::Custom(CustomRule::MatchChild(1)),
                ButtonWidth::Fill => Size::Fill,
            },
    {
        match self {
            ButtonWidth::Fit => Size::Custom(CustomRule::MatchChild(1)),
            ButtonWidth::Fill => Size::Fill,
        }
    }
}

/// The sizes a button comes in, with their layout numbers.
#[derive(Clone, Copy, Debug, PartialEq, Eq, Structural)]
pub enum ButtonSize {
    Large,
    Medium,
}

impl ButtonSize {
    /// (content spacing, height, content padding) of the button body.
    pub fn get(&self) -> (r: (u32, u32, Padding))
        ensures
            r == match self {
                ButtonSize::Medium => (4u32, 32u32, Padding(12, 0, 12, 0)),
                ButtonSize::Large => (12u32, 48u32, Padding(24, 0, 24, 0)),
            },
    {
        match self {
            ButtonSize::Medium => (4, 32, Padding(12, 0, 12, 0)),
            ButtonSize::Large => (12, 48, Padding(24, 0, 24, 0)),
        }
    }

    /// The text size of the button's label.
    pub fn font(&self) -> (r: TextSize)
        ensures
            r == match self {
                ButtonSize::Medium => TextSize::Md,
                ButtonSize::Large => TextSize::Lg,
            },
    {
        match self {
            ButtonSize::Medium => TextSize::Md,
            ButtonSize::Large => TextSize::Lg,
        }
    }

    /// The size of an icon beside the label.
    pub fn icon(&self) -> (r: u32)
        ensures
            r == match self {
                ButtonSize::Medium => 16u32,
                ButtonSize::Large => 24u32,
            },
    {
        match self {
            ButtonSize::Medium => 16,
            ButtonSize::Large => 24,
        }
    }

    /// (outer size, inner icon size, corner radius) of an icon-only button.
    pub fn icon_button(&self, style: ButtonStyle) -> (r: (u32, u32, u32))
        ensures
            r == match (style, self) {
                (ButtonStyle::Secondary, ButtonSize::Large) => (52u32, 32u32, 12u32),
                (ButtonStyle::Secondary, ButtonSize::Medium) => (36u32, 20u32, 8u32),
                (ButtonStyle::Tertiary, ButtonSize::Large) => (52u32, 48u32, 12u32),
                (ButtonStyle::Tertiary, ButtonSize::Medium) => (36u32, 32u32, 8u32),
                (ButtonStyle::Primary, ButtonSize::Large) => (52u32, 48u32, 12u32),
                (ButtonStyle::Primary, ButtonSize::Medium) => (36u32, 32u32, 8u32),
            },
    {
        match (style, self) {
            (ButtonStyle::Secondary, ButtonSize::Large) => (52, 32, 12),
            (ButtonStyle::Secondary, ButtonSize::Medium) => (36, 20, 8),
            (ButtonStyle::Tertiary, ButtonSize::Large) => (52, 48, 12),
            (ButtonStyle::Tertiary, ButtonSize::Medium) => (36, 32, 8),
            (ButtonStyle::Primary, ButtonSize::Large) => (52, 48, 12),
            (ButtonStyle::Primary, ButtonSize::Medium) => (36, 32, 8),
        }
    }
}

/// The looks an avatar's icon badge comes in; the theme resolves each to a
/// pair of colors.
#[derive(Clone, Copy, Debug, PartialEq, Eq, Structural)]
pub enum AvatarIconStyle {
    Primary,
    Secondary,
    Brand,
    Success,
    Warning,
    Danger,
}

/// The shapes leaf content is made of.
#[derive(Clone, Copy, Debug, PartialEq, Eq, Structural)]
pub enum ShapeKind {
    Ellipse,
    Rectangle,
    /// Rounded, with this corner radius.
    RoundedRectangle(u32),
}

/// One drawable shape: its kind, outline stroke width (zero for filled),
/// extent, and color.
#[derive(Clone, Copy, Debug, PartialEq)]
pub struct Shape {
    pub kind: ShapeKind,
    pub stroke: u32,
    pub size: (u32, u32),
    pub color: Color,
}

/// A circle builder: a round shape of a given diameter, optionally with a
/// proportional outline.
pub struct Circle;

impl Circle {
    /// A circle of diameter `size`; outlined circles get a stroke of six
    /// hundredths of the diameter.
    #[allow(clippy::new_ret_no_self)]
    pub fn new(size: u32, color: Color, outlined: bool) -> (r: Shape)
        ensures
            r.kind == ShapeKind::Ellipse,
            r.size == (size, size),
            r.color == color,
            r.stroke as int == if outlined {
                size as int * 6 / 100
            } else {
                0
            },
    {
        let stroke: u32 = if outlined {
            proof {
                assert(size as int * 6 / 100 <= size as int) by (nonlinear_arith)
                    requires
                        size as int >= 0,
                ;
                assert(size as int * 6 >= 0) by (nonlinear_arith)
                    requires
                        size as int >= 0,
                ;
            }
            ((size as u64 * 6) / 100) as u32
        } else {
            0
        };
        Shape { kind: ShapeKind::Ellipse, stroke, size: (size, size), color }
    }
}

/// A ghost-style clickable: the plain interaction machine under a ghost
/// look, as the navigation and keypad buttons use it.
#[derive(Clone, Copy, Debug)]
pub struct GhostButton {
    pub style: ButtonStyle,
    pub fsm: ButtonFsm,
}

impl GhostButton {
    /// A navigation entry: starts Selected when it is the active root.
    pub fn navigation(is_selected: bool, mobile: bool) -> (r: GhostButton)
        ensures
            r.style == ButtonStyle::Tertiary,
            r.fsm.state == if is_selected {
                ButtonState::Selected
            } else {
                ButtonState::Default
            },
            r.fsm.mobile == mobile,
    {
        GhostButton {
            style: ButtonStyle::Tertiary,
            fsm: ButtonFsm {
                state: if is_selected {
                    ButtonState::Selected
                } else {
                    ButtonState::Default
                },
                mobile,
            },
        }
    }

    /// A keypad key: always starts at rest.
    pub fn keypad(mobile: bool) -> (r: GhostButton)
        ensures
            r.style == ButtonStyle::Tertiary,
            r.fsm.state == ButtonState::Default,
            r.fsm.mobile == mobile,
    {
        GhostButton { style: ButtonStyle::Tertiary, fsm: ButtonFsm::new(false, mobile) }
    }

    /// Feeds one pointer event through the underlying machine.
    pub fn handle(&mut self, e: &MouseEvent) -> (fired: bool)
        ensures
            (final(self).fsm.state, fired) == crate::fsm::spec_step(
                old(self).fsm.state,
                *e,
                old(self).fsm.mobile,
            ),
            final(self).fsm.mobile == old(self).fsm.mobile,
            final(self).style == old(self).style,
    {
        self.fsm.handle(e)
    }
}

} // verus!
