//! The scene model: identifiers, transforms, shapes, styles and the derived
//! boxes and handles.

use crate::fixed::Fixed;
use vstd::prelude::*;
use vstd::string::StringExecFns;

verus! {

/// Identifier of an entity; unique within its document.
#[derive(Clone, Copy, PartialEq, Eq, Hash, Debug, Structural)]
pub struct EntityId(pub u64);

/// The character of the decimal digit `d`.
pub open spec fn digit_char(d: nat) -> char {
    if d == 0 {
        '0'
    } else if d == 1 {
        '1'
    } else if d == 2 {
        '2'
    } else if d == 3 {
        '3'
    } else if d == 4 {
        '4'
    } else if d == 5 {
        '5'
    } else if d == 6 {
        '6'
    } else if d == 7 {
        '7'
    } else if d == 8 {
        '8'
    } else {
        '9'
    }
}

/// The number `n` written in decimal digits, without leading zeros.
pub open spec fn decimal(n: nat) -> Seq<char>
    decreases n,
{
    if n < 10 {
        seq![digit_char(n)]
    } else {
        decimal(n / 10).push(digit_char(n % 10))
    }
}

/// The text of one decimal digit.
fn digit_text(d: u64) -> (text: &'static str)
    requires
        d < 10,
    ensures
        text@ == seq![digit_char(d as nat)],
{
    proof {
        reveal_strlit("0");
        reveal_strlit("1");
        reveal_strlit("2");
        reveal_strlit("3");
        reveal_strlit("4");
        reveal_strlit("5");
        reveal_strlit("6");
        reveal_strlit("7");
        reveal_strlit("8");
        reveal_strlit("9");
    }
    let text = if d == 0 {
        "0"
    } else if d == 1 {
        "1"
    } else if d == 2 {
        "2"
    } else if d == 3 {
        "3"
    } else if d == 4 {
        "4"
    } else if d == 5 {
        "5"
    } else if d == 6 {
        "6"
    } else if d == 7 {
        "7"
    } else if d == 8 {
        "8"
    } else {
        "9"
    };
    assert(text@ =~= seq![digit_char(d as nat)]);
    text
}

impl EntityId {
    /// The identifier as text: its number in decimal digits.
    pub fn to_string(&self) -> (text: String)
        ensures
            text@ == decimal(self.0 as nat),
    {
        let mut n: u64 = self.0;
        let mut text = String::from_str(digit_text(n % 10));
        n = n / 10;
        while n > 0
            invariant
                decimal(self.0 as nat) == (if n > 0 {
                    decimal(n as nat)
                } else {
                    Seq::<char>::empty()
                }) + text@,
            decreases n,
        {
            let digit = digit_text(n % 10);
            proof {
                let rest = text@;
                if n >= 10 {
                    assert(decimal(n as nat) + rest =~= decimal((n / 10) as nat) + (digit@ + rest));
                } else {
                    assert(decimal(n as nat) + rest =~= Seq::<char>::empty() + (digit@ + rest));
                }
            }
            text = String::from_str(digit).concat(text.as_str());
            n = n / 10;
        }
        assert(Seq::<char>::empty() + text@ =~= text@);
        text
    }
}

/// Placement of an entity: position, rotation in radians and a scale per axis.
#[derive(Clone, Copy, PartialEq, Eq, Debug, Structural)]
pub struct Transform {
    pub x: Fixed,
    pub y: Fixed,
    pub rotation: Fixed,
    pub scale_x: Fixed,
    pub scale_y: Fixed,
}

impl Transform {
    /// The transform at the origin with no rotation and scale one on both
    /// axes.
    pub open spec fn identity() -> Transform {
        Transform {
            x: Fixed { raw: 0 },
            y: Fixed { raw: 0 },
            rotation: Fixed { raw: 0 },
            scale_x: Fixed { raw: 1000 },
            scale_y: Fixed { raw: 1000 },
        }
    }

    /// The identity transform moved to `(x, y)`.
    pub open spec fn spec_at(x: Fixed, y: Fixed) -> Transform {
        Transform { x, y, ..Transform::identity() }
    }

    pub fn at(x: Fixed, y: Fixed) -> (r: Transform)
        ensures
            r == Transform::spec_at(x, y),
    {
        Transform { x, y, rotation: Fixed::zero(), scale_x: Fixed::one(), scale_y: Fixed::one() }
    }
}

impl Default for Transform {
    /// The default scale is one, never zero: a zero scale would collapse
    /// every shape.
    fn default() -> (r: Transform)
        ensures
            r == Transform::identity(),
    {
        Transform::at(Fixed::zero(), Fixed::zero())
    }
}

/// Red, green, blue and alpha, each between zero and one.
#[derive(Clone, Copy, PartialEq, Eq, Debug, Structural)]
pub struct Color(pub Fixed, pub Fixed, pub Fixed, pub Fixed);

impl Default for Color {
    fn default() -> (r: Color)
        ensures
            r == Color(Fixed { raw: 0 }, Fixed { raw: 0 }, Fixed { raw: 0 }, Fixed { raw: 0 }),
    {
        Color(Fixed::zero(), Fixed::zero(), Fixed::zero(), Fixed::zero())
    }
}

#[derive(Clone, Copy, PartialEq, Eq, Debug, Structural)]
pub enum StrokeCap {
    Butt,
    Square,
    Round,
}

impl Default for StrokeCap {
    fn default() -> (r: StrokeCap)
        ensures
            r == StrokeCap::Butt,
    {
        StrokeCap::Butt
    }
}

#[derive(Clone, Copy, PartialEq, Eq, Debug, Structural)]
pub enum StrokeJoin {
    Miter,
    Bevel,
    Round,
}

impl Default for StrokeJoin {
    fn default() -> (r: StrokeJoin)
        ensures
            r == StrokeJoin::Miter,
    {
        StrokeJoin::Miter
    }
}

/// How an entity is painted. A missing fill or stroke skips that pass.
#[derive(Clone, PartialEq, Eq, Debug)]
pub struct Style {
    pub fill: Option<Color>,
    pub stroke: Option<Color>,
    pub stroke_width: Fixed,
    pub opacity: Fixed,
    pub stroke_cap: StrokeCap,
    pub stroke_join: StrokeJoin,
    pub dash: Vec<Fixed>,
    pub dash_offset: Fixed,
}

/// A [`Style`] with its dash pattern as a sequence.
pub struct StyleView {
    pub fill: Option<Color>,
    pub stroke: Option<Color>,
    pub stroke_width: Fixed,
    pub opacity: Fixed,
    pub stroke_cap: StrokeCap,
    pub stroke_join: StrokeJoin,
    pub dash: Seq<Fixed>,
    pub dash_offset: Fixed,
}

impl View for Style {
    type V = StyleView;

    open spec fn view(&self) -> StyleView {
        StyleView {
            fill: self.fill,
            stroke: self.stroke,
            stroke_width: self.stroke_width,
            opacity: self.opacity,
            stroke_cap: self.stroke_cap,
            stroke_join: self.stroke_join,
            dash: self.dash@,
            dash_offset: self.dash_offset,
        }
    }
}

impl Style {
    /// No fill, no stroke, zero width and opacity, butt caps, miter joins and
    /// no dashes.
    pub open spec fn plain() -> StyleView {
        StyleView {
            fill: None,
            stroke: None,
            stroke_width: Fixed { raw: 0 },
            opacity: Fixed { raw: 0 },
            stroke_cap: StrokeCap::Butt,
            stroke_join: StrokeJoin::Miter,
            dash: Seq::empty(),
            dash_offset: Fixed { raw: 0 },
        }
    }
}

impl Default for Style {
    fn default() -> (r: Style)
        ensures
            r@ == Style::plain(),
    {
        Style {
            fill: None,
            stroke: None,
            stroke_width: Fixed::zero(),
            opacity: Fixed::zero(),
            stroke_cap: StrokeCap::Butt,
            stroke_join: StrokeJoin::Miter,
            dash: Vec::new(),
            dash_offset: Fixed::zero(),
        }
    }
}

/// The geometry of an entity, relative to its transform.
///
/// A rectangle has its corner at the transform's position, an ellipse its
/// centre; a line starts there and ends at `(x2, y2)`; a polygon lists its
/// vertices.
#[derive(Clone, PartialEq, Eq, Debug)]
pub enum Shape {
    Rect { w: Fixed, h: Fixed },
    Ellipse { rx: Fixed, ry: Fixed },
    Line { x2: Fixed, y2: Fixed },
    Polygon { points: Vec<(Fixed, Fixed)> },
}

/// A [`Shape`] with its vertices as a sequence.
pub enum ShapeView {
    Rect { w: Fixed, h: Fixed },
    Ellipse { rx: Fixed, ry: Fixed },
    Line { x2: Fixed, y2: Fixed },
    Polygon { points: Seq<(Fixed, Fixed)> },
}

impl View for Shape {
    type V = ShapeView;

    open spec fn view(&self) -> ShapeView {
        match *self {
            Shape::Rect { w, h } => ShapeView::Rect { w, h },
            Shape::Ellipse { rx, ry } => ShapeView::Ellipse { rx, ry },
            Shape::Line { x2, y2 } => ShapeView::Line { x2, y2 },
            Shape::Polygon { points } => ShapeView::Polygon { points: points@ },
        }
    }
}

#[derive(Clone, Copy, PartialEq, Eq, Debug, Structural)]
pub struct Vec2(pub Fixed, pub Fixed);

impl Default for Vec2 {
    fn default() -> (r: Vec2)
        ensures
            r == Vec2(Fixed { raw: 0 }, Fixed { raw: 0 }),
    {
        Vec2(Fixed::zero(), Fixed::zero())
    }
}

#[derive(Clone, Copy, PartialEq, Eq, Debug, Structural)]
pub struct Rect {
    pub x: Fixed,
    pub y: Fixed,
    pub w: Fixed,
    pub h: Fixed,
}

impl Default for Rect {
    fn default() -> (r: Rect)
        ensures
            r == (Rect { x: Fixed { raw: 0 }, y: Fixed { raw: 0 }, w: Fixed { raw: 0 }, h: Fixed { raw: 0 } }),
    {
        Rect { x: Fixed::zero(), y: Fixed::zero(), w: Fixed::zero(), h: Fixed::zero() }
    }
}

#[derive(Clone, Copy, PartialEq, Eq, Debug, Structural)]
pub enum PathCommand {
    MoveTo(Fixed, Fixed),
    LineTo(Fixed, Fixed),
    QuadTo { cx: Fixed, cy: Fixed, x: Fixed, y: Fixed },
    CubicTo { c1x: Fixed, c1y: Fixed, c2x: Fixed, c2y: Fixed, x: Fixed, y: Fixed },
    Close,
}

#[derive(Clone, PartialEq, Eq, Debug)]
pub struct Path {
    pub commands: Vec<PathCommand>,
}

impl Default for Path {
    fn default() -> (r: Path)
        ensures
            r.commands@.len() == 0,
    {
        Path { commands: Vec::new() }
    }
}

#[derive(Clone, PartialEq, Eq, Debug)]
pub struct TextSpan {
    pub text: String,
    pub color: Color,
    pub size: Fixed,
    pub font_family: Option<String>,
    pub weight: Option<u16>,
}

#[derive(Clone, Copy, PartialEq, Eq, Debug, Structural)]
pub struct TextMetrics {
    pub width: Fixed,
    pub ascent: Fixed,
    pub descent: Fixed,
    pub line_gap: Fixed,
}

impl Default for TextMetrics {
    fn default() -> (r: TextMetrics)
        ensures
            r == (TextMetrics {
                width: Fixed { raw: 0 },
                ascent: Fixed { raw: 0 },
                descent: Fixed { raw: 0 },
                line_gap: Fixed { raw: 0 },
            }),
    {
        TextMetrics {
            width: Fixed::zero(),
            ascent: Fixed::zero(),
            descent: Fixed::zero(),
            line_gap: Fixed::zero(),
        }
    }
}

#[derive(Clone, Copy, PartialEq, Eq, Hash, Debug, Structural)]
pub struct ImageId(pub u64);

#[derive(Clone, Copy, PartialEq, Eq, Hash, Debug, Structural)]
pub struct BlobId(pub u64);

/// One of the eight positions of a manipulation handle on a box: the four
/// corners and the middles of the four edges.
#[derive(Clone, Copy, PartialEq, Eq, Debug, Structural)]
pub enum HandleType {
    TopLeft,
    TopRight,
    BottomLeft,
    BottomRight,
    Top,
    Right,
    Bottom,
    Left,
}

impl HandleType {
    /// The number by which the handle is known outside the engine.
    pub open spec fn code(self) -> u8 {
        match self {
            HandleType::TopLeft => 0,
            HandleType::TopRight => 1,
            HandleType::BottomLeft => 2,
            HandleType::BottomRight => 3,
            HandleType::Top => 4,
            HandleType::Right => 5,
            HandleType::Bottom => 6,
            HandleType::Left => 7,
        }
    }

    /// The handle with the given number; a number that names no handle gives
    /// the top-left one.
    pub open spec fn of_code(code: u8) -> HandleType {
        match code {
            1 => HandleType::TopRight,
            2 => HandleType::BottomLeft,
            3 => HandleType::BottomRight,
            4 => HandleType::Top,
            5 => HandleType::Right,
            6 => HandleType::Bottom,
            7 => HandleType::Left,
            _ => HandleType::TopLeft,
        }
    }

    pub fn to_u8(self) -> (r: u8)
        ensures
            r == self.code(),
            r < 8,
    {
        match self {
            HandleType::TopLeft => 0,
            HandleType::TopRight => 1,
            HandleType::BottomLeft => 2,
            HandleType::BottomRight => 3,
            HandleType::Top => 4,
            HandleType::Right => 5,
            HandleType::Bottom => 6,
            HandleType::Left => 7,
        }
    }

    pub fn from_u8(code: u8) -> (r: HandleType)
        ensures
            r == HandleType::of_code(code),
    {
        match code {
            1 => HandleType::TopRight,
            2 => HandleType::BottomLeft,
            3 => HandleType::BottomRight,
            4 => HandleType::Top,
            5 => HandleType::Right,
            6 => HandleType::Bottom,
            7 => HandleType::Left,
            _ => HandleType::TopLeft,
        }
    }

    /// Numbering the handles loses nothing: every handle is found again from
    /// its number.
    pub proof fn lemma_code_round_trip(self)
        ensures
            HandleType::of_code(self.code()) == self,
    {
    }

    /// Different handles have different numbers.
    pub proof fn lemma_code_injective(self, other: HandleType)
        requires
            self.code() == other.code(),
        ensures
            self == other,
    {
    }
}

/// A manipulation handle: a square of side `size` whose top-left corner is
/// at `(x, y)`.
#[derive(Clone, Copy, PartialEq, Eq, Debug, Structural)]
pub struct ScaleHandle {
    pub handle_type: HandleType,
    pub x: Fixed,
    pub y: Fixed,
    pub size: Fixed,
}

/// An axis-aligned box: top-left corner, width and height.
#[derive(Clone, Copy, PartialEq, Eq, Debug, Structural)]
pub struct BoundingBox {
    pub x: Fixed,
    pub y: Fixed,
    pub width: Fixed,
    pub height: Fixed,
}

impl BoundingBox {
    /// The box of no extent at the origin.
    pub open spec fn empty() -> BoundingBox {
        BoundingBox {
            x: Fixed { raw: 0 },
            y: Fixed { raw: 0 },
            width: Fixed { raw: 0 },
            height: Fixed { raw: 0 },
        }
    }
}

impl Default for BoundingBox {
    fn default() -> (r: BoundingBox)
        ensures
            r == BoundingBox::empty(),
    {
        BoundingBox { x: Fixed::zero(), y: Fixed::zero(), width: Fixed::zero(), height: Fixed::zero() }
    }
}

} // verus!
