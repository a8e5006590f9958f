//! The operation vocabulary: every drawing, state and configuration
//! primitive a producer may submit, together with the drawing state those
//! primitives read and write.
//!
//! A syntactically valid operation is never rejected; degenerate parameters
//! (an empty rectangle, a restore with nothing saved) fall back to a
//! well-defined no-op or clamp in the actor, never to a fault.

use vstd::prelude::*;
use crate::geom::{Point2, RectI, RectU, Rgba, SizeU, Transform2};

verus! {

/// How the end of a stroked line is drawn.
#[derive(Clone, Copy, PartialEq, Eq, Structural, Debug)]
pub enum LineCapStyle {
    Butt,
    Round,
    Square,
}

/// How two stroked segments are joined.
#[derive(Clone, Copy, PartialEq, Eq, Structural, Debug)]
pub enum LineJoinStyle {
    Round,
    Bevel,
    Miter,
}

/// The compositing or blending mode applied by paint operations.
#[derive(Clone, Copy, PartialEq, Eq, Structural, Debug)]
pub enum CompositionOrBlending {
    SourceOver,
    SourceIn,
    SourceOut,
    SourceAtop,
    DestinationOver,
    DestinationIn,
    DestinationOut,
    DestinationAtop,
    Lighter,
    Xor,
    Multiply,
    Screen,
    Overlay,
}

/// Horizontal anchoring of drawn text.
#[derive(Clone, Copy, PartialEq, Eq, Structural, Debug)]
pub enum TextAlign {
    Start,
    End,
    Left,
    Right,
    Center,
}

/// Vertical anchoring of drawn text.
#[derive(Clone, Copy, PartialEq, Eq, Structural, Debug)]
pub enum TextBaseline {
    Top,
    Hanging,
    Middle,
    Alphabetic,
    Ideographic,
    Bottom,
}

/// The rule deciding which points a path encloses.
#[derive(Clone, Copy, PartialEq, Eq, Structural, Debug)]
pub enum FillRule {
    Nonzero,
    Evenodd,
}

/// What a fill or stroke paints with. Gradients and surface patterns carry
/// their geometry and a handle to backend-held data; only solid colors are
/// tracked on the model surface, the rest is the painting backend's work.
#[derive(Clone, Copy, PartialEq, Eq, Structural, Debug)]
pub enum FillOrStrokeStyle {
    Color(Rgba),
    LinearGradient(Point2, Point2, u64),
    RadialGradient(Point2, i64, Point2, i64, u64),
    Surface(u64),
}

/// A resolved font: a handle to a backend-held face and a size in
/// sixty-fourths of a pixel.
#[derive(Clone, Copy, PartialEq, Eq, Structural, Debug)]
pub struct FontStyle {
    pub face: u64,
    pub size: i64,
}

/// The drawing state of a surface: everything `SaveContext` stacks away and
/// `RestoreContext` brings back.
#[derive(Clone, Copy, PartialEq, Eq, Structural, Debug)]
pub struct DrawState {
    pub fill_style: FillOrStrokeStyle,
    pub stroke_style: FillOrStrokeStyle,
    pub line_width: i64,
    pub line_cap: LineCapStyle,
    pub line_join: LineJoinStyle,
    pub miter_limit: i64,
    pub global_alpha: i64,
    pub composition: CompositionOrBlending,
    pub transform: Transform2,
    pub shadow_offset_x: i64,
    pub shadow_offset_y: i64,
    pub shadow_blur: i64,
    pub shadow_color: Rgba,
    pub font: FontStyle,
    pub text_align: TextAlign,
    pub text_baseline: TextBaseline,
}

impl DrawState {
    /// The drawing state of a fresh surface.
    pub open spec fn initial_spec() -> DrawState {
        DrawState {
            fill_style: FillOrStrokeStyle::Color(Rgba { red: 0, green: 0, blue: 0, alpha: 255 }),
            stroke_style: FillOrStrokeStyle::Color(Rgba { red: 0, green: 0, blue: 0, alpha: 255 }),
            line_width: 1,
            line_cap: LineCapStyle::Butt,
            line_join: LineJoinStyle::Miter,
            miter_limit: 10,
            global_alpha: 255,
            composition: CompositionOrBlending::SourceOver,
            transform: Transform2::identity_spec(),
            shadow_offset_x: 0,
            shadow_offset_y: 0,
            shadow_blur: 0,
            shadow_color: Rgba { red: 0, green: 0, blue: 0, alpha: 0 },
            font: FontStyle { face: 0, size: 640 },
            text_align: TextAlign::Start,
            text_baseline: TextBaseline::Alphabetic,
        }
    }

    pub fn initial() -> (s: DrawState)
        ensures
            s == DrawState::initial_spec(),
    {
        DrawState {
            fill_style: FillOrStrokeStyle::Color(Rgba { red: 0, green: 0, blue: 0, alpha: 255 }),
            stroke_style: FillOrStrokeStyle::Color(Rgba { red: 0, green: 0, blue: 0, alpha: 255 }),
            line_width: 1,
            line_cap: LineCapStyle::Butt,
            line_join: LineJoinStyle::Miter,
            miter_limit: 10,
            global_alpha: 255,
            composition: CompositionOrBlending::SourceOver,
            transform: Transform2::identity(),
            shadow_offset_x: 0,
            shadow_offset_y: 0,
            shadow_blur: 0,
            shadow_color: Rgba { red: 0, green: 0, blue: 0, alpha: 0 },
            font: FontStyle { face: 0, size: 640 },
            text_align: TextAlign::Start,
            text_baseline: TextBaseline::Alphabetic,
        }
    }
}

/// One segment of the current path.
#[derive(Clone, Copy, PartialEq, Eq, Structural, Debug)]
pub enum PathSeg {
    MoveTo(Point2),
    LineTo(Point2),
    Quadratic(Point2, Point2),
    Bezier(Point2, Point2, Point2),
    Arc(Point2, i64, i64, i64, bool),
    ArcTo(Point2, Point2, i64),
    Ellipse(Point2, i64, i64, i64, i64, i64, bool),
    Rect(RectI),
    Close,
}

/// One fire-and-forget operation a producer may submit to the actor.
///
/// Image payloads travel as raw pixel rows (`PutImageData`) or bytes
/// (`DrawImage`); text travels as a `String`. Every variant is applied in
/// submission order and logged by the actor.
#[derive(Clone, PartialEq, Debug)]
pub enum CanvasMessage {
    Arc(Point2, i64, i64, i64, bool),
    ArcTo(Point2, Point2, i64),
    DrawImage(Option<Vec<u8>>, SizeU, RectI, RectI, bool),
    BeginPath,
    BezierCurveTo(Point2, Point2, Point2),
    ClearRect(RectI),
    Clip,
    ClosePath,
    Ellipse(Point2, i64, i64, i64, i64, i64, bool),
    Fill(FillOrStrokeStyle),
    FillText(String, i64, i64, Option<i64>, FillOrStrokeStyle, bool),
    FillRect(RectI, FillOrStrokeStyle),
    LineTo(Point2),
    MoveTo(Point2),
    QuadraticCurveTo(Point2, Point2),
    Rect(RectI),
    RestoreContext,
    SaveContext,
    StrokeRect(RectI, FillOrStrokeStyle),
    Stroke(FillOrStrokeStyle),
    SetLineWidth(i64),
    SetLineCap(LineCapStyle),
    SetLineJoin(LineJoinStyle),
    SetMiterLimit(i64),
    SetGlobalAlpha(i64),
    SetGlobalComposition(CompositionOrBlending),
    SetTransform(Transform2),
    SetShadowOffsetX(i64),
    SetShadowOffsetY(i64),
    SetShadowBlur(i64),
    SetShadowColor(Rgba),
    SetFont(FontStyle),
    SetTextAlign(TextAlign),
    SetTextBaseline(TextBaseline),
    PutImageData(RectU, Vec<Vec<u32>>),
    Recreate(SizeU),
}

} // verus!
