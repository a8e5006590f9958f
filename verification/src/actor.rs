//! The actor: exclusive owner of one drawing surface, reachable only through
//! the interaction protocol.
//!
//! The actor is modelled as a single recurring state that offers a menu of
//! labeled interactions ([`CanvasInteraction`]); a caller selects exactly one
//! label, the corresponding exchange runs to completion, and the actor is
//! ready for the next checkout. One call of
//! [`CanvasActor::handle_interaction`] is one complete interaction, so a
//! caller holding `&mut` access for the call gets exactly the
//! one-checkout-one-interaction discipline.
//!
//! The surface is modelled to the extent the protocol observes it: a pixel
//! grid written by solid-color rectangle fills, clears and image writes, the
//! drawing state with its save/restore stack, the current path, and the
//! ordered log of every applied operation. Rasterization of paths, strokes,
//! gradients, text and image scaling is the painting backend's work and
//! leaves the model pixels untouched; such operations still update state and
//! are logged in order.

use vstd::prelude::*;
use vstd::pervasive::VecAdditionalExecFns;
use crate::geom::{
    clamp_coord, clamp_end, pack_rgba, pack_rgba_spec, rect_covers, RectI, RectU,
    SizeU, Transform2,
};
use crate::ops::{
    CanvasMessage, DrawState, FillOrStrokeStyle, FillRule, PathSeg,
};

verus! {

/// Surfaces are clamped to this many pixels on a side; a creation or resize
/// request beyond it is a degenerate parameter and falls back to the clamp.
pub const MAX_DIM: u32 = 4096;

/// The mathematical model of a [`CanvasActor`].
#[verifier::ext_equal]
pub struct ActorModel {
    pub width: u32,
    pub height: u32,
    pub antialias: bool,
    /// `height` rows of `width` pixels, row-major, packed `0xRRGGBBAA`.
    pub pixels: Seq<Seq<u32>>,
    pub state: DrawState,
    /// States stacked by `SaveContext`, oldest first.
    pub saved: Seq<DrawState>,
    /// Segments of the current path since the last `BeginPath`.
    pub path: Seq<PathSeg>,
    /// Every operation handed to the actor, in application order.
    pub applied: Seq<CanvasMessage>,
    /// Registered pixel sinks, in registration order.
    pub sinks: Seq<u64>,
    /// The renderer-visible handle to current contents, once one exists.
    pub image_key: Option<u64>,
}

/// The pixel grids of a sequence of rows, one `Seq` per row.
pub open spec fn rows_view(p: Seq<Vec<u32>>) -> Seq<Seq<u32>> {
    Seq::new(p.len(), |y: int| p[y]@)
}

/// A well-formed grid: `h` rows of `w` pixels.
pub open spec fn rows_wf(rows: Seq<Seq<u32>>, w: int, h: int) -> bool {
    &&& rows.len() == h
    &&& forall|y: int| 0 <= y < h ==> (#[trigger] rows[y]).len() == w
}

/// A grid of `h` rows of `w` cleared (fully transparent black) pixels.
pub open spec fn zero_grid(w: nat, h: nat) -> Seq<Seq<u32>> {
    Seq::new(h, |y: int| Seq::new(w, |x: int| 0u32))
}

/// The grid after writing `pix` to every grid cell the rectangle covers.
pub open spec fn fill_pixels(p: Seq<Seq<u32>>, r: RectI, pix: u32) -> Seq<Seq<u32>> {
    Seq::new(p.len(), |y: int| Seq::new(p[y].len(), |x: int|
        if rect_covers(r, x, y) { pix } else { p[y][x] }))
}

/// The grid after copying `rows` to the region at `(r.x, r.y)`, clipped to
/// the rectangle, to the extent of the source rows, and to the grid.
pub open spec fn put_pixels(p: Seq<Seq<u32>>, r: RectU, rows: Seq<Seq<u32>>) -> Seq<Seq<u32>> {
    Seq::new(p.len(), |y: int| Seq::new(p[y].len(), |x: int|
        if r.x <= x < r.x + r.w && r.y <= y < r.y + r.h
            && y - r.y < rows.len() && x - r.x < rows[y - r.y].len() {
            rows[y - r.y][x - r.x]
        } else {
            p[y][x]
        }))
}

/// How many rows a readback of region `r` yields on a surface `h` rows tall.
pub open spec fn read_region_h(r: RectU, h: int) -> int {
    if r.y >= h {
        0
    } else if r.y + r.h > h {
        h - r.y
    } else {
        r.h as int
    }
}

/// How many pixels per row a readback of region `r` yields on a surface `w`
/// pixels wide.
pub open spec fn read_region_w(r: RectU, w: int) -> int {
    if r.x >= w {
        0
    } else if r.x + r.w > w {
        w - r.x
    } else {
        r.w as int
    }
}

/// The pixels a readback of region `r` returns: the region clipped to a
/// `w` by `h` surface, row-major.
pub open spec fn read_pixels_spec(p: Seq<Seq<u32>>, w: int, h: int, r: RectU) -> Seq<Seq<u32>> {
    Seq::new(read_region_h(r, h) as nat, |dy: int|
        Seq::new(read_region_w(r, w) as nat, |dx: int| p[r.y + dy][r.x + dx]))
}

/// How many rectangle subpaths of the current path contain `(x, y)`.
/// Rectangle subpaths are the part of path geometry the model evaluates
/// exactly; curved segments are carried to the painting backend and add no
/// containment here.
pub open spec fn rect_crossings(path: Seq<PathSeg>, x: int, y: int) -> nat
    decreases path.len(),
{
    if path.len() == 0 {
        0
    } else {
        rect_crossings(path.drop_last(), x, y) + (match path.last() {
            PathSeg::Rect(r) => if rect_covers(r, x, y) { 1nat } else { 0nat },
            _ => 0nat,
        })
    }
}

/// Whether the current path contains `(x, y)` under `rule`. An empty path
/// contains no point under either rule.
pub open spec fn point_in_path_spec(path: Seq<PathSeg>, x: int, y: int, rule: FillRule) -> bool {
    match rule {
        FillRule::Nonzero => rect_crossings(path, x, y) > 0,
        FillRule::Evenodd => rect_crossings(path, x, y) % 2 == 1,
    }
}

/// A surface dimension clamped into `[1, MAX_DIM]`.
pub open spec fn clamp_dim_spec(v: int) -> int {
    if v < 1 {
        1
    } else if v > MAX_DIM {
        MAX_DIM as int
    } else {
        v
    }
}

fn clamp_dim(v: u64) -> (c: u32)
    ensures
        c == clamp_dim_spec(v as int),
{
    if v < 1 {
        1
    } else if v > MAX_DIM as u64 {
        MAX_DIM
    } else {
        v as u32
    }
}

/// A fresh grid of cleared pixels.
fn make_grid(width: u32, height: u32) -> (g: Vec<Vec<u32>>)
    ensures
        rows_view(g@) == zero_grid(width as nat, height as nat),
{
    let mut g: Vec<Vec<u32>> = Vec::new();
    let mut y: u32 = 0;
    while y < height
        invariant
            y <= height,
            g@.len() == y,
            forall|i: int| 0 <= i < y ==> (#[trigger] g@[i])@ == Seq::new(width as nat, |x: int| 0u32),
        decreases height - y,
    {
        let row: Vec<u32> = vec![0u32; width as usize];
        proof {
            assert(row@ =~= Seq::new(width as nat, |x: int| 0u32));
        }
        g.push(row);
        y = y + 1;
    }
    proof {
        assert(rows_view(g@) =~~= zero_grid(width as nat, height as nat));
    }
    g
}

/// Mutable access to one row of the grid.
fn row_mut(rows: &mut Vec<Vec<u32>>, i: usize) -> (row: &mut Vec<u32>)
    requires
        i < old(rows)@.len(),
    ensures
        *row == old(rows)@[i as int],
        final(rows)@ == old(rows)@.update(i as int, *final(row)),
{
    &mut rows[i]
}

/// Writes `pix` to the cells `[x0, x1)` of one row.
fn fill_row(row: &mut Vec<u32>, x0: usize, x1: usize, pix: u32)
    requires
        x0 <= x1 <= old(row)@.len(),
    ensures
        final(row)@.len() == old(row)@.len(),
        forall|j: int| 0 <= j < old(row)@.len() ==>
            final(row)@[j] == (if x0 <= j < x1 { pix } else { old(row)@[j] }),
{
    let mut x = x0;
    while x < x1
        invariant
            x0 <= x <= x1 <= row@.len(),
            row@.len() == old(row)@.len(),
            forall|j: int| 0 <= j < row@.len() ==>
                row@[j] == (if x0 <= j < x { pix } else { old(row)@[j] }),
        decreases x1 - x,
    {
        row.set(x, pix);
        x = x + 1;
    }
}

/// Writes `pix` to every grid cell the rectangle covers, clipping the
/// rectangle to the surface.
fn fill_rect_pixels(pixels: &mut Vec<Vec<u32>>, width: u32, height: u32, r: RectI, pix: u32)
    requires
        rows_wf(rows_view(old(pixels)@), width as int, height as int),
    ensures
        rows_view(final(pixels)@) == fill_pixels(rows_view(old(pixels)@), r, pix),
        rows_wf(rows_view(final(pixels)@), width as int, height as int),
{
    let ghost orig = rows_view(pixels@);
    proof {
        assert forall|i: int| 0 <= i < height implies (#[trigger] pixels@[i])@.len() == width by {
            assert(orig[i] == pixels@[i]@);
        }
    }
    let x0 = clamp_coord(r.x, width);
    let x1r = clamp_end(r.x, r.w, width);
    let x1 = if x1r < x0 { x0 } else { x1r };
    let y0 = clamp_coord(r.y, height);
    let y1r = clamp_end(r.y, r.h, height);
    let y1 = if y1r < y0 { y0 } else { y1r };
    let mut y = y0;
    while y < y1
        invariant
            y0 <= y <= y1,
            y1 <= height,
            x0 <= x1 <= width,
            pixels@.len() == height,
            forall|i: int| 0 <= i < height ==> (#[trigger] pixels@[i])@.len() == width,
            orig.len() == height,
            forall|i: int| 0 <= i < height ==> (#[trigger] orig[i]).len() == width,
            forall|i: int, j: int| 0 <= i < height && 0 <= j < width ==>
                #[trigger] pixels@[i]@[j] == (if y0 <= i < y && x0 <= j < x1 { pix } else {
                    orig[i][j]
                }),
        decreases y1 - y,
    {
        let row = row_mut(pixels, y);
        fill_row(row, x0, x1, pix);
        y = y + 1;
    }
    proof {
        let res = fill_pixels(orig, r, pix);
        assert forall|i: int| 0 <= i < height implies rows_view(pixels@)[i] =~= res[i] by {
            assert forall|j: int| 0 <= j < width implies pixels@[i]@[j] == res[i][j] by {
                assert(pixels@[i]@[j] == (if y0 <= i < y1 && x0 <= j < x1 { pix } else {
                    orig[i][j]
                }));
            }
        }
        assert(rows_view(pixels@) =~= res);
    }
}

/// Copies `count` cells of `src` to the cells `[x0, x0 + count)` of one row.
fn put_row(row: &mut Vec<u32>, x0: usize, src: &Vec<u32>, count: usize)
    requires
        x0 + count <= old(row)@.len(),
        count <= src@.len(),
    ensures
        final(row)@.len() == old(row)@.len(),
        forall|j: int| 0 <= j < old(row)@.len() ==>
            final(row)@[j] == (if x0 <= j < x0 + count { src@[j - x0] } else { old(row)@[j] }),
{
    let rl = row.len();
    let mut d: usize = 0;
    while d < count
        invariant
            0 <= d <= count,
            x0 + count <= rl,
            rl == row@.len(),
            x0 + count <= row@.len(),
            count <= src@.len(),
            row@.len() == old(row)@.len(),
            forall|j: int| 0 <= j < row@.len() ==>
                row@[j] == (if x0 <= j < x0 + d { src@[j - x0] } else { old(row)@[j] }),
        decreases count - d,
    {
        row.set(x0 + d, src[d]);
        d = d + 1;
    }
}

/// Copies `rows` to the region at `(r.x, r.y)`, clipped to the rectangle, to
/// the extent of the source rows, and to the surface.
fn put_pixels_exec(pixels: &mut Vec<Vec<u32>>, width: u32, height: u32, r: RectU, rows: &Vec<Vec<u32>>)
    requires
        rows_wf(rows_view(old(pixels)@), width as int, height as int),
    ensures
        rows_view(final(pixels)@) == put_pixels(rows_view(old(pixels)@), r, rows_view(rows@)),
        rows_wf(rows_view(final(pixels)@), width as int, height as int),
{
    let ghost orig = rows_view(pixels@);
    let ghost src = rows_view(rows@);
    proof {
        assert forall|i: int| 0 <= i < height implies (#[trigger] pixels@[i])@.len() == width by {
            assert(orig[i] == pixels@[i]@);
        }
    }
    if r.x >= width as u64 || r.y >= height as u64 {
        proof {
            let res = put_pixels(orig, r, src);
            assert forall|i: int| 0 <= i < height implies rows_view(pixels@)[i] =~= res[i] by {
                assert forall|j: int| 0 <= j < width implies pixels@[i]@[j] == res[i][j] by {}
            }
            assert(rows_view(pixels@) =~= res);
        }
        return;
    }
    let x0 = r.x as usize;
    let y0 = r.y as usize;
    // rows to write: clipped by the rectangle, the source, and the surface
    let mut n_rows_u: u64 = r.h;
    if (rows.len() as u64) < n_rows_u {
        n_rows_u = rows.len() as u64;
    }
    if (height as u64 - r.y) < n_rows_u {
        n_rows_u = height as u64 - r.y;
    }
    let n_rows = n_rows_u as usize;
    let mut dy: usize = 0;
    while dy < n_rows
        invariant
            0 <= dy <= n_rows,
            x0 == r.x as int,
            y0 == r.y as int,
            r.x < width,
            r.y < height,
            y0 + n_rows <= height,
            n_rows <= r.h,
            n_rows <= src.len(),
            n_rows == r.h || n_rows == src.len() || y0 + n_rows == height,
            pixels@.len() == height,
            forall|i: int| 0 <= i < height ==> (#[trigger] pixels@[i])@.len() == width,
            orig.len() == height,
            forall|i: int| 0 <= i < height ==> (#[trigger] orig[i]).len() == width,
            src == rows_view(rows@),
            forall|i: int, j: int| 0 <= i < height && 0 <= j < width ==>
                #[trigger] pixels@[i]@[j] == (
                    if y0 <= i < y0 + dy && x0 <= j && j - x0 < r.w && j - x0 < src[i - y0].len() {
                        src[i - y0][j - x0]
                    } else {
                        orig[i][j]
                    }),
        decreases n_rows - dy,
    {
        let src_row = &rows[dy];
        let mut count_u: u64 = r.w;
        if (src_row.len() as u64) < count_u {
            count_u = src_row.len() as u64;
        }
        if (width as u64 - r.x) < count_u {
            count_u = width as u64 - r.x;
        }
        let count = count_u as usize;
        let row = row_mut(pixels, y0 + dy);
        put_row(row, x0, src_row, count);
        proof {
            assert(src[dy as int] == src_row@);
        }
        dy = dy + 1;
    }
    proof {
        let res = put_pixels(orig, r, src);
        assert forall|i: int| 0 <= i < height implies rows_view(pixels@)[i] =~= res[i] by {
            assert forall|j: int| 0 <= j < width implies pixels@[i]@[j] == res[i][j] by {
                if y0 <= i < y0 + n_rows && x0 <= j && j - x0 < r.w && j - x0 < src[i - y0].len() {
                    assert(pixels@[i]@[j] == src[i - y0][j - x0]);
                } else {
                    assert(pixels@[i]@[j] == orig[i][j]);
                }
            }
        }
        assert(rows_view(pixels@) =~= res);
    }
}

/// The smaller of two integers.
pub open spec fn imin(a: int, b: int) -> int {
    if a < b {
        a
    } else {
        b
    }
}

/// One labeled interaction of the protocol: the menu the actor offers on
/// every checkout. Each variant carries the request payload of its label;
/// output sinks are carried as plain handles, the bytes travel outside the
/// protocol.
#[derive(Clone, PartialEq, Debug)]
pub enum CanvasInteraction {
    /// One fire-and-forget operation; no reply.
    Message(CanvasMessage),
    /// An ordered batch of operations, applied in order; no reply.
    Messages(Vec<CanvasMessage>),
    /// Replies with the current transform.
    GetTransform,
    /// `(region, caller's surface size, sink handle)`; replies with the
    /// pixels of the region so the caller can forward them to the sink.
    GetImageData(RectU, SizeU, u64),
    /// `(x, y, fill rule)`; replies with a boolean.
    IsPointInPath(i64, i64, FillRule),
    /// Replies with the renderer-visible handle to current contents, or
    /// `None` while the surface is uninitialized.
    FromLayout,
    /// Registers an output sink for future pixel snapshots; no reply.
    FromScript(u64),
}

/// The reply of one interaction, shaped by its label.
#[derive(Clone, PartialEq, Debug)]
pub enum InteractionReply {
    NoReply,
    Transform(Transform2),
    Pixels(Vec<Vec<u32>>),
    PointTest(bool),
    Snapshot(Option<u64>),
}

/// The model after applying one operation: the operation is logged, and its
/// effect on state, path and pixels is applied. Every operation is accepted;
/// degenerate parameters fall back to a no-op or a clamp.
pub open spec fn model_after_message(m: ActorModel, msg: CanvasMessage) -> ActorModel {
    let logged = ActorModel { applied: m.applied.push(msg), ..m };
    match msg {
        CanvasMessage::Arc(c, radius, start, end, ccw) => ActorModel {
            path: m.path.push(PathSeg::Arc(c, radius, start, end, ccw)),
            ..logged
        },
        CanvasMessage::ArcTo(c1, c2, radius) => ActorModel {
            path: m.path.push(PathSeg::ArcTo(c1, c2, radius)),
            ..logged
        },
        CanvasMessage::DrawImage(_, _, _, _, _) => logged,
        CanvasMessage::BeginPath => ActorModel { path: Seq::empty(), ..logged },
        CanvasMessage::BezierCurveTo(c1, c2, p) => ActorModel {
            path: m.path.push(PathSeg::Bezier(c1, c2, p)),
            ..logged
        },
        CanvasMessage::ClearRect(r) => ActorModel {
            pixels: fill_pixels(m.pixels, r, 0),
            ..logged
        },
        CanvasMessage::Clip => logged,
        CanvasMessage::ClosePath => ActorModel { path: m.path.push(PathSeg::Close), ..logged },
        CanvasMessage::Ellipse(c, rx, ry, rot, start, end, ccw) => ActorModel {
            path: m.path.push(PathSeg::Ellipse(c, rx, ry, rot, start, end, ccw)),
            ..logged
        },
        CanvasMessage::Fill(style) => ActorModel {
            state: DrawState { fill_style: style, ..m.state },
            ..logged
        },
        CanvasMessage::FillText(_, _, _, _, style, _) => ActorModel {
            state: DrawState { fill_style: style, ..m.state },
            ..logged
        },
        CanvasMessage::FillRect(r, style) => ActorModel {
            state: DrawState { fill_style: style, ..m.state },
            pixels: match style {
                FillOrStrokeStyle::Color(c) => fill_pixels(m.pixels, r, pack_rgba_spec(c)),
                _ => m.pixels,
            },
            ..logged
        },
        CanvasMessage::LineTo(p) => ActorModel { path: m.path.push(PathSeg::LineTo(p)), ..logged },
        CanvasMessage::MoveTo(p) => ActorModel { path: m.path.push(PathSeg::MoveTo(p)), ..logged },
        CanvasMessage::QuadraticCurveTo(c, p) => ActorModel {
            path: m.path.push(PathSeg::Quadratic(c, p)),
            ..logged
        },
        CanvasMessage::Rect(r) => ActorModel { path: m.path.push(PathSeg::Rect(r)), ..logged },
        CanvasMessage::RestoreContext => if m.saved.len() > 0 {
            ActorModel { state: m.saved.last(), saved: m.saved.drop_last(), ..logged }
        } else {
            logged
        },
        CanvasMessage::SaveContext => ActorModel { saved: m.saved.push(m.state), ..logged },
        CanvasMessage::StrokeRect(_, style) => ActorModel {
            state: DrawState { stroke_style: style, ..m.state },
            ..logged
        },
        CanvasMessage::Stroke(style) => ActorModel {
            state: DrawState { stroke_style: style, ..m.state },
            ..logged
        },
        CanvasMessage::SetLineWidth(v) => ActorModel {
            state: DrawState { line_width: v, ..m.state },
            ..logged
        },
        CanvasMessage::SetLineCap(v) => ActorModel {
            state: DrawState { line_cap: v, ..m.state },
            ..logged
        },
        CanvasMessage::SetLineJoin(v) => ActorModel {
            state: DrawState { line_join: v, ..m.state },
            ..logged
        },
        CanvasMessage::SetMiterLimit(v) => ActorModel {
            state: DrawState { miter_limit: v, ..m.state },
            ..logged
        },
        CanvasMessage::SetGlobalAlpha(v) => ActorModel {
            state: DrawState { global_alpha: v, ..m.state },
            ..logged
        },
        CanvasMessage::SetGlobalComposition(v) => ActorModel {
            state: DrawState { composition: v, ..m.state },
            ..logged
        },
        CanvasMessage::SetTransform(t) => ActorModel {
            state: DrawState { transform: t, ..m.state },
            ..logged
        },
        CanvasMessage::SetShadowOffsetX(v) => ActorModel {
            state: DrawState { shadow_offset_x: v, ..m.state },
            ..logged
        },
        CanvasMessage::SetShadowOffsetY(v) => ActorModel {
            state: DrawState { shadow_offset_y: v, ..m.state },
            ..logged
        },
        CanvasMessage::SetShadowBlur(v) => ActorModel {
            state: DrawState { shadow_blur: v, ..m.state },
            ..logged
        },
        CanvasMessage::SetShadowColor(v) => ActorModel {
            state: DrawState { shadow_color: v, ..m.state },
            ..logged
        },
        CanvasMessage::SetFont(v) => ActorModel {
            state: DrawState { font: v, ..m.state },
            ..logged
        },
        CanvasMessage::SetTextAlign(v) => ActorModel {
            state: DrawState { text_align: v, ..m.state },
            ..logged
        },
        CanvasMessage::SetTextBaseline(v) => ActorModel {
            state: DrawState { text_baseline: v, ..m.state },
            ..logged
        },
        CanvasMessage::PutImageData(r, rows) => ActorModel {
            pixels: put_pixels(m.pixels, r, rows_view(rows@)),
            ..logged
        },
        CanvasMessage::Recreate(size) => ActorModel {
            width: clamp_dim_spec(size.w as int) as u32,
            height: clamp_dim_spec(size.h as int) as u32,
            pixels: zero_grid(
                clamp_dim_spec(size.w as int) as nat,
                clamp_dim_spec(size.h as int) as nat,
            ),
            path: Seq::empty(),
            ..logged
        },
    }
}

/// The model after applying a sequence of operations, first to last.
pub open spec fn model_after_messages(m: ActorModel, msgs: Seq<CanvasMessage>) -> ActorModel
    decreases msgs.len(),
{
    if msgs.len() == 0 {
        m
    } else {
        model_after_message(model_after_messages(m, msgs.drop_last()), msgs.last())
    }
}

/// Applying a concatenation is applying the two halves in turn: batches
/// compose, so delivering buffered commands batch by batch applies every
/// command in submission order.
pub proof fn lemma_messages_concat(m: ActorModel, x: Seq<CanvasMessage>, y: Seq<CanvasMessage>)
    ensures
        model_after_messages(m, x + y) == model_after_messages(model_after_messages(m, x), y),
    decreases y.len(),
{
    if y.len() == 0 {
        assert(x + y =~= x);
    } else {
        lemma_messages_concat(m, x, y.drop_last());
        assert((x + y).drop_last() =~= x + y.drop_last());
        assert((x + y).last() == y.last());
        assert((x + y).len() > 0);
    }
}

/// Applying a non-empty sequence is applying its head, then the rest.
pub proof fn lemma_messages_head(m: ActorModel, msgs: Seq<CanvasMessage>)
    requires
        msgs.len() > 0,
    ensures
        model_after_messages(m, msgs) == model_after_messages(
            model_after_message(m, msgs[0]),
            msgs.drop_first(),
        ),
{
    let single = seq![msgs[0]];
    assert(single + msgs.drop_first() =~= msgs);
    lemma_messages_concat(m, single, msgs.drop_first());
    assert(model_after_messages(m, single) == model_after_message(m, msgs[0])) by {
        assert(single.len() == 1);
        assert(single.drop_last() =~= Seq::<CanvasMessage>::empty());
        assert(model_after_messages(m, Seq::<CanvasMessage>::empty()) == m);
        assert(single.last() == msgs[0]);
    }
}

/// The model after one complete interaction.
pub open spec fn model_after_interaction(m: ActorModel, i: CanvasInteraction) -> ActorModel {
    match i {
        CanvasInteraction::Message(msg) => model_after_message(m, msg),
        CanvasInteraction::Messages(msgs) => model_after_messages(m, msgs@),
        CanvasInteraction::GetTransform => m,
        CanvasInteraction::GetImageData(_, _, _) => m,
        CanvasInteraction::IsPointInPath(_, _, _) => m,
        CanvasInteraction::FromLayout => m,
        CanvasInteraction::FromScript(sink) => ActorModel { sinks: m.sinks.push(sink), ..m },
    }
}

/// The reply each label owes, on the model before the interaction: queries
/// answer from current state, every other label has no reply payload.
pub open spec fn reply_matches(m: ActorModel, i: CanvasInteraction, r: InteractionReply) -> bool {
    match i {
        CanvasInteraction::GetTransform => r == InteractionReply::Transform(m.state.transform),
        CanvasInteraction::GetImageData(region, size, _) => {
            &&& r matches InteractionReply::Pixels(px)
            &&& rows_view(px@) == read_pixels_spec(
                m.pixels,
                imin(m.width as int, size.w as int),
                imin(m.height as int, size.h as int),
                region,
            )
        },
        CanvasInteraction::IsPointInPath(x, y, rule) => r == InteractionReply::PointTest(
            point_in_path_spec(m.path, x as int, y as int, rule),
        ),
        CanvasInteraction::FromLayout => r == InteractionReply::Snapshot(m.image_key),
        _ => r == InteractionReply::NoReply,
    }
}

/// The model of a freshly created actor: a cleared surface of the requested
/// size (clamped into `[1, MAX_DIM]`), initial drawing state, empty path,
/// empty log, and no renderer handle yet.
pub open spec fn initial_model(size: SizeU, antialias: bool) -> ActorModel {
    ActorModel {
        width: clamp_dim_spec(size.w as int) as u32,
        height: clamp_dim_spec(size.h as int) as u32,
        antialias,
        pixels: zero_grid(
            clamp_dim_spec(size.w as int) as nat,
            clamp_dim_spec(size.h as int) as nat,
        ),
        state: DrawState::initial_spec(),
        saved: Seq::empty(),
        path: Seq::empty(),
        applied: Seq::empty(),
        sinks: Seq::empty(),
        image_key: None,
    }
}

/// A well-formed model: the grid has exactly the surface's rows and columns,
/// with both dimensions in `[1, MAX_DIM]`.
pub open spec fn model_wf(m: ActorModel) -> bool {
    &&& 1 <= m.width <= MAX_DIM
    &&& 1 <= m.height <= MAX_DIM
    &&& rows_wf(m.pixels, m.width as int, m.height as int)
}

/// The actor: the one owner of the surface. All access goes through its
/// methods, one complete interaction per call.
pub struct CanvasActor {
    width: u32,
    height: u32,
    antialias: bool,
    pixels: Vec<Vec<u32>>,
    state: DrawState,
    saved: Vec<DrawState>,
    path: Vec<PathSeg>,
    applied: Vec<CanvasMessage>,
    sinks: Vec<u64>,
    image_key: Option<u64>,
}

impl View for CanvasActor {
    type V = ActorModel;

    closed spec fn view(&self) -> ActorModel {
        ActorModel {
            width: self.width,
            height: self.height,
            antialias: self.antialias,
            pixels: rows_view(self.pixels@),
            state: self.state,
            saved: self.saved@,
            path: self.path@,
            applied: self.applied@,
            sinks: self.sinks@,
            image_key: self.image_key,
        }
    }
}

impl CanvasActor {
    pub open spec fn wf(&self) -> bool {
        model_wf(self@)
    }

    /// Creates the actor bound to a fresh surface, as the `create`
    /// interaction does: initial size and antialiasing mode, cleared pixels.
    pub fn new(size: SizeU, antialias: bool) -> (actor: CanvasActor)
        ensures
            actor.wf(),
            actor@ == initial_model(size, antialias),
    {
        let w = clamp_dim(size.w);
        let h = clamp_dim(size.h);
        let actor = CanvasActor {
            width: w,
            height: h,
            antialias,
            pixels: make_grid(w, h),
            state: DrawState::initial(),
            saved: Vec::new(),
            path: Vec::new(),
            applied: Vec::new(),
            sinks: Vec::new(),
            image_key: None,
        };
        proof {
            assert(actor@ =~~= initial_model(size, antialias));
            assert forall|y: int| 0 <= y < h implies (#[trigger] actor@.pixels[y]).len() == w by {
                assert(actor@.pixels[y] == zero_grid(w as nat, h as nat)[y]);
            }
        }
        actor
    }

    /// Applies one operation: logs it and applies its effect, in one step of
    /// the model transition. Never rejects an operation.
    #[verifier::rlimit(60)]
    pub fn apply_message(&mut self, msg: CanvasMessage)
        requires
            old(self).wf(),
        ensures
            final(self).wf(),
            final(self)@ == model_after_message(old(self)@, msg),
    {
        match &msg {
            CanvasMessage::Arc(c, radius, start, end, ccw) => {
                self.path.push(PathSeg::Arc(*c, *radius, *start, *end, *ccw));
            },
            CanvasMessage::ArcTo(c1, c2, radius) => {
                self.path.push(PathSeg::ArcTo(*c1, *c2, *radius));
            },
            CanvasMessage::DrawImage(_, _, _, _, _) => {},
            CanvasMessage::BeginPath => {
                self.path = Vec::new();
            },
            CanvasMessage::BezierCurveTo(c1, c2, p) => {
                self.path.push(PathSeg::Bezier(*c1, *c2, *p));
            },
            CanvasMessage::ClearRect(r) => {
                let w = self.width;
                let h = self.height;
                fill_rect_pixels(&mut self.pixels, w, h, *r, 0);
            },
            CanvasMessage::Clip => {},
            CanvasMessage::ClosePath => {
                self.path.push(PathSeg::Close);
            },
            CanvasMessage::Ellipse(c, rx, ry, rot, start, end, ccw) => {
                self.path.push(PathSeg::Ellipse(*c, *rx, *ry, *rot, *start, *end, *ccw));
            },
            CanvasMessage::Fill(style) => {
                self.state.fill_style = *style;
            },
            CanvasMessage::FillText(_, _, _, _, style, _) => {
                self.state.fill_style = *style;
            },
            CanvasMessage::FillRect(r, style) => {
                self.state.fill_style = *style;
                match style {
                    FillOrStrokeStyle::Color(c) => {
                        let pix = pack_rgba(*c);
                        let w = self.width;
                        let h = self.height;
                        fill_rect_pixels(&mut self.pixels, w, h, *r, pix);
                    },
                    _ => {},
                }
            },
            CanvasMessage::LineTo(p) => {
                self.path.push(PathSeg::LineTo(*p));
            },
            CanvasMessage::MoveTo(p) => {
                self.path.push(PathSeg::MoveTo(*p));
            },
            CanvasMessage::QuadraticCurveTo(c, p) => {
                self.path.push(PathSeg::Quadratic(*c, *p));
            },
            CanvasMessage::Rect(r) => {
                self.path.push(PathSeg::Rect(*r));
            },
            CanvasMessage::RestoreContext => {
                match self.saved.pop() {
                    Some(st) => {
                        self.state = st;
                    },
                    None => {},
                }
            },
            CanvasMessage::SaveContext => {
                let st = self.state;
                self.saved.push(st);
            },
            CanvasMessage::StrokeRect(_, style) => {
                self.state.stroke_style = *style;
            },
            CanvasMessage::Stroke(style) => {
                self.state.stroke_style = *style;
            },
            CanvasMessage::SetLineWidth(v) => {
                self.state.line_width = *v;
            },
            CanvasMessage::SetLineCap(v) => {
                self.state.line_cap = *v;
            },
            CanvasMessage::SetLineJoin(v) => {
                self.state.line_join = *v;
            },
            CanvasMessage::SetMiterLimit(v) => {
                self.state.miter_limit = *v;
            },
            CanvasMessage::SetGlobalAlpha(v) => {
                self.state.global_alpha = *v;
            },
            CanvasMessage::SetGlobalComposition(v) => {
                self.state.composition = *v;
            },
            CanvasMessage::SetTransform(t) => {
                self.state.transform = *t;
            },
            CanvasMessage::SetShadowOffsetX(v) => {
                self.state.shadow_offset_x = *v;
            },
            CanvasMessage::SetShadowOffsetY(v) => {
                self.state.shadow_offset_y = *v;
            },
            CanvasMessage::SetShadowBlur(v) => {
                self.state.shadow_blur = *v;
            },
            CanvasMessage::SetShadowColor(v) => {
                self.state.shadow_color = *v;
            },
            CanvasMessage::SetFont(v) => {
                self.state.font = *v;
            },
            CanvasMessage::SetTextAlign(v) => {
                self.state.text_align = *v;
            },
            CanvasMessage::SetTextBaseline(v) => {
                self.state.text_baseline = *v;
            },
            CanvasMessage::PutImageData(r, rows) => {
                let w = self.width;
                let h = self.height;
                put_pixels_exec(&mut self.pixels, w, h, *r, rows);
            },
            CanvasMessage::Recreate(size) => {
                let w = clamp_dim(size.w);
                let h = clamp_dim(size.h);
                self.width = w;
                self.height = h;
                self.pixels = make_grid(w, h);
                self.path = Vec::new();
                proof {
                    assert forall|y: int| 0 <= y < h implies
                        (#[trigger] rows_view(self.pixels@)[y]).len() == w by {
                        assert(rows_view(self.pixels@)[y] == zero_grid(w as nat, h as nat)[y]);
                    }
                }
            },
        }
        self.applied.push(msg);
        proof {
            assert(self@ =~~= model_after_message(old(self)@, msg));
        }
    }

    /// Applies an ordered batch of operations, first to last: one `batch`
    /// interaction.
    pub fn apply_messages(&mut self, msgs: Vec<CanvasMessage>)
        requires
            old(self).wf(),
        ensures
            final(self).wf(),
            final(self)@ == model_after_messages(old(self)@, msgs@),
    {
        let ghost m0 = self@;
        let ghost all = msgs@;
        let mut rest = msgs;
        while rest.len() > 0
            invariant
                self.wf(),
                model_after_messages(m0, all) == model_after_messages(self@, rest@),
            decreases rest@.len(),
        {
            let ghost prev_rest = rest@;
            let ghost prev_model = self@;
            let m = rest.remove(0);
            proof {
                assert(rest@ =~= prev_rest.drop_first());
                lemma_messages_head(prev_model, prev_rest);
            }
            self.apply_message(m);
        }
        proof {
            assert(model_after_messages(self@, rest@) == self@);
        }
    }

    /// Whether the current path contains `(x, y)` under `rule`. With no path
    /// operation since creation or the last `BeginPath`, the answer is
    /// `false` under either rule.
    pub fn is_point_in_path(&self, x: i64, y: i64, rule: FillRule) -> (b: bool)
        ensures
            b == point_in_path_spec(self@.path, x as int, y as int, rule),
    {
        let mut n: usize = 0;
        let mut i: usize = 0;
        while i < self.path.len()
            invariant
                i <= self.path@.len(),
                n <= i,
                n == rect_crossings(self.path@.take(i as int), x as int, y as int),
            decreases self.path@.len() - i,
        {
            proof {
                assert(self.path@.take(i as int + 1).drop_last() =~= self.path@.take(i as int));
                assert(self.path@.take(i as int + 1).last() == self.path@[i as int]);
            }
            match self.path[i] {
                PathSeg::Rect(r) => {
                    if r.x <= x && (x as i128) < (r.x as i128 + r.w as i128) && r.y <= y
                        && (y as i128) < (r.y as i128 + r.h as i128) {
                        n = n + 1;
                    }
                },
                _ => {},
            }
            i = i + 1;
        }
        proof {
            assert(self.path@.take(self.path@.len() as int) =~= self.path@);
        }
        match rule {
            FillRule::Nonzero => n > 0,
            FillRule::Evenodd => n % 2 == 1,
        }
    }

    /// Reads back the pixels of `region`, clipped to the surface and to the
    /// caller's stated surface size, row-major.
    pub fn read_pixels(&self, region: RectU, size: SizeU) -> (out: Vec<Vec<u32>>)
        requires
            self.wf(),
        ensures
            rows_view(out@) == read_pixels_spec(
                self@.pixels,
                imin(self@.width as int, size.w as int),
                imin(self@.height as int, size.h as int),
                region,
            ),
    {
        let ghost w_eff_g = imin(self@.width as int, size.w as int);
        let ghost h_eff_g = imin(self@.height as int, size.h as int);
        let w_eff: u64 = if (self.width as u64) < size.w {
            self.width as u64
        } else {
            size.w
        };
        let h_eff: u64 = if (self.height as u64) < size.h {
            self.height as u64
        } else {
            size.h
        };
        let out_h: usize = if region.y >= h_eff {
            0
        } else {
            let room = h_eff - region.y;
            if region.h > room {
                room as usize
            } else {
                region.h as usize
            }
        };
        let out_w: usize = if region.x >= w_eff {
            0
        } else {
            let room = w_eff - region.x;
            if region.w > room {
                room as usize
            } else {
                region.w as usize
            }
        };
        proof {
            assert(out_h == read_region_h(region, h_eff_g));
            assert(out_w == read_region_w(region, w_eff_g));
            assert forall|i: int| 0 <= i < self@.height implies
                (#[trigger] self@.pixels[i]).len() == self@.width by {}
        }
        let mut out: Vec<Vec<u32>> = Vec::new();
        let mut dy: usize = 0;
        while dy < out_h
            invariant
                dy <= out_h,
                out@.len() == dy,
                out_h == read_region_h(region, h_eff_g),
                out_w == read_region_w(region, w_eff_g),
                h_eff_g <= self@.height,
                w_eff_g <= self@.width,
                out_h > 0 ==> region.y + out_h <= self@.height,
                out_w > 0 ==> region.x + out_w <= self@.width,
                self.wf(),
                forall|i: int| 0 <= i < dy ==> (#[trigger] out@[i])@ ==
                    read_pixels_spec(self@.pixels, w_eff_g, h_eff_g, region)[i],
            decreases out_h - dy,
        {
            let y = (region.y as usize) + dy;
            let mut rowv: Vec<u32> = Vec::new();
            let mut dx: usize = 0;
            while dx < out_w
                invariant
                    dx <= out_w,
                    rowv@.len() == dx,
                    dy < out_h,
                    y == region.y + dy,
                    out_h == read_region_h(region, h_eff_g),
                    out_w == read_region_w(region, w_eff_g),
                    h_eff_g <= self@.height,
                    w_eff_g <= self@.width,
                    region.y + out_h <= self@.height,
                    out_w > 0 ==> region.x + out_w <= self@.width,
                    self.wf(),
                    forall|j: int| 0 <= j < dx ==> #[trigger] rowv@[j] ==
                        self@.pixels[region.y + dy][region.x + j],
                decreases out_w - dx,
            {
                let x = (region.x as usize) + dx;
                proof {
                    assert(rows_view(self.pixels@)[y as int] == self.pixels@[y as int]@);
                    assert(self@.pixels[y as int].len() == self@.width);
                }
                let row = &self.pixels[y];
                let p = row[x];
                rowv.push(p);
                dx = dx + 1;
            }
            proof {
                assert(rowv@ =~= read_pixels_spec(self@.pixels, w_eff_g, h_eff_g, region)[dy as int]);
            }
            out.push(rowv);
            dy = dy + 1;
        }
        proof {
            assert(rows_view(out@) =~~= read_pixels_spec(self@.pixels, w_eff_g, h_eff_g, region));
        }
        out
    }

    /// Serves one complete interaction: applies its effect and returns the
    /// reply its label owes. One call is one checkout of the shared channel.
    pub fn handle_interaction(&mut self, interaction: CanvasInteraction) -> (reply: InteractionReply)
        requires
            old(self).wf(),
        ensures
            final(self).wf(),
            final(self)@ == model_after_interaction(old(self)@, interaction),
            reply_matches(old(self)@, interaction, reply),
    {
        match interaction {
            CanvasInteraction::Message(msg) => {
                self.apply_message(msg);
                InteractionReply::NoReply
            },
            CanvasInteraction::Messages(msgs) => {
                self.apply_messages(msgs);
                InteractionReply::NoReply
            },
            CanvasInteraction::GetTransform => InteractionReply::Transform(self.state.transform),
            CanvasInteraction::GetImageData(region, size, _sink) => {
                let px = self.read_pixels(region, size);
                InteractionReply::Pixels(px)
            },
            CanvasInteraction::IsPointInPath(x, y, rule) => InteractionReply::PointTest(
                self.is_point_in_path(x, y, rule),
            ),
            CanvasInteraction::FromLayout => InteractionReply::Snapshot(self.image_key),
            CanvasInteraction::FromScript(sink) => {
                self.sinks.push(sink);
                proof {
                    assert(self@ =~~= model_after_interaction(old(self)@, interaction));
                }
                InteractionReply::NoReply
            },
        }
    }

    /// Records the renderer-visible handle once the compositor has one.
    pub fn set_image_key(&mut self, key: u64)
        requires
            old(self).wf(),
        ensures
            final(self).wf(),
            final(self)@ == (ActorModel { image_key: Some(key), ..old(self)@ }),
    {
        self.image_key = Some(key);
        proof {
            assert(self@ =~~= (ActorModel { image_key: Some(key), ..old(self)@ }));
        }
    }

    pub fn width(&self) -> (w: u32)
        ensures
            w == self@.width,
    {
        self.width
    }

    pub fn height(&self) -> (h: u32)
        ensures
            h == self@.height,
    {
        self.height
    }

    pub fn antialias(&self) -> (a: bool)
        ensures
            a == self@.antialias,
    {
        self.antialias
    }

    /// The current transform, as the `transform query` label replies it.
    pub fn transform(&self) -> (t: Transform2)
        ensures
            t == self@.state.transform,
    {
        self.state.transform
    }

    pub fn draw_state(&self) -> (s: DrawState)
        ensures
            s == self@.state,
    {
        self.state
    }

    pub fn saved_depth(&self) -> (n: usize)
        ensures
            n == self@.saved.len(),
    {
        self.saved.len()
    }

    pub fn path_len(&self) -> (n: usize)
        ensures
            n == self@.path.len(),
    {
        self.path.len()
    }

    /// The ordered log of every operation handed to the actor.
    pub fn applied(&self) -> (log: &Vec<CanvasMessage>)
        ensures
            log@ == self@.applied,
    {
        &self.applied
    }

    pub fn applied_len(&self) -> (n: usize)
        ensures
            n == self@.applied.len(),
    {
        self.applied.len()
    }

    pub fn image_key(&self) -> (k: Option<u64>)
        ensures
            k == self@.image_key,
    {
        self.image_key
    }

    /// The registered pixel sinks, in registration order.
    pub fn pixel_sinks(&self) -> (s: &Vec<u64>)
        ensures
            s@ == self@.sinks,
    {
        &self.sinks
    }

    /// One pixel of the surface.
    pub fn pixel(&self, x: u32, y: u32) -> (p: u32)
        requires
            self.wf(),
            x < self@.width,
            y < self@.height,
        ensures
            p == self@.pixels[y as int][x as int],
    {
        proof {
            assert(rows_view(self.pixels@)[y as int] == self.pixels@[y as int]@);
            assert(self@.pixels[y as int].len() == self@.width);
        }
        let row = &self.pixels[y as usize];
        row[x as usize]
    }
}

} // verus!
