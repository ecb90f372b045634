//! What waits to be drawn while a ticket is laid out, what is drawn in the
//! end, and how far down the page each thing reaches.

use vstd::prelude::*;
use crate::units::{coord_ok, line_spacing, MARGIN_LEFT, MARGIN_RIGHT, MAX_TEXT_CHARS};
use crate::wrap::{line_views, ParrafoLine};

verus! {

/// A paragraph that waits to be drawn: its lines, its font, and the offset
/// of its first baseline from the top of the content.
#[derive(Clone, Debug, PartialEq, Eq)]
pub struct ParagraphData {
    pub lines: Vec<ParrafoLine>,
    pub font_size: u16,
    pub light: bool,
    pub y_inicial: i64,
}

/// What a pending paragraph holds.
pub struct ParagraphView {
    pub lines: Seq<(Seq<char>, int)>,
    pub font_size: u16,
    pub light: bool,
    pub y_inicial: int,
}

impl View for ParagraphData {
    type V = ParagraphView;

    open spec fn view(&self) -> ParagraphView {
        ParagraphView {
            lines: line_views(self.lines@),
            font_size: self.font_size,
            light: self.light,
            y_inicial: self.y_inicial as int,
        }
    }
}

/// A polygon that waits to be drawn: its corners, each a horizontal
/// position and an offset from the top of the content.
#[derive(Clone, Debug, PartialEq, Eq)]
pub struct PolygonPreMake {
    pub points: Vec<(i64, i64)>,
}

impl View for PolygonPreMake {
    type V = Seq<(i64, i64)>;

    open spec fn view(&self) -> Seq<(i64, i64)> {
        self.points@
    }
}

/// An image that waits to be drawn: the asset's name and size in pixels,
/// where its lower left corner goes and how large it is to appear.
#[derive(Clone, Debug, PartialEq, Eq)]
pub struct ImagePreMake {
    pub icono: String,
    pub x: i64,
    pub y: i64,
    pub mm_x: i64,
    pub mm_y: i64,
    pub px_width: u32,
    pub px_height: u32,
}

/// What a pending image holds.
pub struct ImageView {
    pub icono: Seq<char>,
    pub x: int,
    pub y: int,
    pub mm_x: int,
    pub mm_y: int,
    pub px_width: int,
    pub px_height: int,
}

impl View for ImagePreMake {
    type V = ImageView;

    open spec fn view(&self) -> ImageView {
        ImageView {
            icono: self.icono@,
            x: self.x as int,
            y: self.y as int,
            mm_x: self.mm_x as int,
            mm_y: self.mm_y as int,
            px_width: self.px_width as int,
            px_height: self.px_height as int,
        }
    }
}

/// A scale factor as an exact fraction.
#[derive(Clone, Copy, Debug, PartialEq, Eq, Structural)]
pub struct Scale {
    pub num: i64,
    pub den: i64,
}

/// One primitive for the rendering backend, in the backend's frame: lengths
/// in micrometres, vertical positions measured upward from the bottom of
/// the page.
#[derive(Clone, Debug, PartialEq, Eq)]
pub enum DrawOp {
    /// A run of text with its left end on the baseline at (`x`, `y`).
    Text { text: String, font_size: u16, x: i64, y: i64, light: bool },
    /// A filled and stroked polygon through `points`.
    Polygon { points: Vec<(i64, i64)> },
    /// The asset `icono` with its lower left corner at (`x`, `y`).
    Image { icono: String, x: i64, y: i64, scale_x: Scale, scale_y: Scale },
}

/// What a primitive holds.
pub enum DrawOpView {
    Text { text: Seq<char>, font_size: u16, x: int, y: int, light: bool },
    Polygon { points: Seq<(int, int)> },
    Image { icono: Seq<char>, x: int, y: int, scale_x: (int, int), scale_y: (int, int) },
}

impl View for DrawOp {
    type V = DrawOpView;

    open spec fn view(&self) -> DrawOpView {
        match self {
            DrawOp::Text { text, font_size, x, y, light } => DrawOpView::Text {
                text: text@,
                font_size: *font_size,
                x: *x as int,
                y: *y as int,
                light: *light,
            },
            DrawOp::Polygon { points } => DrawOpView::Polygon {
                points: points@.map_values(|p: (i64, i64)| (p.0 as int, p.1 as int)),
            },
            DrawOp::Image { icono, x, y, scale_x, scale_y } => DrawOpView::Image {
                icono: icono@,
                x: *x as int,
                y: *y as int,
                scale_x: (scale_x.num as int, scale_x.den as int),
                scale_y: (scale_y.num as int, scale_y.den as int),
            },
        }
    }
}

/// The views of the primitives of `ops`.
pub open spec fn op_views(ops: Seq<DrawOp>) -> Seq<DrawOpView> {
    ops.map_values(|op: DrawOp| op@)
}

/// Position on a page of height `height`, measured upward from its bottom,
/// of the offset `y`, whose magnitude is measured downward from the top.
pub open spec fn physical_y(height: int, y: int) -> int {
    if y >= 0 {
        height - y
    } else {
        height + y
    }
}

/// The factor that shows `pixels` pixels at 300 per inch on `length`
/// micrometres: `length` over the natural size of 25.4 mm per 300 pixels.
pub open spec fn scale_for(length: int, pixels: int) -> (int, int) {
    (3 * length, 254 * pixels)
}

/// Offset below the top that a paragraph reaches: its first baseline and
/// one line spacing for each line.
pub open spec fn paragraph_extent(p: ParagraphView) -> int {
    p.y_inicial + p.lines.len() * line_spacing(p.font_size)
}

/// Offset below the top that a polygon reaches: the largest of its corners'
/// offsets, and 0 where it has none.
pub open spec fn polygon_extent(g: Seq<(i64, i64)>) -> int
    decreases g.len(),
{
    if g.len() == 0 {
        0
    } else if g.len() == 1 {
        g[0].1 as int
    } else if polygon_extent(g.drop_last()) >= g.last().1 {
        polygon_extent(g.drop_last())
    } else {
        g.last().1 as int
    }
}

/// Offset below the top that an image reaches: its offset and its height.
pub open spec fn image_extent(m: ImageView) -> int {
    m.y + m.mm_y
}

/// Page height that a paragraph asks for: its extent, and nothing where it
/// is placed by a negative offset.
pub open spec fn paragraph_reach(p: ParagraphView) -> int {
    if p.y_inicial >= 0 {
        paragraph_extent(p)
    } else {
        0
    }
}

/// Page height that an image asks for: its extent, and nothing where it is
/// placed by a negative offset.
pub open spec fn image_reach(m: ImageView) -> int {
    if m.y >= 0 {
        image_extent(m)
    } else {
        0
    }
}

/// The larger of two heights.
pub open spec fn higher(a: int, b: int) -> int {
    if a >= b {
        a
    } else {
        b
    }
}

/// Page height that the paragraphs `ps` ask for: the largest that one of
/// them asks for, and 0 without any.
pub open spec fn paragraphs_reach(ps: Seq<ParagraphView>) -> int
    decreases ps.len(),
{
    if ps.len() == 0 {
        0
    } else {
        higher(paragraphs_reach(ps.drop_last()), paragraph_reach(ps.last()))
    }
}

/// Page height that the polygons `gs` ask for.
pub open spec fn polygons_reach(gs: Seq<Seq<(i64, i64)>>) -> int
    decreases gs.len(),
{
    if gs.len() == 0 {
        0
    } else {
        higher(polygons_reach(gs.drop_last()), polygon_extent(gs.last()))
    }
}

/// Page height that the images `ms` ask for.
pub open spec fn images_reach(ms: Seq<ImageView>) -> int
    decreases ms.len(),
{
    if ms.len() == 0 {
        0
    } else {
        higher(images_reach(ms.drop_last()), image_reach(ms.last()))
    }
}

/// The paragraphs ask for the largest height that one of them asks for:
/// none asks for more, and with any height at all one of them asks for it.
pub proof fn lemma_paragraphs_reach_is_largest(ps: Seq<ParagraphView>)
    ensures
        0 <= paragraphs_reach(ps),
        forall|k: int|
            0 <= k < ps.len() ==> paragraph_reach(#[trigger] ps[k]) <= paragraphs_reach(ps),
        paragraphs_reach(ps) == 0 || exists|k: int|
            0 <= k < ps.len() && paragraph_reach(#[trigger] ps[k]) == paragraphs_reach(ps),
    decreases ps.len(),
{
    if ps.len() > 0 {
        let init = ps.drop_last();
        lemma_paragraphs_reach_is_largest(init);
        assert forall|k: int| 0 <= k < ps.len() implies paragraph_reach(#[trigger] ps[k])
            <= paragraphs_reach(ps) by {
            if k < init.len() {
                assert(ps[k] == init[k]);
            }
        }
        if paragraphs_reach(ps) != 0 {
            if paragraphs_reach(ps) == paragraph_reach(ps.last()) {
                assert(ps[ps.len() - 1] == ps.last());
            } else {
                let k = choose|k: int|
                    0 <= k < init.len() && paragraph_reach(#[trigger] init[k]) == paragraphs_reach(
                        init,
                    );
                assert(ps[k] == init[k]);
            }
        }
    }
}

/// The polygons ask for the largest height that one of them reaches: none
/// reaches further, and with any height at all one of them reaches it.
pub proof fn lemma_polygons_reach_is_largest(gs: Seq<Seq<(i64, i64)>>)
    ensures
        0 <= polygons_reach(gs),
        forall|k: int| 0 <= k < gs.len() ==> polygon_extent(#[trigger] gs[k]) <= polygons_reach(gs),
        polygons_reach(gs) == 0 || exists|k: int|
            0 <= k < gs.len() && polygon_extent(#[trigger] gs[k]) == polygons_reach(gs),
    decreases gs.len(),
{
    if gs.len() > 0 {
        let init = gs.drop_last();
        lemma_polygons_reach_is_largest(init);
        assert forall|k: int| 0 <= k < gs.len() implies polygon_extent(#[trigger] gs[k])
            <= polygons_reach(gs) by {
            if k < init.len() {
                assert(gs[k] == init[k]);
            }
        }
        if polygons_reach(gs) != 0 {
            if polygons_reach(gs) == polygon_extent(gs.last()) {
                assert(gs[gs.len() - 1] == gs.last());
            } else {
                let k = choose|k: int|
                    0 <= k < init.len() && polygon_extent(#[trigger] init[k]) == polygons_reach(
                        init,
                    );
                assert(gs[k] == init[k]);
            }
        }
    }
}

/// The images ask for the largest height that one of them asks for: none
/// asks for more, and with any height at all one of them asks for it.
pub proof fn lemma_images_reach_is_largest(ms: Seq<ImageView>)
    ensures
        0 <= images_reach(ms),
        forall|k: int| 0 <= k < ms.len() ==> image_reach(#[trigger] ms[k]) <= images_reach(ms),
        images_reach(ms) == 0 || exists|k: int|
            0 <= k < ms.len() && image_reach(#[trigger] ms[k]) == images_reach(ms),
    decreases ms.len(),
{
    if ms.len() > 0 {
        let init = ms.drop_last();
        lemma_images_reach_is_largest(init);
        assert forall|k: int| 0 <= k < ms.len() implies image_reach(#[trigger] ms[k])
            <= images_reach(ms) by {
            if k < init.len() {
                assert(ms[k] == init[k]);
            }
        }
        if images_reach(ms) != 0 {
            if images_reach(ms) == image_reach(ms.last()) {
                assert(ms[ms.len() - 1] == ms.last());
            } else {
                let k = choose|k: int|
                    0 <= k < init.len() && image_reach(#[trigger] init[k]) == images_reach(init);
                assert(ms[k] == init[k]);
            }
        }
    }
}

/// What is placed by a negative offset asks for no height, and is drawn
/// the magnitude of its offset below the top of the page.
pub proof fn lemma_negative_offsets(p: ParagraphView, m: ImageView, height: int, y: int)
    requires
        y < 0,
    ensures
        p.y_inicial < 0 ==> paragraph_reach(p) == 0,
        m.y < 0 ==> image_reach(m) == 0,
        physical_y(height, y) == height - (-y),
        physical_y(height, y) == physical_y(height, -y),
{
}

/// A paragraph that can be drawn without leaving the range of the
/// coordinates.
pub open spec fn paragraph_ok(p: ParagraphView) -> bool {
    &&& -crate::units::MAX_COORD <= p.y_inicial <= crate::units::MAX_COORD
    &&& p.lines.len() <= MAX_TEXT_CHARS + 2
}

/// A polygon whose corners are in the range of the coordinates.
pub open spec fn polygon_ok(g: Seq<(i64, i64)>) -> bool {
    forall|k: int| 0 <= k < g.len() ==> coord_ok((#[trigger] g[k]).0) && coord_ok(g[k].1)
}

/// An image whose position and size are in the range of the coordinates.
pub open spec fn image_ok(m: ImageView) -> bool {
    &&& -crate::units::MAX_COORD <= m.x <= crate::units::MAX_COORD
    &&& -crate::units::MAX_COORD <= m.y <= crate::units::MAX_COORD
    &&& -crate::units::MAX_COORD <= m.mm_x <= crate::units::MAX_COORD
    &&& -crate::units::MAX_COORD <= m.mm_y <= crate::units::MAX_COORD
}

/// The corners of the horizontal rule at the offset `y`: from the left edge
/// of the body to the right one, each end twice.
pub open spec fn horizontal_rule(y: i64) -> Seq<(i64, i64)> {
    seq![(MARGIN_LEFT, y), (MARGIN_LEFT, y), (MARGIN_RIGHT, y), (MARGIN_RIGHT, y)]
}

/// The ends of the vertical rule at the horizontal position `x` between the
/// offsets `y1` and `y2`.
pub open spec fn vertical_rule(x: i64, y1: i64, y2: i64) -> Seq<(i64, i64)> {
    seq![(x, y1), (x, y2)]
}

/// A horizontal rule reaches its offset.
pub proof fn lemma_horizontal_rule_extent(y: i64)
    ensures
        polygon_extent(horizontal_rule(y)) == y,
{
    let g = horizontal_rule(y);
    let g3 = g.drop_last();
    let g2 = g3.drop_last();
    let g1 = g2.drop_last();
    assert(g1.len() == 1 && g1[0].1 == y);
    assert(polygon_extent(g1) == y);
    assert(g2.last().1 == y);
    assert(polygon_extent(g2) == y);
    assert(g3.last().1 == y);
    assert(polygon_extent(g3) == y);
    assert(g.last().1 == y);
}

/// A vertical rule reaches the larger of its two offsets.
pub proof fn lemma_vertical_rule_extent(x: i64, y1: i64, y2: i64)
    ensures
        polygon_extent(vertical_rule(x, y1, y2)) == higher(y1 as int, y2 as int),
{
    let g = vertical_rule(x, y1, y2);
    let g1 = g.drop_last();
    assert(g1.len() == 1 && g1[0].1 == y1);
    assert(polygon_extent(g1) == y1);
    assert(g.last().1 == y2);
}

/// A horizontal rule across the body at the offset `y`.
pub fn set_linea_horizontal(y: i64) -> (r: PolygonPreMake)
    ensures
        r@ == horizontal_rule(y),
{
    let mut points: Vec<(i64, i64)> = Vec::new();
    points.push((MARGIN_LEFT, y));
    points.push((MARGIN_LEFT, y));
    points.push((MARGIN_RIGHT, y));
    points.push((MARGIN_RIGHT, y));
    assert(points@ =~= horizontal_rule(y));
    PolygonPreMake { points }
}

/// The two vertical rules of a frame between the offsets `y1` and `y2`:
/// first the one on the right edge of the body, then the one on the left.
pub fn set_linea_vertical(y1: i64, y2: i64) -> (r: (PolygonPreMake, PolygonPreMake))
    ensures
        r.0@ == vertical_rule(MARGIN_RIGHT, y1, y2),
        r.1@ == vertical_rule(MARGIN_LEFT, y1, y2),
{
    let mut right: Vec<(i64, i64)> = Vec::new();
    right.push((MARGIN_RIGHT, y1));
    right.push((MARGIN_RIGHT, y2));
    let mut left: Vec<(i64, i64)> = Vec::new();
    left.push((MARGIN_LEFT, y1));
    left.push((MARGIN_LEFT, y2));
    assert(right@ =~= vertical_rule(MARGIN_RIGHT, y1, y2));
    assert(left@ =~= vertical_rule(MARGIN_LEFT, y1, y2));
    (PolygonPreMake { points: right }, PolygonPreMake { points: left })
}

/// Executable form of `scale_for`.
pub fn scale_of(length: i64, pixels: u32) -> (r: Scale)
    requires
        coord_ok(length),
    ensures
        (r.num as int, r.den as int) == scale_for(length as int, pixels as int),
{
    Scale { num: 3 * length, den: 254 * (pixels as i64) }
}

/// Executable form of `physical_y`.
pub fn flip_y(height: i64, y: i64) -> (r: i64)
    requires
        0 <= height <= 0x4000_0000_0000_0000,
        coord_ok(y),
    ensures
        r == physical_y(height as int, y as int),
{
    if y >= 0 {
        height - y
    } else {
        height + y
    }
}

impl PolygonPreMake {
    /// The corners on a page of height `height`, in the backend's frame.
    pub open spec fn resolved(g: Seq<(i64, i64)>, height: int) -> Seq<(int, int)> {
        g.map_values(|p: (i64, i64)| (p.0 as int, physical_y(height, p.1 as int)))
    }

    /// The corners on a page of height `height`, in the backend's frame.
    pub fn resolve(&self, height: i64) -> (r: Vec<(i64, i64)>)
        requires
            0 <= height <= 0x4000_0000_0000_0000,
            polygon_ok(self@),
        ensures
            r@.map_values(|p: (i64, i64)| (p.0 as int, p.1 as int)) == Self::resolved(
                self@,
                height as int,
            ),
    {
        let mut out: Vec<(i64, i64)> = Vec::new();
        let mut k: usize = 0;
        while k < self.points.len()
            invariant
                k <= self.points@.len(),
                0 <= height <= 0x4000_0000_0000_0000,
                polygon_ok(self@),
                out@.len() == k,
                forall|j: int|
                    0 <= j < k ==> (#[trigger] out@[j]).0 == self.points@[j].0 && out@[j].1
                        == physical_y(height as int, self.points@[j].1 as int),
            decreases self.points.len() - k,
        {
            let p = self.points[k];
            out.push((p.0, flip_y(height, p.1)));
            k = k + 1;
        }
        assert(out@.map_values(|p: (i64, i64)| (p.0 as int, p.1 as int)) =~= Self::resolved(
            self@,
            height as int,
        ));
        out
    }
}

} // verus!
