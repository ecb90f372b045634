//! The ticket in the making: content is placed kind by kind while the page
//! height grows, then the page is settled and everything is drawn.

use vstd::prelude::*;
use crate::commands::{
    flip_y, higher, horizontal_rule, image_ok, image_reach, images_reach,
    lemma_horizontal_rule_extent, lemma_images_reach_is_largest,
    lemma_paragraphs_reach_is_largest, lemma_polygons_reach_is_largest,
    lemma_vertical_rule_extent, op_views, paragraph_extent, paragraph_ok, paragraph_reach,
    paragraphs_reach, physical_y, polygon_extent, polygon_ok, polygons_reach, scale_for,
    scale_of, vertical_rule, DrawOp, DrawOpView, ImageView, ParagraphView,
};
use crate::glyphs::{face_parse_failure, load_error_of, FontLoadError};
use crate::units::{
    coord_ok, line_spacing, spacing_of, MARGIN_LEFT, MARGIN_RIGHT, MAX_COORD, MAX_TEXT_CHARS,
    PAGE_WIDTH,
};
use crate::wrap::{layout_lines, layout_parrafo, line_views, wrap_text};

pub use crate::commands::{
    set_linea_horizontal, set_linea_vertical, ImagePreMake, ParagraphData, PolygonPreMake,
};
pub use crate::format::{format_clp, format_datetime};
pub use crate::glyphs::FontData;
pub use crate::wrap::ParrafoLine;

verus! {

/// The page once its height is settled: its width and height in
/// micrometres.
#[derive(Clone, Copy, Debug, PartialEq, Eq, Structural)]
pub struct CurrentPdf {
    pub width: i64,
    pub height: i64,
}

/// A ticket in the making: the two typefaces, what waits to be drawn, kind
/// by kind and in the order in which it came, and the page height that the
/// content asks for so far.
pub struct PdfResources<'a> {
    pub bold: FontData<'a>,
    pub light: FontData<'a>,
    pub paragraphs: Vec<ParagraphData>,
    pub polygons: Vec<PolygonPreMake>,
    pub imgs: Vec<ImagePreMake>,
    pub current_pdf: Option<CurrentPdf>,
    pub page_height: i64,
}

/// The text runs of a paragraph whose first baseline is at the height
/// `base`: one for each line, each one line spacing below the one before.
pub open spec fn line_ops(
    lines: Seq<(Seq<char>, int)>,
    font_size: u16,
    light: bool,
    base: int,
) -> Seq<DrawOpView> {
    Seq::new(
        lines.len(),
        |k: int|
            DrawOpView::Text {
                text: lines[k].0,
                font_size,
                x: lines[k].1,
                y: base - k * line_spacing(font_size),
                light,
            },
    )
}

/// The text runs of the paragraphs `ps` on a page of height `height`.
pub open spec fn paragraphs_ops(ps: Seq<ParagraphView>, height: int) -> Seq<DrawOpView>
    decreases ps.len(),
{
    if ps.len() == 0 {
        Seq::empty()
    } else {
        paragraphs_ops(ps.drop_last(), height) + line_ops(
            ps.last().lines,
            ps.last().font_size,
            ps.last().light,
            physical_y(height, ps.last().y_inicial),
        )
    }
}

/// The polygons `gs` on a page of height `height`.
pub open spec fn polygons_ops(gs: Seq<Seq<(i64, i64)>>, height: int) -> Seq<DrawOpView> {
    gs.map_values(
        |g: Seq<(i64, i64)>| DrawOpView::Polygon { points: PolygonPreMake::resolved(g, height) },
    )
}

/// The image `m` on a page of height `height`.
pub open spec fn image_op(m: ImageView, height: int) -> DrawOpView {
    DrawOpView::Image {
        icono: m.icono,
        x: m.x,
        y: physical_y(height, m.y),
        scale_x: scale_for(m.mm_x, m.px_width),
        scale_y: scale_for(m.mm_y, m.px_height),
    }
}

/// The images `ms` on a page of height `height`.
pub open spec fn images_ops(ms: Seq<ImageView>, height: int) -> Seq<DrawOpView> {
    ms.map_values(|m: ImageView| image_op(m, height))
}

/// Everything that is drawn on a page of height `height`: the text of all
/// paragraphs first, then all polygons, then all images, each kind in the
/// order in which it was placed.
pub open spec fn emission(
    ps: Seq<ParagraphView>,
    gs: Seq<Seq<(i64, i64)>>,
    ms: Seq<ImageView>,
    height: int,
) -> Seq<DrawOpView> {
    paragraphs_ops(ps, height) + polygons_ops(gs, height) + images_ops(ms, height)
}

/// Page height that the content asks for: the largest reach of anything
/// placed, and 0 for an empty ticket.
pub open spec fn content_height(
    ps: Seq<ParagraphView>,
    gs: Seq<Seq<(i64, i64)>>,
    ms: Seq<ImageView>,
) -> int {
    higher(higher(paragraphs_reach(ps), polygons_reach(gs)), images_reach(ms))
}

/// The height that the content asks for is the largest that anything placed
/// asks for: nothing placed asks for more, and with any height at all
/// something placed asks for just that much.
pub proof fn lemma_content_height_is_largest(
    ps: Seq<ParagraphView>,
    gs: Seq<Seq<(i64, i64)>>,
    ms: Seq<ImageView>,
)
    ensures
        0 <= content_height(ps, gs, ms),
        forall|k: int|
            0 <= k < ps.len() ==> paragraph_reach(#[trigger] ps[k]) <= content_height(ps, gs, ms),
        forall|k: int|
            0 <= k < gs.len() ==> polygon_extent(#[trigger] gs[k]) <= content_height(ps, gs, ms),
        forall|k: int|
            0 <= k < ms.len() ==> image_reach(#[trigger] ms[k]) <= content_height(ps, gs, ms),
        ({
            ||| content_height(ps, gs, ms) == 0
            ||| exists|k: int|
                0 <= k < ps.len() && paragraph_reach(#[trigger] ps[k]) == content_height(ps, gs, ms)
            ||| exists|k: int|
                0 <= k < gs.len() && polygon_extent(#[trigger] gs[k]) == content_height(ps, gs, ms)
            ||| exists|k: int|
                0 <= k < ms.len() && image_reach(#[trigger] ms[k]) == content_height(ps, gs, ms)
        }),
{
    lemma_paragraphs_reach_is_largest(ps);
    lemma_polygons_reach_is_largest(gs);
    lemma_images_reach_is_largest(ms);
}

/// The height that the content asks for does not depend on the order in
/// which the things of one kind were placed.
pub proof fn lemma_content_height_ignores_order(
    ps: Seq<ParagraphView>,
    gs: Seq<Seq<(i64, i64)>>,
    ms: Seq<ImageView>,
    ps2: Seq<ParagraphView>,
    gs2: Seq<Seq<(i64, i64)>>,
    ms2: Seq<ImageView>,
)
    requires
        ps.to_multiset() == ps2.to_multiset(),
        gs.to_multiset() == gs2.to_multiset(),
        ms.to_multiset() == ms2.to_multiset(),
    ensures
        content_height(ps, gs, ms) == content_height(ps2, gs2, ms2),
{
    ps.to_multiset_ensures();
    ps2.to_multiset_ensures();
    gs.to_multiset_ensures();
    gs2.to_multiset_ensures();
    ms.to_multiset_ensures();
    ms2.to_multiset_ensures();
    lemma_paragraphs_reach_is_largest(ps);
    lemma_paragraphs_reach_is_largest(ps2);
    lemma_polygons_reach_is_largest(gs);
    lemma_polygons_reach_is_largest(gs2);
    lemma_images_reach_is_largest(ms);
    lemma_images_reach_is_largest(ms2);
    assert(paragraphs_reach(ps) == paragraphs_reach(ps2)) by {
        assert forall|k: int| 0 <= k < ps.len() implies paragraph_reach(#[trigger] ps[k])
            <= paragraphs_reach(ps2) by {
            assert(ps.contains(ps[k]));
            assert(ps.to_multiset().count(ps[k]) > 0);
            assert(ps2.to_multiset().count(ps[k]) > 0);
            assert(ps2.contains(ps[k]));
            let j = choose|j: int| 0 <= j < ps2.len() && ps2[j] == ps[k];
            assert(paragraph_reach(ps2[j]) <= paragraphs_reach(ps2));
        }
        assert forall|k: int| 0 <= k < ps2.len() implies paragraph_reach(#[trigger] ps2[k])
            <= paragraphs_reach(ps) by {
            assert(ps2.contains(ps2[k]));
            assert(ps2.to_multiset().count(ps2[k]) > 0);
            assert(ps.to_multiset().count(ps2[k]) > 0);
            assert(ps.contains(ps2[k]));
            let j = choose|j: int| 0 <= j < ps.len() && ps[j] == ps2[k];
            assert(paragraph_reach(ps[j]) <= paragraphs_reach(ps));
        }
    }
    assert(polygons_reach(gs) == polygons_reach(gs2)) by {
        assert forall|k: int| 0 <= k < gs.len() implies polygon_extent(#[trigger] gs[k])
            <= polygons_reach(gs2) by {
            assert(gs.contains(gs[k]));
            assert(gs.to_multiset().count(gs[k]) > 0);
            assert(gs2.to_multiset().count(gs[k]) > 0);
            assert(gs2.contains(gs[k]));
            let j = choose|j: int| 0 <= j < gs2.len() && gs2[j] == gs[k];
            assert(polygon_extent(gs2[j]) <= polygons_reach(gs2));
        }
        assert forall|k: int| 0 <= k < gs2.len() implies polygon_extent(#[trigger] gs2[k])
            <= polygons_reach(gs) by {
            assert(gs2.contains(gs2[k]));
            assert(gs2.to_multiset().count(gs2[k]) > 0);
            assert(gs.to_multiset().count(gs2[k]) > 0);
            assert(gs.contains(gs2[k]));
            let j = choose|j: int| 0 <= j < gs.len() && gs[j] == gs2[k];
            assert(polygon_extent(gs[j]) <= polygons_reach(gs));
        }
    }
    assert(images_reach(ms) == images_reach(ms2)) by {
        assert forall|k: int| 0 <= k < ms.len() implies image_reach(#[trigger] ms[k])
            <= images_reach(ms2) by {
            assert(ms.contains(ms[k]));
            assert(ms.to_multiset().count(ms[k]) > 0);
            assert(ms2.to_multiset().count(ms[k]) > 0);
            assert(ms2.contains(ms[k]));
            let j = choose|j: int| 0 <= j < ms2.len() && ms2[j] == ms[k];
            assert(image_reach(ms2[j]) <= images_reach(ms2));
        }
        assert forall|k: int| 0 <= k < ms2.len() implies image_reach(#[trigger] ms2[k])
            <= images_reach(ms) by {
            assert(ms2.contains(ms2[k]));
            assert(ms2.to_multiset().count(ms2[k]) > 0);
            assert(ms.to_multiset().count(ms2[k]) > 0);
            assert(ms.contains(ms2[k]));
            let j = choose|j: int| 0 <= j < ms.len() && ms[j] == ms2[k];
            assert(image_reach(ms[j]) <= images_reach(ms));
        }
    }
}

/// A paragraph of a text that is empty or white space alone has no line and
/// reaches no further than its own offset.
pub proof fn lemma_blank_paragraph(
    font: &FontData,
    text: Seq<char>,
    font_size: u16,
    max_width: i64,
    tipo: i8,
    light: bool,
    y_inicial: int,
)
    requires
        forall|i: int| 0 <= i < text.len() ==> crate::text::is_space(#[trigger] text[i]),
    ensures
        layout_lines(font, text, font_size, max_width, tipo).len() == 0,
        paragraph_extent(
            ParagraphView {
                lines: layout_lines(font, text, font_size, max_width, tipo),
                font_size,
                light,
                y_inicial,
            },
        ) == y_inicial,
{
    crate::wrap_laws::lemma_wrap_of_blank(font, text, font_size, max_width);
}

/// The largest page height.
pub const MAX_HEIGHT: i64 = 0x4000_0000_0000_0000;

/// No paragraph in range asks for more than the largest page height.
pub proof fn lemma_paragraphs_reach_bound(ps: Seq<ParagraphView>)
    requires
        forall|k: int| 0 <= k < ps.len() ==> paragraph_ok(#[trigger] ps[k]),
    ensures
        0 <= paragraphs_reach(ps) <= MAX_HEIGHT,
    decreases ps.len(),
{
    if ps.len() > 0 {
        lemma_paragraphs_reach_bound(ps.drop_last());
        let p = ps.last();
        assert(paragraph_ok(p));
        let n = p.lines.len() as int;
        let s = line_spacing(p.font_size);
        assert(0 <= n * s <= 0x1_0000_0001 * 262140) by (nonlinear_arith)
            requires
                0 <= n <= 0x1_0000_0001,
                0 <= s <= 262140,
        ;
    }
}

/// No polygon in range reaches beyond the range of the coordinates.
pub proof fn lemma_polygon_extent_bound(g: Seq<(i64, i64)>)
    requires
        polygon_ok(g),
    ensures
        -MAX_COORD <= polygon_extent(g) <= MAX_COORD,
    decreases g.len(),
{
    if g.len() > 1 {
        lemma_polygon_extent_bound(g.drop_last());
        assert(coord_ok(g[g.len() - 1].1));
    } else if g.len() == 1 {
        assert(coord_ok(g[0].1));
    }
}

/// No polygon in range asks for more than the largest page height.
pub proof fn lemma_polygons_reach_bound(gs: Seq<Seq<(i64, i64)>>)
    requires
        forall|k: int| 0 <= k < gs.len() ==> polygon_ok(#[trigger] gs[k]),
    ensures
        0 <= polygons_reach(gs) <= MAX_HEIGHT,
    decreases gs.len(),
{
    if gs.len() > 0 {
        lemma_polygons_reach_bound(gs.drop_last());
        assert(polygon_ok(gs.last()));
        lemma_polygon_extent_bound(gs.last());
    }
}

/// No image in range asks for more than the largest page height.
pub proof fn lemma_images_reach_bound(ms: Seq<ImageView>)
    requires
        forall|k: int| 0 <= k < ms.len() ==> image_ok(#[trigger] ms[k]),
    ensures
        0 <= images_reach(ms) <= MAX_HEIGHT,
    decreases ms.len(),
{
    if ms.len() > 0 {
        lemma_images_reach_bound(ms.drop_last());
        assert(image_ok(ms.last()));
    }
}

impl<'a> PdfResources<'a> {
    /// What the pending paragraphs hold.
    pub open spec fn paragraph_views(&self) -> Seq<ParagraphView> {
        self.paragraphs@.map_values(|p: ParagraphData| p@)
    }

    /// What the pending polygons hold.
    pub open spec fn polygon_views(&self) -> Seq<Seq<(i64, i64)>> {
        self.polygons@.map_values(|g: PolygonPreMake| g@)
    }

    /// What the pending images hold.
    pub open spec fn image_views(&self) -> Seq<ImageView> {
        self.imgs@.map_values(|m: ImagePreMake| m@)
    }

    /// The typeface that `light` selects.
    pub open spec fn font(&self, light: bool) -> &FontData<'a> {
        if light {
            &self.light
        } else {
            &self.bold
        }
    }

    /// Page height that the content asks for.
    pub open spec fn needed_height(&self) -> int {
        content_height(self.paragraph_views(), self.polygon_views(), self.image_views())
    }

    /// Whether content can still be placed: the page height is not settled.
    pub open spec fn is_open(&self) -> bool {
        self.current_pdf is None
    }

    /// Both typefaces are sound, everything placed is in the range of the
    /// coordinates, and the page height is the one that the content asks
    /// for until it is settled; from then on it is the height of the page.
    pub open spec fn wf(&self) -> bool {
        &&& self.bold.wf()
        &&& self.light.wf()
        &&& forall|k: int|
            0 <= k < self.paragraph_views().len() ==> paragraph_ok(
                #[trigger] self.paragraph_views()[k],
            )
        &&& forall|k: int|
            0 <= k < self.polygon_views().len() ==> polygon_ok(#[trigger] self.polygon_views()[k])
        &&& forall|k: int|
            0 <= k < self.image_views().len() ==> image_ok(#[trigger] self.image_views()[k])
        &&& 0 <= self.page_height <= MAX_HEIGHT
        &&& self.current_pdf is None ==> self.page_height == self.needed_height()
        &&& self.current_pdf is Some ==> self.current_pdf->Some_0 == (CurrentPdf {
            width: PAGE_WIDTH,
            height: self.page_height,
        })
    }

    /// An empty ticket with the typefaces parsed from `bold_data` and
    /// `light_data`. Fails where one of them does not parse, with the error
    /// of the bold one where both fail.
    pub fn new(bold_data: &'a [u8], light_data: &'a [u8]) -> (r: Result<
        PdfResources<'a>,
        FontLoadError,
    >)
        ensures
            match (face_parse_failure(bold_data@, 0), face_parse_failure(light_data@, 0)) {
                (Some(e), _) => r == Err::<PdfResources<'a>, FontLoadError>(load_error_of(e)),
                (None, Some(e)) => r == Err::<PdfResources<'a>, FontLoadError>(load_error_of(e)),
                (None, None) => {
                    &&& r is Ok
                    &&& r->Ok_0.wf()
                    &&& r->Ok_0.is_open()
                    &&& r->Ok_0.page_height == 0
                    &&& r->Ok_0.paragraphs@.len() == 0
                    &&& r->Ok_0.polygons@.len() == 0
                    &&& r->Ok_0.imgs@.len() == 0
                    &&& r->Ok_0.bold.font_vec@ == bold_data@
                    &&& r->Ok_0.light.font_vec@ == light_data@
                },
            },
    {
        let bold = match FontData::load(bold_data) {
            Ok(font) => font,
            Err(e) => {
                return Err(e);
            },
        };
        let light = match FontData::load(light_data) {
            Ok(font) => font,
            Err(e) => {
                return Err(e);
            },
        };
        let res = PdfResources {
            bold,
            light,
            paragraphs: Vec::new(),
            polygons: Vec::new(),
            imgs: Vec::new(),
            current_pdf: None,
            page_height: 0,
        };
        Ok(res)
    }

    /// Places a paragraph: wraps `text` to `max_width` in the typeface that
    /// `light` selects, aligns each line by `tipo`, and keeps the lines to
    /// be drawn from the offset `y_inicial` on. Returns the offset just
    /// below the last line. The page grows to that offset unless
    /// `y_inicial` is negative.
    pub fn set_paragraph(
        &mut self,
        text: &str,
        font_size: u16,
        y_inicial: i64,
        max_width: i64,
        tipo: i8,
        light: bool,
    ) -> (final_y: i64)
        requires
            old(self).wf(),
            old(self).is_open(),
            text@.len() <= MAX_TEXT_CHARS,
            coord_ok(y_inicial),
            coord_ok(max_width),
        ensures
            final(self).wf(),
            final(self).is_open(),
            final(self).page_height >= old(self).page_height,
            final(self).paragraph_views() == old(self).paragraph_views().push(
                ParagraphView {
                    lines: layout_lines(old(self).font(light), text@, font_size, max_width, tipo),
                    font_size,
                    light,
                    y_inicial: y_inicial as int,
                },
            ),
            final(self).polygons == old(self).polygons,
            final(self).imgs == old(self).imgs,
            final(self).bold == old(self).bold,
            final(self).light == old(self).light,
            final_y == y_inicial + wrap_text(
                old(self).font(light),
                text@,
                font_size,
                max_width,
            ).len() * line_spacing(font_size),
            final(self).page_height == (if y_inicial >= 0 {
                higher(old(self).page_height as int, final_y as int)
            } else {
                old(self).page_height as int
            }),
    {
        let font_data: &FontData<'a> = if light {
            &self.light
        } else {
            &self.bold
        };
        let (lines, final_y) = layout_parrafo(
            text,
            font_size,
            y_inicial,
            max_width,
            tipo,
            font_data,
        );
        let paragraph_data = ParagraphData { lines, y_inicial, font_size, light };
        let ghost added = paragraph_data@;
        let ghost before = self.paragraph_views();
        proof {
            lemma_paragraphs_reach_bound(before.push(added));
            assert(before.push(added).drop_last() =~= before);
        }
        self.paragraphs.push(paragraph_data);
        proof {
            assert(self.paragraph_views() =~= before.push(added));
        }
        if y_inicial >= 0 && final_y > self.page_height {
            self.page_height = final_y;
        }
        final_y
    }

    /// Places a horizontal rule at the offset `y` and returns that offset.
    /// The page grows to it.
    pub fn set_linea(&mut self, y: i64) -> (extent: i64)
        requires
            old(self).wf(),
            old(self).is_open(),
            coord_ok(y),
        ensures
            final(self).wf(),
            final(self).is_open(),
            final(self).page_height >= old(self).page_height,
            final(self).polygon_views() == old(self).polygon_views().push(horizontal_rule(y)),
            final(self).paragraphs == old(self).paragraphs,
            final(self).imgs == old(self).imgs,
            final(self).bold == old(self).bold,
            final(self).light == old(self).light,
            extent == y,
            final(self).page_height == higher(old(self).page_height as int, y as int),
    {
        proof {
            lemma_horizontal_rule_extent(y);
        }
        self.push_polygon(set_linea_horizontal(y));
        y
    }

    /// Places a polygon. The page grows to the largest offset of its
    /// corners.
    pub fn push_polygon(&mut self, polygon: PolygonPreMake)
        requires
            old(self).wf(),
            old(self).is_open(),
            polygon_ok(polygon@),
        ensures
            final(self).wf(),
            final(self).is_open(),
            final(self).page_height >= old(self).page_height,
            final(self).polygon_views() == old(self).polygon_views().push(polygon@),
            final(self).paragraphs == old(self).paragraphs,
            final(self).imgs == old(self).imgs,
            final(self).bold == old(self).bold,
            final(self).light == old(self).light,
            final(self).page_height == higher(
                old(self).page_height as int,
                polygon_extent(polygon@),
            ),
    {
        let ghost added = polygon@;
        let ghost before = self.polygon_views();
        let extent = Self::extent_of(&polygon);
        proof {
            lemma_polygons_reach_bound(before.push(added));
            assert(before.push(added).drop_last() =~= before);
        }
        self.polygons.push(polygon);
        proof {
            assert(self.polygon_views() =~= before.push(added));
        }
        if extent > self.page_height {
            self.page_height = extent;
        }
    }

    /// The largest offset of the corners of `polygon`, 0 where it has none.
    pub fn extent_of(polygon: &PolygonPreMake) -> (r: i64)
        ensures
            r == polygon_extent(polygon@),
    {
        if polygon.points.len() == 0 {
            return 0;
        }
        let mut best: i64 = polygon.points[0].1;
        let mut k: usize = 1;
        assert(polygon@.take(1) =~= seq![polygon@[0]]);
        while k < polygon.points.len()
            invariant
                1 <= k <= polygon.points@.len(),
                best == polygon_extent(polygon@.take(k as int)),
            decreases polygon.points.len() - k,
        {
            let y = polygon.points[k].1;
            proof {
                assert(polygon@.take(k + 1).drop_last() =~= polygon@.take(k as int));
            }
            if y > best {
                best = y;
            }
            k = k + 1;
        }
        assert(polygon@.take(k as int) =~= polygon@);
        best
    }

    /// Places a frame between the offsets `y_inicio` and `y_fin`: a rule at
    /// each of the two, then the vertical rule on the right and the one on
    /// the left. Returns the larger offset; the page grows to it.
    pub fn set_rect(&mut self, y_inicio: i64, y_fin: i64) -> (extent: i64)
        requires
            old(self).wf(),
            old(self).is_open(),
            coord_ok(y_inicio),
            coord_ok(y_fin),
        ensures
            final(self).wf(),
            final(self).is_open(),
            final(self).page_height >= old(self).page_height,
            final(self).polygon_views() == old(self).polygon_views() + seq![
                horizontal_rule(y_inicio),
                horizontal_rule(y_fin),
                vertical_rule(MARGIN_RIGHT, y_inicio, y_fin),
                vertical_rule(MARGIN_LEFT, y_inicio, y_fin),
            ],
            final(self).paragraphs == old(self).paragraphs,
            final(self).imgs == old(self).imgs,
            final(self).bold == old(self).bold,
            final(self).light == old(self).light,
            extent == higher(y_inicio as int, y_fin as int),
            final(self).page_height == higher(old(self).page_height as int, extent as int),
    {
        let ghost before = self.polygon_views();
        proof {
            lemma_horizontal_rule_extent(y_inicio);
            lemma_horizontal_rule_extent(y_fin);
            lemma_vertical_rule_extent(MARGIN_RIGHT, y_inicio, y_fin);
            lemma_vertical_rule_extent(MARGIN_LEFT, y_inicio, y_fin);
        }
        self.push_polygon(set_linea_horizontal(y_inicio));
        self.push_polygon(set_linea_horizontal(y_fin));
        let lines_ver = set_linea_vertical(y_inicio, y_fin);
        self.push_polygon(lines_ver.0);
        self.push_polygon(lines_ver.1);
        proof {
            assert(self.polygon_views() =~= before + seq![
                horizontal_rule(y_inicio),
                horizontal_rule(y_fin),
                vertical_rule(MARGIN_RIGHT, y_inicio, y_fin),
                vertical_rule(MARGIN_LEFT, y_inicio, y_fin),
            ]);
        }
        if y_inicio >= y_fin {
            y_inicio
        } else {
            y_fin
        }
    }

    /// Places the image `icono`, of `px_width` by `px_height` pixels, with
    /// its lower left corner at the offset `y` and at `x` from the left, to
    /// appear `mm_x` wide and `mm_y` high. Returns the offset that the image
    /// is taken to reach: `y` and its height.
    /// The page grows to that offset unless `y` is negative.
    pub fn set_img(
        &mut self,
        x: i64,
        y: i64,
        mm_x: i64,
        mm_y: i64,
        icono: &str,
        px_width: u32,
        px_height: u32,
    ) -> (extent: i64)
        requires
            old(self).wf(),
            old(self).is_open(),
            coord_ok(x),
            coord_ok(y),
            coord_ok(mm_x),
            coord_ok(mm_y),
        ensures
            final(self).wf(),
            final(self).is_open(),
            final(self).page_height >= old(self).page_height,
            final(self).image_views() == old(self).image_views().push(
                ImageView {
                    icono: icono@,
                    x: x as int,
                    y: y as int,
                    mm_x: mm_x as int,
                    mm_y: mm_y as int,
                    px_width: px_width as int,
                    px_height: px_height as int,
                },
            ),
            final(self).paragraphs == old(self).paragraphs,
            final(self).polygons == old(self).polygons,
            final(self).bold == old(self).bold,
            final(self).light == old(self).light,
            extent == y + mm_y,
            final(self).page_height == (if y >= 0 {
                higher(old(self).page_height as int, extent as int)
            } else {
                old(self).page_height as int
            }),
    {
        let img_save = ImagePreMake {
            icono: icono.to_owned(),
            x,
            y,
            mm_x,
            mm_y,
            px_width,
            px_height,
        };
        let ghost added = img_save@;
        let ghost before = self.image_views();
        let extent = y + mm_y;
        proof {
            lemma_images_reach_bound(before.push(added));
            assert(before.push(added).drop_last() =~= before);
        }
        self.imgs.push(img_save);
        proof {
            assert(self.image_views() =~= before.push(added));
        }
        if y >= 0 && extent > self.page_height {
            self.page_height = extent;
        }
        extent
    }

    /// Places a section break at the offset `y`: two rules, 1.5 mm and
    /// 2.75 mm below it, and under them the icon `icono`, of `px_width` by
    /// `px_height` pixels, 6 mm wide and high, 37 mm from the left with its
    /// lower edge 5.5 mm below `y`. Returns the offset that the icon
    /// reaches, 11.5 mm below `y`.
    pub fn set_separacion(
        &mut self,
        y: i64,
        icono: &str,
        px_width: u32,
        px_height: u32,
    ) -> (extent: i64)
        requires
            old(self).wf(),
            old(self).is_open(),
            -MAX_COORD <= y <= MAX_COORD - 5500,
        ensures
            final(self).wf(),
            final(self).is_open(),
            final(self).page_height >= old(self).page_height,
            final(self).polygon_views() == old(self).polygon_views() + seq![
                horizontal_rule((y + 1500) as i64),
                horizontal_rule((y + 2750) as i64),
            ],
            final(self).image_views() == old(self).image_views().push(
                ImageView {
                    icono: icono@,
                    x: 37000,
                    y: y + 5500,
                    mm_x: 6000,
                    mm_y: 6000,
                    px_width: px_width as int,
                    px_height: px_height as int,
                },
            ),
            final(self).paragraphs == old(self).paragraphs,
            final(self).bold == old(self).bold,
            final(self).light == old(self).light,
            extent == y + 11500,
            final(self).page_height == (if y + 5500 >= 0 {
                higher(old(self).page_height as int, extent as int)
            } else {
                old(self).page_height as int
            }),
    {
        let ghost before = self.polygon_views();
        self.set_linea(y + 1500);
        self.set_linea(y + 2750);
        proof {
            assert(self.polygon_views() =~= before + seq![
                horizontal_rule((y + 1500) as i64),
                horizontal_rule((y + 2750) as i64),
            ]);
        }
        self.set_img(37000, y + 5500, 6000, 6000, icono, px_width, px_height)
    }

    /// Draws the lines of a paragraph whose first baseline is at the height
    /// `y_inicial` of the page: appends one text run for each line to
    /// `out`, each one line spacing below the one before.
    pub fn draw_parrafo(
        lines: &Vec<ParrafoLine>,
        y_inicial: i64,
        font_size: u16,
        light: bool,
        out: &mut Vec<DrawOp>,
    )
        requires
            lines@.len() <= MAX_TEXT_CHARS + 2,
            -MAX_COORD <= y_inicial <= MAX_HEIGHT,
        ensures
            op_views(final(out)@) == op_views(old(out)@) + line_ops(
                line_views(lines@),
                font_size,
                light,
                y_inicial as int,
            ),
    {
        let line_spacing = spacing_of(font_size);
        let mut y_position: i64 = y_inicial;
        let mut k: usize = 0;
        let ghost shown = line_ops(line_views(lines@), font_size, light, y_inicial as int);
        assert(op_views(out@) =~= op_views(old(out)@) + shown.take(0));
        while k < lines.len()
            invariant
                k <= lines@.len() <= MAX_TEXT_CHARS + 2,
                -MAX_COORD <= y_inicial <= MAX_HEIGHT,
                line_spacing == crate::units::line_spacing(font_size),
                0 <= line_spacing <= 262140,
                y_position == y_inicial - k * line_spacing,
                shown == line_ops(line_views(lines@), font_size, light, y_inicial as int),
                op_views(out@) == op_views(old(out)@) + shown.take(k as int),
            decreases lines.len() - k,
        {
            let line_info = &lines[k];
            let ghost before = op_views(out@);
            out.push(
                DrawOp::Text {
                    text: line_info.text.clone(),
                    font_size,
                    x: line_info.x_position,
                    y: y_position,
                    light,
                },
            );
            proof {
                assert(op_views(out@) =~= before.push(out@.last()@));
                assert(out@.last()@ == shown[k as int]);
                assert(shown.take(k + 1) =~= shown.take(k as int).push(shown[k as int]));
                assert(op_views(out@) =~= op_views(old(out)@) + shown.take(k + 1));
                assert(0 <= (k + 1) * line_spacing <= 0x1_0000_0001 * 262140) by (nonlinear_arith)
                    requires
                        0 <= k + 1 <= 0x1_0000_0001,
                        0 <= line_spacing <= 262140,
                ;
                assert((k + 1) * line_spacing == k * line_spacing + line_spacing)
                    by (nonlinear_arith);
            }
            y_position = y_position - line_spacing;
            k = k + 1;
        }
        assert(shown.take(k as int) =~= shown);
    }

    /// Draws everything on the settled page, in the backend's frame: the
    /// text of all paragraphs first, then all polygons, then all images,
    /// each kind in the order in which it was placed. The images are handed
    /// over: none is left pending. Where the page is not settled nothing is
    /// drawn and nothing changes.
    pub fn drow_all_obj(&mut self) -> (ops: Vec<DrawOp>)
        requires
            old(self).wf(),
        ensures
            final(self).wf(),
            final(self).current_pdf == old(self).current_pdf,
            final(self).page_height == old(self).page_height,
            final(self).paragraphs == old(self).paragraphs,
            final(self).polygons == old(self).polygons,
            final(self).bold == old(self).bold,
            final(self).light == old(self).light,
            match old(self).current_pdf {
                Some(pdf) => {
                    &&& op_views(ops@) == emission(
                        old(self).paragraph_views(),
                        old(self).polygon_views(),
                        old(self).image_views(),
                        pdf.height as int,
                    )
                    &&& final(self).imgs@.len() == 0
                },
                None => ops@.len() == 0 && final(self).imgs == old(self).imgs,
            },
    {
        let mut ops: Vec<DrawOp> = Vec::new();
        let height: i64 = match self.current_pdf {
            Some(pdf) => pdf.height,
            None => {
                return ops;
            },
        };
        let ghost ps = self.paragraph_views();
        let ghost gs = self.polygon_views();
        let ghost ms = self.image_views();
        let ghost h = height as int;
        let mut i: usize = 0;
        assert(op_views(ops@) =~= paragraphs_ops(ps.take(0), h));
        while i < self.paragraphs.len()
            invariant
                i <= self.paragraphs@.len(),
                self.wf(),
                *self == *old(self),
                ps == self.paragraph_views(),
                0 <= height <= MAX_HEIGHT,
                h == height,
                op_views(ops@) == paragraphs_ops(ps.take(i as int), h),
            decreases self.paragraphs.len() - i,
        {
            let p = &self.paragraphs[i];
            proof {
                assert(ps[i as int] == p@);
                assert(paragraph_ok(ps[i as int]));
                assert(ps.take(i + 1).drop_last() =~= ps.take(i as int));
                assert(ps.take(i + 1).last() == p@);
            }
            let base = flip_y(height, p.y_inicial);
            Self::draw_parrafo(&p.lines, base, p.font_size, p.light, &mut ops);
            i = i + 1;
        }
        assert(ps.take(i as int) =~= ps);
        let mut j: usize = 0;
        assert(op_views(ops@) =~= paragraphs_ops(ps, h) + polygons_ops(gs, h).take(0));
        while j < self.polygons.len()
            invariant
                j <= self.polygons@.len(),
                self.wf(),
                *self == *old(self),
                gs == self.polygon_views(),
                0 <= height <= MAX_HEIGHT,
                h == height,
                op_views(ops@) == paragraphs_ops(ps, h) + polygons_ops(gs, h).take(j as int),
            decreases self.polygons.len() - j,
        {
            let poly = &self.polygons[j];
            let ghost before = op_views(ops@);
            proof {
                assert(gs[j as int] == poly@);
                assert(polygon_ok(gs[j as int]));
            }
            ops.push(DrawOp::Polygon { points: poly.resolve(height) });
            proof {
                let all = polygons_ops(gs, h);
                assert(op_views(ops@) =~= before.push(ops@.last()@));
                assert(ops@.last()@ == all[j as int]);
                assert(all.take(j + 1) =~= all.take(j as int).push(all[j as int]));
                assert(op_views(ops@) =~= paragraphs_ops(ps, h) + all.take(j + 1));
            }
            j = j + 1;
        }
        assert(polygons_ops(gs, h).take(j as int) =~= polygons_ops(gs, h));
        let mut m: usize = 0;
        assert(op_views(ops@) =~= paragraphs_ops(ps, h) + polygons_ops(gs, h) + images_ops(
            ms,
            h,
        ).take(0));
        while m < self.imgs.len()
            invariant
                m <= self.imgs@.len(),
                self.wf(),
                *self == *old(self),
                ms == self.image_views(),
                0 <= height <= MAX_HEIGHT,
                h == height,
                op_views(ops@) == paragraphs_ops(ps, h) + polygons_ops(gs, h) + images_ops(
                    ms,
                    h,
                ).take(m as int),
            decreases self.imgs.len() - m,
        {
            let img = &self.imgs[m];
            let ghost before = op_views(ops@);
            proof {
                assert(ms[m as int] == img@);
                assert(image_ok(ms[m as int]));
            }
            ops.push(
                DrawOp::Image {
                    icono: img.icono.clone(),
                    x: img.x,
                    y: flip_y(height, img.y),
                    scale_x: scale_of(img.mm_x, img.px_width),
                    scale_y: scale_of(img.mm_y, img.px_height),
                },
            );
            proof {
                let all = images_ops(ms, h);
                assert(op_views(ops@) =~= before.push(ops@.last()@));
                assert(ops@.last()@ == all[m as int]);
                assert(all.take(m + 1) =~= all.take(m as int).push(all[m as int]));
                assert(op_views(ops@) =~= paragraphs_ops(ps, h) + polygons_ops(gs, h) + all.take(
                    m + 1,
                ));
            }
            m = m + 1;
        }
        assert(images_ops(ms, h).take(m as int) =~= images_ops(ms, h));
        self.imgs = Vec::new();
        proof {
            assert(self.image_views() =~= Seq::<ImageView>::empty());
        }
        ops
    }

    /// Settles the page: its width is that of the ticket, its height the
    /// one that the content asks for. Nothing can be placed from here on.
    pub fn init_draw(&mut self)
        requires
            old(self).wf(),
        ensures
            final(self).wf(),
            final(self).current_pdf == Some(
                CurrentPdf { width: PAGE_WIDTH, height: old(self).page_height },
            ),
            final(self).page_height == old(self).page_height,
            final(self).paragraphs == old(self).paragraphs,
            final(self).polygons == old(self).polygons,
            final(self).imgs == old(self).imgs,
            final(self).bold == old(self).bold,
            final(self).light == old(self).light,
    {
        self.current_pdf = Some(CurrentPdf { width: PAGE_WIDTH, height: self.page_height });
    }
}

} // verus!
