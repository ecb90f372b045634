//! Laying out from top to bottom: steps that place content relative to a
//! cursor, which moves down as paragraphs turn out longer or shorter.

use vstd::prelude::*;
use crate::commands::{
    higher, horizontal_rule, op_views, vertical_rule, DrawOp, ImageView, ParagraphView,
};
use crate::glyphs::FontData;
use crate::pdf_resources::{emission, CurrentPdf, PdfResources};
use crate::units::{
    line_spacing, MARGIN_LEFT, MARGIN_RIGHT, MAX_COORD, MAX_TEXT_CHARS, PAGE_WIDTH,
};
use crate::wrap::{layout_lines, wrap_text};
use crate::wrap_laws::lemma_wrap_line_count;

verus! {

/// One step in laying out a ticket from top to bottom. Offsets are given
/// as a gap from a cursor that moves down the ticket.
#[derive(Clone, Debug, PartialEq, Eq)]
pub enum Command {
    /// A paragraph `gap` below the cursor. With `advance` the cursor moves
    /// to the offset just below the paragraph's last line.
    Text {
        text: String,
        font_size: u16,
        gap: i64,
        max_width: i64,
        tipo: i8,
        light: bool,
        advance: bool,
    },
    /// Moves the cursor down by `gap`.
    Skip { gap: i64 },
    /// A horizontal rule `gap` below the cursor.
    Rule { gap: i64 },
    /// Remembers the offset `gap` below the cursor as the start of a frame.
    Mark { gap: i64 },
    /// A frame from the remembered offset to the one `gap` below the cursor.
    Frame { gap: i64 },
    /// A section break `gap` below the cursor, with the icon `icono`.
    Separator { gap: i64, icono: String },
    /// The image `icono`, `mm_x` by `mm_y`, at `x` and `gap` below the
    /// cursor.
    Image { x: i64, gap: i64, mm_x: i64, mm_y: i64, icono: String },
}

/// What a step holds.
pub enum CommandView {
    Text {
        text: Seq<char>,
        font_size: u16,
        gap: i64,
        max_width: i64,
        tipo: i8,
        light: bool,
        advance: bool,
    },
    Skip { gap: i64 },
    Rule { gap: i64 },
    Mark { gap: i64 },
    Frame { gap: i64 },
    Separator { gap: i64, icono: Seq<char> },
    Image { x: i64, gap: i64, mm_x: i64, mm_y: i64, icono: Seq<char> },
}

impl View for Command {
    type V = CommandView;

    open spec fn view(&self) -> CommandView {
        match self {
            Command::Text { text, font_size, gap, max_width, tipo, light, advance } => {
                CommandView::Text {
                    text: text@,
                    font_size: *font_size,
                    gap: *gap,
                    max_width: *max_width,
                    tipo: *tipo,
                    light: *light,
                    advance: *advance,
                }
            },
            Command::Skip { gap } => CommandView::Skip { gap: *gap },
            Command::Rule { gap } => CommandView::Rule { gap: *gap },
            Command::Mark { gap } => CommandView::Mark { gap: *gap },
            Command::Frame { gap } => CommandView::Frame { gap: *gap },
            Command::Separator { gap, icono } => CommandView::Separator {
                gap: *gap,
                icono: icono@,
            },
            Command::Image { x, gap, mm_x, mm_y, icono } => CommandView::Image {
                x: *x,
                gap: *gap,
                mm_x: *mm_x,
                mm_y: *mm_y,
                icono: icono@,
            },
        }
    }
}

/// The views of the steps of `v`.
pub open spec fn command_views(v: Seq<Command>) -> Seq<CommandView> {
    v.map_values(|c: Command| c@)
}

/// Where the layout stands: the offset of the cursor, and the offset
/// remembered as the start of a frame.
#[derive(Clone, Copy, Debug, PartialEq, Eq, Structural)]
pub struct Cursor {
    pub y: i64,
    pub mark: i64,
}

/// A ticket in the making together with the cursor: what is placed, the
/// page height, and the two offsets of the cursor.
pub struct Layout {
    pub ps: Seq<ParagraphView>,
    pub gs: Seq<Seq<(i64, i64)>>,
    pub ms: Seq<ImageView>,
    pub height: int,
    pub y: int,
    pub mark: int,
}

/// The layout that `pdf` and `cursor` make up.
pub open spec fn layout_of(pdf: &PdfResources, cursor: Cursor) -> Layout {
    Layout {
        ps: pdf.paragraph_views(),
        gs: pdf.polygon_views(),
        ms: pdf.image_views(),
        height: pdf.page_height as int,
        y: cursor.y as int,
        mark: cursor.mark as int,
    }
}

/// The magnitude of `v`.
pub open spec fn magnitude(v: int) -> int {
    if v >= 0 {
        v
    } else {
        -v
    }
}

/// The largest sum of the costs of the steps of a plan.
pub const MAX_PLAN_COST: i64 = 0x1000_0000_0000_0000;

/// Whether a step is in the range that the layout accepts.
pub open spec fn command_ok(cmd: CommandView) -> bool {
    match cmd {
        CommandView::Text { text, max_width, .. } => {
            text.len() <= MAX_TEXT_CHARS && -MAX_COORD <= max_width <= MAX_COORD
        },
        CommandView::Image { x, mm_x, mm_y, .. } => {
            &&& -MAX_COORD <= x <= MAX_COORD
            &&& -MAX_COORD <= mm_x <= MAX_COORD
            &&& -MAX_COORD <= mm_y <= MAX_COORD
        },
        _ => true,
    }
}

/// The farthest that a step can take the cursor or place anything from
/// where the cursor stands: its gap, and for a paragraph one line spacing
/// for every line that its text can have.
pub open spec fn cost(cmd: CommandView) -> int {
    match cmd {
        CommandView::Text { text, font_size, gap, .. } => magnitude(gap as int) + (text.len() + 2)
            * line_spacing(font_size),
        CommandView::Skip { gap } => magnitude(gap as int),
        CommandView::Rule { gap } => magnitude(gap as int),
        CommandView::Mark { gap } => magnitude(gap as int),
        CommandView::Frame { gap } => magnitude(gap as int),
        CommandView::Separator { gap, .. } => magnitude(gap as int),
        CommandView::Image { gap, .. } => magnitude(gap as int),
    }
}

/// The sum of the costs of the steps of `cmds`.
pub open spec fn plan_cost(cmds: Seq<CommandView>) -> int
    decreases cmds.len(),
{
    if cmds.len() == 0 {
        0
    } else {
        plan_cost(cmds.drop_last()) + cost(cmds.last())
    }
}

/// Whether every step of `cmds` is in range.
pub open spec fn plan_ok(cmds: Seq<CommandView>) -> bool {
    forall|k: int| 0 <= k < cmds.len() ==> command_ok(#[trigger] cmds[k])
}

/// The layout after the step `cmd`, for an image of `px` pixels.
pub open spec fn apply_spec(
    s: Layout,
    bold: &FontData,
    light_font: &FontData,
    cmd: CommandView,
    px: (u32, u32),
) -> Layout {
    match cmd {
        CommandView::Text { text, font_size, gap, max_width, tipo, light, advance } => {
            let font = if light {
                light_font
            } else {
                bold
            };
            let y = s.y + gap;
            let extent = y + wrap_text(font, text, font_size, max_width).len() * line_spacing(
                font_size,
            );
            Layout {
                ps: s.ps.push(
                    ParagraphView {
                        lines: layout_lines(font, text, font_size, max_width, tipo),
                        font_size,
                        light,
                        y_inicial: y,
                    },
                ),
                height: if y >= 0 {
                    higher(s.height, extent)
                } else {
                    s.height
                },
                y: if advance {
                    extent
                } else {
                    s.y
                },
                ..s
            }
        },
        CommandView::Skip { gap } => Layout { y: s.y + gap, ..s },
        CommandView::Rule { gap } => Layout {
            gs: s.gs.push(horizontal_rule((s.y + gap) as i64)),
            height: higher(s.height, s.y + gap),
            ..s
        },
        CommandView::Mark { gap } => Layout { mark: s.y + gap, ..s },
        CommandView::Frame { gap } => Layout {
            gs: s.gs + seq![
                horizontal_rule(s.mark as i64),
                horizontal_rule((s.y + gap) as i64),
                vertical_rule(MARGIN_RIGHT, s.mark as i64, (s.y + gap) as i64),
                vertical_rule(MARGIN_LEFT, s.mark as i64, (s.y + gap) as i64),
            ],
            height: higher(s.height, higher(s.mark, s.y + gap)),
            ..s
        },
        CommandView::Separator { gap, icono } => Layout {
            gs: s.gs + seq![
                horizontal_rule((s.y + gap + 1500) as i64),
                horizontal_rule((s.y + gap + 2750) as i64),
            ],
            ms: s.ms.push(
                ImageView {
                    icono,
                    x: 37000,
                    y: s.y + gap + 5500,
                    mm_x: 6000,
                    mm_y: 6000,
                    px_width: px.0 as int,
                    px_height: px.1 as int,
                },
            ),
            height: if s.y + gap + 5500 >= 0 {
                higher(s.height, s.y + gap + 11500)
            } else {
                s.height
            },
            ..s
        },
        CommandView::Image { x, gap, mm_x, mm_y, icono } => Layout {
            ms: s.ms.push(
                ImageView {
                    icono,
                    x: x as int,
                    y: s.y + gap,
                    mm_x: mm_x as int,
                    mm_y: mm_y as int,
                    px_width: px.0 as int,
                    px_height: px.1 as int,
                },
            ),
            height: if s.y + gap >= 0 {
                higher(s.height, s.y + gap + mm_y)
            } else {
                s.height
            },
            ..s
        },
    }
}

/// The layout after the steps `cmds`, taken from first to last, each with
/// the pixel size at its place in `sizes`.
pub open spec fn run_spec(
    s: Layout,
    bold: &FontData,
    light_font: &FontData,
    cmds: Seq<CommandView>,
    sizes: Seq<(u32, u32)>,
) -> Layout
    decreases cmds.len(),
{
    if cmds.len() == 0 {
        s
    } else {
        apply_spec(
            run_spec(s, bold, light_font, cmds.drop_last(), sizes.drop_last()),
            bold,
            light_font,
            cmds.last(),
            sizes.last(),
        )
    }
}

/// The steps from the front of a plan cost no more than the plan.
pub proof fn lemma_plan_cost_take(cmds: Seq<CommandView>, i: int)
    requires
        0 <= i <= cmds.len(),
    ensures
        0 <= plan_cost(cmds.take(i)) <= plan_cost(cmds),
    decreases cmds.len() - i,
{
    if i < cmds.len() {
        lemma_plan_cost_take(cmds, i + 1);
        assert(cmds.take(i + 1).drop_last() =~= cmds.take(i));
        lemma_cost_nonneg(cmds.take(i + 1).last());
    } else {
        assert(cmds.take(i) =~= cmds);
    }
    lemma_plan_cost_nonneg(cmds.take(i));
}

/// No step costs less than nothing.
pub proof fn lemma_cost_nonneg(cmd: CommandView)
    ensures
        0 <= cost(cmd),
{
    match cmd {
        CommandView::Text { text, font_size, gap, .. } => {
            let n = text.len() + 2;
            let s = line_spacing(font_size);
            assert(0 <= n * s) by (nonlinear_arith)
                requires
                    0 <= n,
                    0 <= s,
            ;
        },
        _ => {},
    }
}

/// No plan costs less than nothing.
pub proof fn lemma_plan_cost_nonneg(cmds: Seq<CommandView>)
    ensures
        0 <= plan_cost(cmds),
    decreases cmds.len(),
{
    if cmds.len() > 0 {
        lemma_plan_cost_nonneg(cmds.drop_last());
        lemma_cost_nonneg(cmds.last());
    }
}

/// The cost of the step `cmd`, or `None` where the step is out of range or
/// costs more than any plan may.
pub fn cost_of(cmd: &Command) -> (r: Option<i64>)
    ensures
        r is Some <==> command_ok(cmd@) && cost(cmd@) <= MAX_PLAN_COST,
        r is Some ==> r->Some_0 == cost(cmd@),
{
    proof {
        lemma_cost_nonneg(cmd@);
    }
    match cmd {
        Command::Text { text, font_size, gap, max_width, .. } => {
            let len = text.as_str().unicode_len();
            if len > MAX_TEXT_CHARS || *max_width < -MAX_COORD || *max_width > MAX_COORD {
                return None;
            }
            let far: i128 = if *gap >= 0 {
                *gap as i128
            } else {
                0 - (*gap as i128)
            };
            let lines: i128 = (len as i128) + 2;
            let spacing: i128 = 4 * (*font_size as i128);
            assert(0 <= lines * spacing <= 0x1_0000_0001 * 262140) by (nonlinear_arith)
                requires
                    0 <= lines <= 0x1_0000_0001,
                    0 <= spacing <= 262140,
            ;
            let total: i128 = far + lines * spacing;
            if total <= MAX_PLAN_COST as i128 {
                Some(total as i64)
            } else {
                None
            }
        },
        Command::Image { x, gap, mm_x, mm_y, .. } => {
            if *x < -MAX_COORD || *x > MAX_COORD || *mm_x < -MAX_COORD || *mm_x > MAX_COORD || *mm_y
                < -MAX_COORD || *mm_y > MAX_COORD {
                return None;
            }
            gap_cost(*gap)
        },
        Command::Skip { gap } => gap_cost(*gap),
        Command::Rule { gap } => gap_cost(*gap),
        Command::Mark { gap } => gap_cost(*gap),
        Command::Frame { gap } => gap_cost(*gap),
        Command::Separator { gap, .. } => gap_cost(*gap),
    }
}

/// The magnitude of `gap`, or `None` where it is more than any plan may
/// cost.
fn gap_cost(gap: i64) -> (r: Option<i64>)
    ensures
        r is Some <==> magnitude(gap as int) <= MAX_PLAN_COST,
        r is Some ==> r->Some_0 == magnitude(gap as int),
{
    if gap >= 0 {
        if gap <= MAX_PLAN_COST {
            Some(gap)
        } else {
            None
        }
    } else if gap >= 0 - MAX_PLAN_COST {
        Some(0 - gap)
    } else {
        None
    }
}

/// Whether `run` can take the steps of `cmds` from a cursor at the top:
/// every step is in range, and all together cost no more than a plan may.
pub fn plan_fits(cmds: &Vec<Command>) -> (r: bool)
    ensures
        r == (plan_ok(command_views(cmds@)) && plan_cost(command_views(cmds@)) <= MAX_PLAN_COST),
{
    let ghost all = command_views(cmds@);
    let mut total: i64 = 0;
    let mut i: usize = 0;
    proof {
        assert(all.take(0) =~= Seq::<CommandView>::empty());
    }
    while i < cmds.len()
        invariant
            i <= cmds@.len(),
            all == command_views(cmds@),
            plan_ok(all.take(i as int)),
            total == plan_cost(all.take(i as int)),
            0 <= total <= MAX_PLAN_COST,
        decreases cmds.len() - i,
    {
        proof {
            assert(all.take(i + 1).drop_last() =~= all.take(i as int));
            assert(all.take(i + 1).last() == cmds@[i as int]@);
            lemma_plan_cost_take(all, i + 1);
            lemma_cost_nonneg(all[i as int]);
        }
        match cost_of(&cmds[i]) {
            Some(c) => {
                if c > MAX_PLAN_COST - total {
                    return false;
                }
                total = total + c;
            },
            None => {
                proof {
                    if plan_ok(all) {
                        assert(command_ok(all[i as int]));
                    }
                }
                return false;
            },
        }
        proof {
            assert forall|k: int| 0 <= k < i + 1 implies command_ok(
                #[trigger] all.take(i + 1)[k],
            ) by {
                if k < i {
                    assert(all.take(i as int)[k] == all.take(i + 1)[k]);
                }
            }
        }
        i = i + 1;
    }
    proof {
        assert(all.take(i as int) =~= all);
    }
    true
}

/// Takes one step: places what `cmd` asks for, `px_width` by `px_height`
/// being the pixel size of its image if it has one, and moves the cursor.
pub fn apply(
    pdf: &mut PdfResources,
    cursor: &mut Cursor,
    cmd: &Command,
    px_width: u32,
    px_height: u32,
)
    requires
        old(pdf).wf(),
        old(pdf).is_open(),
        command_ok(cmd@),
        magnitude(old(cursor).y as int) + cost(cmd@) <= MAX_PLAN_COST,
        magnitude(old(cursor).mark as int) <= MAX_PLAN_COST,
    ensures
        final(pdf).wf(),
        final(pdf).is_open(),
        final(pdf).bold == old(pdf).bold,
        final(pdf).light == old(pdf).light,
        layout_of(final(pdf), *final(cursor)) == apply_spec(
            layout_of(old(pdf), *old(cursor)),
            &old(pdf).bold,
            &old(pdf).light,
            cmd@,
            (px_width, px_height),
        ),
        magnitude(final(cursor).y as int) <= magnitude(old(cursor).y as int) + cost(cmd@),
        magnitude(final(cursor).mark as int) <= MAX_PLAN_COST,
{
    let ghost before = layout_of(pdf, *cursor);
    let ghost after = apply_spec(before, &pdf.bold, &pdf.light, cmd@, (px_width, px_height));
    match cmd {
        Command::Text { text, font_size, gap, max_width, tipo, light, advance } => {
            proof {
                lemma_wrap_line_count(pdf.font(*light), text@, *font_size, *max_width);
                let n = wrap_text(pdf.font(*light), text@, *font_size, *max_width).len() as int;
                let m = text@.len() + 2;
                let s = line_spacing(*font_size);
                assert(0 <= n * s <= m * s) by (nonlinear_arith)
                    requires
                        0 <= n <= m,
                        0 <= s,
                ;
            }
            let extent = pdf.set_paragraph(
                text.as_str(),
                *font_size,
                cursor.y + *gap,
                *max_width,
                *tipo,
                *light,
            );
            if *advance {
                cursor.y = extent;
            }
            proof {
                assert(layout_of(pdf, *cursor).ps =~= after.ps);
            }
        },
        Command::Skip { gap } => {
            cursor.y = cursor.y + *gap;
        },
        Command::Rule { gap } => {
            pdf.set_linea(cursor.y + *gap);
        },
        Command::Mark { gap } => {
            cursor.mark = cursor.y + *gap;
        },
        Command::Frame { gap } => {
            pdf.set_rect(cursor.mark, cursor.y + *gap);
        },
        Command::Separator { gap, icono } => {
            pdf.set_separacion(cursor.y + *gap, icono.as_str(), px_width, px_height);
        },
        Command::Image { x, gap, mm_x, mm_y, icono } => {
            pdf.set_img(*x, cursor.y + *gap, *mm_x, *mm_y, icono.as_str(), px_width, px_height);
        },
    }
}

/// Takes the steps of `cmds` from first to last, each with the pixel size
/// at its place in `sizes`, and returns where the cursor stands at the end.
pub fn run(
    pdf: &mut PdfResources,
    start: Cursor,
    cmds: &Vec<Command>,
    sizes: &Vec<(u32, u32)>,
) -> (end: Cursor)
    requires
        old(pdf).wf(),
        old(pdf).is_open(),
        sizes@.len() == cmds@.len(),
        plan_ok(command_views(cmds@)),
        magnitude(start.y as int) + plan_cost(command_views(cmds@)) <= MAX_PLAN_COST,
        magnitude(start.mark as int) <= MAX_PLAN_COST,
    ensures
        final(pdf).wf(),
        final(pdf).is_open(),
        final(pdf).bold == old(pdf).bold,
        final(pdf).light == old(pdf).light,
        final(pdf).page_height >= old(pdf).page_height,
        layout_of(final(pdf), end) == run_spec(
            layout_of(old(pdf), start),
            &old(pdf).bold,
            &old(pdf).light,
            command_views(cmds@),
            sizes@,
        ),
{
    let ghost all = command_views(cmds@);
    let ghost first = layout_of(pdf, start);
    let mut cursor = start;
    let mut i: usize = 0;
    proof {
        assert(all.take(0) =~= Seq::<CommandView>::empty());
    }
    while i < cmds.len()
        invariant
            i <= cmds@.len(),
            sizes@.len() == cmds@.len(),
            all == command_views(cmds@),
            plan_ok(all),
            first == layout_of(old(pdf), start),
            pdf.wf(),
            pdf.is_open(),
            pdf.bold == old(pdf).bold,
            pdf.light == old(pdf).light,
            pdf.page_height >= old(pdf).page_height,
            magnitude(start.y as int) + plan_cost(all) <= MAX_PLAN_COST,
            magnitude(cursor.y as int) <= magnitude(start.y as int) + plan_cost(all.take(i as int)),
            magnitude(cursor.mark as int) <= MAX_PLAN_COST,
            layout_of(pdf, cursor) == run_spec(
                first,
                &old(pdf).bold,
                &old(pdf).light,
                all.take(i as int),
                sizes@.take(i as int),
            ),
        decreases cmds.len() - i,
    {
        proof {
            assert(all.take(i + 1).drop_last() =~= all.take(i as int));
            assert(sizes@.take(i + 1).drop_last() =~= sizes@.take(i as int));
            assert(all.take(i + 1).last() == cmds@[i as int]@);
            assert(sizes@.take(i + 1).last() == sizes@[i as int]);
            assert(command_ok(all[i as int]));
            lemma_plan_cost_take(all, i + 1);
        }
        let px = sizes[i];
        apply(pdf, &mut cursor, &cmds[i], px.0, px.1);
        i = i + 1;
    }
    proof {
        assert(all.take(i as int) =~= all);
        assert(sizes@.take(i as int) =~= sizes@);
    }
    cursor
}

/// The name of the image that the step `cmd` places, if it places one.
pub fn icon_of(cmd: &Command) -> (r: Option<&String>)
    ensures
        match cmd@ {
            CommandView::Separator { icono, .. } => r is Some && r->Some_0@ == icono,
            CommandView::Image { icono, .. } => r is Some && r->Some_0@ == icono,
            _ => r is None,
        },
{
    match cmd {
        Command::Separator { icono, .. } => Some(icono),
        Command::Image { icono, .. } => Some(icono),
        _ => None,
    }
}

/// Lays out and draws a ticket: takes the steps of `cmds` from a cursor at
/// the top, each with the pixel size at its place in `sizes`, settles the
/// page at the height that the content asks for, and returns everything
/// drawn on it.
pub fn draw(pdf: &mut PdfResources, cmds: &Vec<Command>, sizes: &Vec<(u32, u32)>) -> (ops: Vec<
    DrawOp,
>)
    requires
        old(pdf).wf(),
        old(pdf).is_open(),
        sizes@.len() == cmds@.len(),
        plan_ok(command_views(cmds@)),
        plan_cost(command_views(cmds@)) <= MAX_PLAN_COST,
    ensures
        final(pdf).wf(),
        final(pdf).bold == old(pdf).bold,
        final(pdf).light == old(pdf).light,
        final(pdf).imgs@.len() == 0,
        ({
            let end = run_spec(
                layout_of(old(pdf), Cursor { y: 0, mark: 0 }),
                &old(pdf).bold,
                &old(pdf).light,
                command_views(cmds@),
                sizes@,
            );
            &&& final(pdf).paragraph_views() == end.ps
            &&& final(pdf).polygon_views() == end.gs
            &&& final(pdf).page_height == end.height
            &&& final(pdf).current_pdf == Some(
                CurrentPdf { width: PAGE_WIDTH, height: final(pdf).page_height },
            )
            &&& op_views(ops@) == emission(end.ps, end.gs, end.ms, end.height)
        }),
{
    let _ = run(pdf, Cursor { y: 0, mark: 0 }, cmds, sizes);
    pdf.init_draw();
    pdf.drow_all_obj()
}

} // verus!
