//! Word wrap: greedy packing of words into lines of a limited width, and
//! the horizontal position of each line.

use vstd::prelude::*;
use crate::glyphs::FontData;
use crate::text::{
    append_chars, chars_of, lemma_spaced_len_bound, spaced_len, split_words, string_of, views,
    words,
};
use crate::units::{
    coord_ok, fits, fits_in, line_spacing, spacing_of, width_of, MARGIN_BASE, MAX_TEXT_CHARS,
    MAX_UNITS, PAGE_WIDTH,
};
use crate::wrap_laws::{lemma_spaced_len_take, lemma_spaced_units_take, lemma_wrap_units};

verus! {

/// One line of a wrapped paragraph: its text and the horizontal position of
/// its left end, in micrometres.
#[derive(Clone, Debug, PartialEq, Eq)]
pub struct ParrafoLine {
    pub text: String,
    pub x_position: i64,
}

impl View for ParrafoLine {
    type V = (Seq<char>, int);

    open spec fn view(&self) -> (Seq<char>, int) {
        (self.text@, self.x_position as int)
    }
}

/// The line that results when `word` is written after `current`: the word
/// alone on an empty line, else a single blank between the two.
pub open spec fn candidate(current: Seq<char>, word: Seq<char>) -> Seq<char> {
    if current.len() == 0 {
        word
    } else {
        current + seq![' ']
            + word
    }
}

/// The advance of that line, in font units: that of the word alone on an
/// empty line, else those of the open line, of a blank and of the word.
pub open spec fn candidate_units(
    current: Seq<char>,
    current_units: nat,
    word_units: nat,
    space: nat,
) -> nat {
    if current.len() == 0 {
        word_units
    } else {
        current_units + space + word_units
    }
}

/// Greedy packing of the words `ws`, which advance by `us` font units each,
/// behind the open line `current` of `current_units` units; a blank
/// advances by `space`. A word joins the open line while the line still
/// fits; a word that does not fit closes the open line as it stands and
/// opens the next one, alone. What is left open at the end is closed unless
/// it is empty. Each line comes with its advance.
pub open spec fn pack_units(
    ws: Seq<Seq<char>>,
    us: Seq<nat>,
    space: nat,
    current: Seq<char>,
    current_units: nat,
    font_size: u16,
    upem: u16,
    max_width: i64,
) -> Seq<(Seq<char>, nat)>
    decreases ws.len(),
{
    if ws.len() == 0 {
        if current.len() > 0 {
            seq![(current, current_units)]
        } else {
            Seq::empty()
        }
    } else {
        let cand = candidate(current, ws[0]);
        let cand_units = candidate_units(current, current_units, us[0], space);
        if fits(cand_units, font_size, upem, max_width) {
            pack_units(
                ws.drop_first(),
                us.drop_first(),
                space,
                cand,
                cand_units,
                font_size,
                upem,
                max_width,
            )
        } else {
            seq![(current, current_units)] + pack_units(
                ws.drop_first(),
                us.drop_first(),
                space,
                ws[0],
                us[0],
                font_size,
                upem,
                max_width,
            )
        }
    }
}

/// The texts of measured lines.
pub open spec fn line_texts(lines: Seq<(Seq<char>, nat)>) -> Seq<Seq<char>> {
    lines.map_values(|l: (Seq<char>, nat)| l.0)
}

/// The advance of each of the words `ws` in `font`.
pub open spec fn word_units(font: &FontData, ws: Seq<Seq<char>>) -> Seq<nat> {
    ws.map_values(|w: Seq<char>| font.units(w))
}

/// The lines of `text` wrapped to `max_width`, each with its advance in
/// font units.
pub open spec fn wrap_measured(
    font: &FontData,
    text: Seq<char>,
    font_size: u16,
    max_width: i64,
) -> Seq<(Seq<char>, nat)> {
    pack_units(
        words(text),
        word_units(font, words(text)),
        font.advance(' '),
        Seq::empty(),
        0,
        font_size,
        font.upem,
        max_width,
    )
}

/// The lines of `text` wrapped to `max_width`.
pub open spec fn wrap_text(font: &FontData, text: Seq<char>, font_size: u16, max_width: i64) -> Seq<
    Seq<char>,
> {
    line_texts(wrap_measured(font, text, font_size, max_width))
}

/// Horizontal position of a line of width `line_width` under the alignment
/// code `tipo`: negative codes indent from the left by their magnitude,
/// zero centres on the page, positive codes push the line against the
/// right end of the wrap width, shifted by the code.
pub open spec fn x_offset(tipo: i8, max_width: i64, line_width: int) -> int {
    if tipo < 0 {
        MARGIN_BASE * (-tipo)
    } else if tipo == 0 {
        (PAGE_WIDTH - line_width) / 2
    } else {
        MARGIN_BASE * tipo + (max_width - line_width)
    }
}

/// The views of the lines of `v`.
pub open spec fn line_views(v: Seq<ParrafoLine>) -> Seq<(Seq<char>, int)> {
    v.map_values(|l: ParrafoLine| l@)
}

/// The lines of `text` wrapped to `max_width`, each with its horizontal
/// position under the alignment code `tipo`.
pub open spec fn layout_lines(
    font: &FontData,
    text: Seq<char>,
    font_size: u16,
    max_width: i64,
    tipo: i8,
) -> Seq<(Seq<char>, int)> {
    wrap_text(font, text, font_size, max_width).map_values(
        |line: Seq<char>| (line, x_offset(tipo, max_width, font.width(line, font_size))),
    )
}

/// The words of all `lines`, in order.
pub open spec fn all_words(lines: Seq<Seq<char>>) -> Seq<Seq<char>>
    decreases lines.len(),
{
    if lines.len() == 0 {
        Seq::empty()
    } else {
        words(lines[0]) + all_words(lines.drop_first())
    }
}

/// The numbers of `us` as natural numbers.
pub open spec fn nats(us: Seq<u64>) -> Seq<nat> {
    us.map_values(|u: u64| u as nat)
}

/// The lines `texts` with the advances `us`.
pub open spec fn measured_lines(texts: Seq<Vec<char>>, us: Seq<u64>) -> Seq<(Seq<char>, nat)> {
    Seq::new(texts.len(), |k: int| (texts[k]@, us[k] as nat))
}

/// The advance of all words of `us` written one after the other, each with
/// a blank of `space` units behind it.
pub open spec fn spaced_units(us: Seq<nat>, space: nat) -> nat
    decreases us.len(),
{
    if us.len() == 0 {
        0
    } else {
        spaced_units(us.drop_last(), space) + us.last() + space
    }
}

/// Executable form of `x_offset`.
pub fn align_offset(tipo: i8, max_width: i64, line_width: i64) -> (r: i64)
    requires
        coord_ok(max_width),
        0 <= line_width <= 0x3FFF_FFFF_FFFF_FFFF,
    ensures
        r == x_offset(tipo, max_width, line_width as int),
{
    let code: i64 = tipo as i64;
    if tipo < 0 {
        MARGIN_BASE * (0 - code)
    } else if tipo == 0 {
        let d: i64 = PAGE_WIDTH - line_width;
        if d >= 0 {
            d / 2
        } else {
            0 - ((1 - d) / 2)
        }
    } else {
        MARGIN_BASE * code + (max_width - line_width)
    }
}

/// Packs the words `ws`, which advance by `units` font units each, into
/// lines no wider than `max_width`; a blank advances by `space_units`.
/// Beside the lines it returns the advance of each.
pub fn pack_measured(
    ws: &Vec<Vec<char>>,
    units: &Vec<u64>,
    space_units: u64,
    font_size: u16,
    upem: u16,
    max_width: i64,
) -> (r: (Vec<Vec<char>>, Vec<u64>))
    requires
        units@.len() == ws@.len(),
        spaced_units(nats(units@), space_units as nat) <= MAX_UNITS,
    ensures
        r.1@.len() == r.0@.len(),
        measured_lines(r.0@, r.1@) == pack_units(
            views(ws@),
            nats(units@),
            space_units as nat,
            Seq::empty(),
            0,
            font_size,
            upem,
            max_width,
        ),
        r.0@.len() <= ws@.len() + 1,
        forall|k: int| 0 <= k < r.1@.len() ==> #[trigger] r.1@[k] <= MAX_UNITS,
{
    let ghost all = views(ws@);
    let ghost us = nats(units@);
    let ghost space = space_units as nat;
    let ghost whole = pack_units(all, us, space, Seq::empty(), 0, font_size, upem, max_width);
    let mut lines: Vec<Vec<char>> = Vec::new();
    let mut line_units: Vec<u64> = Vec::new();
    let mut current: Vec<char> = Vec::new();
    let mut current_units: u64 = 0;
    let mut i: usize = 0;
    proof {
        assert(all.skip(0) =~= all);
        assert(us.skip(0) =~= us);
        assert(current@ =~= Seq::<char>::empty());
        assert(measured_lines(lines@, line_units@) + whole =~= whole);
    }
    while i < ws.len()
        invariant
            i <= ws@.len(),
            units@.len() == ws@.len(),
            all == views(ws@),
            us == nats(units@),
            space == space_units,
            spaced_units(us, space) <= MAX_UNITS,
            whole == measured_lines(lines@, line_units@) + pack_units(
                all.skip(i as int),
                us.skip(i as int),
                space,
                current@,
                current_units as nat,
                font_size,
                upem,
                max_width,
            ),
            i == 0 ==> current@.len() == 0 && current_units == 0,
            i > 0 ==> current_units + space <= spaced_units(us.take(i as int), space),
            lines@.len() <= i,
            line_units@.len() == lines@.len(),
            forall|k: int| 0 <= k < line_units@.len() ==> #[trigger] line_units@[k] <= MAX_UNITS,
        decreases ws.len() - i,
    {
        let word: &Vec<char> = &ws[i];
        let word_units: u64 = units[i];
        proof {
            assert(all.skip(i as int)[0] == word@);
            assert(us.skip(i as int)[0] == word_units as nat);
            assert(all.skip(i as int).drop_first() =~= all.skip(i + 1));
            assert(us.skip(i as int).drop_first() =~= us.skip(i + 1));
            assert(us.take(i + 1).drop_last() =~= us.take(i as int));
            assert(us.take(i + 1).last() == word_units as nat);
            lemma_spaced_units_take(us, space, i + 1);
            lemma_spaced_units_take(us, space, i as int);
        }
        let cand_units: u64 = if current.len() == 0 {
            word_units
        } else {
            current_units + space_units + word_units
        };
        if fits_in(cand_units, font_size, upem, max_width) {
            let ghost before = current@;
            if current.len() > 0 {
                current.push(' ');
            }
            append_chars(&mut current, word.as_slice());
            current_units = cand_units;
            proof {
                assert(current@ =~= candidate(before, word@));
            }
        } else {
            let ghost shown = measured_lines(lines@, line_units@);
            let ghost closed = (current@, current_units as nat);
            let ghost rest = pack_units(
                all.skip(i + 1),
                us.skip(i + 1),
                space,
                word@,
                word_units as nat,
                font_size,
                upem,
                max_width,
            );
            lines.push(current);
            line_units.push(current_units);
            current = Vec::new();
            append_chars(&mut current, word.as_slice());
            current_units = word_units;
            proof {
                assert(current@ =~= word@);
                assert(measured_lines(lines@, line_units@) =~= shown.push(closed));
                assert(shown.push(closed) + rest =~= shown + (seq![closed] + rest));
            }
        }
        i = i + 1;
    }
    proof {
        assert(all.skip(i as int) =~= Seq::<Seq<char>>::empty());
        lemma_spaced_units_take(us, space, i as int);
    }
    if current.len() > 0 {
        let ghost shown = measured_lines(lines@, line_units@);
        let ghost closed = (current@, current_units as nat);
        lines.push(current);
        line_units.push(current_units);
        proof {
            assert(measured_lines(lines@, line_units@) =~= shown + seq![closed]);
        }
    } else {
        proof {
            assert(measured_lines(lines@, line_units@) + Seq::<(Seq<char>, nat)>::empty()
                =~= measured_lines(lines@, line_units@));
        }
    }
    (lines, line_units)
}

/// Measures the words `ws` in `font` and packs them into lines no wider
/// than `max_width`. Beside the lines it returns the advance of each, in
/// font units.
pub fn pack_lines(font: &FontData, ws: &Vec<Vec<char>>, font_size: u16, max_width: i64) -> (r: (
    Vec<Vec<char>>,
    Vec<u64>,
))
    requires
        spaced_len(views(ws@)) <= MAX_TEXT_CHARS + 1,
    ensures
        r.1@.len() == r.0@.len(),
        measured_lines(r.0@, r.1@) == pack_units(
            views(ws@),
            word_units(font, views(ws@)),
            font.advance(' '),
            Seq::empty(),
            0,
            font_size,
            font.upem,
            max_width,
        ),
        r.0@.len() <= ws@.len() + 1,
        forall|k: int| 0 <= k < r.1@.len() ==> #[trigger] r.1@[k] <= MAX_UNITS,
{
    let ghost all = views(ws@);
    let space_units: u64 = font.glyph_advance(' ') as u64;
    let mut units: Vec<u64> = Vec::new();
    let mut i: usize = 0;
    proof {
        assert(all.take(0) =~= Seq::<Seq<char>>::empty());
        assert(nats(units@) =~= word_units(font, all.take(0)));
    }
    while i < ws.len()
        invariant
            i <= ws@.len(),
            all == views(ws@),
            spaced_len(all) <= MAX_TEXT_CHARS + 1,
            space_units == font.advance(' '),
            space_units <= 65535,
            units@.len() == i,
            nats(units@) == word_units(font, all.take(i as int)),
            spaced_units(nats(units@), space_units as nat) <= 65535 * spaced_len(
                all.take(i as int),
            ),
        decreases ws.len() - i,
    {
        proof {
            assert(all.take(i + 1).drop_last() =~= all.take(i as int));
            assert(all.take(i + 1).last() == ws@[i as int]@);
            lemma_spaced_len_take(all, i + 1);
        }
        let ghost before = nats(units@);
        let u = font.text_units(ws[i].as_slice());
        units.push(u);
        proof {
            assert(nats(units@) =~= before.push(u as nat));
            assert(nats(units@).drop_last() =~= before);
            assert(nats(units@) =~= word_units(font, all.take(i + 1)));
        }
        i = i + 1;
    }
    proof {
        assert(all.take(i as int) =~= all);
    }
    pack_measured(ws, &units, space_units, font_size, font.upem, max_width)
}

/// Lays a paragraph out without drawing it: wraps `text` to `max_width`,
/// places each line by the alignment code `tipo`, and returns the lines
/// with the vertical offset just below the last of them.
pub fn layout_parrafo(
    text: &str,
    font_size: u16,
    y_inicial: i64,
    max_width: i64,
    tipo: i8,
    font_data: &FontData,
) -> (r: (Vec<ParrafoLine>, i64))
    requires
        font_data.wf(),
        text@.len() <= MAX_TEXT_CHARS,
        coord_ok(y_inicial),
        coord_ok(max_width),
    ensures
        line_views(r.0@) == layout_lines(font_data, text@, font_size, max_width, tipo),
        r.0@.len() == wrap_text(font_data, text@, font_size, max_width).len(),
        r.0@.len() <= MAX_TEXT_CHARS + 2,
        r.1 == y_inicial + r.0@.len() * line_spacing(font_size),
{
    let chars = chars_of(text);
    let ws = split_words(chars.as_slice());
    proof {
        lemma_spaced_len_bound(text@);
    }
    let (lines_text, line_units) = pack_lines(font_data, &ws, font_size, max_width);
    let ghost measured = wrap_measured(font_data, text@, font_size, max_width);
    let ghost wrapped = wrap_text(font_data, text@, font_size, max_width);
    proof {
        lemma_wrap_units(font_data, text@, font_size, max_width);
        assert(measured == measured_lines(lines_text@, line_units@));
    }
    let mut lines_layout: Vec<ParrafoLine> = Vec::new();
    let mut k: usize = 0;
    while k < lines_text.len()
        invariant
            k <= lines_text@.len(),
            font_data.wf(),
            coord_ok(max_width),
            measured == measured_lines(lines_text@, line_units@),
            wrapped == line_texts(measured),
            line_units@.len() == lines_text@.len(),
            forall|j: int| 0 <= j < line_units@.len() ==> #[trigger] line_units@[j] <= MAX_UNITS,
            forall|j: int|
                0 <= j < measured.len() ==> (#[trigger] measured[j]).1 == font_data.units(
                    measured[j].0,
                ),
            lines_layout@.len() == k,
            forall|j: int|
                0 <= j < k ==> (#[trigger] lines_layout@[j])@ == (
                    wrapped[j],
                    x_offset(tipo, max_width, font_data.width(wrapped[j], font_size)),
                ),
        decreases lines_text.len() - k,
    {
        proof {
            assert(measured[k as int] == (lines_text@[k as int]@, line_units@[k as int] as nat));
            assert(wrapped[k as int] == lines_text@[k as int]@);
        }
        let line_width = width_of(line_units[k], font_size, font_data.upem);
        let x_position = align_offset(tipo, max_width, line_width);
        let line_info = ParrafoLine { text: string_of(lines_text[k].as_slice()), x_position };
        lines_layout.push(line_info);
        k = k + 1;
    }
    let spacing = spacing_of(font_size);
    let count: i64 = lines_layout.len() as i64;
    assert(count * spacing <= 0x1_0000_0001 * 262140) by (nonlinear_arith)
        requires
            0 <= count <= 0x1_0000_0001,
            0 <= spacing <= 262140,
    ;
    assert(0 <= count * spacing) by (nonlinear_arith)
        requires
            0 <= count,
            0 <= spacing,
    ;
    let final_y = y_inicial + count * spacing;
    assert(line_views(lines_layout@) =~= layout_lines(
        font_data,
        text@,
        font_size,
        max_width,
        tipo,
    ));
    (lines_layout, final_y)
}

} // verus!
