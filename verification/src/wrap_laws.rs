//! What holds of every wrapped text: the lines keep the words, each line is
//! its words joined by single blanks, each fits unless it is a single word,
//! and none could have taken the word that follows it.

use vstd::prelude::*;
use crate::glyphs::{lemma_run_units_concat, FontData};
use crate::text::{
    is_space, is_word, join, lemma_spaced_len_bound, lemma_words_append_space,
    lemma_words_append_word, lemma_words_are_words, lemma_words_of_blank, spaced_len, words,
};
use crate::units::{fits, scaled_width, PAGE_WIDTH};
use crate::wrap::{
    all_words, candidate, candidate_units, line_texts, pack_units, spaced_units, word_units,
    wrap_measured, wrap_text, x_offset,
};

verus! {

/// Words with their separators take no less room than any part of them
/// from the front.
pub proof fn lemma_spaced_len_take(ws: Seq<Seq<char>>, i: int)
    requires
        0 <= i <= ws.len(),
    ensures
        spaced_len(ws.take(i)) <= spaced_len(ws),
    decreases ws.len() - i,
{
    if i < ws.len() {
        lemma_spaced_len_take(ws, i + 1);
        assert(ws.take(i + 1).drop_last() =~= ws.take(i));
    } else {
        assert(ws.take(i) =~= ws);
    }
}

/// Words with their blanks advance no less than any part of them from the
/// front.
pub proof fn lemma_spaced_units_take(us: Seq<nat>, space: nat, i: int)
    requires
        0 <= i <= us.len(),
    ensures
        spaced_units(us.take(i), space) <= spaced_units(us, space),
    decreases us.len() - i,
{
    if i < us.len() {
        lemma_spaced_units_take(us, space, i + 1);
        assert(us.take(i + 1).drop_last() =~= us.take(i));
    } else {
        assert(us.take(i) =~= us);
    }
}

/// The words of a candidate line are those of the open line and the word.
pub proof fn lemma_words_of_candidate(current: Seq<char>, word: Seq<char>)
    requires
        is_word(word),
    ensures
        words(candidate(current, word)) == words(current).push(word),
{
    if current.len() == 0 {
        assert(current + word =~= word);
        lemma_words_append_word(current, word);
    } else {
        let t = current.push(' ');
        assert(t =~= current + seq![' ']);
        lemma_words_append_space(current, ' ');
        lemma_words_append_word(t, word);
    }
}

/// Packing keeps the words: those of the open line, then `ws`.
pub proof fn lemma_pack_keeps_words(
    ws: Seq<Seq<char>>,
    us: Seq<nat>,
    space: nat,
    current: Seq<char>,
    current_units: nat,
    font_size: u16,
    upem: u16,
    max_width: i64,
)
    requires
        forall|k: int| 0 <= k < ws.len() ==> is_word(#[trigger] ws[k]),
    ensures
        all_words(
            line_texts(
                pack_units(ws, us, space, current, current_units, font_size, upem, max_width),
            ),
        ) == words(current) + ws,
    decreases ws.len(),
{
    let lines = line_texts(
        pack_units(ws, us, space, current, current_units, font_size, upem, max_width),
    );
    if ws.len() == 0 {
        if current.len() > 0 {
            assert(lines[0] == current);
            assert(lines.drop_first() =~= Seq::<Seq<char>>::empty());
            assert(all_words(lines.drop_first()) =~= Seq::<Seq<char>>::empty());
            assert(all_words(lines) =~= words(current));
        }
        assert(words(current) + ws =~= words(current));
    } else {
        let rest = ws.drop_first();
        let cand = candidate(current, ws[0]);
        let cand_units = candidate_units(current, current_units, us[0], space);
        assert forall|k: int| 0 <= k < rest.len() implies is_word(#[trigger] rest[k]) by {
            assert(rest[k] == ws[k + 1]);
        }
        lemma_words_of_candidate(current, ws[0]);
        if fits(cand_units, font_size, upem, max_width) {
            lemma_pack_keeps_words(
                rest,
                us.drop_first(),
                space,
                cand,
                cand_units,
                font_size,
                upem,
                max_width,
            );
            assert(words(current).push(ws[0]) + rest =~= words(current) + ws);
        } else {
            lemma_pack_keeps_words(
                rest,
                us.drop_first(),
                space,
                ws[0],
                us[0],
                font_size,
                upem,
                max_width,
            );
            lemma_words_append_word(Seq::<char>::empty(), ws[0]);
            assert(Seq::<char>::empty() + ws[0] =~= ws[0]);
            let tail = line_texts(
                pack_units(rest, us.drop_first(), space, ws[0], us[0], font_size, upem, max_width),
            );
            assert(lines.drop_first() =~= tail);
            assert(lines[0] == current);
            assert(words(current) + (Seq::<Seq<char>>::empty().push(ws[0]) + rest) =~= words(
                current,
            ) + ws);
        }
    }
}

/// Every packed line fits, or is one word that stands alone.
pub proof fn lemma_pack_lines_fit(
    ws: Seq<Seq<char>>,
    us: Seq<nat>,
    space: nat,
    current: Seq<char>,
    current_units: nat,
    font_size: u16,
    upem: u16,
    max_width: i64,
)
    requires
        forall|k: int| 0 <= k < ws.len() ==> is_word(#[trigger] ws[k]),
        fits(current_units, font_size, upem, max_width) || is_word(current),
    ensures
        forall|k: int|
            0 <= k < pack_units(
                ws,
                us,
                space,
                current,
                current_units,
                font_size,
                upem,
                max_width,
            ).len() ==> {
                let line = #[trigger] pack_units(
                    ws,
                    us,
                    space,
                    current,
                    current_units,
                    font_size,
                    upem,
                    max_width,
                )[k];
                fits(line.1, font_size, upem, max_width) || is_word(line.0)
            },
    decreases ws.len(),
{
    if ws.len() > 0 {
        let rest = ws.drop_first();
        let cand = candidate(current, ws[0]);
        let cand_units = candidate_units(current, current_units, us[0], space);
        assert forall|k: int| 0 <= k < rest.len() implies is_word(#[trigger] rest[k]) by {
            assert(rest[k] == ws[k + 1]);
        }
        let lines = pack_units(ws, us, space, current, current_units, font_size, upem, max_width);
        if fits(cand_units, font_size, upem, max_width) {
            lemma_pack_lines_fit(
                rest,
                us.drop_first(),
                space,
                cand,
                cand_units,
                font_size,
                upem,
                max_width,
            );
            assert(lines == pack_units(
                rest,
                us.drop_first(),
                space,
                cand,
                cand_units,
                font_size,
                upem,
                max_width,
            ));
        } else {
            lemma_pack_lines_fit(
                rest,
                us.drop_first(),
                space,
                ws[0],
                us[0],
                font_size,
                upem,
                max_width,
            );
            let tail = pack_units(
                rest,
                us.drop_first(),
                space,
                ws[0],
                us[0],
                font_size,
                upem,
                max_width,
            );
            assert forall|k: int| 0 <= k < lines.len() implies ({
                let line = #[trigger] lines[k];
                fits(line.1, font_size, upem, max_width) || is_word(line.0)
            }) by {
                if k > 0 {
                    assert(lines[k] == tail[k - 1]);
                }
            }
        }
    }
}

/// A word written after a line that is its words joined by single blanks
/// gives such a line again.
pub proof fn lemma_candidate_joined(current: Seq<char>, word: Seq<char>)
    requires
        is_word(word),
        current == join(words(current)),
    ensures
        candidate(current, word) == join(words(candidate(current, word))),
{
    lemma_words_of_candidate(current, word);
    let grown = words(current).push(word);
    assert(grown.drop_last() =~= words(current));
    if current.len() == 0 {
        assert(words(current) =~= Seq::<Seq<char>>::empty());
    } else {
        lemma_words_nonempty_of_joined(current);
    }
}

/// An open line that holds anything begins the first packed line.
pub proof fn lemma_pack_head(
    ws: Seq<Seq<char>>,
    us: Seq<nat>,
    space: nat,
    current: Seq<char>,
    current_units: nat,
    font_size: u16,
    upem: u16,
    max_width: i64,
)
    requires
        forall|k: int| 0 <= k < ws.len() ==> is_word(#[trigger] ws[k]),
        current.len() > 0,
        current == join(words(current)),
    ensures
        pack_units(ws, us, space, current, current_units, font_size, upem, max_width).len() > 0,
        words(
            pack_units(ws, us, space, current, current_units, font_size, upem, max_width)[0].0,
        ).len() > 0,
        words(
            pack_units(ws, us, space, current, current_units, font_size, upem, max_width)[0].0,
        )[0] == words(current)[0],
    decreases ws.len(),
{
    lemma_words_nonempty_of_joined(current);
    if ws.len() > 0 {
        let rest = ws.drop_first();
        let cand = candidate(current, ws[0]);
        let cand_units = candidate_units(current, current_units, us[0], space);
        assert forall|k: int| 0 <= k < rest.len() implies is_word(#[trigger] rest[k]) by {
            assert(rest[k] == ws[k + 1]);
        }
        if fits(cand_units, font_size, upem, max_width) {
            lemma_candidate_joined(current, ws[0]);
            lemma_words_of_candidate(current, ws[0]);
            lemma_pack_head(
                rest,
                us.drop_first(),
                space,
                cand,
                cand_units,
                font_size,
                upem,
                max_width,
            );
        }
    }
}

/// Whether line `k` of `lines` could not have taken the first word of the
/// line that follows it: with that word behind it, it would not fit.
pub open spec fn refuses_next(
    lines: Seq<(Seq<char>, nat)>,
    k: int,
    font: &FontData,
    font_size: u16,
    max_width: i64,
) -> bool {
    &&& words(lines[k + 1].0).len() > 0
    &&& !fits(
        candidate_units(
            lines[k].0,
            lines[k].1,
            font.units(words(lines[k + 1].0)[0]),
            font.advance(' '),
        ),
        font_size,
        font.upem,
        max_width,
    )
}

/// Packing is greedy: no packed line but the last could have taken the
/// first word of the line that follows it.
pub proof fn lemma_pack_greedy(
    font: &FontData,
    ws: Seq<Seq<char>>,
    current: Seq<char>,
    font_size: u16,
    max_width: i64,
)
    requires
        forall|k: int| 0 <= k < ws.len() ==> is_word(#[trigger] ws[k]),
        current == join(words(current)),
    ensures
        forall|k: int|
            0 <= k < pack_units(
                ws,
                word_units(font, ws),
                font.advance(' '),
                current,
                font.units(current),
                font_size,
                font.upem,
                max_width,
            ).len() - 1 ==> #[trigger] refuses_next(
                pack_units(
                    ws,
                    word_units(font, ws),
                    font.advance(' '),
                    current,
                    font.units(current),
                    font_size,
                    font.upem,
                    max_width,
                ),
                k,
                font,
                font_size,
                max_width,
            ),
    decreases ws.len(),
{
    if ws.len() > 0 {
        let us = word_units(font, ws);
        let space = font.advance(' ');
        let units = font.units(current);
        let upem = font.upem;
        let rest = ws.drop_first();
        let cand = candidate(current, ws[0]);
        let cand_units = candidate_units(current, units, us[0], space);
        let lines = pack_units(ws, us, space, current, units, font_size, upem, max_width);
        assert forall|k: int| 0 <= k < rest.len() implies is_word(#[trigger] rest[k]) by {
            assert(rest[k] == ws[k + 1]);
        }
        assert(us.drop_first() =~= word_units(font, rest));
        assert(us[0] == font.units(ws[0]));
        lemma_candidate_joined(current, ws[0]);
        lemma_candidate_joined(Seq::<char>::empty(), ws[0]);
        if fits(cand_units, font_size, upem, max_width) {
            assert(cand_units == font.units(cand)) by {
                if current.len() > 0 {
                    lemma_run_units_concat(&font.face, current, seq![' ']);
                    lemma_run_units_concat(&font.face, current + seq![' '], ws[0]);
                    assert(seq![' '].drop_last() =~= Seq::<char>::empty());
                    assert(seq![' '].last() == ' ');
                    assert(font.units(Seq::<char>::empty()) == 0);
                    assert(font.units(seq![' ']) == font.advance(' '));
                }
            }
            lemma_pack_greedy(font, rest, cand, font_size, max_width);
            assert(lines == pack_units(
                rest,
                word_units(font, rest),
                space,
                cand,
                font.units(cand),
                font_size,
                upem,
                max_width,
            ));
        } else {
            lemma_pack_greedy(font, rest, ws[0], font_size, max_width);
            let tail = pack_units(
                rest,
                word_units(font, rest),
                space,
                ws[0],
                font.units(ws[0]),
                font_size,
                upem,
                max_width,
            );
            lemma_pack_head(
                rest,
                word_units(font, rest),
                space,
                ws[0],
                font.units(ws[0]),
                font_size,
                upem,
                max_width,
            );
            lemma_words_of_candidate(Seq::<char>::empty(), ws[0]);
            assert(words(Seq::<char>::empty()).push(ws[0])[0] == ws[0]);
            assert(lines =~= seq![(current, units)] + tail);
            assert forall|k: int| 0 <= k < lines.len() - 1 implies #[trigger] refuses_next(
                lines,
                k,
                font,
                font_size,
                max_width,
            ) by {
                assert(lines[k + 1] == tail[k]);
                if k > 0 {
                    assert(lines[k] == tail[k - 1]);
                    assert(refuses_next(tail, k - 1, font, font_size, max_width));
                } else {
                    assert(lines[0] == (current, units));
                }
            }
        }
    }
}

/// Every packed line is its words joined by single blanks, where the open
/// line is.
pub proof fn lemma_pack_lines_joined(
    ws: Seq<Seq<char>>,
    us: Seq<nat>,
    space: nat,
    current: Seq<char>,
    current_units: nat,
    font_size: u16,
    upem: u16,
    max_width: i64,
)
    requires
        forall|k: int| 0 <= k < ws.len() ==> is_word(#[trigger] ws[k]),
        current == join(words(current)),
    ensures
        forall|k: int|
            0 <= k < pack_units(
                ws,
                us,
                space,
                current,
                current_units,
                font_size,
                upem,
                max_width,
            ).len() ==> {
                let line = (#[trigger] pack_units(
                    ws,
                    us,
                    space,
                    current,
                    current_units,
                    font_size,
                    upem,
                    max_width,
                )[k]).0;
                line == join(words(line))
            },
    decreases ws.len(),
{
    if ws.len() > 0 {
        let rest = ws.drop_first();
        let cand = candidate(current, ws[0]);
        let cand_units = candidate_units(current, current_units, us[0], space);
        assert forall|k: int| 0 <= k < rest.len() implies is_word(#[trigger] rest[k]) by {
            assert(rest[k] == ws[k + 1]);
        }
        lemma_candidate_joined(current, ws[0]);
        lemma_candidate_joined(Seq::<char>::empty(), ws[0]);
        let lines = pack_units(ws, us, space, current, current_units, font_size, upem, max_width);
        if fits(cand_units, font_size, upem, max_width) {
            lemma_pack_lines_joined(
                rest,
                us.drop_first(),
                space,
                cand,
                cand_units,
                font_size,
                upem,
                max_width,
            );
            assert(lines == pack_units(
                rest,
                us.drop_first(),
                space,
                cand,
                cand_units,
                font_size,
                upem,
                max_width,
            ));
        } else {
            lemma_pack_lines_joined(
                rest,
                us.drop_first(),
                space,
                ws[0],
                us[0],
                font_size,
                upem,
                max_width,
            );
            let tail = pack_units(
                rest,
                us.drop_first(),
                space,
                ws[0],
                us[0],
                font_size,
                upem,
                max_width,
            );
            assert forall|k: int| 0 <= k < lines.len() implies ({
                let line = (#[trigger] lines[k]).0;
                line == join(words(line))
            }) by {
                if k > 0 {
                    assert(lines[k] == tail[k - 1]);
                }
            }
        }
    }
}

/// A text that is its words joined has a word if it has a character.
proof fn lemma_words_nonempty_of_joined(s: Seq<char>)
    requires
        s.len() > 0,
        s == join(words(s)),
    ensures
        words(s).len() > 0,
{
}

/// Packing closes at most one line for each word, and one more.
pub proof fn lemma_pack_len(
    ws: Seq<Seq<char>>,
    us: Seq<nat>,
    space: nat,
    current: Seq<char>,
    current_units: nat,
    font_size: u16,
    upem: u16,
    max_width: i64,
)
    ensures
        pack_units(ws, us, space, current, current_units, font_size, upem, max_width).len()
            <= ws.len() + 1,
    decreases ws.len(),
{
    if ws.len() > 0 {
        let cand = candidate(current, ws[0]);
        let cand_units = candidate_units(current, current_units, us[0], space);
        lemma_pack_len(
            ws.drop_first(),
            us.drop_first(),
            space,
            cand,
            cand_units,
            font_size,
            upem,
            max_width,
        );
        lemma_pack_len(
            ws.drop_first(),
            us.drop_first(),
            space,
            ws[0],
            us[0],
            font_size,
            upem,
            max_width,
        );
    }
}

/// Where the words and the blank advance as they do in `font`, each packed
/// line comes with the advance that its text has in `font`.
pub proof fn lemma_pack_units_measure(
    font: &FontData,
    ws: Seq<Seq<char>>,
    current: Seq<char>,
    font_size: u16,
    max_width: i64,
)
    ensures
        forall|k: int|
            0 <= k < pack_units(
                ws,
                word_units(font, ws),
                font.advance(' '),
                current,
                font.units(current),
                font_size,
                font.upem,
                max_width,
            ).len() ==> {
                let line = #[trigger] pack_units(
                    ws,
                    word_units(font, ws),
                    font.advance(' '),
                    current,
                    font.units(current),
                    font_size,
                    font.upem,
                    max_width,
                )[k];
                line.1 == font.units(line.0)
            },
    decreases ws.len(),
{
    if ws.len() > 0 {
        let us = word_units(font, ws);
        let space = font.advance(' ');
        let rest = ws.drop_first();
        let cand = candidate(current, ws[0]);
        let cand_units = candidate_units(current, font.units(current), us[0], space);
        assert(us.drop_first() =~= word_units(font, rest));
        assert(us[0] == font.units(ws[0]));
        assert(cand_units == font.units(cand)) by {
            if current.len() > 0 {
                lemma_run_units_concat(&font.face, current, seq![' ']);
                lemma_run_units_concat(&font.face, current + seq![' '], ws[0]);
                assert(seq![' '].drop_last() =~= Seq::<char>::empty());
                assert(seq![' '].last() == ' ');
                assert(font.units(Seq::<char>::empty()) == 0);
                assert(font.units(seq![' ']) == font.advance(' '));
            }
        }
        let lines = pack_units(
            ws,
            us,
            space,
            current,
            font.units(current),
            font_size,
            font.upem,
            max_width,
        );
        if fits(cand_units, font_size, font.upem, max_width) {
            lemma_pack_units_measure(font, rest, cand, font_size, max_width);
            assert(lines == pack_units(
                rest,
                word_units(font, rest),
                space,
                cand,
                font.units(cand),
                font_size,
                font.upem,
                max_width,
            ));
        } else {
            lemma_pack_units_measure(font, rest, ws[0], font_size, max_width);
            let tail = pack_units(
                rest,
                us.drop_first(),
                space,
                ws[0],
                us[0],
                font_size,
                font.upem,
                max_width,
            );
            assert forall|k: int| 0 <= k < lines.len() implies ({
                let line = #[trigger] lines[k];
                line.1 == font.units(line.0)
            }) by {
                if k > 0 {
                    assert(lines[k] == tail[k - 1]);
                }
            }
        }
    }
}

/// Each line of a wrapped text comes with the advance that it has in the
/// font.
pub proof fn lemma_wrap_units(
    font: &FontData,
    text: Seq<char>,
    font_size: u16,
    max_width: i64,
)
    ensures
        forall|k: int|
            0 <= k < wrap_measured(font, text, font_size, max_width).len() ==> (
            #[trigger] wrap_measured(font, text, font_size, max_width)[k]).1 == font.units(
                wrap_measured(font, text, font_size, max_width)[k].0,
            ),
{
    assert(font.units(Seq::<char>::empty()) == 0);
    lemma_pack_units_measure(font, words(text), Seq::empty(), font_size, max_width);
}

/// A run that fits is no wider, measured in whole micrometres, than the
/// limit.
pub proof fn lemma_fits_bounds_width(units: nat, font_size: u16, upem: u16, max_width: i64)
    requires
        upem > 0,
        fits(units, font_size, upem, max_width),
    ensures
        scaled_width(units, font_size, upem) <= max_width,
{
    let n: int = units * font_size * 352778;
    let d: int = upem * 100000;
    let m: int = max_width as int;
    assert(m * upem * 100000 == m * d) by (nonlinear_arith)
        requires
            d == upem * 100000,
    ;
    assert(n / d <= m) by (nonlinear_arith)
        requires
            d > 0,
            n <= m * d,
    ;
}

/// Wrapping keeps the words of the text: read line by line, the words of
/// the lines are the words of the text, in their order.
pub proof fn lemma_wrap_keeps_words(
    font: &FontData,
    text: Seq<char>,
    font_size: u16,
    max_width: i64,
)
    ensures
        all_words(wrap_text(font, text, font_size, max_width)) == words(text),
{
    lemma_words_are_words(text);
    lemma_pack_keeps_words(
        words(text),
        word_units(font, words(text)),
        font.advance(' '),
        Seq::empty(),
        0,
        font_size,
        font.upem,
        max_width,
    );
    assert(words(Seq::<char>::empty()) + words(text) =~= words(text));
}

/// With a limit above zero, every line of a wrapped text measures no more
/// than the limit, but for a line that holds a single word.
pub proof fn lemma_wrap_lines_fit(
    font: &FontData,
    text: Seq<char>,
    font_size: u16,
    max_width: i64,
)
    requires
        font.wf(),
        max_width > 0,
    ensures
        forall|k: int|
            0 <= k < wrap_text(font, text, font_size, max_width).len() ==> {
                let line = #[trigger] wrap_text(font, text, font_size, max_width)[k];
                font.width(line, font_size) <= max_width || words(line) == seq![line]
            },
{
    lemma_words_are_words(text);
    let upem = font.upem;
    assert(fits(0, font_size, upem, max_width)) by {
        assert(0 * font_size * 352778 == 0);
        assert(0 <= max_width * upem * 100000) by (nonlinear_arith)
            requires
                max_width > 0,
                upem > 0,
        ;
    }
    lemma_pack_lines_fit(
        words(text),
        word_units(font, words(text)),
        font.advance(' '),
        Seq::empty(),
        0,
        font_size,
        font.upem,
        max_width,
    );
    lemma_wrap_units(font, text, font_size, max_width);
    let measured = wrap_measured(font, text, font_size, max_width);
    let lines = wrap_text(font, text, font_size, max_width);
    assert forall|k: int| 0 <= k < lines.len() implies ({
        let line = #[trigger] lines[k];
        font.width(line, font_size) <= max_width || words(line) == seq![line]
    }) by {
        let line = lines[k];
        assert(line == measured[k].0);
        assert(measured[k].1 == font.units(line));
        if fits(measured[k].1, font_size, font.upem, max_width) {
            lemma_fits_bounds_width(font.units(line), font_size, font.upem, max_width);
        } else {
            lemma_words_append_word(Seq::<char>::empty(), line);
            assert(Seq::<char>::empty() + line =~= line);
            assert(words(Seq::<char>::empty()).push(line) =~= seq![line]);
        }
    }
}

/// Wrapping is greedy: no line of a wrapped text but the last could have
/// taken the first word of the line that follows it.
pub proof fn lemma_wrap_is_greedy(
    font: &FontData,
    text: Seq<char>,
    font_size: u16,
    max_width: i64,
)
    ensures
        forall|k: int|
            0 <= k < wrap_measured(font, text, font_size, max_width).len() - 1
                ==> #[trigger] refuses_next(
                wrap_measured(font, text, font_size, max_width),
                k,
                font,
                font_size,
                max_width,
            ),
{
    lemma_words_are_words(text);
    assert(Seq::<char>::empty() =~= join(words(Seq::<char>::empty())));
    assert(font.units(Seq::<char>::empty()) == 0);
    lemma_pack_greedy(font, words(text), Seq::empty(), font_size, max_width);
}

/// Every line of a wrapped text is its words joined by single blanks: no
/// white space stands in front of a line or behind it, and none but one
/// blank between two words.
pub proof fn lemma_wrap_lines_joined(
    font: &FontData,
    text: Seq<char>,
    font_size: u16,
    max_width: i64,
)
    ensures
        forall|k: int|
            0 <= k < wrap_text(font, text, font_size, max_width).len() ==> {
                let line = #[trigger] wrap_text(font, text, font_size, max_width)[k];
                line == join(words(line))
            },
{
    lemma_words_are_words(text);
    assert(Seq::<char>::empty() =~= join(words(Seq::<char>::empty())));
    lemma_pack_lines_joined(
        words(text),
        word_units(font, words(text)),
        font.advance(' '),
        Seq::empty(),
        0,
        font_size,
        font.upem,
        max_width,
    );
    let measured = wrap_measured(font, text, font_size, max_width);
    assert forall|k: int| 0 <= k < measured.len() implies ({
        let line = #[trigger] wrap_text(font, text, font_size, max_width)[k];
        line == join(words(line))
    }) by {
        assert(wrap_text(font, text, font_size, max_width)[k] == measured[k].0);
    }
}

/// A wrapped text has no more lines than the text has characters, and two.
pub proof fn lemma_wrap_line_count(
    font: &FontData,
    text: Seq<char>,
    font_size: u16,
    max_width: i64,
)
    ensures
        wrap_text(font, text, font_size, max_width).len() <= text.len() + 2,
{
    lemma_spaced_len_bound(text);
    lemma_pack_len(
        words(text),
        word_units(font, words(text)),
        font.advance(' '),
        Seq::empty(),
        0,
        font_size,
        font.upem,
        max_width,
    );
}

/// A text that is empty or white space alone wraps to no line at all.
pub proof fn lemma_wrap_of_blank(
    font: &FontData,
    text: Seq<char>,
    font_size: u16,
    max_width: i64,
)
    requires
        forall|i: int| 0 <= i < text.len() ==> is_space(#[trigger] text[i]),
    ensures
        wrap_text(font, text, font_size, max_width).len() == 0,
{
    lemma_words_of_blank(text);
}

/// A centred line has its middle on the middle of the page: twice the
/// position and the line's width make up the page width, short of at most
/// the one micrometre that halving drops.
pub proof fn lemma_centered(max_width: i64, line_width: int)
    ensures
        0 <= PAGE_WIDTH - (2 * x_offset(0, max_width, line_width) + line_width) <= 1,
{
}

} // verus!
