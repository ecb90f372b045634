use ticket_layout::commands::{DrawOp, ImagePreMake, ParagraphData, PolygonPreMake, Scale};
use ticket_layout::commands::{flip_y, scale_of, set_linea_horizontal, set_linea_vertical};
use ticket_layout::glyphs::{FontData, FontLoadError};
use ticket_layout::pdf_resources::{CurrentPdf, PdfResources};
use ticket_layout::text::{chars_of, split_words, string_of};
use ticket_layout::wrap::{align_offset, layout_parrafo, pack_lines, pack_measured, ParrafoLine};

fn be16(out: &mut Vec<u8>, v: u16) {
    out.push((v >> 8) as u8);
    out.push((v & 0xff) as u8);
}

fn be32(out: &mut Vec<u8>, v: u32) {
    be16(out, (v >> 16) as u16);
    be16(out, (v & 0xffff) as u16);
}

/// A TrueType font with the tables that glyph metrics need. Glyph `g` has
/// the advance `advances[g]`, the last one standing for all glyphs beyond;
/// each group maps the characters from its first to its second number to
/// consecutive glyphs from its third on.
fn font_bytes(upem: u16, glyphs: u16, advances: &[u16], groups: &[(u32, u32, u32)]) -> Vec<u8> {
    let mut head: Vec<u8> = Vec::new();
    be32(&mut head, 0x0001_0000);
    be32(&mut head, 0x0001_0000);
    be32(&mut head, 0);
    be32(&mut head, 0x5F0F_3CF5);
    be16(&mut head, 0);
    be16(&mut head, upem);
    head.extend_from_slice(&[0u8; 16]);
    head.extend_from_slice(&[0u8; 8]);
    be16(&mut head, 0);
    be16(&mut head, 8);
    be16(&mut head, 2);
    be16(&mut head, 0);
    be16(&mut head, 0);

    let mut hhea: Vec<u8> = Vec::new();
    be32(&mut hhea, 0x0001_0000);
    be16(&mut hhea, 800);
    be16(&mut hhea, 0xff38);
    be16(&mut hhea, 0);
    hhea.extend_from_slice(&[0u8; 24]);
    be16(&mut hhea, advances.len() as u16);

    let mut maxp: Vec<u8> = Vec::new();
    be32(&mut maxp, 0x0000_5000);
    be16(&mut maxp, glyphs);

    let mut hmtx: Vec<u8> = Vec::new();
    for a in advances {
        be16(&mut hmtx, *a);
        be16(&mut hmtx, 0);
    }
    for _ in advances.len()..(glyphs as usize) {
        be16(&mut hmtx, 0);
    }

    let mut cmap: Vec<u8> = Vec::new();
    be16(&mut cmap, 0);
    be16(&mut cmap, 1);
    be16(&mut cmap, 0);
    be16(&mut cmap, 4);
    be32(&mut cmap, 12);
    be16(&mut cmap, 12);
    be16(&mut cmap, 0);
    be32(&mut cmap, 16 + 12 * groups.len() as u32);
    be32(&mut cmap, 0);
    be32(&mut cmap, groups.len() as u32);
    for (first, last, glyph) in groups {
        be32(&mut cmap, *first);
        be32(&mut cmap, *last);
        be32(&mut cmap, *glyph);
    }

    let tables: Vec<(&[u8; 4], Vec<u8>)> =
        vec![(b"cmap", cmap), (b"head", head), (b"hhea", hhea), (b"hmtx", hmtx), (b"maxp", maxp)];
    let mut out: Vec<u8> = Vec::new();
    be32(&mut out, 0x0001_0000);
    be16(&mut out, tables.len() as u16);
    be16(&mut out, 64);
    be16(&mut out, 2);
    be16(&mut out, 16);
    let mut offset = 12 + 16 * tables.len() as u32;
    for (tag, data) in &tables {
        out.extend_from_slice(&tag[..]);
        be32(&mut out, 0);
        be32(&mut out, offset);
        be32(&mut out, data.len() as u32);
        offset += data.len() as u32;
    }
    for (_, data) in &tables {
        out.extend_from_slice(data);
    }
    out
}

/// Every printable ASCII character advances 500 units of 1000 per em: at
/// 10 pt a character is 1763.89 micrometres wide.
fn uniform() -> Vec<u8> {
    font_bytes(1000, 96, &[500], &[(0x20, 0x7e, 1)])
}

/// As `uniform`, with 250 units for each character.
fn narrow() -> Vec<u8> {
    font_bytes(1000, 96, &[250], &[(0x20, 0x7e, 1)])
}

fn texts(lines: &[ParrafoLine]) -> Vec<String> {
    lines.iter().map(|l| l.text.clone()).collect()
}

fn word_list(text: &str) -> Vec<String> {
    split_words(&chars_of(text)).iter().map(|w| string_of(w)).collect()
}

#[test]
fn hello_world_is_one_line_and_four_millimetres() {
    let data = uniform();
    let font = FontData::load(&data).unwrap();
    let (lines, final_y) = layout_parrafo("Hello world", 1000, 12000, 60000, -1, &font);
    assert_eq!(
        lines,
        vec![ParrafoLine { text: "Hello world".to_string(), x_position: 5000 }]
    );
    assert_eq!(final_y, 12000 + 4000);
    assert!(font.measure(&lines[0].text, 1000) < 60000);

    let mut pdf = PdfResources::new(&data, &data).unwrap();
    assert_eq!(pdf.page_height, 0);
    let next = pdf.set_paragraph("Hello world", 1000, 12000, 60000, -1, false);
    assert_eq!(next, 16000);
    assert_eq!(pdf.page_height, 16000);
    assert_eq!(pdf.paragraphs.len(), 1);
    assert_eq!(pdf.paragraphs[0].lines.len(), 1);
}

#[test]
fn three_lines_raise_the_page_by_three_line_spacings() {
    let data = uniform();
    let mut pdf = PdfResources::new(&data, &data).unwrap();
    let next = pdf.set_paragraph("aaa bbb ccc", 1600, 7000, 9000, -1, true);
    assert_eq!(texts(&pdf.paragraphs[0].lines), vec!["aaa", "bbb", "ccc"]);
    assert_eq!(next, 7000 + 3 * 1600 * 4);
    assert_eq!(pdf.page_height, 7000 + 19200);
}

#[test]
fn words_are_packed_while_they_fit() {
    let data = uniform();
    let font = FontData::load(&data).unwrap();
    let (lines, final_y) = layout_parrafo("aaa bbb ccc ddd", 1000, 0, 13000, -1, &font);
    assert_eq!(texts(&lines), vec!["aaa bbb", "ccc ddd"]);
    assert_eq!(final_y, 8000);
    let (lines, _) = layout_parrafo("aaa bbb ccc ddd", 1000, 0, 20000, -1, &font);
    assert_eq!(texts(&lines), vec!["aaa bbb ccc", "ddd"]);
    let (lines, _) = layout_parrafo("aaa bbb ccc ddd", 1000, 0, 27000, -1, &font);
    assert_eq!(texts(&lines), vec!["aaa bbb ccc ddd"]);
    let (lines, _) = layout_parrafo("aaa bbb ccc ddd", 1000, 0, 6000, -1, &font);
    assert_eq!(texts(&lines), vec!["aaa", "bbb", "ccc", "ddd"]);
}

#[test]
fn the_limit_is_compared_without_rounding() {
    let data = uniform();
    let font = FontData::load(&data).unwrap();
    assert_eq!(font.measure("aaa bbb", 1000), 12347);
    let (lines, _) = layout_parrafo("aaa bbb", 1000, 0, 12348, -1, &font);
    assert_eq!(texts(&lines), vec!["aaa bbb"]);
    let (lines, _) = layout_parrafo("aaa bbb", 1000, 0, 12347, -1, &font);
    assert_eq!(texts(&lines), vec!["aaa", "bbb"]);
}

#[test]
fn white_space_between_words_collapses() {
    let data = uniform();
    let font = FontData::load(&data).unwrap();
    let (lines, _) = layout_parrafo("  aaa \t\n  bbb   ", 1000, 0, 13000, -1, &font);
    assert_eq!(texts(&lines), vec!["aaa bbb"]);
}

#[test]
fn a_word_wider_than_the_limit_stands_alone() {
    let data = uniform();
    let font = FontData::load(&data).unwrap();
    let (lines, final_y) = layout_parrafo("b aaaaaaaaaa c", 1000, 1000, 6000, -1, &font);
    assert_eq!(texts(&lines), vec!["b", "aaaaaaaaaa", "c"]);
    assert_eq!(final_y, 1000 + 3 * 4000);
    assert!(font.measure("aaaaaaaaaa", 1000) > 6000);
}

#[test]
fn a_first_word_wider_than_the_limit_closes_the_empty_line() {
    let data = uniform();
    let font = FontData::load(&data).unwrap();
    let (lines, final_y) = layout_parrafo("aaaaaaaaaa b", 1000, 0, 6000, -1, &font);
    assert_eq!(texts(&lines), vec!["", "aaaaaaaaaa", "b"]);
    assert_eq!(final_y, 12000);
}

#[test]
fn blank_text_gives_no_line_and_no_height() {
    let data = uniform();
    let font = FontData::load(&data).unwrap();
    for text in ["", " ", " \t\n  ", "\u{3000}\u{a0}"] {
        let (lines, final_y) = layout_parrafo(text, 1600, 9000, 60000, 0, &font);
        assert!(lines.is_empty());
        assert_eq!(final_y, 9000);
    }
    let mut pdf = PdfResources::new(&data, &data).unwrap();
    pdf.set_linea(3000);
    let next = pdf.set_paragraph("   ", 1600, 2000, 60000, -1, false);
    assert_eq!(next, 2000);
    assert_eq!(pdf.page_height, 3000);
}

#[test]
fn every_line_fits_or_is_a_single_word() {
    let data = uniform();
    let font = FontData::load(&data).unwrap();
    let text = "Av. Libertador Bernardo O'Higgins 1234, departamento 56, Santiago de Chile";
    for max_width in [1, 5000, 9000, 20000, 35000, 70000] {
        let (lines, _) = layout_parrafo(text, 1400, 0, max_width, -1, &font);
        for line in &lines {
            let width = font.measure(&line.text, 1400);
            assert!(width <= max_width || word_list(&line.text).len() == 1);
        }
    }
}

#[test]
fn wrapping_keeps_the_words_in_order() {
    let data = uniform();
    let font = FontData::load(&data).unwrap();
    let text = "  Av. Libertador Bernardo O'Higgins 1234,\tdepartamento 56,\n Santiago de Chile ";
    for max_width in [-5, 0, 1, 5000, 9000, 20000, 35000, 70000] {
        let (lines, _) = layout_parrafo(text, 1400, 0, max_width, 0, &font);
        let mut seen: Vec<String> = Vec::new();
        for line in &lines {
            seen.extend(word_list(&line.text));
        }
        assert_eq!(seen, word_list(text));
    }
}

#[test]
fn left_aligned_lines_are_indented_by_the_code() {
    let data = uniform();
    let font = FontData::load(&data).unwrap();
    let (lines, _) = layout_parrafo("aaa bbb", 1000, 0, 6000, -1, &font);
    assert_eq!(lines[0].x_position, 5000);
    assert_eq!(lines[1].x_position, 5000);
    let (lines, _) = layout_parrafo("aaa", 1000, 0, 6000, -2, &font);
    assert_eq!(lines[0].x_position, 10000);
    assert_eq!(align_offset(-128, 0, 0), 640000);
}

#[test]
fn centred_lines_have_their_middle_on_the_middle_of_the_page() {
    let data = uniform();
    let font = FontData::load(&data).unwrap();
    let (lines, _) = layout_parrafo("Hello world", 1000, 0, 60000, 0, &font);
    assert_eq!(lines[0].x_position, (80000 - 19402) / 2);
    assert_eq!(lines[0].x_position, 30299);
    assert_eq!(2 * lines[0].x_position + 19402, 80000);
    assert_eq!(align_offset(0, 60000, 19403), 30298);
    assert_eq!(align_offset(0, 60000, 80000), 0);
    assert_eq!(align_offset(0, 60000, 80001), -1);
    assert_eq!(align_offset(0, 60000, 80002), -1);
    assert_eq!(align_offset(0, 60000, 80003), -2);
    assert_eq!(align_offset(0, 60000, 0), 40000);
}

#[test]
fn right_aligned_lines_end_at_the_wrap_width_shifted_by_the_code() {
    let data = uniform();
    let font = FontData::load(&data).unwrap();
    let (lines, _) = layout_parrafo("Hello world", 1000, 0, 70000, 1, &font);
    assert_eq!(lines[0].x_position, 5000 + 70000 - 19402);
    let (lines, _) = layout_parrafo("aaa bbbb", 1000, 0, 8000, 2, &font);
    assert_eq!(texts(&lines), vec!["aaa", "bbbb"]);
    assert_eq!(lines[0].x_position, 10000 + 8000 - 5291);
    assert_eq!(lines[1].x_position, 10000 + 8000 - 7055);
    assert_eq!(align_offset(127, 0, 1000), 634000);
}

#[test]
fn the_light_flag_selects_the_typeface() {
    let bold = uniform();
    let light = narrow();
    let mut pdf = PdfResources::new(&bold, &light).unwrap();
    pdf.set_paragraph("aaa bbb ccc ddd", 1000, 0, 13500, 0, false);
    pdf.set_paragraph("aaa bbb ccc ddd", 1000, 0, 13500, 0, true);
    assert_eq!(texts(&pdf.paragraphs[0].lines), vec!["aaa bbb", "ccc ddd"]);
    assert_eq!(texts(&pdf.paragraphs[1].lines), vec!["aaa bbb ccc ddd"]);
    assert!(!pdf.paragraphs[0].light);
    assert!(pdf.paragraphs[1].light);
    assert_eq!(pdf.paragraphs[1].lines[0].x_position, (80000 - 13229) / 2);
}

#[test]
fn pack_lines_returns_the_advance_of_each_line() {
    let data = uniform();
    let font = FontData::load(&data).unwrap();
    let ws = split_words(&chars_of("aaa bbb ccc"));
    let (lines, units) = pack_lines(&font, &ws, 1000, 13000);
    let got: Vec<String> = lines.iter().map(|l| string_of(l)).collect();
    assert_eq!(got, vec!["aaa bbb", "ccc"]);
    assert_eq!(units, vec![3500, 1500]);
    let (lines, units) = pack_lines(&font, &Vec::new(), 1000, 13000);
    assert!(lines.is_empty());
    assert!(units.is_empty());
}

#[test]
fn pack_measured_packs_by_the_advances_it_is_given() {
    let ws = split_words(&chars_of("uno dos tres cuatro"));
    let (lines, units) = pack_measured(&ws, &vec![300, 300, 400, 600], 100, 1000, 1000, 3000);
    let got: Vec<String> = lines.iter().map(|l| string_of(l)).collect();
    assert_eq!(got, vec!["uno dos", "tres", "cuatro"]);
    assert_eq!(units, vec![700, 400, 600]);
    let (lines, units) = pack_measured(&ws, &vec![300, 300, 400, 600], 100, 1000, 1000, 4234);
    let got: Vec<String> = lines.iter().map(|l| string_of(l)).collect();
    assert_eq!(got, vec!["uno dos tres", "cuatro"]);
    assert_eq!(units, vec![1200, 600]);
    let (lines, units) = pack_measured(&ws, &vec![300, 300, 400, 600], 100, 1000, 1000, 4233);
    let got: Vec<String> = lines.iter().map(|l| string_of(l)).collect();
    assert_eq!(got, vec!["uno dos", "tres cuatro"]);
    assert_eq!(units, vec![700, 1100]);
    let (lines, units) = pack_measured(&ws, &vec![300, 300, 400, 600], 100, 1000, 1000, 1000);
    let got: Vec<String> = lines.iter().map(|l| string_of(l)).collect();
    assert_eq!(got, vec!["", "uno", "dos", "tres", "cuatro"]);
    assert_eq!(units, vec![0, 300, 300, 400, 600]);
}

#[test]
fn new_fails_where_a_typeface_does_not_parse() {
    let good = uniform();
    let bad = [0u8; 4];
    assert_eq!(PdfResources::new(&bad, &good).err(), Some(FontLoadError::UnknownMagic));
    assert_eq!(PdfResources::new(&good, &bad).err(), Some(FontLoadError::UnknownMagic));
    assert_eq!(PdfResources::new(&good[..30], &bad).err(), Some(FontLoadError::MalformedFont));
    let pdf = PdfResources::new(&good, &good).unwrap();
    assert!(pdf.paragraphs.is_empty());
    assert!(pdf.polygons.is_empty());
    assert!(pdf.imgs.is_empty());
    assert_eq!(pdf.current_pdf, None);
    assert_eq!(pdf.page_height, 0);
}

#[test]
fn the_page_height_never_shrinks_and_is_the_largest_extent() {
    let data = uniform();
    let mut pdf = PdfResources::new(&data, &data).unwrap();
    let mut heights = vec![pdf.page_height];
    let mut extents: Vec<i64> = Vec::new();
    extents.push(pdf.set_paragraph("Hello world", 2000, 12000, 60000, 0, false));
    heights.push(pdf.page_height);
    extents.push(pdf.set_linea(9000));
    heights.push(pdf.page_height);
    extents.push(pdf.set_img(5000, 30000, 10000, 10000, "moto", 118, 118));
    heights.push(pdf.page_height);
    extents.push(pdf.set_paragraph("uno dos tres", 1000, 1000, 6000, -1, true));
    heights.push(pdf.page_height);
    extents.push(pdf.set_rect(17000, 45000));
    heights.push(pdf.page_height);
    extents.push(pdf.set_separacion(20000, "dinero", 71, 71));
    heights.push(pdf.page_height);
    assert_eq!(extents, vec![20000, 9000, 40000, 13000, 45000, 31500]);
    assert_eq!(heights, vec![0, 20000, 20000, 40000, 40000, 45000, 45000]);
    assert_eq!(pdf.page_height, *extents.iter().max().unwrap());
}

#[test]
fn the_page_height_does_not_depend_on_the_order() {
    let data = uniform();
    let mut first = PdfResources::new(&data, &data).unwrap();
    first.set_paragraph("aaa bbb ccc", 1600, 7000, 9000, -1, true);
    first.set_paragraph("Hello world", 1000, 40000, 60000, 0, false);
    first.set_linea(3000);
    first.set_linea(50000);
    let mut second = PdfResources::new(&data, &data).unwrap();
    second.set_linea(50000);
    second.set_paragraph("Hello world", 1000, 40000, 60000, 0, false);
    second.set_linea(3000);
    second.set_paragraph("aaa bbb ccc", 1600, 7000, 9000, -1, true);
    assert_eq!(first.page_height, 50000);
    assert_eq!(second.page_height, first.page_height);
    first.init_draw();
    second.init_draw();
    assert_eq!(first.current_pdf, second.current_pdf);
}

#[test]
fn negative_offsets_add_no_height() {
    let data = uniform();
    let mut pdf = PdfResources::new(&data, &data).unwrap();
    pdf.set_paragraph("Hello world", 1000, 10000, 60000, -1, false);
    assert_eq!(pdf.page_height, 14000);
    let next = pdf.set_paragraph("aaa bbb ccc ddd eee fff", 2000, -3000, 11000, -1, false);
    assert_eq!(next, -3000 + 6 * 8000);
    assert_eq!(pdf.page_height, 14000);
    assert_eq!(pdf.set_img(0, -2000, 5000, 90000, "pie", 10, 10), 88000);
    assert_eq!(pdf.page_height, 14000);
    assert_eq!(pdf.set_linea(-1000), -1000);
    assert_eq!(pdf.page_height, 14000);
    assert_eq!(pdf.set_rect(-8000, -2000), -2000);
    assert_eq!(pdf.page_height, 14000);
    assert_eq!(pdf.set_separacion(-6000, "pie", 10, 10), 5500);
    assert_eq!(pdf.page_height, 14000);
}

#[test]
fn negative_offsets_are_drawn_their_magnitude_below_the_top() {
    let data = uniform();
    let mut pdf = PdfResources::new(&data, &data).unwrap();
    pdf.set_paragraph("Hello world", 1000, 10000, 60000, -1, false);
    pdf.set_paragraph("pie", 1000, -3000, 60000, -1, false);
    pdf.set_linea(-1000);
    pdf.set_img(0, -2000, 5000, 5000, "pie", 10, 10);
    pdf.init_draw();
    let ops = pdf.drow_all_obj();
    assert_eq!(pdf.page_height, 14000);
    assert_eq!(
        ops,
        vec![
            DrawOp::Text {
                text: "Hello world".to_string(),
                font_size: 1000,
                x: 5000,
                y: 4000,
                light: false
            },
            DrawOp::Text {
                text: "pie".to_string(),
                font_size: 1000,
                x: 5000,
                y: 11000,
                light: false
            },
            DrawOp::Polygon {
                points: vec![(5000, 13000), (5000, 13000), (75000, 13000), (75000, 13000)]
            },
            DrawOp::Image {
                icono: "pie".to_string(),
                x: 0,
                y: 12000,
                scale_x: Scale { num: 15000, den: 2540 },
                scale_y: Scale { num: 15000, den: 2540 },
            },
        ]
    );
    assert_eq!(flip_y(14000, -3000), 11000);
    assert_eq!(flip_y(14000, 3000), 11000);
    assert_eq!(flip_y(14000, 0), 14000);
}

#[test]
fn rules_and_frames_hold_their_corners() {
    assert_eq!(
        set_linea_horizontal(9000),
        PolygonPreMake { points: vec![(5000, 9000), (5000, 9000), (75000, 9000), (75000, 9000)] }
    );
    let (right, left) = set_linea_vertical(2000, 7000);
    assert_eq!(right, PolygonPreMake { points: vec![(75000, 2000), (75000, 7000)] });
    assert_eq!(left, PolygonPreMake { points: vec![(5000, 2000), (5000, 7000)] });
    assert_eq!(
        right.resolve(10000),
        vec![(75000, 8000), (75000, 3000)]
    );
    assert_eq!(PolygonPreMake { points: Vec::new() }.resolve(10000), Vec::new());

    let data = uniform();
    let mut pdf = PdfResources::new(&data, &data).unwrap();
    assert_eq!(pdf.set_rect(7000, 2000), 7000);
    assert_eq!(
        pdf.polygons,
        vec![
            set_linea_horizontal(7000),
            set_linea_horizontal(2000),
            PolygonPreMake { points: vec![(75000, 7000), (75000, 2000)] },
            PolygonPreMake { points: vec![(5000, 7000), (5000, 2000)] },
        ]
    );
    assert_eq!(pdf.page_height, 7000);
    assert_eq!(pdf.set_linea(8500), 8500);
    assert_eq!(pdf.polygons.len(), 5);
    assert_eq!(pdf.polygons[4], set_linea_horizontal(8500));
    assert_eq!(pdf.page_height, 8500);
}

#[test]
fn a_polygon_reaches_its_lowest_corner() {
    let data = uniform();
    let mut pdf = PdfResources::new(&data, &data).unwrap();
    let shape = PolygonPreMake { points: vec![(0, 3000), (10, 9000), (20, -4000), (30, 8000)] };
    assert_eq!(PdfResources::extent_of(&shape), 9000);
    assert_eq!(PdfResources::extent_of(&PolygonPreMake { points: Vec::new() }), 0);
    assert_eq!(PdfResources::extent_of(&PolygonPreMake { points: vec![(0, -7)] }), -7);
    pdf.push_polygon(shape.clone());
    assert_eq!(pdf.page_height, 9000);
    assert_eq!(pdf.polygons, vec![shape]);
}

#[test]
fn an_image_keeps_its_place_size_and_pixels() {
    let data = uniform();
    let mut pdf = PdfResources::new(&data, &data).unwrap();
    assert_eq!(pdf.set_img(5000, 16000, 10000, 12000, "moto", 118, 236), 28000);
    assert_eq!(
        pdf.imgs,
        vec![ImagePreMake {
            icono: "moto".to_string(),
            x: 5000,
            y: 16000,
            mm_x: 10000,
            mm_y: 12000,
            px_width: 118,
            px_height: 236,
        }]
    );
    assert_eq!(pdf.page_height, 28000);
    assert_eq!(scale_of(10000, 118), Scale { num: 30000, den: 29972 });
    assert_eq!(scale_of(25400, 300), Scale { num: 76200, den: 76200 });
    assert_eq!(scale_of(6000, 0), Scale { num: 18000, den: 0 });
}

#[test]
fn a_separator_is_two_rules_and_an_icon() {
    let data = uniform();
    let mut pdf = PdfResources::new(&data, &data).unwrap();
    assert_eq!(pdf.set_separacion(20000, "ubicacion", 71, 70), 31500);
    assert_eq!(pdf.polygons, vec![set_linea_horizontal(21500), set_linea_horizontal(22750)]);
    assert_eq!(
        pdf.imgs,
        vec![ImagePreMake {
            icono: "ubicacion".to_string(),
            x: 37000,
            y: 25500,
            mm_x: 6000,
            mm_y: 6000,
            px_width: 71,
            px_height: 70,
        }]
    );
    assert_eq!(pdf.page_height, 31500);
}

#[test]
fn init_draw_settles_the_page() {
    let data = uniform();
    let mut pdf = PdfResources::new(&data, &data).unwrap();
    pdf.set_paragraph("Hello world", 1000, 12000, 60000, -1, false);
    pdf.set_linea(30000);
    pdf.init_draw();
    assert_eq!(pdf.current_pdf, Some(CurrentPdf { width: 80000, height: 30000 }));
    assert_eq!(pdf.page_height, 30000);
    assert_eq!(pdf.paragraphs.len(), 1);
    assert_eq!(pdf.polygons.len(), 1);
}

#[test]
fn nothing_is_drawn_before_the_page_is_settled() {
    let data = uniform();
    let mut pdf = PdfResources::new(&data, &data).unwrap();
    pdf.set_paragraph("Hello world", 1000, 12000, 60000, -1, false);
    pdf.set_img(5000, 16000, 10000, 12000, "moto", 118, 236);
    let ops = pdf.drow_all_obj();
    assert!(ops.is_empty());
    assert_eq!(pdf.imgs.len(), 1);
    assert_eq!(pdf.paragraphs.len(), 1);
}

#[test]
fn everything_is_drawn_by_kind_and_flipped() {
    let data = uniform();
    let mut pdf = PdfResources::new(&data, &data).unwrap();
    pdf.set_img(5000, 16000, 10000, 12000, "moto", 118, 236);
    pdf.set_linea(9000);
    pdf.set_paragraph("aaa bbb ccc", 1600, 7000, 9000, 1, true);
    pdf.set_img(37000, 1000, 6000, 6000, "dinero", 71, 71);
    pdf.set_paragraph("Hello world", 1000, 30000, 60000, 0, false);
    pdf.set_rect(2000, 4000);
    assert_eq!(pdf.page_height, 34000);
    pdf.init_draw();
    let ops = pdf.drow_all_obj();
    let x = 5000 + 9000 - 8466;
    assert_eq!(
        ops,
        vec![
            DrawOp::Text { text: "aaa".to_string(), font_size: 1600, x, y: 27000, light: true },
            DrawOp::Text { text: "bbb".to_string(), font_size: 1600, x, y: 20600, light: true },
            DrawOp::Text { text: "ccc".to_string(), font_size: 1600, x, y: 14200, light: true },
            DrawOp::Text {
                text: "Hello world".to_string(),
                font_size: 1000,
                x: 30299,
                y: 4000,
                light: false
            },
            DrawOp::Polygon {
                points: vec![(5000, 25000), (5000, 25000), (75000, 25000), (75000, 25000)]
            },
            DrawOp::Polygon {
                points: vec![(5000, 32000), (5000, 32000), (75000, 32000), (75000, 32000)]
            },
            DrawOp::Polygon {
                points: vec![(5000, 30000), (5000, 30000), (75000, 30000), (75000, 30000)]
            },
            DrawOp::Polygon { points: vec![(75000, 32000), (75000, 30000)] },
            DrawOp::Polygon { points: vec![(5000, 32000), (5000, 30000)] },
            DrawOp::Image {
                icono: "moto".to_string(),
                x: 5000,
                y: 18000,
                scale_x: Scale { num: 30000, den: 29972 },
                scale_y: Scale { num: 36000, den: 59944 },
            },
            DrawOp::Image {
                icono: "dinero".to_string(),
                x: 37000,
                y: 33000,
                scale_x: Scale { num: 18000, den: 18034 },
                scale_y: Scale { num: 18000, den: 18034 },
            },
        ]
    );
    assert!(pdf.imgs.is_empty());
    assert_eq!(pdf.paragraphs.len(), 2);
    assert_eq!(pdf.polygons.len(), 5);
    assert_eq!(pdf.page_height, 34000);
}

#[test]
fn images_are_handed_over_once() {
    let data = uniform();
    let mut pdf = PdfResources::new(&data, &data).unwrap();
    pdf.set_img(5000, 16000, 10000, 12000, "moto", 118, 236);
    pdf.set_linea(9000);
    pdf.init_draw();
    let first = pdf.drow_all_obj();
    assert_eq!(first.len(), 2);
    let second = pdf.drow_all_obj();
    assert_eq!(second.len(), 1);
    assert!(matches!(second[0], DrawOp::Polygon { .. }));
}

fn text_op(text: &str, x: i64, y: i64) -> DrawOp {
    DrawOp::Text { text: text.to_string(), font_size: 1300, x, y, light: true }
}

#[test]
fn draw_parrafo_steps_down_by_the_line_spacing() {
    let lines = vec![
        ParrafoLine { text: "uno".to_string(), x_position: 5000 },
        ParrafoLine { text: "dos".to_string(), x_position: 6000 },
        ParrafoLine { text: "".to_string(), x_position: 7000 },
    ];
    let mut out = vec![DrawOp::Polygon { points: Vec::new() }];
    PdfResources::draw_parrafo(&lines, 50000, 1300, true, &mut out);
    assert_eq!(
        out,
        vec![
            DrawOp::Polygon { points: Vec::new() },
            text_op("uno", 5000, 50000),
            text_op("dos", 6000, 44800),
            text_op("", 7000, 39600),
        ]
    );
    let data = ParagraphData { lines, font_size: 1300, light: true, y_inicial: 0 };
    assert_eq!(data.lines.len(), 3);
}
