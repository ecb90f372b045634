use ticket_layout::text::{append_chars, chars_of, is_whitespace, split_words, string_of};

fn words_of(text: &str) -> Vec<String> {
    let chars = chars_of(text);
    split_words(&chars).iter().map(|w| string_of(w)).collect()
}

#[test]
fn chars_and_strings_round_trip() {
    assert_eq!(chars_of("a\u{e9}\u{3000}z"), vec!['a', '\u{e9}', '\u{3000}', 'z']);
    assert_eq!(chars_of(""), Vec::<char>::new());
    assert_eq!(string_of(&['h', 'o', 'l', 'a']), "hola");
    assert_eq!(string_of(&[]), "");
    assert_eq!(string_of(&chars_of("Se\u{f1}or  X")), "Se\u{f1}or  X");
}

#[test]
fn append_chars_writes_behind_what_is_there() {
    let mut dst = vec!['a', 'b'];
    append_chars(&mut dst, &['c', 'd']);
    assert_eq!(dst, vec!['a', 'b', 'c', 'd']);
    append_chars(&mut dst, &[]);
    assert_eq!(dst, vec!['a', 'b', 'c', 'd']);
}

#[test]
fn white_space_is_what_the_standard_library_calls_so() {
    let mut n: u32 = 0;
    while n <= 0x10FFFF {
        if let Some(c) = char::from_u32(n) {
            assert_eq!(is_whitespace(c), c.is_whitespace(), "U+{:04X}", n);
        }
        n += 1;
    }
}

#[test]
fn words_are_the_runs_between_white_space() {
    assert_eq!(words_of("Hello world"), vec!["Hello", "world"]);
    assert_eq!(words_of("  uno \t dos\n\ntres  "), vec!["uno", "dos", "tres"]);
    assert_eq!(words_of("solo"), vec!["solo"]);
    assert_eq!(words_of("a\u{a0}b\u{2003}c\u{3000}d"), vec!["a", "b", "c", "d"]);
    assert_eq!(words_of("x"), vec!["x"]);
    assert_eq!(words_of(" x"), vec!["x"]);
    assert_eq!(words_of("x "), vec!["x"]);
}

#[test]
fn blank_text_has_no_words() {
    assert_eq!(words_of(""), Vec::<String>::new());
    assert_eq!(words_of(" "), Vec::<String>::new());
    assert_eq!(words_of(" \t\r\n \u{2028}"), Vec::<String>::new());
}

#[test]
fn words_agree_with_split_whitespace() {
    let samples = [
        "Av. Siempre Viva 742,  depto 3",
        "\tPizza   Napolitana\n",
        "a b  c   d    e",
        "\u{1680}raro\u{205f}espacio\u{202f}",
        "sin_espacios",
    ];
    for s in samples {
        let expected: Vec<String> = s.split_whitespace().map(|w| w.to_string()).collect();
        assert_eq!(words_of(s), expected);
    }
}
