//! Characters, white space and words.

use vstd::prelude::*;
use vstd::std_specs::iter::IteratorSpec;

verus! {

/// `String::push` appends one character.
pub assume_specification[ String::push ](s: &mut String, ch: char)
    ensures
        final(s)@ == old(s)@.push(ch),
;

/// The characters of `text`, in order.
pub fn chars_of(text: &str) -> (out: Vec<char>)
    ensures
        out@ == text@,
{
    let mut out: Vec<char> = Vec::new();
    let mut it = text.chars();
    loop
        invariant
            it.obeys_prophetic_iter_laws(),
            it.decrease() is Some,
            out@ + it.remaining() == text@,
        ensures
            out@ == text@,
        decreases it.decrease()->0,
    {
        match it.next() {
            Some(c) => {
                out.push(c);
                assert(out@ + it.remaining() =~= text@);
            },
            None => {
                assert(out@ =~= text@);
                break;
            },
        }
    }
    out
}

/// The string that holds the characters of `chars`, in order.
pub fn string_of(chars: &[char]) -> (out: String)
    ensures
        out@ == chars@,
{
    let mut out = String::new();
    let mut i: usize = 0;
    while i < chars.len()
        invariant
            i <= chars@.len(),
            out@ == chars@.take(i as int),
        decreases chars.len() - i,
    {
        out.push(chars[i]);
        i = i + 1;
        assert(out@ =~= chars@.take(i as int));
    }
    assert(chars@.take(i as int) =~= chars@);
    out
}

/// Whether `c` is white space: a character with the Unicode property
/// White_Space.
pub open spec fn is_space(c: char) -> bool {
    let n = c as u32;
    ||| 0x09 <= n <= 0x0D
    ||| n == 0x20
    ||| n == 0x85
    ||| n == 0xA0
    ||| n == 0x1680
    ||| 0x2000 <= n <= 0x200A
    ||| n == 0x2028
    ||| n == 0x2029
    ||| n == 0x202F
    ||| n == 0x205F
    ||| n == 0x3000
}

/// Executable form of `is_space`.
pub fn is_whitespace(c: char) -> (r: bool)
    ensures
        r == is_space(c),
{
    let n: u32 = c as u32;
    (0x09 <= n && n <= 0x0D) || n == 0x20 || n == 0x85 || n == 0xA0 || n == 0x1680 || (0x2000 <= n
        && n <= 0x200A) || n == 0x2028 || n == 0x2029 || n == 0x202F || n == 0x205F || n == 0x3000
}

/// The character sequences that `v` holds.
pub open spec fn views(v: Seq<Vec<char>>) -> Seq<Seq<char>> {
    v.map_values(|w: Vec<char>| w@)
}

/// Appends the characters of `src` to `dst`.
pub fn append_chars(dst: &mut Vec<char>, src: &[char])
    ensures
        final(dst)@ == old(dst)@ + src@,
{
    let mut i: usize = 0;
    while i < src.len()
        invariant
            i <= src@.len(),
            dst@ == old(dst)@ + src@.take(i as int),
        decreases src.len() - i,
    {
        dst.push(src[i]);
        i = i + 1;
        assert(dst@ =~= old(dst)@ + src@.take(i as int));
    }
    assert(src@.take(i as int) =~= src@);
}

/// Whether `w` can be a word: it is not empty and holds no white space.
pub open spec fn is_word(w: Seq<char>) -> bool {
    w.len() > 0 && forall|i: int| 0 <= i < w.len() ==> !is_space(#[trigger] w[i])
}

/// The words of `s`: its maximal runs of characters that are not white
/// space, from left to right. Read character by character, white space adds
/// nothing, a character that follows one of a word lengthens the last word,
/// and any other character starts a word.
pub open spec fn words(s: Seq<char>) -> Seq<Seq<char>>
    decreases s.len(),
{
    if s.len() == 0 {
        Seq::empty()
    } else if is_space(s.last()) {
        words(s.drop_last())
    } else if s.len() >= 2 && !is_space(s[s.len() - 2]) {
        let before = words(s.drop_last());
        before.drop_last().push(before.last().push(s.last()))
    } else {
        words(s.drop_last()).push(seq![s.last()])
    }
}

/// `ws` joined by single blanks.
pub open spec fn join(ws: Seq<Seq<char>>) -> Seq<char>
    decreases ws.len(),
{
    if ws.len() == 0 {
        Seq::empty()
    } else if ws.len() == 1 {
        ws[0]
    } else {
        join(ws.drop_last()) + seq![' '] + ws.last()
    }
}

/// Characters of `ws` when each word is followed by one separator.
pub open spec fn spaced_len(ws: Seq<Seq<char>>) -> nat
    decreases ws.len(),
{
    if ws.len() == 0 {
        0
    } else {
        spaced_len(ws.drop_last()) + ws.last().len() + 1
    }
}

/// A text that ends in a character of a word has a last word.
pub proof fn lemma_words_nonempty(s: Seq<char>)
    requires
        s.len() > 0,
        !is_space(s.last()),
    ensures
        words(s).len() > 0,
    decreases s.len(),
{
    if s.len() >= 2 && !is_space(s[s.len() - 2]) {
        assert(s.drop_last().last() == s[s.len() - 2]);
        lemma_words_nonempty(s.drop_last());
    }
}

/// Every word of a text is a word: not empty, and free of white space.
pub proof fn lemma_words_are_words(s: Seq<char>)
    ensures
        forall|k: int| 0 <= k < words(s).len() ==> is_word(#[trigger] words(s)[k]),
    decreases s.len(),
{
    if s.len() == 0 {
    } else {
        lemma_words_are_words(s.drop_last());
        if is_space(s.last()) {
        } else if s.len() >= 2 && !is_space(s[s.len() - 2]) {
            assert(s.drop_last().last() == s[s.len() - 2]);
            lemma_words_nonempty(s.drop_last());
            let before = words(s.drop_last());
            assert(is_word(before[before.len() - 1]));
            assert(is_word(before.last().push(s.last())));
        } else {
            assert(is_word(seq![s.last()]));
        }
    }
}

/// A word written after a text that is empty or ends in white space is one
/// more word of the text.
pub proof fn lemma_words_append_word(t: Seq<char>, w: Seq<char>)
    requires
        is_word(w),
        t.len() == 0 || is_space(t.last()),
    ensures
        words(t + w) == words(t).push(w),
    decreases w.len(),
{
    let s = t + w;
    assert(s.last() == w.last());
    assert(s.drop_last() =~= t + w.drop_last());
    if w.len() == 1 {
        assert(w.drop_last() =~= Seq::<char>::empty());
        assert(t + w.drop_last() =~= t);
        assert(w =~= seq![w.last()]);
        if s.len() >= 2 {
            assert(s[s.len() - 2] == t.last());
        }
    } else {
        let v = w.drop_last();
        assert(is_word(v)) by {
            assert forall|i: int| 0 <= i < v.len() implies !is_space(#[trigger] v[i]) by {
                assert(v[i] == w[i]);
            }
        }
        lemma_words_append_word(t, v);
        assert(s[s.len() - 2] == w[w.len() - 2]);
        let before = words(t + v);
        assert(before.drop_last() =~= words(t));
        assert(before.last().push(w.last()) =~= w);
    }
}

/// White space at the end of a text adds no word.
pub proof fn lemma_words_append_space(t: Seq<char>, c: char)
    requires
        is_space(c),
    ensures
        words(t.push(c)) == words(t),
{
    assert(t.push(c).drop_last() =~= t);
}

/// Words joined by single blanks are the words of what results.
pub proof fn lemma_words_of_join(ws: Seq<Seq<char>>)
    requires
        forall|k: int| 0 <= k < ws.len() ==> is_word(#[trigger] ws[k]),
    ensures
        words(join(ws)) == ws,
    decreases ws.len(),
{
    if ws.len() == 0 {
        assert(words(join(ws)) =~= ws);
    } else if ws.len() == 1 {
        lemma_words_append_word(Seq::<char>::empty(), ws[0]);
        assert(Seq::<char>::empty() + ws[0] =~= ws[0]);
        assert(words(Seq::<char>::empty()).push(ws[0]) =~= ws);
    } else {
        let init = ws.drop_last();
        assert forall|k: int| 0 <= k < init.len() implies is_word(#[trigger] init[k]) by {
            assert(init[k] == ws[k]);
        }
        lemma_words_of_join(init);
        let t = join(init).push(' ');
        assert(t =~= join(init) + seq![' ']);
        lemma_words_append_space(join(init), ' ');
        lemma_words_append_word(t, ws.last());
        assert(init.push(ws.last()) =~= ws);
    }
}

/// A text of white space alone has no words.
pub proof fn lemma_words_of_blank(s: Seq<char>)
    requires
        forall|i: int| 0 <= i < s.len() ==> is_space(#[trigger] s[i]),
    ensures
        words(s).len() == 0,
    decreases s.len(),
{
    if s.len() > 0 {
        lemma_words_of_blank(s.drop_last());
    }
}

/// The words of a text, each with a separator, take no more room than the
/// text and one separator.
pub proof fn lemma_spaced_len_bound(s: Seq<char>)
    ensures
        spaced_len(words(s)) <= s.len() + 1,
        s.len() == 0 || is_space(s.last()) ==> spaced_len(words(s)) <= s.len(),
        words(s).len() <= spaced_len(words(s)),
    decreases s.len(),
{
    if s.len() == 0 {
    } else {
        let t = s.drop_last();
        lemma_spaced_len_bound(t);
        if is_space(s.last()) {
        } else if s.len() >= 2 && !is_space(s[s.len() - 2]) {
            assert(t.last() == s[s.len() - 2]);
            lemma_words_nonempty(t);
            let before = words(t);
            let after = before.drop_last().push(before.last().push(s.last()));
            assert(after.drop_last() =~= before.drop_last());
        } else {
            let after = words(t).push(seq![s.last()]);
            assert(after.drop_last() =~= words(t));
            if s.len() >= 2 {
                assert(t.last() == s[s.len() - 2]);
            }
        }
    }
}

/// Splits `chars` into its words.
pub fn split_words(chars: &[char]) -> (out: Vec<Vec<char>>)
    ensures
        views(out@) == words(chars@),
{
    let mut out: Vec<Vec<char>> = Vec::new();
    let mut current: Vec<char> = Vec::new();
    let mut i: usize = 0;
    while i < chars.len()
        invariant
            i <= chars@.len(),
            current@.len() > 0 <==> (i > 0 && !is_space(chars@[i - 1])),
            current@.len() > 0 ==> words(chars@.take(i as int)) == views(out@).push(current@),
            current@.len() == 0 ==> words(chars@.take(i as int)) == views(out@),
        decreases chars.len() - i,
    {
        let c = chars[i];
        let ghost prev = chars@.take(i as int);
        let ghost next = chars@.take(i + 1);
        proof {
            assert(next.drop_last() =~= prev);
            assert(next.last() == c);
            if i > 0 {
                assert(next[next.len() - 2] == chars@[i - 1]);
            }
        }
        if is_whitespace(c) {
            if current.len() > 0 {
                let ghost shown = views(out@);
                out.push(current);
                current = Vec::new();
                proof {
                    assert(views(out@) =~= shown.push(out@.last()@));
                }
            }
        } else {
            proof {
                if current@.len() > 0 {
                    assert(views(out@).push(current@).drop_last() =~= views(out@));
                }
            }
            current.push(c);
            proof {
                if current@.len() == 1 {
                    assert(current@ =~= seq![c]);
                }
            }
        }
        i = i + 1;
    }
    proof {
        assert(chars@.take(i as int) =~= chars@);
    }
    if current.len() > 0 {
        let ghost shown = views(out@);
        out.push(current);
        proof {
            assert(views(out@) =~= shown.push(out@.last()@));
        }
    }
    out
}

} // verus!
