//! Text helpers: characters of a string, whitespace, and splitting a message
//! into its whitespace-separated tokens.

use vstd::prelude::*;

verus! {

/// The views of a sequence of strings, one per string.
pub open spec fn texts(v: Seq<String>) -> Seq<Seq<char>> {
    v.map_values(|s: String| s@)
}

/// Unicode white space, the characters that separate the tokens of a message.
pub open spec fn is_space(c: char) -> bool {
    let u = c as u32;
    ||| 0x09 <= u <= 0x0D
    ||| u == 0x20
    ||| u == 0x85
    ||| u == 0xA0
    ||| u == 0x1680
    ||| 0x2000 <= u <= 0x200A
    ||| u == 0x2028
    ||| u == 0x2029
    ||| u == 0x202F
    ||| u == 0x205F
    ||| u == 0x3000
}

pub fn is_whitespace(c: char) -> (res: bool)
    ensures
        res == is_space(c),
{
    let u: u32 = c as u32;
    (0x09 <= u && u <= 0x0D) || u == 0x20 || u == 0x85 || u == 0xA0 || u == 0x1680 || (0x2000 <= u
        && u <= 0x200A) || u == 0x2028 || u == 0x2029 || u == 0x202F || u == 0x205F || u == 0x3000
}

/// Length of the longest prefix of `s` that holds no white space.
pub open spec fn word_len(s: Seq<char>) -> nat
    decreases s.len(),
{
    if s.len() == 0 || is_space(s[0]) {
        0
    } else {
        1 + word_len(s.skip(1))
    }
}

/// The first word lies within the text, holds no white space, and is not
/// empty where the text starts with another character.
pub proof fn lemma_word_len_bounds(s: Seq<char>)
    ensures
        word_len(s) <= s.len(),
        s.len() > 0 && !is_space(s[0]) ==> word_len(s) > 0,
        forall|k: int| 0 <= k < word_len(s) ==> !is_space(#[trigger] s[k]),
    decreases s.len(),
{
    if s.len() > 0 && !is_space(s[0]) {
        let t = s.skip(1);
        lemma_word_len_bounds(t);
        assert forall|k: int| 0 <= k < word_len(s) implies !is_space(#[trigger] s[k]) by {
            if k > 0 {
                assert(s[k] == t[k - 1]);
            }
        }
    }
}

/// The tokens of a message: its maximal runs of characters that are not
/// white space, in order.
pub open spec fn tokens(s: Seq<char>) -> Seq<Seq<char>>
    decreases s.len(),
{
    if s.len() == 0 {
        Seq::empty()
    } else if is_space(s[0]) {
        tokens(s.skip(1))
    } else {
        let n = word_len(s) as int;
        proof {
            lemma_word_len_bounds(s);
        }
        seq![s.take(n)] + tokens(s.skip(n))
    }
}

/// A run of `k` characters without white space is part of the first word.
pub proof fn lemma_word_len_run(s: Seq<char>, k: int)
    requires
        0 <= k <= s.len(),
        forall|i: int| 0 <= i < k ==> !is_space(#[trigger] s[i]),
    ensures
        word_len(s) == k + word_len(s.skip(k)),
    decreases k,
{
    if k == 0 {
        assert(s.skip(0) =~= s);
    } else {
        let t = s.skip(1);
        assert forall|i: int| 0 <= i < k - 1 implies !is_space(#[trigger] t[i]) by {
            assert(t[i] == s[i + 1]);
        }
        lemma_word_len_run(t, k - 1);
        assert(t.skip(k - 1) =~= s.skip(k));
    }
}

/// Appends one character to a string, by `String::push`: the string's
/// characters afterwards are those before, followed by `c`.
#[verifier::external_body]
pub(crate) fn push_char(s: &mut String, c: char)
    ensures
        final(s)@ == old(s)@.push(c),
{
    s.push(c);
}

/// The characters of a string, in order.
pub fn chars_of(text: &str) -> (res: Vec<char>)
    ensures
        res@ == text@,
{
    let n = text.unicode_len();
    let mut res: Vec<char> = Vec::new();
    let mut i: usize = 0;
    while i < n
        invariant
            n == text@.len(),
            0 <= i <= n,
            res@ == text@.take(i as int),
        decreases n - i,
    {
        let c = text.get_char(i);
        res.push(c);
        assert(text@.take(i + 1) =~= text@.take(i as int).push(c));
        i = i + 1;
    }
    assert(text@.take(n as int) =~= text@);
    res
}

/// Splits a message at white space into its tokens.
pub fn split_whitespace(text: &str) -> (res: Vec<String>)
    ensures
        texts(res@) == tokens(text@),
{
    let chars = chars_of(text);
    let n = chars.len();
    let ghost s = text@;
    let mut res: Vec<String> = Vec::new();
    let mut i: usize = 0;
    assert(s.skip(0) =~= s);
    assert(texts(res@) =~= Seq::empty());
    while i < n
        invariant
            s == text@,
            chars@ == s,
            n == s.len(),
            0 <= i <= n,
            tokens(s) == texts(res@) + tokens(s.skip(i as int)),
        decreases n - i,
    {
        let ghost rest = s.skip(i as int);
        assert(rest[0] == s[i as int]);
        if is_whitespace(chars[i]) {
            assert(rest.skip(1) =~= s.skip(i + 1));
            i = i + 1;
        } else {
            let start = i;
            let mut j: usize = i + 1;
            while j < n && !is_whitespace(chars[j])
                invariant
                    chars@ == s,
                    n == s.len(),
                    start < j <= n,
                    forall|k: int| start <= k < j ==> !is_space(#[trigger] s[k]),
                decreases n - j,
            {
                j = j + 1;
            }
            let word = text.substring_char(start, j).to_owned();
            proof {
                let len = j - start;
                assert forall|k: int| 0 <= k < len implies !is_space(#[trigger] rest[k]) by {
                    assert(rest[k] == s[start + k]);
                }
                lemma_word_len_run(rest, len);
                assert(rest.skip(len) =~= s.skip(j as int));
                assert(word_len(s.skip(j as int)) == 0);
                assert(rest.take(len) =~= s.subrange(start as int, j as int));
                assert(texts(res@.push(word)) =~= texts(res@).push(word@));
                assert(tokens(rest) == seq![word@] + tokens(s.skip(j as int)));
            }
            res.push(word);
            i = j;
        }
    }
    assert(tokens(s.skip(n as int)) =~= Seq::empty());
    res
}

/// Lines joined by line feeds.
pub open spec fn join_lines(lines: Seq<Seq<char>>) -> Seq<char>
    decreases lines.len(),
{
    if lines.len() == 0 {
        Seq::empty()
    } else if lines.len() == 1 {
        lines[0]
    } else {
        join_lines(lines.drop_last()) + "\n"@ + lines.last()
    }
}

/// Joins lines by line feeds.
pub fn join(lines: &Vec<String>) -> (res: String)
    ensures
        res@ == join_lines(texts(lines@)),
{
    let ghost views = texts(lines@);
    let mut out = String::new();
    let mut i: usize = 0;
    assert(join_lines(views.take(0)) =~= Seq::<char>::empty());
    while i < lines.len()
        invariant
            0 <= i <= lines.len(),
            views == texts(lines@),
            out@ == join_lines(views.take(i as int)),
        decreases lines.len() - i,
    {
        assert(views.take(i + 1).drop_last() =~= views.take(i as int));
        assert(views.take(i + 1).last() == lines@[i as int]@);
        if i > 0 {
            out.append("\n");
        }
        out.append(lines[i].as_str());
        assert(out@ =~= join_lines(views.take(i + 1)));
        i = i + 1;
    }
    assert(views.take(lines.len() as int) =~= views);
    out
}

/// Law of the tokens: every token holds at least one character and no white
/// space.
pub proof fn lemma_tokens_are_words(s: Seq<char>, i: int)
    requires
        0 <= i < tokens(s).len(),
    ensures
        tokens(s)[i].len() > 0,
        forall|k: int| 0 <= k < tokens(s)[i].len() ==> !is_space(#[trigger] tokens(s)[i][k]),
    decreases s.len(),
{
    if s.len() == 0 {
    } else if is_space(s[0]) {
        lemma_tokens_are_words(s.skip(1), i);
    } else {
        let n = word_len(s) as int;
        lemma_word_len_bounds(s);
        if i > 0 {
            lemma_tokens_are_words(s.skip(n), i - 1);
            assert(tokens(s)[i] == tokens(s.skip(n))[i - 1]);
        } else {
            assert(tokens(s)[0] == s.take(n));
        }
    }
}

/// Law of the single word: a text without white space is its own and only
/// token.
pub proof fn lemma_word_is_one_token(s: Seq<char>)
    requires
        s.len() > 0,
        forall|k: int| 0 <= k < s.len() ==> !is_space(#[trigger] s[k]),
    ensures
        tokens(s) == seq![s],
{
    lemma_word_len_run(s, s.len() as int);
    assert(s.skip(s.len() as int) =~= Seq::<char>::empty());
    assert(s.take(s.len() as int) =~= s);
    assert(tokens(s.skip(s.len() as int)) =~= Seq::<Seq<char>>::empty());
    assert(tokens(s) =~= seq![s]);
}

} // verus!
