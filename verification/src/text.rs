//! Text as a sequence of characters: blanks, fields and lines.

use vstd::prelude::*;

verus! {

/// A character that separates fields: space, tab, line feed, vertical tab,
/// form feed or carriage return.
pub open spec fn is_blank(c: char) -> bool {
    c == ' ' || c == '\t' || c == '\n' || c == '\x0b' || c == '\x0c' || c == '\r'
}

/// Decides [`is_blank`].
pub fn is_blank_char(c: char) -> (r: bool)
    ensures
        r == is_blank(c),
{
    c == ' ' || c == '\t' || c == '\n' || c == '\x0b' || c == '\x0c' || c == '\r'
}

/// The characters of `s`, in order.
pub fn chars_of(s: &str) -> (r: Vec<char>)
    ensures
        r@ == s@,
{
    let mut out: Vec<char> = Vec::new();
    for c in it: s.chars()
        invariant
            out@ == it.seq().take(it.index() as int),
            it.seq() == s@,
    {
        out.push(c);
    }
    out
}

/// How many characters stand at the start of `s` before its first blank.
pub open spec fn word_len(s: Seq<char>) -> nat
    decreases s.len(),
{
    if s.len() > 0 && !is_blank(s[0]) {
        1 + word_len(s.drop_first())
    } else {
        0
    }
}

/// The fields of `s`: its maximal runs of characters that are not blank, in
/// order. Blanks before, between and after the fields count for nothing.
pub open spec fn fields(s: Seq<char>) -> Seq<Seq<char>>
    decreases s.len(),
{
    if s.len() == 0 {
        Seq::empty()
    } else if is_blank(s[0]) {
        fields(s.drop_first())
    } else {
        proof {
            lemma_word_len_bound(s);
        }
        seq![s.take(word_len(s) as int)] + fields(s.skip(word_len(s) as int))
    }
}

/// How many characters stand at the start of `s` before its first line feed.
pub open spec fn line_len(s: Seq<char>) -> nat
    decreases s.len(),
{
    if s.len() > 0 && s[0] != '\n' {
        1 + line_len(s.drop_first())
    } else {
        0
    }
}

/// The lines of `s`: what stands between its line feeds. A line feed ends a
/// line, so nothing follows the last one; an empty line elsewhere is a line.
/// A carriage return stays in its line, where it is a blank.
pub open spec fn lines(s: Seq<char>) -> Seq<Seq<char>>
    decreases s.len(),
{
    if s.len() == 0 {
        Seq::empty()
    } else if line_len(s) == s.len() {
        seq![s]
    } else {
        proof {
            lemma_line_len_bound(s);
        }
        seq![s.take(line_len(s) as int)] + lines(s.skip(line_len(s) as int + 1))
    }
}

/// A word is no longer than the text it starts.
pub proof fn lemma_word_len_bound(s: Seq<char>)
    ensures
        word_len(s) <= s.len(),
    decreases s.len(),
{
    if s.len() > 0 && !is_blank(s[0]) {
        lemma_word_len_bound(s.drop_first());
    }
}

/// A line is no longer than the text it starts.
pub proof fn lemma_line_len_bound(s: Seq<char>)
    ensures
        line_len(s) <= s.len(),
    decreases s.len(),
{
    if s.len() > 0 && s[0] != '\n' {
        lemma_line_len_bound(s.drop_first());
    }
}

/// A run of `n` characters that are not blank, with a blank or the end of the
/// text behind it, is the word that starts the text.
pub proof fn lemma_word_len_is(s: Seq<char>, n: nat)
    requires
        n <= s.len(),
        forall|k: int| 0 <= k < n ==> !is_blank(#[trigger] s[k]),
        n == s.len() || is_blank(s[n as int]),
    ensures
        word_len(s) == n,
    decreases n,
{
    if n > 0 {
        let rest = s.drop_first();
        assert forall|k: int| 0 <= k < n - 1 implies !is_blank(#[trigger] rest[k]) by {
            assert(rest[k] == s[k + 1]);
        }
        lemma_word_len_is(rest, (n - 1) as nat);
    }
}

/// A run of `n` characters that are not line feeds, with a line feed or the
/// end of the text behind it, is the line that starts the text.
pub proof fn lemma_line_len_is(s: Seq<char>, n: nat)
    requires
        n <= s.len(),
        forall|k: int| 0 <= k < n ==> #[trigger] s[k] != '\n',
        n == s.len() || s[n as int] == '\n',
    ensures
        line_len(s) == n,
    decreases n,
{
    if n > 0 {
        let rest = s.drop_first();
        assert forall|k: int| 0 <= k < n - 1 implies #[trigger] rest[k] != '\n' by {
            assert(rest[k] == s[k + 1]);
        }
        lemma_line_len_is(rest, (n - 1) as nat);
    }
}

/// No character of `s` is blank.
pub open spec fn no_blank(s: Seq<char>) -> bool {
    forall|i: int| 0 <= i < s.len() ==> !is_blank(#[trigger] s[i])
}

/// A blank at the start of a text adds no field.
pub proof fn lemma_fields_after_blank(c: char, rest: Seq<char>)
    requires
        is_blank(c),
    ensures
        fields(seq![c] + rest) == fields(rest),
{
    assert((seq![c] + rest).drop_first() == rest);
}

/// A word at the start of a text, with a blank or nothing behind it, is the
/// first field, and the other fields are those of what follows.
pub proof fn lemma_fields_after_word(word: Seq<char>, rest: Seq<char>)
    requires
        word.len() > 0,
        no_blank(word),
        rest.len() == 0 || is_blank(rest[0]),
    ensures
        fields(word + rest) == seq![word] + fields(rest),
{
    let s = word + rest;
    assert forall|k: int| 0 <= k < word.len() implies !is_blank(#[trigger] s[k]) by {
        assert(s[k] == word[k]);
    }
    lemma_word_len_is(s, word.len());
    assert(s.take(word.len() as int) == word);
    assert(s.skip(word.len() as int) == rest);
}

/// Finds the first field of `s` at or after `from`: the positions of its
/// first character and of the one behind its last, or `None` where only
/// blanks are left.
pub fn next_field(s: &[char], from: usize) -> (r: Option<(usize, usize)>)
    requires
        from <= s.len(),
    ensures
        match r {
            None => fields(s@.skip(from as int)) == Seq::<Seq<char>>::empty(),
            Some((a, b)) => {
                &&& from <= a < b <= s.len()
                &&& fields(s@.skip(from as int)) == seq![s@.subrange(a as int, b as int)] + fields(
                    s@.skip(b as int),
                )
            },
        },
{
    let n = s.len();
    let mut a: usize = from;
    while a < n && is_blank_char(s[a])
        invariant
            from <= a <= n,
            n == s.len(),
            fields(s@.skip(from as int)) == fields(s@.skip(a as int)),
        decreases n - a,
    {
        assert(s@.skip(a as int).drop_first() == s@.skip(a as int + 1));
        a = a + 1;
    }
    if a == n {
        return None;
    }
    let mut b: usize = a + 1;
    while b < n && !is_blank_char(s[b])
        invariant
            a < b <= n,
            n == s.len(),
            forall|k: int| a <= k < b ==> !is_blank(#[trigger] s@[k]),
        decreases n - b,
    {
        b = b + 1;
    }
    proof {
        let tail = s@.skip(a as int);
        lemma_word_len_is(tail, (b - a) as nat);
        assert(tail.take(b - a) == s@.subrange(a as int, b as int));
        assert(tail.skip(b - a) == s@.skip(b as int));
    }
    Some((a, b))
}

/// Finds where the line that starts at `from` ends: the position of its line
/// feed, or the end of `s` where no line feed follows.
pub fn line_end(s: &[char], from: usize) -> (end: usize)
    requires
        from <= s.len(),
    ensures
        from <= end <= s.len(),
        end - from == line_len(s@.skip(from as int)),
{
    let n = s.len();
    let mut end: usize = from;
    while end < n && s[end] != '\n'
        invariant
            from <= end <= n,
            n == s.len(),
            forall|k: int| from <= k < end ==> #[trigger] s@[k] != '\n',
        decreases n - end,
    {
        end = end + 1;
    }
    proof {
        lemma_line_len_is(s@.skip(from as int), (end - from) as nat);
    }
    end
}

} // verus!
