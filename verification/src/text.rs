//! Source text as sequences of characters: lines, tokens and identifiers.

use vstd::prelude::*;

verus! {

/// The texts that a vector of character vectors holds.
pub open spec fn texts(items: Seq<Vec<char>>) -> Seq<Seq<char>> {
    Seq::new(items.len(), |i: int| items[i]@)
}

/// Pushing an item onto a vector pushes its text onto the texts.
pub proof fn lemma_texts_push(items: Seq<Vec<char>>, item: Vec<char>)
    ensures
        texts(items.push(item)) == texts(items).push(item@),
{
    assert(texts(items.push(item)) =~= texts(items).push(item@));
}

/// The lines of a source text: the pieces between line feeds. A text with
/// `n` line feeds has `n + 1` lines, of which any may be empty.
pub open spec fn lines_of(source: Seq<char>) -> Seq<Seq<char>>
    decreases source.len(),
{
    if source.len() == 0 {
        seq![Seq::empty()]
    } else {
        let before = lines_of(source.drop_last());
        if source.last() == '\n' {
            before.push(Seq::empty())
        } else {
            before.drop_last().push(before.last().push(source.last()))
        }
    }
}

/// Splits a source text into its lines.
pub fn split_lines(source: &[char]) -> (lines: Vec<Vec<char>>)
    ensures
        texts(lines@) == lines_of(source@),
{
    let mut lines: Vec<Vec<char>> = Vec::new();
    let mut current: Vec<char> = Vec::new();
    let mut i: usize = 0;
    assert(source@.take(0) =~= Seq::empty());
    assert(texts(lines@).push(current@) =~= seq![Seq::empty()]);
    while i < source.len()
        invariant
            i <= source@.len(),
            lines_of(source@.take(i as int)) == texts(lines@).push(current@),
        decreases source@.len() - i,
    {
        let c = source[i];
        proof {
            let prefix = source@.take(i + 1);
            assert(prefix.drop_last() =~= source@.take(i as int));
            assert(prefix.last() == c);
            let before = texts(lines@).push(current@);
            assert(before.drop_last() =~= texts(lines@));
            assert(before.last() == current@);
        }
        if c == '\n' {
            proof {
                lemma_texts_push(lines@, current);
            }
            lines.push(current);
            current = Vec::new();
        } else {
            current.push(c);
        }
        i += 1;
    }
    proof {
        assert(source@.take(i as int) =~= source@);
        lemma_texts_push(lines@, current);
    }
    lines.push(current);
    lines
}

/// Whether `c` separates tokens: a blank, a tab, a line break or a comma.
pub open spec fn is_separator(c: char) -> bool {
    c == ' ' || c == '\t' || c == '\r' || c == '\n' || c == ','
}

/// Whether the text ends inside a token.
pub open spec fn ends_in_token(text: Seq<char>) -> bool {
    text.len() > 0 && !is_separator(text.last())
}

/// The tokens of a text: its maximal runs of characters that are no
/// separators, in order.
pub open spec fn tokens_of(text: Seq<char>) -> Seq<Seq<char>>
    decreases text.len(),
{
    if text.len() == 0 {
        Seq::empty()
    } else {
        let before = tokens_of(text.drop_last());
        if is_separator(text.last()) {
            before
        } else if ends_in_token(text.drop_last()) {
            before.drop_last().push(before.last().push(text.last()))
        } else {
            before.push(seq![text.last()])
        }
    }
}

/// Whether `token` is not empty and holds no separator.
pub open spec fn is_clean_token(token: Seq<char>) -> bool {
    &&& token.len() > 0
    &&& forall|j: int| 0 <= j < token.len() ==> !is_separator(#[trigger] token[j])
}

/// No token is empty or holds a separator, and a text that ends inside a
/// token has one.
pub proof fn lemma_tokens_clean(text: Seq<char>)
    ensures
        forall|i: int| 0 <= i < tokens_of(text).len() ==> is_clean_token(#[trigger] tokens_of(text)[i]),
        ends_in_token(text) ==> tokens_of(text).len() > 0,
    decreases text.len(),
{
    if text.len() > 0 {
        let shorter = text.drop_last();
        let before = tokens_of(shorter);
        lemma_tokens_clean(shorter);
        if is_separator(text.last()) {
        } else if ends_in_token(shorter) {
            let grown = before.last().push(text.last());
            assert(is_clean_token(before[before.len() - 1]));
            assert(is_clean_token(grown)) by {
                assert forall|j: int| 0 <= j < grown.len() implies !is_separator(
                    #[trigger] grown[j],
                ) by {
                    if j < before.last().len() {
                        assert(grown[j] == before.last()[j]);
                    }
                }
            }
            assert forall|i: int| 0 <= i < tokens_of(text).len() implies is_clean_token(
                #[trigger] tokens_of(text)[i],
            ) by {
                if i < before.len() - 1 {
                    assert(tokens_of(text)[i] == before[i]);
                }
            }
        } else {
            assert(is_clean_token(seq![text.last()]));
            assert forall|i: int| 0 <= i < tokens_of(text).len() implies is_clean_token(
                #[trigger] tokens_of(text)[i],
            ) by {
                if i < before.len() {
                    assert(tokens_of(text)[i] == before[i]);
                }
            }
        }
    }
}

/// Tests a character for being a separator.
pub fn separator(c: char) -> (b: bool)
    ensures
        b == is_separator(c),
{
    c == ' ' || c == '\t' || c == '\r' || c == '\n' || c == ','
}

/// Splits a text into its tokens.
pub fn tokenize(text: &[char]) -> (tokens: Vec<Vec<char>>)
    ensures
        texts(tokens@) == tokens_of(text@),
{
    let mut tokens: Vec<Vec<char>> = Vec::new();
    let mut current: Vec<char> = Vec::new();
    let mut i: usize = 0;
    assert(text@.take(0) =~= Seq::empty());
    assert(texts(tokens@) =~= Seq::<Seq<char>>::empty());
    while i < text.len()
        invariant
            i <= text@.len(),
            current@.len() > 0 <==> ends_in_token(text@.take(i as int)),
            tokens_of(text@.take(i as int)) == if current@.len() > 0 {
                texts(tokens@).push(current@)
            } else {
                texts(tokens@)
            },
        decreases text@.len() - i,
    {
        let c = text[i];
        proof {
            let prefix = text@.take(i + 1);
            assert(prefix.drop_last() =~= text@.take(i as int));
            assert(prefix.last() == c);
            let before = texts(tokens@).push(current@);
            assert(before.drop_last() =~= texts(tokens@));
            assert(before.last() == current@);
        }
        if separator(c) {
            if current.len() > 0 {
                proof {
                    lemma_texts_push(tokens@, current);
                }
                tokens.push(current);
                current = Vec::new();
            }
        } else {
            proof {
                if current@.len() == 0 {
                    assert(current@.push(c) =~= seq![c]);
                }
            }
            current.push(c);
        }
        i += 1;
    }
    proof {
        assert(text@.take(i as int) =~= text@);
    }
    if current.len() > 0 {
        proof {
            lemma_texts_push(tokens@, current);
        }
        tokens.push(current);
    }
    tokens
}

/// Tests a slice of characters for holding exactly the characters of `word`.
pub fn text_eq(text: &[char], word: &str) -> (equal: bool)
    ensures
        equal == (text@ == word@),
{
    let n = word.unicode_len();
    if text.len() != n {
        return false;
    }
    let mut i: usize = 0;
    while i < n
        invariant
            n == word@.len(),
            text@.len() == n,
            i <= n,
            forall|j: int| 0 <= j < i ==> text@[j] == word@[j],
        decreases n - i,
    {
        if text[i] != word.get_char(i) {
            return false;
        }
        i += 1;
    }
    assert(text@ =~= word@);
    true
}

/// Tests two slices of characters for holding the same text.
pub fn same_text(left: &[char], right: &[char]) -> (equal: bool)
    ensures
        equal == (left@ == right@),
{
    if left.len() != right.len() {
        return false;
    }
    let mut i: usize = 0;
    while i < left.len()
        invariant
            left@.len() == right@.len(),
            i <= left@.len(),
            forall|j: int| 0 <= j < i ==> left@[j] == right@[j],
        decreases left@.len() - i,
    {
        if left[i] != right[i] {
            return false;
        }
        i += 1;
    }
    assert(left@ =~= right@);
    true
}

/// Whether `c` may start an identifier: an ASCII letter or an underscore.
pub open spec fn is_identifier_start(c: char) -> bool {
    ('a' <= c && c <= 'z') || ('A' <= c && c <= 'Z') || c == '_'
}

/// Whether `c` may continue an identifier: an ASCII letter, a digit or an
/// underscore.
pub open spec fn is_identifier_part(c: char) -> bool {
    is_identifier_start(c) || ('0' <= c && c <= '9')
}

/// Whether `text` is an identifier: a letter or underscore followed by
/// letters, digits and underscores.
pub open spec fn is_identifier(text: Seq<char>) -> bool {
    &&& text.len() > 0
    &&& is_identifier_start(text[0])
    &&& forall|i: int| 0 < i < text.len() ==> is_identifier_part(#[trigger] text[i])
}

/// Tests a text for being an identifier.
pub fn identifier(text: &[char]) -> (b: bool)
    ensures
        b == is_identifier(text@),
{
    if text.len() == 0 {
        return false;
    }
    let first = text[0];
    if !(('a' <= first && first <= 'z') || ('A' <= first && first <= 'Z') || first == '_') {
        return false;
    }
    let mut i: usize = 1;
    while i < text.len()
        invariant
            1 <= i <= text@.len(),
            forall|j: int| 0 < j < i ==> is_identifier_part(#[trigger] text@[j]),
        decreases text@.len() - i,
    {
        let c = text[i];
        if !(('a' <= c && c <= 'z') || ('A' <= c && c <= 'Z') || c == '_' || ('0' <= c && c <= '9')) {
            return false;
        }
        i += 1;
    }
    true
}

} // verus!
