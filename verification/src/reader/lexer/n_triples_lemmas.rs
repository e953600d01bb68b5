//! What holds of the N-Triples tokenizer on whole families of inputs.

use vstd::prelude::*;
use crate::error::{ErrorView, end_of_input, invalid_input};
use crate::reader::input_reader::{
    drop_char,
    first_char,
    free_of,
    is_blank,
    is_line_break,
    is_node_delimiter,
    is_whitespace,
    lemma_first_match_split,
    lemma_skip_whitespace_blank,
    lemma_skip_whitespace_none,
    lemma_skip_whitespace_prefix,
};
use crate::reader::lexer::n_triples_grammar::{Lexed, lex_annotation, lex_token};
use crate::reader::lexer::n_triples_lexer::{
    LexerView,
    Stepped,
    after_gets,
    get_step,
    nth_get,
    peek_step,
    unpeeked,
};
use crate::reader::lexer::token::TokenView;

verus! {

/// Leading whitespace is discarded before a token: with whitespace put
/// before the input, the same token is read and the same input is left.
pub proof fn lemma_leading_whitespace_is_discarded(blank: Seq<char>, s: Seq<char>)
    requires
        is_blank(blank),
    ensures
        get_step(unpeeked(blank + s)) == get_step(unpeeked(s)),
{
    lemma_skip_whitespace_prefix(blank, s);
}

/// Peeking is idempotent. After a peek that returned a token, a second peek
/// returns the same token and leaves the lexer as it is, and the next
/// `get_next_token` returns that token again and leaves the lexer as if the
/// token had been consumed without the peeks.
pub proof fn lemma_peek_is_idempotent(lexer: LexerView)
    requires
        peek_step(lexer).result is Ok,
    ensures
        peek_step(peek_step(lexer).lexer) == peek_step(lexer),
        get_step(peek_step(lexer).lexer).result == peek_step(lexer).result,
        get_step(peek_step(lexer).lexer).lexer == get_step(lexer).lexer,
{
}

/// A peek returns what `get_next_token` would have returned in its place
/// and reads as far into the input; after a failure it leaves the lexer as
/// `get_next_token` would have left it.
pub proof fn lemma_peek_returns_next_token(lexer: LexerView)
    ensures
        peek_step(lexer).result == get_step(lexer).result,
        peek_step(lexer).lexer.remaining == get_step(lexer).lexer.remaining,
        peek_step(lexer).result is Err ==> peek_step(lexer).lexer == get_step(lexer).lexer,
{
}

/// Once nothing but whitespace is left and no token is peeked, every call of
/// `get_next_token` and of `peek_next_token` reports the end of the input,
/// however many calls came before it.
pub proof fn lemma_end_of_input_persists(lexer: LexerView, n: nat)
    requires
        is_blank(lexer.remaining),
        lexer.peeked is None || lexer.peeked == Some(TokenView::EndOfInput),
    ensures
        nth_get(lexer, n) == Ok::<TokenView, ErrorView>(TokenView::EndOfInput),
        peek_step(after_gets(lexer, n)).result == Ok::<TokenView, ErrorView>(
            TokenView::EndOfInput,
        ),
    decreases n,
{
    lemma_skip_whitespace_blank(lexer.remaining);
    if n > 0 {
        lemma_end_of_input_persists(get_step(lexer).lexer, (n - 1) as nat);
    }
}

/// A quoted literal without annotation yields exactly its text, without the
/// quotes. The character after the closing quote is consumed with it.
pub proof fn lemma_plain_literal(text: Seq<char>, tail: Seq<char>)
    requires
        free_of(text, |c: char| c == '"'),
        first_char(tail) != Some('@'),
        first_char(tail) != Some('^'),
    ensures
        get_step(unpeeked(seq!['"'] + text + seq!['"'] + tail)) == (Stepped {
            result: Ok(TokenView::Literal(text)),
            lexer: unpeeked(drop_char(tail)),
        }),
{
    lemma_literal_text(text, tail);
}

/// A literal that `@` and a language tag follow yields its text and the tag.
/// The tag ends before the next node delimiter, which stays in the input.
pub proof fn lemma_literal_with_language(text: Seq<char>, language: Seq<char>, tail: Seq<char>)
    requires
        free_of(text, |c: char| c == '"'),
        free_of(language, |c: char| is_node_delimiter(c)),
        tail.len() > 0 ==> is_node_delimiter(tail[0]),
    ensures
        get_step(unpeeked(seq!['"'] + text + seq!['"', '@'] + language + tail)) == (Stepped {
            result: Ok(TokenView::LiteralWithLanguageSpecification(text, language)),
            lexer: unpeeked(tail),
        }),
{
    let annotation = seq!['@'] + language + tail;
    lemma_literal_text(text, annotation);
    assert(seq!['"'] + text + seq!['"'] + annotation =~= seq!['"'] + text + seq!['"', '@']
        + language + tail);
    assert(drop_char(annotation) =~= language + tail);
    lemma_first_match_split(language, tail, |c: char| is_node_delimiter(c));
}

/// A literal that `^^` and a URI in angle brackets follow yields its text and
/// the URI, without the brackets.
pub proof fn lemma_literal_with_datatype(text: Seq<char>, uri: Seq<char>, tail: Seq<char>)
    requires
        free_of(text, |c: char| c == '"'),
        free_of(uri, |c: char| c == '>'),
    ensures
        get_step(unpeeked(seq!['"'] + text + seq!['"', '^', '^', '<'] + uri + seq!['>'] + tail))
            == (Stepped {
            result: Ok(TokenView::LiteralWithUrlDatatype(text, uri)),
            lexer: unpeeked(tail),
        }),
{
    let annotation = seq!['^', '^', '<'] + uri + seq!['>'] + tail;
    lemma_literal_text(text, annotation);
    assert(seq!['"'] + text + seq!['"'] + annotation =~= seq!['"'] + text + seq![
        '"',
        '^',
        '^',
        '<',
    ] + uri + seq!['>'] + tail);
    let datatype = seq!['<'] + uri + seq!['>'] + tail;
    assert(drop_char(drop_char(annotation)) =~= datatype);
    assert(drop_char(datatype) =~= uri + (seq!['>'] + tail));
    lemma_first_match_split(uri, seq!['>'] + tail, |c: char| c == '>');
    assert((seq!['>'] + tail).skip(1) =~= tail);
    assert((uri + (seq!['>'] + tail)).skip(uri.len() as int + 1) =~= tail);
}

/// A literal that `^^` follows fails unless `<` comes next: the character
/// found in its place is reported and stays in the input.
pub proof fn lemma_literal_datatype_needs_uri(text: Seq<char>, tail: Seq<char>)
    requires
        free_of(text, |c: char| c == '"'),
        first_char(tail) != Some('<'),
    ensures
        get_step(unpeeked(seq!['"'] + text + seq!['"', '^', '^'] + tail)) == (Stepped {
            result: Err(
                invalid_input(
                    if tail.len() > 0 {
                        "Invalid data type token: "@.push(tail[0])
                    } else {
                        "Invalid input."@
                    },
                ),
            ),
            lexer: unpeeked(tail),
        }),
{
    let annotation = seq!['^', '^'] + tail;
    lemma_literal_text(text, annotation);
    assert(seq!['"'] + text + seq!['"'] + annotation =~= seq!['"'] + text + seq!['"', '^', '^']
        + tail);
    assert(drop_char(drop_char(annotation)) =~= tail);
}

/// A literal whose data type URI is not closed fails, and the error carries
/// what was read of the URI.
pub proof fn lemma_literal_datatype_unterminated(text: Seq<char>, uri: Seq<char>)
    requires
        free_of(text, |c: char| c == '"'),
        free_of(uri, |c: char| c == '>'),
    ensures
        get_step(unpeeked(seq!['"'] + text + seq!['"', '^', '^', '<'] + uri)) == (Stepped {
            result: Err(end_of_input(uri)),
            lexer: unpeeked(Seq::empty()),
        }),
{
    let annotation = seq!['^', '^', '<'] + uri;
    lemma_literal_text(text, annotation);
    assert(seq!['"'] + text + seq!['"'] + annotation =~= seq!['"'] + text + seq![
        '"',
        '^',
        '^',
        '<',
    ] + uri);
    let datatype = seq!['<'] + uri;
    assert(drop_char(drop_char(annotation)) =~= datatype);
    assert(drop_char(datatype) =~= uri + Seq::<char>::empty());
    lemma_first_match_split(uri, Seq::empty(), |c: char| c == '>');
}

/// The text of a literal ends at the first quote after the opening one, and
/// what follows that quote decides the token.
proof fn lemma_literal_text(text: Seq<char>, annotation: Seq<char>)
    requires
        free_of(text, |c: char| c == '"'),
    ensures
        lex_token(seq!['"'] + text + seq!['"'] + annotation) == lex_annotation(text, annotation),
{
    let s = seq!['"'] + text + seq!['"'] + annotation;
    assert(s[0] == '"');
    lemma_skip_whitespace_none(s);
    let after = seq!['"'] + annotation;
    assert(drop_char(s) =~= text + after);
    lemma_first_match_split(text, after, |c: char| c == '"');
    assert((text + after).skip(text.len() as int + 1) =~= annotation);
}

/// A comment as it stands in the input: `#`, the comment's text, and the
/// line breaks that end it.
pub struct CommentLine {
    /// The text of the comment.
    pub text: Seq<char>,
    /// The line breaks after the text.
    pub ending: Seq<char>,
}

/// The input that holds the comments `lines`, one after the other.
pub open spec fn comment_lines(lines: Seq<CommentLine>) -> Seq<char>
    decreases lines.len(),
{
    if lines.len() == 0 {
        Seq::empty()
    } else {
        seq!['#'] + lines[0].text + lines[0].ending + comment_lines(lines.skip(1))
    }
}

/// Tells whether `line` is a comment line: the text holds no line break and
/// the ending holds line breaks only, at least one unless the comment is
/// the last of the input.
pub open spec fn is_comment_line(line: CommentLine, last: bool) -> bool {
    &&& free_of(line.text, |c: char| is_line_break(c))
    &&& forall|i: int| 0 <= i < line.ending.len() ==> is_line_break(#[trigger] line.ending[i])
    &&& !last ==> line.ending.len() > 0
}

/// Tells whether `lines` are comment lines that line breaks separate.
pub open spec fn are_comment_lines(lines: Seq<CommentLine>) -> bool {
    forall|i: int|
        0 <= i < lines.len() ==> is_comment_line(#[trigger] lines[i], i == lines.len() - 1)
}

/// Input that holds nothing but comments, separated by line breaks, yields
/// one `Comment` per comment, in the order of the input, each with the text
/// between its `#` and the end of its line, and then the end of the input.
pub proof fn lemma_comment_lines(lines: Seq<CommentLine>, i: nat)
    requires
        are_comment_lines(lines),
        i <= lines.len(),
    ensures
        nth_get(unpeeked(comment_lines(lines)), i) == (if i < lines.len() {
            Ok::<TokenView, ErrorView>(TokenView::Comment(lines[i as int].text))
        } else {
            Ok::<TokenView, ErrorView>(TokenView::EndOfInput)
        }),
{
    assert(Seq::<char>::empty() + comment_lines(lines) =~= comment_lines(lines));
    lemma_comment_lines_after(Seq::empty(), lines, i);
}

/// `lemma_comment_lines`, with whitespace before the first comment.
proof fn lemma_comment_lines_after(blank: Seq<char>, lines: Seq<CommentLine>, i: nat)
    requires
        is_blank(blank),
        are_comment_lines(lines),
        i <= lines.len(),
    ensures
        nth_get(unpeeked(blank + comment_lines(lines)), i) == (if i < lines.len() {
            Ok::<TokenView, ErrorView>(TokenView::Comment(lines[i as int].text))
        } else {
            Ok::<TokenView, ErrorView>(TokenView::EndOfInput)
        }),
    decreases lines.len(),
{
    let input = comment_lines(lines);
    if lines.len() == 0 {
        assert(blank + input =~= blank);
        lemma_end_of_input_persists(unpeeked(blank), i);
    } else {
        let line = lines[0];
        let later = comment_lines(lines.skip(1));
        assert(is_comment_line(line, lines.len() == 1));
        if lines.len() == 1 {
            assert(later =~= Seq::<char>::empty());
        }
        lemma_leading_whitespace_is_discarded(blank, input);
        assert(seq!['#'] + line.text + (line.ending + later) =~= input);
        lemma_comment(line.text, line.ending + later);
        if i > 0 {
            let skipped = drop_char(line.ending);
            assert(drop_char(line.ending + later) =~= skipped + later);
            assert forall|j: int| 0 <= j < skipped.len() implies is_whitespace(
                #[trigger] skipped[j],
            ) by {
                assert(skipped[j] == line.ending[j + 1]);
            }
            assert forall|k: int| 0 <= k < lines.len() - 1 implies is_comment_line(
                #[trigger] lines.skip(1)[k],
                k == lines.len() - 2,
            ) by {
                assert(lines.skip(1)[k] == lines[k + 1]);
            }
            lemma_comment_lines_after(skipped, lines.skip(1), (i - 1) as nat);
            if i < lines.len() {
                assert(lines.skip(1)[i - 1] == lines[i as int]);
            }
        }
    }
}

/// One comment. Where `text` holds no line break, and `tail` is empty or
/// begins with a line break, `#`, `text` and `tail` yield the comment
/// `text`, and `tail` is left without its first character.
proof fn lemma_comment(text: Seq<char>, tail: Seq<char>)
    requires
        free_of(text, |c: char| is_line_break(c)),
        tail.len() > 0 ==> is_line_break(tail[0]),
    ensures
        lex_token(seq!['#'] + text + tail) == (Lexed {
            result: Ok(TokenView::Comment(text)),
            rest: drop_char(tail),
        }),
{
    let s = seq!['#'] + text + tail;
    assert(s[0] == '#');
    lemma_skip_whitespace_none(s);
    assert(drop_char(s) =~= text + tail);
    lemma_first_match_split(text, tail, |c: char| is_line_break(c));
}

} // verus!
