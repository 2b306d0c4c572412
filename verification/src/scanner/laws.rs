use crate::scanner::lexeme::{
    lemma_lexeme_lines, lemma_lexeme_width, lemma_newlines_none, lemma_newlines_split, lexeme,
    newlines, run, scan, CharClass, Piece,
};
use crate::scanner::token::TokenView;
use vstd::prelude::*;

verus! {

/// A stretch of characters of one class, with no such character behind it, is a run.
pub proof fn lemma_run_all(source: Seq<char>, at: int, to: int, class: CharClass)
    requires
        0 <= at <= to <= source.len(),
        forall|i: int| at <= i < to ==> class.holds(#[trigger] source[i]),
        to == source.len() || !class.holds(source[to]),
    ensures
        run(source, at, class) == to - at,
    decreases to - at,
{
    if at < to {
        lemma_run_all(source, at + 1, to, class);
    }
}

/// A string that is opened and not closed is a complaint. Where no line ends in it,
/// the complaint is made about the line on which the string opens.
pub proof fn lemma_unterminated_string(source: Seq<char>, at: int, line: nat)
    requires
        0 <= at < source.len(),
        source[at] == '"',
        forall|i: int| at < i < source.len() ==> #[trigger] source[i] != '"',
    ensures
        scan(source, at, line).tokens == Seq::<TokenView>::empty(),
        scan(source, at, line).error is Some,
        scan(source, at, line).error->Some_0.msg == "Unterminated string."@,
        scan(source, at, line).end == source.len(),
        (forall|i: int| at < i < source.len() ==> #[trigger] source[i] != '\n') ==> scan(
            source,
            at,
            line,
        ).error->Some_0.line == line as u32,
{
    lemma_run_all(source, at + 1, source.len() as int, CharClass::Quoted);
    if forall|i: int| at < i < source.len() ==> #[trigger] source[i] != '\n' {
        lemma_newlines_none(source, at + 1, source.len() as int);
    }
}

/// Scanning counts the lines: the line it ends on lies as many lines behind the one
/// it started on as line ends were passed.
pub proof fn lemma_scan_counts_lines(source: Seq<char>, at: int, line: nat)
    requires
        0 <= at <= source.len(),
    ensures
        at <= scan(source, at, line).end <= source.len(),
        scan(source, at, line).line == line + newlines(source, at, scan(source, at, line).end),
    decreases source.len() - at,
{
    if at < source.len() {
        lemma_lexeme_width(source, at);
        lemma_lexeme_lines(source, at);
        let next = lexeme(source, at);
        if !(next.piece is Error) {
            lemma_scan_counts_lines(source, at + next.width, line + next.lines);
            lemma_newlines_split(
                source,
                at,
                at + next.width,
                scan(source, at, line).end,
            );
        }
    } else {
        assert(newlines(source, at, at) == 0);
    }
}

/// The lines of the tokens never go back: every token lies on the line on which
/// scanning started or behind it, and no token lies before the one read before it.
pub proof fn lemma_lines_never_go_back(source: Seq<char>, at: int, line: nat)
    requires
        0 <= at <= source.len(),
        line + newlines(source, at, source.len() as int) <= u32::MAX,
    ensures
        forall|i: int|
            0 <= i < scan(source, at, line).tokens.len() ==> line <= (#[trigger] scan(
                source,
                at,
                line,
            ).tokens[i]).line <= scan(source, at, line).line,
        forall|i: int, j: int|
            0 <= i <= j < scan(source, at, line).tokens.len() ==> scan(
                source,
                at,
                line,
            ).tokens[i].line <= scan(source, at, line).tokens[j].line,
    decreases source.len() - at,
{
    if at < source.len() {
        lemma_lexeme_width(source, at);
        lemma_lexeme_lines(source, at);
        let next = lexeme(source, at);
        lemma_newlines_split(source, at, at + next.width, source.len() as int);
        if !(next.piece is Error) {
            let rest = scan(source, at + next.width, line + next.lines);
            lemma_lines_never_go_back(source, at + next.width, line + next.lines);
            lemma_scan_counts_lines(source, at + next.width, line + next.lines);
            lemma_newlines_split(source, at + next.width, rest.end, source.len() as int);
            let found = scan(source, at, line);
            match next.piece {
                Piece::Token(kind) => {
                    assert forall|i: int| 0 <= i < found.tokens.len() implies line <= (
                    #[trigger] found.tokens[i]).line <= found.line by {
                        if i > 0 {
                            assert(found.tokens[i] == rest.tokens[i - 1]);
                        }
                    }
                    assert forall|i: int, j: int|
                        0 <= i <= j < found.tokens.len() implies found.tokens[i].line
                        <= found.tokens[j].line by {
                        if j > 0 {
                            assert(found.tokens[j] == rest.tokens[j - 1]);
                        }
                        if i > 0 {
                            assert(found.tokens[i] == rest.tokens[i - 1]);
                        }
                    }
                },
                _ => {},
            }
        }
    }
}

/// Scanning that reaches the end of the source closes the tokens with `Eof`.
pub proof fn lemma_scan_ends_with_eof(source: Seq<char>, at: int, line: nat)
    requires
        0 <= at,
    ensures
        scan(source, at, line).error is None ==> scan(source, at, line).tokens.len()
            > 0 && scan(source, at, line).tokens.last().kind is Eof,
    decreases source.len() - at,
{
    if at < source.len() {
        lemma_lexeme_width(source, at);
        let next = lexeme(source, at);
        if !(next.piece is Error) {
            lemma_scan_ends_with_eof(source, at + next.width, line + next.lines);
        }
    }
}

} // verus!
