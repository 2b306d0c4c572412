use crate::api::{load_std_api, with_builtin};
use crate::ast::stmt::{stmt_views, Stmt, StmtView};
use crate::error::{Error, ErrorView};
use crate::parser::grammar;
use crate::parser::Parser;
use crate::scanner::lexeme;
use crate::scanner::token::{token_views, Token, TokenView};
use crate::scanner::Scanner;
use crate::stack::{InstanceView, Stack};
use crate::worker::rules;
use crate::worker::Worker;
use vstd::prelude::*;

verus! {

/// The views of a sequence of complaints, in order.
pub open spec fn error_views(errors: Seq<Error>) -> Seq<ErrorView> {
    errors.map_values(|e: Error| e@)
}

/// The complaint that a source has more lines than can be counted.
pub open spec fn too_many_lines(start_line: u32) -> ErrorView {
    ErrorView { line: start_line, msg: "Too many lines."@ }
}

/// The tokens of `source`, which begins on line `start_line`, or the complaints about
/// it where there are any.
pub open spec fn scan_result(source: Seq<char>, start_line: u32) -> Result<
    Seq<TokenView>,
    Seq<ErrorView>,
> {
    if start_line + lexeme::newlines(source, 0, source.len() as int) > u32::MAX {
        Err(seq![too_many_lines(start_line)])
    } else {
        let (tokens, errors) = lexeme::scanned(source, 0, start_line as nat);
        if errors.len() == 0 {
            Ok(tokens)
        } else {
            Err(errors)
        }
    }
}

/// The statements that `tokens` spell, or the complaints about them where there are
/// any.
pub open spec fn parse_result(tokens: Seq<TokenView>) -> Result<Seq<StmtView>, Seq<ErrorView>> {
    let (stmts, errors) = grammar::parsed(tokens, 0);
    if errors.len() == 0 {
        Ok(stmts)
    } else {
        Err(errors)
    }
}

/// The statements that `source` spells, or the complaints about it: those of
/// scanning, or, where there are none, those of parsing.
pub open spec fn read_result(source: Seq<char>, start_line: u32) -> Result<
    Seq<StmtView>,
    Seq<ErrorView>,
> {
    match scan_result(source, start_line) {
        Err(errors) => Err(errors),
        Ok(tokens) => parse_result(tokens),
    }
}

/// The prompt for line `line`: its number, moved to the right in a width of four, and
/// `> `.
pub open spec fn prompt_text(line: u32) -> Seq<char> {
    let number = crate::text::decimal_text(line as nat);
    let padding = if number.len() < 4 {
        Seq::new((4 - number.len()) as nat, |i: int| ' ')
    } else {
        Seq::empty()
    };
    padding + number + "> "@
}

/// Reads programs and runs them over scopes that last from one program to the next.
pub struct Interpreter {
    /// Whether the last program read was found at fault.
    pub error_flag: bool,
    pub worker: Worker,
}

impl Interpreter {
    /// An interpreter whose global scope holds the functions that every host provides.
    pub fn new() -> (interpreter: Self)
        ensures
            interpreter.worker.wf(),
            !interpreter.error_flag,
            interpreter.worker@ == (rules::WorkerView {
                stack: with_builtin(seq![Map::<Seq<char>, InstanceView>::empty()], "test"@),
                frames: Seq::empty(),
                focus: crate::worker::machine::FocusView::Idle,
                base: 0,
            }),
    {
        let mut stack = Stack::new();
        load_std_api(&mut stack);
        Self { error_flag: false, worker: Worker::new(stack) }
    }

    /// Reads `code`, which begins on line `start_line`, and sets the worker to run it.
    /// The steps of the worker that follow do the run. A program with complaints about
    /// it is not run: the complaints are returned, those of scanning or, where there
    /// are none, those of parsing, and the worker stays as it is.
    pub fn run(&mut self, code: String, start_line: u32) -> (result: Result<(), Vec<Error>>)
        requires
            old(self).worker.wf(),
        ensures
            final(self).worker.wf(),
            final(self).worker.stack == old(self).worker.stack,
            final(self).error_flag == (result is Err),
            match result {
                Ok(_) => {
                    &&& read_result(code@, start_line) is Ok
                    &&& final(self).worker@ == rules::started(
                        old(self).worker.stack.scopes(),
                        read_result(code@, start_line)->Ok_0,
                    )
                },
                Err(errors) => {
                    &&& read_result(code@, start_line) == Err::<Seq<StmtView>, Seq<ErrorView>>(
                        error_views(errors@),
                    )
                    &&& final(self).worker == old(self).worker
                },
            },
    {
        let tokens = match Self::scan(code, start_line) {
            Ok(tokens) => tokens,
            Err(errors) => {
                self.error_flag = true;
                return Err(errors);
            },
        };
        let stmts = match Self::parse(tokens) {
            Ok(stmts) => stmts,
            Err(errors) => {
                self.error_flag = true;
                return Err(errors);
            },
        };
        self.error_flag = false;
        self.worker.run(stmts.as_slice());
        Ok(())
    }

    /// Scans `code`, which begins on line `start_line`, to its end, taking up again
    /// behind every lexeme that is no token. Returns the tokens where there was no
    /// complaint, and the complaints where there were any.
    pub fn scan(code: String, start_line: u32) -> (result: Result<Vec<Token>, Vec<Error>>)
        ensures
            match result {
                Ok(tokens) => {
                    &&& scan_result(code@, start_line) == Ok::<Seq<TokenView>, Seq<ErrorView>>(
                        token_views(tokens@),
                    )
                    &&& tokens.len() > 0
                    &&& tokens@.last()@.kind is Eof
                },
                Err(errors) => scan_result(code@, start_line) == Err::<
                    Seq<TokenView>,
                    Seq<ErrorView>,
                >(error_views(errors@)),
            },
    {
        let mut scanner = Scanner::new(code, start_line);
        let mut errors: Vec<Error> = Vec::new();
        if !scanner.has_room() {
            errors.push(Error { line: start_line, msg: String::from_str("Too many lines.") });
            assert(error_views(errors@) =~= seq![too_many_lines(start_line)]);
            return Err(errors);
        }
        let ghost source = scanner.source@;
        let ghost whole = lexeme::scanned(source, 0, start_line as nat);
        assert(token_views(scanner.tokens@) =~= Seq::<TokenView>::empty());
        assert(error_views(errors@) =~= Seq::<ErrorView>::empty());
        loop
            invariant_except_break
                scanner.wf(),
                scanner.lines_fit(),
                ({
                    let rest = lexeme::scanned(source, scanner.position(), scanner.line());
                    &&& whole.0 == token_views(scanner.tokens@) + rest.0
                    &&& whole.1 == error_views(errors@) + rest.1
                }),
            invariant
                scanner.source@ == source,
                source == code@,
                whole == lexeme::scanned(source, 0, start_line as nat),
                start_line + lexeme::newlines(source, 0, source.len() as int) <= u32::MAX,
            ensures
                whole.0 == token_views(scanner.tokens@),
                whole.1 == error_views(errors@),
                scanner.tokens.len() > 0,
                scanner.tokens@.last()@.kind is Eof,
            decreases scanner.source.len() - scanner.current,
        {
            let ghost at = scanner.position();
            let ghost line = scanner.line();
            let ghost before = token_views(scanner.tokens@);
            let ghost found = lexeme::scan(source, at, line);
            proof {
                lexeme::lemma_scan_error_goes_on(source, at, line);
                crate::scanner::laws::lemma_scan_ends_with_eof(source, at, line);
            }
            match scanner.scan_all_tokens() {
                Ok(_) => {
                    proof {
                        assert(before + found.tokens + Seq::<TokenView>::empty() =~= before
                            + found.tokens);
                        assert(error_views(errors@) + Seq::<ErrorView>::empty() =~= error_views(
                            errors@,
                        ));
                        assert(token_views(scanner.tokens@).last() == found.tokens.last());
                    }
                    break ;
                },
                Err(e) => {
                    proof {
                        let rest = lexeme::scanned(source, found.end, found.line);
                        assert(before + (found.tokens + rest.0) =~= before + found.tokens
                            + rest.0);
                        assert(error_views(errors@) + (seq![e@] + rest.1) =~= error_views(
                            errors@,
                        ).push(e@) + rest.1);
                        assert(error_views(errors@.push(e)) =~= error_views(errors@).push(e@));
                    }
                    errors.push(e);
                },
            }
        }
        if errors.len() == 0 {
            Ok(scanner.tokens)
        } else {
            Err(errors)
        }
    }

    /// Parses `tokens` to their end, recovering behind every declaration that cannot be
    /// read. Returns the statements where there was no complaint, and the complaints
    /// where there were any.
    pub fn parse(tokens: Vec<Token>) -> (result: Result<Vec<Stmt>, Vec<Error>>)
        requires
            tokens.len() > 0,
            tokens@.last()@.kind is Eof,
        ensures
            match result {
                Ok(stmts) => parse_result(token_views(tokens@)) == Ok::<
                    Seq<StmtView>,
                    Seq<ErrorView>,
                >(stmt_views(stmts@)),
                Err(errors) => parse_result(token_views(tokens@)) == Err::<
                    Seq<StmtView>,
                    Seq<ErrorView>,
                >(error_views(errors@)),
            },
    {
        let ghost views = token_views(tokens@);
        let mut parser = Parser::new(tokens);
        let mut errors: Vec<Error> = Vec::new();
        let ghost whole = grammar::parsed(views, 0);
        assert(stmt_views(parser.stmts@) =~= Seq::<StmtView>::empty());
        assert(error_views(errors@) =~= Seq::<ErrorView>::empty());
        loop
            invariant_except_break
                ({
                    let rest = grammar::parsed(views, parser.at());
                    &&& whole.0 == stmt_views(parser.stmts@) + rest.0
                    &&& whole.1 == error_views(errors@) + rest.1
                }),
            invariant
                parser.wf(),
                parser.view_tokens() == views,
                whole == grammar::parsed(views, 0),
            ensures
                whole.0 == stmt_views(parser.stmts@),
                whole.1 == error_views(errors@),
            decreases parser.tokens.len() - parser.current,
        {
            let ghost at = parser.at();
            let ghost before = stmt_views(parser.stmts@);
            let ghost read = grammar::program(views, at);
            proof {
                grammar::lemma_program_error_takes_a_token(views, at);
                grammar::lemma_resume_goes_on(views, (at + read.used + 1) as nat);
            }
            match parser.parse() {
                Ok(_) => {
                    proof {
                        assert(before + read.stmts + Seq::<StmtView>::empty() =~= before
                            + read.stmts);
                        assert(error_views(errors@) + Seq::<ErrorView>::empty() =~= error_views(
                            errors@,
                        ));
                    }
                    break ;
                },
                Err(e) => {
                    parser.synchronize();
                    proof {
                        let rest = grammar::parsed(views, parser.at());
                        assert(before + (read.stmts + rest.0) =~= before + read.stmts + rest.0);
                        assert(error_views(errors@) + (seq![e@] + rest.1) =~= error_views(
                            errors@,
                        ).push(e@) + rest.1);
                        assert(error_views(errors@.push(e)) =~= error_views(errors@).push(e@));
                    }
                    errors.push(e);
                },
            }
        }
        if errors.len() == 0 {
            Ok(parser.stmts)
        } else {
            Err(errors)
        }
    }

    /// The line that reports the complaint `e` to the user.
    pub fn report(e: &Error) -> (line: String)
        ensures
            line@ == e@.report(),
    {
        e.report()
    }

    /// The prompt for line `line`.
    pub fn prompt(line: u32) -> (text: String)
        ensures
            text@ == prompt_text(line),
    {
        let number = crate::text::decimal(line);
        let width = number.as_str().unicode_len();
        let mut text = String::new();
        let mut i: usize = width;
        while i < 4
            invariant
                width <= i,
                width < 4 ==> i <= 4,
                width >= 4 ==> i == width,
                text@ == Seq::new((i - width) as nat, |j: int| ' '),
            decreases 4 - i,
        {
            text.push(' ');
            assert(text@ =~= Seq::new((i + 1 - width) as nat, |j: int| ' '));
            i += 1;
        }
        proof {
            if width >= 4 {
                assert(text@ =~= Seq::<char>::empty());
            }
        }
        text.append(number.as_str());
        text.append("> ");
        text
    }
}

} // verus!
