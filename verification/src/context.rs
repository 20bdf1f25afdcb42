//! A run: the lines of an input are classified one by one, the symbols they
//! define are collected in the order of the input, and what is wrong with a
//! line is either recorded, where the run can go on, or ends the run.

use vstd::prelude::*;
use crate::classify::{classify, classify_line, Line, Shape};
use crate::diagnostic::{
    Diagnostic, DiagnosticKind, DiagnosticView, ParseError, ParseErrorView, Severity,
};
use crate::document::{document, render_document, Symbol, SymbolView};
use crate::infer::{infer_result, infer_value};
use crate::options::RunOptions;
use crate::text::{blank_or_comment, is_blank_or_comment};
use crate::value::{Tristate, Value, ValueView};

verus! {

/// The state of a run: its options, whether an error was reported, and the
/// diagnostics recorded so far, oldest first.
#[derive(Debug)]
pub struct RunContext {
    pub options: RunOptions,
    pub error_reported: bool,
    pub diagnostics: Vec<Diagnostic>,
}

/// The mathematical content of a [`RunContext`].
pub struct ContextView {
    pub options: RunOptions,
    pub error_reported: bool,
    pub diagnostics: Seq<DiagnosticView>,
}

impl View for RunContext {
    type V = ContextView;

    open spec fn view(&self) -> ContextView {
        ContextView {
            options: self.options,
            error_reported: self.error_reported,
            diagnostics: self.diagnostics.deep_view(),
        }
    }
}

/// What one line does to a run that goes on: the state it leaves and the
/// symbol it defines, if any.
pub struct Step {
    pub context: ContextView,
    pub symbol: Option<SymbolView>,
}

/// What a sequence of lines does to a run. After a failure, `context` and
/// `symbols` are as the lines before the failing one left them.
pub struct Ingested {
    pub context: ContextView,
    pub symbols: Seq<SymbolView>,
    pub failure: Option<ParseErrorView>,
}

impl ContextView {
    /// The state of a run that has seen nothing yet.
    pub open spec fn fresh(options: RunOptions) -> ContextView {
        ContextView { options, error_reported: false, diagnostics: Seq::empty() }
    }

    /// The severity that the options give to a recoverable diagnostic.
    pub open spec fn severity(self) -> Severity {
        if self.options.relaxed {
            Severity::Warning
        } else {
            Severity::Error
        }
    }

    /// Records a diagnostic about `text`: a warning in relaxed mode, else an
    /// error, which also sets the flag.
    pub open spec fn report(self, kind: DiagnosticKind, text: Seq<char>) -> ContextView {
        ContextView {
            options: self.options,
            error_reported: self.error_reported || !self.options.relaxed,
            diagnostics: self.diagnostics.push(
                DiagnosticView { severity: self.severity(), kind, text },
            ),
        }
    }

    /// Tail validation: text behind a value or a marker is passed over where
    /// it is blank or a comment, and reported otherwise.
    pub open spec fn after_tail(self, tail: Seq<char>) -> ContextView {
        if blank_or_comment(tail) {
            self
        } else {
            self.report(DiagnosticKind::TrailingContent, tail)
        }
    }

    /// The policy for a line that is no construct: it is passed over where
    /// it is blank or a comment, and reported otherwise.
    pub open spec fn after_unhandled(self, line: Seq<char>) -> ContextView {
        if blank_or_comment(line) {
            self
        } else {
            self.report(DiagnosticKind::IllFormedLine, line)
        }
    }

    /// Value inference with tail validation.
    pub open spec fn parse_value(self, text: Seq<char>) -> Result<(ContextView, ValueView), ParseErrorView> {
        match infer_result(text) {
            Ok(inferred) => Ok((self.after_tail(inferred.tail), inferred.value)),
            Err(error) => Err(error),
        }
    }

    /// The line classifier: a marker defines its symbol as `No`, an
    /// assignment defines its symbol as the value inferred from its text, and
    /// any other line defines nothing and leaves the state as it is.
    pub open spec fn process_line(self, line: Seq<char>) -> Result<Step, ParseErrorView> {
        match classify(line, self.options.not_set_as_no) {
            Shape::Marker { name, tail } => Ok(
                Step {
                    context: self.after_tail(tail),
                    symbol: Some(
                        SymbolView { name, value: ValueView::Tristate(Tristate::No) },
                    ),
                },
            ),
            Shape::Assignment { name, text } => match self.parse_value(text) {
                Ok((context, value)) => Ok(Step { context, symbol: Some(SymbolView { name, value }) }),
                Err(error) => Err(error),
            },
            Shape::Other => Ok(Step { context: self, symbol: None }),
        }
    }

    /// One line of a run: the classifier, and for a line it does not handle
    /// the policy for such lines.
    pub open spec fn consume_line(self, line: Seq<char>) -> Result<Step, ParseErrorView> {
        match self.process_line(line) {
            Ok(step) => if step.symbol is Some {
                Ok(step)
            } else {
                Ok(Step { context: step.context.after_unhandled(line), symbol: None })
            },
            Err(error) => Err(error),
        }
    }

    /// A run over `lines`, in order, from the symbols collected so far. The
    /// first hard failure ends it.
    pub open spec fn ingest(self, symbols: Seq<SymbolView>, lines: Seq<Seq<char>>) -> Ingested
        decreases lines.len(),
    {
        if lines.len() == 0 {
            Ingested { context: self, symbols, failure: None }
        } else {
            match self.consume_line(lines.first()) {
                Ok(step) => step.context.ingest(
                    match step.symbol {
                        Some(symbol) => symbols.push(symbol),
                        None => symbols,
                    },
                    lines.drop_first(),
                ),
                Err(error) => Ingested { context: self, symbols, failure: Some(error) },
            }
        }
    }

    /// The status that the process ends with: 1 where an error was reported
    /// and the mode is strict, else 0.
    pub open spec fn exit_code(self) -> int {
        if !self.options.relaxed && self.error_reported {
            1
        } else {
            0
        }
    }
}

impl RunContext {
    /// A run that has seen nothing yet.
    pub fn new(options: RunOptions) -> (out: Self)
        ensures
            out@ == ContextView::fresh(options),
    {
        let out = RunContext { options, error_reported: false, diagnostics: Vec::new() };
        assert(out.diagnostics.deep_view() =~= Seq::empty());
        out
    }

    /// Records a diagnostic about `text`, as the mode asks.
    fn report(&mut self, kind: DiagnosticKind, text: &str)
        ensures
            final(self)@ == old(self)@.report(kind, text@),
    {
        let severity = if self.options.relaxed {
            Severity::Warning
        } else {
            self.error_reported = true;
            Severity::Error
        };
        self.diagnostics.push(Diagnostic { severity, kind, text: text.to_owned() });
        assert(self.diagnostics.deep_view() =~= old(self).diagnostics.deep_view().push(
            DiagnosticView { severity, kind, text: text@ },
        ));
    }

    /// Applies the policy for unhandled lines to `line`.
    pub fn ignore_line(&mut self, line: &str)
        ensures
            final(self)@ == old(self)@.after_unhandled(line@),
    {
        if !is_blank_or_comment(line) {
            self.report(DiagnosticKind::IllFormedLine, line);
        }
    }

    /// Validates `remain`, the text behind a recognized value or marker.
    pub fn ignore_remain(&mut self, remain: &str)
        ensures
            final(self)@ == old(self)@.after_tail(remain@),
    {
        if !is_blank_or_comment(remain) {
            self.report(DiagnosticKind::TrailingContent, remain);
        }
    }

    /// Infers the value that `s` stands for and validates what follows its
    /// literal. A hard failure leaves the run as it was.
    pub fn parse_value(&mut self, s: &str) -> (out: Result<Value, ParseError>)
        ensures
            match old(self)@.parse_value(s@) {
                Ok((context, value)) => out matches Ok(v) && v@ == value && final(self)@ == context,
                Err(error) => out matches Err(e) && e@ == error && final(self)@ == old(self)@,
            },
    {
        match infer_value(s) {
            Ok((value, tail)) => {
                self.ignore_remain(tail);
                Ok(value)
            },
            Err(error) => Err(error),
        }
    }

    /// Classifies `line` and, where it is a marker or an assignment, appends
    /// the symbol it defines to `symbols`. The result says whether the line
    /// was handled. A hard failure leaves the run and `symbols` as they were.
    pub fn process_line(&mut self, line: &str, symbols: &mut Vec<Symbol>) -> (out: Result<
        bool,
        ParseError,
    >)
        ensures
            match old(self)@.process_line(line@) {
                Ok(step) => {
                    &&& out == Ok::<bool, ParseError>(step.symbol is Some)
                    &&& final(self)@ == step.context
                    &&& final(symbols).deep_view() == match step.symbol {
                        Some(symbol) => old(symbols).deep_view().push(symbol),
                        None => old(symbols).deep_view(),
                    }
                },
                Err(error) => {
                    &&& out matches Err(e) && e@ == error
                    &&& final(self)@ == old(self)@
                    &&& final(symbols).deep_view() == old(symbols).deep_view()
                },
            },
    {
        match classify_line(line, self.options.not_set_as_no) {
            Line::Marker { name, tail } => {
                self.ignore_remain(tail);
                let symbol = Symbol { name: name.to_owned(), value: Value::Tristate(Tristate::No) };
                symbols.push(symbol);
                assert(symbols.deep_view() =~= old(symbols).deep_view().push(symbol@));
                Ok(true)
            },
            Line::Assignment { name, text } => {
                match self.parse_value(text) {
                    Ok(value) => {
                        let symbol = Symbol { name: name.to_owned(), value };
                        symbols.push(symbol);
                        assert(symbols.deep_view() =~= old(symbols).deep_view().push(symbol@));
                        Ok(true)
                    },
                    Err(error) => Err(error),
                }
            },
            Line::Other => Ok(false),
        }
    }

    /// Takes in one line: classifies it and, where it was not handled,
    /// applies the policy for unhandled lines.
    pub fn consume_line(&mut self, line: &str, symbols: &mut Vec<Symbol>) -> (out: Result<
        (),
        ParseError,
    >)
        ensures
            match old(self)@.consume_line(line@) {
                Ok(step) => {
                    &&& out is Ok
                    &&& final(self)@ == step.context
                    &&& final(symbols).deep_view() == match step.symbol {
                        Some(symbol) => old(symbols).deep_view().push(symbol),
                        None => old(symbols).deep_view(),
                    }
                },
                Err(error) => {
                    &&& out matches Err(e) && e@ == error
                    &&& final(self)@ == old(self)@
                    &&& final(symbols).deep_view() == old(symbols).deep_view()
                },
            },
    {
        match self.process_line(line, symbols) {
            Ok(processed) => {
                if !processed {
                    self.ignore_line(line);
                }
                Ok(())
            },
            Err(error) => Err(error),
        }
    }

    /// Takes in `lines`, in order, and hands back the symbols they define.
    /// The first hard failure ends the run: the lines behind it are not
    /// looked at, and the diagnostics are those of the lines before it.
    pub fn ingest(&mut self, lines: &Vec<String>) -> (out: Result<Vec<Symbol>, ParseError>)
        ensures
            ({
                let ingested = old(self)@.ingest(Seq::empty(), lines.deep_view());
                &&& final(self)@ == ingested.context
                &&& match ingested.failure {
                    None => out matches Ok(symbols) && symbols.deep_view() == ingested.symbols,
                    Some(error) => out matches Err(e) && e@ == error,
                }
            }),
    {
        let mut symbols: Vec<Symbol> = Vec::new();
        assert(symbols.deep_view() =~= Seq::empty());
        assert(lines.deep_view().skip(0) =~= lines.deep_view());
        let mut i: usize = 0;
        while i < lines.len()
            invariant
                0 <= i <= lines.len(),
                old(self)@.ingest(Seq::empty(), lines.deep_view()) == self@.ingest(
                    symbols.deep_view(),
                    lines.deep_view().skip(i as int),
                ),
            decreases lines.len() - i,
        {
            let ghost rest = lines.deep_view().skip(i as int);
            assert(rest.first() == lines[i as int]@);
            assert(rest.drop_first() =~= lines.deep_view().skip(i + 1));
            match self.consume_line(lines[i].as_str(), &mut symbols) {
                Ok(()) => {},
                Err(error) => {
                    return Err(error);
                },
            }
            i = i + 1;
        }
        Ok(symbols)
    }

    /// A whole run: takes in `lines` and renders the symbols they define as a
    /// document. After a hard failure there is no document.
    pub fn run(&mut self, lines: &Vec<String>) -> (out: Result<String, ParseError>)
        ensures
            ({
                let ingested = old(self)@.ingest(Seq::empty(), lines.deep_view());
                &&& final(self)@ == ingested.context
                &&& match ingested.failure {
                    None => out matches Ok(text) && text@ == document(ingested.symbols),
                    Some(error) => out matches Err(e) && e@ == error,
                }
            }),
    {
        match self.ingest(lines) {
            Ok(symbols) => Ok(render_document(&symbols)),
            Err(error) => Err(error),
        }
    }

    /// The status that the process ends with.
    pub fn exit_code(&self) -> (code: i32)
        ensures
            code == self@.exit_code(),
    {
        if !self.options.relaxed && self.error_reported {
            1
        } else {
            0
        }
    }
}

} // verus!
