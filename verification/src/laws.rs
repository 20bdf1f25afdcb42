//! What holds of the library as a whole, stated over its models and proved.

use vstd::prelude::*;
use crate::classify::{classify, negated_prefix, not_set_phrase, option_prefix, Shape};
use crate::context::ContextView;
use crate::diagnostic::{ParseErrorKind, Severity};
use crate::document::{document, SymbolView};
use crate::infer::{infer, scan_quoted, Inferred, Quoted};
use crate::options::RunOptions;
use crate::text::{
    blank_or_comment, index_of, lemma_index_of, lemma_index_of_unique, split_once,
};
use crate::value::{escape, escape_char, needs_escape, ValueView};

verus! {

/// Escaping works character by character: the escaped form of a text is the
/// escaped form of its first character followed by that of the rest.
pub proof fn lemma_escape_unfolds_at_front(s: Seq<char>)
    requires
        s.len() > 0,
    ensures
        escape(s) == escape_char(s.first()) + escape(s.drop_first()),
    decreases s.len(),
{
    if s.len() == 1 {
        assert(s.drop_last() =~= Seq::<char>::empty());
        assert(s.drop_first() =~= Seq::<char>::empty());
        assert(escape(s.drop_last()) =~= Seq::<char>::empty());
        assert(escape(s) =~= escape_char(s.first()) + escape(s.drop_first()));
    } else {
        let init = s.drop_last();
        lemma_escape_unfolds_at_front(init);
        assert(init.drop_first() =~= s.drop_first().drop_last());
        assert(init.first() == s.first());
        assert(s.drop_first().last() == s.last());
        assert(escape(s) =~= escape_char(s.first()) + escape(s.drop_first()));
    }
}

/// Escaping and then scanning gives the text back: for every payload, the
/// escaped payload followed by a closing quote and any further text scans as
/// that payload, with that further text behind the quote.
pub proof fn lemma_escape_then_scan(payload: Seq<char>, rest: Seq<char>)
    ensures
        scan_quoted(escape(payload) + seq!['"'] + rest) == (Quoted::Closed { payload, rest }),
    decreases payload.len(),
{
    let text = escape(payload) + seq!['"'] + rest;
    if payload.len() == 0 {
        assert(payload =~= Seq::<char>::empty());
        assert(text[0] == '"');
        assert(text.skip(1) =~= rest);
    } else {
        let c = payload.first();
        let more = payload.drop_first();
        lemma_escape_unfolds_at_front(payload);
        lemma_escape_then_scan(more, rest);
        let behind = escape(more) + seq!['"'] + rest;
        assert(text =~= escape_char(c) + behind);
        assert(seq![c] + more =~= payload);
        if needs_escape(c) {
            assert(text[0] == '\\');
            assert(text[1] == c);
            assert(text.skip(2) =~= behind);
            assert(scan_quoted(text) == scan_quoted(behind).behind(seq![c]));
        } else {
            assert(text[0] == c);
            assert(text.skip(1) =~= behind);
            assert(scan_quoted(text) == scan_quoted(behind).behind(seq![c]));
        }
    }
}

/// Unescaping and then escaping again keeps the meaning: where a quoted text
/// scans as some payload, the escaped payload in its place scans as the same
/// payload with the same text behind it. The two texts need not be equal,
/// since the first may escape characters that need no escape.
pub proof fn lemma_unescape_then_escape(text: Seq<char>)
    requires
        scan_quoted(text) is Closed,
    ensures
        scan_quoted(
            escape(scan_quoted(text)->payload) + seq!['"'] + scan_quoted(text)->rest,
        ) == scan_quoted(text),
{
    lemma_escape_then_scan(scan_quoted(text)->payload, scan_quoted(text)->rest);
}

/// What a freeform literal holds between the word `freeform ` and its end
/// is read back by value inference as the string that was rendered, with
/// nothing behind it.
pub proof fn lemma_rendered_string_reads_back(payload: Seq<char>)
    ensures
        infer(seq!['"'] + escape(payload) + seq!['"']) == Ok::<Inferred, ParseErrorKind>(
            Inferred { value: ValueView::String(payload), tail: Seq::empty() },
        ),
{
    let text = seq!['"'] + escape(payload) + seq!['"'];
    lemma_escape_then_scan(payload, Seq::empty());
    assert(text.skip(1) =~= escape(payload) + seq!['"'] + Seq::<char>::empty());
}

/// The parts of `whole` around the `c` that stands between `before` and
/// `behind` are `before` and `behind`, where `before` holds no `c`.
proof fn lemma_split_once_of_joined(before: Seq<char>, c: char, behind: Seq<char>)
    requires
        !before.contains(c),
    ensures
        split_once(before + seq![c] + behind, c) == Some((before, behind)),
{
    let whole = before + seq![c] + behind;
    assert forall|j: int| 0 <= j < before.len() implies #[trigger] whole[j] != c by {
        assert(before.contains(whole[j]));
    }
    assert(whole[before.len() as int] == c);
    lemma_index_of_unique(whole, c, before.len() as int);
    assert(whole.take(before.len() as int) =~= before);
    assert(whole.skip(before.len() as int + 1) =~= behind);
}

/// Every line that is classified as an assignment is the option prefix, a
/// name without `=`, a `=` and the value text, in this order.
pub proof fn lemma_assignment_is_well_formed(line: Seq<char>, not_set_as_no: bool)
    requires
        classify(line, not_set_as_no) is Assignment,
    ensures
        classify(line, not_set_as_no) matches Shape::Assignment { name, text } && line
            == option_prefix() + name + seq!['='] + text && !name.contains('='),
{
    let prefix = option_prefix();
    let rest = line.skip(prefix.len() as int);
    let at = index_of(rest, '=');
    lemma_index_of(rest, '=');
    let name = rest.take(at);
    let text = rest.skip(at + 1);
    assert(line =~= prefix + name + seq!['='] + text);
    assert(!name.contains('=')) by {
        if name.contains('=') {
            let j = choose|j: int| 0 <= j < name.len() && name[j] == '=';
            assert(rest[j] == '=');
        }
    }
}

/// Every line made of the option prefix, a name without `=`, a `=` and a
/// value text is classified as the assignment of that text to that name,
/// whether markers are read or not.
pub proof fn lemma_assignment_is_recognized(
    name: Seq<char>,
    text: Seq<char>,
    not_set_as_no: bool,
)
    requires
        !name.contains('='),
    ensures
        classify(option_prefix() + name + seq!['='] + text, not_set_as_no) == (Shape::Assignment {
            name,
            text,
        }),
{
    reveal_strlit("CONFIG_");
    reveal_strlit("# CONFIG_");
    let prefix = option_prefix();
    let line = prefix + name + seq!['='] + text;
    assert(line[0] == 'C');
    assert(negated_prefix()[0] == '#');
    assert(!negated_prefix().is_prefix_of(line)) by {
        if negated_prefix().is_prefix_of(line) {
            assert(line.subrange(0, negated_prefix().len() as int)[0] == line[0]);
        }
    }
    assert(prefix.is_prefix_of(line)) by {
        assert(line.subrange(0, prefix.len() as int) =~= prefix);
    }
    assert(line.skip(prefix.len() as int) =~= name + seq!['='] + text);
    lemma_split_once_of_joined(name, '=', text);
}

/// Every line that is classified as a marker is the negated prefix, a name
/// without a space, one space, the phrase and the tail, in this order; and
/// markers are found only where they are asked for.
pub proof fn lemma_marker_is_well_formed(line: Seq<char>, not_set_as_no: bool)
    requires
        classify(line, not_set_as_no) is Marker,
    ensures
        not_set_as_no,
        classify(line, not_set_as_no) matches Shape::Marker { name, tail } && line
            == negated_prefix() + name + seq![' '] + not_set_phrase() + tail && !name.contains(
            ' ',
        ),
{
    let prefix = negated_prefix();
    let rest = line.skip(prefix.len() as int);
    let at = index_of(rest, ' ');
    lemma_index_of(rest, ' ');
    let name = rest.take(at);
    let behind = rest.skip(at + 1);
    let tail = behind.skip(not_set_phrase().len() as int);
    assert(behind =~= not_set_phrase() + tail);
    assert(line =~= prefix + name + seq![' '] + not_set_phrase() + tail);
    assert(!name.contains(' ')) by {
        if name.contains(' ') {
            let j = choose|j: int| 0 <= j < name.len() && name[j] == ' ';
            assert(rest[j] == ' ');
        }
    }
}

/// Where markers are read, every line made of the negated prefix, a name
/// without a space, one space, the phrase and a tail is classified as the
/// marker of that name with that tail; where they are not, it is no
/// construct at all.
pub proof fn lemma_marker_is_recognized(name: Seq<char>, tail: Seq<char>)
    requires
        !name.contains(' '),
    ensures
        classify(negated_prefix() + name + seq![' '] + not_set_phrase() + tail, true) == (
        Shape::Marker { name, tail }),
        classify(negated_prefix() + name + seq![' '] + not_set_phrase() + tail, false)
            is Other,
{
    reveal_strlit("CONFIG_");
    reveal_strlit("# CONFIG_");
    let prefix = negated_prefix();
    let phrase = not_set_phrase();
    let line = prefix + name + seq![' '] + phrase + tail;
    assert(prefix.is_prefix_of(line)) by {
        assert(line.subrange(0, prefix.len() as int) =~= prefix);
    }
    assert(line.skip(prefix.len() as int) =~= name + seq![' '] + (phrase + tail));
    lemma_split_once_of_joined(name, ' ', phrase + tail);
    assert(phrase.is_prefix_of(phrase + tail)) by {
        assert((phrase + tail).subrange(0, phrase.len() as int) =~= phrase);
    }
    assert((phrase + tail).skip(phrase.len() as int) =~= tail);
    assert(line[0] == '#');
    assert(option_prefix()[0] == 'C');
    assert(!option_prefix().is_prefix_of(line)) by {
        if option_prefix().is_prefix_of(line) {
            assert(line.subrange(0, option_prefix().len() as int)[0] == line[0]);
        }
    }
}

/// The symbols that a run collects, and whether and how it fails, depend on
/// the lines and on how markers are read, and on nothing else: not on the
/// mode, not on the flag, not on the diagnostics recorded before.
pub proof fn lemma_symbols_ignore_diagnostic_state(
    first: ContextView,
    second: ContextView,
    symbols: Seq<SymbolView>,
    lines: Seq<Seq<char>>,
)
    requires
        first.options.not_set_as_no == second.options.not_set_as_no,
    ensures
        first.ingest(symbols, lines).symbols == second.ingest(symbols, lines).symbols,
        first.ingest(symbols, lines).failure == second.ingest(symbols, lines).failure,
    decreases lines.len(),
{
    if lines.len() > 0 {
        match first.consume_line(lines.first()) {
            Ok(step) => {
                let other = second.consume_line(lines.first())->Ok_0;
                let next = match step.symbol {
                    Some(symbol) => symbols.push(symbol),
                    None => symbols,
                };
                lemma_symbols_ignore_diagnostic_state(
                    step.context,
                    other.context,
                    next,
                    lines.drop_first(),
                );
            },
            Err(_) => {},
        }
    }
}

/// The document does not depend on the mode: a strict run and a relaxed run
/// over the same lines yield the same document, or fail in the same way.
pub proof fn lemma_document_ignores_mode(
    not_set_as_no: bool,
    lines: Seq<Seq<char>>,
)
    ensures
        ({
            let strict = ContextView::fresh(RunOptions { not_set_as_no, relaxed: false }).ingest(
                Seq::empty(),
                lines,
            );
            let relaxed = ContextView::fresh(RunOptions { not_set_as_no, relaxed: true }).ingest(
                Seq::empty(),
                lines,
            );
            &&& strict.failure == relaxed.failure
            &&& document(strict.symbols) == document(relaxed.symbols)
        }),
{
    lemma_symbols_ignore_diagnostic_state(
        ContextView::fresh(RunOptions { not_set_as_no, relaxed: false }),
        ContextView::fresh(RunOptions { not_set_as_no, relaxed: true }),
        Seq::empty(),
        lines,
    );
}

/// A run over `before + after` is the run over `after`, started from what
/// the run over `before` left, where that run did not fail.
pub proof fn lemma_ingest_in_two_parts(
    context: ContextView,
    symbols: Seq<SymbolView>,
    before: Seq<Seq<char>>,
    after: Seq<Seq<char>>,
)
    ensures
        ({
            let part = context.ingest(symbols, before);
            context.ingest(symbols, before + after) == if part.failure is None {
                part.context.ingest(part.symbols, after)
            } else {
                part
            }
        }),
    decreases before.len(),
{
    if before.len() == 0 {
        assert(before + after =~= after);
    } else {
        let all = before + after;
        assert(all.first() == before.first());
        assert(all.drop_first() =~= before.drop_first() + after);
        match context.consume_line(before.first()) {
            Ok(step) => {
                let next = match step.symbol {
                    Some(symbol) => symbols.push(symbol),
                    None => symbols,
                };
                lemma_ingest_in_two_parts(step.context, next, before.drop_first(), after);
            },
            Err(_) => {},
        }
    }
}

/// A line that is no construct takes nothing from the symbol table and adds
/// nothing to it: the run over the lines with such a line among them
/// collects the symbols of the run without it, before and after it, and
/// fails where that run fails.
pub proof fn lemma_unhandled_line_keeps_symbols(
    context: ContextView,
    before: Seq<Seq<char>>,
    line: Seq<char>,
    after: Seq<Seq<char>>,
)
    requires
        classify(line, context.options.not_set_as_no) is Other,
    ensures
        context.ingest(Seq::empty(), before + seq![line] + after).symbols == context.ingest(
            Seq::empty(),
            before + after,
        ).symbols,
        context.ingest(Seq::empty(), before + seq![line] + after).failure == context.ingest(
            Seq::empty(),
            before + after,
        ).failure,
{
    let part = context.ingest(Seq::empty(), before);
    lemma_ingest_in_two_parts(context, Seq::empty(), before, after);
    lemma_ingest_in_two_parts(context, Seq::empty(), before, seq![line] + after);
    assert(before + seq![line] + after =~= before + (seq![line] + after));
    lemma_ingest_keeps_options(context, Seq::empty(), before);
    if part.failure is None {
        let tail = seq![line] + after;
        assert(tail.first() == line);
        assert(tail.drop_first() =~= after);
        let step = part.context.consume_line(line)->Ok_0;
        lemma_symbols_ignore_diagnostic_state(step.context, part.context, part.symbols, after);
    }
}

/// A run never changes its options.
pub proof fn lemma_ingest_keeps_options(
    context: ContextView,
    symbols: Seq<SymbolView>,
    lines: Seq<Seq<char>>,
)
    ensures
        context.ingest(symbols, lines).context.options == context.options,
    decreases lines.len(),
{
    if lines.len() > 0 {
        match context.consume_line(lines.first()) {
            Ok(step) => {
                let next = match step.symbol {
                    Some(symbol) => symbols.push(symbol),
                    None => symbols,
                };
                lemma_ingest_keeps_options(step.context, next, lines.drop_first());
            },
            Err(_) => {},
        }
    }
}

/// In strict mode a non-blank line that is no construct and no comment sets
/// the flag for the rest of the run, so that a run that takes it in and
/// does not fail ends with status 1.
pub proof fn lemma_strict_run_fails_on_ill_formed_line(
    context: ContextView,
    before: Seq<Seq<char>>,
    line: Seq<char>,
    after: Seq<Seq<char>>,
)
    requires
        !context.options.relaxed,
        classify(line, context.options.not_set_as_no) is Other,
        !blank_or_comment(line),
        context.ingest(Seq::empty(), before + seq![line] + after).failure is None,
    ensures
        context.ingest(Seq::empty(), before + seq![line] + after).context.error_reported,
        context.ingest(Seq::empty(), before + seq![line] + after).context.exit_code() == 1,
{
    let part = context.ingest(Seq::empty(), before);
    assert(before + seq![line] + after =~= before + (seq![line] + after));
    lemma_ingest_in_two_parts(context, Seq::empty(), before, seq![line] + after);
    lemma_ingest_keeps_options(context, Seq::empty(), before);
    let tail = seq![line] + after;
    assert(tail.first() == line);
    assert(tail.drop_first() =~= after);
    let step = part.context.consume_line(line)->Ok_0;
    assert(step.context.error_reported);
    lemma_ingest_only_adds(step.context, part.symbols, after);
    lemma_ingest_keeps_options(step.context, part.symbols, after);
}

/// A run only adds: the symbols and the diagnostics it started from stay
/// where they were, in their order, in front of what the run adds, and a
/// flag that was set stays set.
pub proof fn lemma_ingest_only_adds(
    context: ContextView,
    symbols: Seq<SymbolView>,
    lines: Seq<Seq<char>>,
)
    ensures
        symbols.is_prefix_of(context.ingest(symbols, lines).symbols),
        context.diagnostics.is_prefix_of(context.ingest(symbols, lines).context.diagnostics),
        context.error_reported ==> context.ingest(symbols, lines).context.error_reported,
    decreases lines.len(),
{
    if lines.len() > 0 {
        match context.consume_line(lines.first()) {
            Ok(step) => {
                let next = match step.symbol {
                    Some(symbol) => symbols.push(symbol),
                    None => symbols,
                };
                lemma_ingest_only_adds(step.context, next, lines.drop_first());
            },
            Err(_) => {},
        }
    }
}

/// The flag tells whether an error was recorded: where a run starts with
/// the flag in step with its diagnostics, it ends so. In relaxed mode
/// every diagnostic that a run records is a warning, and the flag is left
/// as it was.
pub proof fn lemma_flag_follows_diagnostics(
    context: ContextView,
    symbols: Seq<SymbolView>,
    lines: Seq<Seq<char>>,
)
    requires
        context.error_reported <==> exists|i: int|
            0 <= i < context.diagnostics.len() && (#[trigger] context.diagnostics[i]).severity
                == Severity::Error,
    ensures
        ({
            let end = context.ingest(symbols, lines).context;
            end.error_reported <==> exists|i: int|
                0 <= i < end.diagnostics.len() && (#[trigger] end.diagnostics[i]).severity
                    == Severity::Error
        }),
        context.options.relaxed ==> context.ingest(symbols, lines).context.error_reported
            == context.error_reported,
    decreases lines.len(),
{
    if lines.len() > 0 {
        match context.consume_line(lines.first()) {
            Ok(step) => {
                let next = match step.symbol {
                    Some(symbol) => symbols.push(symbol),
                    None => symbols,
                };
                let now = step.context;
                assert(now.error_reported <==> exists|i: int|
                    0 <= i < now.diagnostics.len() && (#[trigger] now.diagnostics[i]).severity
                        == Severity::Error) by {
                    if now.diagnostics.len() > context.diagnostics.len() {
                        let last = now.diagnostics.len() - 1;
                        assert(now.diagnostics.drop_last() =~= context.diagnostics);
                        if context.error_reported {
                            let i = choose|i: int|
                                0 <= i < context.diagnostics.len() && (
                                #[trigger] context.diagnostics[i]).severity == Severity::Error;
                            assert(now.diagnostics[i].severity == Severity::Error);
                        }
                        if !context.options.relaxed {
                            assert(now.diagnostics[last].severity == Severity::Error);
                        }
                        if !now.error_reported {
                            assert forall|i: int| 0 <= i < now.diagnostics.len() implies (
                            #[trigger] now.diagnostics[i]).severity != Severity::Error by {
                                if i < last {
                                    assert(now.diagnostics[i] == context.diagnostics[i]);
                                }
                            }
                        }
                    }
                }
                lemma_flag_follows_diagnostics(now, next, lines.drop_first());
            },
            Err(_) => {},
        }
    }
}

} // verus!
