//! The symbol table and the document it is written out as.

use vstd::prelude::*;
use vstd::string::StringExecFns;
use crate::value::{Value, ValueView};

verus! {

/// The lines that open the document, without the line break that ends them.
pub const HEADING: &'static str =
    "{ lib }:\nlet\n  inherit (lib.kernel) yes no module freeform;\nin {";

/// The line that closes the document, without its line break.
pub const FOOTING: &'static str = "}";

/// What stands in front of every declaration.
pub const INDENT: &'static str = "  ";

/// An option and the value it was given.
#[derive(Debug, Clone, PartialEq, Eq)]
pub struct Symbol {
    /// The option's name, without the `CONFIG_` in front.
    pub name: String,
    pub value: Value,
}

/// The mathematical content of a [`Symbol`].
pub struct SymbolView {
    pub name: Seq<char>,
    pub value: ValueView,
}

impl View for Symbol {
    type V = SymbolView;

    open spec fn view(&self) -> SymbolView {
        SymbolView { name: self.name@, value: self.value@ }
    }
}

impl DeepView for Symbol {
    type V = SymbolView;

    open spec fn deep_view(&self) -> SymbolView {
        self@
    }
}

/// The line that declares one symbol: the indent, the name between double
/// quotes, ` = `, the rendered value, `;` and a line break.
pub open spec fn declaration(symbol: SymbolView) -> Seq<char> {
    INDENT@ + "\""@ + symbol.name + "\" = "@ + symbol.value.nix() + ";\n"@
}

/// The declarations of `symbols`, one line each, in the order of `symbols`.
pub open spec fn declarations(symbols: Seq<SymbolView>) -> Seq<char>
    decreases symbols.len(),
{
    if symbols.len() == 0 {
        Seq::empty()
    } else {
        declarations(symbols.drop_last()) + declaration(symbols.last())
    }
}

/// The whole document: the heading, the declarations, the footing.
pub open spec fn document(symbols: Seq<SymbolView>) -> Seq<char> {
    HEADING@ + "\n"@ + declarations(symbols) + FOOTING@ + "\n"@
}

/// Writes one symbol's declaration to the end of `out`.
pub fn write_declaration(out: &mut String, symbol: &Symbol)
    ensures
        final(out)@ == old(out)@ + declaration(symbol@),
{
    let rendered = symbol.value.to_nix();
    out.append(INDENT);
    out.append("\"");
    out.append(symbol.name.as_str());
    out.append("\" = ");
    out.append(rendered.as_str());
    out.append(";\n");
    assert(out@ =~= old(out)@ + declaration(symbol@));
}

/// Renders the symbol table as a document, one declaration per symbol and
/// in the table's order.
pub fn render_document(symbols: &Vec<Symbol>) -> (out: String)
    ensures
        out@ == document(symbols.deep_view()),
{
    let mut out = HEADING.to_owned();
    out.append("\n");
    let mut i: usize = 0;
    while i < symbols.len()
        invariant
            0 <= i <= symbols.len(),
            out@ == HEADING@ + "\n"@ + declarations(symbols.deep_view().take(i as int)),
        decreases symbols.len() - i,
    {
        write_declaration(&mut out, &symbols[i]);
        proof {
            let done = symbols.deep_view().take(i + 1);
            assert(done.drop_last() =~= symbols.deep_view().take(i as int));
            assert(done.last() == symbols[i as int]@);
            assert(out@ =~= HEADING@ + "\n"@ + declarations(done));
        }
        i = i + 1;
    }
    assert(symbols.deep_view().take(i as int) =~= symbols.deep_view());
    out.append(FOOTING);
    out.append("\n");
    assert(out@ =~= document(symbols.deep_view()));
    out
}

} // verus!
