//! Symbolized call stacks as the collector caches them.

use crate::text::{decimal, push_char, push_decimal};
use itertools::Itertools;
use vstd::prelude::*;

verus! {

/// One frame of a symbolized stack.
#[derive(Debug, Clone)]
pub struct OwnedSymbol {
    pub address: u64,
    pub symbol: String,
}

/// The frames of one call stack, innermost first.
#[derive(Debug, Clone)]
pub struct ResolvedStackTrace {
    pub symbols: Vec<OwnedSymbol>,
}

/// What the symbolizer answers for one instruction address.
#[derive(Debug, Clone)]
pub enum SymbolizedFrame {
    /// The address lies in a known symbol.
    Sym { addr: u64, name: String },
    /// The address could not be attributed; `reason` says why.
    Unknown { reason: String },
}

impl SymbolizedFrame {
    /// The address that the cached frame shows: that of the symbol, or 0.
    pub open spec fn address(self) -> u64 {
        match self {
            SymbolizedFrame::Sym { addr, name } => addr,
            SymbolizedFrame::Unknown { reason } => 0,
        }
    }

    /// The text that the cached frame shows: the symbol's name, or the reason
    /// why there is none.
    pub open spec fn text(self) -> Seq<char> {
        match self {
            SymbolizedFrame::Sym { addr, name } => name@,
            SymbolizedFrame::Unknown { reason } => reason@,
        }
    }
}

/// The pieces joined into one text, with `sep` between neighbours.
pub open spec fn joined(pieces: Seq<Seq<char>>, sep: Seq<char>) -> Seq<char>
    decreases pieces.len(),
{
    if pieces.len() == 0 {
        Seq::empty()
    } else if pieces.len() == 1 {
        pieces[0]
    } else {
        joined(pieces.drop_last(), sep) + sep + pieces.last()
    }
}

/// Joins the symbol names of `symbols` with `sep` between neighbours. This
/// is `Itertools::join` on the names: it writes the first name, then for each
/// further name the separator and the name.
#[verifier::external_body]
fn join_names(symbols: &Vec<OwnedSymbol>, sep: &str) -> (text: String)
    ensures
        text@ == joined(Seq::new(symbols@.len(), |i: int| symbols@[i].symbol@), sep@),
{
    symbols.iter().map(|x| x.symbol.clone()).join(sep)
}

impl ResolvedStackTrace {
    /// The symbol names, innermost first.
    pub open spec fn names(self) -> Seq<Seq<char>> {
        Seq::new(self.symbols@.len(), |i: int| self.symbols@[i].symbol@)
    }

    /// The addresses, innermost first.
    pub open spec fn addresses(self) -> Seq<u64> {
        Seq::new(self.symbols@.len(), |i: int| self.symbols@[i].address)
    }

    /// The folded-stack line of this stack with the given weight.
    pub open spec fn folded(self, weight: u64) -> Seq<char> {
        joined(self.names(), seq![';']) + seq![' '] + decimal(weight as nat)
    }

    /// The stack as one folded line: the names separated by `;`, a space and
    /// the weight.
    pub fn as_inferno(&self, calculation: u64) -> (line: String)
        ensures
            line@ == self.folded(calculation),
    {
        proof {
            reveal_strlit(";");
        }
        assert(";"@ =~= seq![';']);
        let mut symbols: String = join_names(&self.symbols, ";");
        push_char(&mut symbols, ' ');
        push_decimal(&mut symbols, calculation as u128);
        assert(symbols@ =~= self.folded(calculation));
        symbols
    }

    /// The stack that the collector caches for what the symbolizer answered,
    /// frame by frame: a known symbol keeps its address and name, an unknown
    /// one gets the address 0 and the reason as its text.
    pub fn from_symbolized(frames: &Vec<SymbolizedFrame>) -> (trace: ResolvedStackTrace)
        ensures
            trace.symbols@.len() == frames@.len(),
            forall|i: int|
                0 <= i < frames@.len() ==> trace.symbols@[i].address == frames@[i].address()
                    && trace.symbols@[i].symbol@ == frames@[i].text(),
    {
        let mut symbols: Vec<OwnedSymbol> = Vec::new();
        let mut i: usize = 0;
        while i < frames.len()
            invariant
                i <= frames@.len(),
                symbols@.len() == i,
                forall|j: int|
                    0 <= j < i ==> symbols@[j].address == frames@[j].address()
                        && symbols@[j].symbol@ == frames@[j].text(),
            decreases frames@.len() - i,
        {
            let symbol = match &frames[i] {
                SymbolizedFrame::Sym { addr, name } => OwnedSymbol {
                    address: *addr,
                    symbol: name.clone(),
                },
                SymbolizedFrame::Unknown { reason } => OwnedSymbol {
                    address: 0,
                    symbol: reason.clone(),
                },
            };
            symbols.push(symbol);
            i = i + 1;
        }
        ResolvedStackTrace { symbols }
    }
}

} // verus!
