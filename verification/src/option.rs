//! The option contract and its description.

use crate::date::CalendarDate;
use vstd::prelude::*;
use vstd::string::*;

verus! {

/// Which right the contract gives: to buy (call) or to sell (put).
#[derive(Debug, PartialEq, Eq, Structural, Clone, Copy)]
pub enum OptionType {
    Call,
    Put,
}

/// The word that a description shows for the kind of a contract.
pub open spec fn kind_text(kind: OptionType) -> Seq<char> {
    match kind {
        OptionType::Call => seq!['C', 'a', 'l', 'l'],
        OptionType::Put => seq!['P', 'u', 't'],
    }
}

/// An option contract. It is a plain value: every field is taken as given,
/// and nothing is checked or changed.
#[derive(Debug)]
pub struct Option {
    /// The underlying instrument.
    pub symbol: String,
    /// Call or put.
    pub kind: OptionType,
    /// The strike price, as the text in which it is shown.
    pub strike: String,
    /// The last day on which the contract can be exercised.
    pub expiration: CalendarDate,
    /// How many units of the underlying one contract stands for.
    pub size: u32,
}

impl Option {
    /// The description of the contract: symbol, kind, a dollar sign with the
    /// strike, and the expiration as `YYYY-MM-DD`, with one space between
    /// them. The size is not part of it.
    pub open spec fn description_text(&self) -> Seq<char> {
        self.symbol@ + seq![' '] + kind_text(self.kind) + seq![' ', '$'] + self.strike@ + seq![' ']
            + self.expiration.iso_text()
    }

    /// Makes a contract of the five values, each kept as it is given.
    pub fn new(
        symbol: String,
        kind: OptionType,
        strike: String,
        expiration: CalendarDate,
        size: u32,
    ) -> (made: Self)
        ensures
            made.symbol == symbol,
            made.kind == kind,
            made.strike == strike,
            made.expiration == expiration,
            made.size == size,
    {
        Option { symbol, kind, strike, expiration, size }
    }

    /// The description of the contract, such as `AAPL Call $150 2024-01-19`.
    pub fn description(&self) -> (text: String)
        ensures
            text@ == self.description_text(),
    {
        let word = match self.kind {
            OptionType::Call => "Call",
            OptionType::Put => "Put",
        };
        let date = self.expiration.to_iso_string();
        let mut text = self.symbol.clone();
        text.append(" ");
        text.append(word);
        text.append(" $");
        text.append(self.strike.as_str());
        text.append(" ");
        text.append(date.as_str());
        proof {
            reveal_strlit(" ");
            reveal_strlit(" $");
            reveal_strlit("Call");
            reveal_strlit("Put");
            assert(" "@ =~= seq![' ']);
            assert(" $"@ =~= seq![' ', '$']);
            assert(word@ =~= kind_text(self.kind));
        }
        text
    }
}

/// The description is a function of the symbol, the kind, the strike and the
/// expiration alone: contracts that agree in these four have the same
/// description. In particular one contract has one description, however
/// often it is asked for.
pub proof fn lemma_description_deterministic(a: Option, b: Option)
    requires
        a.symbol@ == b.symbol@,
        a.kind == b.kind,
        a.strike@ == b.strike@,
        a.expiration == b.expiration,
    ensures
        a.description_text() == b.description_text(),
{
}

/// Behind the symbol and one space the description of a call shows the word
/// `Call`, and that of any other contract the word `Put`.
pub proof fn lemma_description_shows_kind(contract: Option)
    ensures
        ({
            let start = contract.symbol@.len() as int + 1;
            let text = contract.description_text();
            &&& contract.kind == OptionType::Call ==> text.subrange(start, start + 4) == seq![
                'C',
                'a',
                'l',
                'l',
            ]
            &&& contract.kind != OptionType::Call ==> text.subrange(start, start + 3) == seq![
                'P',
                'u',
                't',
            ]
        }),
{
    let start = contract.symbol@.len() as int + 1;
    let text = contract.description_text();
    if contract.kind == OptionType::Call {
        assert(text.subrange(start, start + 4) =~= seq!['C', 'a', 'l', 'l']);
    } else {
        assert(text.subrange(start, start + 3) =~= seq!['P', 'u', 't']);
    }
}

} // verus!
