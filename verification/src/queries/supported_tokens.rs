//! Listing the ledgers that the engine tracks.

use vstd::prelude::*;
use crate::model::token_data::TokenDataView;
use crate::State;

verus! {

#[derive(Clone, Copy, Debug, PartialEq, Eq)]
pub struct Args {}

#[derive(Clone, Debug, PartialEq, Eq)]
pub enum Response {
    Success(Vec<String>),
}

/// `symbols` are the symbols of `tokens`, in the same order.
pub open spec fn symbols_of(tokens: Seq<TokenDataView>, symbols: Seq<String>) -> bool {
    &&& symbols.len() == tokens.len()
    &&& forall|i: int| 0 <= i < tokens.len() ==> (#[trigger] symbols[i])@ == tokens[i].token_symbol
}

/// The symbols of the tracked ledgers, in the order in which they were added.
pub fn supported_tokens_impl(state: &State) -> (response: Response)
    ensures
        response matches Response::Success(symbols) && symbols_of(state.data@.tokens, symbols@),
{
    let mut symbols: Vec<String> = Vec::new();
    let mut i: usize = 0;
    while i < state.data.tokens.len()
        invariant
            i <= state.data.tokens.len(),
            symbols_of(state.data@.tokens.take(i as int), symbols@),
        decreases state.data.tokens.len() - i,
    {
        symbols.push(state.data.tokens[i].token_symbol().to_string());
        i += 1;
    }
    proof {
        assert(state.data@.tokens.take(i as int) =~= state.data@.tokens);
    }
    Response::Success(symbols)
}

} // verus!
