//! Resolving a symbol to the asset it trades as.
//!
//! The exchange lists tokens, each with a name and an index, and trading
//! pairs, each with a name and the index of its base token. A symbol names a
//! token; the asset is the pair that trades it. The listing is fetched
//! elsewhere; the lookup is here.

use crate::error::AlertError;
use crate::model::{first_match, lemma_first_match_skip};
use vstd::prelude::*;

verus! {

/// A listed token.
#[derive(Debug)]
pub struct TokenInfo {
    /// The symbol users write.
    pub name: String,
    /// The index by which pairs refer to the token.
    pub index: u64,
}

/// A listed trading pair.
#[derive(Debug)]
pub struct SpotPair {
    /// The identifier under which the pair is quoted.
    pub name: String,
    /// The index of the token that the pair trades.
    pub base_token: u64,
}

/// What the exchange lists.
#[derive(Debug)]
pub struct AssetCatalog {
    pub tokens: Vec<TokenInfo>,
    pub pairs: Vec<SpotPair>,
}

/// The view of a listed token.
pub struct TokenView {
    pub name: Seq<char>,
    pub index: u64,
}

/// The view of a listed pair.
pub struct PairView {
    pub name: Seq<char>,
    pub base_token: u64,
}

/// The view of a catalog.
pub struct CatalogView {
    pub tokens: Seq<TokenView>,
    pub pairs: Seq<PairView>,
}

impl View for TokenInfo {
    type V = TokenView;

    open spec fn view(&self) -> TokenView {
        TokenView { name: self.name@, index: self.index }
    }
}

impl View for SpotPair {
    type V = PairView;

    open spec fn view(&self) -> PairView {
        PairView { name: self.name@, base_token: self.base_token }
    }
}

impl View for AssetCatalog {
    type V = CatalogView;

    open spec fn view(&self) -> CatalogView {
        CatalogView {
            tokens: self.tokens@.map_values(|t: TokenInfo| t@),
            pairs: self.pairs@.map_values(|p: SpotPair| p@),
        }
    }
}

/// The asset that `coin` resolves to: the name of the first pair whose base
/// token is the first token named `coin`.
pub open spec fn resolve(catalog: CatalogView, coin: Seq<char>) -> Option<Seq<char>> {
    match first_match(catalog.tokens, |t: TokenView| t.name == coin) {
        Some(token) => match first_match(
            catalog.pairs,
            |p: PairView| p.base_token == token.index,
        ) {
            Some(pair) => Some(pair.name),
            None => None,
        },
        None => None,
    }
}

impl AssetCatalog {
    /// The index of the first token named `coin`.
    fn token_index(&self, coin: &String) -> (r: Option<u64>)
        ensures
            match first_match(self@.tokens, |t: TokenView| t.name == coin@) {
                Some(token) => r == Some(token.index),
                None => r is None,
            },
    {
        let ghost tokens = self@.tokens;
        let ghost named = |t: TokenView| t.name == coin@;
        let mut i: usize = 0;
        while i < self.tokens.len()
            invariant
                i <= self.tokens@.len(),
                tokens == self@.tokens,
                tokens.len() == self.tokens@.len(),
                named == |t: TokenView| t.name == coin@,
                forall|k: int| 0 <= k < i ==> !named(#[trigger] tokens[k]),
            decreases self.tokens@.len() - i,
        {
            proof {
                lemma_first_match_skip(tokens, named, i as int);
            }
            if self.tokens[i].name == *coin {
                return Some(self.tokens[i].index);
            }
            i += 1;
        }
        proof {
            lemma_first_match_skip(tokens, named, i as int);
        }
        None
    }

    /// A copy of the name of the first pair whose base token is `base`.
    fn pair_name(&self, base: u64) -> (r: Option<String>)
        ensures
            match first_match(self@.pairs, |p: PairView| p.base_token == base) {
                Some(pair) => r matches Some(name) && name@ == pair.name,
                None => r is None,
            },
    {
        let ghost pairs = self@.pairs;
        let ghost trades = |p: PairView| p.base_token == base;
        let mut i: usize = 0;
        while i < self.pairs.len()
            invariant
                i <= self.pairs@.len(),
                pairs == self@.pairs,
                pairs.len() == self.pairs@.len(),
                trades == |p: PairView| p.base_token == base,
                forall|k: int| 0 <= k < i ==> !trades(#[trigger] pairs[k]),
            decreases self.pairs@.len() - i,
        {
            proof {
                lemma_first_match_skip(pairs, trades, i as int);
            }
            if self.pairs[i].base_token == base {
                return Some(self.pairs[i].name.clone());
            }
            i += 1;
        }
        proof {
            lemma_first_match_skip(pairs, trades, i as int);
        }
        None
    }

    /// Resolves the symbol `coin` to the asset it trades as. Fails with
    /// `UnknownAsset` when no token has that name or no pair trades it.
    pub fn resolve_token(&self, coin: &str) -> (r: Result<String, AlertError>)
        ensures
            match resolve(self@, coin@) {
                Some(asset) => r matches Ok(token) && token@ == asset,
                None => r == Err::<String, AlertError>(AlertError::UnknownAsset),
            },
    {
        let symbol = coin.to_owned();
        match self.token_index(&symbol) {
            Some(index) => match self.pair_name(index) {
                Some(name) => Ok(name),
                None => Err(AlertError::UnknownAsset),
            },
            None => Err(AlertError::UnknownAsset),
        }
    }
}

} // verus!
