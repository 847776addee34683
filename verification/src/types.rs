//! The data model: token holdings, wallet snapshots, and proof records,
//! together with their mathematical views.

use vstd::prelude::*;

verus! {

/// Holdings of one token inside a wallet. The balance is kept as text;
/// no arithmetic is ever performed on it.
pub struct TokenInfo {
    pub symbol: String,
    pub balance: String,
}

/// Mathematical view of a `TokenInfo`: both fields as character sequences.
pub ghost struct TokenInfoView {
    pub symbol: Seq<char>,
    pub balance: Seq<char>,
}

impl View for TokenInfo {
    type V = TokenInfoView;

    open spec fn view(&self) -> TokenInfoView {
        TokenInfoView { symbol: self.symbol@, balance: self.balance@ }
    }
}

impl Clone for TokenInfo {
    fn clone(&self) -> (r: TokenInfo)
        ensures
            r == *self,
    {
        TokenInfo { symbol: self.symbol.clone(), balance: self.balance.clone() }
    }
}

/// A wallet snapshot: the address it is keyed by, an overall balance, and
/// an ordered sequence of token holdings.
pub struct WalletInfo {
    pub address: String,
    pub balance: String,
    pub tokens: Vec<TokenInfo>,
}

/// Mathematical view of a `WalletInfo`.
pub ghost struct WalletInfoView {
    pub address: Seq<char>,
    pub balance: Seq<char>,
    pub tokens: Seq<TokenInfoView>,
}

impl View for WalletInfo {
    type V = WalletInfoView;

    open spec fn view(&self) -> WalletInfoView {
        WalletInfoView {
            address: self.address@,
            balance: self.balance@,
            tokens: self.tokens@.map_values(|t: TokenInfo| t@),
        }
    }
}

impl Clone for WalletInfo {
    fn clone(&self) -> (r: WalletInfo)
        ensures
            r@ == self@,
    {
        let tokens = self.tokens.clone();
        proof {
            assert forall|i: int| 0 <= i < tokens@.len() implies tokens@[i] == self.tokens@[i] by {
                assert(cloned::<TokenInfo>(self.tokens@[i], tokens@[i]));
            }
            assert(tokens@ =~= self.tokens@);
            assert(tokens@.map_values(|t: TokenInfo| t@) == self.tokens@.map_values(
                |t: TokenInfo| t@,
            ));
        }
        WalletInfo {
            address: self.address.clone(),
            balance: self.balance.clone(),
            tokens,
        }
    }
}

/// A stub proof record: the proof bytes (always 32 zero bytes), the two
/// public inputs it was requested with, and the reference derived as the
/// hex encoding of the proof bytes.
pub struct ZKProof {
    pub proof: Vec<u8>,
    pub public_inputs: Vec<String>,
    pub reference: String,
}

/// Mathematical view of a `ZKProof`.
pub ghost struct ZKProofView {
    pub proof: Seq<u8>,
    pub public_inputs: Seq<Seq<char>>,
    pub reference: Seq<char>,
}

impl View for ZKProof {
    type V = ZKProofView;

    open spec fn view(&self) -> ZKProofView {
        ZKProofView {
            proof: self.proof@,
            public_inputs: self.public_inputs@.map_values(|s: String| s@),
            reference: self.reference@,
        }
    }
}

impl Clone for ZKProof {
    fn clone(&self) -> (r: ZKProof)
        ensures
            r@ == self@,
    {
        let proof = self.proof.clone();
        let public_inputs = self.public_inputs.clone();
        proof {
            assert forall|i: int| 0 <= i < proof@.len() implies proof@[i] == self.proof@[i] by {
                assert(cloned::<u8>(self.proof@[i], proof@[i]));
            }
            assert(proof@ =~= self.proof@);
            assert forall|i: int|
                0 <= i < public_inputs@.len() implies public_inputs@[i]
                == self.public_inputs@[i] by {
                assert(cloned::<String>(self.public_inputs@[i], public_inputs@[i]));
            }
            assert(public_inputs@ =~= self.public_inputs@);
            assert(public_inputs@.map_values(|s: String| s@) == self.public_inputs@.map_values(
                |s: String| s@,
            ));
        }
        ZKProof {
            proof,
            public_inputs,
            reference: self.reference.clone(),
        }
    }
}

} // verus!
