//! The state container and its three operations: wallet lookup, stub proof
//! generation, and proof verification.

use crate::encoding::{encode_hex, zero_bytes, zero_reference};
use crate::store::{
    find_key, keys_distinct, lemma_map_of_entries_contains, lemma_map_of_entries_index,
    lemma_map_of_entries_push, lemma_map_of_entries_update, map_of_entries,
};
use crate::types::{TokenInfo, TokenInfoView, WalletInfo, WalletInfoView, ZKProof, ZKProofView};
use vstd::prelude::*;

verus! {

/// Which wallet snapshot `get_wallet_info` synthesizes for an address the
/// store does not hold. The policy is a configuration choice, fixed when
/// the backend is constructed.
#[derive(Clone, Copy, PartialEq, Eq, Structural, Debug)]
pub enum DefaultPolicy {
    /// Synthesize a wallet with balance `"0"` and no tokens.
    EmptyWallet,
    /// Synthesize a wallet with balance `"1000"` and four fixed sample
    /// token holdings.
    SamplePortfolio,
}

/// The wallet snapshot synthesized for an absent address under a policy.
pub open spec fn default_wallet(policy: DefaultPolicy, address: Seq<char>) -> WalletInfoView {
    match policy {
        DefaultPolicy::EmptyWallet => (WalletInfoView {
            address: address,
            balance: "0"@,
            tokens: Seq::empty(),
        }),
        DefaultPolicy::SamplePortfolio => (WalletInfoView {
            address: address,
            balance: "1000"@,
            tokens: seq![
                TokenInfoView { symbol: "ICP"@, balance: "100"@ },
                TokenInfoView { symbol: "GHOST"@, balance: "500"@ },
                TokenInfoView { symbol: "BTC"@, balance: "0.05"@ },
                TokenInfoView { symbol: "ETH"@, balance: "2.5"@ },
            ],
        }),
    }
}

/// What wallet lookup returns: the stored snapshot when the address is
/// present, else the default under the policy.
pub open spec fn spec_wallet_lookup(
    wallets: Map<Seq<char>, WalletInfoView>,
    policy: DefaultPolicy,
    address: Seq<char>,
) -> WalletInfoView {
    if wallets.contains_key(address) {
        wallets[address]
    } else {
        default_wallet(policy, address)
    }
}

/// The process-local state: the wallet store, the proof store, and the
/// chosen default-wallet policy. Both stores start empty.
pub struct Backend {
    policy: DefaultPolicy,
    wallets: Vec<(String, WalletInfo)>,
    proofs: Vec<(String, ZKProof)>,
}

impl Backend {
    spec fn wallet_entries(self) -> Seq<(Seq<char>, WalletInfoView)> {
        self.wallets@.map_values(|p: (String, WalletInfo)| (p.0@, p.1@))
    }

    spec fn proof_entries(self) -> Seq<(Seq<char>, ZKProofView)> {
        self.proofs@.map_values(|p: (String, ZKProof)| (p.0@, p.1@))
    }

    /// The wallet store, as a map from address to snapshot.
    pub closed spec fn wallet_map(self) -> Map<Seq<char>, WalletInfoView> {
        map_of_entries(self.wallet_entries())
    }

    /// The proof store, as a map from reference to proof record.
    pub closed spec fn proof_map(self) -> Map<Seq<char>, ZKProofView> {
        map_of_entries(self.proof_entries())
    }

    /// The default-wallet policy the backend was constructed with.
    pub closed spec fn policy(self) -> DefaultPolicy {
        self.policy
    }

    /// Well-formed: within each store, entries hold distinct keys.
    pub closed spec fn wf(self) -> bool {
        keys_distinct(self.wallet_entries()) && keys_distinct(self.proof_entries())
    }

    /// A fresh backend under the given policy: both stores empty.
    pub fn new(policy: DefaultPolicy) -> (r: Backend)
        ensures
            r.wf(),
            r.policy() == policy,
            r.wallet_map() == Map::<Seq<char>, WalletInfoView>::empty(),
            r.proof_map() == Map::<Seq<char>, ZKProofView>::empty(),
    {
        let r = Backend { policy, wallets: Vec::new(), proofs: Vec::new() };
        proof {
            assert(r.wallet_entries() =~= Seq::<(Seq<char>, WalletInfoView)>::empty());
            assert(r.proof_entries() =~= Seq::<(Seq<char>, ZKProofView)>::empty());
        }
        r
    }

    /// Wallet lookup: returns the stored snapshot for the address, or the
    /// policy's default when the address was never written. Read-only and
    /// total.
    pub fn get_wallet_info(&self, address: String) -> (r: WalletInfo)
        requires
            self.wf(),
        ensures
            r@ == spec_wallet_lookup(self.wallet_map(), self.policy(), address@),
    {
        proof {
            lemma_map_of_entries_contains(self.wallet_entries(), address@);
        }
        match find_key(&self.wallets, &address) {
            Some(i) => {
                proof {
                    assert(self.wallet_entries()[i as int].0 == address@);
                    lemma_map_of_entries_index(self.wallet_entries(), i as int);
                }
                self.wallets[i].1.clone()
            },
            None => {
                proof {
                    assert forall|j: int|
                        0 <= j < self.wallet_entries().len() implies (
                        #[trigger] self.wallet_entries()[j]).0 != address@ by {
                        assert(self.wallet_entries()[j].0 == self.wallets@[j].0@);
                    }
                }
                synthesize_default(self.policy, address)
            },
        }
    }

    /// Stub proof generation: builds the fixed 32-byte zero proof, derives
    /// its reference as the hex encoding of those bytes, records the two
    /// inputs as public inputs, stores the record keyed by its reference
    /// (overwriting any prior record under that key), and returns the
    /// record. It succeeds on every input pair; the wallet store is left
    /// untouched.
    pub fn generate_proof(&mut self, token_id: String, amount: String) -> (r: ZKProof)
        requires
            old(self).wf(),
        ensures
            final(self).wf(),
            final(self).policy() == old(self).policy(),
            final(self).wallet_map() == old(self).wallet_map(),
            r@.proof == zero_bytes(32),
            r@.reference == zero_reference(),
            r@.public_inputs == seq![token_id@, amount@],
            final(self).proof_map() == old(self).proof_map().insert(r@.reference, r@),
    {
        let mut proof_bytes: Vec<u8> = Vec::new();
        let mut i: usize = 0;
        while i < 32
            invariant
                i <= 32,
                proof_bytes@ == zero_bytes(i as nat),
            decreases 32 - i,
        {
            proof_bytes.push(0u8);
            i = i + 1;
            proof {
                assert(proof_bytes@ =~= zero_bytes(i as nat));
            }
        }
        let reference = encode_hex(&proof_bytes);

        let mut public_inputs: Vec<String> = Vec::new();
        public_inputs.push(token_id);
        public_inputs.push(amount);

        let record = ZKProof { proof: proof_bytes, public_inputs, reference };
        proof {
            assert(record@.public_inputs =~= seq![token_id@, amount@]);
        }
        let r = record.clone();
        let key = record.reference.clone();

        let ghost entries = self.proof_entries();
        match find_key(&self.proofs, &key) {
            Some(idx) => {
                proof {
                    assert(entries[idx as int].0 == key@);
                    lemma_map_of_entries_update(entries, idx as int, record@);
                }
                self.proofs[idx] = (key, record);
                proof {
                    assert(self.proof_entries() =~= entries.update(
                        idx as int,
                        (entries[idx as int].0, record@),
                    ));
                }
            },
            None => {
                proof {
                    assert forall|j: int| 0 <= j < entries.len() implies (#[trigger] entries[j]).0
                        != key@ by {
                        assert(entries[j].0 == old(self).proofs@[j].0@);
                    }
                    lemma_map_of_entries_push(entries, key@, record@);
                }
                self.proofs.push((key, record));
                proof {
                    assert(self.proof_entries() =~= entries.push((key@, record@)));
                }
            },
        }
        r
    }

    /// Proof verification: whether some generated proof's reference equals
    /// the given one. Read-only and total.
    pub fn verify_proof(&self, reference: String) -> (r: bool)
        requires
            self.wf(),
        ensures
            r == self.proof_map().contains_key(reference@),
    {
        proof {
            lemma_map_of_entries_contains(self.proof_entries(), reference@);
        }
        match find_key(&self.proofs, &reference) {
            Some(i) => {
                proof {
                    assert(self.proof_entries()[i as int].0 == reference@);
                }
                true
            },
            None => {
                proof {
                    assert forall|j: int|
                        0 <= j < self.proof_entries().len() implies (
                        #[trigger] self.proof_entries()[j]).0 != reference@ by {
                        assert(self.proof_entries()[j].0 == self.proofs@[j].0@);
                    }
                }
                false
            },
        }
    }
}

/// Law: an address never written is answered by the policy's default.
/// No operation of this module writes the wallet store — `new` leaves it
/// empty and `generate_proof` leaves it unchanged — so every address is
/// an absent address, and lookup always synthesizes the default.
pub proof fn lemma_unwritten_address_default(
    wallets: Map<Seq<char>, WalletInfoView>,
    policy: DefaultPolicy,
    address: Seq<char>,
)
    requires
        !wallets.contains_key(address),
    ensures
        spec_wallet_lookup(wallets, policy, address) == default_wallet(policy, address),
{
}

/// Law: on a fresh backend, whose proof store is empty, verification
/// fails for every reference.
pub proof fn lemma_verify_on_empty_store(reference: Seq<char>)
    ensures
        !Map::<Seq<char>, ZKProofView>::empty().contains_key(reference),
{
}

/// Law: round trip — generating a proof stores the record under its own
/// reference, so verifying that reference afterwards succeeds.
pub proof fn lemma_generate_then_verify(proofs: Map<Seq<char>, ZKProofView>, r: ZKProofView)
    ensures
        proofs.insert(r.reference, r).contains_key(r.reference),
{
}

/// Law: the reference is constant, so a second generated record, whatever
/// its inputs, overwrites the first; starting from the empty store, after
/// two generations the store holds the second record alone, and exactly
/// the zero reference verifies.
pub proof fn lemma_second_generate_overwrites(
    proofs: Map<Seq<char>, ZKProofView>,
    r1: ZKProofView,
    r2: ZKProofView,
    k: Seq<char>,
)
    requires
        r1.reference == zero_reference(),
        r2.reference == zero_reference(),
    ensures
        proofs.insert(r1.reference, r1).insert(r2.reference, r2) == proofs.insert(
            r2.reference,
            r2,
        ),
        Map::<Seq<char>, ZKProofView>::empty().insert(r1.reference, r1).insert(
            r2.reference,
            r2,
        ).contains_key(k) <==> k == zero_reference(),
{
    assert(proofs.insert(r1.reference, r1).insert(r2.reference, r2) =~= proofs.insert(
        r2.reference,
        r2,
    ));
}

/// The wallet snapshot `get_wallet_info` builds for an absent address.
fn synthesize_default(policy: DefaultPolicy, address: String) -> (r: WalletInfo)
    ensures
        r@ == default_wallet(policy, address@),
{
    match policy {
        DefaultPolicy::EmptyWallet => {
            let r = WalletInfo { address, balance: "0".to_owned(), tokens: Vec::new() };
            proof {
                assert(r@.tokens =~= Seq::<TokenInfoView>::empty());
            }
            r
        },
        DefaultPolicy::SamplePortfolio => {
            let mut tokens: Vec<TokenInfo> = Vec::new();
            tokens.push(TokenInfo { symbol: "ICP".to_owned(), balance: "100".to_owned() });
            tokens.push(TokenInfo { symbol: "GHOST".to_owned(), balance: "500".to_owned() });
            tokens.push(TokenInfo { symbol: "BTC".to_owned(), balance: "0.05".to_owned() });
            tokens.push(TokenInfo { symbol: "ETH".to_owned(), balance: "2.5".to_owned() });
            let r = WalletInfo { address, balance: "1000".to_owned(), tokens };
            proof {
                assert(r@.tokens =~= default_wallet(policy, r.address@).tokens);
            }
            r
        },
    }
}

} // verus!
