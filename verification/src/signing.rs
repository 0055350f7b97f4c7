//! Signing a group public key in a chain of group managers, and combining the
//! keys that two chains give into the combined group public key.

use vstd::prelude::*;
use crate::messages::SignPubkeyReq;

verus! {

/// The positions, in order, that a manager at position `own` asks among `n`
/// domains: every position below `n` but its own.
pub open spec fn spec_peers(n: nat, own: nat) -> Seq<nat>
    decreases n,
{
    if n == 0 {
        Seq::empty()
    } else {
        let before = spec_peers((n - 1) as nat, own);
        if (n - 1) as nat == own {
            before
        } else {
            before.push((n - 1) as nat)
        }
    }
}

/// How many peers a manager at `own` asks among `n` domains.
pub open spec fn spec_peer_count(n: nat, own: nat) -> nat {
    if own < n {
        (n - 1) as nat
    } else {
        n
    }
}

/// The `k`-th peer that a manager at `own` asks: positions from its own on are
/// shifted by one.
pub open spec fn spec_peer_at(own: nat, k: nat) -> nat {
    if k < own {
        k
    } else {
        k + 1
    }
}

/// The peers are exactly counted by `spec_peer_count` and placed by
/// `spec_peer_at` (the last ones when the manager's own position lies beyond
/// the list, where none is skipped).
pub proof fn lemma_peers_shape(n: nat, own: nat)
    ensures
        spec_peers(n, own).len() == spec_peer_count(n, own),
        forall|k: int|
            0 <= k < spec_peers(n, own).len() ==> #[trigger] spec_peers(n, own)[k] == if own < n {
                spec_peer_at(own, k as nat)
            } else {
                k as nat
            },
    decreases n,
{
    if n > 0 {
        lemma_peers_shape((n - 1) as nat, own);
    }
}

/// A manager asks every other position below `n`, each once, in increasing
/// order, and never itself.
pub proof fn lemma_peers_cover_others(n: nat, own: nat)
    ensures
        forall|k: int|
            0 <= k < spec_peers(n, own).len() ==> #[trigger] spec_peers(n, own)[k] < n
                && spec_peers(n, own)[k] != own,
        forall|j: int, k: int|
            0 <= j < k < spec_peers(n, own).len() ==> #[trigger] spec_peers(n, own)[j]
                < #[trigger] spec_peers(n, own)[k],
        forall|p: nat| p < n && p != own ==> #[trigger] spec_peers(n, own).contains(p),
    decreases n,
{
    if n > 0 {
        lemma_peers_cover_others((n - 1) as nat, own);
        let before = spec_peers((n - 1) as nat, own);
        assert forall|p: nat| p < n && p != own implies #[trigger] spec_peers(n, own).contains(
            p,
        ) by {
            if p < n - 1 {
                assert(before.contains(p));
                let i = choose|i: int| 0 <= i < before.len() && before[i] == p;
                assert(spec_peers(n, own)[i] == p);
            } else {
                let all = spec_peers(n, own);
                assert(all[all.len() - 1] == p);
            }
        }
    }
}

/// The views of a sequence of byte vectors.
pub open spec fn byte_strings(v: Seq<Vec<u8>>) -> Seq<Seq<u8>> {
    v.map_values(|b: Vec<u8>| b@)
}

/// How many peers a manager at `own_index` asks among `n_domains` domains.
pub fn peer_count(n_domains: usize, own_index: usize) -> (count: usize)
    ensures
        count == spec_peer_count(n_domains as nat, own_index as nat),
{
    if own_index < n_domains {
        n_domains - 1
    } else {
        n_domains
    }
}

/// What a signing chain has done so far.
pub struct SigningState {
    /// The number of domains in the list.
    pub n: nat,
    /// The position of the manager that runs the chain.
    pub own: nat,
    /// The key that the chain starts from.
    pub unsigned: Seq<u8>,
    /// The keys that the peers gave back so far, in order.
    pub signed: Seq<Seq<u8>>,
}

impl SigningState {
    /// The peers that the chain asks, in order.
    pub open spec fn peers(self) -> Seq<nat> {
        spec_peers(self.n, self.own)
    }

    /// Whether every peer has answered.
    pub open spec fn finished(self) -> bool {
        self.signed.len() >= self.peers().len()
    }

    /// The peer to ask next.
    pub open spec fn next_peer(self) -> nat {
        self.peers()[self.signed.len() as int]
    }

    /// The key to send next: the last answer, or the starting key before any.
    pub open spec fn key_to_sign(self) -> Seq<u8> {
        if self.signed.len() == 0 {
            self.unsigned
        } else {
            self.signed.last()
        }
    }
}

/// A group manager's round of asking each other manager, in list order, to sign
/// the key that the previous one gave back.
pub struct PubkeySigningChain {
    n_domains: usize,
    own_index: usize,
    unsigned: Vec<u8>,
    signed: Vec<Vec<u8>>,
}

impl View for PubkeySigningChain {
    type V = SigningState;

    closed spec fn view(&self) -> SigningState {
        SigningState {
            n: self.n_domains as nat,
            own: self.own_index as nat,
            unsigned: self.unsigned@,
            signed: byte_strings(self.signed@),
        }
    }
}

impl PubkeySigningChain {
    /// Whether no more answers were recorded than there are peers.
    pub open spec fn wf(&self) -> bool {
        self@.signed.len() <= self@.peers().len()
    }

    /// A chain over `n_domains` domains, run by the manager at `own_index`,
    /// starting from `unsigned_pubkey`.
    pub fn new(n_domains: usize, own_index: usize, unsigned_pubkey: Vec<u8>) -> (chain: Self)
        ensures
            chain.wf(),
            chain@ == (SigningState {
                n: n_domains as nat,
                own: own_index as nat,
                unsigned: unsigned_pubkey@,
                signed: Seq::empty(),
            }),
    {
        let chain = PubkeySigningChain {
            n_domains,
            own_index,
            unsigned: unsigned_pubkey,
            signed: Vec::new(),
        };
        proof {
            assert(byte_strings(chain.signed@) =~= Seq::<Seq<u8>>::empty());
        }
        chain
    }

    /// The next request: the position of the peer to ask and the key to send,
    /// or `None` once every peer has answered.
    pub fn next_request(&self) -> (request: Option<(usize, Vec<u8>)>)
        requires
            self.wf(),
        ensures
            match request {
                Some((peer, key)) => {
                    &&& !self@.finished()
                    &&& peer as nat == self@.next_peer()
                    &&& peer < self@.n
                    &&& key@ == self@.key_to_sign()
                },
                None => self@.finished(),
            },
    {
        proof {
            lemma_peers_shape(self@.n, self@.own);
            lemma_peers_cover_others(self@.n, self@.own);
        }
        let k = self.signed.len();
        let count = peer_count(self.n_domains, self.own_index);
        if k >= count {
            return None;
        }
        let peer = if self.own_index < self.n_domains && k >= self.own_index {
            k + 1
        } else {
            k
        };
        let key = self.current_key();
        Some((peer, key))
    }

    /// The key the chain has reached: the last answer, or the starting key
    /// while no peer has answered. Once the chain has finished, it is the key
    /// that the whole chain signed.
    pub fn current_key(&self) -> (key: Vec<u8>)
        requires
            self.wf(),
        ensures
            key@ == self@.key_to_sign(),
    {
        let k = self.signed.len();
        let key = if k == 0 {
            self.unsigned.clone()
        } else {
            self.signed[k - 1].clone()
        };
        proof {
            assert(key@ =~= self@.key_to_sign());
        }
        key
    }

    /// Records the key that the peer asked last gave back.
    pub fn record_signed(&mut self, signed_pubkey: Vec<u8>)
        requires
            old(self).wf(),
            !old(self)@.finished(),
        ensures
            final(self).wf(),
            final(self)@ == (SigningState {
                signed: old(self)@.signed.push(signed_pubkey@),
                ..old(self)@
            }),
    {
        let ghost before = byte_strings(self.signed@);
        self.signed.push(signed_pubkey);
        proof {
            assert(byte_strings(self.signed@) =~= before.push(signed_pubkey@));
        }
    }

    /// The keys that the peers gave back, in the order asked.
    pub fn signed_pubkeys(self) -> (keys: Vec<Vec<u8>>)
        ensures
            byte_strings(keys@) == self@.signed,
    {
        self.signed
    }
}

/// Once a chain has finished, it holds one answer from every peer: one fewer
/// than the domains when the manager is in the list.
pub proof fn lemma_finished_answers(state: SigningState)
    requires
        state.signed.len() <= state.peers().len(),
        state.finished(),
    ensures
        state.signed.len() == spec_peer_count(state.n, state.own),
{
    lemma_peers_shape(state.n, state.own);
}

/// `key` signed `n` times in turn by a signer that maps a key to `f` of it.
pub open spec fn spec_signed_by(f: spec_fn(Seq<u8>) -> Seq<u8>, n: nat, key: Seq<u8>) -> Seq<u8>
    decreases n,
{
    if n == 0 {
        key
    } else {
        f(spec_signed_by(f, (n - 1) as nat, key))
    }
}

/// Whether every answer of a chain is `f` of the key that was sent for it.
pub open spec fn spec_answers_follow(state: SigningState, f: spec_fn(Seq<u8>) -> Seq<u8>) -> bool {
    forall|i: int|
        0 <= i < state.signed.len() ==> #[trigger] state.signed[i] == f(
            if i == 0 {
                state.unsigned
            } else {
                state.signed[i - 1]
            },
        )
}

/// When every peer signs in the same way, the chain's `i`-th answer is the
/// starting key signed `i + 1` times.
pub proof fn lemma_uniform_chain(state: SigningState, f: spec_fn(Seq<u8>) -> Seq<u8>)
    requires
        spec_answers_follow(state, f),
    ensures
        forall|i: int|
            0 <= i < state.signed.len() ==> #[trigger] state.signed[i] == spec_signed_by(
                f,
                (i + 1) as nat,
                state.unsigned,
            ),
    decreases state.signed.len(),
{
    if state.signed.len() > 0 {
        let shorter = SigningState { signed: state.signed.drop_last(), ..state };
        assert(spec_answers_follow(shorter, f)) by {
            assert forall|i: int| 0 <= i < shorter.signed.len() implies #[trigger] shorter.signed[i]
                == f(
                if i == 0 {
                    shorter.unsigned
                } else {
                    shorter.signed[i - 1]
                },
            ) by {
                assert(state.signed[i] == f(
                    if i == 0 {
                        state.unsigned
                    } else {
                        state.signed[i - 1]
                    },
                ));
            }
        }
        lemma_uniform_chain(shorter, f);
        assert forall|i: int| 0 <= i < state.signed.len() implies #[trigger] state.signed[i]
            == spec_signed_by(f, (i + 1) as nat, state.unsigned) by {
            if i < state.signed.len() - 1 {
                assert(shorter.signed[i] == state.signed[i]);
            } else if i > 0 {
                assert(shorter.signed[i - 1] == state.signed[i - 1]);
                assert(state.signed[i] == f(state.signed[i - 1]));
                assert(spec_signed_by(f, (i + 1) as nat, state.unsigned) == f(
                    spec_signed_by(f, i as nat, state.unsigned),
                ));
            } else {
                assert(state.signed[0] == f(state.unsigned));
                assert(spec_signed_by(f, 1, state.unsigned) == f(
                    spec_signed_by(f, 0, state.unsigned),
                ));
            }
        }
    }
}

/// When every manager signs in the same way, both chains agree: the combined
/// key's `h` is the starting key signed twice, and `u` and `v` are it signed
/// once.
pub proof fn lemma_uniform_run_agrees(state: GenPubkeyState, f: spec_fn(Seq<u8>) -> Seq<u8>)
    requires
        spec_answers_follow(state.first, f),
        spec_answers_follow(state.second, f),
        state.first.unsigned == state.second.unsigned,
        state.first.signed.len() >= 2,
        state.second.signed.len() >= 2,
    ensures
        state.first.signed[1] == state.second.signed[1],
        state.first.signed[1] == f(f(state.first.unsigned)),
        state.first.signed[0] == f(state.first.unsigned),
        state.second.signed[0] == f(state.first.unsigned),
{
    lemma_uniform_chain(state.first, f);
    lemma_uniform_chain(state.second, f);
    assert(state.first.signed[0] == spec_signed_by(f, 1, state.first.unsigned));
    assert(state.first.signed[1] == spec_signed_by(f, 2, state.first.unsigned));
    assert(state.second.signed[0] == spec_signed_by(f, 1, state.second.unsigned));
    assert(state.second.signed[1] == spec_signed_by(f, 2, state.second.unsigned));
    assert(spec_signed_by(f, 1, state.first.unsigned) == f(spec_signed_by(f, 0, state.first.unsigned)));
    assert(spec_signed_by(f, 2, state.first.unsigned) == f(spec_signed_by(f, 1, state.first.unsigned)));
}

/// The combined group public key, without the partial keys: each element is a
/// compressed G1 point.
pub struct CombinedGPKWithoutPartials {
    pub h: Vec<u8>,
    pub u: Vec<u8>,
    pub v: Vec<u8>,
}

/// Whether two byte strings are equal.
pub fn bytes_equal(a: &[u8], b: &[u8]) -> (equal: bool)
    ensures
        equal == (a@ == b@),
{
    if a.len() != b.len() {
        return false;
    }
    let mut i: usize = 0;
    while i < a.len()
        invariant
            i <= a@.len(),
            a@.len() == b@.len(),
            forall|j: int| 0 <= j < i ==> a@[j] == b@[j],
        decreases a@.len() - i,
    {
        if a[i] != b[i] {
            return false;
        }
        i = i + 1;
    }
    proof {
        assert(a@ =~= b@);
    }
    true
}

/// The message of the error that two chains which disagree give.
pub open spec fn spec_wrong_combined_message() -> Seq<char> {
    "wrong combined pubkey generated"@
}

/// Combines the keys of a chain run in list order (`first`) and one run in
/// reversed order (`second`): both must end their second answer on the same
/// key `h`; `u` and `v` are their first answers.
pub fn combine_gen_pubkey_results(first: &Vec<Vec<u8>>, second: &Vec<Vec<u8>>) -> (combined:
    Result<CombinedGPKWithoutPartials, String>)
    requires
        first@.len() >= 2,
        second@.len() >= 2,
    ensures
        match combined {
            Ok(key) => {
                &&& first@[1]@ == second@[1]@
                &&& key.h@ == first@[1]@
                &&& key.u@ == first@[0]@
                &&& key.v@ == second@[0]@
            },
            Err(message) => first@[1]@ != second@[1]@ && message@ == spec_wrong_combined_message(),
        },
{
    if !bytes_equal(first[1].as_slice(), second[1].as_slice()) {
        return Err("wrong combined pubkey generated".to_owned());
    }
    let h = first[1].clone();
    let u = first[0].clone();
    let v = second[0].clone();
    proof {
        assert(h@ =~= first@[1]@);
        assert(u@ =~= first@[0]@);
        assert(v@ =~= second@[0]@);
    }
    Ok(CombinedGPKWithoutPartials { h, u, v })
}

/// The domains in reversed order, for the second chain.
pub fn reversed_domains(domains: &Vec<String>) -> (reversed: Vec<String>)
    ensures
        reversed@ == domains@.reverse(),
{
    let mut reversed: Vec<String> = Vec::new();
    let mut i: usize = domains.len();
    while i > 0
        invariant
            i <= domains@.len(),
            reversed@ =~= domains@.subrange(i as int, domains@.len() as int).reverse(),
        decreases i,
    {
        i = i - 1;
        reversed.push(domains[i].clone());
        proof {
            assert(reversed@ =~= domains@.subrange(i as int, domains@.len() as int).reverse());
        }
    }
    proof {
        assert(domains@.subrange(0, domains@.len() as int) =~= domains@);
    }
    reversed
}

/// What a run of both chains has done so far: the first over the domains in
/// order, the second over them reversed, both from the same starting key.
pub struct GenPubkeyState {
    pub domains: Seq<String>,
    pub first: SigningState,
    pub second: SigningState,
}

impl GenPubkeyState {
    /// Whether both chains have finished.
    pub open spec fn finished(self) -> bool {
        self.first.finished() && self.second.finished()
    }

    /// Whether the run is in its first chain.
    pub open spec fn in_first(self) -> bool {
        !self.first.finished()
    }
}

/// A group manager's making of the combined group public key: a chain of
/// signatures over the domains in order, then one over them reversed, then the
/// combination of the two.
pub struct GenPubkeyRun {
    domains: Vec<String>,
    reversed: Vec<String>,
    first: PubkeySigningChain,
    second: PubkeySigningChain,
}

impl View for GenPubkeyRun {
    type V = GenPubkeyState;

    closed spec fn view(&self) -> GenPubkeyState {
        GenPubkeyState { domains: self.domains@, first: self.first@, second: self.second@ }
    }
}

impl GenPubkeyRun {
    /// The run's internal consistency.
    pub closed spec fn wf(&self) -> bool {
        &&& self.first.wf()
        &&& self.second.wf()
        &&& self.reversed@ == self.domains@.reverse()
        &&& self.first@.n == self.domains@.len()
        &&& self.second@.n == self.domains@.len()
        &&& self.first@.own == self.second@.own
        &&& self.first@.unsigned == self.second@.unsigned
        &&& !self.first@.finished() ==> self.second@.signed.len() == 0
    }

    /// A run for the manager at `own_index` among `domains`, starting from
    /// `unsigned_pubkey`.
    pub fn new(domains: &Vec<String>, own_index: usize, unsigned_pubkey: Vec<u8>) -> (run: Self)
        ensures
            run.wf(),
            run@.domains == domains@,
            run@.first == (SigningState {
                n: domains@.len(),
                own: own_index as nat,
                unsigned: unsigned_pubkey@,
                signed: Seq::empty(),
            }),
            run@.second == run@.first,
    {
        let n = domains.len();
        let reversed = reversed_domains(domains);
        let second = PubkeySigningChain::new(n, own_index, unsigned_pubkey.clone());
        let first = PubkeySigningChain::new(n, own_index, unsigned_pubkey);
        GenPubkeyRun { domains: domains.clone(), reversed, first, second }
    }

    /// The next request: the domain to ask and what to send it, or `None` once
    /// both chains have finished. The first chain asks the domains in order and
    /// sends the list in order; the second asks them in reversed order and
    /// sends the reversed list.
    pub fn next_request(&self) -> (request: Option<(String, SignPubkeyReq)>)
        requires
            self.wf(),
        ensures
            match request {
                Some((domain, req)) => if self@.in_first() {
                    &&& domain@ == self@.domains[self@.first.next_peer() as int]@
                    &&& req.domains@ == self@.domains
                    &&& req.unsigned_pubkey@ == self@.first.key_to_sign()
                } else {
                    &&& !self@.second.finished()
                    &&& domain@ == self@.domains.reverse()[self@.second.next_peer() as int]@
                    &&& req.domains@ == self@.domains.reverse()
                    &&& req.unsigned_pubkey@ == self@.second.key_to_sign()
                },
                None => self@.finished(),
            },
    {
        match self.first.next_request() {
            Some((peer, key)) => {
                let domain = self.domains[peer].clone();
                Some((domain, SignPubkeyReq { domains: self.domains.clone(), unsigned_pubkey: key }))
            },
            None => match self.second.next_request() {
                Some((peer, key)) => {
                    let domain = self.reversed[peer].clone();
                    Some(
                        (
                            domain,
                            SignPubkeyReq { domains: self.reversed.clone(), unsigned_pubkey: key },
                        ),
                    )
                },
                None => None,
            },
        }
    }

    /// Records the key that the domain asked last gave back.
    pub fn record_signed(&mut self, signed_pubkey: Vec<u8>)
        requires
            old(self).wf(),
            !old(self)@.finished(),
        ensures
            final(self).wf(),
            final(self)@.domains == old(self)@.domains,
            if old(self)@.in_first() {
                &&& final(self)@.first.signed == old(self)@.first.signed.push(signed_pubkey@)
                &&& final(self)@.first == (SigningState { signed: final(self)@.first.signed, ..old(self)@.first })
                &&& final(self)@.second == old(self)@.second
            } else {
                &&& final(self)@.second.signed == old(self)@.second.signed.push(signed_pubkey@)
                &&& final(self)@.second == (SigningState { signed: final(self)@.second.signed, ..old(self)@.second })
                &&& final(self)@.first == old(self)@.first
            },
    {
        if self.first.next_request().is_some() {
            self.first.record_signed(signed_pubkey);
        } else {
            self.second.record_signed(signed_pubkey);
        }
    }

    /// The combined group public key from both chains' answers, once both have
    /// finished, each with at least two answers.
    pub fn finish(self) -> (combined: Result<CombinedGPKWithoutPartials, String>)
        requires
            self.wf(),
            self@.finished(),
            spec_peer_count(self@.first.n, self@.first.own) >= 2,
        ensures
            ({
                let first = self@.first.signed;
                let second = self@.second.signed;
                match combined {
                    Ok(key) => {
                        &&& first[1] == second[1]
                        &&& key.h@ == first[1]
                        &&& key.u@ == first[0]
                        &&& key.v@ == second[0]
                    },
                    Err(message) => first[1] != second[1] && message@
                        == spec_wrong_combined_message(),
                }
            }),
    {
        proof {
            lemma_finished_answers(self.first@);
            lemma_finished_answers(self.second@);
        }
        let first = self.first.signed_pubkeys();
        let second = self.second.signed_pubkeys();
        combine_gen_pubkey_results(&first, &second)
    }
}

} // verus!
