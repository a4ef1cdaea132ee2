//! The account registry: routes each transaction to its account,
//! creating accounts lazily, and reports a snapshot of every account
//! ever referenced.

use vstd::prelude::*;
use std::collections::HashMap;
use crate::client::{AccountView, CResult, Client, ClientSummary, step};
use crate::transaction::{ClientId, Transaction};

verus! {

broadcast use vstd::std_specs::hash::group_hash_axioms;

/// The registry of all accounts, keyed by account identifier.
pub struct Engine {
    clients: HashMap<u16, Client>,
    /// Every account identifier ever referenced, in first-reference order.
    ids: Vec<u16>,
}

impl Engine {
    /// The abstract state of every known account.
    pub closed spec fn accounts(self) -> Map<u16, AccountView> {
        self.clients@.map_values(|c: Client| c@)
    }

    /// The account identifiers in the order they were first referenced.
    pub closed spec fn order(self) -> Seq<u16> {
        self.ids@
    }

    /// Well-formedness: every account is well-formed, and the order
    /// sequence lists exactly the known account identifiers, once each.
    pub open spec fn wf(self) -> bool {
        &&& forall|k: u16|
            self.accounts().contains_key(k) ==> (#[trigger] self.accounts()[k]).wf()
        &&& self.order().no_duplicates()
        &&& forall|i: int|
            0 <= i < self.order().len() ==> self.accounts().contains_key(
                #[trigger] self.order()[i],
            )
        &&& forall|k: u16| self.accounts().contains_key(k) ==> self.order().contains(k)
    }

    /// An empty registry: no accounts yet.
    pub fn create() -> (r: Engine)
        ensures
            r.wf(),
            r.accounts() == Map::<u16, AccountView>::empty(),
            r.order() == Seq::<u16>::empty(),
    {
        let r = Engine { clients: HashMap::new(), ids: Vec::new() };
        proof {
            assert(r.accounts() =~= Map::<u16, AccountView>::empty());
        }
        r
    }

    /// Route one transaction to its account, creating the account in
    /// its initial state on first reference, and apply it there. The
    /// outcome and the account's new state are exactly those of the
    /// `step` transition relation; no other account changes.
    pub fn update(&mut self, tx: Transaction) -> (r: CResult)
        requires
            old(self).wf(),
        ensures
            final(self).wf(),
            ({
                let cid = tx.data_spec().client_id.0;
                let pre = if old(self).accounts().contains_key(cid) {
                    old(self).accounts()[cid]
                } else {
                    AccountView::initial()
                };
                &&& final(self).accounts() == old(self).accounts().insert(cid, step(pre, tx).0)
                &&& r == step(pre, tx).1
                &&& final(self).order() == if old(self).accounts().contains_key(cid) {
                    old(self).order()
                } else {
                    old(self).order().push(cid)
                }
            }),
    {
        let cid = tx.client_id().0;
        let mut client = match self.clients.remove(&cid) {
            Some(c) => c,
            None => {
                self.ids.push(cid);
                let c = Client::new(0);
                proof {
                    assert(c@ =~= AccountView::initial());
                }
                c
            },
        };
        proof {
            assert(client@.wf());
        }
        let r = client.update(tx);
        self.clients.insert(cid, client);
        proof {
            assert(final(self).accounts() =~= old(self).accounts().insert(
                cid,
                step(
                    if old(self).accounts().contains_key(cid) {
                        old(self).accounts()[cid]
                    } else {
                        AccountView::initial()
                    },
                    tx,
                ).0,
            ));
            let fresh = !old(self).accounts().contains_key(cid);
            assert forall|k: u16| self.accounts().contains_key(k) implies (
            #[trigger] self.accounts()[k]).wf() by {
                if k != cid {
                    assert(self.accounts()[k] == old(self).accounts()[k]);
                }
            }
            if fresh {
                assert forall|i: int| 0 <= i < old(self).order().len() implies old(self).order()[i]
                    != cid by {
                    assert(old(self).accounts().contains_key(old(self).order()[i]));
                }
                assert(self.order() == old(self).order().push(cid));
                assert forall|i: int, j: int|
                    0 <= i < self.order().len() && 0 <= j < self.order().len() && i
                        != j implies self.order()[i] != self.order()[j] by {
                    if i < old(self).order().len() && j < old(self).order().len() {
                        assert(old(self).order()[i] != old(self).order()[j]);
                    }
                }
                assert(self.order().no_duplicates());
            }
            assert forall|k: u16| self.accounts().contains_key(k) implies self.order().contains(
                k,
            ) by {
                if k == cid {
                    if fresh {
                        assert(self.order()[self.order().len() - 1] == cid);
                    } else {
                        assert(old(self).order().contains(k));
                        let j = choose|j: int|
                            0 <= j < old(self).order().len() && old(self).order()[j] == k;
                        assert(self.order()[j] == k);
                    }
                } else {
                    assert(old(self).accounts().contains_key(k));
                    assert(old(self).order().contains(k));
                    let j = choose|j: int|
                        0 <= j < old(self).order().len() && old(self).order()[j] == k;
                    assert(self.order()[j] == k);
                }
            }
        }
        r
    }

    /// A snapshot of every account ever referenced, in first-reference
    /// order: its identifier with its current balances and lock state.
    pub fn iter(&self) -> (r: Vec<(ClientId, ClientSummary)>)
        requires
            self.wf(),
        ensures
            r@.len() == self.order().len(),
            forall|i: int|
                0 <= i < r@.len() ==> {
                    let cid = self.order()[i];
                    &&& (#[trigger] r@[i]).0.0 == cid
                    &&& r@[i].1.available as int == self.accounts()[cid].available
                    &&& r@[i].1.held as int == self.accounts()[cid].held
                    &&& r@[i].1.locked == self.accounts()[cid].locked
                },
    {
        let mut out: Vec<(ClientId, ClientSummary)> = Vec::new();
        let mut i: usize = 0;
        while i < self.ids.len()
            invariant
                self.wf(),
                i <= self.ids.len(),
                out@.len() == i as int,
                forall|j: int|
                    0 <= j < i as int ==> {
                        let cid = self.order()[j];
                        &&& (#[trigger] out@[j]).0.0 == cid
                        &&& out@[j].1.available as int == self.accounts()[cid].available
                        &&& out@[j].1.held as int == self.accounts()[cid].held
                        &&& out@[j].1.locked == self.accounts()[cid].locked
                    },
            decreases self.ids.len() - i,
        {
            let cid = self.ids[i];
            let client = match self.clients.get(&cid) {
                Some(c) => c,
                None => {
                    proof {
                        assert(false);
                    }
                    unreached()
                },
            };
            out.push((ClientId::new(cid), client.summary()));
            i = i + 1;
        }
        out
    }
}

} // verus!
