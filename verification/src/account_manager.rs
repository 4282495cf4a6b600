//! The registry of accounts: login tracking, risk checks and update dispatch.

use vstd::prelude::*;
use std::collections::{HashMap, HashSet};
use crate::account::{
    apply_update_to_account, update_ok, valid_potential, Account, AccountV,
};
use crate::account_types::{AccountUpdate, AccountUpdateV, PotentialOrder, PotentialOrderV};
use crate::common::{InvId, Password};

verus! {

broadcast use vstd::std_specs::hash::group_hash_axioms;

/// The registry after one update: applied exactly when the account exists
/// and the update is applicable, untouched otherwise.
pub open spec fn apply_update(m: Map<InvId, AccountV>, u: AccountUpdateV) -> Map<InvId, AccountV> {
    let inv = u.inv_id();
    if m.contains_key(inv) && update_ok(m[inv], u) {
        m.insert(inv, apply_update_to_account(m[inv], u))
    } else {
        m
    }
}

/// The registry after a reservation is drawn down in advance: the buy's full
/// cost leaves the cash, or the sell's shares leave the position.
pub open spec fn apply_potential(m: Map<InvId, AccountV>, inv: InvId, p: PotentialOrderV) -> Map<
    InvId,
    AccountV,
> {
    if m.contains_key(inv) {
        match p {
            PotentialOrderV::PotentialBuy(price, size) => m.insert(
                inv,
                AccountV { cash: (m[inv].cash - price * size) as u64, ..m[inv] },
            ),
            PotentialOrderV::PotentialSell(size, ticker) => m.insert(
                inv,
                AccountV {
                    positions: m[inv].positions.insert(
                        ticker,
                        (m[inv].positions[ticker] - size) as u32,
                    ),
                    ..m[inv]
                },
            ),
        }
    } else {
        m
    }
}

pub struct AccountManager {
    accounts: HashMap<InvId, Account>,
    login_accs: HashSet<InvId>,
}

impl AccountManager {
    /// The accounts by investor id.
    pub closed spec fn accounts_view(self) -> Map<InvId, AccountV> {
        self.accounts@.map_values(|a: Account| a@)
    }

    /// Who is logged in.
    pub closed spec fn logins(self) -> Set<InvId> {
        self.login_accs@
    }

    /// Every stored account keeps its position map well-formed.
    pub closed spec fn wf(self) -> bool {
        forall|i: InvId| #[trigger]
            self.accounts@.contains_key(i) ==> self.accounts@[i].wf()
    }

    pub fn new() -> (r: Self)
        ensures
            r.wf(),
            r.accounts_view() == Map::<InvId, AccountV>::empty(),
            r.logins() == Set::<InvId>::empty(),
    {
        let r = AccountManager { accounts: HashMap::new(), login_accs: HashSet::new() };
        proof {
            assert(r.accounts_view() =~= Map::<InvId, AccountV>::empty());
            assert(r.logins() =~= Set::<InvId>::empty());
        }
        r
    }

    /// Used at initialization to register one investor.
    pub fn add_account(&mut self, inv_id: InvId, account: Account)
        requires
            old(self).wf(),
            account.wf(),
        ensures
            final(self).wf(),
            final(self).accounts_view() == old(self).accounts_view().insert(inv_id, account@),
            final(self).logins() == old(self).logins(),
    {
        self.accounts.insert(inv_id, account);
        proof {
            assert(self.accounts_view() =~= old(self).accounts_view().insert(inv_id, account@));
        }
    }

    /// Whether the named account can afford the reservation; false for an
    /// unknown account.
    pub fn valid_potential_order(&self, inv_id: &InvId, p_order: &PotentialOrder) -> (r: bool)
        requires
            self.wf(),
        ensures
            r == (self.accounts_view().contains_key(*inv_id) && valid_potential(
                self.accounts_view()[*inv_id],
                p_order@,
            )),
    {
        match self.accounts.get(inv_id) {
            Some(acc) => acc.valid_potential_order(p_order),
            None => false,
        }
    }

    /// Apply one bookkeeping credit to its account: exactly [`apply_update`].
    pub fn update(&mut self, update: AccountUpdate)
        requires
            old(self).wf(),
        ensures
            final(self).wf(),
            final(self).accounts_view() == apply_update(old(self).accounts_view(), update@),
            final(self).logins() == old(self).logins(),
    {
        let inv_id = crate::wire::get_inv_id(&update);
        let taken = self.accounts.remove(&inv_id);
        match taken {
            Some(mut acc) => {
                if acc.check_update(&update) {
                    acc.update(update);
                    self.accounts.insert(inv_id, acc);
                } else {
                    self.accounts.insert(inv_id, acc);
                }
                proof {
                    assert(self.accounts_view() =~= apply_update(
                        old(self).accounts_view(),
                        update@,
                    ));
                }
            },
            None => {
                proof {
                    assert(self.accounts_view() =~= apply_update(
                        old(self).accounts_view(),
                        update@,
                    ));
                }
            },
        }
    }

    /// A login succeeds exactly once per account: the password must match and
    /// nobody may already hold the session.
    pub fn try_login(&mut self, inv_id: InvId, password: &Password) -> (r: bool)
        requires
            old(self).wf(),
        ensures
            final(self).wf(),
            r == (old(self).accounts_view().contains_key(inv_id) && old(self).accounts_view()[
                inv_id
            ].password == password@ && !old(self).logins().contains(inv_id)),
            final(self).accounts_view() == old(self).accounts_view(),
            final(self).logins() == (if r {
                old(self).logins().insert(inv_id)
            } else {
                old(self).logins()
            }),
    {
        let mut ok = false;
        match self.accounts.get(&inv_id) {
            Some(account) => {
                if account.password == *password && !self.login_accs.contains(&inv_id) {
                    ok = true;
                }
            },
            None => {},
        }
        if ok {
            self.login_accs.insert(inv_id);
        }
        ok
    }

    /// Advance drawdown: reserve the resources of a validated order.
    pub fn update_by_potential_order(&mut self, inv_id: InvId, p_order: PotentialOrder)
        requires
            old(self).wf(),
            old(self).accounts_view().contains_key(inv_id) ==> valid_potential(
                old(self).accounts_view()[inv_id],
                p_order@,
            ),
        ensures
            final(self).wf(),
            final(self).accounts_view() == apply_potential(
                old(self).accounts_view(),
                inv_id,
                p_order@,
            ),
            final(self).logins() == old(self).logins(),
    {
        let taken = self.accounts.remove(&inv_id);
        match taken {
            Some(mut acc) => {
                let ghost acc0 = acc@;
                proof {
                    assert(old(self).accounts_view().contains_key(inv_id));
                    assert(acc0 == old(self).accounts_view()[inv_id]);
                }
                match p_order {
                    PotentialOrder::PotentialBuy(price, size) => {
                        let total = price * (size as u64);
                        acc.cash = acc.cash - total;
                        proof {
                            assert(acc@ =~= AccountV {
                                cash: (acc0.cash - price as int * size as int) as u64,
                                ..acc0
                            });
                        }
                    },
                    PotentialOrder::PotentialSell(size, ticker) => {
                        let cur = acc.positions.take(&ticker);
                        match cur {
                            Some(own) => {
                                acc.positions.insert(ticker, own - size);
                            },
                            None => {},
                        }
                        proof {
                            assert(acc@ =~= AccountV {
                                positions: acc0.positions.insert(
                                    ticker@,
                                    (acc0.positions[ticker@] - size) as u32,
                                ),
                                ..acc0
                            });
                        }
                    },
                }
                self.accounts.insert(inv_id, acc);
                proof {
                    assert(self.accounts_view() =~= apply_potential(
                        old(self).accounts_view(),
                        inv_id,
                        p_order@,
                    ));
                }
            },
            None => {
                proof {
                    assert(self.accounts_view() =~= apply_potential(
                        old(self).accounts_view(),
                        inv_id,
                        p_order@,
                    ));
                }
            },
        }
    }
}

} // verus!
