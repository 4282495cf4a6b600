//! One investor's account: cash, positions, and the pre-trade risk rules.

use vstd::prelude::*;
use crate::account_types::{AccountUpdate, AccountUpdateV, PotentialOrder, PotentialOrderV};
use crate::common::{AccountName, Cash, InvId, Password, Size, Ticker};
use crate::ticker_map::TickerMap;

verus! {

/// View of an [`Account`].
#[verifier::ext_equal]
pub struct AccountV {
    pub inv_id: InvId,
    pub acc_name: Seq<char>,
    pub password: Seq<char>,
    pub cash: Cash,
    pub positions: Map<Seq<char>, Size>,
}

pub struct Account {
    pub inv_id: InvId,
    pub acc_name: AccountName,
    pub password: Password,
    pub cash: Cash,
    pub positions: TickerMap<Size>,
}

impl View for Account {
    type V = AccountV;

    open spec fn view(&self) -> AccountV {
        AccountV {
            inv_id: self.inv_id,
            acc_name: self.acc_name@,
            password: self.password@,
            cash: self.cash,
            positions: self.positions@,
        }
    }
}

/// The account can afford the reservation: enough cash for the full cost of
/// a buy, enough owned shares for a sell.
pub open spec fn valid_potential(a: AccountV, p: PotentialOrderV) -> bool {
    match p {
        PotentialOrderV::PotentialBuy(price, size) => a.cash >= price as int * size as int,
        PotentialOrderV::PotentialSell(size, ticker) => a.positions.contains_key(ticker)
            && a.positions[ticker] >= size,
    }
}

/// The update can be applied without leaving the account's domain: the cash
/// credit fits, an added position fits, a reserved position is owned.
pub open spec fn update_ok(a: AccountV, u: AccountUpdateV) -> bool {
    match u {
        AccountUpdateV::UpdCash(_, c) => a.cash + c <= u64::MAX,
        AccountUpdateV::AddPos(_, t, s) => a.positions.contains_key(t) ==> a.positions[t] + s
            <= u32::MAX,
        AccountUpdateV::MinusPos(_, t, s) => a.positions.contains_key(t) ==> a.positions[t] >= s,
    }
}

/// The account after one update: cash credited, a position credited or
/// created, or a position debited (a debit of an unknown ticker is a no-op).
pub open spec fn apply_update_to_account(a: AccountV, u: AccountUpdateV) -> AccountV {
    match u {
        AccountUpdateV::UpdCash(_, c) => AccountV { cash: (a.cash + c) as Cash, ..a },
        AccountUpdateV::AddPos(_, t, s) => {
            if a.positions.contains_key(t) {
                AccountV { positions: a.positions.insert(t, (a.positions[t] + s) as Size), ..a }
            } else {
                AccountV { positions: a.positions.insert(t, s), ..a }
            }
        },
        AccountUpdateV::MinusPos(_, t, s) => {
            if a.positions.contains_key(t) {
                AccountV { positions: a.positions.insert(t, (a.positions[t] - s) as Size), ..a }
            } else {
                a
            }
        },
    }
}

impl Account {
    /// The backing position map keeps its keys unique.
    pub open spec fn wf(self) -> bool {
        self.positions.wf()
    }

    pub fn new(inv_id: InvId, acc_name: AccountName, password: Password, cash: Cash) -> (r:
        Account)
        ensures
            r.wf(),
            r@ == (AccountV {
                inv_id,
                acc_name: acc_name@,
                password: password@,
                cash,
                positions: Map::<Seq<char>, Size>::empty(),
            }),
    {
        let r = Account { inv_id, acc_name, password, cash, positions: TickerMap::new() };
        proof {
            assert(r@ =~= AccountV {
                inv_id: r.inv_id,
                acc_name: r.acc_name@,
                password: r.password@,
                cash: r.cash,
                positions: Map::<Seq<char>, Size>::empty(),
            });
        }
        r
    }

    /// Used at initialization to hand the investor its starting shares.
    pub fn add_position(&mut self, ticker: Ticker, size: Size)
        requires
            old(self).wf(),
        ensures
            final(self).wf(),
            final(self)@ == (AccountV {
                positions: old(self)@.positions.insert(ticker@, size),
                ..old(self)@
            }),
    {
        self.positions.insert(ticker, size);
        proof {
            assert(self@ =~= AccountV {
                positions: old(self)@.positions.insert(ticker@, size),
                ..old(self)@
            });
        }
    }

    /// Whether the reservation is affordable right now.
    pub fn valid_potential_order(&self, p_order: &PotentialOrder) -> (r: bool)
        requires
            self.wf(),
        ensures
            r == valid_potential(self@, p_order@),
    {
        match p_order {
            PotentialOrder::PotentialBuy(price, size) => {
                match price.checked_mul(*size as u64) {
                    Some(total) => self.cash >= total,
                    None => false,
                }
            },
            PotentialOrder::PotentialSell(size, ticker) => {
                match self.positions.get(ticker) {
                    Some(own_size) => *own_size >= *size,
                    None => false,
                }
            },
        }
    }

    /// Whether [`Account::update`] may be called with this update.
    pub fn check_update(&self, update: &AccountUpdate) -> (r: bool)
        requires
            self.wf(),
        ensures
            r == update_ok(self@, update@),
    {
        match update {
            AccountUpdate::UpdCash(_, delta) => self.cash.checked_add(*delta).is_some(),
            AccountUpdate::AddPos(_, ticker, add) => {
                match self.positions.get(ticker) {
                    Some(size) => size.checked_add(*add).is_some(),
                    None => true,
                }
            },
            AccountUpdate::MinusPos(_, ticker, minus) => {
                match self.positions.get(ticker) {
                    Some(size) => *size >= *minus,
                    None => true,
                }
            },
        }
    }

    /// Apply one bookkeeping credit exactly.
    pub fn update(&mut self, update: AccountUpdate)
        requires
            old(self).wf(),
            update_ok(old(self)@, update@),
        ensures
            final(self).wf(),
            final(self)@ == apply_update_to_account(old(self)@, update@),
    {
        match update {
            AccountUpdate::UpdCash(_inv_id, delta_cash) => {
                self.cash = self.cash + delta_cash;
                proof {
                    assert(self@ =~= apply_update_to_account(old(self)@, update@));
                }
            },
            AccountUpdate::AddPos(_inv_id, ticker, add_size) => {
                let cur = self.positions.take(&ticker);
                match cur {
                    Some(size) => self.positions.insert(ticker, size + add_size),
                    None => self.positions.insert(ticker, add_size),
                }
                proof {
                    assert(self@ =~= apply_update_to_account(old(self)@, update@));
                }
            },
            AccountUpdate::MinusPos(_inv_id, ticker, minus_size) => {
                let cur = self.positions.take(&ticker);
                match cur {
                    Some(size) => {
                        self.positions.insert(ticker, size - minus_size);
                    },
                    None => {},
                }
                proof {
                    assert(self@ =~= apply_update_to_account(old(self)@, update@));
                }
            },
        }
    }
}

} // verus!
