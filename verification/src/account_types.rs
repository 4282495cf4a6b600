//! Pre-trade reservations and the bookkeeping instructions derived from fills.

use vstd::prelude::*;
use crate::common::{Cash, InvId, Price, Size, Ticker};

verus! {

/// The resources a new order could consume: the full cost of a buy (its
/// price and size, whose product is the reservation), or the shares of a sell.
#[derive(Debug)]
pub enum PotentialOrder {
    PotentialBuy(Price, Size),
    PotentialSell(Size, Ticker),
}

/// View of a [`PotentialOrder`].
pub enum PotentialOrderV {
    PotentialBuy(Price, Size),
    PotentialSell(Size, Seq<char>),
}

impl View for PotentialOrder {
    type V = PotentialOrderV;

    open spec fn view(&self) -> PotentialOrderV {
        match self {
            PotentialOrder::PotentialBuy(p, s) => PotentialOrderV::PotentialBuy(*p, *s),
            PotentialOrder::PotentialSell(s, t) => PotentialOrderV::PotentialSell(*s, t@),
        }
    }
}

/// A credit owed to one account: cash, shares of a ticker added, or shares
/// reserved (subtracted) from a ticker position.
#[derive(Debug)]
pub enum AccountUpdate {
    UpdCash(InvId, Cash),
    AddPos(InvId, Ticker, Size),
    MinusPos(InvId, Ticker, Size),
}

/// View of an [`AccountUpdate`].
pub enum AccountUpdateV {
    UpdCash(InvId, Cash),
    AddPos(InvId, Seq<char>, Size),
    MinusPos(InvId, Seq<char>, Size),
}

impl View for AccountUpdate {
    type V = AccountUpdateV;

    open spec fn view(&self) -> AccountUpdateV {
        match self {
            AccountUpdate::UpdCash(i, c) => AccountUpdateV::UpdCash(*i, *c),
            AccountUpdate::AddPos(i, t, s) => AccountUpdateV::AddPos(*i, t@, *s),
            AccountUpdate::MinusPos(i, t, s) => AccountUpdateV::MinusPos(*i, t@, *s),
        }
    }
}

impl AccountUpdateV {
    /// The account the update is addressed to.
    pub open spec fn inv_id(self) -> InvId {
        match self {
            AccountUpdateV::UpdCash(i, _) => i,
            AccountUpdateV::AddPos(i, _, _) => i,
            AccountUpdateV::MinusPos(i, _, _) => i,
        }
    }
}

} // verus!
