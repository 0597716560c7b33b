use vstd::prelude::*;

verus! {

pub type CardId = String;

pub type UserId = i64;

/// A point in time (UTC): whole seconds since the Unix epoch and the
/// nanoseconds past that second. The nanoseconds are below one billion except
/// during a leap second, when they run up to 1,999,999,999; this type does not
/// enforce either bound.
#[derive(Clone, Copy, Debug)]
pub struct UtcTime {
    pub secs: i64,
    pub nanos: u32,
}

// Request
/// Register a new user for a card.
#[derive(Clone, Debug)]
pub struct NewUser {
    pub card_id: CardId,
}

/// Change some of a user's details; `None` leaves a detail as it is.
#[derive(Clone, Debug)]
pub struct UpdateUser {
    pub id: UserId,
    pub name: Option<String>,
    pub three_letter_name: Option<String>,
    pub identification: Option<String>,
}

/// Match a purchase order with a user.
#[derive(Clone, Debug)]
pub struct MatchTransaction {
    pub user_id: UserId,
    pub square_id: String,
}

/// Charge a user's account without a purchase.
#[derive(Clone, Debug)]
pub struct SyntheticCharge {
    pub user_id: UserId,
    pub amount: i64,
}

/// Every request of the point of sale server.
#[derive(Clone, Debug)]
pub enum PosServerRequest {
    RegisterToken(String),
    NewUser(NewUser),
    GetUserByCardId(CardId),
    GetUserBalance(UserId),
    UpdateUser(UpdateUser),
    GetUnmachedOrders,
    MatchOrder(MatchTransaction),
    SyntheticCharge(SyntheticCharge),
    GetTransactions(UserId),
}

// Response
pub type RespRegisterToken = bool;

pub type RespNewUser = ();

/// A user found by card id.
#[derive(Clone, Debug)]
pub struct RespGetUserByCardIdInner {
    pub id: UserId,
    pub card_id: CardId,
    pub name: String,
    pub three_letter_name: String,
    pub identification: String,
}

pub type RespGetUserByCardId = Option<RespGetUserByCardIdInner>;

pub type RespGetUserBalance = i64;

pub type RespUpdateUser = ();

/// A purchase order not yet matched with a user.
#[derive(Clone, Debug)]
pub struct RespGetUnmatchedOrdersInner {
    pub id: String,
    pub time: UtcTime,
    pub coins: u64,
}

pub type RespGetUnmachedOrders = Vec<RespGetUnmatchedOrdersInner>;

pub type RespMatchOrder = ();

/// One transaction of a user's account.
#[derive(Clone, Debug)]
pub struct RespGetTransactionsTransaction {
    pub time: UtcTime,
    pub source: String,
    pub dest: String,
    pub amount: i64,
}

pub type RespSyntheticCharge = ();

pub type RespGetTransactions = Vec<RespGetTransactionsTransaction>;

} // verus!
