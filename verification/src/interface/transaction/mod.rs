use vstd::prelude::*;
use v1::shows_account;

pub mod v1;

pub use v1 as latest;

verus! {

/// A ledger account, by format version.
#[derive(Clone, Debug, PartialEq, Eq, PartialOrd, Ord)]
pub enum Account {
    V1(v1::Account),
}

impl Account {
    /// The text shown for the account: that of the versioned account.
    pub open spec fn display_text(&self) -> Seq<char> {
        match self {
            Account::V1(v) => v.display_text(),
        }
    }

    /// The text shown for the account.
    pub fn to_string(&self) -> (s: String)
        ensures
            s@ == self.display_text(),
            match self {
                Account::V1(v) => shows_account(*v, s@),
            },
    {
        proof {
            match self {
                Account::V1(v) => Account::law_versioned_text(*v),
            }
        }
        match self {
            Account::V1(v) => v.to_string(),
        }
    }
}

impl Account {
    /// A versioned account shows exactly the text of the account it wraps.
    pub proof fn law_versioned_text(v: v1::Account)
        ensures
            Account::V1(v).display_text() == v.display_text(),
            shows_account(v, Account::V1(v).display_text()),
    {
        v1::law_display_text_shows(v);
    }
}

/// A place, by name.
#[derive(Clone, Debug, PartialEq, Eq, PartialOrd, Ord, Hash)]
pub struct Location(pub String);

impl Location {
    /// The database text of a location: its name.
    #[verifier::allow_in_spec]
    pub fn to_sql(value: &Location) -> String
        returns
            value.0,
    {
        value.0.clone()
    }

    /// The location named by a database text; every text names one.
    #[verifier::allow_in_spec]
    pub fn from_sql(value: String) -> Result<Location, String>
        returns
            Ok::<Location, String>(Location(value)),
    {
        Ok(Location(value))
    }

    /// Reading back the database text of a location gives the location.
    pub proof fn law_sql_round_trip(value: Location)
        ensures
            Location::from_sql(Location::to_sql(&value)) == Ok::<Location, String>(value),
    {
    }
}

/// Where a ledger entry came from outside the ledger, by format version.
#[derive(Clone, Debug, PartialEq, Eq, PartialOrd, Ord)]
pub enum ExternalId {
    V1(v1::ExternalId),
}

} // verus!
