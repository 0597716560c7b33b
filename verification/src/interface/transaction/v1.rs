use crate::interface::proto::gamestand::v1::AbsClientPaymentId;
use crate::text::{decimal_int, i64_to_decimal, law_decimal_reads_back, reads_as};
use vstd::prelude::*;

verus! {

/// An account of the coin ledger.
#[derive(Clone, Debug, PartialEq, Eq, PartialOrd, Ord)]
pub enum Account {
    // Added via admin commands
    AdminCoins,
    GameCoins(String),
    UserCoins(i64),
    SquareCoins,
}

impl Account {
    /// The text shown for the account: `Admin`, `Game (<game>)`,
    /// `User (<decimal user id>)` or `Purchase`.
    pub open spec fn display_text(&self) -> Seq<char> {
        match self {
            Account::AdminCoins => "Admin"@,
            Account::GameCoins(game) => "Game ("@ + game@ + ")"@,
            Account::UserCoins(user) => "User ("@ + decimal_int(*user as int) + ")"@,
            Account::SquareCoins => "Purchase"@,
        }
    }

    /// The text shown for the account.
    pub fn to_string(&self) -> (s: String)
        ensures
            s@ == self.display_text(),
            shows_account(*self, s@),
    {
        proof {
            law_display_text_shows(*self);
        }
        match self {
            Account::AdminCoins => String::from_str("Admin"),
            Account::GameCoins(game) => {
                let mut s = String::from_str("Game (");
                s.append(game.as_str());
                s.append(")");
                s
            },
            Account::UserCoins(user) => {
                let mut s = String::from_str("User (");
                let digits = i64_to_decimal(*user);
                s.append(digits.as_str());
                s.append(")");
                s
            },
            Account::SquareCoins => String::from_str("Purchase"),
        }
    }
}

/// `t` is the text of account `a`, character by character: `Admin`,
/// `Game (` + the whole game name + `)`, `User (` + a decimal text that reads
/// back as the user id + `)`, or `Purchase`.
pub open spec fn shows_account(a: Account, t: Seq<char>) -> bool {
    match a {
        Account::AdminCoins => t == seq!['A', 'd', 'm', 'i', 'n'],
        Account::GameCoins(game) => t == seq!['G', 'a', 'm', 'e', ' ', '('] + game@ + seq![')'],
        Account::UserCoins(user) => {
            &&& t.len() >= 7
            &&& t.subrange(0, 6) == seq!['U', 's', 'e', 'r', ' ', '(']
            &&& t.last() == ')'
            &&& reads_as(t.subrange(6, t.len() - 1), user as int)
        },
        Account::SquareCoins => t == seq!['P', 'u', 'r', 'c', 'h', 'a', 's', 'e'],
    }
}

/// Every account's text is the one [`shows_account`] describes: the game
/// name in full, the user id as decimal text that reads back as the id.
pub proof fn law_display_text_shows(a: Account)
    ensures
        shows_account(a, a.display_text()),
{
    reveal_strlit("Admin");
    reveal_strlit("Game (");
    reveal_strlit(")");
    reveal_strlit("User (");
    reveal_strlit("Purchase");
    match a {
        Account::AdminCoins => {
            assert("Admin"@ =~= seq!['A', 'd', 'm', 'i', 'n']);
        },
        Account::GameCoins(game) => {
            assert("Game ("@ =~= seq!['G', 'a', 'm', 'e', ' ', '(']);
            assert(")"@ =~= seq![')']);
        },
        Account::UserCoins(user) => {
            let d = decimal_int(user as int);
            let t = a.display_text();
            law_decimal_reads_back(user as int);
            assert("User ("@ =~= seq!['U', 's', 'e', 'r', ' ', '(']);
            assert(")"@ =~= seq![')']);
            assert(t == seq!['U', 's', 'e', 'r', ' ', '('] + d + seq![')']);
            assert(t.subrange(0, 6) =~= seq!['U', 's', 'e', 'r', ' ', '(']);
            assert(t.subrange(6, t.len() - 1) =~= d);
        },
        Account::SquareCoins => {
            assert("Purchase"@ =~= seq!['P', 'u', 'r', 'c', 'h', 'a', 's', 'e']);
        },
    }
}

/// Where a ledger entry came from outside the ledger.
#[derive(Clone, Debug, PartialEq, Eq, PartialOrd, Ord)]
pub enum ExternalId {
    Stand { stand: String, client_id: AbsClientPaymentId },
    Square(String),
}

} // verus!
