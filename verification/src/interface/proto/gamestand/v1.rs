use crate::interface::general::{PlayerMeta, PlayerMetaView};
use vstd::prelude::*;

verus! {

/// A payment id chosen by a game, unique within that game.
#[derive(Clone, PartialEq, Eq, PartialOrd, Ord, Hash, Debug)]
pub struct GameRelClientPaymentId(pub String);

impl View for GameRelClientPaymentId {
    type V = Seq<char>;

    open spec fn view(&self) -> Seq<char> {
        self.0@
    }
}

impl GameRelClientPaymentId {
    /// A copy with the same text.
    pub fn duplicate(&self) -> (r: GameRelClientPaymentId)
        ensures
            r@ == self@,
    {
        GameRelClientPaymentId(self.0.clone())
    }
}

/// The model of an [`AbsClientPaymentId`]: the game id and the game-relative id.
pub type PaymentKey = (Seq<char>, Seq<char>);

/// A payment id that is unique across games: the game's id and the id the
/// game chose for the payment.
#[derive(Clone, PartialEq, Eq, PartialOrd, Ord, Hash, Debug)]
pub struct AbsClientPaymentId {
    pub game_id: String,
    pub id: GameRelClientPaymentId,
}

impl View for AbsClientPaymentId {
    type V = PaymentKey;

    open spec fn view(&self) -> PaymentKey {
        (self.game_id@, self.id@)
    }
}

impl AbsClientPaymentId {
    /// A copy with the same game id and game-relative id.
    pub fn duplicate(&self) -> (r: AbsClientPaymentId)
        ensures
            r@ == self@,
    {
        AbsClientPaymentId { game_id: self.game_id.clone(), id: self.id.duplicate() }
    }

    /// Whether both ids name the same payment (same game, same game-relative id).
    pub fn same_as(&self, other: &AbsClientPaymentId) -> (r: bool)
        ensures
            r == (self@ == other@),
    {
        self.game_id == other.game_id && self.id.0 == other.id.0
    }
}

/// A request of the stand protocol, with the type of its reply.
pub trait RequestTrait: Into<Request> {
    type Response;
}

// Ask payment
/// Ask the stand for a payment under the given id: the payment already made
/// under that id if it is still held, else a new one if a card was tapped.
pub struct ReqAskPayment {
    pub client_payment_id: AbsClientPaymentId,
}

impl From<ReqAskPayment> for Request {
    fn from(value: ReqAskPayment) -> (r: Request) {
        Request::AskPayment(value)
    }
}

impl vstd::std_specs::convert::FromSpecImpl<ReqAskPayment> for Request {
    open spec fn obeys_from_spec() -> bool {
        true
    }

    open spec fn from_spec(v: ReqAskPayment) -> Request {
        Request::AskPayment(v)
    }
}

/// A payment made by a player for a game.
#[derive(Clone)]
pub struct Payment {
    pub client_payment_id: AbsClientPaymentId,
    pub player_meta: PlayerMeta,
}

/// The model of a [`Payment`].
pub struct PaymentView {
    pub client_payment_id: PaymentKey,
    pub player_meta: PlayerMetaView,
}

impl View for Payment {
    type V = PaymentView;

    open spec fn view(&self) -> PaymentView {
        PaymentView { client_payment_id: self.client_payment_id@, player_meta: self.player_meta@ }
    }
}

impl Payment {
    /// A field-by-field copy.
    pub fn duplicate(&self) -> (r: Payment)
        ensures
            r@ == self@,
    {
        Payment {
            client_payment_id: self.client_payment_id.duplicate(),
            player_meta: self.player_meta.duplicate(),
        }
    }
}

/// Reply to [`ReqAskPayment`]: the payment, or `None` when there is none yet.
pub struct RespAskPayment {
    pub payment: Option<Payment>,
}

impl RequestTrait for ReqAskPayment {
    type Response = RespAskPayment;
}

// Release payment
/// Give back a payment that the game will not use.
pub struct ReqReleasePayment {
    pub client_payment_id: AbsClientPaymentId,
}

impl From<ReqReleasePayment> for Request {
    fn from(value: ReqReleasePayment) -> (r: Request) {
        Request::ReleasePayment(value)
    }
}

impl vstd::std_specs::convert::FromSpecImpl<ReqReleasePayment> for Request {
    open spec fn obeys_from_spec() -> bool {
        true
    }

    open spec fn from_spec(v: ReqReleasePayment) -> Request {
        Request::ReleasePayment(v)
    }
}

impl RequestTrait for ReqReleasePayment {
    type Response = ();
}

// Commit/clear
/// Commit the listed payments and release every other payment not yet
/// committed.
pub struct ReqCommitClearPayments {
    pub commit_payment_ids: Vec<AbsClientPaymentId>,
}

impl From<ReqCommitClearPayments> for Request {
    fn from(value: ReqCommitClearPayments) -> (r: Request) {
        Request::CommitClearPayments(value)
    }
}

impl vstd::std_specs::convert::FromSpecImpl<ReqCommitClearPayments> for Request {
    open spec fn obeys_from_spec() -> bool {
        true
    }

    open spec fn from_spec(v: ReqCommitClearPayments) -> Request {
        Request::CommitClearPayments(v)
    }
}

impl RequestTrait for ReqCommitClearPayments {
    type Response = ();
}

// Combined
/// Every request of version 1 of the stand protocol.
pub enum Request {
    AskPayment(ReqAskPayment),
    ReleasePayment(ReqReleasePayment),
    CommitClearPayments(ReqCommitClearPayments),
}

/// One player of a game: display settings and the controller they use.
#[derive(Clone)]
pub struct PlayerConfig {
    pub meta: PlayerMeta,
    pub controller: usize,
}

/// What a game is started with.
pub struct GameStartupConfig {
    pub players: Vec<PlayerConfig>,
}

} // verus!
