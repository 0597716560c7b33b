use gammon::interface::general::PlayerMeta;
use gammon::interface::proto::gamestand::v1::{
    AbsClientPaymentId, GameRelClientPaymentId, ReqAskPayment, ReqCommitClearPayments,
    ReqReleasePayment, Request,
};
use gammon::interface::proto::gamestand::{GameStandReq, Response, ResponseErr, STAND_GAME_SOCKET};
use gammon::interface::transaction::{self, v1, Location};
use gammon::text::i64_to_decimal;

fn pid(game: &str, id: &str) -> AbsClientPaymentId {
    AbsClientPaymentId { game_id: game.to_string(), id: GameRelClientPaymentId(id.to_string()) }
}

#[test]
fn into_res_keeps_success_value() {
    let r: Response<u32> = Response::Success(7);
    assert_eq!(r.into_res().unwrap(), 7);
}

#[test]
fn into_res_wraps_failure_text() {
    let r: Response<u32> = Response::Failure("no".to_string());
    let e = r.into_res().unwrap_err();
    assert_eq!(e.0, "no");
    assert_eq!(e.to_string(), "no");
}

#[test]
fn response_err_text_is_its_message() {
    let e = ResponseErr("stand offline".to_string());
    assert_eq!(e.to_string(), "stand offline");
}

#[test]
fn requests_convert_into_protocol_request() {
    let r: Request = ReqAskPayment { client_payment_id: pid("g", "1") }.into();
    assert!(matches!(r, Request::AskPayment(ref q) if q.client_payment_id == pid("g", "1")));
    let r: Request = ReqReleasePayment { client_payment_id: pid("g", "2") }.into();
    assert!(matches!(r, Request::ReleasePayment(ref q) if q.client_payment_id == pid("g", "2")));
    let r: Request = ReqCommitClearPayments { commit_payment_ids: vec![pid("g", "3")] }.into();
    assert!(matches!(r, Request::CommitClearPayments(ref q) if q.commit_payment_ids.len() == 1));
    let g = GameStandReq::from(r);
    assert!(matches!(g, GameStandReq::V1(Request::CommitClearPayments(_))));
}

#[test]
fn socket_address() {
    assert_eq!(STAND_GAME_SOCKET, "127.0.0.1:42243");
}

#[test]
fn payment_ids_compare_by_game_and_id() {
    assert!(pid("a", "1").same_as(&pid("a", "1")));
    assert!(!pid("a", "1").same_as(&pid("b", "1")));
    assert!(!pid("a", "1").same_as(&pid("a", "2")));
    assert_eq!(pid("a", "1").duplicate(), pid("a", "1"));
}

#[test]
fn player_meta_duplicate_copies_every_field() {
    let m = PlayerMeta {
        name: "Ann".to_string(),
        three_letter_name: "ann".to_string(),
        color_bits: [1, 2, 3],
    };
    let d = m.duplicate();
    assert_eq!(d.name, "Ann");
    assert_eq!(d.three_letter_name, "ann");
    assert_eq!(d.color_bits, [1, 2, 3]);
}

#[test]
fn account_texts() {
    assert_eq!(v1::Account::AdminCoins.to_string(), "Admin");
    assert_eq!(v1::Account::GameCoins("pong".to_string()).to_string(), "Game (pong)");
    assert_eq!(v1::Account::UserCoins(42).to_string(), "User (42)");
    assert_eq!(v1::Account::UserCoins(-7).to_string(), "User (-7)");
    assert_eq!(v1::Account::SquareCoins.to_string(), "Purchase");
    assert_eq!(transaction::Account::V1(v1::Account::UserCoins(0)).to_string(), "User (0)");
    assert_eq!(transaction::Account::V1(v1::Account::AdminCoins).to_string(), "Admin");
}

#[test]
fn decimal_text_matches_display() {
    for n in [0i64, 1, 9, 10, 99, 100, 12345, -1, -10, -987654321, i64::MAX, i64::MIN] {
        assert_eq!(i64_to_decimal(n), n.to_string());
    }
}

#[test]
fn location_sql_round_trip() {
    let l = Location("hall".to_string());
    let text = Location::to_sql(&l);
    assert_eq!(text, "hall");
    assert_eq!(Location::from_sql(text), Ok(l));
}

#[test]
fn external_ids_compare() {
    let a = v1::ExternalId::Stand { stand: "s1".to_string(), client_id: pid("g", "1") };
    let b = v1::ExternalId::Square("sq".to_string());
    assert_eq!(a.clone(), a);
    assert_ne!(transaction::ExternalId::V1(a), transaction::ExternalId::V1(b));
}
