use gammon::interface::proto::gamestand::v1::{
    AbsClientPaymentId, GameRelClientPaymentId, ReqAskPayment, ReqCommitClearPayments,
    ReqReleasePayment, Request,
};
use gammon::interface::proto::gamestand::GameStandReq;
use gammon::stand_sim::machine::{new_payment, StandReply, StandSim};
use gammon::stand_sim::notes::SimNote;

fn pid(game: &str, id: &str) -> AbsClientPaymentId {
    AbsClientPaymentId { game_id: game.to_string(), id: GameRelClientPaymentId(id.to_string()) }
}

fn ask(sim: &mut StandSim, id: &AbsClientPaymentId, now: u64) -> (Option<AbsClientPaymentId>, Vec<SimNote>) {
    let (resp, notes) = sim.ask_payment(ReqAskPayment { client_payment_id: id.clone() }, now);
    (resp.payment.map(|p| p.client_payment_id), notes)
}

#[test]
fn ask_without_tap_turns_reader_on_and_gives_nothing() {
    let mut sim = StandSim::new();
    let (p, notes) = ask(&mut sim, &pid("g", "1"), 5);
    assert!(p.is_none());
    assert_eq!(notes.len(), 1);
    assert!(matches!(notes[0], SimNote::ReaderTurningOn));
    let (p, notes) = ask(&mut sim, &pid("g", "1"), 6);
    assert!(p.is_none());
    assert!(notes.is_empty());
}

#[test]
fn tap_while_reader_off_is_ignored() {
    let mut sim = StandSim::new();
    let notes = sim.tap();
    assert_eq!(notes.len(), 1);
    assert!(matches!(notes[0], SimNote::ReaderNotOn));
    let (p, _) = ask(&mut sim, &pid("g", "1"), 1);
    assert!(p.is_none());
}

#[test]
fn tap_pays_for_one_payment_and_retry_gets_same_payment() {
    let mut sim = StandSim::new();
    ask(&mut sim, &pid("g", "1"), 1);
    assert!(sim.tap().is_empty());
    let (resp, notes) = sim.ask_payment(ReqAskPayment { client_payment_id: pid("g", "1") }, 2);
    let p = resp.payment.expect("payment");
    assert_eq!(p.client_payment_id, pid("g", "1"));
    assert_eq!(p.player_meta.name, "名無し");
    assert_eq!(p.player_meta.three_letter_name, "nns");
    assert_eq!(p.player_meta.color_bits, [1.0f32.to_bits(), 0.0f32.to_bits(), 0.0f32.to_bits()]);
    assert_eq!(notes.len(), 1);
    assert!(matches!(notes[0], SimNote::AskNewPayment));
    // Retry: same payment, no tap used.
    let (p2, notes) = ask(&mut sim, &pid("g", "1"), 3);
    assert_eq!(p2, Some(pid("g", "1")));
    assert!(matches!(notes[0], SimNote::AskMatchesPrevious));
    // Another id: the tap is used up.
    let (p3, notes) = ask(&mut sim, &pid("g", "2"), 4);
    assert!(p3.is_none());
    assert!(notes.is_empty());
}

#[test]
fn release_forgets_payment() {
    let mut sim = StandSim::new();
    ask(&mut sim, &pid("g", "1"), 1);
    sim.tap();
    ask(&mut sim, &pid("g", "1"), 2);
    let notes = sim.release_payment(ReqReleasePayment { client_payment_id: pid("g", "1") });
    assert!(matches!(notes[..], [SimNote::ReleaseFound]));
    let (p, _) = ask(&mut sim, &pid("g", "1"), 3);
    assert!(p.is_none());
    let notes = sim.release_payment(ReqReleasePayment { client_payment_id: pid("g", "1") });
    assert!(matches!(notes[..], [SimNote::ReleaseUnknown]));
}

#[test]
fn commit_clear_commits_listed_and_releases_others() {
    let mut sim = StandSim::new();
    ask(&mut sim, &pid("g", "a"), 1);
    sim.tap();
    ask(&mut sim, &pid("g", "a"), 2);
    sim.tap();
    ask(&mut sim, &pid("g", "b"), 3);
    let notes = sim.commit_clear_payments(ReqCommitClearPayments {
        commit_payment_ids: vec![pid("g", "a"), pid("g", "x")],
    });
    assert_eq!(notes.len(), 2);
    assert!(matches!(&notes[0], SimNote::CommitUnknown(id) if *id == pid("g", "x")));
    assert!(matches!(&notes[1], SimNote::ReleasingUncommitted(id) if *id == pid("g", "b")));
    // "b" was released: asking for it again finds no live payment and no tap.
    let (p, _) = ask(&mut sim, &pid("g", "b"), 4);
    assert!(p.is_none());
    // "a" is committed and still held.
    let (p, _) = ask(&mut sim, &pid("g", "a"), 5);
    assert_eq!(p, Some(pid("g", "a")));
    // Committing "a" again and "b" reports both errors.
    let notes = sim.commit_clear_payments(ReqCommitClearPayments {
        commit_payment_ids: vec![pid("g", "a"), pid("g", "b")],
    });
    assert_eq!(notes.len(), 2);
    assert!(matches!(&notes[0], SimNote::CommitAlreadyCommitted(id) if *id == pid("g", "a")));
    assert!(matches!(&notes[1], SimNote::CommitReleased(id) if *id == pid("g", "b")));
}

#[test]
fn released_id_gets_new_payment_after_new_tap() {
    let mut sim = StandSim::new();
    ask(&mut sim, &pid("g", "a"), 1);
    sim.tap();
    ask(&mut sim, &pid("g", "a"), 2);
    sim.commit_clear_payments(ReqCommitClearPayments { commit_payment_ids: vec![] });
    sim.tap();
    let (p, notes) = ask(&mut sim, &pid("g", "a"), 3);
    assert_eq!(p, Some(pid("g", "a")));
    assert!(matches!(notes[..], [SimNote::AskNewPayment]));
}

#[test]
fn handle_dispatches_by_request() {
    let mut sim = StandSim::new();
    let (reply, notes) = sim.handle(
        GameStandReq::V1(Request::AskPayment(ReqAskPayment { client_payment_id: pid("g", "1") })),
        1,
    );
    assert!(matches!(reply, StandReply::AskPayment(ref r) if r.payment.is_none()));
    assert!(matches!(notes[..], [SimNote::ReaderTurningOn]));
    let (reply, notes) = sim.handle(
        GameStandReq::V1(Request::ReleasePayment(ReqReleasePayment { client_payment_id: pid("g", "1") })),
        2,
    );
    assert!(matches!(reply, StandReply::Unit));
    assert!(matches!(notes[..], [SimNote::ReleaseUnknown]));
    let (reply, notes) = sim.handle(
        GameStandReq::V1(Request::CommitClearPayments(ReqCommitClearPayments {
            commit_payment_ids: vec![],
        })),
        3,
    );
    assert!(matches!(reply, StandReply::Unit));
    assert!(notes.is_empty());
}

#[test]
fn tick_switches_reader_off_only_when_start_lies_ahead() {
    let mut sim = StandSim::new();
    ask(&mut sim, &pid("g", "1"), 1_000);
    sim.tap();
    // A later clock never switches the reader off.
    assert!(sim.tick(1_000_000_000_000).is_empty());
    let (p, _) = ask(&mut sim, &pid("g", "1"), 10_000_000_000);
    assert_eq!(p, Some(pid("g", "1")));
    // A start time more than two seconds ahead of the tick does.
    sim.tap();
    let notes = sim.tick(10_000_000_000 - 2_000_000_001);
    assert!(matches!(notes[..], [SimNote::ReaderDeactivating]));
    // The pending tap was dropped and the reader is off.
    assert!(matches!(sim.tap()[..], [SimNote::ReaderNotOn]));
    // Exactly two seconds ahead does not.
    ask(&mut sim, &pid("g", "2"), 5_000_000_000);
    assert!(sim.tick(3_000_000_000).is_empty());
}

#[test]
fn new_payment_is_made_for_its_id() {
    let p = new_payment(&pid("g", "9"));
    assert_eq!(p.client_payment_id, pid("g", "9"));
    assert_eq!(p.player_meta.name, "名無し");
}

#[test]
fn retry_after_other_events_gets_same_payment_without_new_tap() {
    let mut sim = StandSim::new();
    ask(&mut sim, &pid("g", "1"), 1);
    sim.tap();
    let (p, _) = ask(&mut sim, &pid("g", "1"), 2);
    assert_eq!(p, Some(pid("g", "1")));
    // In between: a tap, a tick, a request and a release for other ids.
    sim.tap();
    sim.tick(3);
    let (p2, notes) = ask(&mut sim, &pid("g", "2"), 4);
    assert_eq!(p2, Some(pid("g", "2")));
    assert!(matches!(notes[..], [SimNote::AskNewPayment]));
    sim.release_payment(ReqReleasePayment { client_payment_id: pid("g", "2") });
    sim.tap();
    // The retry gets the held payment and leaves the pending tap in place.
    let (p, notes) = ask(&mut sim, &pid("g", "1"), 5);
    assert_eq!(p, Some(pid("g", "1")));
    assert!(matches!(notes[..], [SimNote::AskMatchesPrevious]));
    let (p3, notes) = ask(&mut sim, &pid("g", "3"), 6);
    assert_eq!(p3, Some(pid("g", "3")));
    assert!(matches!(notes[..], [SimNote::AskNewPayment]));
}
