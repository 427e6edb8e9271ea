use replicated_log::model::SecondarySettings;
use replicated_log::settings::{receive_status, receive_step, ReceiveAction, ReceiveStage, Settings};

fn knobs(name: &str, delay_ms: u64, failing: bool) -> SecondarySettings {
    SecondarySettings { name: name.into(), delay_ms, failing }
}

#[test]
fn settings_start_blank() {
    assert_eq!(Settings::new().snapshot(), knobs("", 0, false));
}

#[test]
fn snapshot_after_apply_reads_back() {
    let mut s = Settings::new();
    s.apply(knobs("slow one", 250, false));
    assert_eq!(s.snapshot(), knobs("slow one", 250, false));
    s.apply(knobs("down", 0, true));
    assert_eq!(s.snapshot(), knobs("down", 0, true));
}

#[test]
fn receive_protocol_steps() {
    assert_eq!(receive_step(ReceiveStage::Arrived, &knobs("", 0, false)), ReceiveAction::Store);
    assert_eq!(receive_step(ReceiveStage::Arrived, &knobs("", 300, false)), ReceiveAction::Wait(300));
    assert_eq!(receive_step(ReceiveStage::Delayed, &knobs("", 300, false)), ReceiveAction::Store);
    assert_eq!(receive_step(ReceiveStage::Arrived, &knobs("", 300, true)), ReceiveAction::Reject);
    assert_eq!(receive_step(ReceiveStage::Delayed, &knobs("", 0, true)), ReceiveAction::Reject);
}

#[test]
fn receive_status_codes() {
    assert_eq!(receive_status(true), 200);
    assert_eq!(receive_status(false), 503);
}
