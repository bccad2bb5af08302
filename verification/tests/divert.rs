use openlogi_gestures::divert::{
    apply_diverts_transactional, plan_reprog_diverts, ArmProgress, ArmedDivert, DivertBackend,
};
use openlogi_gestures::wire::CtrlIdInfo;

#[derive(Default)]
struct MockDivert {
    /// CIDs currently diverted (true = raw_xy).
    live: std::collections::BTreeMap<u16, bool>,
    /// Divert calls that should fail.
    fail_on: std::collections::BTreeSet<u16>,
    /// Ordered log of operations for assertions.
    ops: Vec<&'static str>,
}

impl DivertBackend for MockDivert {
    fn divert(&mut self, cid: u16, raw_xy: bool) -> Result<(), String> {
        if self.fail_on.contains(&cid) {
            self.ops.push("fail");
            return Err(format!("inject fail cid={cid:#06x}"));
        }
        self.live.insert(cid, raw_xy);
        self.ops.push("divert");
        Ok(())
    }

    fn restore(&mut self, cid: u16) -> Result<(), String> {
        self.live.remove(&cid);
        self.ops.push("restore");
        Ok(())
    }
}

#[test]
fn arm_transaction_succeeds_records_all_steps() {
    let mut backend = MockDivert::default();
    let steps = [(0x00c3, true), (0x00c4, true)];
    let progress = apply_diverts_transactional(&mut backend, &steps).expect("arm");
    assert_eq!(progress.armed.len(), 2);
    assert_eq!(backend.live.len(), 2);
    assert_eq!(backend.live.get(&0x00c3), Some(&true));
    assert_eq!(backend.live.get(&0x00c4), Some(&true));
}

#[test]
fn arm_transaction_rolls_back_prior_on_second_fail() {
    let mut backend = MockDivert {
        fail_on: [0x00c4].into_iter().collect(),
        ..MockDivert::default()
    };
    let steps = [(0x00c3, true), (0x00c4, true)];
    let err = apply_diverts_transactional(&mut backend, &steps).expect_err("must fail");
    assert!(err.contains("00c4") || err.contains("c4"), "got: {err}");
    assert!(
        backend.live.is_empty(),
        "prior divert must be restored: {:?}",
        backend.live
    );
    assert_eq!(
        backend.ops,
        ["divert", "fail", "restore"],
        "GB divert, DPI fail, GB restore"
    );
}

#[test]
fn arm_transaction_rolls_back_two_priors_on_third_fail() {
    let mut backend = MockDivert {
        fail_on: [0x00c5].into_iter().collect(),
        ..MockDivert::default()
    };
    let steps = [(0x00c3, true), (0x00c4, false), (0x00c5, true)];
    let err = apply_diverts_transactional(&mut backend, &steps).expect_err("must fail");
    assert!(err.contains("c5"), "got: {err}");
    assert!(backend.live.is_empty());
    // Rollback is reverse order: c4 then c3.
    assert_eq!(
        backend.ops,
        ["divert", "divert", "fail", "restore", "restore"]
    );
}

#[test]
fn arm_progress_rollback_order_is_lifo() {
    let mut p = ArmProgress::default();
    p.record(1, true);
    p.record(2, false);
    p.record(3, true);
    let order: Vec<u16> = p.rollback_order().iter().map(|d| d.cid).collect();
    assert_eq!(order, vec![3, 2, 1]);
    let armed: Vec<u16> = p.armed.iter().map(|d| d.cid).collect();
    assert_eq!(armed, vec![1, 2, 3]);
}

/// A device on which restoring fails too.
#[derive(Default)]
struct Stubborn {
    calls: Vec<String>,
}

impl DivertBackend for Stubborn {
    fn divert(&mut self, cid: u16, _raw_xy: bool) -> Result<(), String> {
        self.calls.push(format!("divert {cid}"));
        if cid == 3 {
            Err("no".to_string())
        } else {
            Ok(())
        }
    }

    fn restore(&mut self, cid: u16) -> Result<(), String> {
        self.calls.push(format!("restore {cid}"));
        Err("stuck".to_string())
    }
}

#[test]
fn a_failed_restore_does_not_stop_the_rollback() {
    let mut backend = Stubborn::default();
    let steps = [(1, true), (2, true), (3, true), (4, true)];
    assert_eq!(
        apply_diverts_transactional(&mut backend, &steps),
        Err("no".to_string())
    );
    assert_eq!(
        backend.calls,
        ["divert 1", "divert 2", "divert 3", "restore 2", "restore 1"]
    );
}

#[test]
fn no_steps_arm_nothing() {
    let mut backend = Stubborn::default();
    assert_eq!(
        apply_diverts_transactional(&mut backend, &[]),
        Ok(ArmProgress::default())
    );
    assert!(backend.calls.is_empty());
}

#[test]
fn successful_steps_are_recorded_in_order() {
    let mut backend = Stubborn::default();
    let progress = apply_diverts_transactional(&mut backend, &[(9, false), (8, true)]);
    assert_eq!(
        progress.map(|p| p.armed),
        Ok(vec![
            ArmedDivert {
                cid: 9,
                raw_xy: false
            },
            ArmedDivert {
                cid: 8,
                raw_xy: true
            },
        ])
    );
}

fn row(cid: u16, divertable: bool, raw_xy: bool) -> CtrlIdInfo {
    CtrlIdInfo {
        cid,
        divertable,
        raw_xy,
    }
}

#[test]
fn the_plan_starts_with_the_gesture_button() {
    let controls = [
        row(0x00fd, true, true),
        row(0x00c3, true, true),
        row(0x00c4, true, false),
        row(0x0050, true, true),
    ];
    assert_eq!(
        plan_reprog_diverts(&controls, true, true),
        vec![(0x00c3, true), (0x00c4, false), (0x00fd, true)]
    );
    assert_eq!(
        plan_reprog_diverts(&controls, false, false),
        vec![(0x00c4, false), (0x00fd, false)]
    );
}

#[test]
fn the_plan_leaves_out_what_cannot_be_diverted() {
    let controls = [row(0x00c3, true, false), row(0x00ed, false, true)];
    assert!(plan_reprog_diverts(&controls, true, true).is_empty());
    assert!(plan_reprog_diverts(&[], true, true).is_empty());
}

#[test]
fn the_dpi_mode_changes_only_the_raw_movement_flag() {
    let controls = [
        row(0x00fd, true, true),
        row(0x00c4, true, true),
        row(0x00c4, true, true),
        row(0x00ed, true, false),
    ];
    let gesturing = plan_reprog_diverts(&controls, true, true);
    let plain = plan_reprog_diverts(&controls, true, false);
    assert_eq!(gesturing, vec![(0x00c4, true), (0x00ed, false), (0x00fd, true)]);
    assert_eq!(plain, vec![(0x00c4, false), (0x00ed, false), (0x00fd, false)]);
}

#[test]
fn the_first_row_of_a_control_counts() {
    let controls = [row(0x00c4, true, false), row(0x00c4, false, true)];
    assert_eq!(
        plan_reprog_diverts(&controls, true, true),
        vec![(0x00c4, false)]
    );
}
