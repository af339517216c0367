use ai_task::approval::{approval_gone, verdict_from_row, wait_step, Verdict, WaitStep};

#[test]
fn a_timeout_is_reported_as_a_refusal_not_as_an_error() {
    assert!(!Verdict::TimedOut.is_approved());
    assert!(Verdict::TimedOut.describe().contains("拒绝"));
}

#[test]
fn a_denial_carries_who_and_why_so_the_model_can_adjust() {
    let verdict = Verdict::Denied {
        by: Some("zzh".into()),
        reason: Some("这台是主库，别动".into()),
    };
    let text = verdict.describe();
    assert!(text.contains("zzh"), "{text}");
    assert!(text.contains("主库"), "{text}");
}

#[test]
fn a_denial_without_a_reason_still_reads_as_a_sentence() {
    let text = Verdict::Denied {
        by: None,
        reason: Some("   ".into()),
    }
    .describe();
    assert!(!text.contains("：  "), "a blank reason must not be spliced in: {text}");
    assert!(text.contains("拒绝"), "{text}");
}

#[test]
fn verdict_sentences_are_exact() {
    assert_eq!(
        Verdict::Approved { by: Some("zzh".into()), reason: None }.describe(),
        "已由 zzh 批准"
    );
    assert_eq!(Verdict::Approved { by: None, reason: None }.describe(), "已批准");
    assert_eq!(
        Verdict::Denied { by: None, reason: Some("别动".into()) }.describe(),
        "审批人 拒绝：别动"
    );
    assert_eq!(Verdict::Denied { by: None, reason: None }.describe(), "审批人 拒绝了这次操作");
    assert_eq!(Verdict::Cancelled.describe(), "run 已取消，审批作废");
    assert!(Verdict::Approved { by: None, reason: None }.is_approved());
    assert!(!Verdict::Cancelled.is_approved());
}

#[test]
fn the_decision_record_keeps_the_person_and_the_reason() {
    let (ok, by, reason) =
        Verdict::Denied { by: Some("a".into()), reason: Some("b".into()) }.decision_record();
    assert!(!ok);
    assert_eq!(by.as_deref(), Some("a"));
    assert_eq!(reason.as_deref(), Some("b"));
    let (ok, by, reason) = Verdict::TimedOut.decision_record();
    assert!(!ok);
    assert_eq!(by, None);
    assert_eq!(reason.as_deref(), Some("等待审批超时，按拒绝处理"));
}

#[test]
fn a_vanished_approval_is_a_refusal() {
    let v = approval_gone();
    assert!(!v.is_approved());
    assert_eq!(v.describe(), "审批人 拒绝：审批记录已不存在");
    assert!(verdict_from_row(true, None, Some("x".into())).is_approved());
}

#[test]
fn waiting_ends_with_a_decision_or_the_deadline() {
    assert!(matches!(wait_step(None, 10, 20), WaitStep::Wait));
    assert!(matches!(wait_step(None, 20, 20), WaitStep::Expired));
    match wait_step(Some((true, Some("ok".into()), Some("zzh".into()))), 30, 20) {
        WaitStep::Decided(v) => assert_eq!(v.describe(), "已由 zzh 批准"),
        _ => panic!("a decision at the deadline still counts"),
    }
}
