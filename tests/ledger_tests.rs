use vine_watcher::ledger::{Ledger, Status};
use vine_watcher::pipeline::{
    needs_upload, outcome_status, plan_destination, settle_destination, Action, Role, Unit,
};

fn s(x: &str) -> String {
    x.to_string()
}

fn unit(fp: &str, rel: &str, role: Role) -> Unit {
    Unit { fingerprint: s(fp), size: 5, rel_path: s(rel), role }
}

#[test]
fn empty_ledger_reports_nothing_done() {
    let l = Ledger::new();
    assert_eq!(l.len(), 0);
    assert!(!l.is_done(&s("ab"), &s("https://a")));
    assert!(l.get(&s("ab"), &s("https://a")).is_none());
}

#[test]
fn upsert_then_is_done() {
    let mut l = Ledger::new();
    l.upsert(&s("ab"), 3, &s("Public/x"), false, &s("https://a"), Status::Done, 100);
    assert!(l.is_done(&s("ab"), &s("https://a")));
    assert!(!l.is_done(&s("ab"), &s("https://b")));
    assert!(!l.is_done(&s("cd"), &s("https://a")));
}

#[test]
fn upsert_keeps_creation_time_and_overwrites_fields() {
    let mut l = Ledger::new();
    l.upsert(&s("ab"), 3, &s("Public/x"), false, &s("https://a"), Status::Failed, 100);
    l.upsert(&s("ab"), 4, &s("Public/y"), true, &s("https://a"), Status::Done, 200);
    assert_eq!(l.len(), 1);
    let r = l.get(&s("ab"), &s("https://a")).unwrap();
    assert_eq!(r.created_at, 100);
    assert_eq!(r.size, 4);
    assert_eq!(r.rel_path, "Public/y");
    assert!(r.is_private);
    assert_eq!(r.status, Status::Done);
}

#[test]
fn pending_and_failed_are_not_done() {
    let mut l = Ledger::new();
    l.upsert(&s("ab"), 3, &s("p"), false, &s("https://a"), Status::Pending, 1);
    assert!(!l.is_done(&s("ab"), &s("https://a")));
    l.upsert(&s("ab"), 3, &s("p"), false, &s("https://a"), Status::Failed, 2);
    assert!(!l.is_done(&s("ab"), &s("https://a")));
}

#[test]
fn status_text() {
    assert_eq!(Status::Pending.as_str(), "pending");
    assert_eq!(Status::Done.as_str(), "done");
    assert_eq!(Status::Failed.as_str(), "failed");
}

#[test]
fn record_attempt_never_undoes_done() {
    let mut l = Ledger::new();
    l.record_attempt(&s("ab"), 3, &s("p"), false, &s("https://a"), Status::Done, 10);
    l.record_attempt(&s("ab"), 9, &s("q"), false, &s("https://a"), Status::Failed, 20);
    let r = l.get(&s("ab"), &s("https://a")).unwrap();
    assert_eq!(r.status, Status::Done);
    assert_eq!(r.size, 3);
    assert_eq!(r.rel_path, "p");
}

#[test]
fn done_is_never_reattempted() {
    let mut l = Ledger::new();
    let u = unit("ab", "Public/x", Role::Public);
    let d = s("https://a");
    let a = plan_destination(&l, &u, &d, true);
    assert_eq!(a, Action::Upload { encrypt: false });
    settle_destination(&mut l, &u, &d, a, true, 5);
    assert!(l.is_done(&s("ab"), &d));
    assert_eq!(plan_destination(&l, &u, &d, true), Action::Skip);
    settle_destination(&mut l, &u, &d, Action::Skip, false, 6);
    assert_eq!(l.get(&s("ab"), &d).unwrap().status, Status::Done);
}

#[test]
fn done_for_all_requires_every_destination() {
    let mut l = Ledger::new();
    let fp = s("ab");
    let mut dests = vec![s("https://a"), s("https://b")];
    assert!(!l.is_done_for_all(&fp, &dests));
    l.upsert(&fp, 1, &s("p"), false, &s("https://a"), Status::Done, 1);
    assert!(!l.is_done_for_all(&fp, &dests));
    l.upsert(&fp, 1, &s("p"), false, &s("https://b"), Status::Done, 1);
    assert!(l.is_done_for_all(&fp, &dests));
    dests.push(s("https://c"));
    assert!(!l.is_done_for_all(&fp, &dests));
    l.upsert(&fp, 1, &s("p"), false, &s("https://c"), Status::Done, 1);
    assert!(l.is_done_for_all(&fp, &dests));
}

#[test]
fn done_for_all_of_no_destinations_holds() {
    let l = Ledger::new();
    assert!(l.is_done_for_all(&s("ab"), &vec![]));
}

#[test]
fn identical_content_at_two_paths_uploads_once_per_destination() {
    let mut l = Ledger::new();
    let dests = vec![s("https://a"), s("https://b")];
    let first = unit("ff", "Public/one.txt", Role::Public);
    let second = unit("ff", "Public/two.txt", Role::Public);
    let mut uploads = 0;
    for u in [&first, &second] {
        if !needs_upload(&l, u, &dests) {
            continue;
        }
        for d in &dests {
            let a = plan_destination(&l, u, d, true);
            if let Action::Upload { .. } = a {
                uploads += 1;
            }
            settle_destination(&mut l, u, d, a, true, 7);
        }
    }
    assert_eq!(uploads, 2);
    assert_eq!(l.len(), 2);
    assert!(l.is_done(&s("ff"), &s("https://a")));
    assert!(l.is_done(&s("ff"), &s("https://b")));
}

#[test]
fn private_without_key_is_failed_without_upload() {
    let mut l = Ledger::new();
    let u = unit("ee", "Private/secret.txt", Role::Private);
    let d = s("https://a");
    let a = plan_destination(&l, &u, &d, false);
    assert_eq!(a, Action::FailNoKey);
    assert_eq!(outcome_status(a, true), Some(Status::Failed));
    settle_destination(&mut l, &u, &d, a, true, 3);
    let r = l.get(&s("ee"), &d).unwrap();
    assert_eq!(r.status, Status::Failed);
    assert!(r.is_private);
}

#[test]
fn private_with_key_encrypts() {
    let l = Ledger::new();
    let u = unit("ee", "Private/secret.txt", Role::Private);
    assert_eq!(plan_destination(&l, &u, &s("https://a"), true), Action::Upload { encrypt: true });
}

#[test]
fn one_unreachable_destination_is_retried_alone() {
    let mut l = Ledger::new();
    let dests = vec![s("https://a"), s("https://b")];
    let u = unit("cc", "Public/f", Role::Public);
    for d in &dests {
        let a = plan_destination(&l, &u, d, true);
        let reachable = d == "https://a";
        settle_destination(&mut l, &u, d, a, reachable, 10);
    }
    assert_eq!(l.get(&s("cc"), &s("https://a")).unwrap().status, Status::Done);
    assert_eq!(l.get(&s("cc"), &s("https://b")).unwrap().status, Status::Failed);
    assert!(needs_upload(&l, &u, &dests));

    let before_a = l.get(&s("cc"), &s("https://a")).unwrap();
    let mut attempted = Vec::new();
    for d in &dests {
        let a = plan_destination(&l, &u, d, true);
        if let Action::Upload { .. } = a {
            attempted.push(d.clone());
        }
        settle_destination(&mut l, &u, d, a, true, 20);
    }
    assert_eq!(attempted, vec![s("https://b")]);
    let after_a = l.get(&s("cc"), &s("https://a")).unwrap();
    assert_eq!(after_a.created_at, before_a.created_at);
    assert_eq!(after_a.status, Status::Done);
    let b = l.get(&s("cc"), &s("https://b")).unwrap();
    assert_eq!(b.status, Status::Done);
    assert_eq!(b.created_at, 10);
    assert!(!needs_upload(&l, &u, &dests));
}

#[test]
fn skip_records_nothing() {
    assert_eq!(outcome_status(Action::Skip, true), None);
    assert_eq!(outcome_status(Action::Upload { encrypt: false }, false), Some(Status::Failed));
    assert_eq!(outcome_status(Action::Upload { encrypt: true }, true), Some(Status::Done));
}

#[test]
fn empty_content_is_uploaded_normally() {
    let mut l = Ledger::new();
    let u = Unit { fingerprint: s("e3b0"), size: 0, rel_path: s("Public/empty"), role: Role::Public };
    let dests = vec![s("https://a")];
    assert!(needs_upload(&l, &u, &dests));
    let a = plan_destination(&l, &u, &dests[0], false);
    assert_eq!(a, Action::Upload { encrypt: false });
    settle_destination(&mut l, &u, &dests[0], a, true, 1);
    let r = l.get(&s("e3b0"), &dests[0]).unwrap();
    assert_eq!(r.size, 0);
    assert_eq!(r.status, Status::Done);
}
