use dirscan::engine::AdmissionGate;
use dirscan::engine::Outcome;
use dirscan::engine::ScanRun;
use dirscan::engine::pick_user_agent;
use dirscan::report::result_line;
use dirscan::state::ScanState;
use dirscan::text::select_paths;

fn b(s: &str) -> Vec<u8> {
    s.as_bytes().to_vec()
}

#[test]
fn gate_admits_at_most_the_limit() {
    let mut gate = AdmissionGate::new(2);
    assert!(gate.try_admit());
    assert!(gate.try_admit());
    assert!(!gate.try_admit());
    gate.release();
    assert!(gate.try_admit());
    assert!(!gate.try_admit());
}

#[test]
fn run_tolerates_per_path_failures() {
    let mut run = ScanRun::new(ScanState::new(), 4);
    run.record_failure();
    assert_eq!(run.process_response(200, &b("a page")), Outcome::Confirmed);
    run.record_failure();
    assert_eq!(run.process_response(200, &b("another, longer page")), Outcome::Confirmed);
    assert!(run.is_complete());
    assert_eq!(run.confirmed_count(), 2);
}

#[test]
fn admin_found_login_absent() {
    let lines = vec![b("admin"), b("#comment"), b(""), b("login")];
    let paths = select_paths(&lines);
    assert_eq!(paths, vec![b("admin"), b("login")]);

    let mut run = ScanRun::new(ScanState::new(), paths.len());
    let admin_body = b("<html>admin console</html>");
    assert_eq!(run.process_response(200, &admin_body), Outcome::Confirmed);
    assert_eq!(run.process_response(404, &b("")), Outcome::Absent);
    assert!(run.is_complete());
    assert_eq!(run.confirmed_count(), 1);

    let line = result_line(&b("http://example.com/admin"), admin_body.len());
    let expected = format!("http://example.com/admin (大小: {} 字节)\n", admin_body.len());
    assert_eq!(line, expected.into_bytes());
}

#[test]
fn five_identical_sizes_raise_the_decision() {
    let body: Vec<u8> = vec![120u8; 512];
    let mut run = ScanRun::new(ScanState::new(), 8);
    for _ in 0..4 {
        assert_eq!(run.process_response(200, &body), Outcome::Confirmed);
    }
    assert_eq!(run.process_response(200, &body), Outcome::AwaitDecision);
    // Confirming the filter suppresses the pending probe and every later
    // response of that size.
    assert_eq!(run.resolve(body.len(), true), Outcome::Suppressed);
    assert_eq!(run.process_response(200, &body), Outcome::Suppressed);
    assert_eq!(run.confirmed_count(), 4);
}

#[test]
fn declined_decision_confirms_the_pending_probe() {
    let body: Vec<u8> = vec![120u8; 512];
    let mut run = ScanRun::new(ScanState::new(), 6);
    for _ in 0..4 {
        run.process_response(200, &body);
    }
    assert_eq!(run.process_response(200, &body), Outcome::AwaitDecision);
    assert_eq!(run.resolve(body.len(), false), Outcome::Confirmed);
    assert_eq!(run.confirmed_count(), 5);
}

#[test]
fn result_line_is_exact() {
    assert_eq!(result_line(&b("http://x/"), 0), b("http://x/ (\u{5927}\u{5c0f}: 0 \u{5b57}\u{8282})\n"));
    assert_eq!(
        result_line(&b("http://example.com/a"), 10240),
        format!("http://example.com/a (大小: 10240 字节)\n").into_bytes()
    );
}

#[test]
fn picked_user_agent_is_from_the_pool() {
    let pool = vec![b("agent one"), b("agent two"), b("agent three")];
    for _ in 0..32 {
        let ua = pick_user_agent(&pool);
        assert!(pool.iter().any(|a| a == ua));
    }
    let single = vec![b("only agent")];
    assert_eq!(pick_user_agent(&single), &b("only agent"));
}
