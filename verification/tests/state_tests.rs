use dirscan::state::Classification;
use dirscan::state::ScanState;
use dirscan::text::select_paths;

fn b(s: &str) -> Vec<u8> {
    s.as_bytes().to_vec()
}

#[test]
fn fifth_occurrence_triggers_decision() {
    let mut st = ScanState::new();
    let body = b("soft 404 page");
    for _ in 0..4 {
        assert_eq!(st.classify(&body, 512), Classification::Confirmed);
    }
    assert_eq!(st.classify(&body, 512), Classification::AwaitDecision);
}

#[test]
fn decline_resets_counter() {
    let mut st = ScanState::new();
    let body = b("soft 404 page");
    for _ in 0..4 {
        assert_eq!(st.classify(&body, 512), Classification::Confirmed);
    }
    assert_eq!(st.classify(&body, 512), Classification::AwaitDecision);
    assert_eq!(st.resolve_decision(512, false), Classification::Confirmed);
    // The counter is back at zero: four more confirmations before the next
    // decision is raised.
    for _ in 0..4 {
        assert_eq!(st.classify(&body, 512), Classification::Confirmed);
    }
    assert_eq!(st.classify(&body, 512), Classification::AwaitDecision);
}

#[test]
fn confirm_makes_size_permanently_suppressed() {
    let mut st = ScanState::new();
    let body = b("soft 404 page");
    for _ in 0..4 {
        st.classify(&body, 512);
    }
    assert_eq!(st.classify(&body, 512), Classification::AwaitDecision);
    assert_eq!(st.resolve_decision(512, true), Classification::Suppressed);
    assert_eq!(st.classify(&body, 512), Classification::Suppressed);
    assert_eq!(st.classify(&b("another body"), 512), Classification::Suppressed);
}

#[test]
fn filtered_size_suppressed_despite_intervening_sizes() {
    let mut st = ScanState::new();
    let body = b("page");
    for _ in 0..5 {
        st.classify(&body, 512);
    }
    st.resolve_decision(512, true);
    // Other sizes are classified on their own and do not disturb the filter.
    assert_eq!(st.classify(&b("real page one"), 100), Classification::Confirmed);
    assert_eq!(st.classify(&b("real page two"), 200), Classification::Confirmed);
    assert_eq!(st.classify(&body, 512), Classification::Suppressed);
}

#[test]
fn signature_match_suppresses_any_size() {
    let lines = vec![b("Access Denied")];
    let mut st = ScanState::with_signatures(&lines);
    assert_eq!(st.classify(&b("<html>Access Denied</html>"), 27), Classification::Suppressed);
    assert_eq!(st.classify(&b("Access Denied again"), 9999), Classification::Suppressed);
    assert_eq!(st.classify(&b("a real page"), 27), Classification::Confirmed);
}

#[test]
fn filter_file_lines_are_trimmed_and_comments_dropped() {
    let lines = vec![b("# a comment"), b(""), b("  waf block  "), b("login page")];
    let mut st = ScanState::with_signatures(&lines);
    // The trimmed fragment matches; the comment line was never stored.
    assert_eq!(st.classify(&b("xx waf block yy"), 15), Classification::Suppressed);
    assert_eq!(st.classify(&b("xx # a comment yy"), 17), Classification::Confirmed);
}

#[test]
fn is_filtered_reads_without_counting() {
    let lines = vec![b("denied")];
    let mut st = ScanState::with_signatures(&lines);
    assert!(st.is_filtered(&b("denied!"), 7));
    assert!(!st.is_filtered(&b("welcome"), 7));
    for _ in 0..5 {
        st.classify(&b("same page"), 64);
    }
    st.resolve_decision(64, true);
    assert!(st.is_filtered(&b("welcome"), 64));
}

#[test]
fn wordlist_selection_drops_blank_and_comment_lines() {
    let lines = vec![b("admin"), b("#comment"), b(""), b("login")];
    let picked = select_paths(&lines);
    assert_eq!(picked, vec![b("admin"), b("login")]);
}

#[test]
fn wordlist_selection_keeps_untrimmed_path() {
    let lines = vec![b("  admin "), b("   "), b("login")];
    let picked = select_paths(&lines);
    assert_eq!(picked, vec![b("  admin "), b("login")]);
}
