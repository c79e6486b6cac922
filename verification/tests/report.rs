use vps_audit::model::{CheckResult, Status};
use vps_audit::report::{label, OutputFormat, Reporter};

fn result(status: Status) -> CheckResult {
    CheckResult {
        id: "x".to_string(),
        title: "X".to_string(),
        categories: vec!["security".to_string()],
        status,
        reason: "because".to_string(),
        remediation: None,
        evidence: None,
    }
}

fn results(statuses: &[Status]) -> Vec<CheckResult> {
    statuses.iter().map(|s| result(*s)).collect()
}

use Status::{Fail, Pass, Skip, Warn};

#[test]
fn status_tells_fail_and_warn_apart() {
    assert!(Fail.is_fail());
    assert!(!Warn.is_fail());
    assert!(!Pass.is_fail());
    assert!(!Skip.is_fail());
    assert!(Warn.is_warn());
    assert!(!Fail.is_warn());
    assert!(!Pass.is_warn());
    assert!(!Skip.is_warn());
}

#[test]
fn score_of_empty_list_is_100() {
    assert_eq!(Reporter::score(&[]), 100);
}

#[test]
fn score_of_one_pass_is_100() {
    assert_eq!(Reporter::score(&results(&[Pass])), 100);
}

#[test]
fn score_of_one_fail_is_0() {
    assert_eq!(Reporter::score(&results(&[Fail])), 0);
}

#[test]
fn score_of_pass_and_fail_is_50() {
    assert_eq!(Reporter::score(&results(&[Pass, Fail])), 50);
}

#[test]
fn score_of_one_warn_is_50() {
    assert_eq!(Reporter::score(&results(&[Warn])), 50);
}

#[test]
fn score_of_one_skip_is_100() {
    assert_eq!(Reporter::score(&results(&[Skip])), 100);
}

#[test]
fn score_leaves_skipped_results_out() {
    assert_eq!(Reporter::score(&results(&[Skip, Pass, Skip, Fail, Skip])), 50);
    assert_eq!(Reporter::score(&results(&[Skip, Skip, Skip])), 100);
}

#[test]
fn score_rounds_to_the_nearest_percent() {
    assert_eq!(Reporter::score(&results(&[Pass, Pass, Fail])), 67);
    assert_eq!(Reporter::score(&results(&[Pass, Fail, Fail])), 33);
    assert_eq!(Reporter::score(&results(&[Warn, Fail, Fail])), 17);
    assert_eq!(Reporter::score(&results(&[Pass, Warn, Warn])), 67);
    assert_eq!(Reporter::score(&results(&[Pass, Warn, Fail])), 50);
}

#[test]
fn score_rounds_a_half_up() {
    assert_eq!(Reporter::score(&results(&[Pass, Fail, Fail, Fail, Fail, Fail, Fail, Fail])), 13);
    assert_eq!(Reporter::score(&results(&[Warn, Fail, Fail, Fail])), 13);
    let mut many = vec![Fail; 199];
    many.push(Pass);
    assert_eq!(Reporter::score(&results(&many)), 1);
    let mut more = vec![Fail; 399];
    more.push(Pass);
    assert_eq!(Reporter::score(&results(&more)), 0);
}

#[test]
fn counts_partition_the_list() {
    let list = results(&[Pass, Warn, Fail, Skip, Pass, Pass, Skip, Warn]);
    let (p, w, f, s) = Reporter::counts(&list);
    assert_eq!((p, w, f, s), (3, 2, 1, 2));
    assert_eq!(p + w + f + s, list.len());
    assert_eq!(Reporter::counts(&[]), (0, 0, 0, 0));
}

#[test]
fn counts_and_score_do_not_depend_on_the_order() {
    let one = results(&[Pass, Warn, Fail, Skip, Pass]);
    let other = results(&[Skip, Pass, Fail, Pass, Warn]);
    assert_eq!(Reporter::counts(&one), Reporter::counts(&other));
    assert_eq!(Reporter::score(&one), Reporter::score(&other));
    assert_eq!(Reporter::score(&one), 63);
}

#[test]
fn labels_are_upper_case_words() {
    assert_eq!(label(Pass), "PASS");
    assert_eq!(label(Warn), "WARN");
    assert_eq!(label(Fail), "FAIL");
    assert_eq!(label(Skip), "SKIP");
}

#[test]
fn reporter_keeps_what_it_was_made_with() {
    let r = Reporter::new(true, OutputFormat::Json);
    assert!(r.verbose());
    assert_eq!(r.format(), OutputFormat::Json);
    let q = Reporter::new(false, OutputFormat::Text);
    assert!(!q.verbose());
    assert_eq!(q.format(), OutputFormat::Text);
}

#[test]
fn quiet_reporter_hides_pass_and_skip() {
    let quiet = Reporter::new(false, OutputFormat::Text);
    assert!(!quiet.shows(&result(Pass)));
    assert!(!quiet.shows(&result(Skip)));
    assert!(quiet.shows(&result(Warn)));
    assert!(quiet.shows(&result(Fail)));
    let verbose = Reporter::new(true, OutputFormat::Text);
    assert!(verbose.shows(&result(Pass)));
    assert!(verbose.shows(&result(Skip)));
}

#[test]
fn text_report_of_no_results() {
    let r = Reporter::new(false, OutputFormat::Text);
    assert_eq!(
        r.render_text(&[]),
        "VPS Audit Results\n=================\nScore: 100 / 100\nPASS=0, WARN=0, FAIL=0, SKIP=0\n"
    );
}

fn full_result() -> CheckResult {
    let mut evidence = serde_json::Map::new();
    evidence.insert("port".to_string(), serde_json::Value::from(2222u64));
    evidence.insert("name".to_string(), serde_json::Value::from("a\"b"));
    CheckResult {
        id: "ssh.port".to_string(),
        title: "SSH port".to_string(),
        categories: vec!["security".to_string(), "linux".to_string()],
        status: Fail,
        reason: "Using unprivileged port 2222 (>= 1024)".to_string(),
        remediation: Some("Choose another".to_string()),
        evidence: Some(serde_json::Value::Object(evidence)),
    }
}

#[test]
fn text_report_shows_every_part_of_a_result() {
    let r = Reporter::new(false, OutputFormat::Text);
    let list = vec![result(Pass), full_result(), result(Skip)];
    let want = "VPS Audit Results\n\
                =================\n\
                Score: 50 / 100\n\
                PASS=1, WARN=0, FAIL=1, SKIP=1\n\
                [FAIL] SSH port\n\
                \x20 id: ssh.port\n\
                \x20 categories: security, linux\n\
                \x20 reason: Using unprivileged port 2222 (>= 1024)\n\
                \x20 remediation: Choose another\n\
                \x20 evidence: {\"name\":\"a\\\"b\",\"port\":2222}\n\
                \n";
    assert_eq!(r.render_text(&list), want);
}

#[test]
fn verbose_text_report_shows_pass_and_skip_too() {
    let r = Reporter::new(true, OutputFormat::Text);
    let mut bare = result(Warn);
    bare.categories = Vec::new();
    let list = vec![result(Pass), bare, result(Skip)];
    let want = "VPS Audit Results\n\
                =================\n\
                Score: 75 / 100\n\
                PASS=1, WARN=1, FAIL=0, SKIP=1\n\
                [PASS] X\n\
                \x20 id: x\n\
                \x20 categories: security\n\
                \x20 reason: because\n\
                \n\
                [WARN] X\n\
                \x20 id: x\n\
                \x20 reason: because\n\
                \n\
                [SKIP] X\n\
                \x20 id: x\n\
                \x20 categories: security\n\
                \x20 reason: because\n\
                \n";
    assert_eq!(r.render_text(&list), want);
}
