use wubilex::xtask::doc_tree::{split_text_lines, validate_document_tree, validate_scanned, AnchorOutput, LineScan};
use wubilex::xtask::docs::{Counts, DefinitionOwner};
use wubilex::xtask::workflow::contains_forbidden_package_manager_token;

const SMALL_COUNTS: Counts = Counts { modules: 1, nfr: 1, ux: 1 };
const ROOT: &str = "/repository";

fn anchor_success() -> Result<AnchorOutput, String> {
    Ok(AnchorOutput { success: true, stdout: String::new(), stderr: String::new() })
}

struct TestDocuments(Vec<(String, String)>);

impl TestDocuments {
    fn valid() -> Self {
        let mut tree = Self(Vec::new());
        tree.write("docs/modules/M1-test.md", "# Module\n\n| ID | Text |\n|---|---|\n| `M1-TEST-001` | module |\n");
        tree.write("docs/20-nonfunctional.md", "| `NFR-A11Y-001` | nonfunctional |\n");
        tree.write("docs/21-ui-ux.md", "| `UX-TEST-001` | UX |\n");
        tree.write(
            "docs/README.md",
            "Refs: `M1-TEST-001`, `NFR-A11Y-001`, `UX-TEST-001`.\n\ngrep -rn \"TBD\\|\u{5f85}\u{8865}\u{5145}\" docs/ --include=\"*.md\"\n",
        );
        tree
    }

    fn write(&mut self, relative: &str, text: &str) {
        self.0.push((format!("{ROOT}/{relative}"), text.to_owned()));
        self.0.sort();
    }

    fn append(&mut self, relative: &str, text: &str) {
        let path = format!("{ROOT}/{relative}");
        let document = self.0.iter_mut().find(|document| document.0 == path).expect("test document must exist");
        document.1.push_str(text);
    }

    fn validate(&self, expected: Counts, anchor: Result<AnchorOutput, String>) -> Result<Counts, String> {
        validate_document_tree(ROOT, &self.0, expected, &anchor)
    }
}

#[test]
fn small_document_tree_accepts_definitions_references_and_self_check_lines() {
    let tree = TestDocuments::valid();
    let counts = tree.validate(SMALL_COUNTS, anchor_success()).expect("valid document tree must pass");
    assert_eq!(counts, SMALL_COUNTS);
}

#[test]
fn duplicate_count_dangling_and_placeholder_problems_are_aggregated() {
    let mut tree = TestDocuments::valid();
    tree.append("docs/modules/M1-test.md", "| `M1-TEST-001` | duplicate |\n| `M1-TEST-999` | TBD |\n");
    tree.append("docs/README.md", "See `NFR-MISSING-999`.\n");

    let error = tree.validate(SMALL_COUNTS, anchor_success()).expect_err("all document invariant violations must fail");

    assert!(error.contains("duplicate definition M1-TEST-001"));
    assert!(error.contains("definition count drift"));
    assert!(error.contains("dangling requirement reference NFR-MISSING-999"));
    assert!(error.contains("placeholder found"));
}

#[test]
fn invalid_and_wrongly_owned_definition_ids_are_rejected() {
    let mut tree = TestDocuments::valid();
    tree.append(
        "docs/modules/M1-test.md",
        "| `M1-TEST-01` | too short |\n| `M1-TEST-001-extra` | trailing text |\n| `NFR-TEST-001` | wrong owner |\n",
    );

    let error = tree.validate(SMALL_COUNTS, anchor_success()).expect_err("invalid definition IDs must fail");

    assert!(error.contains("invalid requirement definition ID M1-TEST-01"));
    assert!(error.contains("invalid requirement definition ID M1-TEST-001-extra"));
    assert!(error.contains("requirement definition NFR-TEST-001 has the wrong document owner"));
}

#[test]
fn placeholder_self_check_exemption_does_not_hide_extra_placeholder_text() {
    let mut tree = TestDocuments::valid();
    tree.append(
        "docs/README.md",
        "grep -rn \"TBD\\|\u{5f85}\u{8865}\u{5145}\" docs/ --include=\"*.md\" && echo TBD\n",
    );

    let error = tree
        .validate(SMALL_COUNTS, anchor_success())
        .expect_err("a self-check prefix must not exempt additional placeholder text");
    assert!(error.contains("placeholder found"));
}

#[test]
fn count_drift_is_reported_without_a_dangling_false_positive() {
    let tree = TestDocuments::valid();
    let error = tree
        .validate(Counts { modules: 2, ..SMALL_COUNTS }, anchor_success())
        .expect_err("wrong expected count must fail");
    assert!(error.contains("definition count drift"));
    assert!(!error.contains("dangling requirement reference"));
}

#[test]
fn anchor_nonzero_and_spawn_failures_preserve_evidence() {
    let tree = TestDocuments::valid();
    let nonzero = tree
        .validate(
            SMALL_COUNTS,
            Ok(AnchorOutput {
                success: false,
                stdout: "1 broken anchor".to_owned(),
                stderr: "anchor detail".to_owned(),
            }),
        )
        .expect_err("nonzero anchor result must fail");
    assert!(nonzero.contains("1 broken anchor"));
    assert!(nonzero.contains("anchor detail"));

    let spawn = tree
        .validate(SMALL_COUNTS, Err("python unavailable".to_owned()))
        .expect_err("anchor spawn error must fail");
    assert!(spawn.contains("python unavailable"));
}

#[test]
fn issue_report_lists_every_issue_in_order() {
    let mut tree = TestDocuments::valid();
    tree.append("docs/modules/M1-test.md", "| `M1-TEST-001` | again |\n");
    let error = tree
        .validate(
            SMALL_COUNTS,
            Ok(AnchorOutput { success: false, stdout: "  out \n".to_owned(), stderr: String::new() }),
        )
        .unwrap_err();
    assert_eq!(
        error,
        "document invariant check failed with 2 issue(s):\n- duplicate definition M1-TEST-001: \
         docs/modules/M1-test.md:5, docs/modules/M1-test.md:6\n- anchor checker failed: out"
    );
}

#[test]
fn documents_outside_the_owned_files_define_nothing() {
    let mut tree = TestDocuments::valid();
    tree.write("docs/notes.md", "| `M1-TEST-002` | not a definition here |\n");
    let error = tree.validate(SMALL_COUNTS, anchor_success()).unwrap_err();
    assert!(error.contains("dangling requirement reference M1-TEST-002: docs/notes.md:1"));
    assert!(!error.contains("definition count drift"));
}

#[test]
fn crlf_documents_are_read_line_by_line() {
    let mut tree = TestDocuments::valid();
    tree.append("docs/21-ui-ux.md", "| `UX-TEST-002` | second |\r\n");
    let error = tree.validate(SMALL_COUNTS, anchor_success()).unwrap_err();
    assert!(error.contains("expected modules/NFR/UX/total 1/1/1/3, got 1/1/2/4"));
}

#[test]
fn scanned_lines_decide_the_result() {
    let scan = |line: usize, owner: Option<DefinitionOwner>, text: &str, refs: &[&str], definition: Option<Option<&str>>| {
        LineScan {
            path: "docs/x.md".to_owned(),
            line,
            owner,
            text: text.to_owned(),
            references: refs.iter().map(|id| id.to_string()).collect(),
            definition: definition.map(|group| group.map(str::to_owned)),
            candidate: definition.map(|group| group.map(str::to_owned)),
        }
    };
    let scans = vec![
        scan(1, Some(DefinitionOwner::Module), "row", &["M2-A-001"], Some(Some("M2-A-001"))),
        scan(2, None, "see", &["M2-A-001"], None),
    ];
    let expected = Counts { modules: 1, nfr: 0, ux: 0 };
    assert_eq!(validate_scanned(&scans, expected, &anchor_success()), Ok(expected));

    let wrong_owner = vec![scan(3, Some(DefinitionOwner::Ux), "row", &[], Some(Some("M2-A-001")))];
    let error = validate_scanned(&wrong_owner, Counts { modules: 0, nfr: 0, ux: 0 }, &anchor_success()).unwrap_err();
    assert_eq!(
        error,
        "document invariant check failed with 1 issue(s):\n- requirement definition M2-A-001 has the wrong document owner at docs/x.md:3"
    );

    let unreadable = vec![scan(4, Some(DefinitionOwner::Module), "row", &[], Some(None))];
    let error = validate_scanned(&unreadable, Counts { modules: 0, nfr: 0, ux: 0 }, &anchor_success()).unwrap_err();
    assert!(error.ends_with("definition parser did not capture an ID at docs/x.md:4"));
}

#[test]
fn lines_are_split_as_str_lines_splits_them() {
    for text in ["", "a", "a\n", "a\r\nb", "a\n\nb\n", "a\r", "\n", "x\r\n\r\n"] {
        let expected: Vec<String> = text.lines().map(str::to_owned).collect();
        assert_eq!(split_text_lines(text), expected, "{text:?}");
    }
}

#[test]
fn forbidden_package_manager_detection_covers_wrapped_and_mixed_case_commands() {
    for command in [
        "npm run test",
        "cmd /c \"NPM run test\"",
        "powershell -Command corepack enable",
        "tool && yarn lint",
        "npx eslint .",
    ] {
        assert!(contains_forbidden_package_manager_token(command).unwrap(), "{command}");
    }

    for command in ["pnpm run test", "minimum", "npm-run-all"] {
        assert!(!contains_forbidden_package_manager_token(command).unwrap(), "{command}");
    }
}

#[test]
fn undefined_references_are_reported_in_id_order_with_every_place() {
    let scan = |line: usize, refs: &[&str]| LineScan {
        path: "docs/y.md".to_owned(),
        line,
        owner: None,
        text: "see".to_owned(),
        references: refs.iter().map(|id| id.to_string()).collect(),
        definition: None,
        candidate: None,
    };
    let scans = vec![scan(1, &["UX-B-001", "M2-A-001"]), scan(2, &["UX-B-001"])];
    let error = validate_scanned(&scans, Counts { modules: 0, nfr: 0, ux: 0 }, &anchor_success()).unwrap_err();
    assert_eq!(
        error,
        "document invariant check failed with 2 issue(s):\n- dangling requirement reference M2-A-001: docs/y.md:1\n\
         - dangling requirement reference UX-B-001: docs/y.md:1, docs/y.md:2"
    );
}
