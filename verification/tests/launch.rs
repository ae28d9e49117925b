use wubilex::launch::{
    launch_notice_evidence, parse_launch_args, LaunchNotice, LaunchNoticeCode, LaunchNoticeEvidence, LaunchRequest,
    ParsedLaunch,
};

fn parse(arguments: &[&str]) -> ParsedLaunch {
    parse_launch_args(arguments.iter().map(|a| Some((*a).to_owned())).collect())
}

#[test]
fn accepts_normal_tray_navigation_and_combined_launches() {
    assert_eq!(parse(&[]).request, LaunchRequest::default());
    assert_eq!(parse(&["/TRAY"]).request, LaunchRequest { start_hidden: true, navigation_path: None });
    assert_eq!(
        parse(&["--navigate", "/settings/runtime"]).request,
        LaunchRequest { start_hidden: false, navigation_path: Some("/settings/runtime".to_owned()) }
    );
    assert_eq!(
        parse(&["/tray", "--navigate", "/overview"]).request,
        LaunchRequest { start_hidden: true, navigation_path: Some("/overview".to_owned()) }
    );
}

#[test]
fn rejects_duplicates_missing_values_and_unknown_arguments_without_panicking() {
    let cases = [
        (vec!["/tray", "/tray"], LaunchNoticeCode::DuplicateTray),
        (vec!["--navigate", "/one", "--navigate", "/two"], LaunchNoticeCode::DuplicateNavigate),
        (vec!["--navigate"], LaunchNoticeCode::MissingNavigatePath),
        (vec!["--other"], LaunchNoticeCode::UnknownArgument),
    ];

    for (arguments, expected) in cases {
        let parsed = parse(&arguments);
        assert_eq!(parsed.request, LaunchRequest::default());
        assert!(parsed.notices.iter().any(|notice| notice.code == expected));
    }

    let missing_then_unknown = parse(&["--navigate", "--other"]);
    assert_eq!(missing_then_unknown.notices.len(), 2);
    assert_eq!(missing_then_unknown.notices[0].code, LaunchNoticeCode::MissingNavigatePath);
    assert_eq!(missing_then_unknown.notices[1].code, LaunchNoticeCode::UnknownArgument);
}

#[test]
fn rejects_invalid_navigation_envelopes_and_accepts_scalar_limit() {
    for path in [
        "settings",
        "/settings?tab=runtime",
        "/settings#runtime",
        "/settings\\runtime",
        "/settings//runtime",
        "/settings/./runtime",
        "/settings/../runtime",
        "/settings/\u{0007}runtime",
    ] {
        let parsed = parse(&["--navigate", path]);
        assert_eq!(parsed.request, LaunchRequest::default());
        assert_eq!(parsed.notices[0].code, LaunchNoticeCode::InvalidNavigatePath);
    }

    let at_limit = format!("/{}", "界".repeat(255));
    let over_limit = format!("/{}", "界".repeat(256));
    assert_eq!(parse(&["--navigate", &at_limit]).notices.len(), 0);
    assert_eq!(parse(&["--navigate", &over_limit]).notices[0].code, LaunchNoticeCode::InvalidNavigatePath);
}

#[test]
fn rejects_non_unicode_arguments_without_panicking_or_echoing_input() {
    let parsed = parse_launch_args(vec![None]);
    assert_eq!(parsed.request, LaunchRequest::default());
    assert_eq!(parsed.notices[0].code, LaunchNoticeCode::NonUnicodeArgument);
    assert!(!parsed.notices[0].detail.as_deref().unwrap_or_default().contains('\u{FFFD}'));
}

#[test]
fn notices_are_bounded_and_positions_are_one_based() {
    let arguments: Vec<&str> = std::iter::repeat("--bogus").take(20).collect();
    let parsed = parse(&arguments);
    assert_eq!(parsed.notices.len(), 8);
    assert_eq!(parsed.notices[0].argument_position, Some(1));
    assert_eq!(parsed.notices[7].argument_position, Some(8));
}

#[test]
fn launch_log_projection_excludes_summary_detail_and_argument_value() {
    let evidence = launch_notice_evidence(&vec![LaunchNotice {
        code: LaunchNoticeCode::UnknownArgument,
        summary: "secret-summary".to_owned(),
        detail: Some("secret-argument-value".to_owned()),
        argument_position: Some(2),
    }]);

    assert_eq!(
        evidence,
        vec![LaunchNoticeEvidence { code: LaunchNoticeCode::UnknownArgument, argument_position: Some(2) }]
    );
    let rendered = format!("{evidence:?}");
    assert!(!rendered.contains("secret-summary"));
    assert!(!rendered.contains("secret-argument-value"));
}
