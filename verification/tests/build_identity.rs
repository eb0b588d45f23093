use zynk::build_info::{
    build_id, build_sha, channel, is_preview, non_empty, version, version_line, BuildInputs,
};
use zynk::build_sha::attested_sha_problem;
use zynk::text::{text_byte_len, decimal_text, same_text, trim};

fn build(channel: Option<&str>, id: Option<&str>, sha: Option<&str>) -> BuildInputs {
    BuildInputs {
        base_version: "1.2.3".to_string(),
        channel: channel.map(str::to_string),
        build_id: id.map(str::to_string),
        build_sha: sha.map(str::to_string),
    }
}

#[test]
fn stable_version_defaults_to_cargo_version() {
    assert!(!version(&build(None, None, None)).is_empty());
    assert_eq!(version(&build(None, None, None)), "1.2.3");
    assert_eq!(channel(&build(None, None, None)), "stable");
    assert_eq!(channel(&build(Some("  "), None, None)), "stable");
    assert_eq!(version(&build(Some(" stable "), Some("7"), None)), "1.2.3");
}

#[test]
fn other_channels_carry_their_name_and_build_id() {
    let preview = build(Some(" preview\n"), Some("\t42 "), None);
    assert_eq!(channel(&preview), "preview");
    assert_eq!(build_id(&preview), Some("42"));
    assert_eq!(version(&preview), "1.2.3-preview.42");
    assert!(is_preview(&preview));
    let unnumbered = build(Some("nightly"), Some(" "), None);
    assert_eq!(build_id(&unnumbered), None);
    assert_eq!(version(&unnumbered), "1.2.3-nightly");
    assert!(!is_preview(&unnumbered));
}

#[test]
fn version_line_names_the_commit_when_there_is_one() {
    assert_eq!(version_line(&build(None, None, None)), "zynk 1.2.3");
    assert_eq!(version_line(&build(None, None, Some(" abc "))), "zynk 1.2.3 (abc)");
    assert_eq!(build_sha(&build(None, None, Some(""))), None);
    assert_eq!(
        version_line(&build(Some("preview"), Some("9"), Some("abc"))),
        "zynk 1.2.3-preview.9 (abc)"
    );
}

#[test]
fn a_full_lowercase_object_name_is_the_only_accepted_attestation() {
    assert_eq!(attested_sha_problem(&"a".repeat(40)), None);
    assert_eq!(
        attested_sha_problem("0123456789abcdef0123456789abcdef01234567"),
        None
    );
}

#[test]
fn an_invalid_zynk_build_sha_input_fails_the_build() {
    for value in [
        "",
        "abc123",
        "deadbeefcafe",
        &"A".repeat(40),
        &"a".repeat(39),
        &"a".repeat(41),
        "not-a-sha-at-all-not-a-sha-at-all-not-as",
        &format!("{}-dirty", "a".repeat(40)),
    ] {
        assert!(
            attested_sha_problem(value).is_some(),
            "{value:?} must not be accepted as a source attestation"
        );
    }
}

#[test]
fn a_dirty_attestation_is_refused_by_name() {
    let problem = attested_sha_problem(&format!("{}-dirty", "b".repeat(40)))
        .expect("a dirty attestation must be refused");
    assert!(problem.contains("-dirty"), "unexpected problem: {problem}");
    assert_eq!(
        problem,
        format!(
            "it is marked -dirty, so the compiled tree was not commit {}",
            "b".repeat(40)
        )
    );
}

#[test]
fn each_attestation_problem_says_what_is_wrong() {
    assert_eq!(
        attested_sha_problem("").as_deref(),
        Some("it is empty, so it names no commit")
    );
    assert_eq!(
        attested_sha_problem("abc123").as_deref(),
        Some("it is 6 characters, not a full 40-character git object name")
    );
    assert_eq!(
        attested_sha_problem(&"g".repeat(40)).as_deref(),
        Some("it is not 40 lowercase hexadecimal characters")
    );
    // Twenty two-byte characters take forty bytes, and are still no object name.
    assert_eq!(
        attested_sha_problem(&"\u{e9}".repeat(20)).as_deref(),
        Some("it is not 40 lowercase hexadecimal characters")
    );
}

#[test]
fn text_primitives_match_the_standard_library() {
    for text in ["", "  a b ", "\u{2003}x\u{a0}", "\n", "plain", "\u{3000}\u{1680}"] {
        assert_eq!(trim(text), text.trim(), "{text:?}");
        assert_eq!(text_byte_len(text), text.len());
    }
    for n in [0_u64, 9, 10, 1234567890, u64::MAX] {
        assert_eq!(decimal_text(n), n.to_string());
    }
    assert!(same_text("a\u{e9}", "a\u{e9}"));
    assert!(!same_text("a", "b"));
    assert!(!same_text("a", "ab"));
}

#[test]
fn a_kept_value_is_kept_as_it_is() {
    let keep = |value: Option<&str>| non_empty(&value.map(str::to_string)).map(str::to_string);
    assert_eq!(keep(None), None);
    assert_eq!(keep(Some(" \t\n")), None);
    let once = keep(Some("  a b \u{3000}"));
    assert_eq!(once.as_deref(), Some("a b"));
    assert_eq!(keep(once.as_deref()), once);
}
