use chudguild::discord::channel::{
    format_standard_entry, format_world_entry, render_activity_log, trim_activity_log_entries,
};
use chudguild::discord::context::{chudmaster_check, parse_difficulty, parse_difficulty_optional};
use chudguild::discord::formatting::{gcd, oxford_join, subtext_lines};
use chudguild::discord::report_dm::pack_dm_segments;
use chudguild::game::domain::item::parse_u32;
use chudguild::game::generation::generators::{
    agent_preamble, collapse_whitespace, effective_prompt, parse_retry_step, prompt_retry_decision,
    sanitize, truncate_for_log, yaml_retry, ParseFailure, PromptFailure, PromptRetry,
};
use chudguild::game::generation::memory::char_budget_drop_count;
use chudguild::game::persistence::message_cache::{ActivityLogEntry, ActivityLogKind};
use chudguild::text::{
    byte_prefix, contains_str, first_word_of, sort_strings, strip_prefix, text_lines, utf8_fits,
    utf8_len_of,
};

#[test]
fn parse_u32_reads_plain_and_signed_numbers() {
    assert_eq!(parse_u32("42"), Some(42));
    assert_eq!(parse_u32("+7"), Some(7));
    assert_eq!(parse_u32("4294967295"), Some(u32::MAX));
    assert_eq!(parse_u32("4294967296"), None);
    assert_eq!(parse_u32(""), None);
    assert_eq!(parse_u32("-1"), None);
    assert_eq!(parse_u32("12a"), None);
}

#[test]
fn text_lines_matches_str_lines() {
    let cases = ["", "a", "a\n", "a\nb", "a\r\nb\r\n", "\n\nx", "x\r"];
    for c in cases {
        let want: Vec<String> = c.lines().map(|l| l.to_string()).collect();
        assert_eq!(text_lines(c), want, "case {c:?}");
    }
}

#[test]
fn subtext_prefixes_each_line() {
    assert_eq!(subtext_lines("one\ntwo"), "-# one\n-# two");
    assert_eq!(subtext_lines(""), "");
}

#[test]
fn oxford_join_forms() {
    assert_eq!(oxford_join(&["a"]), "a");
    assert_eq!(oxford_join(&["a", "b"]), "a and b");
    assert_eq!(oxford_join(&["a", "b", "c"]), "a, b, and c");
}

#[test]
fn gcd_values() {
    assert_eq!(gcd(12, 18), 6);
    assert_eq!(gcd(7, 0), 7);
    assert_eq!(gcd(0, 5), 5);
}

#[test]
fn collapse_and_first_word() {
    assert_eq!(collapse_whitespace("  a \n\t b  c "), "a b c");
    assert_eq!(first_word_of("  Grog the Mighty"), "Grog");
    assert_eq!(first_word_of("   "), "   ");
}

#[test]
fn strip_prefix_and_contains() {
    assert_eq!(strip_prefix("take:12", "take:"), Some("12".to_string()));
    assert_eq!(strip_prefix("scout:12", "take:"), None);
    assert!(contains_str("HTTP 429 Too Many", "429"));
    assert!(!contains_str("HTTP 42", "429"));
}

#[test]
fn sort_strings_orders_by_code_point() {
    let v = vec!["b".to_string(), "Z".to_string(), "a".to_string(), "ab".to_string()];
    assert_eq!(sort_strings(v), vec!["Z", "a", "ab", "b"]);
}

#[test]
fn utf8_lengths() {
    assert!(utf8_fits("héllo", 6));
    assert!(!utf8_fits("héllo", 5));
    assert_eq!(utf8_len_of("日本", 10), 6);
    assert_eq!(byte_prefix("héllo", 3), Some("hé".to_string()));
    assert_eq!(byte_prefix("héllo", 2), None);
}

#[test]
fn sanitize_unwraps_fences_and_plain_chars() {
    assert_eq!(sanitize("  ```yaml\nname: it\u{2019}s\n```  "), "name: it's");
    assert_eq!(sanitize("```\na\u{2011}b\n```\ntrailing"), "a-b");
    assert_eq!(sanitize(" plain "), "plain");
    assert_eq!(sanitize("```yaml\nno close"), "no close");
}

#[test]
fn truncate_for_log_cuts_at_bytes() {
    assert_eq!(truncate_for_log("abcdef", 3), "abc...");
    assert_eq!(truncate_for_log("abc", 3), "abc");
}

#[test]
fn yaml_retry_counts_and_stops() {
    let mut retries = 0u32;
    let c = yaml_retry(&mut retries, "raw", "malformed YAML", "bad").unwrap();
    assert_eq!(retries, 1);
    assert!(c.starts_with("Your previous response was invalid (malformed YAML): bad\n"));
    assert!(c.ends_with("Previous response (truncated):\nraw"));
    let mut spent = 5u32;
    assert_eq!(yaml_retry(&mut spent, "raw", "k", "e"), None);
    assert_eq!(spent, 5);
}

#[test]
fn parse_retry_step_messages() {
    let mut retries = 5u32;
    let r = parse_retry_step(
        &mut retries,
        "x",
        &ParseFailure::WrongCount { list_key: "trials".to_string(), expected: 3, actual: Some(2) },
    );
    assert_eq!(
        r,
        Err("LLM returned wrong trial count after 5 retries: expected 3, got Some(2)".to_string())
    );
    let mut retries = 0u32;
    let r = parse_retry_step(
        &mut retries,
        "x",
        &ParseFailure::WrongCount { list_key: "items".to_string(), expected: 4, actual: None },
    )
    .unwrap();
    assert!(r.contains("(wrong list count): expected 4 items entries, got None"));
}

#[test]
fn prompt_retry_waits() {
    let fail = |m: &str| PromptFailure::Failed { message: m.to_string(), malformed_response: false };
    assert_eq!(prompt_retry_decision(0, &PromptFailure::TimedOut, None), PromptRetry::Retry(5));
    assert_eq!(prompt_retry_decision(12, &PromptFailure::TimedOut, None), PromptRetry::GiveUp);
    assert_eq!(prompt_retry_decision(0, &fail("404 not found"), None), PromptRetry::Retry(10));
    assert_eq!(prompt_retry_decision(0, &fail("503"), None), PromptRetry::Retry(10));
    assert_eq!(prompt_retry_decision(0, &fail("500"), None), PromptRetry::Retry(15));
    assert_eq!(prompt_retry_decision(0, &fail("429"), Some(7)), PromptRetry::Retry(14));
    assert_eq!(prompt_retry_decision(0, &fail("429"), None), PromptRetry::Retry(10));
    assert_eq!(prompt_retry_decision(0, &fail("401"), None), PromptRetry::GiveUp);
    assert_eq!(prompt_retry_decision(12, &fail("500"), None), PromptRetry::GiveUp);
    let malformed = PromptFailure::Failed { message: "x".to_string(), malformed_response: true };
    assert_eq!(prompt_retry_decision(3, &malformed, None), PromptRetry::Retry(5));
}

#[test]
fn prompts_and_preamble() {
    assert_eq!(effective_prompt("p", ""), "p");
    assert_eq!(effective_prompt("p", "fix"), "p\n\nfix");
    assert!(agent_preamble("ctx").ends_with("bizarre\n\nctx"));
}

#[test]
fn difficulty_parsing() {
    assert_eq!(parse_difficulty(" 5 "), Ok(5));
    assert_eq!(parse_difficulty("11"), Err("difficulty must be between 1 and 10"));
    assert_eq!(parse_difficulty("0"), Err("difficulty must be between 1 and 10"));
    assert_eq!(parse_difficulty("five"), Err("difficulty must be a number"));
    assert_eq!(parse_difficulty("300"), Err("difficulty must be a number"));
    assert_eq!(parse_difficulty_optional(None, 4), Ok(4));
    assert_eq!(parse_difficulty_optional(Some("   "), 4), Ok(4));
    assert_eq!(parse_difficulty_optional(Some("9"), 4), Ok(9));
}

#[test]
fn chudmaster_check_needs_channel_and_role() {
    assert!(chudmaster_check(1, 10, 1, 10, false));
    assert!(chudmaster_check(2, 10, 1, 10, true));
    assert!(!chudmaster_check(2, 10, 1, 10, false));
    assert!(!chudmaster_check(1, 11, 1, 10, true));
}

#[test]
fn activity_log_formats() {
    assert_eq!(format_standard_entry("one\ntwo"), "\u{2043} one\ntwo");
    assert_eq!(format_standard_entry(""), "\u{2043} ");
    assert_eq!(format_world_entry("dawn\n\nrain"), "\u{200B}\t\u{200B}\t*dawn*\n\n\u{200B}\t\u{200B}\t*rain*");
    let entries = vec![
        ActivityLogEntry { kind: ActivityLogKind::Standard, text: "a".to_string() },
        ActivityLogEntry { kind: ActivityLogKind::World, text: "b".to_string() },
    ];
    assert_eq!(render_activity_log(&entries), "\u{2043} a\n\u{200B}\t\u{200B}\t*b*");
}

#[test]
fn activity_log_trim_keeps_newest_within_limits() {
    let mut entries: Vec<ActivityLogEntry> = (0..5)
        .map(|i| ActivityLogEntry { kind: ActivityLogKind::Standard, text: format!("e{i}") })
        .collect();
    trim_activity_log_entries(&mut entries, 3);
    let texts: Vec<&str> = entries.iter().map(|e| e.text.as_str()).collect();
    assert_eq!(texts, vec!["e2", "e3", "e4"]);

    let mut big: Vec<ActivityLogEntry> = (0..3)
        .map(|_| ActivityLogEntry { kind: ActivityLogKind::Standard, text: "x".repeat(900) })
        .collect();
    trim_activity_log_entries(&mut big, 10);
    assert_eq!(big.len(), 2);
    assert!(render_activity_log(&big).len() <= 2000);
}

#[test]
fn dm_segments_pack_greedily() {
    let segs = vec!["aaa".to_string(), "".to_string(), "bb".to_string(), "cccc".to_string(), "dddddd".to_string()];
    let packed = pack_dm_segments(&segs, 5);
    assert_eq!(packed, vec!["aaabb", "cccc", "dddddd"]);
    assert_eq!(packed.concat(), segs.concat());
}

#[test]
fn char_budget_drops_oldest_but_keeps_one() {
    assert_eq!(char_budget_drop_count(&vec![100, 200]), 0);
    assert_eq!(char_budget_drop_count(&vec![150_000, 60_000, 10]), 1);
    assert_eq!(char_budget_drop_count(&vec![300_000, 300_000]), 1);
    assert_eq!(char_budget_drop_count(&vec![]), 0);
}
