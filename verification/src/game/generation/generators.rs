use vstd::prelude::*;

use crate::text::{
    boundary_chars, byte_prefix, chars_of, collapse_whitespace_chars, collapse_ws, contains_str,
    contains_text, dec, last_occurrence, owned, push_char, push_chars, push_dec, push_str,
    rfind_chars, starts_with, trim, trim_bounds, utf8_fits, utf8_len,
};

verus! {

pub const WORLD_BUILDING_CONTEXT: &'static str = "You are operating in a fantasy world that is lighthearted, full of satire, and often crude. Adventurers are known as 'Chuds' and are often exceptionally bizarre";

/// Per-attempt timeout for LLM requests. Raise if using slow free-tier models.
pub const PROMPT_TIMEOUT_SECS: u64 = 90;

/// The agent's preamble: the world-building context, a blank line, then the agent's own
/// system context.
pub fn agent_preamble(system_context: &str) -> (r: String)
    ensures
        r@ == WORLD_BUILDING_CONTEXT@ + "\n\n"@ + system_context@,
{
    let mut s = owned(WORLD_BUILDING_CONTEXT);
    push_str(&mut s, "\n\n");
    push_str(&mut s, system_context);
    s
}

/// Collapse runs of whitespace (newlines, tabs, spaces) into single spaces.
pub fn collapse_whitespace(s: &str) -> (r: String)
    ensures
        r@ == collapse_ws(s@),
{
    collapse_whitespace_chars(s)
}

/// Typographic apostrophes and non-breaking hyphens made plain.
pub open spec fn plain_char(c: char) -> char {
    if c == '\u{2019}' {
        '\''
    } else if c == '\u{2011}' {
        '-'
    } else {
        c
    }
}

/// The text after an opening code fence (`` ```yaml `` or `` ``` ``), if it has one.
pub open spec fn after_fence(t: Seq<char>) -> Option<Seq<char>> {
    if starts_with(t, "```yaml"@) {
        Some(t.subrange(7, t.len() as int))
    } else if starts_with(t, "```"@) {
        Some(t.subrange(3, t.len() as int))
    } else {
        None
    }
}

/// A trimmed reply unwrapped from a code fence: the text after the opening fence, up to
/// the last closing fence, trimmed; a reply without a fence is kept.
pub open spec fn unfenced(t: Seq<char>) -> Seq<char> {
    match after_fence(t) {
        Some(inner) => match last_occurrence(inner, "```"@) {
            Some(end) => trim(inner.subrange(0, end)),
            None => trim(inner),
        },
        None => t,
    }
}

/// An LLM reply made parseable: trimmed, unwrapped from a code fence, with typographic
/// apostrophes and non-breaking hyphens made plain.
pub open spec fn sanitized(s: Seq<char>) -> Seq<char> {
    unfenced(trim(s)).map_values(|c: char| plain_char(c))
}

fn copy_range(v: &Vec<char>, from: usize, to: usize) -> (r: Vec<char>)
    requires
        from <= to <= v@.len(),
    ensures
        r@ == v@.subrange(from as int, to as int),
{
    let mut part: Vec<char> = Vec::new();
    let mut i = from;
    while i < to
        invariant
            from <= i <= to <= v@.len(),
            part@ == v@.subrange(from as int, i as int),
        decreases to - i,
    {
        part.push(v[i]);
        i += 1;
        assert(part@ =~= v@.subrange(from as int, i as int));
    }
    part
}

fn trimmed_range(v: &Vec<char>, from: usize, to: usize) -> (r: Vec<char>)
    requires
        from <= to <= v@.len(),
    ensures
        r@ == trim(v@.subrange(from as int, to as int)),
{
    let part = copy_range(v, from, to);
    let (a, b) = trim_bounds(&part);
    copy_range(&part, a, b)
}

fn unfence(t: &Vec<char>) -> (r: Vec<char>)
    ensures
        r@ == unfenced(t@),
{
    proof {
        reveal_strlit("```yaml");
        reveal_strlit("```");
    }
    let skip: usize = if crate::text::starts_with_chars(t, "```yaml") {
        7
    } else if crate::text::starts_with_chars(t, "```") {
        3
    } else {
        0
    };
    if skip == 0 {
        return copy_range(t, 0, t.len());
    }
    let inner = copy_range(t, skip, t.len());
    assert(after_fence(t@) == Some(inner@));
    match rfind_chars(&inner, "```") {
        Some(end) => trimmed_range(&inner, 0, end),
        None => {
            assert(inner@.subrange(0, inner@.len() as int) =~= inner@);
            trimmed_range(&inner, 0, inner.len())
        },
    }
}

fn plain_text(v: &Vec<char>) -> (r: String)
    ensures
        r@ == v@.map_values(|c: char| plain_char(c)),
{
    let mut out = String::new();
    let mut i: usize = 0;
    while i < v.len()
        invariant
            i <= v@.len(),
            out@ == v@.subrange(0, i as int).map_values(|c: char| plain_char(c)),
        decreases v@.len() - i,
    {
        let c = v[i];
        let d = if c == '\u{2019}' {
            '\''
        } else if c == '\u{2011}' {
            '-'
        } else {
            c
        };
        push_char(&mut out, d);
        i += 1;
        assert(out@ =~= v@.subrange(0, i as int).map_values(|c: char| plain_char(c)));
    }
    assert(v@.subrange(0, v@.len() as int) =~= v@);
    out
}

pub fn sanitize(s: &str) -> (r: String)
    ensures
        r@ == sanitized(s@),
{
    let v = chars_of(s);
    let (a, b) = trim_bounds(&v);
    let t = copy_range(&v, a, b);
    let u = unfence(&t);
    plain_text(&u)
}

/// A text cut to `max` UTF-8 bytes with `...` appended, or whole when it fits.
pub open spec fn truncated_for_log(s: Seq<char>, max: nat) -> Seq<char> {
    if utf8_len(s) <= max {
        s
    } else {
        s.subrange(0, boundary_chars(s, max).unwrap()) + "..."@
    }
}

/// Can `s` be cut at `max` bytes: it fits, or `max` falls on a character boundary (else the
/// byte slice would panic).
pub open spec fn cuttable(s: Seq<char>, max: nat) -> bool {
    utf8_len(s) <= max || boundary_chars(s, max) is Some
}

pub fn truncate_for_log(s: &str, max: usize) -> (r: String)
    requires
        cuttable(s@, max as nat),
    ensures
        r@ == truncated_for_log(s@, max as nat),
{
    if utf8_fits(s, max) {
        owned(s)
    } else {
        let mut p = byte_prefix(s, max).unwrap();
        push_str(&mut p, "...");
        p
    }
}

pub open spec fn yaml_correction_text(kind: Seq<char>, error: Seq<char>, raw_preview: Seq<char>) -> Seq<char> {
    "Your previous response was invalid ("@ + kind + "): "@ + error
        + "\nReply again with ONLY valid YAML matching the required fields. Use block scalars (|) or double-quoted strings for long text or text containing colons.\nPrevious response (truncated):\n"@
        + raw_preview
}

/// The note sent back to the model after an unusable reply.
pub fn yaml_correction(kind: &str, error: &str, raw_preview: &str) -> (r: String)
    ensures
        r@ == yaml_correction_text(kind@, error@, raw_preview@),
{
    let mut s = owned("Your previous response was invalid (");
    push_str(&mut s, kind);
    push_str(&mut s, "): ");
    push_str(&mut s, error);
    push_str(&mut s, "\nReply again with ONLY valid YAML matching the required fields. Use block scalars (|) or double-quoted strings for long text or text containing colons.\nPrevious response (truncated):\n");
    push_str(&mut s, raw_preview);
    s
}

pub const YAML_PARSE_RETRIES: u32 = 5;

/// Length of the reply preview quoted back to the model.
pub const RAW_PREVIEW_BYTES: usize = 500;

/// One more try at a usable reply: none once the retries are spent; else the retry is
/// counted and the correction (quoting the first 500 bytes of the reply) is returned.
pub fn yaml_retry(retries: &mut u32, raw: &str, kind: &str, error: &str) -> (r: Option<String>)
    requires
        *old(retries) < YAML_PARSE_RETRIES ==> cuttable(raw@, RAW_PREVIEW_BYTES as nat),
    ensures
        *old(retries) >= YAML_PARSE_RETRIES ==> r is None && *final(retries) == *old(retries),
        *old(retries) < YAML_PARSE_RETRIES ==> *final(retries) == *old(retries) + 1 && (r matches Some(c)
            && c@ == yaml_correction_text(kind@, error@, truncated_for_log(raw@, RAW_PREVIEW_BYTES as nat))),
{
    if *retries >= YAML_PARSE_RETRIES {
        return None;
    }
    *retries = *retries + 1;
    let preview = truncate_for_log(raw, RAW_PREVIEW_BYTES);
    Some(yaml_correction(kind, error, preview.as_str()))
}

pub const PROMPT_MAX_RETRIES: u32 = 12;

/// Why an LLM request did not answer.
pub enum PromptFailure {
    TimedOut,
    /// The request failed with this error text; `malformed_response` when the provider's
    /// reply could not be read.
    Failed { message: String, malformed_response: bool },
}

/// What to do after a failed LLM request.
#[derive(Debug, Clone, Copy, PartialEq, Eq, Structural)]
pub enum PromptRetry {
    /// Wait this many seconds, then try again.
    Retry(u64),
    GiveUp,
}

/// How long to wait before retrying a failed request, when it is worth retrying: model not
/// found or overloaded 10 s, server error 15 s, quota twice the advised delay (5 s when
/// none), a malformed reply 5 s; anything else is final.
pub open spec fn retry_wait(message: Seq<char>, malformed_response: bool, retry_delay: Option<u64>) -> Option<u64> {
    if contains_text(message, "404"@) {
        Some(10)
    } else if contains_text(message, "503"@) {
        Some(10)
    } else if contains_text(message, "500"@) {
        Some(15)
    } else if contains_text(message, "429"@) {
        Some((match retry_delay {
            Some(d) => d,
            None => 5,
        } * 2) as u64)
    } else if malformed_response {
        Some(5)
    } else {
        None
    }
}

/// After `retries` retries: a timeout is retried after 5 s and a retryable error after its
/// wait, while fewer than 12 retries were made; otherwise the request gives up.
/// `retry_delay` is the delay the provider advised in a quota error, if any.
pub fn prompt_retry_decision(retries: u32, failure: &PromptFailure, retry_delay: Option<u64>) -> (r: PromptRetry)
    requires
        retry_delay matches Some(d) ==> d <= u64::MAX / 2,
    ensures
        r == (match failure {
            PromptFailure::TimedOut => if retries < PROMPT_MAX_RETRIES {
                PromptRetry::Retry(5)
            } else {
                PromptRetry::GiveUp
            },
            PromptFailure::Failed { message, malformed_response } => match retry_wait(message@, *malformed_response, retry_delay) {
                Some(w) => if retries >= PROMPT_MAX_RETRIES {
                    PromptRetry::GiveUp
                } else {
                    PromptRetry::Retry(w)
                },
                None => PromptRetry::GiveUp,
            },
        }),
{
    match failure {
        PromptFailure::TimedOut => {
            if retries < PROMPT_MAX_RETRIES {
                PromptRetry::Retry(5)
            } else {
                PromptRetry::GiveUp
            }
        },
        PromptFailure::Failed { message, malformed_response } => {
            let m = message.as_str();
            let wait: Option<u64> = if contains_str(m, "404") {
                Some(10)
            } else if contains_str(m, "503") {
                Some(10)
            } else if contains_str(m, "500") {
                Some(15)
            } else if contains_str(m, "429") {
                let d = match retry_delay {
                    Some(d) => d,
                    None => 5,
                };
                Some(d * 2)
            } else if *malformed_response {
                Some(5)
            } else {
                None
            };
            match wait {
                Some(w) => if retries >= PROMPT_MAX_RETRIES {
                    PromptRetry::GiveUp
                } else {
                    PromptRetry::Retry(w)
                },
                None => PromptRetry::GiveUp,
            }
        },
    }
}

/// The prompt of the next attempt: the prompt, then the correction when there is one.
pub fn effective_prompt(prompt: &str, correction: &str) -> (r: String)
    ensures
        r@ == (if correction@.len() == 0 {
            prompt@
        } else {
            prompt@ + "\n\n"@ + correction@
        }),
{
    let mut s = owned(prompt);
    if correction.unicode_len() > 0 {
        push_str(&mut s, "\n\n");
        push_str(&mut s, correction);
    }
    s
}

/// Why a reply could not be used.
pub enum ParseFailure {
    /// Not YAML; the parser's error text.
    MalformedYaml(String),
    /// The list under `list_key` has `actual` entries (None: no such list), not `expected`.
    WrongCount { list_key: String, expected: usize, actual: Option<usize> },
    /// YAML of the wrong shape; the error text.
    BadStructure(String),
}

/// What serde_yaml reads in a reply: the text of its error when the reply is not YAML;
/// else the length of the sequence under `key` (none when there is no such entry or it is
/// not a sequence).
pub uninterp spec fn yaml_list_len(raw: Seq<char>, key: Seq<char>) -> Result<Option<usize>, Seq<char>>;

/// `serde_yaml::from_str::<serde_yaml::Value>` on the reply, then `Value::get(key)`,
/// `as_sequence` and `len`; a parse error is given by its text (`to_string`). The contract
/// only names the result: which texts parse, and what they hold, is serde_yaml's.
#[verifier::external_body]
fn read_yaml_list_len(raw: &str, key: &str) -> (r: Result<Option<usize>, String>)
    ensures
        match r {
            Ok(n) => yaml_list_len(raw@, key@) == Ok::<Option<usize>, Seq<char>>(n),
            Err(e) => yaml_list_len(raw@, key@) == Err::<Option<usize>, Seq<char>>(e@),
        },
{
    match serde_yaml::from_str::<serde_yaml::Value>(raw) {
        Err(e) => Err(e.to_string()),
        Ok(v) => Ok(v.get(key).and_then(|t| t.as_sequence()).map(|s| s.len())),
    }
}

/// What classifying a reply gives (see `classify_reply`).
pub open spec fn classified(raw: Seq<char>, expected_list: Option<(Seq<char>, usize)>, r: Option<ParseFailure>) -> bool {
    let key = match expected_list {
        Some((k, _)) => k,
        None => Seq::<char>::empty(),
    };
    match yaml_list_len(raw, key) {
        Err(e) => r matches Some(ParseFailure::MalformedYaml(t)) && t@ == e,
        Ok(actual) => match expected_list {
            Some((k, expected)) => if actual != Some(expected) {
                r matches Some(ParseFailure::WrongCount { list_key, expected: x, actual: a })
                    && list_key@ == k && x == expected && a == actual
            } else {
                r is None
            },
            None => r is None,
        },
    }
}

/// Classify the model's reply: `MalformedYaml` with the parser's error when it is not
/// YAML; `WrongCount` when a list of `expected` entries under `list_key` is asked for and
/// the reply's list has another length (or is missing); else nothing is wrong yet.
pub fn classify_reply(raw: &str, expected_list: Option<(&str, usize)>) -> (r: Option<ParseFailure>)
    ensures
        classified(
            raw@,
            match expected_list {
                Some((k, n)) => Some((k@, n)),
                None => None,
            },
            r,
        ),
{
    let key: &str = match expected_list {
        Some((k, _)) => k,
        None => "",
    };
    proof {
        reveal_strlit("");
        assert(key@ == (match expected_list {
            Some((k, _)) => k@,
            None => Seq::<char>::empty(),
        }));
    }
    match read_yaml_list_len(raw, key) {
        Err(e) => Some(ParseFailure::MalformedYaml(e)),
        Ok(actual) => match expected_list {
            Some((k, expected)) => {
                let matches = match actual {
                    Some(n) => n == expected,
                    None => false,
                };
                if !matches {
                    Some(ParseFailure::WrongCount { list_key: owned(k), expected, actual })
                } else {
                    None
                }
            },
            None => None,
        },
    }
}

/// `{:?}` of an optional count.
pub open spec fn opt_count_text(n: Option<usize>) -> Seq<char> {
    match n {
        Some(k) => "Some("@ + dec(k as nat) + ")"@,
        None => "None"@,
    }
}

fn push_opt_count(s: &mut String, n: Option<usize>)
    ensures
        final(s)@ == old(s)@ + opt_count_text(n),
{
    match n {
        Some(k) => {
            push_str(s, "Some(");
            push_dec(s, k as u64);
            push_str(s, ")");
        },
        None => {
            push_str(s, "None");
        },
    }
}

/// The kind, the error line and the final failure message of an unusable reply.
pub open spec fn failure_texts(f: ParseFailure) -> (Seq<char>, Seq<char>, Seq<char>) {
    match f {
        ParseFailure::MalformedYaml(e) => (
            "malformed YAML"@,
            e@,
            "LLM returned malformed YAML after 5 retries: "@ + e@,
        ),
        ParseFailure::WrongCount { list_key, expected, actual } => if list_key@ == "trials"@ {
            (
                "wrong trial count"@,
                "expected "@ + dec(expected as nat) + " trial strings, got "@ + opt_count_text(actual),
                "LLM returned wrong trial count after 5 retries: expected "@ + dec(expected as nat) + ", got "@
                    + opt_count_text(actual),
            )
        } else {
            (
                "wrong list count"@,
                "expected "@ + dec(expected as nat) + " "@ + list_key@ + " entries, got "@ + opt_count_text(actual),
                "LLM returned wrong "@ + list_key@ + " count after 5 retries: expected "@ + dec(expected as nat)
                    + ", got "@ + opt_count_text(actual),
            )
        },
        ParseFailure::BadStructure(e) => (
            "unexpected YAML structure"@,
            e@,
            "LLM returned unexpected YAML structure after 5 retries: "@ + e@,
        ),
    }
}

/// After an unusable reply: the correction for the next attempt (counting the retry), or,
/// once the retries are spent, the message the request fails with.
pub fn parse_retry_step(retries: &mut u32, raw: &str, failure: &ParseFailure) -> (r: Result<String, String>)
    requires
        *old(retries) < YAML_PARSE_RETRIES ==> cuttable(raw@, RAW_PREVIEW_BYTES as nat),
    ensures
        *old(retries) >= YAML_PARSE_RETRIES ==> *final(retries) == *old(retries) && (r matches Err(m) && m@
            == failure_texts(*failure).2),
        *old(retries) < YAML_PARSE_RETRIES ==> *final(retries) == *old(retries) + 1 && (r matches Ok(c) && c@
            == yaml_correction_text(
            failure_texts(*failure).0,
            failure_texts(*failure).1,
            truncated_for_log(raw@, RAW_PREVIEW_BYTES as nat),
        )),
{
    let (kind, error, fail) = match failure {
        ParseFailure::MalformedYaml(e) => {
            let mut f = owned("LLM returned malformed YAML after 5 retries: ");
            push_str(&mut f, e.as_str());
            (owned("malformed YAML"), e.clone(), f)
        },
        ParseFailure::WrongCount { list_key, expected, actual } => {
            if crate::text::str_eq(list_key.as_str(), "trials") {
                let mut m = owned("expected ");
                push_dec(&mut m, *expected as u64);
                push_str(&mut m, " trial strings, got ");
                push_opt_count(&mut m, *actual);
                let mut f = owned("LLM returned wrong trial count after 5 retries: expected ");
                push_dec(&mut f, *expected as u64);
                push_str(&mut f, ", got ");
                push_opt_count(&mut f, *actual);
                (owned("wrong trial count"), m, f)
            } else {
                let mut m = owned("expected ");
                push_dec(&mut m, *expected as u64);
                push_str(&mut m, " ");
                push_str(&mut m, list_key.as_str());
                push_str(&mut m, " entries, got ");
                push_opt_count(&mut m, *actual);
                let mut f = owned("LLM returned wrong ");
                push_str(&mut f, list_key.as_str());
                push_str(&mut f, " count after 5 retries: expected ");
                push_dec(&mut f, *expected as u64);
                push_str(&mut f, ", got ");
                push_opt_count(&mut f, *actual);
                (owned("wrong list count"), m, f)
            }
        },
        ParseFailure::BadStructure(e) => {
            let mut f = owned("LLM returned unexpected YAML structure after 5 retries: ");
            push_str(&mut f, e.as_str());
            (owned("unexpected YAML structure"), e.clone(), f)
        },
    };
    match yaml_retry(retries, raw, kind.as_str(), error.as_str()) {
        Some(c) => Ok(c),
        None => Err(fail),
    }
}


/// What to do with a reply of the model: read it into its answer type; ask again with a
/// correction; or give up with a message.
pub enum ReplyStep {
    Read,
    Retry(String),
    Fail(String),
}

/// One round of reading a reply: a reply that passes `classify_reply` is read; else, as
/// `parse_retry_step` decides for its failure, the next attempt gets a correction (the
/// retry counted) or, with the retries spent, the request fails.
pub fn reply_step(retries: &mut u32, raw: &str, expected_list: Option<(&str, usize)>) -> (r: ReplyStep)
    requires
        *old(retries) < YAML_PARSE_RETRIES ==> cuttable(raw@, RAW_PREVIEW_BYTES as nat),
    ensures
        ({
            let el = match expected_list {
                Some((k, n)) => Some((k@, n)),
                None => None,
            };
            &&& classified(raw@, el, None) ==> r is Read && *final(retries) == *old(retries)
            &&& forall|f: ParseFailure| #[trigger] classified(raw@, el, Some(f)) ==> {
                &&& *old(retries) >= YAML_PARSE_RETRIES ==> *final(retries) == *old(retries)
                    && (r matches ReplyStep::Fail(m) && m@ == failure_texts(f).2)
                &&& *old(retries) < YAML_PARSE_RETRIES ==> *final(retries) == *old(retries) + 1
                    && (r matches ReplyStep::Retry(c) && c@ == yaml_correction_text(
                    failure_texts(f).0,
                    failure_texts(f).1,
                    truncated_for_log(raw@, RAW_PREVIEW_BYTES as nat),
                ))
            }
        }),
{
    match classify_reply(raw, expected_list) {
        None => ReplyStep::Read,
        Some(f) => match parse_retry_step(retries, raw, &f) {
            Ok(c) => ReplyStep::Retry(c),
            Err(m) => ReplyStep::Fail(m),
        },
    }
}

} // verus!
