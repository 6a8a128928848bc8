//! Preparation of payload-generation requests and cleanup of the replies.
//!
//! The request itself is one HTTP call made by the caller; this module
//! checks and merges the settings beforehand and turns the model's reply
//! into JSON text afterwards.
use vstd::prelude::*;
use crate::models::AiConfig;
use crate::strings::{has_prefix, is_blank, starts_with, trim, trimmed};
use crate::text::{char_vec, matches_at, push_char, push_str};

verus! {

/// The value of an option: the override when present, else the default.
pub open spec fn either(over: Option<String>, default: Option<String>) -> Option<String> {
    if over is Some {
        over
    } else {
        default
    }
}

fn copy_either(over: &Option<String>, default: &Option<String>) -> (r: Option<String>)
    ensures
        r == either(*over, *default),
{
    match over {
        Some(s) => Some(s.clone()),
        None => match default {
            Some(s) => Some(s.clone()),
            None => None,
        },
    }
}

/// Settings for one request: each field of `options`, when given, overrides
/// the default.
pub open spec fn merged(defaults: AiConfig, options: Option<AiConfig>) -> AiConfig {
    match options {
        Some(o) => AiConfig {
            base_url: either(o.base_url, defaults.base_url),
            api_key: either(o.api_key, defaults.api_key),
            model: either(o.model, defaults.model),
        },
        None => defaults,
    }
}

/// See [`merged`].
pub fn merge_config(defaults: &AiConfig, options: &Option<AiConfig>) -> (r: AiConfig)
    ensures
        r == merged(*defaults, *options),
{
    let none: Option<String> = None;
    match options {
        Some(o) => AiConfig {
            base_url: copy_either(&o.base_url, &defaults.base_url),
            api_key: copy_either(&o.api_key, &defaults.api_key),
            model: copy_either(&o.model, &defaults.model),
        },
        None => AiConfig {
            base_url: copy_either(&defaults.base_url, &none),
            api_key: copy_either(&defaults.api_key, &none),
            model: copy_either(&defaults.model, &none),
        },
    }
}

/// `s` with every occurrence of the non-empty `pat` removed, scanning from
/// the left without overlaps.
pub open spec fn remove_all(s: Seq<char>, pat: Seq<char>) -> Seq<char>
    decreases s.len(),
{
    if s.len() == 0 || pat.len() == 0 {
        s
    } else if has_prefix(s, pat) {
        remove_all(s.subrange(pat.len() as int, s.len() as int), pat)
    } else {
        seq![s[0]] + remove_all(s.drop_first(), pat)
    }
}

/// See [`remove_all`].
fn remove_pattern(s: &str, pat: &str) -> (r: String)
    requires
        pat@.len() > 0,
    ensures
        r@ == remove_all(s@, pat@),
{
    let chars = char_vec(s);
    let p = char_vec(pat);
    let mut out = String::new();
    let mut i: usize = 0;
    assert(chars@.subrange(0, chars@.len() as int) =~= chars@);
    assert(out@ + remove_all(chars@, pat@) =~= remove_all(chars@, pat@));
    while i < chars.len()
        invariant
            chars@ == s@,
            p@ == pat@,
            p@.len() > 0,
            i <= chars@.len(),
            remove_all(s@, pat@) == out@ + remove_all(chars@.subrange(i as int, chars@.len() as int), pat@),
        decreases chars@.len() - i,
    {
        let ghost rest = chars@.subrange(i as int, chars@.len() as int);
        if matches_at(&chars, i, &p) {
            assert(rest.subrange(p@.len() as int, rest.len() as int) =~= chars@.subrange(
                i + p@.len(),
                chars@.len() as int,
            ));
            i += p.len();
        } else {
            push_char(&mut out, chars[i]);
            assert(rest.drop_first() =~= chars@.subrange(i + 1, chars@.len() as int));
            assert(rest[0] == chars@[i as int]);
            i += 1;
        }
    }
    assert(chars@.subrange(i as int, chars@.len() as int) =~= Seq::<char>::empty());
    assert(out@ + Seq::<char>::empty() =~= out@);
    out
}

/// A reply with its Markdown code fences removed: every "```json", then
/// every "```", then the surrounding white space.
pub open spec fn without_fences(raw: Seq<char>) -> Seq<char> {
    trimmed(remove_all(remove_all(raw, "```json"@), "```"@))
}

/// See [`without_fences`].
pub fn strip_markdown_fences(raw: &str) -> (r: String)
    ensures
        r@ == without_fences(raw@),
{
    proof {
        reveal_strlit("```json");
        reveal_strlit("```");
    }
    let a = remove_pattern(raw, "```json");
    let b = remove_pattern(a.as_str(), "```");
    String::from_str(trim(b.as_str()))
}

/// Whether a base URL is accepted: it starts with `http://` or `https://`.
pub open spec fn valid_base_url(s: Seq<char>) -> bool {
    has_prefix(s, "http://"@) || has_prefix(s, "https://"@)
}

/// Checks a base URL; see [`valid_base_url`].
pub fn validate_base_url(value: &str) -> (r: Result<(), String>)
    ensures
        valid_base_url(value@) ==> r is Ok,
        !valid_base_url(value@) ==> (r matches Err(e) && e@
            == "AI base URL must start with http:// or https://"@),
{
    if starts_with(value, "http://") || starts_with(value, "https://") {
        return Ok(());
    }
    Err(String::from_str("AI base URL must start with http:// or https://"))
}

/// Where the scan for a JSON candidate stands.
pub struct ScanState {
    pub in_string: bool,
    pub escaped: bool,
    pub start: Option<int>,
    pub brace: int,
    pub bracket: int,
}

pub open spec fn scan_init() -> ScanState {
    ScanState { in_string: false, escaped: false, start: None, brace: 0, bracket: 0 }
}

/// One character of the scan, at index `idx`: string literals are skipped
/// (with backslash escapes), the first `{` or `[` starts the candidate, and
/// the candidate ends where braces and brackets both balance again. The
/// second component is the end index when the candidate ends here.
pub open spec fn scan_step(st: ScanState, c: char, idx: int) -> (ScanState, Option<int>) {
    if st.in_string {
        if st.escaped {
            (ScanState { escaped: false, ..st }, None)
        } else if c == '\\' {
            (ScanState { escaped: true, ..st }, None)
        } else if c == '"' {
            (ScanState { in_string: false, ..st }, None)
        } else {
            (st, None)
        }
    } else if c == '"' {
        (ScanState { in_string: true, ..st }, None)
    } else if st.start is None {
        if c == '{' {
            (ScanState { start: Some(idx), brace: 1, ..st }, None)
        } else if c == '[' {
            (ScanState { start: Some(idx), bracket: 1, ..st }, None)
        } else {
            (st, None)
        }
    } else {
        let b = if c == '{' {
            st.brace + 1
        } else if c == '}' {
            st.brace - 1
        } else {
            st.brace
        };
        let k = if c == '[' {
            st.bracket + 1
        } else if c == ']' {
            st.bracket - 1
        } else {
            st.bracket
        };
        (ScanState { brace: b, bracket: k, ..st }, if b == 0 && k == 0 {
            Some(idx)
        } else {
            None
        })
    }
}

/// The scan over `s`: the state after it and the end of the candidate, once
/// one has ended (the scan stops there).
pub open spec fn scan(s: Seq<char>) -> (ScanState, Option<int>)
    decreases s.len(),
{
    if s.len() == 0 {
        (scan_init(), None)
    } else {
        let prev = scan(s.drop_last());
        if prev.1 is Some {
            prev
        } else {
            scan_step(prev.0, s.last(), s.len() - 1)
        }
    }
}

/// The first balanced JSON object or array in `s`, outside string literals.
pub open spec fn json_candidate(s: Seq<char>) -> Option<Seq<char>> {
    let r = scan(s);
    match (r.0.start, r.1) {
        (Some(a), Some(e)) => Some(s.subrange(a, e + 1)),
        _ => None,
    }
}

proof fn lemma_scan_stays(s: Seq<char>, j: int)
    requires
        0 <= j <= s.len(),
        scan(s.subrange(0, j)).1 is Some,
    ensures
        scan(s) == scan(s.subrange(0, j)),
    decreases s.len() - j,
{
    if j < s.len() {
        let t = s.subrange(0, j + 1);
        assert(t.drop_last() =~= s.subrange(0, j));
        lemma_scan_stays(s, j + 1);
    } else {
        assert(s.subrange(0, j) =~= s);
    }
}

proof fn lemma_scan_start(s: Seq<char>)
    ensures
        scan(s).1 matches Some(e) ==> (scan(s).0.start matches Some(a) && 0 <= a <= e < s.len()),
        scan(s).1 is None ==> (scan(s).0.start matches Some(a) ==> 0 <= a < s.len()),
        -s.len() <= scan(s).0.brace <= s.len(),
        -s.len() <= scan(s).0.bracket <= s.len(),
    decreases s.len(),
{
    if s.len() > 0 {
        lemma_scan_start(s.drop_last());
    }
}

/// See [`json_candidate`].
pub fn extract_json_candidate(raw: &str) -> (r: Option<String>)
    ensures
        r is None <==> json_candidate(raw@) is None,
        r matches Some(c) ==> json_candidate(raw@) == Some(c@),
{
    let chars = char_vec(raw);
    let mut start: Option<usize> = None;
    let mut brace: i128 = 0;
    let mut bracket: i128 = 0;
    let mut in_string = false;
    let mut escaped = false;
    let mut i: usize = 0;
    while i < chars.len()
        invariant
            chars@ == raw@,
            i <= chars@.len(),
            scan(chars@.subrange(0, i as int)).1 is None,
            ({
                let st = scan(chars@.subrange(0, i as int)).0;
                &&& st.in_string == in_string
                &&& st.escaped == escaped
                &&& st.brace == brace as int
                &&& st.bracket == bracket as int
                &&& (st.start is None <==> start is None)
                &&& (start matches Some(a) ==> st.start == Some(a as int) && a < i)
            }),
        decreases chars@.len() - i,
    {
        let c = chars[i];
        let ghost pre = chars@.subrange(0, i + 1);
        proof {
            assert(pre.drop_last() =~= chars@.subrange(0, i as int));
            assert(pre.last() == c);
            lemma_scan_start(chars@.subrange(0, i as int));
        }
        if in_string {
            if escaped {
                escaped = false;
            } else if c == '\\' {
                escaped = true;
            } else if c == '"' {
                in_string = false;
            }
        } else if c == '"' {
            in_string = true;
        } else if start.is_none() {
            if c == '{' {
                start = Some(i);
                brace = 1;
            } else if c == '[' {
                start = Some(i);
                bracket = 1;
            }
        } else {
            if c == '{' {
                brace = brace + 1;
            } else if c == '}' {
                brace = brace - 1;
            } else if c == '[' {
                bracket = bracket + 1;
            } else if c == ']' {
                bracket = bracket - 1;
            }
            if brace == 0 && bracket == 0 {
                let a = match start {
                    Some(a) => a,
                    None => 0,
                };
                proof {
                    lemma_scan_stays(chars@, i + 1);
                }
                let mut out = String::new();
                let n: usize = chars.len();
                let mut k: usize = a;
                while k <= i
                    invariant
                        a <= k <= i + 1,
                        n == chars@.len(),
                        i < n,
                        out@ == chars@.subrange(a as int, k as int),
                    decreases i + 1 - k,
                {
                    push_char(&mut out, chars[k]);
                    assert(out@ =~= chars@.subrange(a as int, k + 1));
                    k += 1;
                }
                return Some(out);
            }
        }
        i += 1;
    }
    assert(chars@.subrange(0, i as int) =~= chars@);
    None
}

/// A setting that counts as given: present and not blank, then trimmed.
pub open spec fn given(o: Option<String>) -> Option<Seq<char>> {
    match o {
        Some(s) => if is_blank(s@) {
            None
        } else {
            Some(trimmed(s@))
        },
        None => None,
    }
}

/// The instruction sent to the model.
pub open spec fn prompt_text(topic: Seq<char>, description: Seq<char>) -> Seq<char> {
    "You are an MQTT payload generator. Topic: \""@ + topic + "\". Description: \""@ + description
        + "\". Return only valid JSON with no markdown fences."@
}

/// A checked generation request.
#[derive(Debug)]
pub struct GenerationRequest {
    pub api_key: String,
    pub base_url: String,
    pub model: String,
    pub prompt: String,
}

/// The request for a topic and description under the merged settings, or
/// the first problem found: a blank topic, then a missing key, a missing or
/// malformed base URL, a missing model. Yields key, base URL, model, prompt.
pub open spec fn request_for(
    topic: Seq<char>,
    description: Seq<char>,
    cfg: AiConfig,
) -> Result<(Seq<char>, Seq<char>, Seq<char>, Seq<char>), Seq<char>> {
    if is_blank(topic) {
        Err("Topic is required for AI generation"@)
    } else if given(cfg.api_key) is None {
        Err("AI API key is missing"@)
    } else if given(cfg.base_url) is None {
        Err("AI base URL is missing"@)
    } else if !valid_base_url(given(cfg.base_url)->0) {
        Err("AI base URL must start with http:// or https://"@)
    } else if given(cfg.model) is None {
        Err("AI model is missing"@)
    } else {
        Ok(
            (
                given(cfg.api_key)->0,
                given(cfg.base_url)->0,
                given(cfg.model)->0,
                prompt_text(trimmed(topic), description),
            ),
        )
    }
}

fn given_text(o: &Option<String>) -> (r: Option<String>)
    ensures
        r is None <==> given(*o) is None,
        r matches Some(t) ==> given(*o) == Some(t@),
{
    match o {
        Some(s) => {
            let t = trim(s.as_str());
            if t.is_empty() {
                None
            } else {
                Some(String::from_str(t))
            }
        },
        None => None,
    }
}

/// Checks the settings and builds the request; see [`request_for`].
pub fn prepare_generation(
    topic: &str,
    description: &str,
    defaults: &AiConfig,
    options: &Option<AiConfig>,
) -> (r: Result<GenerationRequest, String>)
    ensures
        r matches Ok(g) ==> request_for(topic@, description@, merged(*defaults, *options)) == Ok::<
            (Seq<char>, Seq<char>, Seq<char>, Seq<char>),
            Seq<char>,
        >((g.api_key@, g.base_url@, g.model@, g.prompt@)),
        r matches Err(e) ==> request_for(topic@, description@, merged(*defaults, *options)) == Err::<
            (Seq<char>, Seq<char>, Seq<char>, Seq<char>),
            Seq<char>,
        >(e@),
{
    let cfg = merge_config(defaults, options);
    let t = trim(topic);
    if t.is_empty() {
        return Err(String::from_str("Topic is required for AI generation"));
    }
    let api_key = match given_text(&cfg.api_key) {
        Some(k) => k,
        None => return Err(String::from_str("AI API key is missing")),
    };
    let base_url = match given_text(&cfg.base_url) {
        Some(u) => u,
        None => return Err(String::from_str("AI base URL is missing")),
    };
    match validate_base_url(base_url.as_str()) {
        Ok(_) => {},
        Err(e) => return Err(e),
    }
    let model = match given_text(&cfg.model) {
        Some(m) => m,
        None => return Err(String::from_str("AI model is missing")),
    };
    let mut prompt = String::from_str("You are an MQTT payload generator. Topic: \"");
    push_str(&mut prompt, t);
    push_str(&mut prompt, "\". Description: \"");
    push_str(&mut prompt, description);
    push_str(&mut prompt, "\". Return only valid JSON with no markdown fences.");
    Ok(GenerationRequest { api_key, base_url, model, prompt })
}

/// What `serde_json::from_str::<serde_json::Value>` accepts: whether `s` is
/// one well-formed JSON value.
pub uninterp spec fn json_valid(s: Seq<char>) -> bool;

/// Relies on `serde_json::from_str` into a `serde_json::Value`: whether the
/// text parses as JSON.
#[verifier::external_body]
fn is_valid_json(s: &str) -> (r: bool)
    ensures
        r == json_valid(s@),
{
    serde_json::from_str::<serde_json::Value>(s).is_ok()
}

/// The JSON text a reply stands for: the reply without fences when that
/// parses, else its first balanced object or array when that parses.
pub open spec fn reply_json(raw: Seq<char>) -> Result<Seq<char>, Seq<char>> {
    let cleaned = without_fences(raw);
    if cleaned.len() == 0 {
        Err("AI returned an empty payload"@)
    } else if json_valid(cleaned) {
        Ok(cleaned)
    } else {
        match json_candidate(cleaned) {
            None => Err("AI output does not contain a valid JSON object or array"@),
            Some(c) => if json_valid(c) {
                Ok(c)
            } else {
                Err("AI output contains malformed JSON"@)
            },
        }
    }
}

/// See [`reply_json`].
pub fn normalize_response_to_json(raw: &str) -> (r: Result<String, String>)
    ensures
        r matches Ok(t) ==> reply_json(raw@) == Ok::<Seq<char>, Seq<char>>(t@),
        r matches Err(e) ==> reply_json(raw@) == Err::<Seq<char>, Seq<char>>(e@),
{
    let cleaned = strip_markdown_fences(raw);
    if cleaned.as_str().is_empty() {
        return Err(String::from_str("AI returned an empty payload"));
    }
    if is_valid_json(cleaned.as_str()) {
        return Ok(cleaned);
    }
    match extract_json_candidate(cleaned.as_str()) {
        None => Err(String::from_str("AI output does not contain a valid JSON object or array")),
        Some(c) => if is_valid_json(c.as_str()) {
            Ok(c)
        } else {
            Err(String::from_str("AI output contains malformed JSON"))
        },
    }
}

} // verus!
