//! Alignment evaluation: prompts for the generation service and the tolerant
//! parse of its reply.
//!
//! The HTTP transport is the caller's business: it posts the prompts this
//! module builds to the service's generation endpoint and hands the reply's
//! `response` text and `done` flag back to
//! [`OllamaClient::evaluate_generation_response`]. Everything on either side
//! of the wire — prompt construction, the completion check, the extraction
//! of a JSON object out of prose, field reading, defaulting and clamping —
//! is verified here.
//!
//! Scores are kept in thousandths: an alignment score or confidence of `n`
//! thousandths stands for the value `n / 1000` in `[0.0, 1.0]`. Parsed
//! numbers are truncated toward zero at thousandth precision and clamped
//! into that range.

use vstd::prelude::*;
use vstd::string::StringExecFns;

use crate::json::{
    chars_to_string, clamped_milli, lookup_member, parse_object_text, str_to_chars,
    spec_clamped_milli, spec_lookup, spec_object_failure, spec_parse_object, JsonObjectError,
    JsonValue, ValueModel,
};

verus! {

/// The structured judgment of how well current activity matches a stated
/// intention. Transient: produced fresh on every evaluation, never stored.
#[derive(Debug, Clone)]
pub struct AlignmentEvaluation {
    /// Alignment in thousandths, always in `[0, 1000]`.
    pub alignment_score_milli: u32,
    /// The model's reasoning, or a fixed placeholder when it gave none.
    pub reasoning: String,
    /// An optional suggestion; absent when the model gave none.
    pub suggestion: Option<String>,
    /// Confidence in thousandths, always in `[0, 1000]`.
    pub confidence_milli: u32,
}

/// Mathematical model of an [`AlignmentEvaluation`].
#[verifier::ext_equal]
pub ghost struct EvaluationModel {
    pub alignment_score_milli: int,
    pub reasoning: Seq<char>,
    pub suggestion: Option<Seq<char>>,
    pub confidence_milli: int,
}

impl View for AlignmentEvaluation {
    type V = EvaluationModel;

    open spec fn view(&self) -> EvaluationModel {
        EvaluationModel {
            alignment_score_milli: self.alignment_score_milli as int,
            reasoning: self.reasoning@,
            suggestion: match self.suggestion {
                Some(ref s) => Some(s@),
                None => None,
            },
            confidence_milli: self.confidence_milli as int,
        }
    }
}

/// Failures of an alignment evaluation.
#[derive(Debug)]
pub enum OllamaError {
    /// The generation service could not be reached, with the transport's
    /// message. The verified pipeline never produces it; the caller that
    /// performs the HTTP request maps its failures to this variant.
    NetworkError(String),
    /// The reply's envelope could not be decoded, with the decoder's
    /// message. Produced by the caller that decodes the wire format.
    JsonParseError(String),
    /// The service reported a model-level failure, with its message.
    ModelError(String),
    /// The generation was incomplete, or its text held no readable JSON
    /// object.
    InvalidResponse(String),
}

impl OllamaError {
    /// A one-line description of the failure.
    pub fn describe(&self) -> (r: String)
        ensures
            r@ == spec_describe_ollama_error(self),
    {
        let (prefix, payload): (&str, &String) = match self {
            OllamaError::NetworkError(e) => ("Network error: ", e),
            OllamaError::JsonParseError(e) => ("Json Parse error: ", e),
            OllamaError::ModelError(e) => ("Model error: ", e),
            OllamaError::InvalidResponse(e) => ("Invalid Response: ", e),
        };
        let mut s = String::from_str(prefix);
        s.append(payload.as_str());
        s
    }
}

/// The text [`OllamaError::describe`] returns.
pub open spec fn spec_describe_ollama_error(e: &OllamaError) -> Seq<char> {
    match e {
        OllamaError::NetworkError(m) => "Network error: "@ + m@,
        OllamaError::JsonParseError(m) => "Json Parse error: "@ + m@,
        OllamaError::ModelError(m) => "Model error: "@ + m@,
        OllamaError::InvalidResponse(m) => "Invalid Response: "@ + m@,
    }
}

/// Position of the first `{` at or after `i`, or the length if none.
pub open spec fn spec_first_brace(s: Seq<char>, i: int) -> int
    decreases s.len() - i,
{
    if 0 <= i < s.len() {
        if s[i] == '{' {
            i
        } else {
            spec_first_brace(s, i + 1)
        }
    } else {
        s.len() as int
    }
}

/// Position of the last `}` at or before `i`, or `-1` if none.
pub open spec fn spec_last_brace(s: Seq<char>, i: int) -> int
    decreases i + 1,
{
    if i < 0 {
        -1
    } else if 0 <= i < s.len() && s[i] == '}' {
        i
    } else {
        spec_last_brace(s, i - 1)
    }
}

/// The span the tolerant extraction reads: from the first `{` (or the start,
/// if there is none) through the last `}` (or the end, if there is none).
/// When the last `}` lies before the first `{` nothing sensible remains and
/// the span is empty. This heuristic tolerates prose around one object but
/// can mis-extract when several JSON fragments or stray braces appear; that
/// limit is accepted rather than hardened against.
pub open spec fn spec_extract_span(s: Seq<char>) -> Seq<char> {
    let fb = spec_first_brace(s, 0);
    let start = if fb < s.len() {
        fb
    } else {
        0
    };
    let lb = spec_last_brace(s, s.len() - 1);
    let end = if lb >= 0 {
        lb + 1
    } else {
        s.len() as int
    };
    if start <= end {
        s.subrange(start, end)
    } else {
        Seq::empty()
    }
}

/// A field read as a number, in clamped thousandths; the default where the
/// field is absent or not a number.
pub open spec fn spec_field_milli(
    ms: Seq<(Seq<char>, ValueModel)>,
    key: Seq<char>,
    default: int,
) -> int {
    match spec_lookup(ms, key) {
        Some(v) => match v {
            ValueModel::Num(n) => spec_clamped_milli(n),
            _ => default,
        },
        None => default,
    }
}

/// A field read as text; absent where the field is missing or not a string.
pub open spec fn spec_field_text(ms: Seq<(Seq<char>, ValueModel)>, key: Seq<char>) -> Option<
    Seq<char>,
> {
    match spec_lookup(ms, key) {
        Some(v) => match v {
            ValueModel::Str(c) => Some(c),
            _ => None,
        },
        None => None,
    }
}

/// The evaluation parsed out of a raw model reply: the extracted span must
/// parse as one JSON object; then `alignment_score` defaults to 0 and
/// `confidence` to 500 thousandths where absent or of the wrong type,
/// `reasoning` falls back to a fixed placeholder, `suggestion` stays absent,
/// and both scores are clamped into `[0, 1000]` thousandths.
pub open spec fn spec_parse_alignment(s: Seq<char>) -> Option<EvaluationModel> {
    match spec_parse_object(spec_extract_span(s)) {
        None => None,
        Some(ms) => Some(
            EvaluationModel {
                alignment_score_milli: spec_field_milli(ms, "alignment_score"@, 0),
                reasoning: match spec_field_text(ms, "reasoning"@) {
                    Some(t) => t,
                    None => "No reasoning provided"@,
                },
                suggestion: spec_field_text(ms, "suggestion"@),
                confidence_milli: spec_field_milli(ms, "confidence"@, 500),
            },
        ),
    }
}

/// The message carried by the completion failure.
pub open spec fn spec_incomplete_message() -> Seq<char> {
    "Response not complete"@
}

/// The message carried by the extraction-or-parse failure: it names the
/// reason the extracted span is not one JSON object.
pub open spec fn spec_invalid_json_message(s: Seq<char>) -> Seq<char> {
    match spec_object_failure(spec_extract_span(s)) {
        JsonObjectError::NoObject => "Invalid JSON: the response holds no JSON object"@,
        JsonObjectError::MalformedObject => "Invalid JSON: malformed object in the response"@,
        JsonObjectError::TrailingText => "Invalid JSON: text follows the object in the response"@,
    }
}

/// Scores are always clamped: whatever the model replied, a parsed
/// evaluation's alignment score and confidence lie within `[0, 1]` — in
/// thousandths, within `[0, 1000]`.
pub proof fn lemma_scores_clamped(s: Seq<char>)
    ensures
        spec_parse_alignment(s) matches Some(ev) ==> 0 <= ev.alignment_score_milli <= 1000 && 0
            <= ev.confidence_milli <= 1000,
{
    if spec_parse_alignment(s) is Some {
        let ms = spec_parse_object(spec_extract_span(s))->0;
        match spec_lookup(ms, "alignment_score"@) {
            Some(v) => match v {
                ValueModel::Num(num) => {
                    crate::json::lemma_prefix_val_nonneg(num.digits, num.point + 3);
                },
                _ => {},
            },
            None => {},
        }
        match spec_lookup(ms, "confidence"@) {
            Some(v) => match v {
                ValueModel::Num(num) => {
                    crate::json::lemma_prefix_val_nonneg(num.digits, num.point + 3);
                },
                _ => {},
            },
            None => {},
        }
    }
}

/// Mathematical model of an [`OllamaClient`]: the service's base URL and the
/// model identifier sent with each request.
#[verifier::ext_equal]
pub ghost struct ClientModel {
    pub base_url: Seq<char>,
    pub model: Seq<char>,
}

/// A client of the local generation service. It holds the connection
/// parameters and the verified halves of an evaluation — prompt building and
/// reply parsing; the caller carries bytes between them and the service.
pub struct OllamaClient {
    base_url: String,
    model: String,
}

impl View for OllamaClient {
    type V = ClientModel;

    closed spec fn view(&self) -> ClientModel {
        ClientModel { base_url: self.base_url@, model: self.model@ }
    }
}

impl OllamaClient {
    /// A client for the service at `base_url`, asking for `model`.
    pub fn new(base_url: String, model: String) -> (r: Self)
        ensures
            r@.base_url == base_url@,
            r@.model == model@,
    {
        OllamaClient { base_url, model }
    }

    /// The service's base URL.
    pub fn base_url(&self) -> (r: &String)
        ensures
            r@ == self@.base_url,
    {
        &self.base_url
    }

    /// The model identifier sent with each request.
    pub fn model(&self) -> (r: &String)
        ensures
            r@ == self@.model,
    {
        &self.model
    }

    /// The fixed system prompt: it instructs the model to reply with a
    /// single JSON object holding exactly the keys `alignment_score`,
    /// `reasoning`, `suggestion` and `confidence`.
    pub fn build_system_prompt(&self) -> (r: String)
        ensures
            r@ == spec_system_prompt(),
    {
        String::from_str(SYSTEM_PROMPT)
    }

    /// The user prompt: the intention and the snapshot's application name,
    /// window title and bundle id, interpolated into a fixed template.
    pub fn build_user_prompt(&self, intention: &str, app: &crate::monitor::AppInfo) -> (r: String)
        ensures
            r@ == spec_user_prompt(intention@, app@),
    {
        let mut s = String::from_str("User's Intention: \"");
        s.append(intention);
        s.append("\"\n\nCurrent Activity:\n- Application: ");
        s.append(app.app_name.as_str());
        s.append("\n- Window Title: ");
        s.append(app.window_title.as_str());
        s.append("\n- Bundle ID: ");
        s.append(app.bundle_id.as_str());
        s.append(
            "\n\nPlease evaluate how well this current activity aligns with the user's intention.",
        );
        s
    }

    /// Parses a raw model reply into an evaluation: extracts the span from
    /// the first `{` to the last `}` (tolerating prose around it), parses it
    /// as a JSON object, reads the four fields with their defaults and
    /// clamps both scores. Fails with [`OllamaError::InvalidResponse`],
    /// carrying the reason, exactly when the span does not parse.
    pub fn parse_alignment_response(&self, response: &str) -> (r: Result<
        AlignmentEvaluation,
        OllamaError,
    >)
        ensures
            match spec_parse_alignment(response@) {
                Some(ev) => r matches Ok(e) && e@ == ev && e.alignment_score_milli <= 1000
                    && e.confidence_milli <= 1000,
                None => r matches Err(OllamaError::InvalidResponse(m)) && m@
                    == spec_invalid_json_message(response@),
            },
    {
        let chars = str_to_chars(response);
        let n: usize = chars.len();
        let mut fb: usize = 0;
        while fb < n && !(chars[fb] == '{')
            invariant
                fb <= n,
                n == chars@.len(),
                spec_first_brace(chars@, 0) == spec_first_brace(chars@, fb as int),
            decreases n - fb,
        {
            fb = fb + 1;
        }
        let start: usize = if fb < n {
            fb
        } else {
            0
        };
        let mut k: usize = n;
        while k > 0 && !(chars[k - 1] == '}')
            invariant
                k <= n,
                n == chars@.len(),
                spec_last_brace(chars@, n as int - 1) == spec_last_brace(chars@, k as int - 1),
            decreases k,
        {
            k = k - 1;
        }
        let end: usize = if k > 0 {
            k
        } else {
            n
        };
        let mut span: Vec<char> = Vec::new();
        if start <= end {
            let mut q: usize = start;
            while q < end
                invariant
                    start <= q <= end <= n,
                    n == chars@.len(),
                    span@ == chars@.subrange(start as int, q as int),
                decreases end - q,
            {
                proof {
                    assert(chars@.subrange(start as int, q as int + 1) =~= chars@.subrange(
                        start as int,
                        q as int,
                    ).push(chars@[q as int]));
                }
                span.push(chars[q]);
                q = q + 1;
            }
        }
        proof {
            assert(span@ == spec_extract_span(response@));
        }
        match parse_object_text(&span) {
            Err(reason) => {
                let msg = match reason {
                    JsonObjectError::NoObject => String::from_str(
                        "Invalid JSON: the response holds no JSON object",
                    ),
                    JsonObjectError::MalformedObject => String::from_str(
                        "Invalid JSON: malformed object in the response",
                    ),
                    JsonObjectError::TrailingText => String::from_str(
                        "Invalid JSON: text follows the object in the response",
                    ),
                };
                Err(OllamaError::InvalidResponse(msg))
            },
            Ok(ms) => {
                let score_milli: u32 = match lookup_member(&ms, "alignment_score") {
                    Some(v) => match v {
                        JsonValue::Num(num) => clamped_milli(num),
                        _ => 0,
                    },
                    None => 0,
                };
                let reasoning: String = match lookup_member(&ms, "reasoning") {
                    Some(v) => match v {
                        JsonValue::Str(c) => chars_to_string(c),
                        _ => String::from_str("No reasoning provided"),
                    },
                    None => String::from_str("No reasoning provided"),
                };
                let suggestion: Option<String> = match lookup_member(&ms, "suggestion") {
                    Some(v) => match v {
                        JsonValue::Str(c) => Some(chars_to_string(c)),
                        _ => None,
                    },
                    None => None,
                };
                let confidence_milli: u32 = match lookup_member(&ms, "confidence") {
                    Some(v) => match v {
                        JsonValue::Num(num) => clamped_milli(num),
                        _ => 500,
                    },
                    None => 500,
                };
                Ok(
                    AlignmentEvaluation {
                        alignment_score_milli: score_milli,
                        reasoning,
                        suggestion,
                        confidence_milli,
                    },
                )
            },
        }
    }

    /// Judges one generation reply: a reply whose `done` flag is unset is an
    /// incomplete generation and fails with [`OllamaError::InvalidResponse`]
    /// — never a partial success — and a complete reply's text is parsed as
    /// [`Self::parse_alignment_response`] does.
    pub fn evaluate_generation_response(&self, response_text: &str, done: bool) -> (r: Result<
        AlignmentEvaluation,
        OllamaError,
    >)
        ensures
            !done ==> (r matches Err(OllamaError::InvalidResponse(m)) && m@
                == spec_incomplete_message()),
            done ==> match spec_parse_alignment(response_text@) {
                Some(ev) => r matches Ok(e) && e@ == ev && e.alignment_score_milli <= 1000
                    && e.confidence_milli <= 1000,
                None => r matches Err(OllamaError::InvalidResponse(m)) && m@
                    == spec_invalid_json_message(response_text@),
            },
    {
        if !done {
            return Err(OllamaError::InvalidResponse(String::from_str("Response not complete")));
        }
        self.parse_alignment_response(response_text)
    }
}

/// The fixed system prompt sent with every generation request.
/// The text [`OllamaClient::build_system_prompt`] returns.
pub open spec fn spec_system_prompt() -> Seq<char> {
    SYSTEM_PROMPT@
}

/// The text [`OllamaClient::build_user_prompt`] returns.
pub open spec fn spec_user_prompt(intention: Seq<char>, app: crate::monitor::AppInfoModel) -> Seq<
    char,
> {
    "User's Intention: \""@ + intention + "\"\n\nCurrent Activity:\n- Application: "@
        + app.app_name + "\n- Window Title: "@ + app.window_title + "\n- Bundle ID: "@
        + app.bundle_id
        + "\n\nPlease evaluate how well this current activity aligns with the user's intention."@
}

pub const SYSTEM_PROMPT: &'static str = "You are an AI assistant that evaluates how well a user's current activity aligns with their stated intention.\n\nYour job is to analyze the user's intention and their current application activity, then provide:\n1. An alignment score from 0.0 to 1.0 (where 1.0 = perfect alignment)\n2. Brief reasoning for your score\n3. A helpful suggestion (optional)\n4. Your confidence in the assessment (0.0 to 1.0)\n\nRespond in this exact JSON format:\n{\n  \"alignment_score\": 0.8,\n  \"reasoning\": \"User intended to learn Rust and is actively coding in VSCode with Rust files\",\n  \"suggestion\": \"Great focus! Consider taking a short break in 30 minutes\",\n  \"confidence\": 0.9\n}\n\nBe encouraging when alignment is good, and gently redirect when it's poor. Consider context like:\n- Educational content related to the intention should score high\n- Brief breaks or related research are okay\n- Entertainment during work intentions should score low\n- Tool-switching for the same goal is fine";

} // verus!
