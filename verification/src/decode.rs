//! The payload decoder: strips the backtick fencing an upstream AI may
//! wrap around a payload, then interprets the cleaned payload as a
//! structured response, a plain reply or a no-op.

use vstd::prelude::*;

use crate::RelayConfig;
use crate::RelayError;
use crate::RelayErrorView;

verus! {

/// Whether the payload opens a backtick fence at all.
pub open spec fn starts_with_backtick(s: Seq<char>) -> bool {
    s.len() >= 1 && s[0] == '`'
}

/// Whether the payload opens a triple-backtick block.
pub open spec fn is_triple_fenced(s: Seq<char>) -> bool {
    s.len() >= 3 && s[0] == '`' && s[1] == '`' && s[2] == '`'
}

/// Index of the first newline, if any.
pub open spec fn first_newline(s: Seq<char>) -> Option<int>
    decreases s.len(),
{
    if s.len() == 0 {
        None
    } else if s[0] == '\n' {
        Some(0)
    } else {
        match first_newline(s.drop_first()) {
            None => None,
            Some(i) => Some(i + 1),
        }
    }
}

/// Index of the last newline, if any.
pub open spec fn last_newline(s: Seq<char>) -> Option<int>
    decreases s.len(),
{
    if s.len() == 0 {
        None
    } else if s[s.len() - 1] == '\n' {
        Some(s.len() - 1)
    } else {
        last_newline(s.drop_last())
    }
}

/// `first_newline` names the first newline: a newline stands there and
/// none stands before it; `None` means the payload has no newline.
pub proof fn lemma_first_newline_char(s: Seq<char>)
    ensures
        match first_newline(s) {
            Some(i) => 0 <= i < s.len() && s[i] == '\n' && (forall|j: int|
                0 <= j < i ==> s[j] != '\n'),
            None => forall|j: int| 0 <= j < s.len() ==> s[j] != '\n',
        },
    decreases s.len(),
{
    if s.len() > 0 && s[0] != '\n' {
        let rest = s.drop_first();
        lemma_first_newline_char(rest);
        match first_newline(rest) {
            Some(i) => {
                assert(first_newline(s) == Some(i + 1));
                assert(s[i + 1] == rest[i]);
                assert forall|j: int| 0 <= j < i + 1 implies s[j] != '\n' by {
                    if j > 0 {
                        assert(s[j] == rest[j - 1]);
                    }
                }
            },
            None => {
                assert forall|j: int| 0 <= j < s.len() implies s[j] != '\n' by {
                    if j > 0 {
                        assert(s[j] == rest[j - 1]);
                    }
                }
            },
        }
    }
}

/// `last_newline` names the last newline: a newline stands there and
/// none stands after it; `None` means the payload has no newline.
pub proof fn lemma_last_newline_char(s: Seq<char>)
    ensures
        match last_newline(s) {
            Some(i) => 0 <= i < s.len() && s[i] == '\n' && (forall|j: int|
                i < j < s.len() ==> s[j] != '\n'),
            None => forall|j: int| 0 <= j < s.len() ==> s[j] != '\n',
        },
    decreases s.len(),
{
    if s.len() > 0 && s[s.len() - 1] != '\n' {
        let rest = s.drop_last();
        lemma_last_newline_char(rest);
        match last_newline(rest) {
            Some(i) => {
                assert(last_newline(s) == Some(i));
                assert(s[i] == rest[i]);
                assert forall|j: int| i < j < s.len() implies s[j] != '\n' by {
                    if j < s.len() - 1 {
                        assert(s[j] == rest[j]);
                    }
                }
            },
            None => {
                assert forall|j: int| 0 <= j < s.len() implies s[j] != '\n' by {
                    if j < s.len() - 1 {
                        assert(s[j] == rest[j]);
                    }
                }
            },
        }
    }
}

/// What fence stripping yields.
///
/// No backtick prefix: the payload unchanged. A triple-backtick fence:
/// everything strictly between the opening line and the closing line; a
/// triple fence with fewer than two newlines cannot close and is
/// malformed. Any other backtick prefix: one leading and one trailing
/// backtick stripped when the payload ends with a backtick and has room
/// for both, and a malformed fence otherwise (this covers the payload
/// that is one single backtick).
pub open spec fn clean_spec(s: Seq<char>) -> Result<Seq<char>, RelayErrorView> {
    if !starts_with_backtick(s) {
        Ok(s)
    } else if is_triple_fenced(s) {
        match (first_newline(s), last_newline(s)) {
            (Some(fi), Some(li)) => if fi < li {
                Ok(s.subrange(fi + 1, li))
            } else {
                Err(RelayErrorView::MalformedFence)
            },
            _ => Err(RelayErrorView::MalformedFence),
        }
    } else if s.len() >= 2 && s[s.len() - 1] == '`' {
        Ok(s.subrange(1, s.len() - 1))
    } else {
        Err(RelayErrorView::MalformedFence)
    }
}

/// Strips the incidental backtick fencing from a raw payload, exactly as
/// [`clean_spec`] says.
pub fn clean_json(msg_text: String) -> (r: Result<String, RelayError>)
    ensures
        (r is Ok) == (clean_spec(msg_text@) is Ok),
        r matches Ok(t) ==> clean_spec(msg_text@) == Ok::<Seq<char>, RelayErrorView>(t@),
        r matches Err(e) ==> clean_spec(msg_text@) == Err::<Seq<char>, RelayErrorView>(e@),
{
    let s = msg_text.as_str();
    let n = s.unicode_len();
    if n == 0 || s.get_char(0) != '`' {
        return Ok(msg_text);
    }
    if n >= 3 && s.get_char(1) == '`' && s.get_char(2) == '`' {
        let mut i: usize = 0;
        while i < n && s.get_char(i) != '\n'
            invariant
                s@ == msg_text@,
                n == s@.len(),
                0 <= i <= n,
                forall|j: int| 0 <= j < i ==> s@[j] != '\n',
            decreases n - i,
        {
            i += 1;
        }
        let mut j: usize = n;
        while j > 0 && s.get_char(j - 1) != '\n'
            invariant
                s@ == msg_text@,
                n == s@.len(),
                0 <= j <= n,
                forall|k: int| j <= k < n ==> s@[k] != '\n',
            decreases j,
        {
            j -= 1;
        }
        proof {
            lemma_first_newline_char(s@);
            lemma_last_newline_char(s@);
            if i < n {
                assert(first_newline(s@) == Some(i as int));
            } else {
                assert(first_newline(s@) is None);
            }
            if j > 0 {
                assert(last_newline(s@) == Some(j - 1));
            } else {
                assert(last_newline(s@) is None);
            }
        }
        if i == n || j == 0 || j - 1 <= i {
            return Err(RelayError::MalformedFence);
        }
        let body = s.substring_char(i + 1, j - 1);
        return Ok(String::from_str(body));
    }
    if n >= 2 && s.get_char(n - 1) == '`' {
        let body = s.substring_char(1, n - 1);
        return Ok(String::from_str(body));
    }
    Err(RelayError::MalformedFence)
}

/// The optional fields of a structured AI response, as decoded from the
/// wire payload: an answer to relay back, an ordered list of
/// `"topic: payload"` relay commands, and a correlated sub-request.
pub struct RawResponse {
    pub text: Option<String>,
    pub commands: Vec<String>,
    pub request: Option<String>,
}

/// What parsing a cleaned payload as a structured JSON response yields:
/// `None` when the payload is not a JSON object of the wire schema,
/// otherwise the three optional fields (absent `commands` reads as the
/// empty list). A function of the payload alone.
pub uninterp spec fn structured_response_of(s: Seq<char>) -> Option<
    (Option<Seq<char>>, Seq<Seq<char>>, Option<Seq<char>>),
>;

/// Relies on serde_json::from_str and the serde_json::Value accessors
/// (as_object, get, as_str, as_array): parses `s` as a JSON object with
/// the optional wire-schema fields `text` (a string), `commands` (an
/// array of strings, defaulting to the empty array) and `request` (a
/// string), and yields `None` for anything else. The result depends on
/// `s` alone.
#[verifier::external_body]
fn parse_structured(s: &str) -> (r: Option<RawResponse>)
    ensures
        (r is Some) == (structured_response_of(s@) is Some),
        r matches Some(rr) ==> structured_response_of(s@) matches Some(p) && rr.text.deep_view()
            == p.0 && rr.commands.deep_view() == p.1 && rr.request.deep_view() == p.2,
{
    let v: serde_json::Value = serde_json::from_str(s).ok()?;
    let o = v.as_object()?;
    let text = match o.get("text") { None => None, Some(t) => Some(t.as_str()?.to_owned()) };
    let request = match o.get("request") { None => None, Some(t) => Some(t.as_str()?.to_owned()) };
    let mut commands: Vec<String> = Vec::new();
    if let Some(c) = o.get("commands") {
        for x in c.as_array()? {
            commands.push(x.as_str()?.to_owned());
        }
    }
    Some(RawResponse { text, commands, request })
}

/// The decoded intent of a payload: nothing to do, a verbatim reply, or
/// a structured response.
#[derive(Debug)]
pub enum Directive {
    /// An empty inbound payload: the router does nothing.
    NoOp,
    /// The payload is not structured; relay it verbatim as a reply.
    PlainReply { text: String },
    /// A structured response: an optional answer, relay commands in
    /// order, and an optional correlated sub-request.
    StructuredResponse { text: Option<String>, commands: Vec<String>, request: Option<String> },
}

/// The mathematical value of a [`Directive`].
#[verifier::ext_equal]
pub enum DirectiveView {
    NoOp,
    PlainReply { text: Seq<char> },
    StructuredResponse {
        text: Option<Seq<char>>,
        commands: Seq<Seq<char>>,
        request: Option<Seq<char>>,
    },
}

impl View for Directive {
    type V = DirectiveView;

    open spec fn view(&self) -> DirectiveView {
        match self {
            Directive::NoOp => DirectiveView::NoOp,
            Directive::PlainReply { text } => DirectiveView::PlainReply { text: text@ },
            Directive::StructuredResponse { text, commands, request } => {
                DirectiveView::StructuredResponse {
                    text: text.deep_view(),
                    commands: commands.deep_view(),
                    request: request.deep_view(),
                }
            },
        }
    }
}

/// What decoding a raw payload yields: the empty payload is a no-op; a
/// malformed fence is an error; a cleaned payload that parses as a
/// structured response becomes one; anything else is a plain reply, or
/// an error under strict parsing.
pub open spec fn decode_spec(raw: Seq<char>, strict: bool) -> Result<DirectiveView, RelayErrorView> {
    if raw.len() == 0 {
        Ok(DirectiveView::NoOp)
    } else {
        match clean_spec(raw) {
            Err(e) => Err(e),
            Ok(cleaned) => match structured_response_of(cleaned) {
                Some(p) => Ok(
                    DirectiveView::StructuredResponse {
                        text: p.0,
                        commands: p.1,
                        request: p.2,
                    },
                ),
                None => if strict {
                    Err(RelayErrorView::InvalidResponse)
                } else {
                    Ok(DirectiveView::PlainReply { text: cleaned })
                },
            },
        }
    }
}

impl RelayConfig {
    /// Turns a raw payload into a directive, exactly as [`decode_spec`]
    /// says for this configuration's strictness.
    pub fn decode(&self, raw: &String) -> (r: Result<Directive, RelayError>)
        ensures
            (r is Ok) == (decode_spec(raw@, self.strict_structured_parsing) is Ok),
            r matches Ok(d) ==> decode_spec(raw@, self.strict_structured_parsing) == Ok::<
                DirectiveView,
                RelayErrorView,
            >(d@),
            r matches Err(e) ==> decode_spec(raw@, self.strict_structured_parsing) == Err::<
                DirectiveView,
                RelayErrorView,
            >(e@),
    {
        if raw.as_str().is_empty() {
            return Ok(Directive::NoOp);
        }
        let cleaned = match clean_json(raw.clone()) {
            Err(e) => return Err(e),
            Ok(c) => c,
        };
        match parse_structured(cleaned.as_str()) {
            Some(rr) => {
                let d = Directive::StructuredResponse {
                    text: rr.text,
                    commands: rr.commands,
                    request: rr.request,
                };
                proof {
                    assert(decode_spec(raw@, self.strict_structured_parsing) matches Ok(dv) && dv
                        =~= d@);
                }
                Ok(d)
            },
            None => {
                if self.strict_structured_parsing {
                    Err(RelayError::InvalidResponse)
                } else {
                    Ok(Directive::PlainReply { text: cleaned })
                }
            },
        }
    }
}

} // verus!
