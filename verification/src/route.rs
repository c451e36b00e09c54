//! The topic router: turns a decoded directive plus the originating
//! message into the ordered list of (destination topic, outbound message)
//! pairs, doing the correlation bookkeeping for sub-requests. A batch is
//! all-or-nothing: one malformed entry fails the whole directive and
//! nothing is emitted.

use vstd::prelude::*;

use crate::RelayConfig;
use crate::RelayError;
use crate::RelayErrorView;
use crate::decode::Directive;
use crate::decode::DirectiveView;
use crate::message::Message;
use crate::message::MessageView;
use crate::message::push_front_topic;
use crate::params::params_with;

verus! {

/// Whether the command separator `": "` stands at index `i`.
pub open spec fn sep_at(s: Seq<char>, i: int) -> bool {
    0 <= i && i + 2 <= s.len() && s[i] == ':' && s[i + 1] == ' '
}

/// Index of the first command separator, if any.
pub open spec fn first_sep(s: Seq<char>) -> Option<int>
    decreases s.len(),
{
    if s.len() < 2 {
        None
    } else if s[0] == ':' && s[1] == ' ' {
        Some(0)
    } else {
        match first_sep(s.drop_first()) {
            None => None,
            Some(i) => Some(i + 1),
        }
    }
}

/// `first_sep` names the first separator: one stands there and none
/// stands before it; `None` means the string has no separator at all.
pub proof fn lemma_first_sep_char(s: Seq<char>)
    ensures
        match first_sep(s) {
            Some(i) => sep_at(s, i) && (forall|j: int| 0 <= j < i ==> !sep_at(s, j)),
            None => forall|j: int| !sep_at(s, j),
        },
    decreases s.len(),
{
    if s.len() >= 2 && !(s[0] == ':' && s[1] == ' ') {
        let rest = s.drop_first();
        lemma_first_sep_char(rest);
        assert forall|j: int| sep_at(rest, j) == sep_at(s, j + 1) by {
            if 0 <= j && j + 2 <= rest.len() {
                assert(rest[j] == s[j + 1]);
                assert(rest[j + 1] == s[j + 2]);
            }
        }
        match first_sep(rest) {
            Some(i) => {
                assert(first_sep(s) == Some(i + 1));
                assert(sep_at(s, i + 1));
                assert forall|j: int| 0 <= j < i + 1 implies !sep_at(s, j) by {
                    if j > 0 {
                        assert(!sep_at(rest, j - 1));
                    }
                }
            },
            None => {
                assert forall|j: int| !sep_at(s, j) by {
                    if j > 0 {
                        assert(!sep_at(rest, j - 1));
                    }
                }
            },
        }
    }
}

/// What parsing a `"topic: payload"` string yields: the part before the
/// first `": "` and everything after it — the payload may itself contain
/// further `": "` substrings and is not split again. `None` when the
/// separator is missing.
pub open spec fn command_parts(s: Seq<char>) -> Option<(Seq<char>, Seq<char>)> {
    match first_sep(s) {
        None => None,
        Some(i) => Some((s.subrange(0, i), s.subrange(i + 2, s.len() as int))),
    }
}

/// Splits a `"topic: payload"` command on the first `": "` only, exactly
/// as [`command_parts`] says; a string without the separator is a
/// malformed command identified by the error.
pub fn parse_command(command: &String) -> (r: Result<(String, String), RelayError>)
    ensures
        (r is Ok) == (command_parts(command@) is Some),
        r matches Ok(tp) ==> command_parts(command@) matches Some(p) && tp.0@ == p.0 && tp.1@
            == p.1,
        r matches Err(e) ==> e@ == RelayErrorView::MalformedCommand(command@),
{
    let s = command.as_str();
    let n = s.unicode_len();
    let mut i: usize = 0;
    while i + 1 < n && !(s.get_char(i) == ':' && s.get_char(i + 1) == ' ')
        invariant
            s@ == command@,
            n == s@.len(),
            0 <= i <= n,
            n == 0 ==> i == 0,
            n > 0 ==> i < n,
            forall|j: int| 0 <= j < i ==> !sep_at(s@, j),
        decreases n - i,
    {
        i += 1;
    }
    proof {
        lemma_first_sep_char(s@);
    }
    if i + 1 < n {
        proof {
            assert(sep_at(s@, i as int));
            assert(first_sep(s@) == Some(i as int));
        }
        let topic = String::from_str(s.substring_char(0, i));
        let payload = String::from_str(s.substring_char(i + 2, n));
        Ok((topic, payload))
    } else {
        proof {
            assert forall|j: int| !sep_at(s@, j) by {
                if 0 <= j && j + 2 <= n {
                    assert(j < i || !sep_at(s@, j));
                }
            }
            assert(first_sep(s@) is None);
        }
        Err(RelayError::MalformedCommand(command.clone()))
    }
}

/// The outbound pair for one relay command: the command's topic, and a
/// clone of the origin carrying the command's payload as text; return
/// path and params travel unchanged.
pub open spec fn command_pair(origin: MessageView, topic: Seq<char>, payload: Seq<char>) -> (
    Seq<char>,
    MessageView,
) {
    (
        topic,
        MessageView {
            text: payload,
            message_type: origin.message_type,
            response_topics: origin.response_topics,
            params: origin.params,
        },
    )
}

/// [`command_pair`] for a command string that parses.
pub open spec fn command_pair_of(origin: MessageView, command: Seq<char>) -> (
    Seq<char>,
    MessageView,
)
    recommends
        command_parts(command) is Some,
{
    match command_parts(command) {
        Some(p) => command_pair(origin, p.0, p.1),
        None => command_pair(origin, Seq::empty(), Seq::empty()),
    }
}

/// The outbound pair fulfilling one reply hop: the front of the origin's
/// return path, and a clone of the origin with the text replaced and that
/// hop consumed.
pub open spec fn reply_pair(origin: MessageView, text: Seq<char>) -> (Seq<char>, MessageView) {
    (
        origin.response_topics[0],
        MessageView {
            text,
            message_type: origin.message_type,
            response_topics: origin.response_topics.drop_first(),
            params: origin.params,
        },
    )
}

/// Builds one relay message from a `"topic: payload"` command and the
/// originating message, exactly as [`command_pair`] says.
pub fn get_message_from_command(command: &String, message: &Message) -> (r: Result<
    (String, Message),
    RelayError,
>)
    ensures
        (r is Ok) == (command_parts(command@) is Some),
        r matches Ok(p) ==> command_parts(command@) is Some && (p.0@, p.1@) == command_pair_of(
            message@,
            command@,
        ),
        r matches Err(e) ==> e@ == RelayErrorView::MalformedCommand(command@),
{
    match parse_command(command) {
        Err(e) => Err(e),
        Ok(tp) => {
            let (topic, payload) = tp;
            let m = Message {
                text: payload,
                message_type: message.message_type,
                response_topics: crate::message::clone_topics(&message.response_topics),
                params: crate::params::clone_params(&message.params),
            };
            proof {
                assert(m@ =~= command_pair_of(message@, command@).1);
            }
            Ok((topic, m))
        },
    }
}

/// The pairs, in order, emitted for a command list; the first malformed
/// entry fails the whole batch.
pub open spec fn route_commands(origin: MessageView, commands: Seq<Seq<char>>) -> Result<
    Seq<(Seq<char>, MessageView)>,
    RelayErrorView,
>
    decreases commands.len(),
{
    if commands.len() == 0 {
        Ok(Seq::empty())
    } else {
        match command_parts(commands[0]) {
            None => Err(RelayErrorView::MalformedCommand(commands[0])),
            Some(p) => match route_commands(origin, commands.drop_first()) {
                Err(e) => Err(e),
                Ok(rest) => Ok(seq![command_pair(origin, p.0, p.1)] + rest),
            },
        }
    }
}

/// `route_commands` succeeds exactly when every entry parses, yielding
/// one pair per entry in list order; otherwise it fails with the first
/// malformed entry.
pub proof fn lemma_route_commands(origin: MessageView, commands: Seq<Seq<char>>)
    ensures
        (route_commands(origin, commands) is Ok) <==> (forall|k: int|
            0 <= k < commands.len() ==> command_parts(#[trigger] commands[k]) is Some),
        route_commands(origin, commands) matches Ok(pairs) ==> pairs.len() == commands.len() && (
        forall|k: int|
            0 <= k < commands.len() ==> #[trigger] pairs[k] == command_pair_of(
                origin,
                commands[k],
            )),
        forall|i: int|
            (0 <= i < commands.len() && command_parts(#[trigger] commands[i]) is None && (forall|
                k: int,
            |
                0 <= k < i ==> command_parts(#[trigger] commands[k]) is Some)) ==> route_commands(
                origin,
                commands,
            ) == Err::<Seq<(Seq<char>, MessageView)>, RelayErrorView>(
                RelayErrorView::MalformedCommand(commands[i]),
            ),
    decreases commands.len(),
{
    if commands.len() > 0 {
        let rest = commands.drop_first();
        lemma_route_commands(origin, rest);
        assert forall|k: int| 0 <= k < rest.len() implies rest[k] == commands[k + 1] by {}
        match command_parts(commands[0]) {
            None => {
                assert forall|i: int|
                    (0 <= i < commands.len() && command_parts(#[trigger] commands[i]) is None && (
                    forall|k: int|
                        0 <= k < i ==> command_parts(
                            #[trigger] commands[k],
                        ) is Some)) implies route_commands(origin, commands) == Err::<
                    Seq<(Seq<char>, MessageView)>,
                    RelayErrorView,
                >(RelayErrorView::MalformedCommand(commands[i])) by {
                    assert(i == 0);
                }
            },
            Some(p) => {
                match route_commands(origin, rest) {
                    Ok(rpairs) => {
                        let pairs = seq![command_pair(origin, p.0, p.1)] + rpairs;
                        assert(route_commands(origin, commands) == Ok::<
                            Seq<(Seq<char>, MessageView)>,
                            RelayErrorView,
                        >(pairs));
                        assert forall|k: int|
                            0 <= k < commands.len() implies #[trigger] pairs[k]
                            == command_pair_of(origin, commands[k]) by {
                            if k > 0 {
                                assert(pairs[k] == rpairs[k - 1]);
                                assert(rest[k - 1] == commands[k]);
                            }
                        }
                        assert forall|k: int|
                            0 <= k < commands.len() implies command_parts(
                            #[trigger] commands[k],
                        ) is Some by {
                            if k > 0 {
                                assert(command_parts(rest[k - 1]) is Some);
                            }
                        }
                    },
                    Err(_) => {
                        assert forall|i: int|
                            (0 <= i < commands.len() && command_parts(
                                #[trigger] commands[i],
                            ) is None && (forall|k: int|
                                0 <= k < i ==> command_parts(
                                    #[trigger] commands[k],
                                ) is Some)) implies route_commands(origin, commands) == Err::<
                            Seq<(Seq<char>, MessageView)>,
                            RelayErrorView,
                        >(RelayErrorView::MalformedCommand(commands[i])) by {
                            assert(i > 0);
                            assert(command_parts(rest[i - 1]) is None);
                            assert forall|k: int|
                                0 <= k < i - 1 implies command_parts(
                                #[trigger] rest[k],
                            ) is Some by {
                                assert(rest[k] == commands[k + 1]);
                                assert(command_parts(commands[k + 1]) is Some);
                            }
                            assert(route_commands(origin, rest) == Err::<
                                Seq<(Seq<char>, MessageView)>,
                                RelayErrorView,
                            >(RelayErrorView::MalformedCommand(rest[i - 1])));
                        }
                        // an Err of the tail means some entry there is malformed,
                        // so not every entry of the whole list parses
                        assert(!(forall|k: int|
                            0 <= k < rest.len() ==> command_parts(
                                #[trigger] rest[k],
                            ) is Some));
                        let bad = choose|k: int|
                            0 <= k < rest.len() && !(command_parts(#[trigger] rest[k]) is Some);
                        assert(command_parts(commands[bad + 1]) is None);
                    },
                }
            },
        }
    }
}

/// The mathematical value of an outbound pair list.
pub open spec fn pairs_view(v: Seq<(String, Message)>) -> Seq<(Seq<char>, MessageView)> {
    v.map_values(|p: (String, Message)| (p.0@, p.1@))
}

/// The pairs for the first `n` entries of a command list, assuming each
/// of them parses.
pub open spec fn command_pairs_upto(
    origin: MessageView,
    commands: Seq<Seq<char>>,
    n: int,
) -> Seq<(Seq<char>, MessageView)> {
    Seq::new(n as nat, |k: int| command_pair_of(origin, commands[k]))
}

impl RelayConfig {
    /// What routing a plain reply yields: exactly one pair fulfilling the
    /// front reply hop, or an error when the return path is empty.
    pub open spec fn route_plain_spec(self, text: Seq<char>, origin: MessageView) -> Result<
        Seq<(Seq<char>, MessageView)>,
        RelayErrorView,
    > {
        if origin.response_topics.len() == 0 {
            Err(RelayErrorView::EmptyResponseTopics)
        } else {
            Ok(seq![reply_pair(origin, text)])
        }
    }

    /// What routing the optional correlated sub-request yields: nothing
    /// when absent or empty; otherwise one pair to the request's topic,
    /// with the reply topic pushed onto the return path and the full
    /// request string remembered under the `ai_request` param.
    pub open spec fn request_pairs_spec(self, request: Option<Seq<char>>, origin: MessageView)
        -> Result<Seq<(Seq<char>, MessageView)>, RelayErrorView> {
        match request {
            None => Ok(Seq::empty()),
            Some(req) => if req.len() == 0 {
                Ok(Seq::empty())
            } else {
                match command_parts(req) {
                    None => Err(RelayErrorView::MalformedCommand(req)),
                    Some(p) => Ok(
                        seq![
                            (
                                p.0,
                                MessageView {
                                    text: p.1,
                                    message_type: origin.message_type,
                                    response_topics: seq![self.reply_topic@]
                                        + origin.response_topics,
                                    params: origin.params.insert("ai_request"@, req),
                                },
                            ),
                        ],
                    ),
                }
            },
        }
    }

    /// What routing the optional answer text yields: nothing when absent
    /// or empty, otherwise the single reply pair.
    pub open spec fn text_pairs_spec(self, text: Option<Seq<char>>, origin: MessageView) -> Result<
        Seq<(Seq<char>, MessageView)>,
        RelayErrorView,
    > {
        match text {
            None => Ok(Seq::empty()),
            Some(t) => if t.len() == 0 {
                Ok(Seq::empty())
            } else {
                self.route_plain_spec(t, origin)
            },
        }
    }

    /// What routing a structured response yields, in the fixed order:
    /// the correlated sub-request pair first, then the reply pair, then
    /// one pair per command in list order; the first failure fails the
    /// whole batch.
    pub open spec fn route_structured_spec(
        self,
        text: Option<Seq<char>>,
        commands: Seq<Seq<char>>,
        request: Option<Seq<char>>,
        origin: MessageView,
    ) -> Result<Seq<(Seq<char>, MessageView)>, RelayErrorView> {
        match self.request_pairs_spec(request, origin) {
            Err(e) => Err(e),
            Ok(rp) => match self.text_pairs_spec(text, origin) {
                Err(e) => Err(e),
                Ok(tp) => match route_commands(origin, commands) {
                    Err(e) => Err(e),
                    Ok(cp) => Ok(rp + tp + cp),
                },
            },
        }
    }

    /// What routing a directive yields.
    pub open spec fn route_spec(self, d: DirectiveView, origin: MessageView) -> Result<
        Seq<(Seq<char>, MessageView)>,
        RelayErrorView,
    > {
        match d {
            DirectiveView::NoOp => Ok(Seq::empty()),
            DirectiveView::PlainReply { text } => self.route_plain_spec(text, origin),
            DirectiveView::StructuredResponse { text, commands, request } => self
                .route_structured_spec(text, commands, request, origin),
        }
    }

    /// Routes a directive, exactly as [`RelayConfig::route_spec`] says:
    /// the ordered outbound pairs on success, the first failure otherwise,
    /// with nothing emitted.
    pub fn route(&self, directive: &Directive, origin: &Message) -> (r: Result<
        Vec<(String, Message)>,
        RelayError,
    >)
        ensures
            (r is Ok) == (self.route_spec(directive@, origin@) is Ok),
            r matches Ok(v) ==> self.route_spec(directive@, origin@) == Ok::<
                Seq<(Seq<char>, MessageView)>,
                RelayErrorView,
            >(pairs_view(v@)),
            r matches Err(e) ==> self.route_spec(directive@, origin@) == Err::<
                Seq<(Seq<char>, MessageView)>,
                RelayErrorView,
            >(e@),
    {
        match directive {
            Directive::NoOp => {
                let v: Vec<(String, Message)> = Vec::new();
                proof {
                    assert(pairs_view(v@) =~= Seq::<(Seq<char>, MessageView)>::empty());
                }
                Ok(v)
            },
            Directive::PlainReply { text } => {
                match origin.reply(text.clone(), origin.message_type) {
                    Err(e) => Err(e),
                    Ok(p) => {
                        let mut v: Vec<(String, Message)> = Vec::new();
                        v.push(p);
                        proof {
                            assert(v@[0].1@ =~= reply_pair(origin@, text@).1);
                            assert(pairs_view(v@) =~= seq![reply_pair(origin@, text@)]);
                        }
                        Ok(v)
                    },
                }
            },
            Directive::StructuredResponse { text, commands, request } => self.route_structured(
                text,
                commands,
                request,
                origin,
            ),
        }
    }

    /// Routes a structured response, as [`RelayConfig::route_structured_spec`]
    /// says.
    fn route_structured(
        &self,
        text: &Option<String>,
        commands: &Vec<String>,
        request: &Option<String>,
        origin: &Message,
    ) -> (r: Result<Vec<(String, Message)>, RelayError>)
        ensures
            (r is Ok) == (self.route_structured_spec(
                text.deep_view(),
                commands.deep_view(),
                request.deep_view(),
                origin@,
            ) is Ok),
            r matches Ok(v) ==> self.route_structured_spec(
                text.deep_view(),
                commands.deep_view(),
                request.deep_view(),
                origin@,
            ) == Ok::<Seq<(Seq<char>, MessageView)>, RelayErrorView>(pairs_view(v@)),
            r matches Err(e) ==> self.route_structured_spec(
                text.deep_view(),
                commands.deep_view(),
                request.deep_view(),
                origin@,
            ) == Err::<Seq<(Seq<char>, MessageView)>, RelayErrorView>(e@),
    {
        let ghost dtext = text.deep_view();
        let ghost dcmds = commands.deep_view();
        let ghost dreq = request.deep_view();
        let ghost ospec = origin@;

        let mut out: Vec<(String, Message)> = Vec::new();

        // the correlated sub-request, when present and non-empty
        if let Some(req) = request {
            if !req.as_str().is_empty() {
                match parse_command(req) {
                    Err(e) => {
                        return Err(e);
                    },
                    Ok(tp) => {
                        let (topic, payload) = tp;
                        let m = Message {
                            text: payload,
                            message_type: origin.message_type,
                            response_topics: push_front_topic(
                                &origin.response_topics,
                                self.reply_topic.clone(),
                            ),
                            params: params_with(
                                &origin.params,
                                String::from_str("ai_request"),
                                req.clone(),
                            ),
                        };
                        out.push((topic, m));
                        proof {
                            assert(m.response_topics.deep_view() =~= seq![self.reply_topic@]
                                + origin.response_topics.deep_view());
                            assert(self.request_pairs_spec(dreq, ospec) matches Ok(rp) && rp.len()
                                == 1 && m@ =~= rp[0].1);
                        }
                    },
                }
            }
        }
        let ghost rp = match self.request_pairs_spec(dreq, ospec) {
            Ok(p) => p,
            Err(_) => Seq::empty(),
        };
        proof {
            assert(self.request_pairs_spec(dreq, ospec) == Ok::<
                Seq<(Seq<char>, MessageView)>,
                RelayErrorView,
            >(rp));
            assert(pairs_view(out@) =~= rp);
        }

        // the answer text, when present and non-empty
        if let Some(t) = text {
            if !t.as_str().is_empty() {
                match origin.reply(t.clone(), origin.message_type) {
                    Err(e) => {
                        return Err(e);
                    },
                    Ok(p) => {
                        out.push(p);
                        proof {
                            assert(out@[rp.len() as int].1@ =~= reply_pair(ospec, t@).1);
                        }
                    },
                }
            }
        }
        let ghost tp = match self.text_pairs_spec(dtext, ospec) {
            Ok(p) => p,
            Err(_) => Seq::empty(),
        };
        proof {
            assert(self.text_pairs_spec(dtext, ospec) == Ok::<
                Seq<(Seq<char>, MessageView)>,
                RelayErrorView,
            >(tp));
            assert(pairs_view(out@) =~= rp + tp);
            assert(rp + tp + command_pairs_upto(ospec, dcmds, 0) =~= rp + tp);
        }

        // the relay commands, in list order, all or nothing
        let mut i: usize = 0;
        while i < commands.len()
            invariant
                ospec == origin@,
                dtext == text.deep_view(),
                dcmds == commands.deep_view(),
                dreq == request.deep_view(),
                dcmds.len() == commands@.len(),
                self.request_pairs_spec(dreq, ospec) == Ok::<
                    Seq<(Seq<char>, MessageView)>,
                    RelayErrorView,
                >(rp),
                self.text_pairs_spec(dtext, ospec) == Ok::<
                    Seq<(Seq<char>, MessageView)>,
                    RelayErrorView,
                >(tp),
                0 <= i <= commands@.len(),
                forall|k: int| 0 <= k < i ==> command_parts(#[trigger] dcmds[k]) is Some,
                pairs_view(out@) == rp + tp + command_pairs_upto(ospec, dcmds, i as int),
            decreases commands@.len() - i,
        {
            proof {
                assert(dcmds[i as int] == commands@[i as int]@);
            }
            match get_message_from_command(&commands[i], origin) {
                Err(e) => {
                    proof {
                        lemma_route_commands(ospec, dcmds);
                        assert(route_commands(ospec, dcmds) == Err::<
                            Seq<(Seq<char>, MessageView)>,
                            RelayErrorView,
                        >(RelayErrorView::MalformedCommand(dcmds[i as int])));
                        assert(e@ == RelayErrorView::MalformedCommand(dcmds[i as int]));
                        assert(self.route_structured_spec(dtext, dcmds, dreq, ospec) == Err::<
                            Seq<(Seq<char>, MessageView)>,
                            RelayErrorView,
                        >(e@));
                    }
                    return Err(e);
                },
                Ok(p) => {
                    let ghost out0 = out@;
                    out.push(p);
                    proof {
                        let base = rp.len() + tp.len();
                        assert(out@ == out0.push(p));
                        assert((p.0@, p.1@) == command_pair_of(ospec, dcmds[i as int]));
                        assert(pairs_view(out0) == rp + tp + command_pairs_upto(
                            ospec,
                            dcmds,
                            i as int,
                        ));
                        assert(pairs_view(out0).len() == base + i);
                        assert(out0.len() == base + i);
                        assert forall|k: int| 0 <= k < out@.len() implies pairs_view(out@)[k] == (
                        rp + tp + command_pairs_upto(ospec, dcmds, i + 1))[k] by {
                            if k < out0.len() {
                                assert(out@[k] == out0[k]);
                                assert(pairs_view(out0)[k] == (rp + tp + command_pairs_upto(
                                    ospec,
                                    dcmds,
                                    i as int,
                                ))[k]);
                            } else {
                                assert(out@[k] == p);
                                assert(k == base + i);
                            }
                        }
                        assert(pairs_view(out@) =~= rp + tp + command_pairs_upto(
                            ospec,
                            dcmds,
                            i + 1,
                        ));
                    }
                },
            }
            i += 1;
        }
        proof {
            lemma_route_commands(ospec, dcmds);
            let cp = match route_commands(ospec, dcmds) {
                Ok(p) => p,
                Err(_) => Seq::empty(),
            };
            assert(route_commands(ospec, dcmds) == Ok::<
                Seq<(Seq<char>, MessageView)>,
                RelayErrorView,
            >(cp));
            assert(cp =~= command_pairs_upto(ospec, dcmds, dcmds.len() as int));
            assert(pairs_view(out@) =~= rp + tp + cp);
        }
        Ok(out)
    }
}

} // verus!
