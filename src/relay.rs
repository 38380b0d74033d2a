use vstd::prelude::*;
use vstd::string::*;
use crate::event::{delta_of_line, line_delta, opt_view};
use crate::reassembler::{split_lines, views_of, Reassembler};

verus! {

/// Model used when the configuration names none.
pub const DEFAULT_MODEL: &'static str = "gpt-4o-mini";

/// API root used when the configuration names none.
pub const DEFAULT_BASE_URL: &'static str = "https://api.openai.com/v1";

/// Path of the completions endpoint under the API root.
pub const COMPLETIONS_PATH: &'static str = "/chat/completions";

/// What a stream that carried no text returns, so that callers never show
/// an empty answer.
pub const EMPTY_RESPONSE_TEXT: &'static str = "(no response)";

#[derive(PartialEq, Eq, Structural, Clone, Copy, Debug)]
pub enum Role {
    System,
    User,
    Assistant,
}

/// One message of a conversation.
#[derive(Debug)]
pub struct ChatTurn {
    pub role: Role,
    pub content: String,
}

/// The user's settings; the relay reads `api_key`, `model_id` and `base_url`.
#[derive(Debug)]
pub struct Config {
    pub api_key: String,
    pub model_id: String,
    pub base_url: String,
    pub compact_model_id: String,
    pub reasoning_enabled: bool,
    pub compact_reasoning_enabled: bool,
    pub channels_json: String,
}

impl Config {
    /// The settings in use before any were saved: every text empty, every
    /// switch off.
    pub fn empty() -> (r: Config)
        ensures
            r.api_key@.len() == 0,
            r.model_id@.len() == 0,
            r.base_url@.len() == 0,
            r.compact_model_id@.len() == 0,
            !r.reasoning_enabled,
            !r.compact_reasoning_enabled,
            r.channels_json@.len() == 0,
    {
        Config {
            api_key: String::new(),
            model_id: String::new(),
            base_url: String::new(),
            compact_model_id: String::new(),
            reasoning_enabled: false,
            compact_reasoning_enabled: false,
            channels_json: String::new(),
        }
    }
}

/// A streamed completions request, ready to be sent as
/// `POST endpoint` with a bearer token and a JSON body.
#[derive(Debug)]
pub struct OutboundRequest {
    pub endpoint: String,
    pub api_key: String,
    pub model: String,
    pub messages: Vec<ChatTurn>,
    pub stream: bool,
}

#[derive(Debug)]
pub enum RelayError {
    /// No credential is configured; nothing was sent.
    Configuration,
    /// The request could not be dispatched.
    TransportSend(String),
    /// The endpoint answered with a non-success status; the response body.
    Remote { status: u16, body: String },
    /// The response stream broke off.
    TransportRead(String),
}

/// The sentence that reports a failure to the caller.
pub open spec fn description(e: RelayError) -> Seq<char> {
    match e {
        RelayError::Configuration => "no API key is configured"@,
        RelayError::TransportSend(d) => "the request could not be sent: "@ + d@,
        RelayError::Remote { body, .. } => "the endpoint refused the request: "@ + body@,
        RelayError::TransportRead(d) => "the response stream broke off: "@ + d@,
    }
}

impl RelayError {
    /// The sentence that reports this failure, with its detail.
    pub fn describe(&self) -> (r: String)
        ensures
            r@ == description(*self),
    {
        match self {
            RelayError::Configuration => String::from_str("no API key is configured"),
            RelayError::TransportSend(d) => String::from_str(
                "the request could not be sent: ",
            ).concat(d.as_str()),
            RelayError::Remote { body, .. } => String::from_str(
                "the endpoint refused the request: ",
            ).concat(body.as_str()),
            RelayError::TransportRead(d) => String::from_str(
                "the response stream broke off: ",
            ).concat(d.as_str()),
        }
    }
}

#[derive(PartialEq, Eq, Structural, Clone, Copy, Debug)]
pub enum Phase {
    Idle,
    Sending,
    Streaming,
    Completed,
    Failed,
}

/// What the end of a stream yields: the last updates, then the final text.
#[derive(Debug)]
pub struct Completion {
    pub deltas: Vec<String>,
    pub text: String,
}

pub open spec fn or_default(s: Seq<char>, default: Seq<char>) -> Seq<char> {
    if s.len() == 0 {
        default
    } else {
        s
    }
}

pub open spec fn is_success(status: u16) -> bool {
    200 <= status && status < 300
}

/// The updates that a sequence of lines carries, in order.
pub open spec fn deltas_of(lines: Seq<Seq<u8>>) -> Seq<Seq<char>>
    decreases lines.len(),
{
    if lines.len() == 0 {
        seq![]
    } else {
        let d = deltas_of(lines.drop_last());
        match delta_of_line(lines.last()) {
            Some(c) => d.push(c),
            None => d,
        }
    }
}

pub open spec fn texts_of(v: Seq<String>) -> Seq<Seq<char>> {
    v.map_values(|s: String| s@)
}

/// The text that a stream returns once it ends, given what it accumulated.
pub open spec fn final_text(response: Seq<char>) -> Seq<char> {
    if response.len() == 0 {
        EMPTY_RESPONSE_TEXT@
    } else {
        response
    }
}

/// One call's relay: it decides, event by event, what the transport does
/// and what the listener receives. The caller sends, reads and forwards.
pub struct Relay {
    phase: Phase,
    lines: Reassembler,
    response: String,
}

impl Relay {
    pub closed spec fn phase(&self) -> Phase {
        self.phase
    }

    /// The bytes of the line not yet terminated.
    pub closed spec fn pending(&self) -> Seq<u8> {
        self.lines@
    }

    /// Every update forwarded so far, concatenated in arrival order.
    pub closed spec fn response(&self) -> Seq<char> {
        self.response@
    }

    pub closed spec fn wf(&self) -> bool {
        self.lines.wf()
    }

    pub fn new() -> (r: Relay)
        ensures
            r.wf(),
            r.phase() == Phase::Idle,
            r.pending() == Seq::<u8>::empty(),
            r.response() == Seq::<char>::empty(),
    {
        Relay { phase: Phase::Idle, lines: Reassembler::new(), response: String::new() }
    }

    pub fn current_phase(&self) -> (r: Phase)
        ensures
            r == self.phase(),
    {
        self.phase
    }

    /// Starts a call: without an API key it fails at once with a
    /// configuration error and builds no request. Otherwise it builds the
    /// streamed request for the history followed by the new user message,
    /// with the default model and API root standing in for empty settings.
    pub fn start(&mut self, config: &Config, history: Vec<ChatTurn>, message: String) -> (r: Result<
        OutboundRequest,
        RelayError,
    >)
        requires
            old(self).wf(),
            old(self).phase() == Phase::Idle,
        ensures
            final(self).wf(),
            final(self).pending() == old(self).pending(),
            final(self).response() == old(self).response(),
            config.api_key@.len() == 0 <==> r is Err,
            r is Err ==> (r matches Err(RelayError::Configuration)) && final(self).phase()
                == Phase::Failed,
            r matches Ok(req) ==> {
                &&& final(self).phase() == Phase::Sending
                &&& req.endpoint@ == or_default(config.base_url@, DEFAULT_BASE_URL@)
                    + COMPLETIONS_PATH@
                &&& req.api_key@ == config.api_key@
                &&& req.model@ == or_default(config.model_id@, DEFAULT_MODEL@)
                &&& req.stream
                &&& req.messages@.len() == history@.len() + 1
                &&& req.messages@.drop_last() == history@
                &&& req.messages@.last().role == Role::User
                &&& req.messages@.last().content@ == message@
            },
    {
        if config.api_key.as_str().is_empty() {
            self.phase = Phase::Failed;
            return Err(RelayError::Configuration);
        }
        let base = if config.base_url.as_str().is_empty() {
            String::from_str(DEFAULT_BASE_URL)
        } else {
            config.base_url.clone()
        };
        let model = if config.model_id.as_str().is_empty() {
            String::from_str(DEFAULT_MODEL)
        } else {
            config.model_id.clone()
        };
        let mut messages = history;
        let ghost before = messages@;
        messages.push(ChatTurn { role: Role::User, content: message });
        assert(messages@.drop_last() =~= before);
        self.phase = Phase::Sending;
        Ok(
            OutboundRequest {
                endpoint: base.concat(COMPLETIONS_PATH),
                api_key: config.api_key.clone(),
                model,
                messages,
                stream: true,
            },
        )
    }

    /// The request could not be dispatched.
    pub fn on_send_error(&mut self, detail: String) -> (e: RelayError)
        requires
            old(self).wf(),
            old(self).phase() == Phase::Sending,
        ensures
            final(self).wf(),
            final(self).phase() == Phase::Failed,
            e == RelayError::TransportSend(detail),
    {
        self.phase = Phase::Failed;
        RelayError::TransportSend(detail)
    }

    /// The response's status arrived. A success status starts the stream;
    /// any other fails the call, and the caller reads the body for
    /// `remote_error`. A refused call never streams.
    pub fn on_status(&mut self, status: u16) -> (accepted: bool)
        requires
            old(self).wf(),
            old(self).phase() == Phase::Sending,
        ensures
            final(self).wf(),
            final(self).pending() == old(self).pending(),
            final(self).response() == old(self).response(),
            accepted == is_success(status),
            accepted ==> final(self).phase() == Phase::Streaming,
            !accepted ==> final(self).phase() == Phase::Failed,
    {
        if 200 <= status && status < 300 {
            self.phase = Phase::Streaming;
            true
        } else {
            self.phase = Phase::Failed;
            false
        }
    }

    /// Takes one complete line: adds its update, if any, to the response and
    /// to `deltas`.
    fn take_line(&mut self, line: &[u8], deltas: &mut Vec<String>)
        ensures
            final(self).phase == old(self).phase,
            final(self).lines == old(self).lines,
            match delta_of_line(line@) {
                Some(c) => {
                    &&& texts_of(final(deltas)@) == texts_of(old(deltas)@).push(c)
                    &&& final(self).response@ == old(self).response@ + c
                },
                None => {
                    &&& final(deltas)@ == old(deltas)@
                    &&& final(self).response@ == old(self).response@
                },
            },
    {
        let found = line_delta(line);
        match found {
            Some(d) => {
                assert(opt_view(Some(d)) == Some(d@));
                self.response.append(d.as_str());
                deltas.push(d);
                assert(texts_of(deltas@) =~= texts_of(old(deltas)@).push(d@));
            },
            None => {},
        }
    }

    /// Takes each line, in order.
    fn take_lines(&mut self, lines: &Vec<Vec<u8>>, deltas: &mut Vec<String>)
        ensures
            final(self).phase == old(self).phase,
            final(self).lines == old(self).lines,
            texts_of(final(deltas)@) == texts_of(old(deltas)@) + deltas_of(views_of(lines@)),
            final(self).response@ == old(self).response@ + deltas_of(views_of(lines@)).flatten_alt(),
    {
        let ghost start_deltas = texts_of(deltas@);
        let ghost start_response = self.response@;
        let mut i: usize = 0;
        while i < lines.len()
            invariant
                i <= lines@.len(),
                self.phase == old(self).phase,
                self.lines == old(self).lines,
                texts_of(deltas@) == start_deltas + deltas_of(views_of(lines@).subrange(0, i as int)),
                self.response@ == start_response + deltas_of(
                    views_of(lines@).subrange(0, i as int),
                ).flatten_alt(),
            decreases lines@.len() - i,
        {
            let ghost prefix = views_of(lines@).subrange(0, i as int);
            let ghost next = views_of(lines@).subrange(0, i + 1);
            assert(next.drop_last() =~= prefix);
            assert(next.last() == lines@[i as int]@);
            self.take_line(lines[i].as_slice(), deltas);
            proof {
                let d = deltas_of(prefix);
                match delta_of_line(lines@[i as int]@) {
                    Some(c) => {
                        assert(d.push(c).drop_last() =~= d);
                        assert(start_deltas + d.push(c) =~= (start_deltas + d).push(c));
                        assert(start_response + d.push(c).flatten_alt() =~= start_response
                            + d.flatten_alt() + c);
                    },
                    None => {},
                }
            }
            i = i + 1;
        }
        assert(views_of(lines@).subrange(0, i as int) =~= views_of(lines@));
    }

    /// A chunk of the response body arrived. Returns the updates of the
    /// lines it completes, in order, for the listener; they are appended to
    /// the response, and the bytes after the last newline stay pending.
    pub fn on_chunk(&mut self, chunk: &[u8]) -> (deltas: Vec<String>)
        requires
            old(self).wf(),
            old(self).phase() == Phase::Streaming,
        ensures
            final(self).wf(),
            final(self).phase() == Phase::Streaming,
            final(self).pending() == split_lines(old(self).pending() + chunk@).1,
            texts_of(deltas@) == deltas_of(split_lines(old(self).pending() + chunk@).0),
            final(self).response() == old(self).response() + texts_of(deltas@).flatten_alt(),
    {
        let lines = self.lines.feed(chunk);
        let mut deltas: Vec<String> = Vec::new();
        self.take_lines(&lines, &mut deltas);
        assert(texts_of(deltas@) =~= Seq::<Seq<char>>::empty() + deltas_of(views_of(lines@)));
        deltas
    }

    /// Reading the response broke off: the call fails, whatever arrived.
    pub fn on_read_error(&mut self, detail: String) -> (e: RelayError)
        requires
            old(self).wf(),
            old(self).phase() == Phase::Streaming,
        ensures
            final(self).wf(),
            final(self).phase() == Phase::Failed,
            e == RelayError::TransportRead(detail),
    {
        self.phase = Phase::Failed;
        RelayError::TransportRead(detail)
    }

    /// The stream ended: the pending line, if any, is taken as a last line.
    /// Returns its update, if any, and the call's text: the whole response,
    /// or the fixed placeholder when no update arrived.
    pub fn finish(&mut self) -> (r: Completion)
        requires
            old(self).wf(),
            old(self).phase() == Phase::Streaming,
        ensures
            final(self).wf(),
            final(self).phase() == Phase::Completed,
            final(self).pending() == Seq::<u8>::empty(),
            texts_of(r.deltas@) == (if old(self).pending().len() == 0 {
                Seq::<Seq<char>>::empty()
            } else {
                deltas_of(seq![old(self).pending()])
            }),
            final(self).response() == old(self).response() + texts_of(r.deltas@).flatten_alt(),
            r.text@ == final_text(final(self).response()),
    {
        let mut deltas: Vec<String> = Vec::new();
        let ghost p = self.lines@;
        match self.lines.flush() {
            Some(line) => {
                self.take_line(line.as_slice(), &mut deltas);
                let ghost one: Seq<Seq<u8>> = seq![p];
                assert(one.drop_last() =~= Seq::<Seq<u8>>::empty());
                assert(one.last() == p);
                assert(deltas_of(one.drop_last()) =~= Seq::<Seq<char>>::empty());
                proof {
                    match delta_of_line(p) {
                        Some(c) => {
                            assert(seq![c].drop_last() =~= Seq::<Seq<char>>::empty());
                            assert(texts_of(deltas@) =~= seq![c]);
                            let e = Seq::<Seq<char>>::empty();
                            assert(seq![c].drop_last() =~= e);
                            assert(e.flatten_alt() == Seq::<char>::empty());
                            assert(Seq::<char>::empty() + c =~= c);
                            assert(seq![c].flatten_alt() =~= c);
                            assert(deltas_of(one) =~= e.push(c));
                        },
                        None => {
                            assert(texts_of(deltas@) =~= Seq::<Seq<char>>::empty());
                            assert(self.response@ =~= self.response@ + Seq::<char>::empty());
                        },
                    }
                }
            },
            None => {
                assert(texts_of(deltas@) =~= Seq::<Seq<char>>::empty());
                assert(self.response@ =~= self.response@ + Seq::<char>::empty());
            },
        }
        self.phase = Phase::Completed;
        let text = if self.response.as_str().is_empty() {
            String::from_str(EMPTY_RESPONSE_TEXT)
        } else {
            self.response.clone()
        };
        Completion { deltas, text }
    }
}

/// Lines none of which carries an update add nothing to the response, so a
/// stream made only of them ends with the placeholder text.
pub proof fn law_silent_stream_ends_with_placeholder(lines: Seq<Seq<u8>>)
    requires
        forall|k: int| 0 <= k < lines.len() ==> delta_of_line(#[trigger] lines[k]) is None,
    ensures
        deltas_of(lines) == Seq::<Seq<char>>::empty(),
        final_text(deltas_of(lines).flatten_alt()) == EMPTY_RESPONSE_TEXT@,
    decreases lines.len(),
{
    if lines.len() > 0 {
        let init = lines.drop_last();
        assert forall|k: int| 0 <= k < init.len() implies delta_of_line(#[trigger] init[k]) is None by {
            assert(init[k] == lines[k]);
        }
        law_silent_stream_ends_with_placeholder(init);
        assert(delta_of_line(lines[lines.len() - 1]) is None);
    }
    assert(Seq::<Seq<char>>::empty().flatten_alt() == Seq::<char>::empty());
}

/// The failure of a call that the endpoint refused, with its response body.
pub fn remote_error(status: u16, body: String) -> (e: RelayError)
    requires
        !is_success(status),
    ensures
        e == (RelayError::Remote { status, body }),
{
    RelayError::Remote { status, body }
}

} // verus!
