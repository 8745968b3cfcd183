//! A debug client that connects to the daemon the way a phone does.
//!
//! Without an agent it asks for the list of agents. With one it connects to that agent, runs the
//! JSON-RPC handshake, calls one method, and shows every frame that goes in or out. [`Probe`]
//! decides what is sent, shown and awaited; reading, writing and the clock are its caller's.
use iroh::{KeyParsingError, PublicKey};
use serde_json::Value;
use vstd::prelude::*;

use crate::acp_client;
use crate::json;
use crate::json::{member, number_value, object_value, text_value, Json};
use crate::report;
use crate::report::quoted;
use crate::text;
use crate::text::decimal_text;
use crate::token;
use crate::token::short_token;

verus! {

/// What to probe.
#[derive(Debug)]
pub struct ProbeArgs {
    /// The agent to connect to. Without one, the agents are listed.
    pub agent: Option<String>,
    /// The JSON-RPC method to call after `initialize` succeeds; `thread/list` where none is given.
    pub method: Option<String>,
    /// The parameters of the method, as JSON.
    pub params: String,
    /// The node to dial instead of the local daemon's.
    pub node_id: Option<String>,
    /// The token to present instead of the local daemon's.
    pub token: Option<String>,
    /// For how many seconds to show further frames after the response.
    pub linger_secs: u64,
    /// For how many seconds to wait for a response.
    pub timeout_secs: u64,
}

/// What is asked of the daemon on a fresh stream.
#[derive(Debug)]
pub enum Request {
    /// Which agents there are.
    ListAgents { v: u32, token: String },
    /// A new session with an agent; no earlier one is resumed.
    Connect { v: u32, token: String, agent: String, resume: Option<String> },
}

/// `iroh::KeyParsingError`. Nothing is said of what it holds.
#[verifier::external_type_specification]
#[verifier::external_body]
pub struct ExKeyParsingError(iroh::KeyParsingError);

/// The bytes of the public key that a text stands for, or nothing where it stands for none.
pub uninterp spec fn node_key(text: Seq<char>) -> Option<Seq<u8>>;

/// `<PublicKey as FromStr>::from_str` of iroh: which key a text stands for, if any, depends on the
/// text alone. The key is given by its bytes, of which there are 32.
#[verifier::external_body]
fn parse_node_key(s: &str) -> (r: Result<Vec<u8>, KeyParsingError>)
    ensures
        match node_key(s@) {
            Some(bytes) => r is Ok && r->Ok_0@ == bytes,
            None => r is Err,
        },
        r is Ok ==> r->Ok_0@.len() == 32,
{
    s.parse::<PublicKey>().map(|key| key.as_bytes().to_vec())
}

/// A node id that is none.
#[derive(Debug)]
pub struct NodeIdError {
    pub message: String,
    pub error: KeyParsingError,
}

/// Parameters that are no JSON.
#[derive(Debug)]
pub struct ParamsError {
    pub message: String,
    pub error: serde_json::Error,
}

/// The token to present: the one given, or else the daemon's own.
pub fn choose_token(args: &ProbeArgs, configured: &str) -> (r: String)
    ensures
        match args.token {
            Some(token) => r@ == token@,
            None => r@ == configured@,
        },
{
    match &args.token {
        Some(token) => token.clone(),
        None => configured.to_string(),
    }
}

/// The key of the node to dial: the one given, or else the daemon's own.
pub fn choose_node(args: &ProbeArgs, local: &Vec<u8>) -> (r: Result<Vec<u8>, NodeIdError>)
    ensures
        match args.node_id {
            None => r is Ok && r->Ok_0@ == local@,
            Some(s) => match node_key(s@) {
                Some(bytes) => r is Ok && r->Ok_0@ == bytes,
                None => r is Err && r->Err_0.message@ == "parsing --node-id "@ + report::quoted_text(
                    s@,
                ) + " as iroh public key"@,
            },
        },
{
    match &args.node_id {
        None => {
            let mut r: Vec<u8> = Vec::new();
            r.extend_from_slice(local.as_slice());
            assert(r@ =~= local@);
            Ok(r)
        },
        Some(s) => match parse_node_key(s.as_str()) {
            Ok(bytes) => Ok(bytes),
            Err(error) => {
                let mut message = "parsing --node-id ".to_string();
                message.append(quoted(s.as_str()).as_str());
                message.append(" as iroh public key");
                Err(NodeIdError { message, error })
            },
        },
    }
}

/// What is said before dialing. The token itself is not shown.
pub fn dial_banner(node_id: &str, token: &str, relay: Option<&str>) -> (r: String)
    ensures
        r@ == "probe: dialing node_id="@ + node_id@ + " token="@ + token::hex_form(
            token::sha256_of(vstd::utf8::encode_utf8(token@)).take(4),
        ) + " relay="@ + match relay {
            Some(relay) => relay@,
            None => "<iroh default>"@,
        },
{
    let mut r = "probe: dialing node_id=".to_string();
    r.append(node_id);
    r.append(" token=");
    r.append(short_token(token).as_str());
    r.append(" relay=");
    match relay {
        Some(relay) => r.append(relay),
        None => r.append("<iroh default>"),
    }
    r
}

/// What is asked of the daemon first: a session where an agent is given, else the list of agents.
pub fn opening_request(args: &ProbeArgs, v: u32, token: &str) -> (r: Request)
    ensures
        match (args.agent, r) {
            (None, Request::ListAgents { v: w, token: t }) => w == v && t@ == token@,
            (Some(agent), Request::Connect { v: w, token: t, agent: a, resume }) => w == v && t@
                == token@ && a@ == agent@ && resume is None,
            _ => false,
        },
{
    match &args.agent {
        None => Request::ListAgents { v, token: token.to_string() },
        Some(agent) => Request::Connect {
            v,
            token: token.to_string(),
            agent: agent.clone(),
            resume: None,
        },
    }
}

fn show(value: &Value) -> (r: String)
    ensures
        r@ == json::pretty_form(json::json_of(*value)),
{
    match json::to_pretty(value) {
        Ok(text) => text,
        Err(_) => json::display(value),
    }
}

/// How the daemon's answer to a request for the list of agents is shown.
pub fn agents_text(response: &Value) -> (r: Result<String, serde_json::Error>)
    ensures
        r is Ok,
        r->Ok_0@ == json::pretty_form(json::json_of(*response)),
{
    json::to_pretty(response)
}

/// How a value that is sent is shown.
pub fn outbound_text(value: &Value) -> (r: String)
    ensures
        r@ == "→ "@ + json::pretty_form(json::json_of(*value)),
{
    let mut r = "→ ".to_string();
    r.append(show(value).as_str());
    r
}

/// How a value that was received is shown.
pub fn inbound_text(value: &Value) -> (r: String)
    ensures
        r@ == "← "@ + json::pretty_form(json::json_of(*value)),
{
    let mut r = "← ".to_string();
    r.append(show(value).as_str());
    r
}

/// How far a probe has come.
#[derive(Clone, Copy, PartialEq, Eq, Structural, Debug)]
pub enum Stage {
    /// The daemon has not said yet whether it accepts the connection.
    Connecting,
    /// The agent has not answered `initialize` yet.
    Initializing,
    /// The agent has not answered the method yet.
    Calling,
    /// Further frames are shown for a while.
    Lingering,
    /// Nothing is awaited any more.
    Done,
}

/// A probe of one agent.
pub struct Probe {
    stage: Stage,
    agent: String,
    method: String,
    params: Value,
    version: String,
    timeout_secs: u64,
    linger_secs: u64,
}

/// What a [`Probe`] is about.
#[verifier::ext_equal]
pub struct ProbeModel {
    pub stage: Stage,
    pub agent: Seq<char>,
    pub method: Seq<char>,
    pub params: Json,
    pub version: Seq<char>,
    pub timeout_secs: u64,
    pub linger_secs: u64,
}

/// What happens to a probe.
#[derive(Debug)]
pub enum Event {
    /// The daemon has answered the request to connect.
    Ack { ok: bool, error: Option<String> },
    /// A frame has arrived.
    Frame(Value),
    /// No frame could be read, for this reason.
    ReadFailed(String),
    /// The time for a response, or for lingering, is over.
    Expired,
}

/// What an [`Event`] says.
pub enum EventModel {
    Ack { ok: bool, error: Option<Seq<char>> },
    Frame(Json),
    ReadFailed(Seq<char>),
    Expired,
}

/// Something to show or to send.
#[derive(Debug)]
pub enum Effect {
    /// A line for the error output.
    Note(String),
    /// A frame that was received, for the standard output.
    Inbound(String),
    /// A frame to show on the error output, as `shown` says, and then to send.
    Send { shown: String, value: Value },
}

/// What an [`Effect`] says.
#[verifier::ext_equal]
pub enum EffectModel {
    Note(Seq<char>),
    Inbound(Seq<char>),
    Send { shown: Seq<char>, value: Json },
}

/// What to wait for.
#[derive(Debug)]
pub enum Next {
    /// A frame, for so many seconds.
    ReadWithin(u64),
    /// A frame, in the time for the response, which begins now and lasts so many seconds.
    BeginResponse(u64),
    /// A frame, in the time for lingering, which begins now and lasts so many seconds.
    BeginLinger(u64),
    /// A frame, in the time that is running.
    ReadOn,
    /// Nothing: the stream is to be finished.
    Finish,
    /// Nothing: the probe has failed.
    Fail(String),
    /// What was waited for before: the event came at the wrong time.
    Ignored,
}

/// What a [`Next`] says.
#[verifier::ext_equal]
pub enum NextModel {
    ReadWithin(u64),
    BeginResponse(u64),
    BeginLinger(u64),
    ReadOn,
    Finish,
    Fail(Seq<char>),
    Ignored,
}

/// What follows from an event: things to show and send, in order, and what to wait for then.
#[derive(Debug)]
pub struct Action {
    pub effects: Vec<Effect>,
    pub next: Next,
}

/// What an [`Action`] says.
#[verifier::ext_equal]
pub struct ActionModel {
    pub effects: Seq<EffectModel>,
    pub next: NextModel,
}

impl View for Probe {
    type V = ProbeModel;

    closed spec fn view(&self) -> ProbeModel {
        ProbeModel {
            stage: self.stage,
            agent: self.agent@,
            method: self.method@,
            params: json::json_of(self.params),
            version: self.version@,
            timeout_secs: self.timeout_secs,
            linger_secs: self.linger_secs,
        }
    }
}

impl View for Event {
    type V = EventModel;

    open spec fn view(&self) -> EventModel {
        match *self {
            Event::Ack { ok, error } => EventModel::Ack {
                ok,
                error: match error {
                    Some(error) => Some(error@),
                    None => None,
                },
            },
            Event::Frame(frame) => EventModel::Frame(json::json_of(frame)),
            Event::ReadFailed(reason) => EventModel::ReadFailed(reason@),
            Event::Expired => EventModel::Expired,
        }
    }
}

impl View for Effect {
    type V = EffectModel;

    open spec fn view(&self) -> EffectModel {
        match *self {
            Effect::Note(line) => EffectModel::Note(line@),
            Effect::Inbound(line) => EffectModel::Inbound(line@),
            Effect::Send { shown, value } => EffectModel::Send {
                shown: shown@,
                value: json::json_of(value),
            },
        }
    }
}

impl View for Next {
    type V = NextModel;

    open spec fn view(&self) -> NextModel {
        match *self {
            Next::ReadWithin(secs) => NextModel::ReadWithin(secs),
            Next::BeginResponse(secs) => NextModel::BeginResponse(secs),
            Next::BeginLinger(secs) => NextModel::BeginLinger(secs),
            Next::ReadOn => NextModel::ReadOn,
            Next::Finish => NextModel::Finish,
            Next::Fail(message) => NextModel::Fail(message@),
            Next::Ignored => NextModel::Ignored,
        }
    }
}

impl View for Action {
    type V = ActionModel;

    open spec fn view(&self) -> ActionModel {
        ActionModel { effects: effect_models(self.effects@), next: self.next@ }
    }
}

/// What a list of effects says.
pub open spec fn effect_models(effects: Seq<Effect>) -> Seq<EffectModel> {
    effects.map_values(|e: Effect| e@)
}

/// An object without members.
pub open spec fn empty_object() -> Json {
    Json::Object(Map::<Seq<char>, Json>::empty())
}

/// The request that opens the handshake.
pub open spec fn initialize_json(version: Seq<char>) -> Json {
    Json::Object(
        Map::<Seq<char>, Json>::empty().insert("jsonrpc"@, Json::Text("2.0"@)).insert(
            "id"@,
            Json::Number(text::integer(1)),
        ).insert("method"@, Json::Text("initialize"@)).insert(
            "params"@,
            Json::Object(
                Map::<Seq<char>, Json>::empty().insert(
                    "clientInfo"@,
                    Json::Object(
                        Map::<Seq<char>, Json>::empty().insert(
                            "name"@,
                            Json::Text("alleycat-probe"@),
                        ).insert("version"@, Json::Text(version)).insert(
                            "title"@,
                            Json::Text("alleycat-probe"@),
                        ),
                    ),
                ).insert("capabilities"@, empty_object()),
            ),
        ),
    )
}

/// The notification that closes the handshake.
pub open spec fn initialized_json() -> Json {
    Json::Object(
        Map::<Seq<char>, Json>::empty().insert("jsonrpc"@, Json::Text("2.0"@)).insert(
            "method"@,
            Json::Text("initialized"@),
        ).insert("params"@, empty_object()),
    )
}

/// The call of the method.
pub open spec fn call_json(method: Seq<char>, params: Json) -> Json {
    Json::Object(
        Map::<Seq<char>, Json>::empty().insert("jsonrpc"@, Json::Text("2.0"@)).insert(
            "id"@,
            Json::Number(text::integer(2)),
        ).insert("method"@, Json::Text(method)).insert("params"@, params),
    )
}

/// A value is shown and sent.
pub open spec fn sent(value: Json) -> EffectModel {
    EffectModel::Send { shown: "→ "@ + json::pretty_form(value), value }
}

/// A frame is shown.
pub open spec fn received(frame: Json) -> EffectModel {
    EffectModel::Inbound("← "@ + json::pretty_form(frame))
}

/// The error that a response carries. One that is null is none.
pub open spec fn failure(frame: Json) -> Option<Json> {
    match frame.member("error"@) {
        Some(Json::Null) => None,
        error => error,
    }
}

impl ProbeModel {
    /// The probe at another stage.
    pub open spec fn at(self, stage: Stage) -> ProbeModel {
        ProbeModel { stage, ..self }
    }

    /// What is said where no response came in time.
    pub open spec fn no_response(self) -> EffectModel {
        EffectModel::Note(
            "probe: did not receive response to id=2 ("@ + self.method + ") within "@
                + text::decimal(self.timeout_secs as nat) + "s"@,
        )
    }

    /// After the call: linger where that is asked for, else finish. `effects` come first.
    pub open spec fn called(self, effects: Seq<EffectModel>) -> (ProbeModel, ActionModel) {
        if self.linger_secs > 0 {
            (
                self.at(Stage::Lingering),
                ActionModel {
                    effects: effects.push(
                        EffectModel::Note(
                            "probe: lingering "@ + text::decimal(self.linger_secs as nat)
                                + "s for trailing frames"@,
                        ),
                    ),
                    next: NextModel::BeginLinger(self.linger_secs),
                },
            )
        } else {
            (self.at(Stage::Done), ActionModel { effects, next: NextModel::Finish })
        }
    }

    /// What follows from an event.
    pub open spec fn advanced(self, event: EventModel) -> (ProbeModel, ActionModel) {
        match (self.stage, event) {
            (Stage::Connecting, EventModel::Ack { ok, error }) => if ok {
                (
                    self.at(Stage::Initializing),
                    ActionModel {
                        effects: seq![
                            EffectModel::Note(
                                "probe: connect ok agent="@ + self.agent + "; switching to JSONL"@,
                            ),
                            sent(initialize_json(self.version)),
                        ],
                        next: NextModel::ReadWithin(self.timeout_secs),
                    },
                )
            } else {
                (
                    self.at(Stage::Done),
                    ActionModel {
                        effects: seq![],
                        next: NextModel::Fail(
                            "connect rejected: "@ + match error {
                                Some(error) => error,
                                None => "<no error>"@,
                            },
                        ),
                    },
                )
            },
            (Stage::Initializing, EventModel::Frame(frame)) => if frame.member("id"@) != Some(
                Json::Number(text::integer(1)),
            ) {
                (
                    self,
                    ActionModel {
                        effects: seq![received(frame)],
                        next: NextModel::ReadWithin(self.timeout_secs),
                    },
                )
            } else if failure(frame) is Some {
                (
                    self.at(Stage::Done),
                    ActionModel {
                        effects: seq![received(frame)],
                        next: NextModel::Fail(
                            "initialize failed: "@ + match failure(frame)->0.member("message"@) {
                                Some(Json::Text(message)) => message,
                                _ => "<no error>"@,
                            },
                        ),
                    },
                )
            } else {
                (
                    self.at(Stage::Calling),
                    ActionModel {
                        effects: seq![
                            received(frame),
                            sent(initialized_json()),
                            sent(call_json(self.method, self.params)),
                        ],
                        next: NextModel::BeginResponse(self.timeout_secs),
                    },
                )
            },
            (Stage::Initializing, EventModel::ReadFailed(_)) => (
                self.at(Stage::Done),
                ActionModel {
                    effects: seq![],
                    next: NextModel::Fail("reading initialize response"@),
                },
            ),
            (Stage::Calling, EventModel::Frame(frame)) => if frame.member("id"@) == Some(
                Json::Number(text::integer(2)),
            ) {
                self.called(seq![received(frame)])
            } else {
                (
                    self,
                    ActionModel { effects: seq![received(frame)], next: NextModel::ReadOn },
                )
            },
            (Stage::Calling, EventModel::ReadFailed(reason)) => self.called(
                seq![EffectModel::Note("probe: read error: "@ + reason), self.no_response()],
            ),
            (Stage::Calling, EventModel::Expired) => self.called(seq![self.no_response()]),
            (Stage::Lingering, EventModel::Frame(frame)) => (
                self,
                ActionModel { effects: seq![received(frame)], next: NextModel::ReadOn },
            ),
            (Stage::Lingering, EventModel::ReadFailed(_)) => (
                self.at(Stage::Done),
                ActionModel { effects: seq![], next: NextModel::Finish },
            ),
            (Stage::Lingering, EventModel::Expired) => (
                self.at(Stage::Done),
                ActionModel { effects: seq![], next: NextModel::Finish },
            ),
            _ => (self, ActionModel { effects: seq![], next: NextModel::Ignored }),
        }
    }
}

fn empty_value() -> (r: Value)
    ensures
        json::json_of(r) == empty_object(),
{
    let members: Vec<(String, Value)> = Vec::new();
    object_value(members)
}

/// The names of the members of the `initialize` parameters differ.
pub proof fn lemma_initialize_names()
    ensures
        "name"@ != "version"@,
        "name"@ != "title"@,
        "version"@ != "title"@,
        "clientInfo"@ != "capabilities"@,
{
    reveal_strlit("name");
    reveal_strlit("version");
    reveal_strlit("title");
    reveal_strlit("clientInfo");
    reveal_strlit("capabilities");
    assert("name"@.len() == 4 && "version"@.len() == 7 && "title"@.len() == 5);
    assert("clientInfo"@.len() == 10 && "capabilities"@.len() == 12);
}

fn initialize_value(version: &String) -> (r: Value)
    ensures
        json::json_of(r) == initialize_json(version@),
{
    proof {
        lemma_initialize_names();
        acp_client::lemma_member_names();
        reveal_with_fuel(json::collected, 5);
    }
    let info: Vec<(String, Value)> = vec![
        ("name".to_string(), text_value("alleycat-probe".to_string())),
        ("version".to_string(), text_value(version.clone())),
        ("title".to_string(), text_value("alleycat-probe".to_string())),
    ];
    let params: Vec<(String, Value)> = vec![
        ("clientInfo".to_string(), object_value(info)),
        ("capabilities".to_string(), empty_value()),
    ];
    let members: Vec<(String, Value)> = vec![
        ("jsonrpc".to_string(), text_value("2.0".to_string())),
        ("id".to_string(), number_value(1)),
        ("method".to_string(), text_value("initialize".to_string())),
        ("params".to_string(), object_value(params)),
    ];
    object_value(members)
}

fn initialized_value() -> (r: Value)
    ensures
        json::json_of(r) == initialized_json(),
{
    proof {
        acp_client::lemma_member_names();
        reveal_with_fuel(json::collected, 4);
    }
    let members: Vec<(String, Value)> = vec![
        ("jsonrpc".to_string(), text_value("2.0".to_string())),
        ("method".to_string(), text_value("initialized".to_string())),
        ("params".to_string(), empty_value()),
    ];
    object_value(members)
}

fn call_value(method: &String, params: Value) -> (r: Value)
    ensures
        json::json_of(r) == call_json(method@, json::json_of(params)),
{
    proof {
        acp_client::lemma_member_names();
        reveal_with_fuel(json::collected, 5);
    }
    let members: Vec<(String, Value)> = vec![
        ("jsonrpc".to_string(), text_value("2.0".to_string())),
        ("id".to_string(), number_value(2)),
        ("method".to_string(), text_value(method.clone())),
        ("params".to_string(), params),
    ];
    object_value(members)
}

fn send(value: Value) -> (r: Effect)
    ensures
        r@ == sent(json::json_of(value)),
{
    Effect::Send { shown: outbound_text(&value), value }
}

/// Whether a frame answers the request of this number.
fn answers(frame: &Value, number: i64) -> (r: bool)
    ensures
        r == (json::json_of(*frame).member("id"@) == Some(
            Json::Number(text::integer(number as int)),
        )),
{
    match member(frame, "id") {
        Some(id) => {
            let expected = number_value(number);
            assert(json::json_of(expected) == Json::Number(text::integer(number as int)));
            json::equal(id, &expected)
        },
        None => false,
    }
}

/// Why `initialize` failed, as the agent's answer has it, if it did.
fn initialize_failure(frame: &Value) -> (r: Option<String>)
    ensures
        match failure(json::json_of(*frame)) {
            Some(error) => r is Some && r->0@ == "initialize failed: "@ + match error.member(
                "message"@,
            ) {
                Some(Json::Text(message)) => message,
                _ => "<no error>"@,
            },
            None => r is None,
        },
{
    let error = match member(frame, "error") {
        Some(error) => error,
        None => {
            return None;
        },
    };
    if json::is_null(error) {
        return None;
    }
    let mut r = "initialize failed: ".to_string();
    if let Some(message) = member(error, "message") {
        if let Some(message) = json::as_text(message) {
            r.append(message);
            return Some(r);
        }
    }
    r.append("<no error>");
    Some(r)
}

impl Probe {
    /// A probe of `agent` by a client of this version.
    pub fn new(args: &ProbeArgs, agent: &str, version: &str) -> (r: Result<Probe, ParamsError>)
        ensures
            match json::parsed(args.params@) {
                Some(params) => r is Ok && r->Ok_0@ == (ProbeModel {
                    stage: Stage::Connecting,
                    agent: agent@,
                    method: match args.method {
                        Some(method) => method@,
                        None => "thread/list"@,
                    },
                    params,
                    version: version@,
                    timeout_secs: args.timeout_secs,
                    linger_secs: args.linger_secs,
                }),
                None => r is Err && r->Err_0.message@ == "parsing --params "@ + report::quoted_text(
                    args.params@,
                ) + " as JSON"@,
            },
    {
        let method = match &args.method {
            Some(method) => method.clone(),
            None => "thread/list".to_string(),
        };
        match json::parse(args.params.as_str()) {
            Ok(params) => Ok(
                Probe {
                    stage: Stage::Connecting,
                    agent: agent.to_string(),
                    method,
                    params,
                    version: version.to_string(),
                    timeout_secs: args.timeout_secs,
                    linger_secs: args.linger_secs,
                },
            ),
            Err(error) => {
                let mut message = "parsing --params ".to_string();
                message.append(quoted(args.params.as_str()).as_str());
                message.append(" as JSON");
                Err(ParamsError { message, error })
            },
        }
    }

    /// How far the probe has come.
    pub fn stage(&self) -> (r: Stage)
        ensures
            r == self@.stage,
    {
        self.stage
    }

    fn no_response_note(&self) -> (r: Effect)
        ensures
            r@ == self@.no_response(),
    {
        let mut r = "probe: did not receive response to id=2 (".to_string();
        r.append(self.method.as_str());
        r.append(") within ");
        r.append(decimal_text(self.timeout_secs).as_str());
        r.append("s");
        Effect::Note(r)
    }

    fn after_call(&mut self, effects: Vec<Effect>) -> (r: Action)
        ensures
            (final(self)@, r@) == old(self)@.called(effect_models(effects@)),
    {
        let ghost first = effect_models(effects@);
        if self.linger_secs > 0 {
            let mut note = "probe: lingering ".to_string();
            note.append(decimal_text(self.linger_secs).as_str());
            note.append("s for trailing frames");
            let mut effects: Vec<Effect> = effects;
            effects.push(Effect::Note(note));
            self.stage = Stage::Lingering;
            let r = Action { effects, next: Next::BeginLinger(self.linger_secs) };
            assert(r@.effects =~= first.push(EffectModel::Note(note@)));
            r
        } else {
            self.stage = Stage::Done;
            Action { effects, next: Next::Finish }
        }
    }

    /// Takes in an event: what to show and send, and what to wait for then.
    pub fn advance(&mut self, event: Event) -> (r: Action)
        ensures
            (final(self)@, r@) == old(self)@.advanced(event@),
    {
        match event {
            Event::Ack { ok, error } => self.on_ack(ok, error),
            Event::Frame(frame) => self.on_frame(frame),
            Event::ReadFailed(reason) => self.on_read_failed(reason),
            Event::Expired => self.on_expired(),
        }
    }

    fn ignored() -> (r: Action)
        ensures
            r@ == (ActionModel { effects: seq![], next: NextModel::Ignored }),
    {
        let r = Action { effects: Vec::new(), next: Next::Ignored };
        assert(r@.effects =~= seq![]);
        r
    }

    fn on_ack(&mut self, ok: bool, error: Option<String>) -> (r: Action)
        ensures
            (final(self)@, r@) == old(self)@.advanced(Event::Ack { ok, error }@),
    {
        if self.stage != Stage::Connecting {
            return Self::ignored();
        }
        if ok {
            let mut note = "probe: connect ok agent=".to_string();
            note.append(self.agent.as_str());
            note.append("; switching to JSONL");
            let effects: Vec<Effect> = vec![
                Effect::Note(note),
                send(initialize_value(&self.version)),
            ];
            self.stage = Stage::Initializing;
            let r = Action { effects, next: Next::ReadWithin(self.timeout_secs) };
            assert(r@.effects =~= old(self)@.advanced(Event::Ack { ok, error }@).1.effects);
            r
        } else {
            let mut message = "connect rejected: ".to_string();
            match &error {
                Some(error) => message.append(error.as_str()),
                None => message.append("<no error>"),
            }
            self.stage = Stage::Done;
            let r = Action { effects: Vec::new(), next: Next::Fail(message) };
            assert(r@.effects =~= seq![]);
            r
        }
    }

    fn on_frame(&mut self, frame: Value) -> (r: Action)
        ensures
            (final(self)@, r@) == old(self)@.advanced(Event::Frame(frame)@),
    {
        let ghost value = json::json_of(frame);
        match self.stage {
            Stage::Initializing => {
                let inbound = Effect::Inbound(inbound_text(&frame));
                if !answers(&frame, 1) {
                    let effects: Vec<Effect> = vec![inbound];
                    let r = Action { effects, next: Next::ReadWithin(self.timeout_secs) };
                    assert(r@.effects =~= seq![received(value)]);
                    return r;
                }
                if let Some(message) = initialize_failure(&frame) {
                    let effects: Vec<Effect> = vec![inbound];
                    self.stage = Stage::Done;
                    let r = Action { effects, next: Next::Fail(message) };
                    assert(r@.effects =~= seq![received(value)]);
                    return r;
                }
                let effects: Vec<Effect> = vec![
                    inbound,
                    send(initialized_value()),
                    send(call_value(&self.method, self.params.clone())),
                ];
                self.stage = Stage::Calling;
                let r = Action { effects, next: Next::BeginResponse(self.timeout_secs) };
                assert(r@.effects =~= old(self)@.advanced(Event::Frame(frame)@).1.effects);
                r
            },
            Stage::Calling => {
                let effects: Vec<Effect> = vec![Effect::Inbound(inbound_text(&frame))];
                assert(effect_models(effects@) =~= seq![received(value)]);
                if answers(&frame, 2) {
                    self.after_call(effects)
                } else {
                    Action { effects, next: Next::ReadOn }
                }
            },
            Stage::Lingering => {
                let effects: Vec<Effect> = vec![Effect::Inbound(inbound_text(&frame))];
                assert(effect_models(effects@) =~= seq![received(value)]);
                Action { effects, next: Next::ReadOn }
            },
            _ => Self::ignored(),
        }
    }

    fn on_read_failed(&mut self, reason: String) -> (r: Action)
        ensures
            (final(self)@, r@) == old(self)@.advanced(Event::ReadFailed(reason)@),
    {
        match self.stage {
            Stage::Initializing => {
                self.stage = Stage::Done;
                let r = Action {
                    effects: Vec::new(),
                    next: Next::Fail("reading initialize response".to_string()),
                };
                assert(r@.effects =~= seq![]);
                r
            },
            Stage::Calling => {
                let mut note = "probe: read error: ".to_string();
                note.append(reason.as_str());
                let effects: Vec<Effect> = vec![Effect::Note(note), self.no_response_note()];
                assert(effect_models(effects@) =~= seq![
                    EffectModel::Note(note@),
                    self@.no_response(),
                ]);
                self.after_call(effects)
            },
            Stage::Lingering => {
                self.stage = Stage::Done;
                let r = Action { effects: Vec::new(), next: Next::Finish };
                assert(r@.effects =~= seq![]);
                r
            },
            _ => Self::ignored(),
        }
    }

    fn on_expired(&mut self) -> (r: Action)
        ensures
            (final(self)@, r@) == old(self)@.advanced(EventModel::Expired),
    {
        match self.stage {
            Stage::Calling => {
                let effects: Vec<Effect> = vec![self.no_response_note()];
                assert(effect_models(effects@) =~= seq![self@.no_response()]);
                self.after_call(effects)
            },
            Stage::Lingering => {
                self.stage = Stage::Done;
                let r = Action { effects: Vec::new(), next: Next::Finish };
                assert(r@.effects =~= seq![]);
                r
            },
            _ => Self::ignored(),
        }
    }
}

} // verus!
