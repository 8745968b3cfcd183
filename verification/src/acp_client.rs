//! The client's side of a conversation with an ACP agent over its standard input and output.
//!
//! * Every line that the agent writes is one JSON frame. A frame with an `id` answers the request
//!   of that id. A frame without one is a notification: it goes to the subscriber, if there is
//!   one, and into a buffer that [`AcpClient::take_pending_notifications`] empties.
//! * Only one request is in flight at a time. Notifications do not say which request they belong
//!   to; with one request in flight, those between a request and its response belong to it.
//!
//! [`AcpClient`] holds what the client knows and decides what happens to each frame. Reading,
//! writing and waiting are its caller's.
use serde_json::Value;
use vstd::prelude::*;

use crate::json;
use crate::json::{member, number_value, object_value, text_value, Json};
use crate::key_set::KeySet;
use crate::lines;
use crate::lines::{decode_line, encode_text_line, LineError};
use crate::text;
use crate::text::decimal_text;

verus! {

/// What the client knows.
pub struct AcpClient {
    /// The ids that a response is awaited for.
    pending: KeySet,
    /// The id of the request in flight, until its sender has its outcome.
    in_flight: Option<String>,
    /// Whether notifications are forwarded as they arrive.
    subscribed: bool,
    /// The notifications since the last request began or the buffer was emptied.
    pending_notifications: Vec<Value>,
}

/// What an [`AcpClient`] knows.
#[verifier::ext_equal]
pub struct ClientModel {
    pub pending: Set<Seq<char>>,
    pub in_flight: Option<Seq<char>>,
    pub subscribed: bool,
    pub buffered: Seq<Json>,
}

impl ClientModel {
    /// A response is awaited for the request in flight only.
    pub open spec fn valid(self) -> bool {
        forall|id: Seq<char>| #[trigger] self.pending.contains(id) ==> self.in_flight == Some(id)
    }

    /// A client that has not sent anything.
    pub open spec fn idle() -> ClientModel {
        ClientModel {
            pending: Set::empty(),
            in_flight: None,
            subscribed: false,
            buffered: seq![],
        }
    }

    /// A request has been registered: notifications from before it are forgotten.
    pub open spec fn begun(self, id: Seq<char>, streaming: bool) -> ClientModel {
        ClientModel {
            pending: self.pending.insert(id),
            in_flight: Some(id),
            subscribed: streaming || self.subscribed,
            buffered: seq![],
        }
    }

    /// What becomes of a frame.
    pub open spec fn route(self, frame: Json) -> Route {
        match frame.member("id"@) {
            Some(id) => if self.pending.contains(id_key(id)) {
                Route::Deliver { id: id_key(id), frame }
            } else {
                Route::Unknown { id: id_key(id) }
            },
            None => Route::Notify { forward: if self.subscribed { Some(frame) } else { None } },
        }
    }

    /// A frame has been routed. The response to the request in flight ends the forwarding of
    /// notifications.
    pub open spec fn dispatched(self, frame: Json) -> ClientModel {
        match self.route(frame) {
            Route::Deliver { id, .. } => ClientModel {
                pending: self.pending.remove(id),
                subscribed: self.subscribed && self.in_flight != Some(id),
                ..self
            },
            Route::Unknown { .. } => self,
            Route::Notify { .. } => ClientModel { buffered: self.buffered.push(frame), ..self },
        }
    }

    /// The request in flight is not awaited any more: its response, or what stands in for it, has
    /// been handed out.
    pub open spec fn answered(self) -> bool {
        self.in_flight is Some && !self.pending.contains(self.in_flight->0)
    }

    /// The sender of the request in flight has its outcome, or has given up.
    pub open spec fn settled(self) -> ClientModel {
        ClientModel {
            pending: match self.in_flight {
                Some(id) => self.pending.remove(id),
                None => self.pending,
            },
            in_flight: None,
            subscribed: false,
            ..self
        }
    }

    /// No frame will arrive any more.
    pub open spec fn closed(self) -> ClientModel {
        ClientModel { pending: Set::empty(), ..self }
    }
}

/// What becomes of a frame.
pub enum Route {
    /// It answers the request `id`.
    Deliver { id: Seq<char>, frame: Json },
    /// It answers no request that is awaited.
    Unknown { id: Seq<char> },
    /// It is a notification.
    Notify { forward: Option<Json> },
}

/// What becomes of a frame.
#[derive(Debug)]
pub enum Dispatch {
    /// Hand the frame to the sender of the request `id`.
    Deliver { id: String, frame: Value },
    /// Nobody waits for a response to `id`: the frame is dropped.
    Unknown { id: String },
    /// The frame is a notification, which has been buffered; where a subscriber is registered, it
    /// is to be forwarded too.
    Notify { forward: Option<Value> },
}

impl View for Dispatch {
    type V = Route;

    open spec fn view(&self) -> Route {
        match *self {
            Dispatch::Deliver { id, frame } => Route::Deliver {
                id: id@,
                frame: json::json_of(frame),
            },
            Dispatch::Unknown { id } => Route::Unknown { id: id@ },
            Dispatch::Notify { forward } => Route::Notify {
                forward: match forward {
                    Some(frame) => Some(json::json_of(frame)),
                    None => None,
                },
            },
        }
    }
}

/// The key that a request of this id is registered under: the text of a string, and the printed
/// form of anything else.
pub open spec fn id_key(id: Json) -> Seq<char> {
    match id {
        Json::Text(s) => s,
        Json::Number(n) => n,
        Json::Null => "null"@,
        Json::Bool(b) => if b {
            "true"@
        } else {
            "false"@
        },
        _ => json::compact_form(id),
    }
}

/// A JSON-RPC request.
pub open spec fn request_json(id: Seq<char>, method: Seq<char>, params: Json) -> Json {
    Json::Object(
        Map::<Seq<char>, Json>::empty().insert("jsonrpc"@, Json::Text("2.0"@)).insert(
            "id"@,
            Json::Text(id),
        ).insert("method"@, Json::Text(method)).insert("params"@, params),
    )
}

/// A JSON-RPC notification.
pub open spec fn notification_json(method: Seq<char>, params: Json) -> Json {
    Json::Object(
        Map::<Seq<char>, Json>::empty().insert("jsonrpc"@, Json::Text("2.0"@)).insert(
            "method"@,
            Json::Text(method),
        ).insert("params"@, params),
    )
}

/// What stands in for a response once the agent is gone.
pub open spec fn closed_json() -> Json {
    Json::Object(
        Map::<Seq<char>, Json>::empty().insert("jsonrpc"@, Json::Text("2.0"@)).insert(
            "id"@,
            Json::Null,
        ).insert(
            "error"@,
            Json::Object(
                Map::<Seq<char>, Json>::empty().insert(
                    "code"@,
                    Json::Number(text::integer(-32000)),
                ).insert("message"@, Json::Text("ACP agent connection closed"@)),
            ),
        ),
    )
}

/// What a response says: the result, null where there is none, or the message of the error.
pub open spec fn outcome(response: Json) -> Result<Json, Seq<char>> {
    match response.member("error"@) {
        Some(error) => Err(
            match error.member("message"@) {
                Some(Json::Text(message)) => message,
                _ => "ACP agent returned an error"@,
            },
        ),
        None => Ok(
            match response.member("result"@) {
                Some(result) => result,
                None => Json::Null,
            },
        ),
    }
}

/// A request that is to be written.
#[derive(Debug)]
pub struct Outbound {
    /// The id to wait for.
    pub id: String,
    /// What to write to the agent, line end included.
    pub line: String,
}

/// What an agent's output gives the client to do.
#[derive(Debug)]
pub enum Inbound {
    /// The output has ended: [`AcpClient::close`] is due.
    Closed,
    /// The line was empty.
    Skipped,
    /// The line was no JSON, and is dropped.
    Malformed { line: String, error: serde_json::Error },
    /// The line was a frame.
    Routed(Dispatch),
}

/// Numbers requests. One counter serves all clients of a process.
#[derive(Debug)]
pub struct RequestCounter {
    next: u64,
}

impl View for RequestCounter {
    type V = u64;

    closed spec fn view(&self) -> u64 {
        self.next
    }
}

/// The number that follows `n`; after the largest, counting begins anew.
pub open spec fn following(n: u64) -> u64 {
    if n == u64::MAX {
        0
    } else {
        (n + 1) as u64
    }
}

impl RequestCounter {
    /// A counter that begins with zero.
    pub fn new() -> (r: RequestCounter)
        ensures
            r@ == 0,
    {
        RequestCounter { next: 0 }
    }

    /// The next number.
    pub fn next(&mut self) -> (r: u64)
        ensures
            r == old(self)@,
            final(self)@ == following(old(self)@),
    {
        let r: u64 = self.next;
        self.next = if r == u64::MAX {
            0
        } else {
            r + 1
        };
        r
    }
}

/// The pipes of an agent process.
#[derive(Clone, Copy, PartialEq, Eq, Structural, Debug)]
pub enum StdioMode {
    Piped,
    Null,
}

/// What a process is started as.
#[derive(Clone, Copy, PartialEq, Eq, Structural, Debug)]
pub enum ProcessRole {
    Agent,
}

/// How an agent process is started.
#[derive(Debug)]
pub struct AgentLaunch {
    pub program: String,
    pub args: Vec<String>,
    pub role: ProcessRole,
    /// The directory to start in; where none is given, the starter's own.
    pub cwd: Option<String>,
    /// What is added to the environment.
    pub env: Vec<(String, String)>,
    pub stdin: StdioMode,
    pub stdout: StdioMode,
    pub stderr: StdioMode,
}

/// The key that a request of this id is registered under.
fn key_of(id: &Value) -> (r: String)
    ensures
        r@ == id_key(json::json_of(*id)),
{
    match json::as_text(id) {
        Some(s) => s.to_string(),
        None => json::display(id),
    }
}

/// The names of JSON-RPC members differ.
pub proof fn lemma_member_names()
    ensures
        "jsonrpc"@ != "id"@,
        "jsonrpc"@ != "method"@,
        "jsonrpc"@ != "params"@,
        "jsonrpc"@ != "error"@,
        "id"@ != "method"@,
        "id"@ != "params"@,
        "id"@ != "error"@,
        "method"@ != "params"@,
        "code"@ != "message"@,
{
    reveal_strlit("jsonrpc");
    reveal_strlit("id");
    reveal_strlit("method");
    reveal_strlit("params");
    reveal_strlit("error");
    reveal_strlit("code");
    reveal_strlit("message");
    assert("jsonrpc"@.len() == 7 && "id"@.len() == 2 && "error"@.len() == 5);
    assert("method"@.len() == 6 && "params"@.len() == 6);
    assert("method"@[0] == 'm' && "params"@[0] == 'p');
    assert("code"@.len() == 4 && "message"@.len() == 7);
}

fn request(id: &String, method: &str, params: Value) -> (r: Value)
    ensures
        json::json_of(r) == request_json(id@, method@, json::json_of(params)),
{
    proof {
        lemma_member_names();
        reveal_with_fuel(json::collected, 5);
    }
    let members: Vec<(String, Value)> = vec![
        ("jsonrpc".to_string(), text_value("2.0".to_string())),
        ("id".to_string(), text_value(id.clone())),
        ("method".to_string(), text_value(method.to_string())),
        ("params".to_string(), params),
    ];
    object_value(members)
}

fn notification(method: &str, params: Value) -> (r: Value)
    ensures
        json::json_of(r) == notification_json(method@, json::json_of(params)),
{
    proof {
        lemma_member_names();
        reveal_with_fuel(json::collected, 4);
    }
    let members: Vec<(String, Value)> = vec![
        ("jsonrpc".to_string(), text_value("2.0".to_string())),
        ("method".to_string(), text_value(method.to_string())),
        ("params".to_string(), params),
    ];
    object_value(members)
}

/// What stands in for a response once the agent is gone, so that nobody waits forever.
pub fn closed_response() -> (r: Value)
    ensures
        json::json_of(r) == closed_json(),
{
    proof {
        lemma_member_names();
        reveal_with_fuel(json::collected, 4);
    }
    let error: Vec<(String, Value)> = vec![
        ("code".to_string(), number_value(-32000)),
        ("message".to_string(), text_value("ACP agent connection closed".to_string())),
    ];
    let members: Vec<(String, Value)> = vec![
        ("jsonrpc".to_string(), text_value("2.0".to_string())),
        ("id".to_string(), json::null_value()),
        ("error".to_string(), object_value(error)),
    ];
    object_value(members)
}

/// What a response says.
pub fn response_outcome(response: &Value) -> (r: Result<Value, String>)
    ensures
        match outcome(json::json_of(*response)) {
            Ok(result) => r is Ok && json::json_of(r->Ok_0) == result,
            Err(message) => r is Err && r->Err_0@ == message,
        },
{
    if let Some(error) = member(response, "error") {
        // Only the message is for people.
        if let Some(message) = member(error, "message") {
            if let Some(message) = json::as_text(message) {
                return Err(message.to_string());
            }
        }
        return Err("ACP agent returned an error".to_string());
    }
    match member(response, "result") {
        Some(result) => Ok(result.clone()),
        None => Ok(json::null_value()),
    }
}

/// Which pipe of a started agent is missing, if any.
pub fn missing_pipe(has_stdin: bool, has_stdout: bool) -> (r: Option<&'static str>)
    ensures
        r is None <==> has_stdin && has_stdout,
        !has_stdin ==> r->0@ == "ACP agent has no stdin pipe"@,
        has_stdin && !has_stdout ==> r->0@ == "ACP agent has no stdout pipe"@,
{
    if !has_stdin {
        Some("ACP agent has no stdin pipe")
    } else if !has_stdout {
        Some("ACP agent has no stdout pipe")
    } else {
        None
    }
}

impl AgentLaunch {
    /// Starts `agent_bin` with both pipes that the client needs. Agents write a steady stream of
    /// diagnostics; into a pipe that nobody reads, it would block them, so it goes nowhere.
    pub fn new(agent_bin: &str, agent_args: &Vec<String>) -> (r: AgentLaunch)
        ensures
            r.program@ == agent_bin@,
            text::views(r.args@) == text::views(agent_args@),
            r.role == ProcessRole::Agent,
            r.cwd is None,
            r.env@.len() == 0,
            r.stdin == StdioMode::Piped,
            r.stdout == StdioMode::Piped,
            r.stderr == StdioMode::Null,
    {
        let mut args: Vec<String> = Vec::new();
        let mut i: usize = 0;
        while i < agent_args.len()
            invariant
                i <= agent_args@.len(),
                text::views(args@) == text::views(agent_args@).take(i as int),
            decreases agent_args@.len() - i,
        {
            let ghost before = args@;
            args.push(agent_args[i].clone());
            assert(text::views(args@) =~= text::views(before).push(agent_args@[i as int]@));
            assert(text::views(args@) =~= text::views(agent_args@).take(i + 1));
            i = i + 1;
        }
        assert(text::views(agent_args@).take(i as int) =~= text::views(agent_args@));
        AgentLaunch {
            program: agent_bin.to_string(),
            args,
            role: ProcessRole::Agent,
            cwd: None,
            env: Vec::new(),
            stdin: StdioMode::Piped,
            stdout: StdioMode::Piped,
            stderr: StdioMode::Null,
        }
    }
}

impl View for AcpClient {
    type V = ClientModel;

    closed spec fn view(&self) -> ClientModel {
        ClientModel {
            pending: self.pending@,
            in_flight: match self.in_flight {
                Some(id) => Some(id@),
                None => None,
            },
            subscribed: self.subscribed,
            buffered: json::jsons(self.pending_notifications@),
        }
    }
}

impl AcpClient {
    #[verifier::type_invariant]
    spec fn inv(self) -> bool {
        self@.valid()
    }

    /// A client that has not sent anything.
    pub fn new() -> (r: AcpClient)
        ensures
            r@ == ClientModel::idle(),
    {
        let r = AcpClient {
            pending: KeySet::new(),
            in_flight: None,
            subscribed: false,
            pending_notifications: Vec::new(),
        };
        assert(r@ =~= ClientModel::idle());
        r
    }

    /// Whether a request is in flight.
    pub fn is_busy(&self) -> (r: bool)
        ensures
            r == (self@.in_flight is Some),
            self@.valid(),
    {
        proof {
            use_type_invariant(self);
        }
        self.in_flight.is_some()
    }

    /// Whether the response to the request in flight has been handed out.
    pub fn is_answered(&self) -> (r: bool)
        ensures
            r == self@.answered(),
    {
        match &self.in_flight {
            Some(id) => !self.pending.contains(id.as_str()),
            None => false,
        }
    }

    /// Takes the notifications that were buffered since the last call.
    pub fn take_pending_notifications(&mut self) -> (r: Vec<Value>)
        ensures
            json::jsons(r@) == old(self)@.buffered,
            final(self)@ == (ClientModel { buffered: seq![], ..old(self)@ }),
    {
        proof {
            use_type_invariant(&*self);
        }
        let mut r: Vec<Value> = Vec::new();
        std::mem::swap(&mut r, &mut self.pending_notifications);
        assert(self@ =~= ClientModel { buffered: seq![], ..old(self)@ });
        r
    }

    /// Begins a request under the counter's next number: registers it, and gives what is to be
    /// written. Its notifications are buffered only.
    pub fn send_request(
        &mut self,
        counter: &mut RequestCounter,
        method: &str,
        params: Value,
    ) -> (r: Result<Outbound, serde_json::Error>)
        requires
            old(self)@.in_flight is None,
        ensures
            r is Ok,
            r->Ok_0.id@ == text::decimal(old(counter)@ as nat),
            r->Ok_0.line@ == lines::line_of(
                request_json(r->Ok_0.id@, method@, json::json_of(params)),
            ),
            lines::one_line(r->Ok_0.line@),
            final(self)@ == old(self)@.begun(r->Ok_0.id@, false),
            final(counter)@ == following(old(counter)@),
    {
        self.send_request_inner(counter, method, params, false)
    }

    /// Begins a request, and forwards the notifications that arrive before its response.
    pub fn send_request_streaming(
        &mut self,
        counter: &mut RequestCounter,
        method: &str,
        params: Value,
    ) -> (r: Result<Outbound, serde_json::Error>)
        requires
            old(self)@.in_flight is None,
        ensures
            r is Ok,
            r->Ok_0.id@ == text::decimal(old(counter)@ as nat),
            r->Ok_0.line@ == lines::line_of(
                request_json(r->Ok_0.id@, method@, json::json_of(params)),
            ),
            lines::one_line(r->Ok_0.line@),
            final(self)@ == old(self)@.begun(r->Ok_0.id@, true),
            final(counter)@ == following(old(counter)@),
    {
        self.send_request_inner(counter, method, params, true)
    }

    fn send_request_inner(
        &mut self,
        counter: &mut RequestCounter,
        method: &str,
        params: Value,
        streaming: bool,
    ) -> (r: Result<Outbound, serde_json::Error>)
        requires
            old(self)@.in_flight is None,
        ensures
            r is Ok,
            r->Ok_0.id@ == text::decimal(old(counter)@ as nat),
            r->Ok_0.line@ == lines::line_of(
                request_json(r->Ok_0.id@, method@, json::json_of(params)),
            ),
            lines::one_line(r->Ok_0.line@),
            final(self)@ == old(self)@.begun(r->Ok_0.id@, streaming),
            final(counter)@ == following(old(counter)@),
    {
        proof {
            use_type_invariant(&*self);
        }
        let id = decimal_text(counter.next());
        let line = match encode_text_line(&request(&id, method, params)) {
            Ok(line) => line,
            Err(error) => {
                return Err(error);
            },
        };
        let mut pending = self.pending.without(id.as_str());
        pending.insert(id.clone());
        assert(pending@ =~= old(self)@.pending.insert(id@));
        assert forall|key: Seq<char>| pending@.contains(key) implies key == id@ by {
            if key != id@ {
                assert(old(self)@.pending.contains(key));
            }
        }
        self.in_flight = Some(id.clone());
        // Registered before anything is written, so that a fast response finds it.
        self.pending = pending;
        if streaming {
            self.subscribed = true;
        }
        // What was buffered before belongs to whatever happened earlier.
        self.pending_notifications = Vec::new();
        assert(self@ =~= old(self)@.begun(id@, streaming));
        Ok(Outbound { id, line })
    }

    /// Routes a frame that arrived.
    pub fn dispatch(&mut self, frame: Value) -> (r: Dispatch)
        ensures
            r@ == old(self)@.route(json::json_of(frame)),
            final(self)@ == old(self)@.dispatched(json::json_of(frame)),
    {
        proof {
            use_type_invariant(&*self);
        }
        if let Some(id) = member(&frame, "id") {
            let key = key_of(id);
            if self.pending.contains(key.as_str()) {
                self.pending = self.pending.without(key.as_str());
                let answered = match &self.in_flight {
                    Some(id) => text::same(id.as_str(), key.as_str()),
                    None => false,
                };
                if answered {
                    self.subscribed = false;
                }
                assert(self@ =~= old(self)@.dispatched(json::json_of(frame)));
                return Dispatch::Deliver { id: key, frame };
            }
            return Dispatch::Unknown { id: key };
        }
        let buffered = frame.clone();
        let ghost before = self.pending_notifications@;
        let mut notifications: Vec<Value> = Vec::new();
        std::mem::swap(&mut notifications, &mut self.pending_notifications);
        notifications.push(buffered);
        assert(json::jsons(notifications@) =~= json::jsons(before).push(json::json_of(frame)));
        self.pending_notifications = notifications;
        assert(self@ =~= old(self)@.dispatched(json::json_of(frame)));
        if self.subscribed {
            Dispatch::Notify { forward: Some(frame) }
        } else {
            Dispatch::Notify { forward: None }
        }
    }

    /// Takes in a line of the agent's output, of which `n` bytes were read.
    pub fn receive(&mut self, n: usize, line: &str) -> (r: Inbound)
        ensures
            n == 0 ==> r is Closed && final(self)@ == old(self)@,
            n > 0 && lines::trimmed(line@).len() == 0 ==> r is Skipped && final(self)@ == old(
                self,
            )@,
            n > 0 && lines::trimmed(line@).len() > 0 ==> match json::parsed(
                lines::trimmed(line@),
            ) {
                Some(frame) => {
                    &&& r is Routed
                    &&& r->Routed_0@ == old(self)@.route(frame)
                    &&& final(self)@ == old(self)@.dispatched(frame)
                },
                None => {
                    &&& r is Malformed
                    &&& r->line@ == lines::trimmed(line@)
                    &&& final(self)@ == old(self)@
                },
            },
    {
        match decode_line(n, line) {
            Ok(frame) => Inbound::Routed(self.dispatch(frame)),
            Err(LineError::Closed) => Inbound::Closed,
            Err(LineError::Empty) => Inbound::Skipped,
            Err(LineError::Malformed { line, error }) => Inbound::Malformed { line, error },
        }
    }

    /// The subscriber went away: nothing is forwarded any more.
    pub fn unsubscribe(&mut self)
        ensures
            final(self)@ == (ClientModel { subscribed: false, ..old(self)@ }),
    {
        proof {
            use_type_invariant(&*self);
        }
        self.subscribed = false;
        assert(self@ =~= ClientModel { subscribed: false, ..old(self)@ });
    }

    /// Ends the request in flight with the response that was delivered for it.
    pub fn finish(&mut self, response: &Value) -> (r: Result<Value, String>)
        requires
            old(self)@.answered(),
        ensures
            match outcome(json::json_of(*response)) {
                Ok(result) => r is Ok && json::json_of(r->Ok_0) == result,
                Err(message) => r is Err && r->Err_0@ == message,
            },
            final(self)@ == old(self)@.settled(),
    {
        self.settle();
        response_outcome(response)
    }

    /// Ends the request in flight, which could not be written.
    pub fn write_failed(&mut self)
        ensures
            final(self)@ == old(self)@.settled(),
    {
        self.settle();
    }

    /// Ends the request in flight, whose response will never be delivered.
    pub fn disconnected(&mut self) -> (r: &'static str)
        ensures
            r@ == "ACP agent connection closed before response"@,
            final(self)@ == old(self)@.settled(),
    {
        self.settle();
        "ACP agent connection closed before response"
    }

    fn settle(&mut self)
        ensures
            final(self)@ == old(self)@.settled(),
    {
        proof {
            use_type_invariant(&*self);
        }
        let pending = match &self.in_flight {
            Some(id) => self.pending.without(id.as_str()),
            None => self.pending.clone(),
        };
        self.pending = pending;
        self.in_flight = None;
        self.subscribed = false;
        assert(self@ =~= old(self)@.settled());
    }

    /// The agent's output has ended: gives the ids that still wait, each of which is to be handed
    /// [`closed_response`].
    pub fn close(&mut self) -> (r: KeySet)
        ensures
            r@ == old(self)@.pending,
            final(self)@ == old(self)@.closed(),
    {
        proof {
            use_type_invariant(&*self);
        }
        let mut r = KeySet::new();
        std::mem::swap(&mut r, &mut self.pending);
        assert(self@ =~= old(self)@.closed());
        r
    }

    /// What is to be written for a notification, which no response is awaited for.
    pub fn send_notification(&self, method: &str, params: Value) -> (r: Result<
        String,
        serde_json::Error,
    >)
        ensures
            r is Ok,
            r->Ok_0@ == lines::line_of(notification_json(method@, json::json_of(params))),
            lines::one_line(r->Ok_0@),
    {
        encode_text_line(&notification(method, params))
    }
}

} // verus!
