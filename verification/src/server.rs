//! Clients that are connected: who may speak, what is replied, and in what pieces.
use crate::json;
use crate::json::{written, Json, JsonView};
use crate::protocol::{Error, ErrorView, Hello, VERSION};
use crate::runtime::actor::{fresh_id, is_uuid};
use crate::text;
use crate::text::{
    boundary_at, digits, floor_bounds, floor_is_floor, floor_of, is_space, near_boundary, trim,
    trim_end, unsigned,
};
use vstd::prelude::*;
use vstd::string::*;
use vstd::utf8::*;

verus! {

/// The greatest piece of a message, in bytes.
pub const CHUNK_BYTES: usize = 32_768;

/// The number of replies that are kept for a client.
pub const REPLY_CACHE: usize = 128;

/// The most clients that are known.
pub const MAX_CLIENTS: usize = 1024;

/// The most sessions that a connection watches.
pub const MAX_SUBSCRIPTIONS: usize = 16;

/// How long a client that is silent stays known, in seconds.
pub const CLIENT_LIFETIME: u64 = 86_400;

// ---------------------------------------------------------------------------
// Who may speak
// ---------------------------------------------------------------------------

/// The pages that may speak to a server on a port, beside those that are named.
pub fn local_origins(port: u16) -> (origins: Vec<String>)
    ensures
        origins.deep_view() == seq![
            "http://127.0.0.1:"@ + digits(port as nat),
            "http://localhost:"@ + digits(port as nat),
            "http://[::1]:"@ + digits(port as nat),
        ],
{
    let number = text::decimal(port as u64);
    let mut origins: Vec<String> = Vec::new();
    origins.push(text::join_two("http://127.0.0.1:", number.as_str()));
    origins.push(text::join_two("http://localhost:", number.as_str()));
    origins.push(text::join_two("http://[::1]:", number.as_str()));
    assert(origins.deep_view() =~= seq![
        "http://127.0.0.1:"@ + digits(port as nat),
        "http://localhost:"@ + digits(port as nat),
        "http://[::1]:"@ + digits(port as nat),
    ]);
    origins
}

/// The page that a request comes from.
#[derive(Debug, PartialEq)]
pub enum Origin {
    /// The request comes from no page.
    Absent,
    /// What names the page is not text.
    Garbled,
    Named(String),
}

/// Whether a request may come from a page.
pub open spec fn origin_allowed(origin: Origin, allowed: Seq<Seq<char>>) -> bool {
    match origin {
        Origin::Absent => true,
        Origin::Garbled => false,
        Origin::Named(name) => allowed.contains(name@),
    }
}

/// Whether a request may come from a page.
pub fn valid_origin(origin: &Origin, allowed: &Vec<String>) -> (result: bool)
    ensures
        result == origin_allowed(*origin, allowed.deep_view()),
{
    match origin {
        Origin::Absent => true,
        Origin::Garbled => false,
        Origin::Named(name) => text::holds(allowed, name.as_str()),
    }
}

/// What becomes of a request for a file.
#[derive(Clone, Copy, Debug, PartialEq, Eq, Structural)]
pub enum Access {
    Forbidden,
    /// The browser asks what it may ask.
    Preflight,
    Granted,
    Unauthorized,
}

/// What becomes of a request for a file: it must come from a page that may speak, and
/// bring the token.
pub open spec fn access(
    origin: Origin,
    allowed: Seq<Seq<char>>,
    preflight: bool,
    authorization: Option<Seq<char>>,
    token: Seq<char>,
) -> Access {
    if !origin_allowed(origin, allowed) {
        Access::Forbidden
    } else if preflight {
        Access::Preflight
    } else {
        match authorization {
            Some(header) if header == "Bearer "@ + token => Access::Granted,
            _ => Access::Unauthorized,
        }
    }
}

/// What becomes of a request for a file. A header that is not text is given as none.
pub fn authorize(
    origin: &Origin,
    allowed: &Vec<String>,
    preflight: bool,
    authorization: Option<&str>,
    token: &str,
) -> (result: Access)
    ensures
        result == access(
            *origin,
            allowed.deep_view(),
            preflight,
            authorization.deep_view(),
            token@,
        ),
{
    if !valid_origin(origin, allowed) {
        return Access::Forbidden;
    }
    if preflight {
        return Access::Preflight;
    }
    match authorization {
        Some(header) => {
            let wanted = text::join_two("Bearer ", token);
            if text::same(header, wanted.as_str()) {
                Access::Granted
            } else {
                Access::Unauthorized
            }
        },
        None => Access::Unauthorized,
    }
}

/// The token in a file, or what is wrong with it.
pub fn token_from_file(content: &str, path: &str) -> (result: Result<String, String>)
    ensures
        match result {
            Ok(token) => token@ == trim(content@) && token@.len() > 0,
            Err(error) => trim(content@).len() == 0 && error@ == "server token file is empty: "@
                + path@,
        },
{
    let token = text::trimmed(content);
    if token.as_str().is_empty() {
        Err(text::join_two("server token file is empty: ", path))
    } else {
        Ok(token)
    }
}

/// Where the token of the server is from.
#[derive(Debug, PartialEq)]
pub enum TokenSource {
    /// It was set.
    Variable(String),
    /// It stands in the file with this path.
    File(String),
}

/// Where the token is from: the variable, where it is set, else the file that was given,
/// else the one that is meant for it. A variable that says nothing is an error, and so is
/// it where there is no place for the file.
pub fn token_source(
    variable: Option<String>,
    given: Option<String>,
    standard: Option<String>,
) -> (result: Result<TokenSource, String>)
    ensures
        match variable {
            Some(token) => if trim(token@).len() == 0 {
                result matches Err(error) && error@ == "ROPE_SERVER_TOKEN is empty"@
            } else {
                result == Ok::<TokenSource, String>(TokenSource::Variable(token))
            },
            None => match (given, standard) {
                (Some(path), _) => result == Ok::<TokenSource, String>(TokenSource::File(path)),
                (None, Some(path)) => result == Ok::<TokenSource, String>(TokenSource::File(path)),
                (None, None) => result matches Err(error) && error@ == "home directory not found"@,
            },
        },
{
    match variable {
        Some(token) => if is_blank(token.as_str()) {
            Err("ROPE_SERVER_TOKEN is empty".to_owned())
        } else {
            Ok(TokenSource::Variable(token))
        },
        None => match (given, standard) {
            (Some(path), _) => Ok(TokenSource::File(path)),
            (None, Some(path)) => Ok(TokenSource::File(path)),
            (None, None) => Err("home directory not found".to_owned()),
        },
    }
}

impl TokenSource {
    /// The token, and the file that it stands in where it stands in one. `content` is what
    /// that file holds. A token that was set is taken as it is, one in a file without the
    /// space around it.
    pub fn token(self, content: &str) -> (result: Result<(String, Option<String>), String>)
        ensures
            match self {
                TokenSource::Variable(token) => result == Ok::<(String, Option<String>), String>(
                    (token, None),
                ),
                TokenSource::File(path) => match result {
                    Ok((token, file)) => {
                        &&& token@ == trim(content@)
                        &&& token@.len() > 0
                        &&& file == Some(path)
                    },
                    Err(error) => trim(content@).len() == 0 && error@
                        == "server token file is empty: "@ + path@,
                },
            },
    {
        match self {
            TokenSource::Variable(token) => Ok((token, None)),
            TokenSource::File(path) => match token_from_file(content, path.as_str()) {
                Ok(token) => Ok((token, Some(path))),
                Err(error) => Err(error),
            },
        }
    }
}

/// What the file of the token is to hold where it is not there: a token by chance, on a line
/// of its own.
pub fn fresh_token_file() -> (content: String)
    ensures
        is_uuid(trim(content@)),
        content@ == trim(content@) + "\n"@,
{
    let token = fresh_id();
    proof {
        token_file_law(token@);
    }
    text::join_two(token.as_str(), "\n")
}

/// A token that was made for its file is read back from it, each time.
pub proof fn token_file_law(token: Seq<char>)
    requires
        is_uuid(token),
    ensures
        trim(token + "\n"@) == token,
        token.len() > 0,
{
    reveal_strlit("\n");
    let content = token + "\n"@;
    assert(token[0] == content[0] && !is_space(token[0]));
    assert(token[35] == token.last() && !is_space(token.last()));
    assert(content.drop_last() =~= token);
    assert(content.last() == '\n');
    reveal_with_fuel(trim_end, 2);
}

/// Whether a token that was set says anything.
pub fn is_blank(token: &str) -> (result: bool)
    ensures
        result == (trim(token@).len() == 0),
{
    let said = text::trimmed(token);
    said.as_str().is_empty()
}

/// What becomes of a client that introduces itself.
#[derive(Debug, PartialEq)]
pub enum Welcome {
    /// The client is told why, and the connection ends.
    Refused(Error),
    /// The connection ends.
    Dropped(String),
    /// The client was here before.
    Back(String),
    /// The client is new.
    New,
}

/// The clients that are known, each with when it was last heard of, in seconds.
#[derive(Debug, PartialEq)]
pub struct Clients {
    pub seen: Vec<(String, u64)>,
}

pub type SeenClients = Seq<(Seq<char>, u64)>;

/// Whether a client is still known.
pub open spec fn is_alive(seen: u64, now: u64) -> bool {
    now < seen || now - seen < CLIENT_LIFETIME
}

/// The clients, one of them heard of at `now`.
pub open spec fn heard_of(clients: SeenClients, id: Seq<char>, now: u64) -> SeenClients {
    Seq::new(
        clients.len(),
        |i: int|
            if clients[i].0 == id {
                (id, now)
            } else {
                clients[i]
            },
    )
}

/// The clients that are still known.
pub open spec fn alive(clients: SeenClients, now: u64) -> SeenClients
    decreases clients.len(),
{
    if clients.len() == 0 {
        clients
    } else {
        let rest = alive(clients.drop_last(), now);
        if is_alive(clients.last().1, now) {
            rest.push(clients.last())
        } else {
            rest
        }
    }
}

/// Whether a client is among those that are known.
pub open spec fn is_known(clients: SeenClients, id: Seq<char>) -> bool {
    exists|i: int| 0 <= i < clients.len() && (#[trigger] clients[i]).0 == id
}

impl Clients {
    /// Forgets the clients that were silent for too long.
    pub fn expire(&mut self, now: u64)
        ensures
            final(self).seen.deep_view() == alive(old(self).seen.deep_view(), now),
    {
        let ghost all = self.seen.deep_view();
        let mut kept: Vec<(String, u64)> = Vec::new();
        let mut i: usize = 0;
        assert(kept.deep_view() =~= alive(all.take(0), now));
        while i < self.seen.len()
            invariant
                all == self.seen.deep_view(),
                i <= self.seen@.len(),
                kept.deep_view() == alive(all.take(i as int), now),
            decreases self.seen@.len() - i,
        {
            let ghost before = kept.deep_view();
            proof {
                assert(all.take(i + 1).drop_last() =~= all.take(i as int));
                assert(all.take(i + 1).last() == self.seen@[i as int].deep_view());
            }
            let last: u64 = self.seen[i].1;
            if now < last || now - last < CLIENT_LIFETIME {
                kept.push((self.seen[i].0.clone(), last));
                assert(kept.deep_view() =~= before.push(self.seen@[i as int].deep_view()));
            }
            i += 1;
        }
        assert(all.take(i as int) =~= all);
        self.seen = kept;
    }

    pub fn contains(&self, id: &str) -> (result: bool)
        ensures
            result == is_known(self.seen.deep_view(), id@),
    {
        let ghost all = self.seen.deep_view();
        let mut i: usize = 0;
        while i < self.seen.len()
            invariant
                all == self.seen.deep_view(),
                i <= self.seen@.len(),
                forall|k: int| 0 <= k < i ==> (#[trigger] all[k]).0 != id@,
            decreases self.seen@.len() - i,
        {
            assert(all[i as int] == self.seen@[i as int].deep_view());
            if text::same(self.seen[i].0.as_str(), id) {
                return true;
            }
            i += 1;
        }
        false
    }

    /// Enters a new client, heard of at `now`.
    pub fn enter(&mut self, id: String, now: u64)
        ensures
            final(self).seen.deep_view() == old(self).seen.deep_view().push((id@, now)),
    {
        let ghost before = self.seen.deep_view();
        self.seen.push((id, now));
        assert(self.seen.deep_view() =~= before.push((id@, now)));
    }

    /// A client was heard of at `now`.
    pub fn heard(&mut self, id: &str, now: u64)
        ensures
            final(self).seen.deep_view() == heard_of(old(self).seen.deep_view(), id@, now),
    {
        let ghost before = self.seen.deep_view();
        let mut seen: Vec<(String, u64)> = Vec::new();
        let mut i: usize = 0;
        while i < self.seen.len()
            invariant
                before == self.seen.deep_view(),
                i <= self.seen@.len(),
                seen@.len() == i,
                forall|k: int|
                    0 <= k < i ==> (#[trigger] seen@[k]).deep_view() == heard_of(
                        before,
                        id@,
                        now,
                    )[k],
            decreases self.seen@.len() - i,
        {
            assert(before[i as int] == self.seen@[i as int].deep_view());
            let last: u64 = if text::same(self.seen[i].0.as_str(), id) {
                now
            } else {
                self.seen[i].1
            };
            seen.push((self.seen[i].0.clone(), last));
            i += 1;
        }
        self.seen = seen;
        assert(self.seen.deep_view() =~= heard_of(before, id@, now));
    }

    /// What becomes of a client that introduces itself at `now`. A new client is to be
    /// entered under an id of its own.
    pub fn welcome(&mut self, hello: &Hello, token: &str, server_id: &str, now: u64) -> (result: Welcome)
        ensures
            ({
                let valid = hello.protocol == VERSION && hello.token@ == token@;
                let clients = alive(old(self).seen.deep_view(), now);
                &&& final(self).seen.deep_view() == if valid {
                    clients
                } else {
                    old(self).seen.deep_view()
                }
                &&& match result {
                    Welcome::Refused(error) => if !valid {
                        error.deep_view() == (ErrorView {
                            code: "unauthorized"@,
                            message: "invalid token or protocol version"@,
                        })
                    } else {
                        &&& hello.client_id.deep_view() matches Some(id) && (
                        hello.server_id.deep_view() != Some(server_id@) || !is_known(clients, id))
                        &&& error.deep_view() == (ErrorView {
                            code: "expired_client"@,
                            message: "reconcile state before resending uncertain requests"@,
                        })
                    },
                    Welcome::Dropped(error) => {
                        &&& valid && hello.client_id is None && clients.len() >= MAX_CLIENTS
                        &&& error@ == "too many client identities"@
                    },
                    Welcome::Back(id) => {
                        &&& valid && hello.client_id.deep_view() == Some(id@)
                        &&& hello.server_id.deep_view() == Some(server_id@)
                        &&& is_known(clients, id@)
                    },
                    Welcome::New => valid && hello.client_id is None && clients.len() < MAX_CLIENTS,
                }
            }),
    {
        if hello.protocol != VERSION || !text::same(hello.token.as_str(), token) {
            return Welcome::Refused(
                Error::new("unauthorized", "invalid token or protocol version"),
            );
        }
        self.expire(now);
        match &hello.client_id {
            Some(id) => {
                let here = match &hello.server_id {
                    Some(server) => text::same(server.as_str(), server_id),
                    None => false,
                };
                if here && self.contains(id.as_str()) {
                    Welcome::Back(id.clone())
                } else {
                    Welcome::Refused(
                        Error::new(
                            "expired_client",
                            "reconcile state before resending uncertain requests",
                        ),
                    )
                }
            },
            None => {
                let ghost known = self.seen.deep_view();
                assert(known.len() == self.seen@.len());
                if self.seen.len() >= MAX_CLIENTS {
                    Welcome::Dropped("too many client identities".to_owned())
                } else {
                    Welcome::New
                }
            },
        }
    }
}

proof fn alive_has(clients: SeenClients, i: int, now: u64)
    requires
        0 <= i < clients.len(),
        is_alive(clients[i].1, now),
    ensures
        is_known(alive(clients, now), clients[i].0),
    decreases clients.len(),
{
    let rest = alive(clients.drop_last(), now);
    let all = alive(clients, now);
    if i == clients.len() - 1 {
        assert(all[rest.len() as int] == clients[i]);
    } else {
        alive_has(clients.drop_last(), i, now);
        let id = clients[i].0;
        let k = choose|k: int| 0 <= k < rest.len() && (#[trigger] rest[k]).0 == id;
        assert(all[k] == rest[k]);
    }
}

/// A client that was heard of within the lifetime of a client is still known.
pub proof fn client_law(clients: SeenClients, id: Seq<char>, heard: u64, now: u64)
    requires
        is_known(clients, id),
        heard <= now,
        now - heard < CLIENT_LIFETIME,
    ensures
        is_known(alive(heard_of(clients, id, heard), now), id),
{
    let i = choose|i: int| 0 <= i < clients.len() && (#[trigger] clients[i]).0 == id;
    let told = heard_of(clients, id, heard);
    assert(told[i] == (id, heard));
    alive_has(told, i, now);
}

// ---------------------------------------------------------------------------
// Requests and replies
// ---------------------------------------------------------------------------

/// The reply to a request that was refused.
pub open spec fn error_json(id: Seq<char>, code: Seq<char>, message: Seq<char>) -> JsonView {
    JsonView::Object(
        seq![
            ("type"@, JsonView::Text("reply"@)),
            ("request_id"@, JsonView::Text(id)),
            (
                "error"@,
                JsonView::Object(
                    seq![
                        ("code"@, JsonView::Text(code)),
                        ("message"@, JsonView::Text(message)),
                    ],
                ),
            ),
        ],
    )
}

/// The reply to a request that was refused.
pub fn error_reply(id: &str, code: &str, message: &str) -> (reply: Json)
    ensures
        reply.deep_view() == error_json(id@, code@, message@),
{
    let mut inner: Vec<(String, Json)> = Vec::new();
    inner.push(("code".to_owned(), Json::text(code)));
    inner.push(("message".to_owned(), Json::text(message)));
    proof {
        json::json_view_object(inner);
        assert(inner.deep_view() =~= seq![
            ("code"@, JsonView::Text(code@)),
            ("message"@, JsonView::Text(message@)),
        ]);
    }
    let error = Json::Object(inner);
    let mut entries: Vec<(String, Json)> = Vec::new();
    entries.push(("type".to_owned(), Json::text("reply")));
    entries.push(("request_id".to_owned(), Json::text(id)));
    entries.push(("error".to_owned(), error));
    proof {
        json::json_view_object(entries);
        assert(entries.deep_view() =~= error_json(id@, code@, message@)->Object_0);
    }
    Json::Object(entries)
}

/// The reply to a request that was carried out.
pub open spec fn result_json(id: Seq<char>, result: JsonView) -> JsonView {
    JsonView::Object(
        seq![
            ("type"@, JsonView::Text("reply"@)),
            ("request_id"@, JsonView::Text(id)),
            ("result"@, result),
        ],
    )
}

/// The reply to a request that was carried out or refused.
pub fn outcome_reply(id: &str, outcome: Result<Json, Error>) -> (reply: Json)
    ensures
        reply.deep_view() == match outcome {
            Ok(result) => result_json(id@, result.deep_view()),
            Err(error) => error_json(id@, error.code@, error.message@),
        },
{
    match outcome {
        Ok(result) => {
            let ghost view = result.deep_view();
            let mut entries: Vec<(String, Json)> = Vec::new();
            entries.push(("type".to_owned(), Json::text("reply")));
            entries.push(("request_id".to_owned(), Json::text(id)));
            entries.push(("result".to_owned(), result));
            proof {
                json::json_view_object(entries);
                assert(entries.deep_view() =~= result_json(id@, view)->Object_0);
            }
            Json::Object(entries)
        },
        Err(error) => error_reply(id, error.code.as_str(), error.message.as_str()),
    }
}

/// A request that was carried out: its number, what it asked, and the reply.
#[derive(Debug, PartialEq)]
pub struct Replied {
    pub number: u64,
    pub payload: String,
    pub reply: Json,
}

pub struct RepliedView {
    pub number: u64,
    pub payload: Seq<char>,
    pub reply: JsonView,
}

impl DeepView for Replied {
    type V = RepliedView;

    open spec fn deep_view(&self) -> RepliedView {
        RepliedView {
            number: self.number,
            payload: self.payload@,
            reply: self.reply.deep_view(),
        }
    }
}

/// What a client asked that changed something, and what it was told.
#[derive(Debug, PartialEq)]
pub struct ClientHistory {
    pub highest: u64,
    pub replies: Vec<Replied>,
}

pub struct HistoryView {
    pub highest: u64,
    pub replies: Seq<RepliedView>,
}

impl View for ClientHistory {
    type V = HistoryView;

    open spec fn view(&self) -> HistoryView {
        HistoryView { highest: self.highest, replies: self.replies.deep_view() }
    }
}

impl HistoryView {
    /// The invariant: replies are kept in the order of their numbers, none beyond the
    /// highest, and no more than may be.
    pub open spec fn wf(self) -> bool {
        &&& self.replies.len() <= REPLY_CACHE
        &&& forall|i: int|
            0 <= i < self.replies.len() ==> 0 < (#[trigger] self.replies[i]).number <= self.highest
        &&& forall|i: int, j: int|
            0 <= i < j < self.replies.len() ==> (#[trigger] self.replies[i]).number < (
            #[trigger] self.replies[j]).number
    }
}

/// The reply that is kept for a number.
pub open spec fn kept_reply(replies: Seq<RepliedView>, number: u64) -> Option<RepliedView>
    decreases replies.len(),
{
    if replies.len() == 0 {
        None
    } else if replies[0].number == number {
        Some(replies[0])
    } else {
        kept_reply(replies.skip(1), number)
    }
}

/// The number of a request: positive, and given as text.
pub open spec fn request_number(id: Seq<char>) -> Option<u64> {
    match unsigned(id) {
        Some(n) if n > 0 => Some(n),
        _ => None,
    }
}

/// The reply to a request that is not carried out; none where it is. A request that
/// changes something is carried out once: the same request again gets the same reply.
pub open spec fn settled_reply(
    history: HistoryView,
    id: Seq<char>,
    payload: Seq<char>,
    mutation: bool,
) -> Option<JsonView> {
    match request_number(id) {
        None => Some(
            error_json(
                id,
                "invalid_request_id"@,
                "use a positive increasing integer encoded as a string"@,
            ),
        ),
        Some(number) => if mutation && number <= history.highest {
            match kept_reply(history.replies, number) {
                Some(replied) => if replied.payload == payload {
                    Some(replied.reply)
                } else {
                    Some(
                        error_json(
                            id,
                            "request_id_reused"@,
                            "request ID was used with another payload"@,
                        ),
                    )
                },
                None => Some(
                    error_json(
                        id,
                        "expired_request"@,
                        "the original outcome is no longer cached; reconcile state before retrying"@,
                    ),
                ),
            }
        } else {
            None
        },
    }
}

/// A history behind the start of a request.
pub open spec fn begun(history: HistoryView, number: u64, mutation: bool) -> HistoryView {
    if mutation {
        HistoryView { highest: number, ..history }
    } else {
        history
    }
}

/// A history with the reply to a request that changed something: the oldest reply goes
/// where there are too many.
pub open spec fn remembered(history: HistoryView, replied: RepliedView) -> HistoryView {
    let all = history.replies.push(replied);
    HistoryView {
        replies: if all.len() > REPLY_CACHE {
            all.skip(1)
        } else {
            all
        },
        ..history
    }
}

/// What becomes of a request.
#[derive(Debug, PartialEq)]
pub enum Verdict {
    /// The reply is settled.
    Reply(Json),
    /// The request is carried out, under this number.
    Dispatch(u64),
}

impl ClientHistory {
    pub open spec fn wf(&self) -> bool {
        self@.wf()
    }

    pub fn new() -> (history: ClientHistory)
        ensures
            history.wf(),
            history@ == (HistoryView { highest: 0, replies: Seq::empty() }),
    {
        let replies: Vec<Replied> = Vec::new();
        assert(replies.deep_view() =~= Seq::empty());
        ClientHistory { highest: 0, replies }
    }

    fn find(&self, number: u64) -> (result: Option<&Replied>)
        ensures
            result.deep_view() == kept_reply(self@.replies, number),
    {
        let ghost all = self@.replies;
        let mut i: usize = 0;
        assert(all.skip(0) =~= all);
        while i < self.replies.len()
            invariant
                all == self@.replies,
                i <= self.replies@.len(),
                kept_reply(all, number) == kept_reply(all.skip(i as int), number),
            decreases self.replies@.len() - i,
        {
            proof {
                assert(all.skip(i as int)[0] == self.replies@[i as int].deep_view());
                assert(all.skip(i as int).skip(1) =~= all.skip(i + 1));
            }
            if self.replies[i].number == number {
                return Some(&self.replies[i]);
            }
            i += 1;
        }
        None
    }

    /// A request came: it is carried out, or its reply is settled.
    pub fn begin(&mut self, id: &str, payload: &str, mutation: bool) -> (verdict: Verdict)
        requires
            old(self).wf(),
        ensures
            final(self).wf(),
            match verdict {
                Verdict::Reply(reply) => {
                    &&& settled_reply(old(self)@, id@, payload@, mutation) == Some(
                        reply.deep_view(),
                    )
                    &&& final(self)@ == old(self)@
                },
                Verdict::Dispatch(number) => {
                    &&& settled_reply(old(self)@, id@, payload@, mutation) is None
                    &&& request_number(id@) == Some(number)
                    &&& mutation ==> number > old(self)@.highest
                    &&& final(self)@ == begun(old(self)@, number, mutation)
                },
            },
    {
        let number: u64 = match text::parse_unsigned(id) {
            Some(n) => n,
            None => 0,
        };
        if number == 0 {
            return Verdict::Reply(
                error_reply(
                    id,
                    "invalid_request_id",
                    "use a positive increasing integer encoded as a string",
                ),
            );
        }
        if mutation && number <= self.highest {
            return Verdict::Reply(
                match self.find(number) {
                    Some(replied) => if text::same(replied.payload.as_str(), payload) {
                        replied.reply.clone()
                    } else {
                        error_reply(
                            id,
                            "request_id_reused",
                            "request ID was used with another payload",
                        )
                    },
                    None => error_reply(
                        id,
                        "expired_request",
                        "the original outcome is no longer cached; reconcile state before retrying",
                    ),
                },
            );
        }
        if mutation {
            self.highest = number;
        }
        Verdict::Dispatch(number)
    }

    /// A request that changes something was carried out: its reply is kept.
    pub fn complete(&mut self, number: u64, payload: String, reply: &Json)
        requires
            old(self).wf(),
            number == old(self)@.highest,
            number > 0,
            forall|i: int|
                0 <= i < old(self)@.replies.len() ==> (#[trigger] old(self)@.replies[i]).number
                    < number,
        ensures
            final(self).wf(),
            final(self)@ == remembered(
                old(self)@,
                RepliedView { number, payload: payload@, reply: reply.deep_view() },
            ),
    {
        let ghost before = self@.replies;
        let replied = Replied { number, payload, reply: reply.clone() };
        let ghost view = replied.deep_view();
        self.replies.push(replied);
        let ghost all = before.push(view);
        assert(self@.replies =~= all);
        if self.replies.len() > REPLY_CACHE {
            let oldest = self.replies.remove(0);
            assert(self@.replies =~= all.skip(1));
        }
        proof {
            let now = self@.replies;
            let shift: int = if all.len() > REPLY_CACHE {
                1
            } else {
                0
            };
            assert forall|i: int| 0 <= i < now.len() implies #[trigger] now[i] == all[i + shift] by {}
        }
    }
}

proof fn kept_last(replies: Seq<RepliedView>, number: u64)
    requires
        replies.len() > 0,
        replies.last().number == number,
        forall|i: int| 0 <= i < replies.len() - 1 ==> (#[trigger] replies[i]).number != number,
    ensures
        kept_reply(replies, number) == Some(replies.last()),
    decreases replies.len(),
{
    if replies.len() > 1 {
        assert(replies[0].number != number);
        let rest = replies.skip(1);
        assert forall|i: int| 0 <= i < rest.len() - 1 implies (#[trigger] rest[i]).number
            != number by {
            assert(rest[i] == replies[i + 1]);
        }
        kept_last(rest, number);
    }
}

/// A request that changes something is carried out at most once: after it began, the
/// same number is never carried out again. Once it was carried out, asking again gets
/// the reply it got, and another request under its number is refused.
pub proof fn once_law(
    history: HistoryView,
    id: Seq<char>,
    payload: Seq<char>,
    other: Seq<char>,
    reply: JsonView,
)
    requires
        history.wf(),
        settled_reply(history, id, payload, true) is None,
    ensures
        ({
            let number = request_number(id)->0;
            let started = begun(history, number, true);
            let done = remembered(
                started,
                RepliedView { number, payload, reply },
            );
            &&& request_number(id) is Some
            &&& number > history.highest
            &&& settled_reply(started, id, other, true) is Some
            &&& done.wf()
            &&& settled_reply(done, id, payload, true) == Some(reply)
            &&& other != payload ==> settled_reply(done, id, other, true) == Some(
                error_json(
                    id,
                    "request_id_reused"@,
                    "request ID was used with another payload"@,
                ),
            )
        }),
{
    let number = request_number(id)->0;
    let started = begun(history, number, true);
    let replied = RepliedView { number, payload, reply };
    let done = remembered(started, replied);
    let all = history.replies.push(replied);
    let shift: int = if all.len() > REPLY_CACHE {
        1
    } else {
        0
    };
    assert forall|i: int| 0 <= i < done.replies.len() implies #[trigger] done.replies[i] == all[i
        + shift] by {}
    assert forall|i: int| 0 <= i < done.replies.len() - 1 implies (
    #[trigger] done.replies[i]).number != number by {
        assert(done.replies[i] == history.replies[i + shift]);
    }
    kept_last(done.replies, number);
}

/// Whether a connection may watch one more session.
pub fn check_subscription(watched: usize, already: bool) -> (result: Result<(), Error>)
    ensures
        match result {
            Ok(_) => watched < MAX_SUBSCRIPTIONS || already,
            Err(error) => watched >= MAX_SUBSCRIPTIONS && !already && error.deep_view() == (
            ErrorView { code: "limit"@, message: "at most 16 subscriptions per connection"@ }),
        },
{
    if watched >= MAX_SUBSCRIPTIONS && !already {
        Err(Error::new("limit", "at most 16 subscriptions per connection"))
    } else {
        Ok(())
    }
}

// ---------------------------------------------------------------------------
// Pieces
// ---------------------------------------------------------------------------

/// The end of the piece that begins at `from`.
pub open spec fn piece_end(bytes: Seq<u8>, from: int) -> int {
    let rest = bytes.skip(from);
    from + floor_of(
        rest,
        if rest.len() < CHUNK_BYTES {
            rest.len() as int
        } else {
            CHUNK_BYTES as int
        },
    )
}

/// The pieces of a message from `from` on, each as long as may be.
pub open spec fn pieces_from(bytes: Seq<u8>, from: int) -> Seq<Seq<u8>>
    decreases bytes.len() - from,
{
    let end = piece_end(bytes, from);
    if from < 0 || from >= bytes.len() || end <= from || end > bytes.len() {
        Seq::empty()
    } else {
        seq![bytes.subrange(from, end)] + pieces_from(bytes, end)
    }
}

/// The pieces, one after the other.
pub open spec fn concatenated(pieces: Seq<Seq<u8>>) -> Seq<u8>
    decreases pieces.len(),
{
    if pieces.len() == 0 {
        Seq::empty()
    } else {
        pieces[0] + concatenated(pieces.skip(1))
    }
}

/// A piece ends between characters, behind where it begins, and is not too long.
proof fn piece_end_bounds(bytes: Seq<u8>, from: int)
    requires
        valid_utf8(bytes),
        0 <= from < bytes.len(),
        is_char_boundary(bytes, from),
    ensures
        from < piece_end(bytes, from) <= bytes.len(),
        piece_end(bytes, from) <= from + CHUNK_BYTES,
        is_char_boundary(bytes, piece_end(bytes, from)),
        valid_utf8(bytes.skip(from)),
{
    let rest = bytes.skip(from);
    assert(rest =~= bytes.subrange(from, bytes.len() as int));
    valid_utf8_split(bytes, from);
    let index: int = if rest.len() < CHUNK_BYTES {
        rest.len() as int
    } else {
        CHUNK_BYTES as int
    };
    floor_bounds(rest, index);
    let end = floor_of(rest, index);
    if end == 0 {
        if index == rest.len() {
            is_char_boundary_start_end_of_seq(rest);
            assert(is_char_boundary(rest, index));
        } else {
            near_boundary(rest, index);
            let i = choose|i: int| index - 3 <= i <= index && 0 <= i && is_char_boundary(rest, i);
            assert(i <= end);
        }
    }
    boundary_at(rest, end);
    boundary_at(bytes, from + end);
}

proof fn pieces_law_from(bytes: Seq<u8>, from: int)
    requires
        valid_utf8(bytes),
        0 <= from <= bytes.len(),
        is_char_boundary(bytes, from),
    ensures
        concatenated(pieces_from(bytes, from)) == bytes.skip(from),
        forall|i: int|
            0 <= i < pieces_from(bytes, from).len() ==> 0 < (#[trigger] pieces_from(
                bytes,
                from,
            )[i]).len() <= CHUNK_BYTES,
    decreases bytes.len() - from,
{
    if from < bytes.len() {
        piece_end_bounds(bytes, from);
        let end = piece_end(bytes, from);
        pieces_law_from(bytes, end);
        let rest = pieces_from(bytes, end);
        let pieces = pieces_from(bytes, from);
        assert(pieces.skip(1) =~= rest);
        assert(bytes.subrange(from, end) + bytes.skip(end) =~= bytes.skip(from));
        assert forall|i: int| 0 <= i < pieces.len() implies 0 < (#[trigger] pieces[i]).len()
            <= CHUNK_BYTES by {
            if i > 0 {
                assert(pieces[i] == rest[i - 1]);
            }
        }
    } else {
        assert(bytes.skip(from) =~= Seq::empty());
    }
}

/// The pieces of a message are that message, none is empty and none too long.
pub proof fn pieces_law(message: Seq<char>)
    ensures
        ({
            let pieces = pieces_from(encode_utf8(message), 0);
            &&& concatenated(pieces) == encode_utf8(message)
            &&& forall|i: int| 0 <= i < pieces.len() ==> 0 < (#[trigger] pieces[i]).len()
                <= CHUNK_BYTES
        }),
{
    let bytes = encode_utf8(message);
    encode_utf8_valid_utf8(message);
    is_char_boundary_start_end_of_seq(bytes);
    pieces_law_from(bytes, 0);
    assert(bytes.skip(0) =~= bytes);
}

/// A piece as it is sent.
pub open spec fn chunk_json(id: Seq<char>, index: u64, data: Seq<char>) -> JsonView {
    JsonView::Object(
        seq![
            ("type"@, JsonView::Text("chunk"@)),
            ("id"@, JsonView::Text(id)),
            ("index"@, JsonView::Unsigned(index)),
            ("data"@, JsonView::Text(data)),
        ],
    )
}

/// What says that all pieces were sent.
pub open spec fn end_json(id: Seq<char>, count: u64) -> JsonView {
    JsonView::Object(
        seq![
            ("type"@, JsonView::Text("chunk_end"@)),
            ("id"@, JsonView::Text(id)),
            ("count"@, JsonView::Unsigned(count)),
        ],
    )
}

/// What a message is sent as: as it is where it is short, and else in pieces under an
/// id, with a last line that counts them.
pub open spec fn frames(message: Seq<char>, id: Seq<char>) -> Seq<Seq<char>> {
    let bytes = encode_utf8(message);
    if bytes.len() <= CHUNK_BYTES {
        seq![message]
    } else {
        let pieces = pieces_from(bytes, 0);
        Seq::new(
            pieces.len(),
            |i: int| written(chunk_json(id, i as u64, decode_utf8(pieces[i]))),
        ).push(written(end_json(id, pieces.len() as u64)))
    }
}

fn chunk_line(id: &str, index: u64, data: &str) -> (line: String)
    ensures
        line@ == written(chunk_json(id@, index, data@)),
{
    let mut entries: Vec<(String, Json)> = Vec::new();
    entries.push(("type".to_owned(), Json::text("chunk")));
    entries.push(("id".to_owned(), Json::text(id)));
    entries.push(("index".to_owned(), Json::Unsigned(index)));
    entries.push(("data".to_owned(), Json::text(data)));
    proof {
        json::json_view_object(entries);
        assert(entries.deep_view() =~= chunk_json(id@, index, data@)->Object_0);
    }
    json::write(&Json::Object(entries))
}

fn end_line(id: &str, count: u64) -> (line: String)
    ensures
        line@ == written(end_json(id@, count)),
{
    let mut entries: Vec<(String, Json)> = Vec::new();
    entries.push(("type".to_owned(), Json::text("chunk_end")));
    entries.push(("id".to_owned(), Json::text(id)));
    entries.push(("count".to_owned(), Json::Unsigned(count)));
    proof {
        json::json_view_object(entries);
        assert(entries.deep_view() =~= end_json(id@, count)->Object_0);
    }
    json::write(&Json::Object(entries))
}

/// The pieces of a message.
pub fn split_message(message: &str) -> (pieces: Vec<String>)
    ensures
        pieces@.len() == pieces_from(encode_utf8(message@), 0).len(),
        forall|i: int|
            0 <= i < pieces@.len() ==> encode_utf8((#[trigger] pieces@[i])@) == pieces_from(
                encode_utf8(message@),
                0,
            )[i],
{
    let ghost bytes = encode_utf8(message@);
    let ghost goal = pieces_from(bytes, 0);
    let mut pieces: Vec<String> = Vec::new();
    let mut rest = message.to_owned();
    let ghost mut from: int = 0;
    let ghost mut done: Seq<Seq<u8>> = Seq::empty();
    proof {
        encode_utf8_valid_utf8(message@);
        is_char_boundary_start_end_of_seq(bytes);
        assert(bytes.skip(0) =~= bytes);
        assert(done + goal =~= goal);
    }
    while !rest.as_str().is_empty()
        invariant
            valid_utf8(bytes),
            0 <= from <= bytes.len(),
            is_char_boundary(bytes, from),
            encode_utf8(rest@) == bytes.skip(from),
            done + pieces_from(bytes, from) == goal,
            pieces@.len() == done.len(),
            forall|i: int| 0 <= i < done.len() ==> encode_utf8((#[trigger] pieces@[i])@) == done[i],
        decreases bytes.len() - from,
    {
        let size: usize = text::byte_len(rest.as_str());
        proof {
            if from == bytes.len() {
                assert(encode_utf8(rest@) =~= Seq::<u8>::empty());
                encode_utf8_decode_utf8(rest@);
                encode_utf8_decode_utf8(Seq::<char>::empty());
                assert(encode_utf8(Seq::<char>::empty()) =~= Seq::<u8>::empty());
                assert(rest@ == Seq::<char>::empty());
            }
            piece_end_bounds(bytes, from);
        }
        let limit: usize = if size < CHUNK_BYTES {
            size
        } else {
            CHUNK_BYTES
        };
        let end: usize = text::floor_char_boundary(rest.as_str(), limit);
        proof {
            encode_utf8_valid_utf8(rest@);
            floor_is_floor(bytes.skip(from), limit as int, end as int);
        }
        let piece = text::bytes_before(rest.as_str(), end);
        let ghost next = piece_end(bytes, from);
        let ghost view = bytes.subrange(from, next);
        proof {
            assert(encode_utf8(piece@) =~= view);
        }
        pieces.push(piece);
        rest = text::bytes_from(rest.as_str(), end);
        proof {
            assert(bytes.skip(from).skip(end as int) =~= bytes.skip(next));
            let tail = pieces_from(bytes, next);
            assert(done + (seq![view] + tail) =~= done.push(view) + tail);
            done = done.push(view);
            from = next;
        }
    }
    proof {
        assert(encode_utf8(rest@) =~= Seq::<u8>::empty());
        assert(from == bytes.len());
        assert(done =~= goal);
    }
    pieces
}

/// What a message is sent as, under the id `id` where it takes pieces.
pub fn frames_under(message: &str, id: &str) -> (lines: Vec<String>)
    ensures
        lines.deep_view() == frames(message@, id@),
{
    let mut lines: Vec<String> = Vec::new();
    if text::byte_len(message) <= CHUNK_BYTES {
        lines.push(message.to_owned());
        assert(lines.deep_view() =~= seq![message@]);
        return lines;
    }
    let pieces = split_message(message);
    let ghost goal = frames(message@, id@);
    let ghost parts = pieces_from(encode_utf8(message@), 0);
    let mut i: usize = 0;
    while i < pieces.len()
        invariant
            parts == pieces_from(encode_utf8(message@), 0),
            pieces@.len() == parts.len(),
            forall|k: int| 0 <= k < pieces@.len() ==> encode_utf8((#[trigger] pieces@[k])@) == parts[k],
            i <= pieces@.len(),
            lines@.len() == i,
            forall|k: int|
                0 <= k < i ==> (#[trigger] lines@[k])@ == written(
                    chunk_json(id@, k as u64, decode_utf8(parts[k])),
                ),
        decreases pieces@.len() - i,
    {
        proof {
            encode_utf8_decode_utf8(pieces@[i as int]@);
        }
        lines.push(chunk_line(id, i as u64, pieces[i].as_str()));
        i += 1;
    }
    lines.push(end_line(id, pieces.len() as u64));
    assert(lines.deep_view() =~= goal);
    lines
}

/// What a message is sent as, under an id of its own where it takes pieces.
pub fn enqueue(message: &str) -> (lines: Vec<String>)
    ensures
        exists|id: Seq<char>| is_uuid(id) && #[trigger] frames(message@, id) == lines.deep_view(),
        encode_utf8(message@).len() <= CHUNK_BYTES ==> lines.deep_view() == seq![message@],
{
    let id = fresh_id();
    let lines = frames_under(message, id.as_str());
    assert(frames(message@, id@) == lines.deep_view());
    lines
}

} // verus!
