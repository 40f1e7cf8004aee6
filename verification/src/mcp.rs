//! External tool servers.

use vstd::prelude::*;
use crate::json;
use crate::json::{field, object2, object3, text_field, Datum, JsonValue};
use crate::table::Table;
use crate::text;
use crate::text::{from_chars, piece, same, starts_with, text3, to_chars};
use crate::words;
use crate::words::{index_of, join, trim, trim_text};

verus! {

/// How to reach a tool server. Environment variables and headers are pairs of a name and a value.
pub struct McpServerConfig {
    pub command: Option<String>,
    pub args: Option<Vec<String>>,
    pub env: Option<Vec<(String, String)>>,
    pub url: Option<String>,
    pub sse: Option<String>,
    pub headers: Option<Vec<(String, String)>>,
}

/// A tool server and its name.
pub struct McpServerEntry {
    pub name: String,
    pub config: McpServerConfig,
}

/// The way to talk to a server.
pub enum Transport {
    /// A local process.
    Stdio(String),
    /// A remote server.
    Http(String),
    /// A remote server that sends events.
    Sse(String),
}

/// The way to talk to a server: its command where it has one, else its URL, else its event stream.
pub fn choose_transport(name: &str, config: &McpServerConfig) -> (r: Result<Transport, String>)
    ensures
        match r {
            Ok(Transport::Stdio(c)) => config.command == Some(c),
            Ok(Transport::Http(u)) => config.command is None && config.url == Some(u),
            Ok(Transport::Sse(u)) => config.command is None && config.url is None && config.sse
                == Some(u),
            Err(e) => config.command is None && config.url is None && config.sse is None && e@
                == "MCP server '"@ + name@ + "': must have 'command', 'url', or 'sse'"@,
        },
{
    if let Some(c) = &config.command {
        return Ok(Transport::Stdio(c.clone()));
    }
    if let Some(u) = &config.url {
        return Ok(Transport::Http(u.clone()));
    }
    if let Some(u) = &config.sse {
        return Ok(Transport::Sse(u.clone()));
    }
    let mut e = "MCP server '".to_owned();
    e.append(name);
    e.append("': must have 'command', 'url', or 'sse'");
    Err(e)
}

// ---------------------------------------------------------------------------
// Servers named on the command line
// ---------------------------------------------------------------------------

/// A remote server named on the command line: its name, its URL, and whether it sends events.
pub open spec fn remote_server(arg: Seq<char>) -> Option<(Seq<char>, Seq<char>, bool)> {
    let e = words::next_char(arg, '=', 0);
    if e < arg.len() {
        let url = arg.skip(e + 1);
        if text::begins(url, "sse:"@) {
            Some((arg.take(e), url.skip("sse:"@.len() as int), true))
        } else {
            Some((arg.take(e), url, false))
        }
    } else {
        None
    }
}

/// What a server configuration holds.
pub ghost struct Server {
    pub command: Option<Seq<char>>,
    pub args: Option<Seq<Seq<char>>>,
    pub env: Option<Seq<(Seq<char>, Seq<char>)>>,
    pub url: Option<Seq<char>>,
    pub sse: Option<Seq<char>>,
    pub headers: Option<Seq<(Seq<char>, Seq<char>)>>,
}

/// What an optional list of names and values holds.
pub open spec fn opt_pairs(v: Option<Vec<(String, String)>>) -> Option<
    Seq<(Seq<char>, Seq<char>)>,
> {
    match v {
        Some(p) => Some(Seq::new(p@.len(), |i: int| (p@[i].0@, p@[i].1@))),
        None => None,
    }
}

impl View for McpServerConfig {
    type V = Server;

    open spec fn view(&self) -> Server {
        Server {
            command: json::opt_view(self.command),
            args: match self.args {
                Some(a) => Some(words::views(a@)),
                None => None,
            },
            env: opt_pairs(self.env),
            url: json::opt_view(self.url),
            sse: json::opt_view(self.sse),
            headers: opt_pairs(self.headers),
        }
    }
}

/// The error for a server argument without `=`.
pub open spec fn server_error(arg: Seq<char>) -> Seq<char> {
    "Invalid MCP server format: '"@ + arg + "'. Expected NAME=URL or NAME=sse:URL"@
}

/// Reads a remote server: `NAME=URL`, or `NAME=sse:URL` for one that sends events.
pub fn parse_mcp_server(arg: &str) -> (r: Result<McpServerEntry, String>)
    ensures
        match r {
            Ok(s) => match remote_server(arg@) {
                Some((name, url, events)) => {
                    &&& s.name@ == name
                    &&& s.config@ == (Server {
                        command: None,
                        args: None,
                        env: None,
                        url: if events {
                            None
                        } else {
                            Some(url)
                        },
                        sse: if events {
                            Some(url)
                        } else {
                            None
                        },
                        headers: None,
                    })
                },
                None => false,
            },
            Err(e) => remote_server(arg@) is None && e@ == server_error(arg@),
        },
{
    let s = to_chars(arg);
    let e = index_of(s.as_slice(), '=', 0);
    if e >= s.len() {
        let mut m = "Invalid MCP server format: '".to_owned();
        m.append(arg);
        m.append("'. Expected NAME=URL or NAME=sse:URL");
        return Err(m);
    }
    let name = piece(s.as_slice(), 0, e);
    let url = piece(s.as_slice(), e + 1, s.len());
    assert(name@ =~= arg@.take(e as int));
    assert(url@ =~= arg@.skip(e + 1));
    let prefix = to_chars("sse:");
    let (url, sse) = if starts_with(url.as_slice(), prefix.as_slice()) {
        let rest = piece(url.as_slice(), prefix.len(), url.len());
        assert(rest@ =~= url@.skip("sse:"@.len() as int));
        (None, Some(from_chars(rest.as_slice())))
    } else {
        (Some(from_chars(url.as_slice())), None)
    };
    Ok(
        McpServerEntry {
            name: from_chars(name.as_slice()),
            config: McpServerConfig { command: None, args: None, env: None, url, sse, headers: None },
        },
    )
}

/// The position of a server, or the number of servers.
pub open spec fn server_position(v: Seq<McpServerEntry>, name: Seq<char>, i: int) -> int
    decreases v.len() - i,
{
    if 0 <= i < v.len() && v[i].name@ != name {
        server_position(v, name, i + 1)
    } else {
        i
    }
}

/// A list with one more server, which takes the place of one with the same name.
pub open spec fn with_server(v: Seq<McpServerEntry>, server: McpServerEntry) -> Seq<
    McpServerEntry,
> {
    let p = server_position(v, server.name@, 0);
    if p < v.len() {
        v.update(p, server)
    } else {
        v.push(server)
    }
}

/// Adds a server to a list. It takes the place of one with the same name.
pub fn add_server(list: &mut Vec<McpServerEntry>, server: McpServerEntry)
    ensures
        final(list)@ == with_server(old(list)@, server),
{
    let mut i: usize = 0;
    while i < list.len() && !same(list[i].name.as_str(), server.name.as_str())
        invariant
            list@ == old(list)@,
            i <= list@.len(),
            server_position(list@, server.name@, 0) == server_position(
                list@,
                server.name@,
                i as int,
            ),
        decreases list@.len() - i,
    {
        i += 1;
    }
    if i < list.len() {
        list.set(i, server);
    } else {
        list.push(server);
    }
}

/// A list with the first `k` servers of another one added to it.
pub open spec fn with_servers(
    base: Seq<McpServerEntry>,
    own: Seq<McpServerEntry>,
    k: int,
) -> Seq<McpServerEntry>
    decreases k,
{
    if k <= 0 {
        base
    } else {
        with_server(with_servers(base, own, k - 1), own[k - 1])
    }
}

/// Adds servers to a list, one after the other.
pub fn add_servers(list: &mut Vec<McpServerEntry>, own: Vec<McpServerEntry>)
    ensures
        final(list)@ == with_servers(old(list)@, own@, own@.len() as int),
{
    let mut rest = own;
    let ghost mut k: int = 0;
    while rest.len() > 0
        invariant
            0 <= k <= own@.len(),
            rest@ == own@.skip(k),
            list@ == with_servers(old(list)@, own@, k),
        decreases rest@.len(),
    {
        let server = rest.remove(0);
        add_server(list, server);
        proof {
            assert(server == own@[k]);
            assert(rest@ =~= own@.skip(k + 1));
            k = k + 1;
        }
    }
    assert(k == own@.len());
}

/// The server of a name: the first one that has it.
pub open spec fn server_named(v: Seq<McpServerEntry>, name: Seq<char>) -> Option<McpServerEntry> {
    let p = server_position(v, name, 0);
    if p < v.len() {
        Some(v[p])
    } else {
        None
    }
}

/// No two servers of a list have the same name.
pub open spec fn distinct_servers(v: Seq<McpServerEntry>) -> bool {
    forall|i: int, j: int|
        0 <= i < j < v.len() ==> (#[trigger] v[i]).name@ != (#[trigger] v[j]).name@
}

proof fn position_is_first(v: Seq<McpServerEntry>, name: Seq<char>, i: int)
    requires
        0 <= i <= v.len(),
    ensures
        ({
            let p = server_position(v, name, i);
            &&& i <= p <= v.len()
            &&& p < v.len() ==> v[p].name@ == name
            &&& forall|j: int| i <= j < p ==> (#[trigger] v[j]).name@ != name
        }),
    decreases v.len() - i,
{
    if i < v.len() && v[i].name@ != name {
        position_is_first(v, name, i + 1);
    }
}

proof fn adding_changes_one_name(v: Seq<McpServerEntry>, server: McpServerEntry, name: Seq<char>)
    ensures
        server_named(with_server(v, server), name) == (if name == server.name@ {
            Some(server)
        } else {
            server_named(v, name)
        }),
        distinct_servers(v) ==> distinct_servers(with_server(v, server)),
{
    let w = with_server(v, server);
    position_is_first(v, name, 0);
    position_is_first(v, server.name@, 0);
    position_is_first(w, name, 0);
    let p = server_position(v, name, 0);
    let q = server_position(v, server.name@, 0);
    let r = server_position(w, name, 0);
    if name == server.name@ {
        assert(w[q] == server);
        if r < q {
            assert(w[r] == v[r]);
        }
    } else {
        if p < v.len() {
            assert(w[p] == v[p]);
            if r < p {
                assert(r == q || w[r] == v[r]);
            }
        } else if r < w.len() {
            assert(r == q || w[r] == v[r]);
        }
    }
}

/// Added servers join those that are there. A name that only the list has keeps its server; a name
/// that is added has the server that was added last under it; and names stay distinct.
pub proof fn added_servers_win(
    base: Seq<McpServerEntry>,
    own: Seq<McpServerEntry>,
    k: int,
    name: Seq<char>,
)
    requires
        0 <= k <= own.len(),
    ensures
        (forall|j: int| 0 <= j < k ==> (#[trigger] own[j]).name@ != name) ==> server_named(
            with_servers(base, own, k),
            name,
        ) == server_named(base, name),
        forall|j: int|
            #![trigger own[j]]
            0 <= j < k && own[j].name@ == name && (forall|i: int|
                j < i < k ==> (#[trigger] own[i]).name@ != name) ==> server_named(
                with_servers(base, own, k),
                name,
            ) == Some(own[j]),
        distinct_servers(base) ==> distinct_servers(with_servers(base, own, k)),
    decreases k,
{
    if k > 0 {
        added_servers_win(base, own, k - 1, name);
        adding_changes_one_name(with_servers(base, own, k - 1), own[k - 1], name);
    }
}

// ---------------------------------------------------------------------------
// Event streams
// ---------------------------------------------------------------------------

/// What a line of an event stream brings.
#[derive(Debug, PartialEq, Eq)]
pub enum SseEvent {
    Nothing,
    /// The URL that requests go to.
    Endpoint(String),
    /// A message, as JSON text.
    Message(String),
}

/// What a line of an event stream brings.
pub ghost enum Brought {
    Nothing,
    Endpoint(Seq<char>),
    Message(Seq<char>),
}

impl View for SseEvent {
    type V = Brought;

    open spec fn view(&self) -> Brought {
        match self {
            SseEvent::Nothing => Brought::Nothing,
            SseEvent::Endpoint(t) => Brought::Endpoint(t@),
            SseEvent::Message(t) => Brought::Message(t@),
        }
    }
}

/// A reader of an event stream.
pub struct SseParser {
    pub base_url: String,
    pub event_type: String,
    pub data: String,
    pub endpoint_sent: bool,
}

/// What a reader of an event stream holds.
pub ghost struct Sse {
    pub base_url: Seq<char>,
    pub event_type: Seq<char>,
    pub data: Seq<char>,
    pub endpoint_sent: bool,
}

impl View for SseParser {
    type V = Sse;

    open spec fn view(&self) -> Sse {
        Sse {
            base_url: self.base_url@,
            event_type: self.event_type@,
            data: self.data@,
            endpoint_sent: self.endpoint_sent,
        }
    }
}

/// What an event that is complete brings. Only the first endpoint counts; one that begins with a
/// slash is relative to the server.
pub open spec fn completed_event(p: Sse) -> Brought {
    let data = words::trimmed(p.data);
    if p.event_type.len() == 0 || p.data.len() == 0 {
        Brought::Nothing
    } else if p.event_type == "endpoint"@ {
        if p.endpoint_sent {
            Brought::Nothing
        } else if text::begins(data, seq!['/']) {
            Brought::Endpoint(p.base_url + data)
        } else {
            Brought::Endpoint(data)
        }
    } else if p.event_type == "message"@ {
        Brought::Message(data)
    } else {
        Brought::Nothing
    }
}

/// A reader after a line, and what the line brings. An empty line completes an event.
pub open spec fn after_line(p: Sse, line: Seq<char>) -> (Sse, Brought) {
    if line.len() == 0 {
        (
            Sse {
                event_type: ""@,
                data: ""@,
                endpoint_sent: p.endpoint_sent || completed_event(p) is Endpoint,
                ..p
            },
            completed_event(p),
        )
    } else if text::begins(line, "event: "@) {
        (
            Sse { event_type: words::trimmed(line.skip("event: "@.len() as int)), ..p },
            Brought::Nothing,
        )
    } else if text::begins(line, "data: "@) {
        let val = line.skip("data: "@.len() as int);
        (
            Sse {
                data: if p.data.len() > 0 {
                    p.data.push('\n') + val
                } else {
                    p.data + val
                },
                ..p
            },
            Brought::Nothing,
        )
    } else {
        (p, Brought::Nothing)
    }
}

/// The scheme and the authority of a URL, or what is wrong with it.
pub uninterp spec fn url_parts_of(url: Seq<char>) -> Result<(Seq<char>, Seq<char>), Seq<char>>;

/// What is known of the parts of a URL.
pub open spec fn parts_view(r: Result<(String, String), String>) -> Result<
    (Seq<char>, Seq<char>),
    Seq<char>,
> {
    match r {
        Ok(p) => Ok((p.0@, p.1@)),
        Err(e) => Err(e@),
    }
}

/// `reqwest::Url::parse`, with `scheme` and `authority` of the URL, or the text of the error. They
/// depend on the given text alone.
#[verifier::external_body]
fn url_parts(url: &str) -> (r: Result<(String, String), String>)
    ensures
        parts_view(r) == url_parts_of(url@),
{
    let parsed = reqwest::Url::parse(url).map_err(|e| e.to_string())?;
    Ok((parsed.scheme().to_owned(), parsed.authority().to_owned()))
}

/// The address that the endpoints of the server at a URL are relative to, or what is wrong with the
/// URL.
pub open spec fn base_url_of(url: Seq<char>) -> Result<Seq<char>, Seq<char>> {
    match url_parts_of(url) {
        Ok((scheme, authority)) => Ok(base_url(scheme, authority)),
        Err(e) => Err(e),
    }
}

/// The address of a server with the given scheme and authority.
pub open spec fn base_url(scheme: Seq<char>, authority: Seq<char>) -> Seq<char> {
    scheme + "://"@ + authority
}

/// The address of a server with the given scheme and authority.
pub fn base_url_text(scheme: &str, authority: &str) -> (r: String)
    ensures
        r@ == base_url(scheme@, authority@),
{
    text3(scheme, "://", authority)
}

impl SseParser {
    /// A reader of the event stream at `url`.
    pub fn for_server(url: &str) -> (r: Result<Self, String>)
        ensures
            match r {
                Ok(p) => match base_url_of(url@) {
                    Ok(base_url) => p@ == (Sse {
                        base_url,
                        event_type: ""@,
                        data: ""@,
                        endpoint_sent: false,
                    }),
                    Err(_) => false,
                },
                Err(e) => base_url_of(url@) == Err::<Seq<char>, Seq<char>>(e@),
            },
    {
        match url_parts(url) {
            Ok(parts) => Ok(
                SseParser::new(base_url_text(parts.0.as_str(), parts.1.as_str()).as_str()),
            ),
            Err(e) => Err(e),
        }
    }

    /// A reader of the event stream of the server at `base_url`.
    pub fn new(base_url: &str) -> (r: Self)
        ensures
            r@ == (Sse {
                base_url: base_url@,
                event_type: ""@,
                data: ""@,
                endpoint_sent: false,
            }),
    {
        SseParser {
            base_url: base_url.to_owned(),
            event_type: "".to_owned(),
            data: "".to_owned(),
            endpoint_sent: false,
        }
    }

    fn complete(&mut self) -> (r: SseEvent)
        ensures
            r@ == completed_event(old(self)@),
            final(self)@ == (Sse {
                endpoint_sent: old(self)@.endpoint_sent || completed_event(
                    old(self)@,
                ) is Endpoint,
                ..old(self)@
            }),
    {
        if self.event_type.as_str().is_empty() || self.data.as_str().is_empty() {
            return SseEvent::Nothing;
        }
        let data = trim_text(self.data.as_str());
        if same(self.event_type.as_str(), "endpoint") {
            if self.endpoint_sent {
                return SseEvent::Nothing;
            }
            self.endpoint_sent = true;
            let c = to_chars(data.as_str());
            if c.len() > 0 && c[0] == '/' {
                assert(data@.take(1) =~= seq!['/']);
                let mut url = self.base_url.clone();
                url.append(data.as_str());
                SseEvent::Endpoint(url)
            } else {
                assert(text::begins(data@, seq!['/']) ==> data@.take(1)[0] == seq!['/'][0]);
                SseEvent::Endpoint(data)
            }
        } else if same(self.event_type.as_str(), "message") {
            SseEvent::Message(data)
        } else {
            SseEvent::Nothing
        }
    }

    /// Takes one line of the stream.
    pub fn feed(&mut self, line: &str) -> (r: SseEvent)
        ensures
            (final(self)@, r@) == after_line(old(self)@, line@),
    {
        if line.is_empty() {
            let r = self.complete();
            self.event_type = "".to_owned();
            self.data = "".to_owned();
            return r;
        }
        let c = to_chars(line);
        let event = to_chars("event: ");
        let data = to_chars("data: ");
        if starts_with(c.as_slice(), event.as_slice()) {
            let val = piece(c.as_slice(), event.len(), c.len());
            assert(val@ =~= line@.skip("event: "@.len() as int));
            let t = trim(val.as_slice());
            self.event_type = from_chars(t.as_slice());
        } else if starts_with(c.as_slice(), data.as_slice()) {
            let val = piece(c.as_slice(), data.len(), c.len());
            assert(val@ =~= line@.skip("data: "@.len() as int));
            if !self.data.as_str().is_empty() {
                self.data.push('\n');
            }
            self.data.append(from_chars(val.as_slice()).as_str());
        }
        SseEvent::Nothing
    }
}

/// A stream announces its endpoint at most once.
pub proof fn endpoint_comes_once(p: Sse, line: Seq<char>)
    ensures
        after_line(p, line).1 is Endpoint ==> !p.endpoint_sent && after_line(
            p,
            line,
        ).0.endpoint_sent,
        p.endpoint_sent ==> after_line(p, line).0.endpoint_sent,
{
}

// ---------------------------------------------------------------------------
// Requests and tools
// ---------------------------------------------------------------------------

/// The result of a request, or why there is none.
pub fn rpc_result(server: &str, error: Option<String>, result: Option<String>) -> (r: Result<
    String,
    String,
>)
    ensures
        match r {
            Ok(v) => error is None && result == Some(v),
            Err(e) => match error {
                Some(x) => e@ == "MCP server '"@ + server@ + "' error: "@ + x@,
                None => result is None && e@ == "MCP server '"@ + server@
                    + "': no result in response"@,
            },
        },
{
    match error {
        Some(x) => {
            let mut e = "MCP server '".to_owned();
            e.append(server);
            e.append("' error: ");
            e.append(x.as_str());
            Err(e)
        },
        None => match result {
            Some(v) => Ok(v),
            None => {
                let mut e = "MCP server '".to_owned();
                e.append(server);
                e.append("': no result in response");
                Err(e)
            },
        },
    }
}

/// One part of what a tool call returned.
pub struct ToolContent {
    pub content_type: String,
    pub text: Option<String>,
}

/// The texts among the parts.
pub open spec fn text_parts(v: Seq<ToolContent>) -> Seq<Seq<char>>
    decreases v.len(),
{
    if v.len() == 0 {
        Seq::empty()
    } else if v.last().content_type@ == "text"@ && v.last().text is Some {
        text_parts(v.drop_last()).push(v.last().text->0@)
    } else {
        text_parts(v.drop_last())
    }
}

/// What the parts of a result come to: their texts, one per line.
pub open spec fn call_answer(parts: Seq<ToolContent>) -> Seq<char> {
    words::joined(text_parts(parts), "\n"@)
}

/// The texts that a tool call returned, one per line.
pub fn call_text(parts: &[ToolContent]) -> (r: String)
    ensures
        r@ == call_answer(parts@),
{
    let mut out: Vec<String> = Vec::new();
    let mut i: usize = 0;
    assert(words::views(out@) =~= text_parts(parts@.take(0)));
    while i < parts.len()
        invariant
            i <= parts@.len(),
            words::views(out@) == text_parts(parts@.take(i as int)),
        decreases parts@.len() - i,
    {
        assert(parts@.take(i + 1).drop_last() =~= parts@.take(i as int));
        if same(parts[i].content_type.as_str(), "text") {
            match &parts[i].text {
                Some(t) => {
                    let s = t.clone();
                    proof {
                        words::views_push(out@, s);
                    }
                    out.push(s);
                },
                None => {},
            }
        }
        i += 1;
    }
    assert(parts@.take(parts@.len() as int) =~= parts@);
    join(out.as_slice(), "\n")
}

/// A part that has a text.
pub open spec fn has_text(p: ToolContent) -> bool {
    p.content_type@ == "text"@ && p.text is Some
}

/// Some part has a text.
pub open spec fn some_text(parts: Seq<ToolContent>) -> bool {
    exists|i: int| 0 <= i < parts.len() && has_text(#[trigger] parts[i])
}

proof fn text_parts_count(parts: Seq<ToolContent>)
    ensures
        text_parts(parts).len() > 0 <==> some_text(parts),
    decreases parts.len(),
{
    if parts.len() > 0 {
        let w = parts.drop_last();
        text_parts_count(w);
        if some_text(w) {
            let i = choose|i: int| 0 <= i < w.len() && has_text(#[trigger] w[i]);
            assert(has_text(parts[i]));
        }
        if has_text(parts.last()) {
            assert(has_text(parts[parts.len() - 1]));
        }
        if some_text(parts) && !has_text(parts.last()) {
            let i = choose|i: int| 0 <= i < parts.len() && has_text(#[trigger] parts[i]);
            assert(has_text(w[i]));
        }
    }
}

/// The answer of a tool call grows part by part: a part with a text adds that text, as the server
/// sent it, behind a line break where something stands before it; any other part adds nothing.
pub proof fn answers_grow_by_the_texts(parts: Seq<ToolContent>, p: ToolContent)
    ensures
        call_answer(parts.push(p)) == (if !has_text(p) {
            call_answer(parts)
        } else if some_text(parts) {
            call_answer(parts) + seq!['\n'] + p.text->0@
        } else {
            p.text->0@
        }),
        call_answer(Seq::empty()) == Seq::<char>::empty(),
{
    let all = parts.push(p);
    assert(all.drop_last() =~= parts);
    text_parts_count(parts);
    let t = text_parts(parts);
    assert("\n"@ =~= seq!['\n']) by {
        reveal_strlit("\n");
    }
    if has_text(p) {
        let u = text_parts(all);
        assert(u == t.push(p.text->0@));
        assert(u.drop_last() =~= t);
        if t.len() == 0 {
            assert(u.len() == 1 && u[0] == p.text->0@);
        }
    }
}

proof fn silent_parts_add_nothing(parts: Seq<ToolContent>, more: Seq<ToolContent>)
    requires
        !some_text(more),
    ensures
        call_answer(parts + more) == call_answer(parts),
    decreases more.len(),
{
    if more.len() == 0 {
        assert(parts + more =~= parts);
    } else {
        let w = more.drop_last();
        if some_text(w) {
            let i = choose|i: int| 0 <= i < w.len() && has_text(#[trigger] w[i]);
            assert(has_text(more[i]));
        }
        assert(!has_text(more[more.len() - 1]));
        silent_parts_add_nothing(parts, w);
        answers_grow_by_the_texts(parts + w, more.last());
        assert((parts + w).push(more.last()) =~= parts + more);
    }
}

/// Where a single part of a result has a text, that text is the answer, to the letter.
pub proof fn a_single_text_is_the_answer(parts: Seq<ToolContent>, i: int)
    requires
        0 <= i < parts.len(),
        has_text(parts[i]),
        forall|j: int| 0 <= j < parts.len() && has_text(#[trigger] parts[j]) ==> j == i,
    ensures
        call_answer(parts) == parts[i].text->0@,
{
    let before = parts.take(i);
    let after = parts.skip(i + 1);
    if some_text(before) {
        let j = choose|j: int| 0 <= j < before.len() && has_text(#[trigger] before[j]);
        assert(has_text(parts[j]));
    }
    if some_text(after) {
        let j = choose|j: int| 0 <= j < after.len() && has_text(#[trigger] after[j]);
        assert(has_text(parts[i + 1 + j]));
    }
    answers_grow_by_the_texts(before, parts[i]);
    silent_parts_add_nothing(before.push(parts[i]), after);
    assert(before.push(parts[i]) + after =~= parts);
}

/// A tool as its server describes it, with the schema of its input as JSON text.
pub struct McpToolDef {
    pub name: String,
    pub description: Option<String>,
    pub input_schema: Option<String>,
}

/// A tool that can be called: its server, its name there, and its schema as JSON text.
#[derive(Debug)]
pub struct McpToolInfo {
    pub server_index: usize,
    pub original_name: String,
    pub schema: String,
}

/// What a tool of a server holds.
pub ghost struct McpTool {
    pub server_index: int,
    pub original_name: Seq<char>,
    pub schema: Seq<char>,
}

impl View for McpToolInfo {
    type V = McpTool;

    open spec fn view(&self) -> McpTool {
        McpTool {
            server_index: self.server_index as int,
            original_name: self.original_name@,
            schema: self.schema@,
        }
    }
}

/// The name under which a tool of a server is called.
pub open spec fn prefixed_name(server: Seq<char>, tool: Seq<char>) -> Seq<char> {
    "mcp_"@ + server + "_"@ + tool
}

/// The description of a tool.
pub open spec fn description_of(def: McpToolDef) -> Seq<char> {
    match def.description {
        Some(d) => d@,
        None => ""@,
    }
}

/// The schema of the input of a tool.
pub open spec fn input_of(def: McpToolDef) -> Seq<char> {
    match def.input_schema {
        Some(s) => s@,
        None => NO_PARAMETERS@,
    }
}

/// The function that a schema describes.
pub open spec fn mcp_function(server: Seq<char>, def: McpToolDef) -> Seq<char> {
    json::json_object_of(
        seq![
            ("name"@, Datum::Text(prefixed_name(server, def.name@))),
            ("description"@, Datum::Text(description_of(def))),
            ("parameters"@, Datum::Json(input_of(def))),
        ],
    )
}

/// The schema of a tool, as the model sees it.
pub open spec fn mcp_schema(server: Seq<char>, def: McpToolDef) -> Seq<char> {
    json::json_object_of(
        seq![
            ("type"@, Datum::Text("function"@)),
            ("function"@, Datum::Json(mcp_function(server, def))),
        ],
    )
}

/// The schema of the input of a tool that names none.
pub const NO_PARAMETERS: &'static str = "{\"type\":\"object\",\"properties\":{}}";

/// The tool that a definition gives.
pub open spec fn tool_from(server: Seq<char>, index: int, def: McpToolDef) -> McpTool {
    McpTool {
        server_index: index,
        original_name: def.name@,
        schema: mcp_schema(server, def),
    }
}

/// The tools after the first `k` definitions of a server are added.
pub open spec fn with_tools(
    m: Map<Seq<char>, McpTool>,
    server: Seq<char>,
    index: int,
    defs: Seq<McpToolDef>,
    k: int,
) -> Map<Seq<char>, McpTool>
    decreases k,
{
    if k <= 0 {
        m
    } else {
        with_tools(m, server, index, defs, k - 1).insert(
            prefixed_name(server, defs[k - 1].name@),
            tool_from(server, index, defs[k - 1]),
        )
    }
}

/// The name under which a tool of a server is called.
pub fn prefixed_tool_name(server: &str, tool: &str) -> (r: String)
    ensures
        r@ == prefixed_name(server@, tool@),
{
    let mut s = "mcp_".to_owned();
    s.append(server);
    s.append("_");
    s.append(tool);
    s
}

fn schema_text(server: &str, def: &McpToolDef) -> (r: String)
    ensures
        r@ == mcp_schema(server@, *def),
{
    let description: &str = match &def.description {
        Some(d) => d.as_str(),
        None => "",
    };
    let parameters: &str = match &def.input_schema {
        Some(p) => p.as_str(),
        None => NO_PARAMETERS,
    };
    let name = prefixed_tool_name(server, def.name.as_str());
    let input = JsonValue::Json(parameters.to_owned());
    let function = JsonValue::Json(
        object3(
            text_field("name", name.as_str()),
            text_field("description", description),
            field("parameters", input),
        ),
    );
    assert(function@ == Datum::Json(mcp_function(server@, *def)));
    object2(text_field("type", "function"), field("function", function))
}

/// The tools of all servers, by the name under which they are called.
pub struct McpTools {
    pub table: Table<McpToolInfo>,
}

impl McpTools {
    /// The tools by name.
    pub open spec fn map(self) -> Map<Seq<char>, McpTool> {
        self.table.map()
    }

    /// No name occurs twice.
    pub open spec fn wf(self) -> bool {
        self.table.wf()
    }

    /// No tools.
    pub fn new() -> (r: Self)
        ensures
            r.wf(),
            r.map() == Map::<Seq<char>, McpTool>::empty(),
    {
        McpTools { table: Table::new() }
    }

    /// Adds the tools of a server.
    pub fn add_server_tools(&mut self, server: &str, index: usize, defs: &[McpToolDef])
        requires
            old(self).wf(),
        ensures
            final(self).wf(),
            final(self).map() == with_tools(
                old(self).map(),
                server@,
                index as int,
                defs@,
                defs@.len() as int,
            ),
    {
        let mut i: usize = 0;
        while i < defs.len()
            invariant
                i <= defs@.len(),
                self.wf(),
                self.map() == with_tools(old(self).map(), server@, index as int, defs@, i as int),
            decreases defs@.len() - i,
        {
            let info = McpToolInfo {
                server_index: index,
                original_name: defs[i].name.clone(),
                schema: schema_text(server, &defs[i]),
            };
            let name = prefixed_tool_name(server, defs[i].name.as_str());
            self.table.set(name, info);
            i += 1;
        }
    }

    /// The number of tools.
    pub fn count(&self) -> (r: usize)
        requires
            self.wf(),
        ensures
            r == self.map().dom().len(),
            self.map().dom().finite(),
    {
        self.table.len()
    }

    /// Whether a tool is there.
    pub fn has_tool(&self, name: &str) -> (r: bool)
        requires
            self.wf(),
        ensures
            r == self.map().dom().contains(name@),
    {
        self.table.contains_key(name)
    }

    /// The server of a tool, and its name there.
    pub fn find(&self, name: &str) -> (r: Result<(usize, String), String>)
        requires
            self.wf(),
        ensures
            match r {
                Ok(v) => self.map().dom().contains(name@) && v.0
                    == self.map()[name@].server_index && v.1@ == self.map()[name@].original_name,
                Err(e) => !self.map().dom().contains(name@) && e@ == "MCP tool '"@ + name@
                    + "' not found"@,
            },
    {
        match self.table.get(name) {
            Some(info) => Ok((info.server_index, info.original_name.clone())),
            None => {
                let mut e = "MCP tool '".to_owned();
                e.append(name);
                e.append("' not found");
                Err(e)
            },
        }
    }
}

/// What a server answered when its tools were asked for: nothing where it failed.
pub struct ServerListing {
    pub server: String,
    pub tools: Option<Vec<McpToolDef>>,
}

/// The tools of the first `k` servers. Those that failed have none.
pub open spec fn listed_tools(v: Seq<ServerListing>, k: int) -> Map<Seq<char>, McpTool>
    decreases k,
{
    if k <= 0 {
        Map::empty()
    } else {
        match v[k - 1].tools {
            Some(defs) => with_tools(
                listed_tools(v, k - 1),
                v[k - 1].server@,
                k - 1,
                defs@,
                defs@.len() as int,
            ),
            None => listed_tools(v, k - 1),
        }
    }
}

impl McpTools {
    /// Replaces the tools by those that the servers have now; returns how many there are.
    pub fn refresh(&mut self, listings: &[ServerListing]) -> (r: usize)
        ensures
            final(self).wf(),
            final(self).map() == listed_tools(listings@, listings@.len() as int),
            r == final(self).map().dom().len(),
    {
        let mut fresh = McpTools::new();
        let mut i: usize = 0;
        while i < listings.len()
            invariant
                i <= listings@.len(),
                fresh.wf(),
                fresh.map() == listed_tools(listings@, i as int),
            decreases listings@.len() - i,
        {
            match &listings[i].tools {
                Some(defs) => {
                    fresh.add_server_tools(listings[i].server.as_str(), i, defs.as_slice());
                },
                None => {},
            }
            i += 1;
        }
        self.table = fresh.table;
        self.count()
    }

    /// Whether there are any tools.
    pub fn has_tools(&self) -> (r: bool)
        requires
            self.wf(),
        ensures
            r == (self.map().dom().len() > 0),
    {
        self.table.len() > 0
    }

    /// The names of the tools.
    pub open spec fn names(self) -> Seq<Seq<char>> {
        Seq::new(self.table.entries@.len(), |i: int| self.table.entries@[i].name@)
    }

    /// The schemas of the tools, in the order of the tools.
    pub open spec fn schemas(self) -> Seq<Seq<char>> {
        Seq::new(self.table.entries@.len(), |i: int| self.table.entries@[i].value.schema@)
    }

    /// The names of the tools.
    pub fn tool_names(&self) -> (r: Vec<String>)
        ensures
            words::views(r@) == self.names(),
    {
        let mut names: Vec<String> = Vec::new();
        let mut i: usize = 0;
        assert(words::views(names@) =~= self.names().take(0));
        while i < self.table.entries.len()
            invariant
                i <= self.table.entries@.len(),
                words::views(names@) == self.names().take(i as int),
            decreases self.table.entries@.len() - i,
        {
            let n = self.table.entries[i].name.clone();
            proof {
                words::views_push(names@, n);
                assert(self.names().take(i + 1) =~= self.names().take(i as int).push(n@));
            }
            names.push(n);
            i += 1;
        }
        assert(self.names().take(self.table.entries@.len() as int) =~= self.names());
        names
    }

    /// The schemas of the tools, as JSON.
    pub fn get_tool_schemas(&self) -> (r: Vec<String>)
        ensures
            words::views(r@) == self.schemas(),
    {
        let mut schemas: Vec<String> = Vec::new();
        let mut i: usize = 0;
        assert(words::views(schemas@) =~= self.schemas().take(0));
        while i < self.table.entries.len()
            invariant
                i <= self.table.entries@.len(),
                words::views(schemas@) == self.schemas().take(i as int),
            decreases self.table.entries@.len() - i,
        {
            let t = self.table.entries[i].value.schema.clone();
            proof {
                words::views_push(schemas@, t);
                assert(self.schemas().take(i + 1) =~= self.schemas().take(i as int).push(t@));
            }
            schemas.push(t);
            i += 1;
        }
        assert(self.schemas().take(self.table.entries@.len() as int) =~= self.schemas());
        schemas
    }
}

/// The parameters of a tool call as JSON: arguments that are no JSON are `null`.
pub fn call_params(name: &str, arguments: &str) -> (r: String)
    ensures
        r@ == json::json_object_of(
            seq![("name"@, Datum::Text(name@)), ("arguments"@, Datum::Json(arguments@))],
        ),
{
    let args = JsonValue::Json(arguments.to_owned());
    assert(args@ == Datum::Json(arguments@));
    object2(text_field("name", name), field("arguments", args))
}

/// The parameters with which a client introduces itself to a server.
pub const INITIALIZE_PARAMS: &'static str = "{\"protocolVersion\":\"2025-03-26\",\"capabilities\":{},\"clientInfo\":{\"name\":\"swarmblabla\",\"version\":\"0.1.0\"}}";

/// Two tools of one server are called by different names.
pub proof fn prefixed_names_differ(server: Seq<char>, a: Seq<char>, b: Seq<char>)
    requires
        a != b,
    ensures
        prefixed_name(server, a) != prefixed_name(server, b),
{
    let head = "mcp_"@ + server + "_"@;
    if prefixed_name(server, a) == prefixed_name(server, b) {
        assert((head + a).skip(head.len() as int) =~= a);
        assert((head + b).skip(head.len() as int) =~= b);
    }
}

} // verus!
