//! Requests that can be sent to the server from Kakoune, and their JSON wire
//! form.
use vstd::prelude::*;

use crate::text::{decimal, push_decimal};

verus! {

/// The JSON string literal that encodes `s`, quotes and escapes included.
pub uninterp spec fn json_string_of(s: Seq<char>) -> Seq<char>;

/// Relies on `serde_json::to_string` on a `str`: it writes the JSON string
/// literal of its argument, and writing into memory does not fail.
#[verifier::external_body]
fn json_string(s: &str) -> (r: String)
    ensures
        r@ == json_string_of(s@),
{
    serde_json::to_string(s).unwrap_or_default()
}

/// `"s"`, for keys and tags that need no escaping.
pub open spec fn quoted(s: Seq<char>) -> Seq<char> {
    seq!['"'] + s + seq!['"']
}

/// `,"key":value`.
pub open spec fn member(key: Seq<char>, value: Seq<char>) -> Seq<char> {
    seq![','] + quoted(key) + seq![':'] + value
}

/// `{"type":"tag"<members>}`: a variant with its discriminator first and its
/// fields after it, at the same level.
pub open spec fn tagged(tag: Seq<char>, members: Seq<char>) -> Seq<char> {
    seq!['{'] + quoted("type"@) + seq![':'] + quoted(tag) + members + seq!['}']
}

/// JSON for an optional string: `null` when absent.
pub open spec fn json_option(v: Option<Seq<char>>) -> Seq<char> {
    match v {
        Some(s) => json_string_of(s),
        None => "null"@,
    }
}

fn push_str(out: &mut String, s: &str)
    ensures
        final(out)@ == old(out)@ + s@,
{
    out.append(s);
}

fn open_tagged(tag: &str) -> (r: String)
    ensures
        r@ == seq!['{'] + quoted("type"@) + seq![':'] + quoted(tag@),
{
    let mut out = String::new();
    out.push('{');
    out.push('"');
    push_str(&mut out, "type");
    out.push('"');
    out.push(':');
    out.push('"');
    push_str(&mut out, tag);
    out.push('"');
    assert(out@ =~= seq!['{'] + quoted("type"@) + seq![':'] + quoted(tag@));
    out
}

fn push_key(out: &mut String, key: &str)
    ensures
        final(out)@ == old(out)@ + seq![','] + quoted(key@) + seq![':'],
{
    out.push(',');
    out.push('"');
    push_str(out, key);
    out.push('"');
    out.push(':');
    assert(out@ =~= old(out)@ + seq![','] + quoted(key@) + seq![':']);
}

fn push_str_member(out: &mut String, key: &str, value: &str)
    ensures
        final(out)@ == old(out)@ + member(key@, json_string_of(value@)),
{
    push_key(out, key);
    let v = json_string(value);
    push_str(out, v.as_str());
    assert(out@ =~= old(out)@ + member(key@, json_string_of(value@)));
}

fn push_u64_member(out: &mut String, key: &str, value: u64)
    ensures
        final(out)@ == old(out)@ + member(key@, decimal(value as nat)),
{
    push_key(out, key);
    push_decimal(out, value as u128);
    assert(out@ =~= old(out)@ + member(key@, decimal(value as nat)));
}

fn close_tagged(out: &mut String)
    ensures
        final(out)@ == old(out)@.push('}'),
{
    out.push('}');
}

/// What a [`UnixRequest`] denotes.
pub ghost enum UnixRequestView {
    RegisterSession { name: Seq<char>, client: Option<Seq<char>> },
    SessionExit { name: Seq<char> },
    Reload,
    Shutdown,
}

/// Unidentified request (i.e. not linked to a given session).
#[derive(Debug, Clone, PartialEq, Eq)]
pub enum UnixRequest {
    /// Inform the server that a session exists and that it should send back
    /// the Kakoune commands of its features.
    RegisterSession { name: String, client: Option<String> },
    /// Inform the server that a session has exited.
    SessionExit { name: String },
    /// Ask the server to reload its configuration, grammars and queries.
    Reload,
    /// Ask the server to shut down.
    Shutdown,
}

/// An optional string as an optional character sequence.
pub open spec fn option_view(o: Option<String>) -> Option<Seq<char>> {
    match o {
        Some(s) => Some(s@),
        None => None,
    }
}

impl View for UnixRequest {
    type V = UnixRequestView;

    open spec fn view(&self) -> UnixRequestView {
        match self {
            UnixRequest::RegisterSession { name, client } => UnixRequestView::RegisterSession {
                name: name@,
                client: option_view(*client),
            },
            UnixRequest::SessionExit { name } => UnixRequestView::SessionExit { name: name@ },
            UnixRequest::Reload => UnixRequestView::Reload,
            UnixRequest::Shutdown => UnixRequestView::Shutdown,
        }
    }
}

/// A request with its session name set to `name`; variants without a session
/// name are left as they are.
pub open spec fn with_session_name(r: UnixRequestView, name: Seq<char>) -> UnixRequestView {
    match r {
        UnixRequestView::RegisterSession { client, .. } => UnixRequestView::RegisterSession {
            name,
            client,
        },
        UnixRequestView::SessionExit { .. } => UnixRequestView::SessionExit { name },
        _ => r,
    }
}

/// Setting the session name twice to the same name is setting it once.
pub proof fn lemma_with_session_idempotent(r: UnixRequestView, name: Seq<char>)
    ensures
        with_session_name(with_session_name(r, name), name) == with_session_name(r, name),
{
}

/// The wire form of a [`UnixRequest`].
pub open spec fn unix_request_json(r: UnixRequestView) -> Seq<char> {
    match r {
        UnixRequestView::RegisterSession { name, client } => tagged(
            "register_session"@,
            member("name"@, json_string_of(name)) + member("client"@, json_option(client)),
        ),
        UnixRequestView::SessionExit { name } => tagged(
            "session_exit"@,
            member("name"@, json_string_of(name)),
        ),
        UnixRequestView::Reload => tagged("reload"@, seq![]),
        UnixRequestView::Shutdown => tagged("shutdown"@, seq![]),
    }
}

impl UnixRequest {
    /// Add a session name to a request, replacing it if one was already
    /// provided.
    pub fn with_session(self, name: String) -> (r: Self)
        ensures
            r@ == with_session_name(self@, name@),
    {
        match self {
            UnixRequest::RegisterSession { client, .. } => UnixRequest::RegisterSession {
                client,
                name,
            },
            UnixRequest::SessionExit { .. } => UnixRequest::SessionExit { name },
            _ => self,
        }
    }

    /// The JSON payload sent to the server for this request.
    pub fn to_json(&self) -> (r: String)
        ensures
            r@ == unix_request_json(self@),
    {
        let mut out;
        match self {
            UnixRequest::RegisterSession { name, client } => {
                out = open_tagged("register_session");
                push_str_member(&mut out, "name", name.as_str());
                match client {
                    Some(c) => push_str_member(&mut out, "client", c.as_str()),
                    None => {
                        push_key(&mut out, "client");
                        push_str(&mut out, "null");
                    },
                }
            },
            UnixRequest::SessionExit { name } => {
                out = open_tagged("session_exit");
                push_str_member(&mut out, "name", name.as_str());
            },
            UnixRequest::Reload => {
                out = open_tagged("reload");
            },
            UnixRequest::Shutdown => {
                out = open_tagged("shutdown");
            },
        }
        close_tagged(&mut out);
        assert(out@ =~= unix_request_json(self@));
        out
    }
}

/// What a [`Request`] denotes.
pub ghost enum RequestView {
    TryEnableHighlight { lang: Seq<char>, client: Seq<char> },
    Highlight { client: Seq<char>, buffer: Seq<char>, lang: Seq<char>, timestamp: u64 },
    TextObjects {
        client: Seq<char>,
        buffer: Seq<char>,
        lang: Seq<char>,
        pattern: Seq<char>,
        selections: Seq<char>,
        mode: Seq<char>,
    },
    Nav {
        client: Seq<char>,
        buffer: Seq<char>,
        lang: Seq<char>,
        selections: Seq<char>,
        dir: Seq<char>,
    },
}

/// Request payload, bound to a client of a session.
#[derive(Debug, Clone, PartialEq, Eq)]
pub enum Request {
    /// Try enabling highlighting for a given filetype.
    TryEnableHighlight { lang: String, client: String },
    /// Ask to highlight the given buffer. The content of the buffer follows
    /// the request on the same channel.
    Highlight { client: String, buffer: String, lang: String, timestamp: u64 },
    /// Apply text-objects on selections; `mode` is the operation mode, in its
    /// snake_case wire spelling.
    TextObjects {
        client: String,
        buffer: String,
        lang: String,
        pattern: String,
        selections: String,
        mode: String,
    },
    /// Navigate the syntax tree from selections; `dir` is the direction, in
    /// its snake_case wire spelling.
    Nav { client: String, buffer: String, lang: String, selections: String, dir: String },
}

impl View for Request {
    type V = RequestView;

    open spec fn view(&self) -> RequestView {
        match self {
            Request::TryEnableHighlight { lang, client } => RequestView::TryEnableHighlight {
                lang: lang@,
                client: client@,
            },
            Request::Highlight { client, buffer, lang, timestamp } => RequestView::Highlight {
                client: client@,
                buffer: buffer@,
                lang: lang@,
                timestamp: *timestamp,
            },
            Request::TextObjects { client, buffer, lang, pattern, selections, mode } =>
                RequestView::TextObjects {
                client: client@,
                buffer: buffer@,
                lang: lang@,
                pattern: pattern@,
                selections: selections@,
                mode: mode@,
            },
            Request::Nav { client, buffer, lang, selections, dir } => RequestView::Nav {
                client: client@,
                buffer: buffer@,
                lang: lang@,
                selections: selections@,
                dir: dir@,
            },
        }
    }
}

/// The client that every request carries.
pub open spec fn request_client(r: RequestView) -> Seq<char> {
    match r {
        RequestView::TryEnableHighlight { client, .. } => client,
        RequestView::Highlight { client, .. } => client,
        RequestView::TextObjects { client, .. } => client,
        RequestView::Nav { client, .. } => client,
    }
}

/// The wire form of a [`Request`]: fields in declaration order.
pub open spec fn request_json(r: RequestView) -> Seq<char> {
    match r {
        RequestView::TryEnableHighlight { lang, client } => tagged(
            "try_enable_highlight"@,
            member("lang"@, json_string_of(lang)) + member("client"@, json_string_of(client)),
        ),
        RequestView::Highlight { client, buffer, lang, timestamp } => tagged(
            "highlight"@,
            member("client"@, json_string_of(client)) + member("buffer"@, json_string_of(buffer))
                + member("lang"@, json_string_of(lang)) + member(
                "timestamp"@,
                decimal(timestamp as nat),
            ),
        ),
        RequestView::TextObjects { client, buffer, lang, pattern, selections, mode } => tagged(
            "text_objects"@,
            member("client"@, json_string_of(client)) + member("buffer"@, json_string_of(buffer))
                + member("lang"@, json_string_of(lang)) + member(
                "pattern"@,
                json_string_of(pattern),
            ) + member("selections"@, json_string_of(selections)) + member(
                "mode"@,
                json_string_of(mode),
            ),
        ),
        RequestView::Nav { client, buffer, lang, selections, dir } => tagged(
            "nav"@,
            member("client"@, json_string_of(client)) + member("buffer"@, json_string_of(buffer))
                + member("lang"@, json_string_of(lang)) + member(
                "selections"@,
                json_string_of(selections),
            ) + member("dir"@, json_string_of(dir)),
        ),
    }
}

impl Request {
    /// The client that sent the request; every request has one.
    pub fn client_name(&self) -> (r: Option<&str>)
        ensures
            r is Some,
            r->0@ == request_client(self@),
    {
        match self {
            Request::TryEnableHighlight { client, .. } => Some(client.as_str()),
            Request::Highlight { client, .. } => Some(client.as_str()),
            Request::TextObjects { client, .. } => Some(client.as_str()),
            Request::Nav { client, .. } => Some(client.as_str()),
        }
    }

    /// The JSON payload sent to the server for this request.
    pub fn to_json(&self) -> (r: String)
        ensures
            r@ == request_json(self@),
    {
        let mut out;
        match self {
            Request::TryEnableHighlight { lang, client } => {
                out = open_tagged("try_enable_highlight");
                push_str_member(&mut out, "lang", lang.as_str());
                push_str_member(&mut out, "client", client.as_str());
            },
            Request::Highlight { client, buffer, lang, timestamp } => {
                out = open_tagged("highlight");
                push_str_member(&mut out, "client", client.as_str());
                push_str_member(&mut out, "buffer", buffer.as_str());
                push_str_member(&mut out, "lang", lang.as_str());
                push_u64_member(&mut out, "timestamp", *timestamp);
            },
            Request::TextObjects { client, buffer, lang, pattern, selections, mode } => {
                out = open_tagged("text_objects");
                push_str_member(&mut out, "client", client.as_str());
                push_str_member(&mut out, "buffer", buffer.as_str());
                push_str_member(&mut out, "lang", lang.as_str());
                push_str_member(&mut out, "pattern", pattern.as_str());
                push_str_member(&mut out, "selections", selections.as_str());
                push_str_member(&mut out, "mode", mode.as_str());
            },
            Request::Nav { client, buffer, lang, selections, dir } => {
                out = open_tagged("nav");
                push_str_member(&mut out, "client", client.as_str());
                push_str_member(&mut out, "buffer", buffer.as_str());
                push_str_member(&mut out, "lang", lang.as_str());
                push_str_member(&mut out, "selections", selections.as_str());
                push_str_member(&mut out, "dir", dir.as_str());
            },
        }
        close_tagged(&mut out);
        assert(out@ =~= request_json(self@));
        out
    }
}

} // verus!
