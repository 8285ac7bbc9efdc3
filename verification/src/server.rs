//! The server: its configuration, and what it decides for each connection.

use crate::request::{parse_bytes, parse_request, ParseError, Request, RequestView};
use crate::response::{
    content_type, head, header_block, position, reason_phrase, status_line, wire, written_fields,
    Fields, Headers, Response, ResponseView,
};
use crate::path::{extension, extension_of, resolve, resolved_path};
use crate::text::{decimal, decimal_text, same_text};
use vstd::prelude::*;
use vstd::string::{StrSliceExecFns, StringExecFns};
use vstd::utf8::encode_utf8;

verus! {

/// A response without header fields of its own, whose body is the reason
/// phrase of its status code.
pub open spec fn plain_response(code: u32) -> ResponseView {
    ResponseView { status: code, headers: Fields::empty(), body: encode_utf8(reason_phrase(code)) }
}

/// The response that serves the file at `path`, whose bytes are `content`:
/// status 200, the content type that goes with the extension if the path has
/// one, the size of the content in decimal, and the content as the body.
pub open spec fn file_response(path: Seq<char>, content: Seq<u8>) -> ResponseView {
    let size = ("Content-size"@, decimal(content.len()));
    ResponseView {
        status: 200,
        headers: match extension(path) {
            Some(e) => seq![("Content-type"@, content_type(Some(e))), size],
            None => seq![size],
        },
        body: content,
    }
}

/// How the attempt to read a file ended.
#[derive(Debug)]
pub enum Fetched {
    /// The file could not be opened.
    Missing,
    /// The file was opened, but reading it failed.
    Unreadable,
    /// The whole content of the file.
    Content(Vec<u8>),
}

/// The response to a request for the file at `path`, given how reading the
/// file ended: 404 if it could not be opened, 500 if it could not be read.
pub open spec fn delivered(path: Seq<char>, outcome: Fetched) -> ResponseView {
    match outcome {
        Fetched::Missing => plain_response(404),
        Fetched::Unreadable => plain_response(500),
        Fetched::Content(content) => file_response(path, content@),
    }
}

/// What to do for a connection once its bytes have been read.
#[derive(Debug)]
pub enum Action {
    /// Close the connection without a response.
    Close(ParseError),
    /// Read the file at this path and answer with what `deliver` makes of
    /// the outcome.
    Fetch(String),
    /// Answer with this response.
    Reply(Response),
}

/// The mathematical content of an [`Action`].
pub ghost enum ActionView {
    Close(ParseError),
    Fetch(Seq<char>),
    Reply(ResponseView),
}

impl View for Action {
    type V = ActionView;

    open spec fn view(&self) -> ActionView {
        match self {
            Action::Close(e) => ActionView::Close(*e),
            Action::Fetch(path) => ActionView::Fetch(path@),
            Action::Reply(response) => ActionView::Reply(response@),
        }
    }
}

/// What a request asks for: the file that its target names if the method is
/// `GET`, and a 501 response for every other method.
pub open spec fn routed(docroot: Seq<char>, request: RequestView) -> ActionView {
    if request.method == "GET"@ {
        ActionView::Fetch(resolved_path(docroot, request.target))
    } else {
        ActionView::Reply(plain_response(501))
    }
}

/// What the bytes read from a connection ask for. Bytes that hold no request
/// get no response.
pub open spec fn received(docroot: Seq<char>, bytes: Seq<u8>) -> ActionView {
    match parse_bytes(bytes) {
        Ok(request) => routed(docroot, request),
        Err(e) => ActionView::Close(e),
    }
}

/// The configuration of a server: the address it listens on and the
/// directory it serves files from. It never changes once made.
#[derive(Clone, Debug)]
pub struct Server {
    listen: String,
    docroot: String,
}

/// The mathematical content of a [`Server`].
pub ghost struct ServerView {
    pub listen: Seq<char>,
    pub docroot: Seq<char>,
}

impl View for Server {
    type V = ServerView;

    closed spec fn view(&self) -> ServerView {
        ServerView { listen: self.listen@, docroot: self.docroot@ }
    }
}

impl Server {
    /// A server that listens on `listen` and serves the files under
    /// `docroot`.
    pub fn with(listen: String, docroot: String) -> (server: Server)
        ensures
            server@ == (ServerView { listen: listen@, docroot: docroot@ }),
    {
        Server { listen, docroot }
    }

    /// The address to listen on.
    pub fn listen(&self) -> (listen: &str)
        ensures
            listen@ == self@.listen,
    {
        self.listen.as_str()
    }

    /// The directory that files are served from.
    pub fn docroot(&self) -> (docroot: &str)
        ensures
            docroot@ == self@.docroot,
    {
        self.docroot.as_str()
    }

    /// The media type for a file extension.
    pub fn get_type(&self, extension: Option<&str>) -> (media: &str)
        ensures
            media@ == content_type(
                match extension {
                    Some(e) => Some(e@),
                    None => None,
                },
            ),
    {
        match extension {
            Some(e) => {
                if same_text(e, "gif") {
                    "image/gif"
                } else if same_text(e, "png") {
                    "image/png"
                } else if same_text(e, "jpg") {
                    "image/jpeg"
                } else if same_text(e, "txt") {
                    "text/plain"
                } else if same_text(e, "html") {
                    "text/html"
                } else {
                    "text/plain"
                }
            },
            None => "text/plain",
        }
    }

    /// The reason phrase for a status code.
    pub fn get_message(&self, code: u32) -> (reason: &str)
        ensures
            reason@ == reason_phrase(code),
    {
        match code {
            100 => "Continue",
            101 => "Switching protocols",
            200 => "OK",
            201 => "Created",
            202 => "Accepted",
            203 => "Non-Authoritative Information",
            204 => "No Content",
            205 => "Reset Content",
            206 => "Partial Content",
            207 => "Partial Update OK",
            300 => "Multiple Choices",
            301 => "Moved Permanently",
            302 => "Moved Temporarily",
            303 => "See Other",
            304 => "Not Modified",
            305 => "Use Proxy",
            307 => "Temporary Redirect",
            400 => "Bad Request",
            401 => "Unauthorized",
            402 => "Payment Required",
            403 => "Forbidden",
            404 => "Not Found",
            405 => "Method Not Allowed",
            406 => "Not Acceptable",
            407 => "Proxy Authentication Required",
            408 => "Request Timeout",
            409 => "Conflict",
            410 => "Gone",
            411 => "Length Required",
            412 => "Precondition Failed",
            413 => "Request Entity Too Large",
            414 => "Request-URI Too Long",
            415 => "Unsupported Media Type",
            416 => "Requested range not satisfiable",
            417 => "Expectation Failed",
            418 => "Reauthentication Required",
            419 => "Proxy Reauthentication Required",
            500 => "Internal Server Error",
            501 => "Not Implemented",
            502 => "Bad Gateway",
            503 => "Service Unavailable",
            504 => "Gateway Timeout",
            505 => "HTTP Version Not Supported",
            506 => "Partial Update Not Implemented",
            _ => "UNKNOWN",
        }
    }

    /// What `request` asks for.
    pub fn route(&self, request: &Request) -> (action: Action)
        ensures
            action@ == routed(self@.docroot, request@),
    {
        if same_text(request.method.as_str(), "GET") {
            Action::Fetch(resolve(self.docroot.as_str(), request.target.as_str()))
        } else {
            Action::Reply(self.plain(501))
        }
    }

    /// What the bytes that one read of a connection gave ask for.
    pub fn receive(&self, bytes: &[u8]) -> (action: Action)
        ensures
            action@ == received(self@.docroot, bytes@),
    {
        match parse_request(bytes) {
            Ok(request) => self.route(&request),
            Err(e) => Action::Close(e),
        }
    }

    /// The response that only names its status.
    fn plain(&self, code: u32) -> (response: Response)
        ensures
            response@ == plain_response(code),
    {
        Response {
            status: code,
            headers: Headers::new(),
            body: self.get_message(code).as_bytes_vec(),
        }
    }

    /// The response to a request for the file at `path`, given how reading
    /// the file ended.
    pub fn deliver(&self, path: &str, outcome: Fetched) -> (response: Response)
        ensures
            response@ == delivered(path@, outcome),
    {
        match outcome {
            Fetched::Missing => self.plain(404),
            Fetched::Unreadable => self.plain(500),
            Fetched::Content(content) => {
                let mut headers = Headers::new();
                proof {
                    reveal_strlit("Content-type");
                    reveal_strlit("Content-size");
                    assert("Content-type"@[8] != "Content-size"@[8]);
                }
                if let Some(e) = extension_of(path) {
                    headers.insert("Content-type".to_owned(), self.get_type(Some(e)).to_owned());
                    assert(headers@ =~= seq![("Content-type"@, content_type(Some(e@)))]);
                }
                proof {
                    reveal_with_fuel(position, 2);
                }
                headers.insert("Content-size".to_owned(), decimal_text(content.len() as u64));
                assert(headers@ =~= file_response(path@, content@).headers);
                Response { status: 200, headers, body: content }
            },
        }
    }

    /// The bytes to send for `response`: the status line, the header fields
    /// with a content type among them, a blank line and the body.
    pub fn respond(&self, response: &Response) -> (bytes: Vec<u8>)
        ensures
            bytes@ == wire(response@),
    {
        let mut text = String::from_str("HTTP/1.1 ");
        text.append(decimal_text(response.status as u64).as_str());
        text.append(" ");
        text.append(self.get_message(response.status));
        text.append("\r\n");
        let n = response.headers.len();
        let mut i: usize = 0;
        while i < n
            invariant
                i <= n == response.headers@.len(),
                text@ == status_line(response.status) + header_block(
                    response.headers@.take(i as int),
                ),
            decreases n - i,
        {
            text.append(response.headers.name_at(i));
            text.append(": ");
            text.append(response.headers.value_at(i));
            text.append("\r\n");
            proof {
                let before = response.headers@.take(i as int);
                let after = response.headers@.take(i + 1);
                assert(after.drop_last() == before);
                assert(after.last() == response.headers@[i as int]);
            }
            i += 1;
        }
        assert(response.headers@.take(n as int) == response.headers@);
        if !response.headers.contains_key("Content-type") {
            text.append("Content-type");
            text.append(": ");
            text.append("text/plain");
            text.append("\r\n");
            proof {
                let all = written_fields(response.headers@);
                assert(all.drop_last() == response.headers@);
            }
        }
        text.append("\r\n");
        assert(text@ == head(response@));
        let mut bytes = text.as_str().as_bytes_vec();
        bytes.extend_from_slice(response.body.as_slice());
        bytes
    }
}

/// Asking twice for the same file gives the same bytes twice: if two reads
/// of the file give the same content, then the responses made of them are
/// equal byte for byte, whatever the request was that named the file.
pub proof fn lemma_same_file_same_bytes(
    docroot: Seq<char>,
    request: Seq<u8>,
    first: Vec<u8>,
    second: Vec<u8>,
)
    requires
        first@ == second@,
    ensures
        received(docroot, request) matches ActionView::Fetch(path) ==> wire(
            delivered(path, Fetched::Content(first)),
        ) == wire(delivered(path, Fetched::Content(second))),
{
}

/// Four status codes are sent and no others: 501 without looking for a
/// file, and 200, 404 or 500 once a file has been looked for.
pub proof fn lemma_status_codes(docroot: Seq<char>, request: Seq<u8>, path: Seq<char>, outcome: Fetched)
    ensures
        received(docroot, request) matches ActionView::Reply(response) ==> response.status == 501,
        delivered(path, outcome).status == 200 || delivered(path, outcome).status == 404
            || delivered(path, outcome).status == 500,
{
}

} // verus!
