//! Responses: the header fields, the status and content-type tables, and the
//! bytes that go on the wire.

use crate::text::{decimal, same_text};
use vstd::prelude::*;
use vstd::utf8::encode_utf8;

verus! {

/// Header fields as mathematics: name and value pairs, in the order in which
/// the names were first set.
pub type Fields = Seq<(Seq<char>, Seq<char>)>;

/// The first index at or after `from` whose field is called `name`, or the
/// number of fields.
pub open spec fn position(fields: Fields, name: Seq<char>, from: int) -> int
    decreases fields.len() - from,
{
    if 0 <= from < fields.len() && fields[from].0 != name {
        position(fields, name, from + 1)
    } else {
        from
    }
}

/// The value of the field called `name`, if there is one. Names are compared
/// character by character, so they are case-sensitive.
pub open spec fn lookup(fields: Fields, name: Seq<char>) -> Option<Seq<char>> {
    let i = position(fields, name, 0);
    if i < fields.len() {
        Some(fields[i].1)
    } else {
        None
    }
}

/// `fields` with `name` set to `value`: a field of that name gets the new
/// value and keeps its place, a new name goes to the end.
pub open spec fn put(fields: Fields, name: Seq<char>, value: Seq<char>) -> Fields {
    let i = position(fields, name, 0);
    if i < fields.len() {
        fields.update(i, (name, value))
    } else {
        fields.push((name, value))
    }
}

/// No name occurs twice.
pub open spec fn distinct_names(fields: Fields) -> bool {
    forall|i: int, j: int| 0 <= i < j < fields.len() ==> (#[trigger] fields[i]).0 != (
    #[trigger] fields[j]).0
}

/// `position` stays within the fields, stops at a field called `name`, and
/// passes none.
pub proof fn lemma_position(fields: Fields, name: Seq<char>, from: int)
    requires
        0 <= from <= fields.len(),
    ensures
        from <= position(fields, name, from) <= fields.len(),
        position(fields, name, from) < fields.len() ==> fields[position(fields, name, from)].0
            == name,
        forall|i: int| from <= i < position(fields, name, from) ==> (#[trigger] fields[i]).0 != name,
    decreases fields.len() - from,
{
    if from < fields.len() && fields[from].0 != name {
        lemma_position(fields, name, from + 1);
    }
}

/// The position of the first field called `name`, given a witness.
proof fn lemma_position_is(fields: Fields, name: Seq<char>, from: int, at: int)
    requires
        0 <= from <= at <= fields.len(),
        forall|i: int| from <= i < at ==> (#[trigger] fields[i]).0 != name,
        at == fields.len() || fields[at].0 == name,
    ensures
        position(fields, name, from) == at,
    decreases at - from,
{
    if from < at {
        lemma_position_is(fields, name, from + 1, at);
    }
}

/// Setting a field makes it readable under its name and changes no other.
pub proof fn lemma_put_lookup(fields: Fields, name: Seq<char>, value: Seq<char>, other: Seq<char>)
    ensures
        lookup(put(fields, name, value), name) == Some(value),
        other != name ==> lookup(put(fields, name, value), other) == lookup(fields, other),
{
    let i = position(fields, name, 0);
    let after = put(fields, name, value);
    lemma_position(fields, name, 0);
    lemma_position_is(after, name, 0, i);
    if other != name {
        let k = position(fields, other, 0);
        lemma_position(fields, other, 0);
        lemma_position_is(after, other, 0, if k < fields.len() { k } else { after.len() as int });
    }
}

/// Setting a field never makes a name occur twice.
pub proof fn lemma_put_distinct(fields: Fields, name: Seq<char>, value: Seq<char>)
    requires
        distinct_names(fields),
    ensures
        distinct_names(put(fields, name, value)),
{
    lemma_position(fields, name, 0);
}

/// The header fields of a response: a mapping from case-sensitive names to
/// values that remembers the order in which the names were first set.
#[derive(Debug)]
pub struct Headers {
    entries: Vec<(String, String)>,
}

impl View for Headers {
    type V = Fields;

    closed spec fn view(&self) -> Fields {
        Seq::new(self.entries@.len(), |i: int| (self.entries@[i].0@, self.entries@[i].1@))
    }
}

impl Headers {
    #[verifier::type_invariant]
    spec fn names_occur_once(self) -> bool {
        distinct_names(self@)
    }

    /// No fields.
    pub fn new() -> (headers: Headers)
        ensures
            headers@ == Fields::empty(),
    {
        let headers = Headers { entries: Vec::new() };
        assert(headers@ =~= Fields::empty());
        headers
    }

    /// The number of fields. No two of them have the same name.
    pub fn len(&self) -> (n: usize)
        ensures
            n == self@.len(),
            distinct_names(self@),
    {
        proof {
            use_type_invariant(self);
        }
        self.entries.len()
    }

    /// The name of the field at `index`.
    pub fn name_at(&self, index: usize) -> (name: &str)
        requires
            index < self@.len(),
        ensures
            name@ == self@[index as int].0,
    {
        self.entries[index].0.as_str()
    }

    /// The value of the field at `index`.
    pub fn value_at(&self, index: usize) -> (value: &str)
        requires
            index < self@.len(),
        ensures
            value@ == self@[index as int].1,
    {
        self.entries[index].1.as_str()
    }

    /// Where the field called `name` stands, or `len()` if there is none.
    fn find(&self, name: &str) -> (at: usize)
        ensures
            at == position(self@, name@, 0),
            at <= self@.len(),
    {
        let mut i: usize = 0;
        while i < self.entries.len() && !same_text(self.entries[i].0.as_str(), name)
            invariant
                i <= self@.len(),
                self@.len() == self.entries@.len(),
                position(self@, name@, 0) == position(self@, name@, i as int),
            decreases self@.len() - i,
        {
            i += 1;
        }
        i
    }

    /// Tells whether a field is called `name`.
    pub fn contains_key(&self, name: &str) -> (found: bool)
        ensures
            found == lookup(self@, name@).is_some(),
    {
        self.find(name) < self.entries.len()
    }

    /// The value of the field called `name`.
    pub fn get(&self, name: &str) -> (value: Option<&str>)
        ensures
            match value {
                Some(v) => lookup(self@, name@) == Some(v@),
                None => lookup(self@, name@).is_none(),
            },
    {
        let at = self.find(name);
        if at < self.entries.len() {
            Some(self.entries[at].1.as_str())
        } else {
            None
        }
    }

    /// Sets the field called `name` to `value`.
    pub fn insert(&mut self, name: String, value: String)
        ensures
            final(self)@ == put(old(self)@, name@, value@),
            distinct_names(final(self)@),
    {
        proof {
            use_type_invariant(&*self);
            lemma_put_distinct(self@, name@, value@);
        }
        let at = self.find(name.as_str());
        let mut entries: Vec<(String, String)> = Vec::new();
        core::mem::swap(&mut self.entries, &mut entries);
        if at < entries.len() {
            entries.set(at, (name, value));
        } else {
            entries.push((name, value));
        }
        assert(Seq::new(entries@.len(), |i: int| (entries@[i].0@, entries@[i].1@)) =~= put(
            old(self)@,
            name@,
            value@,
        ));
        core::mem::swap(&mut self.entries, &mut entries);
    }
}

/// A response: a status code, header fields and a body.
#[derive(Debug)]
pub struct Response {
    pub status: u32,
    pub headers: Headers,
    pub body: Vec<u8>,
}

/// The mathematical content of a [`Response`].
pub ghost struct ResponseView {
    pub status: u32,
    pub headers: Fields,
    pub body: Seq<u8>,
}

impl View for Response {
    type V = ResponseView;

    open spec fn view(&self) -> ResponseView {
        ResponseView { status: self.status, headers: self.headers@, body: self.body@ }
    }
}

/// The status table: the reason phrase of each known status code, and
/// `UNKNOWN` for every other code.
pub open spec fn reason_phrase(code: u32) -> Seq<char> {
    match code {
        100 => "Continue"@,
        101 => "Switching protocols"@,
        200 => "OK"@,
        201 => "Created"@,
        202 => "Accepted"@,
        203 => "Non-Authoritative Information"@,
        204 => "No Content"@,
        205 => "Reset Content"@,
        206 => "Partial Content"@,
        207 => "Partial Update OK"@,
        300 => "Multiple Choices"@,
        301 => "Moved Permanently"@,
        302 => "Moved Temporarily"@,
        303 => "See Other"@,
        304 => "Not Modified"@,
        305 => "Use Proxy"@,
        307 => "Temporary Redirect"@,
        400 => "Bad Request"@,
        401 => "Unauthorized"@,
        402 => "Payment Required"@,
        403 => "Forbidden"@,
        404 => "Not Found"@,
        405 => "Method Not Allowed"@,
        406 => "Not Acceptable"@,
        407 => "Proxy Authentication Required"@,
        408 => "Request Timeout"@,
        409 => "Conflict"@,
        410 => "Gone"@,
        411 => "Length Required"@,
        412 => "Precondition Failed"@,
        413 => "Request Entity Too Large"@,
        414 => "Request-URI Too Long"@,
        415 => "Unsupported Media Type"@,
        416 => "Requested range not satisfiable"@,
        417 => "Expectation Failed"@,
        418 => "Reauthentication Required"@,
        419 => "Proxy Reauthentication Required"@,
        500 => "Internal Server Error"@,
        501 => "Not Implemented"@,
        502 => "Bad Gateway"@,
        503 => "Service Unavailable"@,
        504 => "Gateway Timeout"@,
        505 => "HTTP Version Not Supported"@,
        506 => "Partial Update Not Implemented"@,
        _ => "UNKNOWN"@,
    }
}

/// The content-type table: the media type of each known file extension, and
/// `text/plain` for every other extension and for none. Extensions are
/// matched exactly, in lower case.
pub open spec fn content_type(extension: Option<Seq<char>>) -> Seq<char> {
    match extension {
        Some(e) => if e == "gif"@ {
            "image/gif"@
        } else if e == "png"@ {
            "image/png"@
        } else if e == "jpg"@ {
            "image/jpeg"@
        } else if e == "txt"@ {
            "text/plain"@
        } else if e == "html"@ {
            "text/html"@
        } else {
            "text/plain"@
        },
        None => "text/plain"@,
    }
}

/// The first line of a response.
pub open spec fn status_line(code: u32) -> Seq<char> {
    "HTTP/1.1 "@ + decimal(code as nat) + " "@ + reason_phrase(code) + "\r\n"@
}

/// One header field as it is written.
pub open spec fn header_line(field: (Seq<char>, Seq<char>)) -> Seq<char> {
    field.0 + ": "@ + field.1 + "\r\n"@
}

/// The header fields as they are written, one line each, in their order.
pub open spec fn header_block(fields: Fields) -> Seq<char>
    decreases fields.len(),
{
    if fields.len() == 0 {
        Seq::empty()
    } else {
        header_block(fields.drop_last()) + header_line(fields.last())
    }
}

/// The fields that are written for a response: its own, and after them
/// `Content-type: text/plain` where it sets no content type itself.
pub open spec fn written_fields(fields: Fields) -> Fields {
    if lookup(fields, "Content-type"@).is_some() {
        fields
    } else {
        fields.push(("Content-type"@, "text/plain"@))
    }
}

/// Everything of a response that precedes its body: the status line, the
/// header fields and the blank line that ends them.
pub open spec fn head(response: ResponseView) -> Seq<char> {
    status_line(response.status) + header_block(written_fields(response.headers)) + "\r\n"@
}

/// The bytes of a response on the wire: its head in UTF-8, then its body
/// unchanged.
pub open spec fn wire(response: ResponseView) -> Seq<u8> {
    encode_utf8(head(response)) + response.body
}

/// Every response is written with a content type.
pub proof fn lemma_content_type_is_written(fields: Fields)
    ensures
        lookup(written_fields(fields), "Content-type"@).is_some(),
{
    if lookup(fields, "Content-type"@).is_none() {
        let name = "Content-type"@;
        let all = written_fields(fields);
        lemma_position(fields, name, 0);
        lemma_position_is(all, name, 0, fields.len() as int);
    }
}

/// The head of every response ends with the line of its last header field
/// and a blank line: the body begins right after the first line break that
/// follows another.
pub proof fn lemma_head_ends_with_blank_line(response: ResponseView)
    ensures
        exists|before: Seq<char>| head(response) == before + "\r\n"@ + "\r\n"@,
{
    let fields = written_fields(response.headers);
    lemma_content_type_is_written(response.headers);
    assert(fields.len() > 0);
    let last = fields.last();
    let before = status_line(response.status) + header_block(fields.drop_last()) + last.0 + ": "@
        + last.1;
    assert(head(response) =~= before + "\r\n"@ + "\r\n"@);
}

} // verus!
