//! One request of the console's small HTTP/1.1 subset, read from the bytes
//! of a connection, and the response that is written back.
//!
//! A request is a head and, where the head declares a length, a body. The
//! head is made of lines that end in a line feed and is closed by a line
//! that holds a carriage return and nothing else. Its first line is kept
//! as the request line, every other line is a header `name: value`. All
//! that is malformed is an error for this one request.

use crate::fields::{
    get_text, insert_field, lookup, new_fields, text_entries, text_view, FieldValue,
};
use crate::text::{
    chars_of, decimal, decimal_digits, decimal_usize, parse_decimal, pieces, rows, split,
    split_once, split_pair, text_of, trim, trimmed,
};
use vstd::prelude::*;
use vstd::slice::slice_subrange;
use vstd::string::StringExecFns;
use vstd::utf8::{decode_utf8, encode_utf8, valid_utf8};

verus! {

/// Why the bytes of a connection are no request.
#[derive(Clone, Copy, Debug, PartialEq, Eq, Structural)]
pub enum ParseError {
    /// The bytes end before the line that closes the head.
    UnterminatedHead,
    /// The head or the body is not UTF-8.
    InvalidText,
    /// The head holds no line before the one that closes it.
    MissingRequestLine,
    /// A header line without `": "`.
    MalformedHeader,
    /// A piece of the `Cookie` header without `"="`.
    MalformedCookie,
    /// A `Content-Length` that writes no number, or none that fits.
    InvalidLength,
    /// The bytes end before the declared length of the body.
    TruncatedBody,
    /// A piece of the body without `"="`.
    MalformedField,
}

/// What a request holds.
pub struct RequestView {
    /// The request line: method, path and version as they were received.
    pub request: Seq<char>,
    /// The headers by name; names are taken as they were received.
    pub headers: Map<Seq<char>, Seq<char>>,
    /// The cookies of the `Cookie` header by name.
    pub cookies: Map<Seq<char>, Seq<char>>,
    /// The fields of the body by name.
    pub content: Map<Seq<char>, Seq<char>>,
}

/// A request as parsed from a connection.
pub struct ServerStream {
    pub request: String,
    headers: serde_json::Map<String, serde_json::Value>,
    cookies: serde_json::Map<String, serde_json::Value>,
    content: serde_json::Map<String, serde_json::Value>,
}

/// The head of a request and where its body begins.
struct Head {
    request: String,
    headers: serde_json::Map<String, serde_json::Value>,
    cookies: serde_json::Map<String, serde_json::Value>,
    body_start: usize,
}

/// What the head of a request holds.
pub struct HeadView {
    pub request: Seq<char>,
    pub headers: Map<Seq<char>, Seq<char>>,
    pub cookies: Map<Seq<char>, Seq<char>>,
    /// The index of the first byte behind the head.
    pub body_start: int,
}

/// The line feed that ends a line of the head.
pub open spec fn line_feed() -> Seq<char> {
    seq!['\n']
}

/// What stands between the name and the value of a header.
pub open spec fn header_separator() -> Seq<char> {
    seq![':', ' ']
}

/// What stands between two cookies.
pub open spec fn cookie_separator() -> Seq<char> {
    seq![';', ' ']
}

/// What stands between the name and the value of a cookie or a body field.
pub open spec fn value_separator() -> Seq<char> {
    seq!['=']
}

/// What stands between two fields of a body sent as lines.
pub open spec fn line_separator() -> Seq<char> {
    seq!['\r', '\n']
}

/// What stands between two fields of a body sent as a URL-encoded form.
pub open spec fn form_separator() -> Seq<char> {
    seq!['&']
}

/// The line that closes the head begins at index `h`: a carriage return and
/// a line feed, at the start of the bytes or just behind a line feed.
pub open spec fn closes_head_at(bytes: Seq<u8>, h: int) -> bool {
    &&& 0 <= h
    &&& h + 2 <= bytes.len()
    &&& bytes[h] == 13
    &&& bytes[h + 1] == 10
    &&& (h == 0 || bytes[h - 1] == 10)
}

/// The first index at or after `from` at which the head is closed.
pub open spec fn head_end_from(bytes: Seq<u8>, from: int) -> Option<int>
    decreases bytes.len() - from + 1,
{
    if from < 0 || from + 2 > bytes.len() {
        None
    } else if closes_head_at(bytes, from) {
        Some(from)
    } else {
        head_end_from(bytes, from + 1)
    }
}

/// The length of the head: the first index at which it is closed.
pub open spec fn head_end(bytes: Seq<u8>) -> Option<int> {
    head_end_from(bytes, 0)
}

/// `head_end_from` gives the first index at which the head is closed, and
/// none only where it is closed nowhere.
pub proof fn lemma_head_end_from(bytes: Seq<u8>, from: int)
    requires
        0 <= from,
    ensures
        match head_end_from(bytes, from) {
            Some(h) => {
                &&& from <= h
                &&& closes_head_at(bytes, h)
                &&& forall|k: int| from <= k < h ==> !closes_head_at(bytes, k)
            },
            None => forall|k: int| from <= k ==> !closes_head_at(bytes, k),
        },
    decreases bytes.len() - from + 1,
{
    if from + 2 > bytes.len() {
    } else if closes_head_at(bytes, from) {
    } else {
        lemma_head_end_from(bytes, from + 1);
    }
}

/// The lines of a head: what stands before each of its line feeds.
pub open spec fn head_lines(text: Seq<char>) -> Seq<Seq<char>> {
    pieces(text, line_feed()).drop_last()
}

/// The map that a list of `name<sep>value` pieces writes, each piece cut at
/// its first `sep`; a later piece replaces an earlier one of the same name.
/// With `trim_first` each piece is trimmed before it is cut. There is no map
/// where a piece holds no `sep`.
pub open spec fn field_map(list: Seq<Seq<char>>, sep: Seq<char>, trim_first: bool) -> Option<
    Map<Seq<char>, Seq<char>>,
>
    decreases list.len(),
{
    if list.len() == 0 {
        Some(Map::empty())
    } else {
        let piece = if trim_first {
            trimmed(list.last())
        } else {
            list.last()
        };
        match (field_map(list.drop_last(), sep, trim_first), split_pair(piece, sep)) {
            (Some(m), Some((name, value))) => Some(m.insert(name, value)),
            _ => None,
        }
    }
}

/// Where a first part of a list writes no map, the whole list writes none.
pub proof fn lemma_field_map_prefix(list: Seq<Seq<char>>, sep: Seq<char>, trim_first: bool, k: int)
    requires
        0 <= k <= list.len(),
        field_map(list.subrange(0, k), sep, trim_first) is None,
    ensures
        field_map(list, sep, trim_first) is None,
    decreases list.len() - k,
{
    if k == list.len() {
        assert(list.subrange(0, k) =~= list);
    } else {
        assert(list.drop_last().subrange(0, k) =~= list.subrange(0, k));
        lemma_field_map_prefix(list.drop_last(), sep, trim_first, k);
    }
}

/// The cookies that the headers carry.
pub open spec fn cookies_of(headers: Map<Seq<char>, Seq<char>>) -> Option<
    Map<Seq<char>, Seq<char>>,
> {
    match lookup(headers, "Cookie"@) {
        Some(value) => field_map(pieces(value, cookie_separator()), value_separator(), false),
        None => Some(Map::empty()),
    }
}

/// What stands between two fields of the body: `&` where the headers
/// declare a URL-encoded form, a line break otherwise.
pub open spec fn body_separator(headers: Map<Seq<char>, Seq<char>>) -> Seq<char> {
    if lookup(headers, "Content-Type"@) == Some("application/x-www-form-urlencoded"@) {
        form_separator()
    } else {
        line_separator()
    }
}

/// The head of the request that `bytes` begin with.
pub open spec fn head_of(bytes: Seq<u8>) -> Result<HeadView, ParseError> {
    match head_end(bytes) {
        None => Err(ParseError::UnterminatedHead),
        Some(h) => {
            let head = bytes.subrange(0, h);
            if !valid_utf8(head) {
                Err(ParseError::InvalidText)
            } else {
                let lines = head_lines(decode_utf8(head));
                if lines.len() == 0 {
                    Err(ParseError::MissingRequestLine)
                } else {
                    let header_lines = lines.subrange(1, lines.len() as int);
                    match field_map(header_lines, header_separator(), true) {
                        None => Err(ParseError::MalformedHeader),
                        Some(headers) => match cookies_of(headers) {
                            None => Err(ParseError::MalformedCookie),
                            Some(cookies) => Ok(
                                HeadView {
                                    request: trimmed(lines[0]),
                                    headers,
                                    cookies,
                                    body_start: h + 2,
                                },
                            ),
                        },
                    }
                }
            }
        },
    }
}

/// The length of the body that the headers declare: none without a
/// `Content-Length`, an error where it writes no number that fits.
pub open spec fn declared_length(headers: Map<Seq<char>, Seq<char>>) -> Result<
    Option<usize>,
    ParseError,
> {
    match lookup(headers, "Content-Length"@) {
        None => Ok(None),
        Some(value) => match decimal_usize(value) {
            None => Err(ParseError::InvalidLength),
            Some(n) => Ok(Some(n)),
        },
    }
}

/// The fields of a body of `n` bytes that `rest` begins with, cut at `sep`.
pub open spec fn body_fields(rest: Seq<u8>, n: int, sep: Seq<char>) -> Result<
    Map<Seq<char>, Seq<char>>,
    ParseError,
> {
    if n > rest.len() {
        Err(ParseError::TruncatedBody)
    } else if !valid_utf8(rest.subrange(0, n)) {
        Err(ParseError::InvalidText)
    } else {
        let text = trimmed(decode_utf8(rest.subrange(0, n)));
        match field_map(pieces(text, sep), value_separator(), false) {
            None => Err(ParseError::MalformedField),
            Some(m) => Ok(m),
        }
    }
}

/// The fields of the body that follows the head in `rest`. Without a
/// declared length there is no body and there are no fields.
pub open spec fn content_of(headers: Map<Seq<char>, Seq<char>>, rest: Seq<u8>) -> Result<
    Map<Seq<char>, Seq<char>>,
    ParseError,
> {
    match declared_length(headers) {
        Err(e) => Err(e),
        Ok(None) => Ok(Map::empty()),
        Ok(Some(n)) => body_fields(rest, n as int, body_separator(headers)),
    }
}

/// The request that `bytes` hold, or why they hold none. Bytes behind the
/// body are not looked at.
pub open spec fn request_of(bytes: Seq<u8>) -> Result<RequestView, ParseError> {
    match head_of(bytes) {
        Err(e) => Err(e),
        Ok(head) => match content_of(
            head.headers,
            bytes.subrange(head.body_start, bytes.len() as int),
        ) {
            Err(e) => Err(e),
            Ok(content) => Ok(
                RequestView {
                    request: head.request,
                    headers: head.headers,
                    cookies: head.cookies,
                    content,
                },
            ),
        },
    }
}

/// How many bytes of body follow the head of `bytes`: the declared length,
/// or zero where none is declared.
pub open spec fn body_length_of(bytes: Seq<u8>) -> Result<usize, ParseError> {
    match head_of(bytes) {
        Err(e) => Err(e),
        Ok(head) => match declared_length(head.headers) {
            Err(e) => Err(e),
            Ok(None) => Ok(0),
            Ok(Some(n)) => Ok(n),
        },
    }
}

impl Head {
    spec fn view(&self) -> HeadView {
        HeadView {
            request: self.request@,
            headers: text_entries(self.headers),
            cookies: text_entries(self.cookies),
            body_start: self.body_start as int,
        }
    }
}

impl View for ServerStream {
    type V = RequestView;

    closed spec fn view(&self) -> RequestView {
        RequestView {
            request: self.request@,
            headers: text_entries(self.headers),
            cookies: text_entries(self.cookies),
            content: text_entries(self.content),
        }
    }
}

/// `core::str::from_utf8`: the text that `bytes` encode, where they are
/// UTF-8, and `None` where they are not.
#[verifier::external_body]
fn decode(bytes: &[u8]) -> (text: Option<&str>)
    ensures
        text is Some <==> valid_utf8(bytes@),
        text is Some ==> text.unwrap()@ == decode_utf8(bytes@),
{
    core::str::from_utf8(bytes).ok()
}

/// Finds the line that closes the head.
fn find_head_end(bytes: &[u8]) -> (r: Option<usize>)
    ensures
        match r {
            Some(h) => head_end(bytes@) == Some(h as int),
            None => head_end(bytes@) is None,
        },
{
    if bytes.len() < 2 {
        return None;
    }
    let last: usize = bytes.len() - 2;
    let mut i: usize = 0;
    while i <= last
        invariant
            last == bytes.len() - 2,
            i <= last + 1,
            head_end(bytes@) == head_end_from(bytes@, i as int),
        decreases last + 1 - i,
    {
        if bytes[i] == 13 && bytes[i + 1] == 10 && (i == 0 || bytes[i - 1] == 10) {
            return Some(i);
        }
        i += 1;
    }
    None
}

/// Builds the map that the pieces from index `from` on write.
fn fill_fields(list: &Vec<Vec<char>>, from: usize, sep: &[char], trim_first: bool) -> (r: Option<
    serde_json::Map<String, serde_json::Value>,
>)
    requires
        from <= list.len(),
    ensures
        match field_map(rows(list@).subrange(from as int, list.len() as int), sep@, trim_first) {
            Some(fields) => r matches Some(m) && text_entries(m) == fields,
            None => r is None,
        },
{
    let ghost all = rows(list@).subrange(from as int, list.len() as int);
    let mut m = new_fields();
    let mut i: usize = from;
    assert(all.subrange(0, 0) =~= Seq::<Seq<char>>::empty());
    while i < list.len()
        invariant
            from <= i <= list.len(),
            all == rows(list@).subrange(from as int, list.len() as int),
            field_map(all.subrange(0, i - from), sep@, trim_first) == Some(text_entries(m)),
        decreases list.len() - i,
    {
        let ghost next = all.subrange(0, i - from + 1);
        assert(next.drop_last() =~= all.subrange(0, i - from));
        assert(next.last() == list@[i as int]@);
        let pair = if trim_first {
            let piece = trim(list[i].as_slice());
            split_once(piece.as_slice(), sep)
        } else {
            split_once(list[i].as_slice(), sep)
        };
        match pair {
            None => {
                proof {
                    lemma_field_map_prefix(all, sep@, trim_first, i - from + 1);
                }
                return None;
            },
            Some((name, value)) => {
                let key = text_of(name.as_slice());
                let val = text_of(value.as_slice());
                insert_field(&mut m, key, FieldValue::Text(val));
            },
        }
        i += 1;
    }
    assert(all.subrange(0, all.len() as int) =~= all);
    Some(m)
}

/// Reads the head of a request.
fn parse_head(bytes: &[u8]) -> (r: Result<Head, ParseError>)
    ensures
        match head_of(bytes@) {
            Ok(view) => r matches Ok(head) && head.view() == view && head.body_start <= bytes.len(),
            Err(e) => r matches Err(f) && f == e,
        },
{
    let h = match find_head_end(bytes) {
        Some(h) => h,
        None => {
            return Err(ParseError::UnterminatedHead);
        },
    };
    proof {
        lemma_head_end_from(bytes@, 0);
    }
    assert(h + 2 <= bytes.len());
    let body_start: usize = h + 2;
    let text = match decode(slice_subrange(bytes, 0, h)) {
        Some(text) => text,
        None => {
            return Err(ParseError::InvalidText);
        },
    };
    let chars = chars_of(text);
    let feed: Vec<char> = vec!['\n'];
    assert(feed@ =~= line_feed());
    let mut lines = split(chars.as_slice(), feed.as_slice());
    lines.pop();
    assert(rows(lines@) =~= head_lines(chars@));
    if lines.len() == 0 {
        return Err(ParseError::MissingRequestLine);
    }
    let request = text_of(trim(lines[0].as_slice()).as_slice());
    let colon: Vec<char> = vec![':', ' '];
    assert(colon@ =~= header_separator());
    let headers = match fill_fields(&lines, 1, colon.as_slice(), true) {
        Some(m) => m,
        None => {
            return Err(ParseError::MalformedHeader);
        },
    };
    let equals: Vec<char> = vec!['='];
    assert(equals@ =~= value_separator());
    let cookies = match get_text(&headers, "Cookie") {
        None => new_fields(),
        Some(value) => {
            let semicolon: Vec<char> = vec![';', ' '];
            assert(semicolon@ =~= cookie_separator());
            let list = split(chars_of(value.as_str()).as_slice(), semicolon.as_slice());
            assert(rows(list@).subrange(0, list.len() as int) =~= rows(list@));
            match fill_fields(&list, 0, equals.as_slice(), false) {
                Some(m) => m,
                None => {
                    return Err(ParseError::MalformedCookie);
                },
            }
        },
    };
    Ok(Head { request, headers, cookies, body_start })
}

/// Reads the declared length of the body from the headers.
fn read_length(headers: &serde_json::Map<String, serde_json::Value>) -> (r: Result<
    Option<usize>,
    ParseError,
>)
    ensures
        r == declared_length(text_entries(*headers)),
{
    match get_text(headers, "Content-Length") {
        None => Ok(None),
        Some(value) => match parse_decimal(chars_of(value.as_str()).as_slice()) {
            None => Err(ParseError::InvalidLength),
            Some(n) => Ok(Some(n)),
        },
    }
}

/// Picks what stands between two fields of the body.
fn pick_separator(headers: &serde_json::Map<String, serde_json::Value>) -> (r: Vec<char>)
    ensures
        r@ == body_separator(text_entries(*headers)),
{
    let form = match get_text(headers, "Content-Type") {
        Some(kind) => kind == "application/x-www-form-urlencoded".to_owned(),
        None => false,
    };
    if form {
        let sep: Vec<char> = vec!['&'];
        assert(sep@ =~= form_separator());
        sep
    } else {
        let sep: Vec<char> = vec!['\r', '\n'];
        assert(sep@ =~= line_separator());
        sep
    }
}

/// Reads the fields of a body of `n` bytes at the start of `rest`.
fn read_body(rest: &[u8], n: usize, sep: &[char]) -> (r: Result<
    serde_json::Map<String, serde_json::Value>,
    ParseError,
>)
    ensures
        match body_fields(rest@, n as int, sep@) {
            Ok(fields) => r matches Ok(m) && text_entries(m) == fields,
            Err(e) => r matches Err(f) && f == e,
        },
{
    if n > rest.len() {
        return Err(ParseError::TruncatedBody);
    }
    let text = match decode(slice_subrange(rest, 0, n)) {
        Some(text) => text,
        None => {
            return Err(ParseError::InvalidText);
        },
    };
    let body = trim(chars_of(text).as_slice());
    let list = split(body.as_slice(), sep);
    assert(rows(list@).subrange(0, list.len() as int) =~= rows(list@));
    let equals: Vec<char> = vec!['='];
    assert(equals@ =~= value_separator());
    match fill_fields(&list, 0, equals.as_slice(), false) {
        Some(m) => Ok(m),
        None => Err(ParseError::MalformedField),
    }
}

/// Whether `bytes` hold a whole head, closing line included.
pub fn head_complete(bytes: &[u8]) -> (r: bool)
    ensures
        r == head_end(bytes@).is_some(),
{
    find_head_end(bytes).is_some()
}

/// How many bytes of body are to be read behind the head of `bytes`.
pub fn body_length(bytes: &[u8]) -> (r: Result<usize, ParseError>)
    ensures
        r == body_length_of(bytes@),
{
    let head = match parse_head(bytes) {
        Ok(head) => head,
        Err(e) => {
            return Err(e);
        },
    };
    match read_length(&head.headers) {
        Err(e) => Err(e),
        Ok(None) => Ok(0),
        Ok(Some(n)) => Ok(n),
    }
}

/// Parses the bytes of one connection into a request.
///
/// The result is the request that `request_of` defines for these bytes, or
/// the error that it defines: nothing else is returned, and every sequence
/// of bytes has one or the other.
pub fn parse_stream(bytes: &[u8]) -> (r: Result<ServerStream, ParseError>)
    ensures
        match request_of(bytes@) {
            Ok(request) => r matches Ok(stream) && stream@ == request,
            Err(e) => r matches Err(f) && f == e,
        },
{
    let head = match parse_head(bytes) {
        Ok(head) => head,
        Err(e) => {
            return Err(e);
        },
    };
    let content = match read_length(&head.headers) {
        Err(e) => {
            return Err(e);
        },
        Ok(None) => new_fields(),
        Ok(Some(n)) => {
            let sep = pick_separator(&head.headers);
            let rest = slice_subrange(bytes, head.body_start, bytes.len());
            match read_body(rest, n, sep.as_slice()) {
                Ok(m) => m,
                Err(e) => {
                    return Err(e);
                },
            }
        },
    };
    Ok(
        ServerStream {
            request: head.request,
            headers: head.headers,
            cookies: head.cookies,
            content,
        },
    )
}

/// The line break of a response.
pub open spec fn line_break() -> Seq<char> {
    seq!['\r', '\n']
}

/// The texts of a list of string slices.
pub open spec fn strs(v: Seq<&str>) -> Seq<Seq<char>> {
    v.map_values(|s: &str| s@)
}

/// The header lines of a response, each closed by a line break.
pub open spec fn header_block(headers: Seq<Seq<char>>) -> Seq<char>
    decreases headers.len(),
{
    if headers.len() == 0 {
        Seq::empty()
    } else {
        header_block(headers.drop_last()) + headers.last() + line_break()
    }
}

/// A response: the status line, the extra header lines, the length of the
/// contents in bytes as `Content-Length`, an empty line, and the contents.
pub open spec fn response_text(
    status: Seq<char>,
    contents: Seq<char>,
    headers: Seq<Seq<char>>,
) -> Seq<char> {
    status + line_break() + header_block(headers) + "Content-Length: "@ + decimal_digits(
        encode_utf8(contents).len(),
    ) + line_break() + line_break() + contents
}

/// The three ways of being malformed that a client most often shows. A
/// request whose head is closed nowhere, one whose `Content-Length` writes
/// no number, and one whose body is shorter than declared are errors, each
/// with its own kind.
pub proof fn lemma_malformed_requests(bytes: Seq<u8>)
    ensures
        (forall|h: int| !closes_head_at(bytes, h)) ==> request_of(bytes) == Err::<
            RequestView,
            ParseError,
        >(ParseError::UnterminatedHead),
        head_of(bytes) matches Ok(head) && lookup(head.headers, "Content-Length"@) matches Some(
            value,
        ) && decimal_usize(value) is None ==> request_of(bytes) == Err::<RequestView, ParseError>(
            ParseError::InvalidLength,
        ),
        head_of(bytes) matches Ok(head) && declared_length(head.headers) matches Ok(Some(n))
            && head.body_start + n > bytes.len() ==> request_of(bytes) == Err::<
            RequestView,
            ParseError,
        >(ParseError::TruncatedBody),
{
    lemma_head_end_from(bytes, 0);
}

/// A request that is cut short inside its head is an error. Where the head
/// of `bytes` is closed at index `h`, the first `n` bytes are no request for
/// any `n` that ends before the closing line does.
pub proof fn lemma_truncated_head(bytes: Seq<u8>, n: int)
    requires
        head_end(bytes) matches Some(h) && 0 <= n < h + 2,
    ensures
        request_of(bytes.subrange(0, n)) == Err::<RequestView, ParseError>(
            ParseError::UnterminatedHead,
        ),
{
    let cut = bytes.subrange(0, n);
    lemma_head_end_from(bytes, 0);
    lemma_head_end_from(cut, 0);
    assert forall|k: int| !closes_head_at(cut, k) by {
        if closes_head_at(cut, k) {
            assert(closes_head_at(bytes, k));
        }
    }
}

impl ServerStream {
    /// The request line.
    pub fn get_request(&self) -> (r: String)
        ensures
            r@ == self@.request,
    {
        self.request.clone()
    }

    /// The header of this name.
    pub fn get_header(&self, key: &str) -> (r: Option<String>)
        ensures
            text_view(r) == lookup(self@.headers, key@),
    {
        get_text(&self.headers, key)
    }

    /// The cookie of this name.
    pub fn get_cookie(&self, key: &str) -> (r: Option<String>)
        ensures
            text_view(r) == lookup(self@.cookies, key@),
    {
        get_text(&self.cookies, key)
    }

    /// The field of the body of this name.
    pub fn get_content(&self, key: &str) -> (r: Option<String>)
        ensures
            text_view(r) == lookup(self@.content, key@),
    {
        get_text(&self.content, key)
    }

    /// The response to this request, ready to be written to its connection.
    /// The request is used up: a connection carries one response.
    pub fn write_request(self, status_line: &str, contents: &str, headers: Vec<&str>) -> (r: String)
        ensures
            r@ == response_text(status_line@, contents@, strs(headers@)),
    {
        proof {
            reveal_strlit("\r\n");
        }
        assert("\r\n"@ =~= line_break());
        let mut out = String::new();
        out.append(status_line);
        out.append("\r\n");
        let ghost start = status_line@ + line_break();
        assert(out@ =~= start);
        let ghost lines = strs(headers@);
        let mut i: usize = 0;
        assert(lines.subrange(0, 0) =~= Seq::<Seq<char>>::empty());
        while i < headers.len()
            invariant
                i <= headers.len(),
                lines == strs(headers@),
                "\r\n"@ == line_break(),
                out@ == start + header_block(lines.subrange(0, i as int)),
            decreases headers.len() - i,
        {
            let ghost next = lines.subrange(0, i + 1);
            assert(next.drop_last() =~= lines.subrange(0, i as int));
            assert(next.last() == headers@[i as int]@);
            let ghost before = out@;
            out.append(headers[i]);
            out.append("\r\n");
            assert(out@ =~= start + header_block(next)) by {
                assert(out@ == before + headers@[i as int]@ + line_break());
                assert(header_block(next) == header_block(next.drop_last()) + next.last()
                    + line_break());
            }
            i += 1;
        }
        assert(lines.subrange(0, lines.len() as int) =~= lines);
        out.append("Content-Length: ");
        let length: usize = contents.as_bytes().len();
        assert(length == encode_utf8(contents@).len());
        let digits = text_of(decimal(length as u64).as_slice());
        let ghost before = out@;
        out.append(digits.as_str());
        assert(out@ == before + decimal_digits(encode_utf8(contents@).len()));
        out.append("\r\n");
        out.append("\r\n");
        out.append(contents);
        assert(out@ =~= response_text(status_line@, contents@, lines));
        out
    }
}

} // verus!
