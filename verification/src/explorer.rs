//! The explorer, which shows the store in a browser: what it reads in requests and what it answers.
use vstd::prelude::*;

use crate::error::{agrees, Error, Failure};
use crate::form::{decode_form, form_text};
use crate::model::{optional, texts, MemoryMode};
use crate::text::{
    chars_of, decimal, decimal_text, is_white_space, joined, parse_usize, same_text, split_once,
    split_text, text_of, trim_start, usize_of, white_space,
};

verus! {

/// The size that the lines of a request must not exceed together, in bytes.
pub const MAX_REQUEST_BYTES: usize = 16_384;

/// How many characters that are no white space `s` starts with.
pub open spec fn word_length(s: Seq<char>) -> int
    decreases s.len(),
{
    if s.len() > 0 && !is_white_space(s[0]) {
        1 + word_length(s.drop_first())
    } else {
        0
    }
}

/// The first word of `s` and what follows it.
pub open spec fn first_word(s: Seq<char>) -> Option<(Seq<char>, Seq<char>)> {
    let s = trim_start(s);
    if s.len() == 0 {
        None
    } else {
        Some((s.take(word_length(s)), s.skip(word_length(s))))
    }
}

/// The method and the target of a request line.
pub open spec fn request_line(line: Seq<char>) -> Result<
    (Seq<char>, Seq<char>),
    Failure<Seq<char>>,
> {
    match first_word(line) {
        None => Err(Failure::HttpMethodMissing),
        Some((method, rest)) => match first_word(rest) {
            None => Err(Failure::HttpTargetMissing),
            Some((target, _)) => Ok((method, target)),
        },
    }
}

/// Where the first word from `from` on starts and ends.
fn find_word(chars: &Vec<char>, from: usize) -> (r: Option<(usize, usize)>)
    requires
        from <= chars@.len(),
    ensures
        match r {
            Some((start, end)) => from <= start <= end <= chars@.len() && first_word(
                chars@.skip(from as int),
            ) == Some((chars@.subrange(start as int, end as int), chars@.skip(end as int))),
            None => first_word(chars@.skip(from as int)) is None,
        },
{
    let mut start: usize = from;
    while start < chars.len() && white_space(chars[start])
        invariant
            from <= start <= chars@.len(),
            trim_start(chars@.skip(from as int)) == trim_start(chars@.skip(start as int)),
        decreases chars@.len() - start,
    {
        proof {
            assert(chars@.skip(start as int)[0] == chars@[start as int]);
            assert(chars@.skip(start as int).drop_first() =~= chars@.skip(start + 1));
        }
        start = start + 1;
    }
    let ghost word = chars@.skip(start as int);
    if start == chars.len() {
        proof {
            assert(word =~= Seq::empty());
        }
        return None;
    }
    proof {
        assert(word[0] == chars@[start as int]);
        assert(trim_start(word) == word);
    }
    let mut end: usize = start;
    while end < chars.len() && !white_space(chars[end])
        invariant
            start <= end <= chars@.len(),
            word_length(chars@.skip(start as int)) == end - start + word_length(
                chars@.skip(end as int),
            ),
        decreases chars@.len() - end,
    {
        proof {
            assert(chars@.skip(end as int)[0] == chars@[end as int]);
            assert(chars@.skip(end as int).drop_first() =~= chars@.skip(end + 1));
        }
        end = end + 1;
    }
    proof {
        if end < chars@.len() {
            assert(chars@.skip(end as int)[0] == chars@[end as int]);
        }
        assert(word_length(chars@.skip(end as int)) == 0);
        assert(word.take(end - start) =~= chars@.subrange(start as int, end as int));
        assert(word.skip(end - start) =~= chars@.skip(end as int));
    }
    Some((start, end))
}

/// A request that is being read: its method and target, and the bytes read so far.
#[derive(Debug)]
pub struct Reading {
    pub method: String,
    pub target: String,
    pub total: usize,
}

/// The method and the target of a request whose first line has `read` bytes.
pub open spec fn head_start(read: usize, line: Seq<char>) -> Result<
    (Seq<char>, Seq<char>),
    Failure<Seq<char>>,
> {
    if read == 0 {
        Err(Failure::EmptyRequest)
    } else {
        request_line(line)
    }
}

/// Starts to read a request by its first line, of `read` bytes.
pub fn start_reading(read: usize, line: &str) -> (r: Result<Reading, Error>)
    ensures
        match head_start(read, line@) {
            Ok(parts) => r matches Ok(reading) && (reading.method@, reading.target@) == parts
                && reading.total == read,
            Err(failure) => r matches Err(error) && error@ == failure,
        },
{
    if read == 0 {
        return Err(Failure::EmptyRequest);
    }
    let chars = chars_of(line);
    proof {
        assert(chars@.skip(0) =~= line@);
    }
    match find_word(&chars, 0) {
        None => Err(Failure::HttpMethodMissing),
        Some((start, end)) => {
            let method = text_of(&chars, start, end);
            match find_word(&chars, end) {
                None => Err(Failure::HttpTargetMissing),
                Some((start, end)) => Ok(
                    Reading { method, target: text_of(&chars, start, end), total: read },
                ),
            }
        },
    }
}

/// Whether a line of `read` bytes is the last of a request: the end of what was sent, or empty.
pub open spec fn ends_request(read: usize, line: Seq<char>) -> bool {
    read == 0 || line == "\r\n"@ || line == "\n"@
}

/// Whether one more line, of `read` bytes, is the last of a request whose lines have `total` bytes
/// so far. A request that grows too large is refused.
pub open spec fn line_taken(total: int, read: usize, line: Seq<char>) -> Result<
    bool,
    Failure<Seq<char>>,
> {
    if total + read > MAX_REQUEST_BYTES {
        Err(Failure::HeadersTooLarge)
    } else {
        Ok(ends_request(read, line))
    }
}

/// What lines say after the first lines of a request, which have `total` bytes: that it is
/// complete, or that it is refused. Where they say neither, more are to come.
pub open spec fn lines_taken(total: int, lines: Seq<(usize, Seq<char>)>) -> Option<
    Result<(), Failure<Seq<char>>>,
>
    decreases lines.len(),
{
    if lines.len() == 0 {
        None
    } else {
        match line_taken(total, lines[0].0, lines[0].1) {
            Err(failure) => Some(Err(failure)),
            Ok(true) => Some(Ok(())),
            Ok(false) => lines_taken(total + lines[0].0, lines.drop_first()),
        }
    }
}

/// What comes of the head of a request, read line by line, each with its bytes: its method and
/// target, or a refusal. Where neither is settled, more lines are to come.
pub open spec fn head_read(lines: Seq<(usize, Seq<char>)>) -> Option<
    Result<(Seq<char>, Seq<char>), Failure<Seq<char>>>,
> {
    if lines.len() == 0 {
        None
    } else {
        match head_start(lines[0].0, lines[0].1) {
            Err(failure) => Some(Err(failure)),
            Ok(parts) => match lines_taken(lines[0].0 as int, lines.drop_first()) {
                None => None,
                Some(Err(failure)) => Some(Err(failure)),
                Some(Ok(())) => Some(Ok(parts)),
            },
        }
    }
}

/// How many bytes lines have together.
pub open spec fn bytes_of(lines: Seq<(usize, Seq<char>)>) -> nat
    decreases lines.len(),
{
    if lines.len() == 0 {
        0
    } else {
        lines[0].0 as nat + bytes_of(lines.drop_first())
    }
}

proof fn lemma_lines_taken(total: int, lines: Seq<(usize, Seq<char>)>, end: int)
    requires
        0 <= end < lines.len(),
        ends_request(lines[end].0, lines[end].1),
        forall|i: int| 0 <= i < end ==> !ends_request((#[trigger] lines[i]).0, lines[i].1),
    ensures
        lines_taken(total, lines) == Some(
            if total + bytes_of(lines.take(end + 1)) > MAX_REQUEST_BYTES {
                Err::<(), Failure<Seq<char>>>(Failure::HeadersTooLarge)
            } else {
                Ok(())
            },
        ),
    decreases lines.len(),
{
    let head = lines.take(end + 1);
    let rest = lines.drop_first();
    assert(head[0] == lines[0]);
    assert(head.drop_first() =~= rest.take(end));
    if end > 0 {
        assert(!ends_request(lines[0].0, lines[0].1));
        assert(rest[end - 1] == lines[end]);
        assert forall|i: int| 0 <= i < end - 1 implies !ends_request(
            (#[trigger] rest[i]).0,
            rest[i].1,
        ) by {
            assert(rest[i] == lines[i + 1]);
        }
        lemma_lines_taken(total + lines[0].0, rest, end - 1);
    }
}

/// A head is refused exactly where nothing was sent, where its first line lacks a method or a
/// target, or where its lines have too many bytes, up to and with the first after the request line
/// that is empty or the end of what was sent. Any other head is read: its method and target are
/// those of the first line.
pub proof fn law_heads_are_read_or_refused(lines: Seq<(usize, Seq<char>)>, end: int)
    requires
        1 <= end < lines.len(),
        ends_request(lines[end].0, lines[end].1),
        forall|i: int| 1 <= i < end ==> !ends_request((#[trigger] lines[i]).0, lines[i].1),
    ensures
        head_read(lines) == Some(
            if lines[0].0 == 0 {
                Err::<(Seq<char>, Seq<char>), Failure<Seq<char>>>(Failure::EmptyRequest)
            } else if request_line(lines[0].1) is Err {
                request_line(lines[0].1)
            } else if bytes_of(lines.take(end + 1)) > MAX_REQUEST_BYTES {
                Err(Failure::HeadersTooLarge)
            } else {
                request_line(lines[0].1)
            },
        ),
{
    let head = lines.take(end + 1);
    let rest = lines.drop_first();
    assert(head[0] == lines[0]);
    assert(head.drop_first() =~= rest.take(end));
    assert(rest[end - 1] == lines[end]);
    assert forall|i: int| 0 <= i < end - 1 implies !ends_request(
        (#[trigger] rest[i]).0,
        rest[i].1,
    ) by {
        assert(rest[i] == lines[i + 1]);
    }
    lemma_lines_taken(lines[0].0 as int, rest, end - 1);
}

impl Reading {
    /// Reads one more line, of `read` bytes, and says whether it was the last. A request that grows
    /// too large is refused.
    pub fn next_line(&mut self, read: usize, line: &str) -> (r: Result<bool, Error>)
        ensures
            agrees(r, line_taken(old(self).total as int, read, line@)),
            final(self).total == if r is Ok {
                old(self).total + read
            } else {
                old(self).total as int
            },
            final(self).method == old(self).method,
            final(self).target == old(self).target,
    {
        if read > MAX_REQUEST_BYTES || self.total > MAX_REQUEST_BYTES - read {
            return Err(Failure::HeadersTooLarge);
        }
        self.total = self.total + read;
        Ok(read == 0 || same_text(line, "\r\n") || same_text(line, "\n"))
    }

    /// The request, once it has been read.
    pub fn finish(self) -> (r: Request)
        ensures
            r.method@ == self.method@,
            (r.path@, pairs(r.query@)) == target_parts(self.target@),
    {
        let (path, query) = parse_target(&self.target);
        Request { method: self.method, path, query }
    }
}

/// A request: its method, and the path and the query of its target. The query is a list of names
/// and values.
#[derive(Debug)]
pub struct Request {
    pub method: String,
    pub path: String,
    pub query: Vec<(String, String)>,
}

/// What a list of names and values says.
pub open spec fn pairs(list: Seq<(String, String)>) -> Seq<(Seq<char>, Seq<char>)> {
    list.map_values(|pair: (String, String)| (pair.0@, pair.1@))
}

/// The name and the value that a piece of a query writes, unless it is empty.
pub open spec fn piece_pair(piece: Seq<char>) -> Seq<(Seq<char>, Seq<char>)> {
    if piece.len() == 0 {
        Seq::empty()
    } else {
        match split_once(piece, "="@) {
            Some((name, value)) => seq![(form_text(name), form_text(value))],
            None => seq![(form_text(piece), form_text(""@))],
        }
    }
}

/// The names and values that a query writes, in order.
pub open spec fn query_pairs(query: Seq<char>) -> Seq<(Seq<char>, Seq<char>)>
    decreases query.len(),
{
    match split_once(query, "&"@) {
        Some((piece, rest)) => if rest.len() < query.len() {
            piece_pair(piece) + query_pairs(rest)
        } else {
            Seq::empty()
        },
        None => piece_pair(query),
    }
}

/// The path of a target, and the names and values of its query.
pub open spec fn target_parts(target: Seq<char>) -> (Seq<char>, Seq<(Seq<char>, Seq<char>)>) {
    match split_once(target, "?"@) {
        Some((path, query)) => (path, query_pairs(query)),
        None => (target, Seq::empty()),
    }
}

/// Appends the name and the value that a piece of a query writes.
fn push_piece(out: &mut Vec<(String, String)>, piece: &str)
    ensures
        pairs(final(out)@) == pairs(old(out)@) + piece_pair(piece@),
{
    let ghost before = out@;
    if piece.is_empty() {
        proof {
            assert(pairs(before) + Seq::<(Seq<char>, Seq<char>)>::empty() =~= pairs(before));
        }
        return;
    }
    let (name, value) = match split_text(piece, "=") {
        Some((name, value)) => (decode_form(&name), decode_form(&value)),
        None => (decode_form(piece), decode_form("")),
    };
    out.push((name, value));
    proof {
        assert(pairs(out@) =~= pairs(before) + seq![(name@, value@)]);
    }
}

proof fn lemma_rest_is_shorter(text: Seq<char>, separator: Seq<char>)
    requires
        separator.len() > 0,
    ensures
        split_once(text, separator) matches Some((_, rest)) ==> rest.len() < text.len(),
{
    crate::text::lemma_find_from(text, separator, 0);
}

/// The path of a target, and the names and values of its query.
pub fn parse_target(target: &str) -> (r: (String, Vec<(String, String)>))
    ensures
        (r.0@, pairs(r.1@)) == target_parts(target@),
{
    let mut out: Vec<(String, String)> = Vec::new();
    proof {
        assert(pairs(out@) =~= Seq::empty());
    }
    let (path, query) = match split_text(target, "?") {
        Some(parts) => parts,
        None => return (target.to_owned(), out),
    };
    let mut rest = query;
    proof {
        assert(pairs(out@) + query_pairs(rest@) =~= query_pairs(rest@));
        reveal_strlit("&");
    }
    loop
        invariant_except_break
            pairs(out@) + query_pairs(rest@) == query_pairs(query@),
        invariant
            "&"@.len() == 1,
        ensures
            pairs(out@) == query_pairs(query@),
        decreases rest@.len(),
    {
        let ghost before = out@;
        proof {
            lemma_rest_is_shorter(rest@, "&"@);
        }
        match split_text(&rest, "&") {
            Some((piece, tail)) => {
                push_piece(&mut out, &piece);
                proof {
                    assert(pairs(before) + (piece_pair(piece@) + query_pairs(tail@)) =~= pairs(out@)
                        + query_pairs(tail@));
                }
                rest = tail;
            },
            None => {
                push_piece(&mut out, &rest);
                break;
            },
        }
    }
    (path, out)
}

/// The values of a name, in order.
pub open spec fn values_of(query: Seq<(Seq<char>, Seq<char>)>, name: Seq<char>) -> Seq<Seq<char>>
    decreases query.len(),
{
    if query.len() == 0 {
        Seq::empty()
    } else {
        let front = values_of(query.drop_last(), name);
        if query.last().0 == name {
            front.push(query.last().1)
        } else {
            front
        }
    }
}

/// The first value of a name.
pub open spec fn first_value(query: Seq<(Seq<char>, Seq<char>)>, name: Seq<char>) -> Option<
    Seq<char>,
> {
    let values = values_of(query, name);
    if values.len() == 0 {
        None
    } else {
        Some(values[0])
    }
}

/// The values of a name, in order.
pub fn query_values(query: &Vec<(String, String)>, name: &str) -> (r: Vec<String>)
    ensures
        texts(r@) == values_of(pairs(query@), name@),
{
    let mut out: Vec<String> = Vec::new();
    let mut i: usize = 0;
    proof {
        assert(pairs(query@).take(0) =~= Seq::empty());
        assert(texts(out@) =~= Seq::empty());
    }
    while i < query.len()
        invariant
            i <= query@.len(),
            texts(out@) == values_of(pairs(query@).take(i as int), name@),
        decreases query@.len() - i,
    {
        let ghost before = out@;
        proof {
            assert(pairs(query@).take(i + 1).drop_last() =~= pairs(query@).take(i as int));
            assert(pairs(query@).take(i + 1).last() == (query@[i as int].0@, query@[i as int].1@));
        }
        if same_text(&query[i].0, name) {
            out.push(query[i].1.clone());
            proof {
                assert(texts(out@) =~= texts(before).push(query@[i as int].1@));
            }
        }
        i = i + 1;
    }
    proof {
        assert(pairs(query@).take(i as int) =~= pairs(query@));
    }
    out
}

/// The first value of a name.
pub fn query_value(query: &Vec<(String, String)>, name: &str) -> (r: Option<String>)
    ensures
        optional(r) == first_value(pairs(query@), name@),
{
    let values = query_values(query, name);
    proof {
        assert(texts(values@).len() == values@.len());
    }
    if values.len() == 0 {
        None
    } else {
        proof {
            assert(texts(values@)[0] == values@[0]@);
        }
        Some(values[0].clone())
    }
}

/// Where a request leads.
#[derive(Debug, Clone, Copy, PartialEq, Eq, Structural)]
pub enum Route {
    Index,
    Memories,
    Tags,
    Events,
    NotFound,
    MethodNotAllowed,
}

/// Where a request leads, by its method and path.
pub open spec fn route_of(method: Seq<char>, path: Seq<char>) -> Route {
    if method != "GET"@ {
        Route::MethodNotAllowed
    } else if path == "/"@ || path == "/index.html"@ {
        Route::Index
    } else if path == "/api/memories"@ {
        Route::Memories
    } else if path == "/api/tags"@ {
        Route::Tags
    } else if path == "/api/events"@ {
        Route::Events
    } else {
        Route::NotFound
    }
}

/// Where a request leads.
pub fn route(request: &Request) -> (r: Route)
    ensures
        r == route_of(request.method@, request.path@),
{
    let path = request.path.as_str();
    if !same_text(&request.method, "GET") {
        Route::MethodNotAllowed
    } else if same_text(path, "/") || same_text(path, "/index.html") {
        Route::Index
    } else if same_text(path, "/api/memories") {
        Route::Memories
    } else if same_text(path, "/api/tags") {
        Route::Tags
    } else if same_text(path, "/api/events") {
        Route::Events
    } else {
        Route::NotFound
    }
}

/// The status, the content type and the body of the answer to a request that leads nowhere.
pub fn plain_answer(route: Route) -> (r: Option<(u16, &'static str, &'static str)>)
    ensures
        match route {
            Route::NotFound => r matches Some((status, content_type, body)) && status == 404
                && content_type@ == "text/plain; charset=utf-8"@ && body@ == "not found"@,
            Route::MethodNotAllowed => r matches Some((status, content_type, body)) && status == 405
                && content_type@ == "text/plain; charset=utf-8"@ && body@ == "method not allowed"@,
            _ => r is None,
        },
{
    match route {
        Route::NotFound => Some((404, "text/plain; charset=utf-8", "not found")),
        Route::MethodNotAllowed => Some(
            (405, "text/plain; charset=utf-8", "method not allowed"),
        ),
        _ => None,
    }
}

/// The status of the answer to a request that was read, by where it leads, or of one that was not.
pub fn status_of(route: Option<Route>) -> (r: u16)
    ensures
        r == match route {
            None => 400u16,
            Some(Route::MethodNotAllowed) => 405u16,
            Some(Route::NotFound) => 404u16,
            Some(_) => 200u16,
        },
{
    match route {
        None => 400,
        Some(Route::MethodNotAllowed) => 405,
        Some(Route::NotFound) => 404,
        Some(_) => 200,
    }
}

/// What a page of memories is made of: a text and tags to look for, a mode, how many memories and
/// from which on.
#[derive(Debug)]
pub struct BrowseOptions {
    pub text: Option<String>,
    pub tags: Vec<String>,
    pub mode: Option<MemoryMode>,
    pub limit: usize,
    pub offset: usize,
}

/// The number that the first value of a name writes, else `otherwise`.
pub open spec fn number_value(
    query: Seq<(Seq<char>, Seq<char>)>,
    name: Seq<char>,
    otherwise: usize,
) -> usize {
    match first_value(query, name) {
        Some(value) => match usize_of(value) {
            Some(number) => number,
            None => otherwise,
        },
        None => otherwise,
    }
}

/// The mode that the first value of `mode` names, if it names one.
pub open spec fn mode_value(query: Seq<(Seq<char>, Seq<char>)>) -> Option<MemoryMode> {
    match first_value(query, "mode"@) {
        Some(value) => MemoryMode::named(value),
        None => None,
    }
}

fn query_number(query: &Vec<(String, String)>, name: &str, otherwise: usize) -> (r: usize)
    ensures
        r == number_value(pairs(query@), name@, otherwise),
{
    match query_value(query, name) {
        Some(value) => match parse_usize(&value) {
            Some(number) => number,
            None => otherwise,
        },
        None => otherwise,
    }
}

/// What a query asks for: a hundred memories from the first on unless said otherwise. A number or
/// a mode that cannot be read counts as not given.
pub fn browse_options(query: &Vec<(String, String)>) -> (r: BrowseOptions)
    ensures
        optional(r.text) == first_value(pairs(query@), "text"@),
        texts(r.tags@) == values_of(pairs(query@), "tag"@),
        r.mode == mode_value(pairs(query@)),
        r.limit == number_value(pairs(query@), "limit"@, 100),
        r.offset == number_value(pairs(query@), "offset"@, 0),
{
    let mode = match query_value(query, "mode") {
        Some(value) => match MemoryMode::from_str(&value) {
            Ok(mode) => Some(mode),
            Err(_) => None,
        },
        None => None,
    };
    BrowseOptions {
        text: query_value(query, "text"),
        tags: query_values(query, "tag"),
        mode,
        limit: query_number(query, "limit", 100),
        offset: query_number(query, "offset", 0),
    }
}

/// The words that go with a status.
pub open spec fn reason_of(status: u16) -> Seq<char> {
    if status == 400 {
        "Bad Request"@
    } else if status == 404 {
        "Not Found"@
    } else if status == 405 {
        "Method Not Allowed"@
    } else {
        "OK"@
    }
}

/// The head of a response with a body of `length` bytes.
pub open spec fn response_head(status: u16, content_type: Seq<char>, length: u64) -> Seq<char> {
    "HTTP/1.1 "@ + decimal(status as nat) + " "@ + reason_of(status) + "\r\nContent-Type: "@
        + content_type + "\r\nContent-Length: "@ + decimal(length as nat)
        + "\r\nCache-Control: no-store\r\nConnection: close\r\n\r\n"@
}

fn reason(status: u16) -> (r: &'static str)
    ensures
        r@ == reason_of(status),
{
    if status == 400 {
        "Bad Request"
    } else if status == 404 {
        "Not Found"
    } else if status == 405 {
        "Method Not Allowed"
    } else {
        "OK"
    }
}

/// The head of a response with a body of `length` bytes.
pub fn write_head(status: u16, content_type: &str, length: u64) -> (r: String)
    ensures
        r@ == response_head(status, content_type@, length),
{
    let start = joined("HTTP/1.1 ", &decimal_text(status as u64));
    let start = joined(&joined(&start, " "), reason(status));
    let start = joined(&joined(&start, "\r\nContent-Type: "), content_type);
    let start = joined(&joined(&start, "\r\nContent-Length: "), &decimal_text(length));
    joined(&start, "\r\nCache-Control: no-store\r\nConnection: close\r\n\r\n")
}

/// The head of a stream of events.
pub fn events_head() -> (r: &'static str)
    ensures
        r@
            == "HTTP/1.1 200 OK\r\nContent-Type: text/event-stream\r\nCache-Control: no-cache\r\nConnection: keep-alive\r\nX-Accel-Buffering: no\r\n\r\n"@,
{
    "HTTP/1.1 200 OK\r\nContent-Type: text/event-stream\r\nCache-Control: no-cache\r\nConnection: keep-alive\r\nX-Accel-Buffering: no\r\n\r\n"
}

/// The first event of a stream.
pub fn ready_event() -> (r: &'static str)
    ensures
        r@ == "event: ready\ndata: {}\n\n"@,
{
    "event: ready\ndata: {}\n\n"
}

/// What is sent after the store has been looked at again: nothing where that failed, the new
/// signature where it differs from the one that is known, else a sign of life.
pub open spec fn event_text(known: Option<Seq<char>>, current: Option<Seq<char>>) -> Option<
    Seq<char>,
> {
    match current {
        None => None,
        Some(signature) => if known == Some(signature) {
            Some(": keep-alive\n\n"@)
        } else {
            Some(update_event(signature))
        },
    }
}

/// The signature that is known after another look: what was seen, unless the look failed.
pub open spec fn known_after(known: Option<Seq<char>>, current: Option<Seq<char>>) -> Option<
    Seq<char>,
> {
    if current is Some {
        current
    } else {
        known
    }
}

/// What is sent after the store has been looked at again. `known` becomes what is known from then
/// on.
pub fn next_event(known: &mut Option<String>, current: Option<String>) -> (r: Option<String>)
    ensures
        optional(r) == event_text(optional(*old(known)), optional(current)),
        optional(*final(known)) == known_after(optional(*old(known)), optional(current)),
{
    let signature = match current {
        None => return None,
        Some(signature) => signature,
    };
    let same = match &*known {
        Some(known) => same_text(known, &signature),
        None => false,
    };
    let event = if same {
        ": keep-alive\n\n".to_owned()
    } else {
        joined(&joined("event: update\ndata: ", &signature), "\n\n")
    };
    *known = Some(signature);
    Some(event)
}

/// The signature that is known after the store has been looked at several times.
pub open spec fn last_known(known: Option<Seq<char>>, looks: Seq<Option<Seq<char>>>) -> Option<
    Seq<char>,
>
    decreases looks.len(),
{
    if looks.len() == 0 {
        known
    } else {
        known_after(last_known(known, looks.drop_last()), looks.last())
    }
}

/// What is sent after each look at the store.
pub open spec fn events(known: Option<Seq<char>>, looks: Seq<Option<Seq<char>>>) -> Seq<
    Option<Seq<char>>,
>
    decreases looks.len(),
{
    if looks.len() == 0 {
        Seq::empty()
    } else {
        let front = looks.drop_last();
        events(known, front).push(event_text(last_known(known, front), looks.last()))
    }
}

/// The event that tells of a signature.
pub open spec fn update_event(signature: Seq<char>) -> Seq<char> {
    "event: update\ndata: "@ + signature + "\n\n"@
}

proof fn lemma_event(known: Option<Seq<char>>, current: Option<Seq<char>>)
    ensures
        event_text(known, current) is None <==> current is None,
        forall|signature: Seq<char>|
            event_text(known, current) == Some(#[trigger] update_event(signature)) <==> current
                == Some(signature) && known != current,
        event_text(known, current) == Some(": keep-alive\n\n"@) <==> current is Some && known
            == current,
{
    reveal_strlit("event: update\ndata: ");
    reveal_strlit("\n\n");
    reveal_strlit(": keep-alive\n\n");
    assert(": keep-alive\n\n"@[0] == ':');
    assert forall|signature: Seq<char>|
        event_text(known, current) == Some(#[trigger] update_event(signature)) <==> current == Some(
            signature,
        ) && known != current by {
        let start = "event: update\ndata: "@.len() as int;
        assert(update_event(signature)[0] == 'e');
        assert(update_event(signature).subrange(start, start + signature.len()) =~= signature);
        if let Some(own) = current {
            assert(update_event(own).subrange(start, start + own.len()) =~= own);
            assert(update_event(own).len() == start + own.len() + 2);
            assert(update_event(signature).len() == start + signature.len() + 2);
        }
    }
    if let Some(own) = current {
        assert(update_event(own)[0] == 'e');
    }
}

proof fn lemma_events(known: Option<Seq<char>>, looks: Seq<Option<Seq<char>>>, at: int)
    requires
        0 <= at < looks.len(),
    ensures
        events(known, looks).len() == looks.len(),
        events(known, looks)[at] == event_text(last_known(known, looks.take(at)), looks[at]),
    decreases looks.len(),
{
    let front = looks.drop_last();
    if front.len() > 0 {
        lemma_events(known, front, if at < front.len() {
            at
        } else {
            0
        });
    }
    assert(events(known, front).len() == front.len());
    if at < front.len() {
        assert(front.take(at) =~= looks.take(at));
        assert(front[at] == looks[at]);
    } else {
        assert(front =~= looks.take(at));
    }
}

/// However often the store is looked at, each change of its signature is told once, by an update
/// with the new signature; a look that shows no change gives a sign of life, and one that failed
/// gives nothing. Looks that failed are passed over: a change is one from what the last look saw
/// that did not fail.
pub proof fn law_updates_follow_changes(
    known: Option<Seq<char>>,
    looks: Seq<Option<Seq<char>>>,
    at: int,
)
    requires
        0 <= at < looks.len(),
    ensures
        events(known, looks).len() == looks.len(),
        ({
            let event = events(known, looks)[at];
            let before = last_known(known, looks.take(at));
            &&& event is None <==> looks[at] is None
            &&& forall|signature: Seq<char>|
                event == Some(#[trigger] update_event(signature)) <==> looks[at] == Some(signature)
                    && before != looks[at]
            &&& event == Some(": keep-alive\n\n"@) <==> looks[at] is Some && before == looks[at]
        }),
{
    lemma_events(known, looks, at);
    lemma_event(last_known(known, looks.take(at)), looks[at]);
}

/// What is known is what the last look saw that did not fail.
pub proof fn law_last_look_is_known(
    known: Option<Seq<char>>,
    looks: Seq<Option<Seq<char>>>,
    at: int,
)
    requires
        0 <= at < looks.len(),
        looks[at] is Some,
        forall|i: int| at < i < looks.len() ==> #[trigger] looks[i] is None,
    ensures
        last_known(known, looks) == looks[at],
    decreases looks.len(),
{
    let front = looks.drop_last();
    if at < front.len() {
        assert(looks[looks.len() - 1] is None);
        assert(front[at] == looks[at]);
        assert forall|i: int| at < i < front.len() implies #[trigger] front[i] is None by {
            assert(front[i] == looks[i]);
        }
        law_last_look_is_known(known, front, at);
    }
}

} // verus!
