//! The request side of the wire codec: a request as a value, and how the
//! text of a request is read into one.
//!
//! Reading never fails. What cannot be read leaves the field it would have
//! filled at its blank value.

use crate::headers::{put, Entry, Headers};
use crate::text::{
    all_space, chars_of, contains, index_of, is_tight, is_word, lemma_index_of_is,
    lemma_single_line, lemma_trim_is_tight, lemma_trim_padded, lemma_words_after_space,
    lemma_words_first, lines, occurs_at, position, same_text, split_lines, split_words,
    str_contains, texts, trim, trim_str, words,
};
use vstd::prelude::*;
use vstd::std_specs::convert::FromSpecImpl;

verus! {

/// The method of a request.
#[derive(PartialEq, Eq, Debug, Clone, Copy, Structural)]
pub enum Method {
    Get,
    Post,
    Put,
    Patch,
    Delete,
    /// No method was read, or one that is not known.
    Uninitialized,
}

/// The method that a word names. Letter case counts.
pub open spec fn method_of(word: Seq<char>) -> Method {
    if word == "GET"@ {
        Method::Get
    } else if word == "POST"@ {
        Method::Post
    } else if word == "PUT"@ {
        Method::Put
    } else if word == "PATCH"@ {
        Method::Patch
    } else if word == "DELETE"@ {
        Method::Delete
    } else {
        Method::Uninitialized
    }
}

impl From<&str> for Method {
    fn from(s: &str) -> (m: Method) {
        if same_text(s, "GET") {
            Method::Get
        } else if same_text(s, "POST") {
            Method::Post
        } else if same_text(s, "PUT") {
            Method::Put
        } else if same_text(s, "PATCH") {
            Method::Patch
        } else if same_text(s, "DELETE") {
            Method::Delete
        } else {
            Method::Uninitialized
        }
    }
}

impl FromSpecImpl<&str> for Method {
    open spec fn obeys_from_spec() -> bool {
        true
    }

    open spec fn from_spec(s: &str) -> Method {
        method_of(s@)
    }
}

/// The protocol version of a request.
#[allow(non_camel_case_types)]
#[derive(PartialEq, Eq, Debug, Clone, Copy, Structural)]
pub enum ProtocolVersion {
    HTTP1_1,
    HTTP2,
    /// No version was read, or one that is not known.
    Uninitialized,
}

/// The protocol version that a word names.
pub open spec fn version_of(word: Seq<char>) -> ProtocolVersion {
    if word == "HTTP/1.1"@ {
        ProtocolVersion::HTTP1_1
    } else if word == "HTTP/2"@ {
        ProtocolVersion::HTTP2
    } else {
        ProtocolVersion::Uninitialized
    }
}

impl From<&str> for ProtocolVersion {
    fn from(s: &str) -> (v: ProtocolVersion) {
        if same_text(s, "HTTP/1.1") {
            ProtocolVersion::HTTP1_1
        } else if same_text(s, "HTTP/2") {
            ProtocolVersion::HTTP2
        } else {
            ProtocolVersion::Uninitialized
        }
    }
}

impl FromSpecImpl<&str> for ProtocolVersion {
    open spec fn obeys_from_spec() -> bool {
        true
    }

    open spec fn from_spec(s: &str) -> ProtocolVersion {
        version_of(s@)
    }
}

/// What a request asks for.
#[derive(Debug, PartialEq)]
pub enum Resource {
    /// A path, its segments separated by `/`.
    Path(String),
}

impl View for Resource {
    type V = Seq<char>;

    open spec fn view(&self) -> Seq<char> {
        match self {
            Resource::Path(path) => path@,
        }
    }
}

/// A request as read from the wire.
#[derive(Debug)]
pub struct Request {
    pub method: Method,
    pub protocol_version: ProtocolVersion,
    pub resource: Resource,
    pub headers: Headers,
    pub body: String,
}

/// A request as a mathematical value.
pub struct RequestView {
    pub method: Method,
    pub protocol_version: ProtocolVersion,
    pub path: Seq<char>,
    pub headers: Seq<Entry>,
    pub body: Seq<char>,
}

impl View for Request {
    type V = RequestView;

    open spec fn view(&self) -> RequestView {
        RequestView {
            method: self.method,
            protocol_version: self.protocol_version,
            path: self.resource@,
            headers: self.headers@,
            body: self.body@,
        }
    }
}

/// The request of which nothing has been read yet.
pub open spec fn blank() -> RequestView {
    RequestView {
        method: Method::Uninitialized,
        protocol_version: ProtocolVersion::Uninitialized,
        path: Seq::empty(),
        headers: Seq::empty(),
        body: Seq::empty(),
    }
}

/// Method, path and version as the first three words of a request line name
/// them; nothing if the line has fewer than three words.
pub open spec fn request_line(line: Seq<char>) -> Option<(Method, Seq<char>, ProtocolVersion)> {
    let w = words(line);
    if w.len() >= 3 {
        Some((method_of(w[0]), w[1], version_of(w[2])))
    } else {
        None
    }
}

/// Name and value of a header line. The name is what stands before the
/// first colon, the value what stands after it, both without the white space
/// around them. Without a colon the whole line is the name.
pub open spec fn header_of(line: Seq<char>) -> Entry {
    let colon = index_of(line, ':') as int;
    if colon < line.len() {
        (trim(line.take(colon)), trim(line.skip(colon + 1)))
    } else {
        (trim(line), Seq::empty())
    }
}

/// The request `r` after one more line was read.
///
/// A line that holds `HTTP` is the request line; with fewer than three
/// words it changes nothing. Any other line that holds a colon is a header,
/// stored under its name in place of an earlier value. An empty line
/// changes nothing. Any other line becomes the body.
pub open spec fn read_line(r: RequestView, line: Seq<char>) -> RequestView {
    if contains(line, "HTTP"@) {
        match request_line(line) {
            Some((method, path, protocol_version)) => RequestView {
                method,
                path,
                protocol_version,
                ..r
            },
            None => r,
        }
    } else if contains(line, ":"@) {
        RequestView { headers: put(r.headers, header_of(line).0, header_of(line).1), ..r }
    } else if line.len() == 0 {
        r
    } else {
        RequestView { body: line, ..r }
    }
}

/// The request `r` after the lines `ls` were read in order.
pub open spec fn read_lines(r: RequestView, ls: Seq<Seq<char>>) -> RequestView
    decreases ls.len(),
{
    if ls.len() == 0 {
        r
    } else {
        read_line(read_lines(r, ls.drop_last()), ls.last())
    }
}

/// The request that the text of a request stands for.
pub open spec fn parse(text: Seq<char>) -> RequestView {
    read_lines(blank(), lines(text))
}

/// A request line made of three words with one blank between them.
pub open spec fn request_line_of(method: Seq<char>, path: Seq<char>, version: Seq<char>) -> Seq<
    char,
> {
    method + seq![' '] + path + seq![' '] + version
}

/// A header line made of a name and a value, with white space around each
/// and a colon between them.
pub open spec fn header_line_of(
    before_name: Seq<char>,
    name: Seq<char>,
    after_name: Seq<char>,
    before_value: Seq<char>,
    value: Seq<char>,
    after_value: Seq<char>,
) -> Seq<char> {
    before_name + name + after_name + seq![':'] + before_value + value + after_value
}

/// Reading a request line made of three words gives the method and the
/// version that the first and the third word name, letter case counting,
/// and the second word as the path.
pub proof fn lemma_request_line_fields(method: Seq<char>, path: Seq<char>, version: Seq<char>)
    requires
        is_word(method),
        is_word(path),
        is_word(version),
    ensures
        request_line(request_line_of(method, path, version)) == Some(
            (method_of(method), path, version_of(version)),
        ),
{
    let blank = seq![' '];
    let none = Seq::<char>::empty();
    let line = request_line_of(method, path, version);
    assert(all_space(blank));
    assert(line =~= method + (blank + (path + (blank + (version + none)))));
    lemma_words_first(method, blank + (path + (blank + (version + none))));
    lemma_words_after_space(blank, path + (blank + (version + none)));
    lemma_words_first(path, blank + (version + none));
    lemma_words_after_space(blank, version + none);
    lemma_words_first(version, none);
    assert(words(none) =~= Seq::<Seq<char>>::empty());
    assert(words(line) =~= seq![method, path, version]);
}

/// A text that is one request line of three words, with `HTTP` somewhere in
/// it, is read into a request with the method, the path and the version of
/// that line, without headers and without a body.
pub proof fn lemma_parse_request_line(method: Seq<char>, path: Seq<char>, version: Seq<char>)
    requires
        is_word(method),
        is_word(path),
        is_word(version),
        contains(request_line_of(method, path, version), "HTTP"@),
    ensures
        parse(request_line_of(method, path, version)) == (RequestView {
            method: method_of(method),
            path,
            protocol_version: version_of(version),
            ..blank()
        }),
{
    let line = request_line_of(method, path, version);
    lemma_request_line_fields(method, path, version);
    assert forall|i: int| 0 <= i < line.len() implies #[trigger] line[i] != '\n' by {
        if i < method.len() {
            assert(line[i] == method[i]);
        } else if i == method.len() {
        } else if i < method.len() + 1 + path.len() {
            assert(line[i] == path[i - method.len() - 1]);
        } else if i == method.len() + 1 + path.len() {
        } else {
            assert(line[i] == version[i - method.len() - path.len() - 2]);
        }
    }
    lemma_single_line(line);
    lemma_read_single_line(line);
}

/// A text that is one line is read as that line alone.
pub proof fn lemma_read_single_line(line: Seq<char>)
    requires
        lines(line) == seq![line],
    ensures
        parse(line) == read_line(blank(), line),
{
    assert(lines(line).drop_last() =~= Seq::<Seq<char>>::empty());
    assert(read_lines(blank(), lines(line)) == read_line(
        read_lines(blank(), lines(line).drop_last()),
        line,
    ));
}

/// A text that is one line with a colon and without `HTTP` is read into a
/// request with the one header of that line and nothing else.
pub proof fn lemma_parse_header_line(line: Seq<char>)
    requires
        contains(line, ":"@),
        !contains(line, "HTTP"@),
        forall|i: int| 0 <= i < line.len() ==> #[trigger] line[i] != '\n',
    ensures
        parse(line) == (RequestView { headers: seq![header_of(line)], ..blank() }),
{
    reveal_strlit(":");
    let at = choose|i: int| occurs_at(line, ":"@, i);
    assert(occurs_at(line, ":"@, at));
    lemma_single_line(line);
    lemma_read_single_line(line);
    assert(put(Seq::<Entry>::empty(), header_of(line).0, header_of(line).1) =~= seq![
        header_of(line),
    ]);
}

/// Name and value of a header line neither start nor end with white space,
/// whatever the line.
pub proof fn lemma_header_is_tight(line: Seq<char>)
    ensures
        is_tight(header_of(line).0),
        is_tight(header_of(line).1),
{
    let colon = index_of(line, ':') as int;
    if colon < line.len() {
        lemma_trim_is_tight(line.take(colon));
        lemma_trim_is_tight(line.skip(colon + 1));
    } else {
        lemma_trim_is_tight(line);
    }
}

/// Reading a header line gives back the name and the value it was made of,
/// without the white space around them.
pub proof fn lemma_header_fields(
    before_name: Seq<char>,
    name: Seq<char>,
    after_name: Seq<char>,
    before_value: Seq<char>,
    value: Seq<char>,
    after_value: Seq<char>,
)
    requires
        all_space(before_name),
        all_space(after_name),
        all_space(before_value),
        all_space(after_value),
        is_tight(name),
        is_tight(value),
        forall|i: int| 0 <= i < name.len() ==> #[trigger] name[i] != ':',
    ensures
        header_of(
            header_line_of(before_name, name, after_name, before_value, value, after_value),
        ) == (name, value),
{
    let line = header_line_of(before_name, name, after_name, before_value, value, after_value);
    let left = before_name + name + after_name;
    let right = before_value + value + after_value;
    let n = left.len() as int;
    assert(line =~= left + seq![':'] + right);
    assert forall|i: int| 0 <= i < n implies #[trigger] line[i] != ':' by {
        if i < before_name.len() {
            assert(line[i] == before_name[i]);
        } else if i < before_name.len() + name.len() {
            assert(line[i] == name[i - before_name.len()]);
        } else {
            assert(line[i] == after_name[i - before_name.len() - name.len()]);
        }
    }
    lemma_index_of_is(line, ':', n);
    assert(line.take(n) =~= left);
    assert(line.skip(n + 1) =~= right);
    lemma_trim_padded(before_name, name, after_name);
    lemma_trim_padded(before_value, value, after_value);
}

/// Method, path and version as the first three of the words `found` name
/// them.
fn fields_of(found: &Vec<&str>) -> (r: (Method, Resource, ProtocolVersion))
    requires
        found@.len() >= 3,
    ensures
        r.0 == method_of(found@[0]@),
        r.1@ == found@[1]@,
        r.2 == version_of(found@[2]@),
{
    let method = Method::from(found[0]);
    let path = String::from_str(found[1]);
    let version = ProtocolVersion::from(found[2]);
    (method, Resource::Path(path), version)
}

/// Reads a request line, if `line` has the three words of one.
pub fn parse_req_line(line: &str) -> (r: Option<(Method, Resource, ProtocolVersion)>)
    ensures
        match r {
            Some((method, resource, version)) => request_line(line@) == Some(
                (method, resource@, version),
            ),
            None => request_line(line@).is_none(),
        },
{
    let found = split_words(line);
    assert(texts(found@).len() == found@.len());
    if found.len() >= 3 {
        assert(texts(found@)[0] == found@[0]@);
        assert(texts(found@)[1] == found@[1]@);
        assert(texts(found@)[2] == found@[2]@);
        Some(fields_of(&found))
    } else {
        None
    }
}

/// Reads a request line: method, path and version are its first three
/// words.
pub fn process_req_line(line: &str) -> (r: (Method, Resource, ProtocolVersion))
    requires
        words(line@).len() >= 3,
    ensures
        request_line(line@) == Some((r.0, r.1@, r.2)),
{
    let found = split_words(line);
    assert(texts(found@).len() == found@.len());
    assert(texts(found@)[0] == found@[0]@);
    assert(texts(found@)[1] == found@[1]@);
    assert(texts(found@)[2] == found@[2]@);
    fields_of(&found)
}

/// Reads a header line into its name and its value.
pub fn process_header(line: &str) -> (r: (String, String))
    ensures
        (r.0@, r.1@) == header_of(line@),
{
    let chars = chars_of(line);
    let n = chars.len();
    let colon = position(chars.as_slice(), ':');
    if colon < n {
        let before = line.substring_char(0, colon);
        let after = line.substring_char(colon + 1, n);
        assert(before@ =~= line@.take(colon as int));
        assert(after@ =~= line@.skip(colon + 1));
        (String::from_str(trim_str(before)), String::from_str(trim_str(after)))
    } else {
        (String::from_str(trim_str(line)), String::new())
    }
}

impl Request {
    /// Reads one more line into the request.
    pub fn read_line(&mut self, line: &str)
        ensures
            final(self)@ == read_line(old(self)@, line@),
    {
        if str_contains(line, "HTTP") {
            match parse_req_line(line) {
                Some((method, resource, version)) => {
                    self.method = method;
                    self.resource = resource;
                    self.protocol_version = version;
                },
                None => {},
            }
        } else if str_contains(line, ":") {
            let (key, value) = process_header(line);
            self.headers.insert(key, value);
        } else if line.unicode_len() == 0 {
        } else {
            self.body = String::from_str(line);
        }
    }
}

impl From<String> for Request {
    /// Reads the text of a request, line by line.
    fn from(req_str: String) -> (r: Request)
        ensures
            r@ == parse(req_str@),
    {
        let found = split_lines(req_str.as_str());
        let mut request = Request {
            method: Method::Uninitialized,
            protocol_version: ProtocolVersion::Uninitialized,
            resource: Resource::Path(String::new()),
            headers: Headers::new(),
            body: String::new(),
        };
        let mut i: usize = 0;
        assert(texts(found@).take(0) =~= Seq::<Seq<char>>::empty());
        while i < found.len()
            invariant
                i <= found@.len(),
                texts(found@) == lines(req_str@),
                request@ == read_lines(blank(), texts(found@).take(i as int)),
            decreases found@.len() - i,
        {
            request.read_line(found[i]);
            proof {
                let now = texts(found@).take(i + 1);
                assert(now.drop_last() =~= texts(found@).take(i as int));
                assert(now.last() == found@[i as int]@);
            }
            i += 1;
        }
        assert(texts(found@).take(i as int) =~= texts(found@));
        request
    }
}

impl FromSpecImpl<String> for Request {
    open spec fn obeys_from_spec() -> bool {
        false
    }

    open spec fn from_spec(req_str: String) -> Request {
        arbitrary()
    }
}

} // verus!
