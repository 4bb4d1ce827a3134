//! The handlers, as decisions.
//!
//! A handler never touches a file itself. It says which file it needs, and
//! is asked again once the caller has tried to load it: each answer is a
//! `Step`, either the response to send or the next file to load.

use crate::headers::{Entry, Headers};
use crate::request::{Request, RequestView, Resource};
use crate::response::{response_of, Response, ResponseView};
use crate::text::{
    chars_of, ends_with, index_of, option_text, position, same_text, str_ends_with,
};
use vstd::prelude::*;
use vstd::slice::slice_subrange;

verus! {

/// What a file that is being loaded is for.
#[derive(Debug)]
pub enum Pending {
    /// A page that is sent whether or not it could be loaded.
    Page,
    /// The file of the given name, asked for by a request.
    Asset(String),
    /// The page that says that nothing was found.
    Missing,
}

/// `Pending` as a mathematical value.
pub enum PendingView {
    Page,
    Asset(Seq<char>),
    Missing,
}

impl View for Pending {
    type V = PendingView;

    open spec fn view(&self) -> PendingView {
        match self {
            Pending::Page => PendingView::Page,
            Pending::Asset(name) => PendingView::Asset(name@),
            Pending::Missing => PendingView::Missing,
        }
    }
}

/// What is to be done next for a request.
#[derive(Debug)]
pub enum Step {
    /// Send this response: the request is done.
    Reply(Response<'static>),
    /// Wait for `pause` seconds, load `file` below the root of the public
    /// files, and ask again with what was loaded.
    Load { file: String, pause: u64, pending: Pending },
}

/// `Step` as a mathematical value.
pub enum StepView {
    Reply(ResponseView),
    Load { file: Seq<char>, pause: nat, pending: PendingView },
}

impl View for Step {
    type V = StepView;

    open spec fn view(&self) -> StepView {
        match self {
            Step::Reply(response) => StepView::Reply(response@),
            Step::Load { file, pause, pending } => StepView::Load {
                file: file@,
                pause: *pause as nat,
                pending: pending@,
            },
        }
    }
}

/// The segment of `path` between its first and its second `/`, the second
/// being the end of the path if there is none; nothing if the path holds no
/// `/`.
pub open spec fn segment(path: Seq<char>) -> Option<Seq<char>> {
    let slash = index_of(path, '/') as int;
    if slash < path.len() {
        let rest = path.skip(slash + 1);
        Some(rest.take(index_of(rest, '/') as int))
    } else {
        None
    }
}

/// The one header that gives the content type.
pub open spec fn content_type(value: Seq<char>) -> Seq<Entry> {
    seq![("Content-Type"@, value)]
}

/// The content type of a file, by the end of its name.
pub open spec fn content_type_of(file: Seq<char>) -> Seq<char> {
    if ends_with(file, ".css"@) {
        "text/css"@
    } else if ends_with(file, ".js"@) {
        "text/javascript"@
    } else if ends_with(file, ".html"@) {
        "text/html"@
    } else {
        "text/plain"@
    }
}

/// The body of every answer of the API.
pub open spec fn api_body() -> Seq<char> {
    "{\"errno\":0,\"msg\":\"success\", \"data\": null}"@
}

/// The answer of the API.
pub open spec fn api_reply() -> StepView {
    StepView::Reply(response_of("200"@, Some(content_type("application/json"@)), Some(api_body())))
}

/// The first step towards saying that nothing was found: load the page
/// that says so.
pub open spec fn not_found_start() -> StepView {
    StepView::Load { file: "404.html"@, pause: 0, pending: PendingView::Missing }
}

/// The first step for a file below the root of the public files.
///
/// Without a segment nothing is found. The empty segment and `index.html`
/// load the index page, `sleep.html` loads that page after five seconds, and
/// any other segment is the name of the file to load.
pub open spec fn static_start(path: Seq<char>) -> StepView {
    match segment(path) {
        None => not_found_start(),
        Some(name) => if name.len() == 0 || name == "index.html"@ {
            StepView::Load { file: "index.html"@, pause: 0, pending: PendingView::Page }
        } else if name == "sleep.html"@ {
            StepView::Load { file: "sleep.html"@, pause: 5, pending: PendingView::Page }
        } else {
            StepView::Load { file: name, pause: 0, pending: PendingView::Asset(name) }
        },
    }
}

/// The step after a file was loaded, or could not be.
///
/// A page is sent as HTML with whatever was loaded. A file that was asked
/// for is sent with the content type of its name; if it could not be loaded,
/// nothing was found. The page that says so is sent with the status code
/// `404`, with whatever was loaded.
pub open spec fn resume(pending: PendingView, contents: Option<Seq<char>>) -> StepView {
    match pending {
        PendingView::Page => StepView::Reply(
            response_of("200"@, Some(content_type("text/html"@)), contents),
        ),
        PendingView::Asset(name) => match contents {
            Some(text) => StepView::Reply(
                response_of("200"@, Some(content_type(content_type_of(name))), Some(text)),
            ),
            None => not_found_start(),
        },
        PendingView::Missing => StepView::Reply(response_of("404"@, None, contents)),
    }
}

/// Whatever is loaded, a response is due after two more files at most.
pub proof fn lemma_resume_ends(
    pending: PendingView,
    first: Option<Seq<char>>,
    second: Option<Seq<char>>,
)
    ensures
        match resume(pending, first) {
            StepView::Reply(_) => true,
            StepView::Load { pending: next, .. } => resume(next, second) is Reply,
        },
{
}

/// Something that answers requests.
pub trait Handler {
    /// The first step that this handler takes for a request.
    spec fn first_step(req: RequestView) -> StepView;

    /// The first step for `req`.
    fn handle(req: &Request) -> (step: Step)
        ensures
            step@ == Self::first_step(req@),
    ;
}

/// Answers every request with the same JSON text.
pub struct ApiHandler;

/// Answers with a file below the root of the public files.
pub struct StaticFileHandler;

/// Answers with the page that says that nothing was found.
pub struct NotFoundHandler;

/// The headers that hold a content type and nothing else.
fn content_type_headers(value: &str) -> (headers: Headers)
    ensures
        headers@ == content_type(value@),
{
    let mut headers = Headers::new();
    headers.insert(String::from_str("Content-Type"), String::from_str(value));
    assert(headers@ =~= content_type(value@));
    headers
}

/// The segment of `path` between its first and its second `/`.
pub fn first_segment<'a>(path: &'a str) -> (r: Option<&'a str>)
    ensures
        match r {
            Some(name) => segment(path@) == Some(name@),
            None => segment(path@).is_none(),
        },
{
    let chars = chars_of(path);
    let n = chars.len();
    let slash = position(chars.as_slice(), '/');
    if slash < n {
        let rest = slice_subrange(chars.as_slice(), slash + 1, n);
        assert(rest@ =~= path@.skip(slash + 1));
        let len = position(rest, '/');
        assert(path@.subrange(slash + 1, slash + 1 + len) =~= rest@.take(len as int));
        Some(path.substring_char(slash + 1, slash + 1 + len))
    } else {
        None
    }
}

/// The content type of a file, by the end of its name.
pub fn content_type_for(file: &str) -> (r: &'static str)
    ensures
        r@ == content_type_of(file@),
{
    if str_ends_with(file, ".css") {
        "text/css"
    } else if str_ends_with(file, ".js") {
        "text/javascript"
    } else if str_ends_with(file, ".html") {
        "text/html"
    } else {
        "text/plain"
    }
}

impl Handler for ApiHandler {
    open spec fn first_step(req: RequestView) -> StepView {
        api_reply()
    }

    fn handle(req: &Request) -> (step: Step) {
        let body = String::from_str("{\"errno\":0,\"msg\":\"success\", \"data\": null}");
        Step::Reply(Response::new("200", Some(content_type_headers("application/json")), Some(body)))
    }
}

impl Handler for NotFoundHandler {
    open spec fn first_step(req: RequestView) -> StepView {
        not_found_start()
    }

    fn handle(req: &Request) -> (step: Step) {
        Step::Load { file: String::from_str("404.html"), pause: 0, pending: Pending::Missing }
    }
}

impl Handler for StaticFileHandler {
    open spec fn first_step(req: RequestView) -> StepView {
        static_start(req.path)
    }

    fn handle(req: &Request) -> (step: Step) {
        let path = match &req.resource {
            Resource::Path(path) => path.as_str(),
        };
        match first_segment(path) {
            None => NotFoundHandler::handle(req),
            Some(name) => {
                if name.unicode_len() == 0 || same_text(name, "index.html") {
                    Step::Load {
                        file: String::from_str("index.html"),
                        pause: 0,
                        pending: Pending::Page,
                    }
                } else if same_text(name, "sleep.html") {
                    Step::Load {
                        file: String::from_str("sleep.html"),
                        pause: 5,
                        pending: Pending::Page,
                    }
                } else {
                    Step::Load {
                        file: String::from_str(name),
                        pause: 0,
                        pending: Pending::Asset(String::from_str(name)),
                    }
                }
            },
        }
    }
}

/// The step after the file that `pending` waited for was loaded, or could
/// not be: `contents` is its text, or nothing.
pub fn resume_with(pending: Pending, contents: Option<String>) -> (step: Step)
    ensures
        step@ == resume(pending@, option_text(contents)),
{
    match pending {
        Pending::Page => Step::Reply(
            Response::new("200", Some(content_type_headers("text/html")), contents),
        ),
        Pending::Asset(name) => match contents {
            Some(text) => Step::Reply(
                Response::new(
                    "200",
                    Some(content_type_headers(content_type_for(name.as_str()))),
                    Some(text),
                ),
            ),
            None => Step::Load {
                file: String::from_str("404.html"),
                pause: 0,
                pending: Pending::Missing,
            },
        },
        Pending::Missing => Step::Reply(Response::new("404", None, contents)),
    }
}

} // verus!
