//! What to do with a request for a file: which path to open, what to answer
//! when there is nothing to open, and which range to stream once the file is
//! open. Opening, measuring and reading the file is left to the caller.

use vstd::prelude::*;
use vstd::string::*;
use crate::mime::{guess_mime, guessed_mime};
use crate::path::{forbidden, resolve_path, resolve_spec, text_of};
use crate::response::{
    empty_not_found, file_found, not_found_response, plain_text, server_error_response,
    PlainResponse, ResponseModel,
};
use crate::stream::ByteRange;

verus! {

/// The pattern that marks a request path as an attempt to leave the served
/// directory: two dots before a separator, a segment that begins with a dot, a
/// leading `*`, or a doubled backslash.
pub const PATH_TRAVERSAL_PATTERN: &'static str = r"(\.\.[/\\])|(/\.)|(^\.)|(^\*)|(\\\\)";

/// Whether the regular expression `pattern` matches somewhere in `text`, as
/// the `regex` crate decides it; `None` where the crate does not accept the
/// pattern.
pub uninterp spec fn regex_match(pattern: Seq<char>, text: Seq<char>) -> Option<bool>;

/// `regex::Regex::new` on the pattern, then `Regex::is_match` on the text.
/// `None` stands for the error that `new` returns for a pattern it cannot
/// parse or compile within its default limits. Both depend on the two strings
/// alone. Believed of the outside code, not proved.
#[verifier::external_body]
fn pattern_matches(pattern: &str, text: &str) -> (matched: Option<bool>)
    ensures
        matched == regex_match(pattern@, text@),
{
    match regex::Regex::new(pattern) {
        Ok(compiled) => Some(compiled.is_match(text)),
        Err(_) => None,
    }
}

/// Whether a matcher with `pattern` turns `text` away: it does unless the
/// pattern is sound and does not match.
pub open spec fn turns_away(pattern: Seq<char>, text: Seq<char>) -> bool {
    regex_match(pattern, text) != Some(false)
}

/// A regular expression that request paths are held against.
#[derive(Clone, Debug, PartialEq, Eq)]
pub struct PathMatcher {
    pattern: String,
}

impl View for PathMatcher {
    type V = Seq<char>;

    closed spec fn view(&self) -> Seq<char> {
        self.pattern@
    }
}

impl PathMatcher {
    /// A matcher for `pattern`.
    pub fn new(pattern: &str) -> (matcher: PathMatcher)
        ensures
            matcher@ == pattern@,
    {
        PathMatcher { pattern: pattern.to_owned() }
    }

    /// The pattern of this matcher.
    pub fn as_str(&self) -> (pattern: &str)
        ensures
            pattern@ == self@,
    {
        self.pattern.as_str()
    }

    /// What an outcome of matching means for the request: it is turned away
    /// on a match, and also where the pattern could not be used at all.
    pub fn verdict(outcome: Option<bool>) -> (away: bool)
        ensures
            away == (outcome != Some(false)),
    {
        match outcome {
            Some(matched) => matched,
            None => true,
        }
    }

    /// Whether the matcher turns `text` away.
    pub fn is_match(&self, text: &str) -> (away: bool)
        ensures
            away == turns_away(self@, text@),
    {
        PathMatcher::verdict(pattern_matches(self.pattern.as_str(), text))
    }
}

/// What to do for a request.
#[derive(Clone, Debug, PartialEq, Eq)]
pub enum ServeAction {
    /// Answer with this response.
    Respond(PlainResponse),
    /// Open the file at `path`; its content type is `mime`.
    Open { path: String, mime: String },
}

/// The mathematical content of a `ServeAction`.
pub enum ServeModel {
    Respond(ResponseModel),
    Open { path: Seq<char>, mime: Seq<char> },
}

impl View for ServeAction {
    type V = ServeModel;

    open spec fn view(&self) -> ServeModel {
        match *self {
            ServeAction::Respond(response) => ServeModel::Respond(response@),
            ServeAction::Open { path, mime } => ServeModel::Open { path: path@, mime: mime@ },
        }
    }
}

/// The answer to a request that is not served: 404, nothing else.
pub open spec fn not_served() -> ServeModel {
    ServeModel::Respond(ResponseModel { status: 404, content_type: None, body: Seq::empty() })
}

/// The file that a request for `path` below `base` is located at, given
/// whether the matcher turned the request away.
pub open spec fn locate_spec(base: Seq<char>, path: Seq<char>, away: bool) -> Option<Seq<char>> {
    if away {
        None
    } else {
        resolve_spec(base, path)
    }
}

/// What a handler for `base` with a matcher for `pattern` does with a request
/// for `path`.
pub open spec fn serve_spec(base: Seq<char>, pattern: Seq<char>, path: Seq<char>) -> ServeModel {
    match locate_spec(base, path, turns_away(pattern, path)) {
        Some(file) => ServeModel::Open { path: file, mime: guessed_mime(file) },
        None => not_served(),
    }
}

/// A handler that serves the files below one directory.
#[derive(Clone, Debug)]
pub struct StaticFiles {
    base: String,
    path_traversal_matcher: PathMatcher,
}

/// The mathematical content of a handler.
pub struct StaticFilesModel {
    pub base: Seq<char>,
    pub pattern: Seq<char>,
}

impl View for StaticFiles {
    type V = StaticFilesModel;

    closed spec fn view(&self) -> StaticFilesModel {
        StaticFilesModel { base: self.base@, pattern: self.path_traversal_matcher@ }
    }
}

impl StaticFiles {
    /// A handler for the directory at `path`.
    pub fn new(path: &str) -> (handler: StaticFiles)
        ensures
            handler@.base == path@,
            handler@.pattern == PATH_TRAVERSAL_PATTERN@,
    {
        StaticFiles {
            base: path.to_owned(),
            path_traversal_matcher: StaticFiles::path_traversal_regex(),
        }
    }

    /// The matcher that every handler holds request paths against.
    pub fn path_traversal_regex() -> (matcher: PathMatcher)
        ensures
            matcher@ == PATH_TRAVERSAL_PATTERN@,
    {
        PathMatcher::new(PATH_TRAVERSAL_PATTERN)
    }

    /// The directory that is served.
    pub fn base(&self) -> (base: &str)
        ensures
            base@ == self@.base,
    {
        self.base.as_str()
    }

    /// The file that a request for `path` is located at, once the matcher has
    /// spoken: none where it turned the request away, none where the path
    /// holds a forbidden segment, else the path resolved against the base.
    pub fn locate(&self, path: &str, away: bool) -> (file: Option<String>)
        ensures
            text_of(file) == locate_spec(self@.base, path@, away),
            away || forbidden(path@) <==> file is None,
    {
        if away {
            None
        } else {
            resolve_path(self.base.as_str(), path)
        }
    }

    /// Decide what to do with a request for `path`: open the file it is
    /// located at, or answer 404.
    pub fn serve(&self, path: &str) -> (action: ServeAction)
        ensures
            action@ == serve_spec(self@.base, self@.pattern, path@),
            forbidden(path@) ==> action@ == not_served(),
    {
        let away = self.path_traversal_matcher.is_match(path);
        match self.locate(path, away) {
            Some(file) => {
                let mime = guess_mime(file.as_str());
                ServeAction::Open { path: file, mime }
            },
            None => ServeAction::Respond(empty_not_found()),
        }
    }

    /// Handle a request whose route gave `path` as its path parameter. A
    /// request without one asks for an index, which is not served: it is
    /// answered 404 like a path that is refused.
    pub fn call(&self, path: Option<&str>) -> (action: ServeAction)
        ensures
            action@ == match path {
                Some(given) => serve_spec(self@.base, self@.pattern, given@),
                None => not_served(),
            },
    {
        match path {
            Some(given) => self.serve(given),
            None => ServeAction::Respond(empty_not_found()),
        }
    }

    /// The response once the file has been tried: 200 with the content type
    /// where it was opened, 404 where it was not.
    pub fn opened(mime: String, success: bool) -> (response: PlainResponse)
        ensures
            response@ == if success {
                ResponseModel { status: 200, content_type: Some(mime@), body: Seq::empty() }
            } else {
                ResponseModel { status: 404, content_type: None, body: Seq::empty() }
            },
    {
        if success {
            file_found(mime)
        } else {
            empty_not_found()
        }
    }
}

/// What happened to the file of a request.
#[derive(Clone, Copy, Debug, PartialEq, Eq)]
pub enum FileEvent {
    /// The request has arrived.
    Start,
    /// The file is open.
    Opened,
    /// The file does not exist or cannot be opened.
    OpenFailed,
    /// The file is this many bytes long.
    Size(u64),
    /// The size of the file cannot be read.
    SizeFailed,
}

/// What to do next for the file of a request.
#[derive(Clone, Debug, PartialEq, Eq)]
pub enum FileAction {
    /// Answer with this response.
    Respond(PlainResponse),
    /// Open the file at this path.
    OpenFile(String),
    /// Read the size of the open file.
    ReadSize,
    /// Answer 200 with this range of the file as the body.
    Stream(ByteRange),
}

/// The mathematical content of a `FileAction`.
pub enum FileActionModel {
    Respond(ResponseModel),
    OpenFile(Seq<char>),
    ReadSize,
    Stream(ByteRange),
}

impl View for FileAction {
    type V = FileActionModel;

    open spec fn view(&self) -> FileActionModel {
        match *self {
            FileAction::Respond(response) => FileActionModel::Respond(response@),
            FileAction::OpenFile(path) => FileActionModel::OpenFile(path@),
            FileAction::ReadSize => FileActionModel::ReadSize,
            FileAction::Stream(range) => FileActionModel::Stream(range),
        }
    }
}

/// What a request for the file at `path` does on `event`. A request without
/// a path, and one whose file cannot be opened, is answered 404; one whose
/// file cannot be measured, 500; else the whole file is streamed.
pub open spec fn work_spec(path: Option<Seq<char>>, event: FileEvent) -> FileActionModel {
    match path {
        None => FileActionModel::Respond(plain_text(404)),
        Some(file) => match event {
            FileEvent::Start => FileActionModel::OpenFile(file),
            FileEvent::Opened => FileActionModel::ReadSize,
            FileEvent::OpenFailed => FileActionModel::Respond(plain_text(404)),
            FileEvent::Size(size) => FileActionModel::Stream(ByteRange { start: 0, end: size }),
            FileEvent::SizeFailed => FileActionModel::Respond(plain_text(500)),
        },
    }
}

/// A request for one file.
#[derive(Clone, Debug, PartialEq, Eq)]
pub struct FileRequest {
    path: Option<String>,
}

impl View for FileRequest {
    type V = Option<Seq<char>>;

    closed spec fn view(&self) -> Option<Seq<char>> {
        text_of(self.path)
    }
}

impl FileRequest {
    /// A request for the file at `path`, or for nothing where the path was
    /// rejected.
    pub fn new(path: Option<String>) -> (request: FileRequest)
        ensures
            request@ == text_of(path),
    {
        FileRequest { path }
    }

    /// Take one event and say what to do next, as [`work_spec`] defines it.
    pub fn work(&self, event: FileEvent) -> (action: FileAction)
        ensures
            action@ == work_spec(self@, event),
    {
        match &self.path {
            None => FileAction::Respond(not_found_response()),
            Some(file) => match event {
                FileEvent::Start => FileAction::OpenFile(file.clone()),
                FileEvent::Opened => FileAction::ReadSize,
                FileEvent::OpenFailed => FileAction::Respond(not_found_response()),
                FileEvent::Size(size) => FileAction::Stream(ByteRange::whole(size)),
                FileEvent::SizeFailed => FileAction::Respond(server_error_response()),
            },
        }
    }
}

} // verus!
