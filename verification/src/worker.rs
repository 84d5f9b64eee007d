//! The request pipeline, one step at a time. The pipeline decides; whoever
//! drives it does the outside work it asks for (re-reading the redirect
//! document, looking at the file system) and hands back what came of it.
use crate::config::{
    consulted, content_folder_of, hostname_of, index_of, redirect_of, reload_due, ConfigView,
    GeminiConfig,
};
use crate::decode::{decoded_text, percent_decode_text};
use crate::error::{redirect_code, ErrorView, GeminiError, BAD_REQUEST, NOT_FOUND, TEMP_FAIL};
use crate::media::{guessed_media_type, media_type_of};
use crate::path::{locate, locate_in, normalise, normalise_path};
use crate::redirect::{loaded_views, EntryView, RedirectEntry};
use crate::text::str_eq;
use crate::uri::{parse_uri, Uri};
use vstd::prelude::*;

verus! {

/// The meta text of a failure on the server's side.
pub const INTERNAL_ERROR: &'static str = "internal server error";

/// How a request ends: the content type and the body, or the error.
pub type Outcome = Result<(String, Vec<u8>), GeminiError>;

/// What an outcome says.
pub type OutcomeView = Result<(Seq<char>, Seq<u8>), ErrorView>;

/// What `outcome` says.
pub open spec fn outcome_view(outcome: Outcome) -> OutcomeView {
    match outcome {
        Ok((content_type, body)) => Ok((content_type@, body@)),
        Err(e) => Err(e@),
    }
}

/// The error for a request that is malformed or not allowed.
pub open spec fn bad_request() -> ErrorView {
    ErrorView { code: BAD_REQUEST, meta: Seq::empty() }
}

/// The error for a failure on the server's side.
pub open spec fn internal_error() -> ErrorView {
    ErrorView { code: TEMP_FAIL, meta: INTERNAL_ERROR@ }
}

/// The decoded path that the request line `request` asks for on the host
/// `hostname`, or the error that rejects the line: it must parse, name
/// exactly that host, and percent-decode to text.
pub open spec fn accepted(hostname: Seq<char>, request: Seq<char>) -> Result<Seq<char>, ErrorView> {
    match parse_uri(request) {
        None => Err(bad_request()),
        Some(uri) => if uri.hostname != hostname {
            Err(bad_request())
        } else {
            match decoded_text(uri.path) {
                Some(path) => Ok(path),
                None => Err(bad_request()),
            }
        },
    }
}

/// The location of the normalised path `path` under `content_root`, with
/// the index file `index` appended where the location is a directory.
pub open spec fn placed(
    content_root: Seq<char>,
    path: Seq<char>,
    index: Seq<char>,
    is_directory: bool,
) -> Seq<char> {
    let location = locate(content_root, path);
    if is_directory {
        locate(location, index)
    } else {
        location
    }
}

/// Where the pipeline stands, as a value of specifications.
pub ghost enum StageView {
    Ready,
    Reloading { path: Seq<char>, now: u64 },
    Probing { path: Seq<char> },
    Checking { location: Seq<char> },
    Reading { content_type: Seq<char> },
    Done,
}

/// What the pipeline asks for, as a value of specifications.
pub ghost enum ActionView {
    LoadRedirects { file: Seq<char> },
    IsDirectory { location: Seq<char> },
    Exists { location: Seq<char> },
    Read { location: Seq<char> },
    Respond(OutcomeView),
}

/// What came of the outside work, as a value of specifications.
pub ghost enum EventView {
    Redirects(Option<Seq<EntryView>>),
    IsDirectory(bool),
    Exists(bool),
    Contents(Option<Seq<u8>>),
}

/// Where the pipeline stands with one request.
#[derive(Debug)]
pub enum Stage {
    /// No request is under way.
    Ready,
    /// The redirect document is being re-read; the request asks for the
    /// decoded path `path`, and the clock read `now` when it came.
    Reloading { path: String, now: u64 },
    /// It is being found out whether the normalised path `path` names a
    /// directory under the content root.
    Probing { path: String },
    /// It is being found out whether `location` exists.
    Checking { location: String },
    /// The file is being read; it will be sent as `content_type`.
    Reading { content_type: String },
    /// The response was handed out.
    Done,
}

/// What the pipeline asks of its driver.
#[derive(Debug)]
pub enum Action {
    /// Re-read the redirect document in `file`, and report its entries.
    LoadRedirects { file: String },
    /// Report whether `location` is a directory.
    IsDirectory { location: String },
    /// Report whether `location` exists.
    Exists { location: String },
    /// Read `location`, and report its bytes.
    Read { location: String },
    /// Send this outcome; the request is done.
    Respond(Outcome),
}

/// What the driver reports back.
#[derive(Debug)]
pub enum Event {
    /// The entries of the redirect document, or `None` where it could not
    /// be read or understood.
    Redirects(Option<Vec<RedirectEntry>>),
    /// Whether the location is a directory.
    IsDirectory(bool),
    /// Whether the location exists.
    Exists(bool),
    /// The bytes of the file, or `None` where it could not be read.
    Contents(Option<Vec<u8>>),
}

impl View for Stage {
    type V = StageView;

    open spec fn view(&self) -> StageView {
        match self {
            Stage::Ready => StageView::Ready,
            Stage::Reloading { path, now } => StageView::Reloading { path: path@, now: *now },
            Stage::Probing { path } => StageView::Probing { path: path@ },
            Stage::Checking { location } => StageView::Checking { location: location@ },
            Stage::Reading { content_type } => StageView::Reading { content_type: content_type@ },
            Stage::Done => StageView::Done,
        }
    }
}

impl View for Action {
    type V = ActionView;

    open spec fn view(&self) -> ActionView {
        match self {
            Action::LoadRedirects { file } => ActionView::LoadRedirects { file: file@ },
            Action::IsDirectory { location } => ActionView::IsDirectory { location: location@ },
            Action::Exists { location } => ActionView::Exists { location: location@ },
            Action::Read { location } => ActionView::Read { location: location@ },
            Action::Respond(outcome) => ActionView::Respond(outcome_view(*outcome)),
        }
    }
}

impl View for Event {
    type V = EventView;

    open spec fn view(&self) -> EventView {
        match self {
            Event::Redirects(loaded) => EventView::Redirects(loaded_views(*loaded)),
            Event::IsDirectory(answer) => EventView::IsDirectory(*answer),
            Event::Exists(answer) => EventView::Exists(*answer),
            Event::Contents(bytes) => EventView::Contents(
                match bytes {
                    Some(b) => Some(b@),
                    None => None,
                },
            ),
        }
    }
}

/// The step that ends a request with the error `e`.
pub open spec fn failed(e: ErrorView) -> (StageView, ActionView) {
    (StageView::Done, ActionView::Respond(Err(e)))
}

/// The step for the decoded path `path` once the redirect table of `config`
/// is settled: a path that the table redirects ends the request with that
/// redirect, before anything is normalised or looked up on disk; any other
/// path is normalised and placed under the content root, and the pipeline
/// asks whether that location is a directory.
pub open spec fn routed(config: ConfigView, path: Seq<char>) -> (StageView, ActionView) {
    match redirect_of(config, path) {
        Some((destination, permanent)) => failed(
            ErrorView { code: redirect_code(permanent), meta: destination },
        ),
        None => {
            let normal = normalise(path);
            (
                StageView::Probing { path: normal },
                ActionView::IsDirectory {
                    location: locate(content_folder_of(config.settings), normal),
                },
            )
        },
    }
}

/// The first step for the request line `request` that came at `now`: a line
/// that is not accepted ends the request with its error; else a stale
/// redirect table makes the pipeline ask for a reload, and a fresh one, or
/// none, lets the path be routed right away.
pub open spec fn started(config: ConfigView, request: Seq<char>, now: u64) -> (
    StageView,
    ActionView,
) {
    match accepted(hostname_of(config.settings), request) {
        Err(e) => failed(e),
        Ok(path) => match reload_due(config, now) {
            Some(file) => (
                StageView::Reloading { path, now },
                ActionView::LoadRedirects { file },
            ),
            None => routed(config, path),
        },
    }
}

/// The configuration after `event` came at `stage`: only the outcome of a
/// reload that was asked for changes it.
pub open spec fn resumed_config(
    stage: StageView,
    config: ConfigView,
    event: EventView,
) -> ConfigView {
    match (stage, event) {
        (StageView::Reloading { path, now }, EventView::Redirects(loaded)) => consulted(
            config,
            loaded,
            now,
        ),
        _ => config,
    }
}

/// The step that follows `event` at `stage`. An event that the stage did
/// not ask for ends the request with a failure on the server's side.
pub open spec fn resumed(stage: StageView, config: ConfigView, event: EventView) -> (
    StageView,
    ActionView,
) {
    match (stage, event) {
        (StageView::Reloading { path, now }, EventView::Redirects(loaded)) => routed(
            consulted(config, loaded, now),
            path,
        ),
        (StageView::Probing { path }, EventView::IsDirectory(is_directory)) => {
            let location = placed(
                content_folder_of(config.settings),
                path,
                index_of(config.settings),
                is_directory,
            );
            (StageView::Checking { location }, ActionView::Exists { location })
        },
        (StageView::Checking { location }, EventView::Exists(exists)) => if exists {
            (
                StageView::Reading { content_type: guessed_media_type(location) },
                ActionView::Read { location },
            )
        } else {
            failed(ErrorView { code: NOT_FOUND, meta: Seq::empty() })
        },
        (StageView::Reading { content_type }, EventView::Contents(contents)) => match contents {
            Some(body) => (StageView::Done, ActionView::Respond(Ok((content_type, body)))),
            None => failed(internal_error()),
        },
        _ => failed(internal_error()),
    }
}

/// One worker of the pool: it takes one request at a time through the
/// pipeline.
#[derive(Debug)]
pub struct Worker {
    id: u8,
    stage: Stage,
}

impl Worker {
    /// A worker that is ready for a request; `id` tells its log lines from
    /// those of the others.
    pub fn new(id: u8) -> (worker: Worker)
        ensures
            worker.id() == id,
            worker.stage()@ == StageView::Ready,
    {
        Worker { id, stage: Stage::Ready }
    }

    /// The number that tells this worker's log lines from those of others.
    pub closed spec fn id(&self) -> u8 {
        self.id
    }

    /// Where this worker stands with its request.
    pub closed spec fn stage(&self) -> Stage {
        self.stage
    }

    /// The number that tells this worker's log lines from those of others.
    pub fn job(&self) -> (id: u8)
        ensures
            id == self.id(),
    {
        self.id
    }

    /// Whether the worker has handed out the response to its request.
    pub fn is_done(&self) -> (done: bool)
        ensures
            done == (self.stage()@ == StageView::Done),
    {
        match &self.stage {
            Stage::Done => true,
            _ => false,
        }
    }

    /// Checks the request line `request` against the host name `hostname`
    /// and gives the decoded path that it asks for.
    pub fn process_url(hostname: &str, request: &str) -> (path: Result<String, GeminiError>)
        ensures
            match path {
                Ok(decoded) => accepted(hostname@, request@) == Ok::<Seq<char>, ErrorView>(
                    decoded@,
                ),
                Err(e) => accepted(hostname@, request@) == Err::<Seq<char>, ErrorView>(e@),
            },
    {
        proof {
            reveal_strlit("");
            assert(""@ =~= Seq::<char>::empty());
        }
        let uri = match Uri::new(request) {
            Ok(uri) => uri,
            Err(e) => {
                return Err(e);
            },
        };
        if !str_eq(uri.hostname, hostname) {
            return Err(GeminiError::bad_request(""));
        }
        match percent_decode_text(uri.path) {
            Some(path) => Ok(path),
            None => Err(GeminiError::bad_request("")),
        }
    }

    /// The location of the normalised path `path` under `content_root`,
    /// with the index file `index` appended where the location is a
    /// directory.
    pub fn pre_postfix_path(
        content_root: &str,
        path: &str,
        index: &str,
        is_directory: bool,
    ) -> (location: String)
        ensures
            location@ == placed(content_root@, path@, index@, is_directory),
    {
        let location = locate_in(content_root, path);
        if is_directory {
            locate_in(location.as_str(), index)
        } else {
            location
        }
    }

    /// Routes the decoded path `path` once the redirect table is settled.
    fn route(
        &mut self,
        config: &mut GeminiConfig,
        path: &str,
        now: u64,
        loaded: Option<Vec<RedirectEntry>>,
    ) -> (action: Action)
        ensures
            final(config)@ == consulted(old(config)@, loaded_views(loaded), now),
            (final(self).stage()@, action@) == routed(final(config)@, path@),
            final(self).id() == old(self).id(),
    {
        match config.check_redirect(path, now, loaded) {
            Some((destination, permanent)) => {
                self.stage = Stage::Done;
                Action::Respond(Err(GeminiError::redirect(destination.as_str(), permanent)))
            },
            None => {
                let normal = normalise_path(path);
                let location = locate_in(config.content_folder(), normal.as_str());
                self.stage = Stage::Probing { path: normal };
                Action::IsDirectory { location }
            },
        }
    }

    /// Ends the request with a failure on the server's side.
    fn fail(&mut self) -> (action: Action)
        ensures
            (final(self).stage()@, action@) == failed(internal_error()),
            final(self).id() == old(self).id(),
    {
        self.stage = Stage::Done;
        Action::Respond(Err(GeminiError::temporary_failure(INTERNAL_ERROR)))
    }

    /// Takes up the request line `request`, which came when the clock read
    /// `now` seconds, and says what to do first. Whatever request the
    /// worker was busy with is dropped.
    pub fn process_request(
        &mut self,
        config: &mut GeminiConfig,
        request: &str,
        now: u64,
    ) -> (action: Action)
        ensures
            (final(self).stage()@, action@) == started(old(config)@, request@, now),
            final(config)@ == old(config)@,
            final(self).id() == old(self).id(),
    {
        let path = match Self::process_url(config.hostname(), request) {
            Ok(path) => path,
            Err(e) => {
                self.stage = Stage::Done;
                return Action::Respond(Err(e));
            },
        };
        match config.redirects_due(now) {
            Some(file) => {
                let file = file.to_owned();
                self.stage = Stage::Reloading { path, now };
                Action::LoadRedirects { file }
            },
            None => self.route(config, path.as_str(), now, None),
        }
    }

    /// Takes in what came of the work that the last action asked for, and
    /// says what to do next.
    pub fn resume(&mut self, config: &mut GeminiConfig, event: Event) -> (action: Action)
        ensures
            final(config)@ == resumed_config(old(self).stage()@, old(config)@, event@),
            (final(self).stage()@, action@) == resumed(old(self).stage()@, old(config)@, event@),
            final(self).id() == old(self).id(),
    {
        let mut stage = Stage::Done;
        std::mem::swap(&mut self.stage, &mut stage);
        match (stage, event) {
            (Stage::Reloading { path, now }, Event::Redirects(loaded)) => self.route(
                config,
                path.as_str(),
                now,
                loaded,
            ),
            (Stage::Probing { path }, Event::IsDirectory(is_directory)) => {
                let location = Self::pre_postfix_path(
                    config.content_folder(),
                    path.as_str(),
                    config.index(),
                    is_directory,
                );
                self.stage = Stage::Checking { location: location.clone() };
                Action::Exists { location }
            },
            (Stage::Checking { location }, Event::Exists(exists)) => {
                if exists {
                    let content_type = media_type_of(location.as_str());
                    self.stage = Stage::Reading { content_type };
                    Action::Read { location }
                } else {
                    self.stage = Stage::Done;
                    Action::Respond(Err(GeminiError::not_found()))
                }
            },
            (Stage::Reading { content_type }, Event::Contents(contents)) => {
                self.stage = Stage::Done;
                match contents {
                    Some(body) => Action::Respond(Ok((content_type, body))),
                    None => Action::Respond(
                        Err(GeminiError::temporary_failure(INTERNAL_ERROR)),
                    ),
                }
            },
            _ => self.fail(),
        }
    }
}

} // verus!
