//! The request pipeline as a whole: what a request is answered with when
//! the worker's steps are driven against a given outside world, and the
//! laws that hold of every such run.
use crate::config::{
    consulted, content_folder_of, hostname_of, index_of, redirect_of, ConfigView,
};
use crate::error::{redirect_code, ErrorView, NOT_FOUND};
use crate::media::guessed_media_type;
use crate::path::{locate, normalise};
use crate::redirect::EntryView;
use crate::uri::parse_uri;
use crate::worker::{
    accepted, bad_request, failed, internal_error, placed, resumed, resumed_config, routed,
    started, ActionView, EventView, OutcomeView, StageView,
};
use vstd::prelude::*;

verus! {

/// What the driver of the pipeline finds outside it while one request is
/// answered.
pub ghost struct World {
    /// The entries that re-reading the redirect document gives, or `None`
    /// where it cannot be read or understood.
    pub redirects: Option<Seq<EntryView>>,
    /// The locations that are directories.
    pub directories: Set<Seq<char>>,
    /// The locations that exist.
    pub existing: Set<Seq<char>>,
    /// The bytes of the locations that can be read.
    pub contents: Map<Seq<char>, Seq<u8>>,
}

/// What a driver that looks at `world` reports back for `action`.
pub open spec fn answer(world: World, action: ActionView) -> EventView {
    match action {
        ActionView::LoadRedirects { file } => EventView::Redirects(world.redirects),
        ActionView::IsDirectory { location } => EventView::IsDirectory(
            world.directories.contains(location),
        ),
        ActionView::Exists { location } => EventView::Exists(world.existing.contains(location)),
        ActionView::Read { location } => EventView::Contents(
            if world.contents.contains_key(location) {
                Some(world.contents[location])
            } else {
                None
            },
        ),
        ActionView::Respond(outcome) => EventView::Contents(None),
    }
}

/// The outcome that the worker hands out when it stands at `stage`, has
/// just asked for `action`, and is driven against `world` for at most
/// `steps` more reports; `None` where it has not answered by then.
pub open spec fn run(
    stage: StageView,
    action: ActionView,
    config: ConfigView,
    world: World,
    steps: nat,
) -> Option<OutcomeView>
    decreases steps,
{
    match action {
        ActionView::Respond(outcome) => Some(outcome),
        _ => if steps == 0 {
            None
        } else {
            let event = answer(world, action);
            let next = resumed(stage, config, event);
            run(next.0, next.1, resumed_config(stage, config, event), world, (steps - 1) as nat)
        },
    }
}

/// The answer to the request line `request` that comes at `now`, under
/// `config` and against `world`, stage by stage: the line is parsed, its
/// host name checked and its path decoded; the redirect table, refreshed
/// where it was stale, is asked about the decoded path; the path is
/// normalised and placed under the content root, with the index file where
/// that is a directory; a location that does not exist is not found; any
/// other is read and sent with its guessed content type, and a read that
/// fails is a failure on the server's side.
pub open spec fn served(
    config: ConfigView,
    request: Seq<char>,
    now: u64,
    world: World,
) -> OutcomeView {
    match accepted(hostname_of(config.settings), request) {
        Err(e) => Err(e),
        Ok(path) => match redirect_of(consulted(config, world.redirects, now), path) {
            Some((destination, permanent)) => Err(
                ErrorView { code: redirect_code(permanent), meta: destination },
            ),
            None => {
                let root = content_folder_of(config.settings);
                let normal = normalise(path);
                let location = placed(
                    root,
                    normal,
                    index_of(config.settings),
                    world.directories.contains(locate(root, normal)),
                );
                if !world.existing.contains(location) {
                    Err(ErrorView { code: NOT_FOUND, meta: Seq::empty() })
                } else if world.contents.contains_key(location) {
                    Ok((guessed_media_type(location), world.contents[location]))
                } else {
                    Err(internal_error())
                }
            },
        },
    }
}

/// Driving the worker step by step gives the answer of the pipeline as a
/// whole: from the first step of any request, at most four reports from the
/// outside world lead to the response, and the response is `served`.
pub proof fn law_worker_serves(config: ConfigView, request: Seq<char>, now: u64, world: World)
    ensures
        run(
            started(config, request, now).0,
            started(config, request, now).1,
            config,
            world,
            4,
        ) == Some(served(config, request, now, world)),
{
    reveal_with_fuel(run, 6);
    let first = started(config, request, now);
    match accepted(hostname_of(config.settings), request) {
        Err(e) => {},
        Ok(path) => {
            let settled = consulted(config, world.redirects, now);
            assert(settled.settings == config.settings);
            if first.1 is LoadRedirects {
                let event = answer(world, first.1);
                assert(resumed(first.0, config, event) == routed(settled, path));
                assert(resumed_config(first.0, config, event) == settled);
                lemma_routed_serves(settled, path, world, 3);
            } else {
                assert(settled == config);
                lemma_routed_serves(config, path, world, 4);
            }
        },
    }
}

/// From the step that routes the decoded path `path`, three reports from
/// the outside world at most lead to the response.
proof fn lemma_routed_serves(config: ConfigView, path: Seq<char>, world: World, steps: nat)
    requires
        steps >= 3,
    ensures
        run(routed(config, path).0, routed(config, path).1, config, world, steps) == Some(
            match redirect_of(config, path) {
                Some((destination, permanent)) => Err(
                    ErrorView { code: redirect_code(permanent), meta: destination },
                ),
                None => {
                    let root = content_folder_of(config.settings);
                    let normal = normalise(path);
                    let location = placed(
                        root,
                        normal,
                        index_of(config.settings),
                        world.directories.contains(locate(root, normal)),
                    );
                    if !world.existing.contains(location) {
                        Err(ErrorView { code: NOT_FOUND, meta: Seq::empty() })
                    } else if world.contents.contains_key(location) {
                        Ok::<(Seq<char>, Seq<u8>), ErrorView>(
                            (guessed_media_type(location), world.contents[location]),
                        )
                    } else {
                        Err(internal_error())
                    }
                },
            },
        ),
{
    reveal_with_fuel(run, 5);
}

/// A request that names another host than the configured one is a bad
/// request, whatever its path holds and whatever the redirect table, the
/// clock or the outside world say.
pub proof fn law_hostname_mismatch_is_bad_request(
    config: ConfigView,
    request: Seq<char>,
    now: u64,
    world: World,
)
    requires
        parse_uri(request) matches Some(uri) && uri.hostname != hostname_of(config.settings),
    ensures
        accepted(hostname_of(config.settings), request) == Err::<Seq<char>, ErrorView>(
            bad_request(),
        ),
        started(config, request, now) == failed(bad_request()),
        served(config, request, now, world) == Err::<(Seq<char>, Seq<u8>), ErrorView>(
            bad_request(),
        ),
{
}

/// A reload that fails is no error. Where the redirect document could not
/// be re-read, the configuration stays as it was, and the request is routed
/// by the table as it stood, as if no reload had been due.
pub proof fn law_failed_reload_is_not_an_error(config: ConfigView, path: Seq<char>, now: u64)
    ensures
        consulted(config, None, now) == config,
        resumed_config(StageView::Reloading { path, now }, config, EventView::Redirects(None))
            == config,
        resumed(StageView::Reloading { path, now }, config, EventView::Redirects(None)) == routed(
            config,
            path,
        ),
{
}

/// A redirect precedes the existence check. A request whose decoded path
/// the settled redirect table redirects is answered with that redirect in
/// every outside world: whether a file exists at the path, is a directory
/// or can be read does not change the response. The worker asks nothing
/// about the file system before it answers.
pub proof fn law_redirect_precedes_existence(
    config: ConfigView,
    request: Seq<char>,
    now: u64,
    world: World,
    path: Seq<char>,
    destination: Seq<char>,
    permanent: bool,
)
    requires
        accepted(hostname_of(config.settings), request) == Ok::<Seq<char>, ErrorView>(path),
        redirect_of(consulted(config, world.redirects, now), path) == Some(
            (destination, permanent),
        ),
    ensures
        served(config, request, now, world) == Err::<(Seq<char>, Seq<u8>), ErrorView>(
            ErrorView { code: redirect_code(permanent), meta: destination },
        ),
        routed(consulted(config, world.redirects, now), path) == failed(
            ErrorView { code: redirect_code(permanent), meta: destination },
        ),
{
}

} // verus!
