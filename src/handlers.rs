//! Decisions of event dispatch: how a handler's parse result, the
//! repository configuration and the feature's section decide whether the
//! handler runs, and what goes back to the user.
use vstd::prelude::*;
use vstd::string::StringExecFns;

verus! {

#[verifier::external_type_specification]
#[verifier::external_body]
pub struct ExAnyhowError(anyhow::Error);

/// What dispatch reports: a message safe to show, or an internal failure
/// shown only as a generic notice.
#[derive(Debug)]
pub enum HandlerError {
    Message(String),
    Other(anyhow::Error),
}

pub open spec fn internal_error_text() -> Seq<char> {
    "An internal error occurred."@
}

impl HandlerError {
    /// The text shown to the user.
    pub fn message(&self) -> (r: String)
        ensures
            self matches HandlerError::Message(m) ==> r@ == m@,
            self is Other ==> r@ == internal_error_text(),
    {
        match self {
            HandlerError::Message(m) => m.clone(),
            HandlerError::Other(_) => String::from_str("An internal error occurred."),
        }
    }
}

/// Relies on anyhow::Error::msg: wraps a message as an error value.
#[verifier::external_body]
fn internal_error(message: String) -> anyhow::Error {
    anyhow::Error::msg(message)
}

/// Why a repository's configuration could not be had.
#[derive(Debug, Clone, PartialEq, Eq)]
pub enum ConfigurationError {
    /// The repository has no configuration file.
    Missing,
    /// The file is malformed; the parser's message.
    Toml(String),
    /// Fetching it failed; the cause.
    Http(String),
}

pub open spec fn missing_text() -> Seq<char> {
    "This repository is not enabled to use triagebot.\nAdd a `triagebot.toml` in the root of the master branch to enable it."@
}

pub open spec fn malformed_prefix() -> Seq<char> {
    "Malformed `triagebot.toml` in master branch.\n"@
}

pub open spec fn unavailable_text() -> Seq<char> {
    "Failed to query configuration for this repository."@
}

pub open spec fn config_error_text(e: ConfigurationError) -> Seq<char> {
    match e {
        ConfigurationError::Missing => missing_text(),
        ConfigurationError::Toml(m) => malformed_prefix() + m@,
        ConfigurationError::Http(_) => unavailable_text(),
    }
}

impl ConfigurationError {
    pub fn describe(&self) -> (r: String)
        ensures
            r@ == config_error_text(*self),
    {
        match self {
            ConfigurationError::Missing => String::from_str(
                "This repository is not enabled to use triagebot.\nAdd a `triagebot.toml` in the root of the master branch to enable it.",
            ),
            ConfigurationError::Toml(m) => {
                let mut s = String::from_str("Malformed `triagebot.toml` in master branch.\n");
                s.append(m.as_str());
                s
            },
            ConfigurationError::Http(_) => String::from_str(
                "Failed to query configuration for this repository.",
            ),
        }
    }
}

pub open spec fn not_enabled_text(feature: Seq<char>) -> Seq<char> {
    "The feature `"@ + feature
        + "` is not enabled in this repository.\nTo enable it add its section in the `triagebot.toml` in the root of the repository."@
}

/// What to do with one handler of an event.
#[derive(Debug)]
pub enum Dispatch<T> {
    /// The handler found nothing to do; try the next one.
    Skip,
    /// Run the handler on this input.
    Execute(T),
    /// Stop dispatch and report this.
    Abort(HandlerError),
}

/// Whether a code-hosting handler whose parse produced an input may run:
/// a configuration that failed to load stops it (as a message if the
/// repository's fault, as an internal error otherwise), and so does an
/// absent section for the feature.
pub fn gate_feature(
    feature: &str,
    config_error: Option<&ConfigurationError>,
    section_present: bool,
) -> (r: Result<(), HandlerError>)
    ensures
        config_error matches Some(e) ==> match *e {
            ConfigurationError::Http(_) => r matches Err(HandlerError::Other(_)),
            _ => r matches Err(HandlerError::Message(m)) && m@ == config_error_text(*e),
        },
        config_error is None && !section_present ==> (r matches Err(HandlerError::Message(m))
            && m@ == not_enabled_text(feature@)),
        config_error is None && section_present ==> r is Ok,
{
    match config_error {
        Some(e) => match e {
            ConfigurationError::Http(_) => Err(HandlerError::Other(internal_error(e.describe()))),
            _ => Err(HandlerError::Message(e.describe())),
        },
        None => {
            if section_present {
                Ok(())
            } else {
                let mut s = String::from_str("The feature `");
                s.append(feature);
                s.append(
                    "` is not enabled in this repository.\nTo enable it add its section in the `triagebot.toml` in the root of the repository.",
                );
                Err(HandlerError::Message(s))
            }
        },
    }
}

/// One code-hosting handler's turn: a parse error aborts with its message,
/// no input skips, and an input runs only past `gate_feature`.
pub fn github_step<T>(
    parsed: Result<Option<T>, String>,
    feature: &str,
    config_error: Option<&ConfigurationError>,
    section_present: bool,
) -> (r: Dispatch<T>)
    ensures
        parsed matches Err(m) ==> r matches Dispatch::Abort(HandlerError::Message(x)) && x == m,
        parsed matches Ok(None) ==> r is Skip,
        parsed matches Ok(Some(input)) ==> {
            &&& config_error is None && section_present ==> r == Dispatch::Execute(input)
            &&& config_error is None && !section_present ==> (r matches Dispatch::Abort(
                HandlerError::Message(m),
            ) && m@ == not_enabled_text(feature@))
            &&& config_error matches Some(e) ==> match *e {
                ConfigurationError::Http(_) => r matches Dispatch::Abort(HandlerError::Other(_)),
                _ => r matches Dispatch::Abort(HandlerError::Message(m)) && m@ == config_error_text(
                    *e,
                ),
            }
        },
{
    match parsed {
        Err(m) => Dispatch::Abort(HandlerError::Message(m)),
        Ok(None) => Dispatch::Skip,
        Ok(Some(input)) => match gate_feature(feature, config_error, section_present) {
            Ok(()) => Dispatch::Execute(input),
            Err(e) => Dispatch::Abort(e),
        },
    }
}

/// One chat handler's turn. There is no feature gating on this channel; the
/// first handler that yields an input is the one that runs.
pub fn zulip_step<T>(parsed: Result<Option<T>, String>) -> (r: Dispatch<T>)
    ensures
        parsed matches Err(m) ==> r matches Dispatch::Abort(HandlerError::Message(x)) && x == m,
        parsed matches Ok(None) ==> r is Skip,
        parsed matches Ok(Some(input)) ==> r == Dispatch::Execute(input),
{
    match parsed {
        Err(m) => Dispatch::Abort(HandlerError::Message(m)),
        Ok(None) => Dispatch::Skip,
        Ok(Some(input)) => Dispatch::Execute(input),
    }
}

pub open spec fn unauthorized_text() -> Seq<char> {
    "Invalid authorization."@
}

pub open spec fn failed_text() -> Seq<char> {
    "handling failed, error logged"@
}

/// The reply content to a chat request: `None` when handling succeeded and
/// nothing is to be said.
pub fn response_content(authorized: bool, outcome: &Result<(), HandlerError>) -> (r: Option<String>)
    ensures
        !authorized ==> (r matches Some(c) && c@ == unauthorized_text()),
        authorized ==> match outcome {
            Ok(()) => r is None,
            Err(HandlerError::Message(m)) => r matches Some(c) && c@ == m@,
            Err(HandlerError::Other(_)) => r matches Some(c) && c@ == failed_text(),
        },
{
    if !authorized {
        return Some(String::from_str("Invalid authorization."));
    }
    match outcome {
        Ok(()) => None,
        Err(HandlerError::Message(m)) => Some(m.clone()),
        Err(HandlerError::Other(_)) => Some(String::from_str("handling failed, error logged")),
    }
}

/// The inputs of a code-hosting event to run, in handler order, up to the
/// first abort; and that abort, if any. Handlers after it are not run.
pub open spec fn github_plan_spec<T>(steps: Seq<Dispatch<T>>) -> (Seq<T>, Option<HandlerError>)
    decreases steps.len(),
{
    if steps.len() == 0 {
        (seq![], None)
    } else {
        let (xs, stop) = github_plan_spec(steps.drop_last());
        if stop is Some {
            (xs, stop)
        } else {
            match steps.last() {
                Dispatch::Skip => (xs, None),
                Dispatch::Execute(x) => (xs.push(x), None),
                Dispatch::Abort(e) => (xs, Some(e)),
            }
        }
    }
}

/// Folds the turns of all code-hosting handlers, taken in their fixed
/// order.
pub fn github_plan<T>(steps: Vec<Dispatch<T>>) -> (r: (Vec<T>, Option<HandlerError>))
    ensures
        r.0@ == github_plan_spec(steps@).0,
        r.1 == github_plan_spec(steps@).1,
{
    let ghost orig = steps@;
    let mut steps = steps;
    let n = steps.len();
    let mut inputs: Vec<T> = Vec::new();
    let mut stop: Option<HandlerError> = None;
    let mut i: usize = 0;
    while i < n
        invariant
            n == orig.len(),
            i <= n,
            steps@ == orig.subrange(i as int, n as int),
            inputs@ == github_plan_spec(orig.subrange(0, i as int)).0,
            stop == github_plan_spec(orig.subrange(0, i as int)).1,
        decreases n - i,
    {
        let step = steps.remove(0);
        assert(orig.subrange(0, i + 1).drop_last() =~= orig.subrange(0, i as int));
        assert(steps@ =~= orig.subrange(i + 1, n as int));
        if stop.is_none() {
            match step {
                Dispatch::Skip => {},
                Dispatch::Execute(x) => {
                    inputs.push(x);
                },
                Dispatch::Abort(e) => {
                    stop = Some(e);
                },
            }
        }
        i = i + 1;
    }
    assert(orig.subrange(0, n as int) =~= orig);
    (inputs, stop)
}

/// The result of a code-hosting event's handlers: the first failed run, if
/// any ran and failed (an internal error); else the abort that ended the
/// handler list; else success.
pub fn github_result(stop: Option<HandlerError>, failed: Option<anyhow::Error>) -> (r: Result<
    (),
    HandlerError,
>)
    ensures
        failed matches Some(e) ==> r == Err::<(), HandlerError>(HandlerError::Other(e)),
        failed is None ==> match stop {
            Some(e) => r == Err::<(), HandlerError>(e),
            None => r is Ok,
        },
{
    match failed {
        Some(e) => Err(HandlerError::Other(e)),
        None => match stop {
            Some(e) => Err(e),
            None => Ok(()),
        },
    }
}

/// The messages of the failed post-processing steps, in order.
pub open spec fn post_errors(post: Seq<Result<(), String>>) -> Seq<Seq<char>>
    decreases post.len(),
{
    if post.len() == 0 {
        seq![]
    } else {
        match post.last() {
            Ok(()) => post_errors(post.drop_last()),
            Err(m) => post_errors(post.drop_last()).push(m@),
        }
    }
}

/// Ends dispatch of a code-hosting event. The post-processing steps ran
/// whatever the handlers did; their failures are only handed back to be
/// logged, and the result is the handlers' result unchanged.
pub fn finish_github(primary: Result<(), HandlerError>, post: Vec<Result<(), String>>) -> (r: (
    Result<(), HandlerError>,
    Vec<String>,
))
    ensures
        r.0 == primary,
        r.1@.map_values(|m: String| m@) == post_errors(post@),
{
    let n = post.len();
    let mut logs: Vec<String> = Vec::new();
    let mut i: usize = 0;
    while i < n
        invariant
            n == post@.len(),
            i <= n,
            logs@.map_values(|m: String| m@) == post_errors(post@.subrange(0, i as int)),
        decreases n - i,
    {
        assert(post@.subrange(0, i + 1).drop_last() =~= post@.subrange(0, i as int));
        let ghost before = logs@;
        match &post[i] {
            Ok(()) => {},
            Err(m) => {
                logs.push(m.clone());
                assert(logs@.map_values(|m: String| m@) =~= before.map_values(|m: String| m@).push(
                    m@,
                ));
            },
        }
        i = i + 1;
    }
    assert(post@.subrange(0, n as int) =~= post@);
    (primary, logs)
}

/// What a chat message's handlers decide, tried in their fixed order: the
/// first that does not skip wins, by running or by aborting.
pub open spec fn zulip_plan_spec<T>(steps: Seq<Dispatch<T>>) -> Result<Option<T>, HandlerError>
    decreases steps.len(),
{
    if steps.len() == 0 {
        Ok(None)
    } else {
        match zulip_plan_spec(steps.drop_last()) {
            Ok(None) => match steps.last() {
                Dispatch::Skip => Ok(None),
                Dispatch::Execute(x) => Ok(Some(x)),
                Dispatch::Abort(e) => Err(e),
            },
            decided => decided,
        }
    }
}

/// Folds the turns of all chat handlers: first match wins.
pub fn zulip_plan<T>(steps: Vec<Dispatch<T>>) -> (r: Result<Option<T>, HandlerError>)
    ensures
        r == zulip_plan_spec(steps@),
{
    let ghost orig = steps@;
    let mut steps = steps;
    let n = steps.len();
    let mut decided: Result<Option<T>, HandlerError> = Ok(None);
    let mut i: usize = 0;
    while i < n
        invariant
            n == orig.len(),
            i <= n,
            steps@ == orig.subrange(i as int, n as int),
            decided == zulip_plan_spec(orig.subrange(0, i as int)),
        decreases n - i,
    {
        let step = steps.remove(0);
        assert(orig.subrange(0, i + 1).drop_last() =~= orig.subrange(0, i as int));
        assert(steps@ =~= orig.subrange(i + 1, n as int));
        let open = match &decided {
            Ok(None) => true,
            _ => false,
        };
        if open {
            match step {
                Dispatch::Skip => {},
                Dispatch::Execute(x) => {
                    decided = Ok(Some(x));
                },
                Dispatch::Abort(e) => {
                    decided = Err(e);
                },
            }
        }
        i = i + 1;
    }
    assert(orig.subrange(0, n as int) =~= orig);
    decided
}

} // verus!
