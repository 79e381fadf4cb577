//! The static asset responder.
//!
//! It serves a tree of files below a root directory, answers any path it
//! cannot resolve with the root's `index.html`, and rewrites `${NAME}`
//! placeholders in what it serves with the values of the environment.
//!
//! The responder touches no file itself. `handle` is a transition function:
//! it takes the state of a request and what the caller has just found out,
//! and returns the next state and what the caller has to do next.

use vstd::prelude::*;
use crate::error::GatewayError;
use crate::paths::{
    compute_ends_with_slash, compute_extension, compute_join, ends_with_slash, extension_of,
    join, lemma_file_name_of_join, lemma_last_position_at,
};
use crate::text::{
    append_chars, chars_of, lemma_replace_first_occurrence, lemma_replace_without_occurrence,
    occurs_at, pairs_view, replace, replace_all, same_text, string_of,
};

verus! {

/// The placeholder that stands for the variable `name`: `${name}`.
pub open spec fn token(name: Seq<char>) -> Seq<char> {
    seq!['$', '{'] + name + seq!['}']
}

/// `content` after the variables of `env` were substituted one after the
/// other, in the order of `env`: every occurrence of a variable's
/// placeholder becomes that variable's value. A placeholder that names no
/// variable of `env` is not touched.
pub open spec fn substitute(content: Seq<char>, env: Seq<(Seq<char>, Seq<char>)>) -> Seq<char>
    decreases env.len(),
{
    if env.len() == 0 {
        content
    } else {
        replace_all(substitute(content, env.drop_last()), token(env.last().0), env.last().1)
    }
}

/// The content type served for a file extension.
pub open spec fn content_type_of(extension: Seq<char>) -> Seq<char> {
    if extension == "js"@ {
        "text/javascript"@
    } else if extension == "css"@ {
        "text/css"@
    } else if extension == "html"@ {
        "text/html"@
    } else {
        "text/plain"@
    }
}

/// A page ready to be sent: its body and the content type that goes with it.
pub struct ModifiedPage {
    pub content: String,
    pub content_type: String,
}

/// A page as texts.
pub struct PageView {
    pub content: Seq<char>,
    pub content_type: Seq<char>,
}

impl View for ModifiedPage {
    type V = PageView;

    open spec fn view(&self) -> PageView {
        PageView { content: self.content@, content_type: self.content_type@ }
    }
}

impl ModifiedPage {
    /// The headers to send before the body.
    pub fn respond_to(&self) -> (headers: Vec<(String, String)>)
        ensures
            pairs_view(headers@) == seq![("content-type"@, self.content_type@)],
    {
        let mut headers: Vec<(String, String)> = Vec::new();
        headers.push(("content-type".to_owned(), self.content_type.clone()));
        assert(pairs_view(headers@) =~= seq![("content-type"@, self.content_type@)]);
        headers
    }
}

/// The page served for the file at `path` with the given content.
pub open spec fn render(
    path: Seq<char>,
    content: Seq<char>,
    env: Seq<(Seq<char>, Seq<char>)>,
) -> PageView {
    PageView {
        content: substitute(content, env),
        content_type: content_type_of(extension_of(path)),
    }
}

/// What the responder needs to know of a request.
pub struct StaticRequest {
    /// The path of the request's URI, as the client sent it.
    pub uri_path: String,
    /// The file the request names, relative to the root; `None` if the
    /// request's segments do not name a file.
    pub file_path: Option<String>,
}

/// A request as texts.
pub struct RequestView {
    pub uri_path: Seq<char>,
    pub file_path: Option<Seq<char>>,
}

impl View for StaticRequest {
    type V = RequestView;

    open spec fn view(&self) -> RequestView {
        RequestView {
            uri_path: self.uri_path@,
            file_path: match self.file_path {
                Some(p) => Some(p@),
                None => None,
            },
        }
    }
}

/// How far the handling of one request has come.
#[derive(Clone, Copy, Debug, PartialEq, Eq, Structural)]
pub enum StaticState {
    /// Nothing was done yet.
    Start,
    /// The caller is finding out whether the requested path is a directory.
    Probing,
    /// The caller is opening the requested file.
    OpeningFile,
    /// The caller is opening the `index.html` of the requested directory.
    OpeningDirectoryIndex,
    /// The caller is opening the `index.html` of the root.
    OpeningRootIndex,
    /// The request was answered.
    Done,
}

/// What the caller found out.
pub enum StaticEvent {
    /// The request arrived.
    Begin,
    /// The probed path is a directory, or is none.
    Directory(bool),
    /// The file was opened and read; `env` is the environment at that time.
    Opened { content: String, env: Vec<(String, String)> },
    /// The file could not be opened.
    Missing,
    /// The file was opened but could not be read.
    Unreadable,
}

/// An event as texts.
pub enum EventView {
    Begin,
    Directory(bool),
    Opened { content: Seq<char>, env: Seq<(Seq<char>, Seq<char>)> },
    Missing,
    Unreadable,
}

impl View for StaticEvent {
    type V = EventView;

    open spec fn view(&self) -> EventView {
        match self {
            StaticEvent::Begin => EventView::Begin,
            StaticEvent::Directory(d) => EventView::Directory(*d),
            StaticEvent::Opened { content, env } => EventView::Opened {
                content: content@,
                env: pairs_view(env@),
            },
            StaticEvent::Missing => EventView::Missing,
            StaticEvent::Unreadable => EventView::Unreadable,
        }
    }
}

/// What the caller has to do next.
pub enum StaticAction {
    /// Find out whether `path` is a directory.
    Probe { path: String },
    /// Open the file at `path` and read all of it.
    Open { path: String },
    /// Answer with this page.
    Respond(ModifiedPage),
    /// Answer with a permanent redirect to `path`.
    Redirect { path: String },
    /// Leave the request to the next handler.
    Forward,
    /// Answer with this failure.
    Fail(GatewayError),
}

/// An action as texts.
pub enum ActionView {
    Probe { path: Seq<char> },
    Open { path: Seq<char> },
    Respond(PageView),
    Redirect { path: Seq<char> },
    Forward,
    Fail(GatewayError),
}

impl View for StaticAction {
    type V = ActionView;

    open spec fn view(&self) -> ActionView {
        match self {
            StaticAction::Probe { path } => ActionView::Probe { path: path@ },
            StaticAction::Open { path } => ActionView::Open { path: path@ },
            StaticAction::Respond(page) => ActionView::Respond(page@),
            StaticAction::Redirect { path } => ActionView::Redirect { path: path@ },
            StaticAction::Forward => ActionView::Forward,
            StaticAction::Fail(e) => ActionView::Fail(*e),
        }
    }
}

impl ActionView {
    /// The HTTP status of the answer, where the action is one.
    pub open spec fn status_code(self) -> Option<u16> {
        match self {
            ActionView::Respond(_) => Some(200u16),
            ActionView::Redirect { .. } => Some(308u16),
            ActionView::Fail(e) => Some(e.status_code()),
            _ => None,
        }
    }
}

impl StaticAction {
    /// The HTTP status of the answer, where the action is one.
    pub fn status(&self) -> (code: Option<u16>)
        ensures
            code == self@.status_code(),
    {
        match self {
            StaticAction::Respond(_) => Some(200),
            StaticAction::Redirect { .. } => Some(308),
            StaticAction::Fail(e) => Some(e.status()),
            _ => None,
        }
    }
}

/// The file that is opened in `state` for a request that names `rel`.
pub open spec fn opened_path(root: Seq<char>, rel: Seq<char>, state: StaticState) -> Seq<char> {
    match state {
        StaticState::OpeningDirectoryIndex => join(join(root, rel), "index.html"@),
        StaticState::OpeningRootIndex => join(root, "index.html"@),
        _ => join(root, rel),
    }
}

/// One step of the responder below `root`.
///
/// A request that names no file is forwarded. A directory is redirected to
/// its path with `/` appended unless the request's path ends in `/`
/// already; then its `index.html` is opened. Any other path is opened as
/// it is. A file that cannot be opened is replaced by the root's
/// `index.html`, and the request is forwarded if that is missing too. A
/// file that was read is served with its placeholders substituted. An
/// event that the state does not wait for ends the request: it is forwarded.
pub open spec fn static_step(
    root: Seq<char>,
    request: RequestView,
    state: StaticState,
    event: EventView,
) -> (StaticState, ActionView) {
    match request.file_path {
        None => (StaticState::Done, ActionView::Forward),
        Some(rel) => match (state, event) {
            (StaticState::Start, EventView::Begin) => (
                StaticState::Probing,
                ActionView::Probe { path: join(root, rel) },
            ),
            (StaticState::Probing, EventView::Directory(true)) => if ends_with_slash(
                request.uri_path,
            ) {
                (
                    StaticState::OpeningDirectoryIndex,
                    ActionView::Open {
                        path: opened_path(root, rel, StaticState::OpeningDirectoryIndex),
                    },
                )
            } else {
                (StaticState::Done, ActionView::Redirect { path: request.uri_path.push('/') })
            },
            (StaticState::Probing, EventView::Directory(false)) => (
                StaticState::OpeningFile,
                ActionView::Open { path: opened_path(root, rel, StaticState::OpeningFile) },
            ),
            (StaticState::OpeningFile, EventView::Missing)
            | (StaticState::OpeningDirectoryIndex, EventView::Missing) => (
                StaticState::OpeningRootIndex,
                ActionView::Open { path: opened_path(root, rel, StaticState::OpeningRootIndex) },
            ),
            (StaticState::OpeningFile, EventView::Opened { content, env })
            | (StaticState::OpeningDirectoryIndex, EventView::Opened { content, env })
            | (StaticState::OpeningRootIndex, EventView::Opened { content, env }) => (
                StaticState::Done,
                ActionView::Respond(render(opened_path(root, rel, state), content, env)),
            ),
            (StaticState::OpeningFile, EventView::Unreadable)
            | (StaticState::OpeningDirectoryIndex, EventView::Unreadable)
            | (StaticState::OpeningRootIndex, EventView::Unreadable) => (
                StaticState::Done,
                ActionView::Fail(GatewayError::StaticAssetUnreadable),
            ),
            _ => (StaticState::Done, ActionView::Forward),
        },
    }
}

/// Serves the files below a root directory.
#[derive(Debug, Clone)]
pub struct StaticServerWithEnvInjection {
    root_path: String,
}

impl View for StaticServerWithEnvInjection {
    type V = Seq<char>;

    /// The root directory.
    closed spec fn view(&self) -> Seq<char> {
        self.root_path@
    }
}

impl StaticServerWithEnvInjection {
    /// A responder for the files below `path`.
    pub fn from(path: String) -> (server: Self)
        ensures
            server@ == path@,
    {
        StaticServerWithEnvInjection { root_path: path }
    }

    /// The root directory.
    pub fn root_path(&self) -> (path: &String)
        ensures
            path@ == self@,
    {
        &self.root_path
    }

    /// The content type served for a file with this extension.
    pub fn get_content_type(&self, extension: &str) -> (content_type: String)
        ensures
            content_type@ == content_type_of(extension@),
    {
        let ext = chars_of(extension);
        if same_text(&ext, &chars_of("js")) {
            "text/javascript".to_owned()
        } else if same_text(&ext, &chars_of("css")) {
            "text/css".to_owned()
        } else if same_text(&ext, &chars_of("html")) {
            "text/html".to_owned()
        } else {
            "text/plain".to_owned()
        }
    }

    /// The page for the file at `path` whose content is `content`: the
    /// content with the variables of `env` substituted, typed by the
    /// extension of `path`.
    pub fn process_and_response_with_file(
        &self,
        path: &str,
        content: &str,
        env: &Vec<(String, String)>,
    ) -> (page: ModifiedPage)
        ensures
            page@ == render(path@, content@, pairs_view(env@)),
    {
        let mut text = chars_of(content);
        let mut i: usize = 0;
        assert(pairs_view(env@).take(0) =~= Seq::<(Seq<char>, Seq<char>)>::empty());
        while i < env.len()
            invariant
                i <= env.len(),
                text@ == substitute(content@, pairs_view(env@).take(i as int)),
            decreases env.len() - i,
        {
            let mut pattern = chars_of("${");
            append_chars(&mut pattern, &chars_of(env[i].0.as_str()));
            pattern.push('}');
            proof {
                reveal_strlit("${");
                assert(pattern@ =~= token(env@[i as int].0@));
                let done = pairs_view(env@).take(i as int);
                let next = pairs_view(env@).take(i + 1);
                assert(next.drop_last() =~= done);
                assert(next.last() == (env@[i as int].0@, env@[i as int].1@));
            }
            text = replace(&text, &pattern, &chars_of(env[i].1.as_str()));
            i += 1;
        }
        assert(pairs_view(env@).take(env.len() as int) =~= pairs_view(env@));
        let extension = string_of(&compute_extension(&chars_of(path)));
        ModifiedPage {
            content: string_of(&text),
            content_type: self.get_content_type(extension.as_str()),
        }
    }

    /// One step in the handling of `request`: see `static_step`.
    pub fn handle(&self, request: &StaticRequest, state: StaticState, event: StaticEvent) -> (next: (
        StaticState,
        StaticAction,
    ))
        ensures
            (next.0, next.1@) == static_step(self@, request@, state, event@),
    {
        let rel = match &request.file_path {
            None => {
                return (StaticState::Done, StaticAction::Forward);
            },
            Some(rel) => chars_of(rel.as_str()),
        };
        let root = chars_of(self.root_path.as_str());
        let target = compute_join(&root, &rel);
        match state {
            StaticState::Start => match event {
                StaticEvent::Begin => (
                    StaticState::Probing,
                    StaticAction::Probe { path: string_of(&target) },
                ),
                _ => (StaticState::Done, StaticAction::Forward),
            },
            StaticState::Probing => match event {
                StaticEvent::Directory(true) => {
                    let mut uri = chars_of(request.uri_path.as_str());
                    if compute_ends_with_slash(&uri) {
                        let index = compute_join(&target, &chars_of("index.html"));
                        (
                            StaticState::OpeningDirectoryIndex,
                            StaticAction::Open { path: string_of(&index) },
                        )
                    } else {
                        uri.push('/');
                        (StaticState::Done, StaticAction::Redirect { path: string_of(&uri) })
                    }
                },
                StaticEvent::Directory(false) => (
                    StaticState::OpeningFile,
                    StaticAction::Open { path: string_of(&target) },
                ),
                _ => (StaticState::Done, StaticAction::Forward),
            },
            StaticState::OpeningFile
            | StaticState::OpeningDirectoryIndex
            | StaticState::OpeningRootIndex => {
                let root_index = compute_join(&root, &chars_of("index.html"));
                match event {
                    StaticEvent::Opened { content, env } => {
                        let opened = match state {
                            StaticState::OpeningDirectoryIndex => compute_join(
                                &target,
                                &chars_of("index.html"),
                            ),
                            StaticState::OpeningRootIndex => root_index,
                            _ => target,
                        };
                        let page = self.process_and_response_with_file(
                            string_of(&opened).as_str(),
                            content.as_str(),
                            &env,
                        );
                        (StaticState::Done, StaticAction::Respond(page))
                    },
                    StaticEvent::Missing => match state {
                        StaticState::OpeningRootIndex => (StaticState::Done, StaticAction::Forward),
                        _ => (
                            StaticState::OpeningRootIndex,
                            StaticAction::Open { path: string_of(&root_index) },
                        ),
                    },
                    StaticEvent::Unreadable => (
                        StaticState::Done,
                        StaticAction::Fail(GatewayError::StaticAssetUnreadable),
                    ),
                    _ => (StaticState::Done, StaticAction::Forward),
                }
            },
            StaticState::Done => (StaticState::Done, StaticAction::Forward),
        }
    }
}

/// The state of a request after `events`.
pub open spec fn state_after(
    root: Seq<char>,
    request: RequestView,
    events: Seq<EventView>,
) -> StaticState
    decreases events.len(),
{
    if events.len() == 0 {
        StaticState::Start
    } else {
        static_step(root, request, state_after(root, request, events.drop_last()), events.last()).0
    }
}

/// What the caller was told to do on the last of `events`.
pub open spec fn last_action(
    root: Seq<char>,
    request: RequestView,
    events: Seq<EventView>,
) -> ActionView
    recommends
        events.len() > 0,
{
    static_step(root, request, state_after(root, request, events.drop_last()), events.last()).1
}

/// One more event: the request takes one step from where it stood.
pub proof fn lemma_one_more_event(
    root: Seq<char>,
    request: RequestView,
    events: Seq<EventView>,
    event: EventView,
)
    ensures
        state_after(root, request, events.push(event)) == static_step(
            root,
            request,
            state_after(root, request, events),
            event,
        ).0,
        last_action(root, request, events.push(event)) == static_step(
            root,
            request,
            state_after(root, request, events),
            event,
        ).1,
{
    assert(events.push(event).drop_last() =~= events);
}

/// An `index.html` is served as `text/html`, wherever it lies.
pub proof fn lemma_index_is_html(dir: Seq<char>)
    ensures
        content_type_of(extension_of(join(dir, "index.html"@))) == "text/html"@,
{
    let name = "index.html"@;
    reveal_strlit("index.html");
    reveal_strlit("html");
    reveal_strlit("js");
    reveal_strlit("css");
    assert(name.len() == 10);
    lemma_file_name_of_join(dir, name);
    lemma_last_position_at(name, '.', 5);
    assert(name.skip(6) =~= "html"@);
}

/// A request for a directory whose path does not end in `/` is answered
/// with a permanent redirect to the same path with `/` appended.
pub proof fn lemma_directory_without_slash_redirects(root: Seq<char>, request: RequestView)
    requires
        request.file_path is Some,
        !ends_with_slash(request.uri_path),
    ensures
        ({
            let events = seq![EventView::Begin, EventView::Directory(true)];
            &&& last_action(root, request, events) == ActionView::Redirect {
                path: request.uri_path.push('/'),
            }
            &&& last_action(root, request, events).status_code() == Some(308u16)
            &&& state_after(root, request, events) == StaticState::Done
        }),
{
    let none = Seq::<EventView>::empty();
    assert(state_after(root, request, none) == StaticState::Start);
    lemma_one_more_event(root, request, none, EventView::Begin);
    lemma_one_more_event(root, request, none.push(EventView::Begin), EventView::Directory(true));
    assert(seq![EventView::Begin, EventView::Directory(true)] =~= none.push(EventView::Begin).push(
        EventView::Directory(true),
    ));
}

/// A request for a path that cannot be opened is answered with the root's
/// `index.html`, with status 200: the page holds the content of that file
/// with the variables substituted, as `text/html`. This holds for a file
/// that is missing and for a directory without an `index.html`.
pub proof fn lemma_missing_path_serves_root_index(
    root: Seq<char>,
    request: RequestView,
    is_directory: bool,
    content: Seq<char>,
    env: Seq<(Seq<char>, Seq<char>)>,
)
    requires
        request.file_path is Some,
        is_directory ==> ends_with_slash(request.uri_path),
    ensures
        ({
            let events = seq![
                EventView::Begin,
                EventView::Directory(is_directory),
                EventView::Missing,
                EventView::Opened { content, env },
            ];
            &&& last_action(root, request, events.drop_last()) == ActionView::Open {
                path: join(root, "index.html"@),
            }
            &&& last_action(root, request, events) == ActionView::Respond(
                PageView { content: substitute(content, env), content_type: "text/html"@ },
            )
            &&& last_action(root, request, events).status_code() == Some(200u16)
            &&& state_after(root, request, events) == StaticState::Done
        }),
{
    let none = Seq::<EventView>::empty();
    let probed = none.push(EventView::Begin).push(EventView::Directory(is_directory));
    assert(state_after(root, request, none) == StaticState::Start);
    lemma_one_more_event(root, request, none, EventView::Begin);
    lemma_one_more_event(
        root,
        request,
        none.push(EventView::Begin),
        EventView::Directory(is_directory),
    );
    lemma_one_more_event(root, request, probed, EventView::Missing);
    lemma_one_more_event(
        root,
        request,
        probed.push(EventView::Missing),
        EventView::Opened { content, env },
    );
    lemma_index_is_html(root);
    let events = seq![
        EventView::Begin,
        EventView::Directory(is_directory),
        EventView::Missing,
        EventView::Opened { content, env },
    ];
    assert(events =~= probed.push(EventView::Missing).push(EventView::Opened { content, env }));
    assert(events.drop_last() =~= probed.push(EventView::Missing));
}

/// A placeholder of a variable that is set is replaced by the variable's
/// value: in a content whose first `${name}` stands behind `before`, that
/// placeholder becomes `value`, `before` stays, and what follows is
/// substituted in the same way.
pub proof fn lemma_set_variable_is_substituted(
    before: Seq<char>,
    after: Seq<char>,
    name: Seq<char>,
    value: Seq<char>,
)
    requires
        forall|i: int|
            0 <= i < before.len() ==> !occurs_at(before + token(name) + after, token(name), i),
    ensures
        substitute(before + token(name) + after, seq![(name, value)]) == before + value
            + substitute(after, seq![(name, value)]),
{
    let env = seq![(name, value)];
    let none = Seq::<(Seq<char>, Seq<char>)>::empty();
    assert(env.drop_last() =~= none);
    assert(substitute(after, none) == after);
    assert(substitute(before + token(name) + after, none) == before + token(name) + after);
    lemma_replace_first_occurrence(before, token(name), after, value);
}

/// `content` holds the placeholder of the variable `name` somewhere.
pub open spec fn mentions(content: Seq<char>, name: Seq<char>) -> bool {
    exists|i: int| occurs_at(content, token(name), i)
}

/// Placeholders of variables that are not set are left as they are: a
/// content that holds the placeholder of no variable of `env` is served
/// unchanged, whatever other `${..}` it holds.
pub proof fn lemma_unset_variables_stay(content: Seq<char>, env: Seq<(Seq<char>, Seq<char>)>)
    requires
        forall|k: int| 0 <= k < env.len() ==> !mentions(content, (#[trigger] env[k]).0),
    ensures
        substitute(content, env) == content,
    decreases env.len(),
{
    if env.len() > 0 {
        let earlier = env.drop_last();
        assert forall|k: int| 0 <= k < earlier.len() implies !mentions(
            content,
            (#[trigger] earlier[k]).0,
        ) by {
            assert(earlier[k] == env[k]);
        }
        lemma_unset_variables_stay(content, earlier);
        assert(env.last() == env[env.len() - 1]);
        assert(!mentions(content, env[env.len() - 1].0));
        lemma_replace_without_occurrence(content, token(env.last().0), env.last().1);
    }
}

} // verus!
