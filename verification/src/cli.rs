//! The decisions of the command-line tool: which scheme a request is about,
//! and what to do with the applications that handle it.

use vstd::prelude::*;
use crate::entry::DesktopEntry;
use crate::error::{Error, ErrorView};
use crate::handler::{search, UrlHandlerApp, UrlHandlerAppView};

verus! {

/// A request, as the host tool read it from its arguments.
#[derive(Debug, Clone, PartialEq, Eq)]
pub enum Command {
    /// List the applications for the scheme of a URL, or for a scheme given
    /// as such.
    List { url_scheme: Option<String>, scheme: Option<String> },
    /// Open a URL whose scheme is `of_url`.
    Open { of_url: String, no_prompt: bool },
}

/// What the host tool is to do next.
#[derive(Debug, Clone, PartialEq, Eq)]
pub enum Action {
    /// Print each application's identifier and name.
    Print(Vec<UrlHandlerApp>),
    /// Launch this application on the URL without asking.
    Launch(UrlHandlerApp),
    /// Ask which of these applications is to open the URL.
    Prompt(Vec<UrlHandlerApp>),
}

/// An `Action` as plain values.
pub enum ActionView {
    Print(Seq<UrlHandlerAppView>),
    Launch(UrlHandlerAppView),
    Prompt(Seq<UrlHandlerAppView>),
}

impl View for Action {
    type V = ActionView;

    open spec fn view(&self) -> ActionView {
        match self {
            Action::Print(apps) => ActionView::Print(apps.deep_view()),
            Action::Launch(app) => ActionView::Launch(app@),
            Action::Prompt(apps) => ActionView::Prompt(apps.deep_view()),
        }
    }
}

impl Command {
    /// Whether the request names a scheme, directly or through a URL.
    pub open spec fn well_formed(&self) -> bool {
        match self {
            Command::List { url_scheme, scheme } => url_scheme is Some || scheme is Some,
            Command::Open { .. } => true,
        }
    }

    /// The scheme the request is about: that of the URL where one was given.
    pub open spec fn scheme(&self) -> Seq<char> {
        match self {
            Command::List { url_scheme: Some(s), .. } => s@,
            Command::List { url_scheme: None, scheme: Some(s) } => s@,
            Command::List { url_scheme: None, scheme: None } => Seq::empty(),
            Command::Open { of_url, .. } => of_url@,
        }
    }

    /// The scheme the request is about.
    pub fn requested_scheme(&self) -> (scheme: &str)
        requires
            self.well_formed(),
        ensures
            scheme@ == self.scheme(),
    {
        match self {
            Command::List { url_scheme: Some(s), .. } => s.as_str(),
            Command::List { url_scheme: None, scheme: Some(s) } => s.as_str(),
            Command::List { url_scheme: None, scheme: None } => vstd::pervasive::unreached(),
            Command::Open { of_url, .. } => of_url.as_str(),
        }
    }
}

/// What is done with the applications found for a request: a listing prints
/// them; opening launches the first where it is the only one or no prompt is
/// wanted, and else asks.
pub open spec fn action_for(command: Command, apps: Seq<UrlHandlerAppView>) -> ActionView {
    match command {
        Command::List { .. } => ActionView::Print(apps),
        Command::Open { no_prompt, .. } => if apps.len() > 0 && (no_prompt || apps.len() == 1) {
            ActionView::Launch(apps[0])
        } else {
            ActionView::Prompt(apps)
        },
    }
}

/// What a request leads to, given the outcome of the search for its scheme.
pub open spec fn decision(
    command: Command,
    found: Result<Seq<UrlHandlerAppView>, ErrorView>,
) -> Result<ActionView, ErrorView> {
    match found {
        Ok(apps) => Ok(action_for(command, apps)),
        Err(e) => Err(e),
    }
}

/// The outcome of a request as plain values.
pub open spec fn run_outcome(r: Result<Action, Error>) -> Result<ActionView, ErrorView> {
    match r {
        Ok(action) => Ok(action@),
        Err(e) => Err(e@),
    }
}

/// Decides what to do with the applications found for a request.
pub fn decide(command: &Command, mut apps: Vec<UrlHandlerApp>) -> (action: Action)
    ensures
        action@ == action_for(*command, apps.deep_view()),
{
    match command {
        Command::List { .. } => Action::Print(apps),
        Command::Open { no_prompt, .. } => {
            if apps.len() > 0 && (*no_prompt || apps.len() == 1) {
                Action::Launch(apps.swap_remove(0))
            } else {
                Action::Prompt(apps)
            }
        },
    }
}

/// Handles a request: searches `entries` for the applications that handle
/// its scheme and decides what to do with them.
pub fn run(command: &Command, locales: &[String], entries: &[DesktopEntry]) -> (r: Result<
    Action,
    Error,
>)
    requires
        command.well_formed(),
    ensures
        run_outcome(r) == decision(
            *command,
            search(command.scheme(), entries.deep_view(), locales.deep_view()),
        ),
{
    let found = UrlHandlerApp::handlers_for_scheme(command.requested_scheme(), locales, entries);
    match found {
        Ok(apps) => Ok(decide(command, apps)),
        Err(e) => Err(e),
    }
}

/// The width to which identifiers are padded in a listing.
pub const ID_WIDTH: usize = 16;

/// `text` followed by as many spaces as it takes to reach `width` characters.
pub open spec fn padded(text: Seq<char>, width: nat) -> Seq<char> {
    if text.len() >= width {
        text
    } else {
        text + Seq::new((width - text.len()) as nat, |i: int| ' ')
    }
}

/// The line that stands for an application in a listing: its identifier,
/// padded, a space, and its name.
pub open spec fn listing(app: UrlHandlerAppView) -> Seq<char> {
    padded(app.appid, ID_WIDTH as nat) + " "@ + app.name
}

/// Writes the line that stands for `app` in a listing.
pub fn listing_line(app: &UrlHandlerApp) -> (line: String)
    ensures
        line@ == listing(app@),
{
    proof {
        reveal_strlit(" ");
    }
    let mut line = app.appid.clone();
    let mut n: usize = app.appid.as_str().unicode_len();
    proof {
        assert(line@ + Seq::new(0, |i: int| ' ') =~= line@);
    }
    while n < ID_WIDTH
        invariant
            n >= app.appid@.len(),
            n > app.appid@.len() ==> n <= ID_WIDTH,
            line@ == app.appid@ + Seq::new((n - app.appid@.len()) as nat, |i: int| ' '),
            " "@.len() == 1,
            " "@[0] == ' ',
        decreases ID_WIDTH - n,
    {
        line.append(" ");
        n = n + 1;
        proof {
            assert(line@ =~= app.appid@ + Seq::new((n - app.appid@.len()) as nat, |i: int| ' '));
        }
    }
    proof {
        assert(line@ =~= padded(app.appid@, ID_WIDTH as nat));
    }
    line.append(" ");
    line.append(app.name.as_str());
    line
}

} // verus!
