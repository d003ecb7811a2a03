//! The scheme matcher: the applications whose descriptors declare support
//! for a URL scheme, and the preparation of the launch of the chosen one.

use vstd::prelude::*;
use crate::entry::{decoded, DesktopEntry, DesktopEntryView};
use crate::error::{Error, ErrorView, ExecParseErrorView};
use crate::exec::{invocation, outcome, ExecContext, ExecParser};
use crate::store::{collect_entries, collected, distinct_ids, SourceFile};
use crate::text::{index_or_len, lemma_index_or_len, str_eq};

verus! {

#[verifier::external_type_specification]
#[verifier::external_body]
pub struct ExFromStrError(mime::FromStrError);

/// The essence of the media type that `source` parses to: its type, a slash
/// and its subtype in lower case, without parameters; nothing where `source`
/// is no media type.
pub uninterp spec fn media_type_essence(source: Seq<char>) -> Option<Seq<char>>;

/// Whether `c` is an ASCII letter or digit, `+`, `-` or `.`: the characters
/// of a URL scheme, all of which may stand in the name of a media type.
pub open spec fn is_name_char(c: char) -> bool {
    ('a' <= c <= 'z') || ('A' <= c <= 'Z') || ('0' <= c <= '9') || c == '+' || c == '-' || c == '.'
}

/// Whether `source` is a type and a subtype made of such characters alone,
/// with one slash between them and nothing after them.
pub open spec fn is_plain_media_type(source: Seq<char>) -> bool {
    let slash = index_or_len(source, '/');
    &&& 0 < slash < source.len()
    &&& forall|i: int| 0 <= i < source.len() && i != slash ==> is_name_char(#[trigger] source[i])
}

/// `c` in lower case, if it is an ASCII capital letter.
pub open spec fn ascii_lower_char(c: char) -> char {
    if 'A' <= c <= 'Z' {
        ((c as u32) + 32) as char
    } else {
        c
    }
}

/// `s` with its ASCII capital letters in lower case.
pub open spec fn ascii_lower(s: Seq<char>) -> Seq<char> {
    Seq::new(s.len(), |i: int| ascii_lower_char(s[i]))
}

/// Parses a media type and returns its essence.
///
/// Trusted: `<mime::Mime as FromStr>::from_str` followed by
/// `mime::Mime::essence_str`. Both read nothing but the text, so the outcome
/// is named by `media_type_essence`; the parse fails exactly where there is no
/// essence. The parser accepts a type and a subtype of token characters,
/// keeps the text in ASCII lower case, and the essence of a media type
/// without parameters is that whole text.
#[verifier::external_body]
fn parse_essence(source: &str) -> (r: Result<String, mime::FromStrError>)
    ensures
        r is Ok <==> media_type_essence(source@) is Some,
        r matches Ok(essence) ==> Some(essence@) == media_type_essence(source@),
        is_plain_media_type(source@) ==> r.is_ok() && r.unwrap()@ == ascii_lower(source@),
{
    source.parse::<mime::Mime>().map(|m| m.essence_str().to_owned())
}

/// An application that can handle a URL scheme.
#[derive(Debug, Clone, PartialEq, Eq)]
pub struct UrlHandlerApp {
    pub appid: String,
    pub name: String,
    pub comment: Option<String>,
    pub icon: Option<String>,
    pub path: String,
}

/// A `UrlHandlerApp` as plain values.
pub struct UrlHandlerAppView {
    pub appid: Seq<char>,
    pub name: Seq<char>,
    pub comment: Option<Seq<char>>,
    pub icon: Option<Seq<char>>,
    pub path: Seq<char>,
}

impl DeepView for UrlHandlerApp {
    type V = UrlHandlerAppView;

    open spec fn deep_view(&self) -> UrlHandlerAppView {
        UrlHandlerAppView {
            appid: self.appid@,
            name: self.name@,
            comment: self.comment.deep_view(),
            icon: self.icon.deep_view(),
            path: self.path@,
        }
    }
}

impl View for UrlHandlerApp {
    type V = UrlHandlerAppView;

    open spec fn view(&self) -> UrlHandlerAppView {
        self.deep_view()
    }
}

/// The text that is parsed into the capability tag of `scheme`.
pub open spec fn capability_source(scheme: Seq<char>) -> Seq<char> {
    "x-scheme-handler/"@ + scheme
}

/// Whether `scheme` is made of the characters of a URL scheme alone.
pub open spec fn is_plain_scheme(scheme: Seq<char>) -> bool {
    forall|i: int| 0 <= i < scheme.len() ==> is_name_char(#[trigger] scheme[i])
}

/// The capability source of a scheme made of scheme characters is a plain
/// media type, and in lower case it is the prefix followed by the scheme in
/// lower case.
pub proof fn lemma_capability_source(scheme: Seq<char>)
    requires
        is_plain_scheme(scheme),
    ensures
        is_plain_media_type(capability_source(scheme)),
        ascii_lower(capability_source(scheme)) == "x-scheme-handler/"@ + ascii_lower(scheme),
{
    reveal_strlit("x-scheme-handler/");
    let prefix = "x-scheme-handler/"@;
    let source = capability_source(scheme);
    assert(prefix.len() == 17);
    assert(prefix[16] == '/');
    assert forall|j: int| 0 <= j < 16 implies is_name_char(#[trigger] prefix[j]) && prefix[j]
        != '/' && ascii_lower_char(prefix[j]) == prefix[j] by {
        assert(prefix[0] == 'x' && prefix[1] == '-' && prefix[2] == 's' && prefix[3] == 'c'
            && prefix[4] == 'h' && prefix[5] == 'e' && prefix[6] == 'm' && prefix[7] == 'e'
            && prefix[8] == '-' && prefix[9] == 'h' && prefix[10] == 'a' && prefix[11] == 'n'
            && prefix[12] == 'd' && prefix[13] == 'l' && prefix[14] == 'e' && prefix[15] == 'r');
    }
    assert forall|j: int| 0 <= j < 16 implies source[j] != '/' by {
        assert(source[j] == prefix[j]);
    }
    assert(source[16] == '/');
    lemma_index_or_len(source, '/', 16);
    assert forall|i: int| 0 <= i < source.len() && i != 16 implies is_name_char(
        #[trigger] source[i],
    ) by {
        if i < 16 {
            assert(source[i] == prefix[i]);
        } else {
            assert(source[i] == scheme[i - 17]);
        }
    }
    assert forall|i: int| 0 <= i < source.len() implies ascii_lower(source)[i] == (prefix
        + ascii_lower(scheme))[i] by {
        if i < 17 {
            assert(source[i] == prefix[i]);
        } else {
            assert(source[i] == scheme[i - 17]);
        }
    }
    assert(ascii_lower(source) =~= prefix + ascii_lower(scheme));
}

/// Whether a descriptor declares the capability `tag`.
pub open spec fn declares(de: DesktopEntryView, tag: Seq<char>) -> bool {
    match de.mime_types() {
        Some(tags) => tags.contains(tag),
        None => false,
    }
}

/// The descriptors that declare `tag`, in their order.
pub open spec fn handlers(entries: Seq<DesktopEntryView>, tag: Seq<char>) -> Seq<DesktopEntryView> {
    entries.filter(|de: DesktopEntryView| declares(de, tag))
}

/// The application that a descriptor describes, for the preferred locales:
/// its name falls back to its identifier.
pub open spec fn app_of(de: DesktopEntryView, preferences: Seq<Seq<char>>) -> UrlHandlerAppView {
    UrlHandlerAppView {
        appid: de.appid,
        name: match de.localized("Name"@, preferences) {
            Some(name) => name,
            None => de.appid,
        },
        comment: de.localized("Comment"@, preferences),
        icon: de.value("Icon"@),
        path: de.path,
    }
}

/// The applications of a list of descriptors, one for one.
pub open spec fn apps_of(entries: Seq<DesktopEntryView>, preferences: Seq<Seq<char>>) -> Seq<
    UrlHandlerAppView,
> {
    Seq::new(entries.len(), |i: int| app_of(entries[i], preferences))
}

/// Whether no two of `apps` share an identifier.
pub open spec fn distinct_app_ids(apps: Seq<UrlHandlerAppView>) -> bool {
    forall|i: int, j: int|
        0 <= i < j < apps.len() ==> (#[trigger] apps[i]).appid != (#[trigger] apps[j]).appid
}

/// The applications that handle a scheme whose capability tag is `tag`, or
/// the failure to find one.
pub open spec fn handlers_for_tag(
    scheme: Seq<char>,
    tag: Seq<char>,
    entries: Seq<DesktopEntryView>,
    preferences: Seq<Seq<char>>,
) -> Result<Seq<UrlHandlerAppView>, ErrorView> {
    let found = handlers(entries, tag);
    if found.len() == 0 {
        Err(ErrorView::NoHandlersFound(scheme))
    } else {
        Ok(apps_of(found, preferences))
    }
}

/// The applications that handle `scheme`, or the failure to find one. The
/// capability tag of a scheme is the essence of the media type that
/// `x-scheme-handler/` followed by the scheme parses to.
pub open spec fn search(
    scheme: Seq<char>,
    entries: Seq<DesktopEntryView>,
    preferences: Seq<Seq<char>>,
) -> Result<Seq<UrlHandlerAppView>, ErrorView> {
    match media_type_essence(capability_source(scheme)) {
        Some(tag) => handlers_for_tag(scheme, tag, entries, preferences),
        None => Err(ErrorView::MimeFromStr),
    }
}

/// What field codes are replaced with when a descriptor is launched on one URL.
pub open spec fn launch_context(
    de: DesktopEntryView,
    preferences: Seq<Seq<char>>,
    url: Seq<char>,
) -> ExecContext {
    ExecContext {
        uris: seq![url],
        icon: de.value("Icon"@),
        name: de.localized("Name"@, preferences),
        path: de.path,
    }
}

/// The command line that launches a decoded descriptor on one URL, or the
/// reason why there is none.
pub open spec fn launch(
    de: Option<DesktopEntryView>,
    preferences: Seq<Seq<char>>,
    url: Seq<char>,
) -> Result<(Seq<char>, Seq<Seq<char>>), ErrorView> {
    match de {
        Some(de) => invocation(de.value("Exec"@), launch_context(de, preferences, url)),
        None => Err(ErrorView::DesktopEntryDecode),
    }
}

/// The outcome of a search as plain values.
pub open spec fn search_outcome(r: Result<Vec<UrlHandlerApp>, Error>) -> Result<
    Seq<UrlHandlerAppView>,
    ErrorView,
> {
    match r {
        Ok(apps) => Ok(apps.deep_view()),
        Err(e) => Err(e@),
    }
}

/// Copies a text that may be absent.
fn owned(text: Option<&str>) -> (copy: Option<String>)
    ensures
        copy.deep_view() == text.deep_view(),
{
    match text {
        Some(t) => Some(t.to_owned()),
        None => None,
    }
}

/// Tells whether a descriptor declares the capability `tag`.
pub fn declares_tag(de: &DesktopEntry, tag: &str) -> (found: bool)
    ensures
        found == declares(de@, tag@),
{
    match de.mime_type() {
        Some(tags) => {
            let mut i: usize = 0;
            while i < tags.len()
                invariant
                    i <= tags.len(),
                    de@.mime_types() == Some(tags.deep_view()),
                    forall|j: int| 0 <= j < i ==> tags.deep_view()[j] != tag@,
                decreases tags.len() - i,
            {
                if str_eq(tags[i].as_str(), tag) {
                    proof {
                        assert(tags.deep_view()[i as int] == tag@);
                    }
                    return true;
                }
                i = i + 1;
            }
            false
        },
        None => false,
    }
}

impl UrlHandlerApp {
    /// Describes the application of a descriptor for the preferred locales.
    pub fn from_desktop_entry(de: DesktopEntry, locales: &[String]) -> (app: UrlHandlerApp)
        ensures
            app@ == app_of(de@, locales.deep_view()),
    {
        Self::describe(&de, locales)
    }

    /// Describes the application of a borrowed descriptor.
    pub fn describe(de: &DesktopEntry, locales: &[String]) -> (app: UrlHandlerApp)
        ensures
            app@ == app_of(de@, locales.deep_view()),
    {
        let name = match de.name(locales) {
            Some(name) => name.to_owned(),
            None => de.appid.clone(),
        };
        let comment = owned(de.comment(locales));
        let icon = owned(de.icon());
        UrlHandlerApp { appid: de.appid.clone(), name, comment, icon, path: de.path.clone() }
    }

    /// Selects among `entries` the applications that declare the capability
    /// `tag`, which stands for `scheme`, in the order of `entries`.
    pub fn select_handlers(
        scheme: &str,
        tag: &str,
        locales: &[String],
        entries: &[DesktopEntry],
    ) -> (r: Result<Vec<UrlHandlerApp>, Error>)
        ensures
            search_outcome(r) == handlers_for_tag(
                scheme@,
                tag@,
                entries.deep_view(),
                locales.deep_view(),
            ),
            r matches Ok(apps) ==> apps.len() > 0 && (distinct_ids(entries.deep_view())
                ==> distinct_app_ids(apps.deep_view())),
    {
        let ghost all = entries.deep_view();
        let ghost prefs = locales.deep_view();
        let mut apps: Vec<UrlHandlerApp> = Vec::new();
        let mut i: usize = 0;
        proof {
            assert(apps.deep_view() =~= apps_of(handlers(all.take(0), tag@), prefs));
        }
        while i < entries.len()
            invariant
                i <= entries.len(),
                all == entries.deep_view(),
                prefs == locales.deep_view(),
                apps.deep_view() == apps_of(handlers(all.take(i as int), tag@), prefs),
            decreases entries.len() - i,
        {
            let ghost before = apps.deep_view();
            proof {
                assert(all.take(i + 1).drop_last() =~= all.take(i as int));
                assert(all.take(i + 1).last() == entries[i as int]@);
                lemma_handlers_step(all.take(i + 1), tag@);
            }
            if declares_tag(&entries[i], tag) {
                let app = Self::describe(&entries[i], locales);
                apps.push(app);
                proof {
                    assert(apps.deep_view() =~= before.push(app@));
                    assert(apps.deep_view() =~= apps_of(handlers(all.take(i + 1), tag@), prefs));
                }
            }
            i = i + 1;
        }
        proof {
            assert(all.take(i as int) =~= all);
            lemma_handlers_exact(all, tag@);
            let found = handlers(all, tag@);
            if distinct_ids(all) {
                assert forall|a: int, b: int| 0 <= a < b < apps.len() implies (
                #[trigger] apps.deep_view()[a]).appid != (#[trigger] apps.deep_view()[b]).appid by {
                    assert(found[a].appid != found[b].appid);
                }
            }
        }
        if apps.len() == 0 {
            Err(Error::NoHandlersFound(scheme.to_owned()))
        } else {
            Ok(apps)
        }
    }

    /// Finds among `entries` the applications that handle `scheme`, in the
    /// order of `entries`. The capability tag of a scheme is the essence of
    /// the media type `x-scheme-handler/<scheme>`.
    pub fn handlers_for_scheme(scheme: &str, locales: &[String], entries: &[DesktopEntry]) -> (r:
        Result<Vec<UrlHandlerApp>, Error>)
        ensures
            search_outcome(r) == search(scheme@, entries.deep_view(), locales.deep_view()),
            is_plain_scheme(scheme@) ==> search_outcome(r) == handlers_for_tag(
                scheme@,
                "x-scheme-handler/"@ + ascii_lower(scheme@),
                entries.deep_view(),
                locales.deep_view(),
            ),
            r matches Ok(apps) ==> apps.len() > 0 && (distinct_ids(entries.deep_view())
                ==> distinct_app_ids(apps.deep_view())),
    {
        let source = String::from_str("x-scheme-handler/").concat(scheme);
        proof {
            if is_plain_scheme(scheme@) {
                lemma_capability_source(scheme@);
            }
        }
        match parse_essence(source.as_str()) {
            Ok(tag) => Self::select_handlers(scheme, tag.as_str(), locales, entries),
            Err(_) => Err(Error::MimeFromStr),
        }
    }

    /// Finds the applications that handle `scheme` among the descriptors that
    /// `files` hold, the files being given in the order of their priority.
    /// No two of the applications found share an identifier.
    pub fn handlers_in_files(scheme: &str, locales: &[String], files: &[SourceFile]) -> (r: Result<
        Vec<UrlHandlerApp>,
        Error,
    >)
        ensures
            search_outcome(r) == search(
                scheme@,
                collected(files.deep_view()),
                locales.deep_view(),
            ),
            r matches Ok(apps) ==> apps.len() > 0 && distinct_app_ids(apps.deep_view()),
    {
        let entries = collect_entries(files);
        Self::handlers_for_scheme(scheme, locales, entries.as_slice())
    }

    /// Prepares the launch of this application on `url`: decodes `contents`,
    /// the text of the descriptor at this application's path, and turns its
    /// launch template into a command and its arguments.
    pub fn open_url(&self, contents: &str, locales: &[String], url: &str) -> (r: Result<
        (String, Vec<String>),
        Error,
    >)
        ensures
            outcome(r) == launch(decoded(self.path@, contents@), locales.deep_view(), url@),
    {
        let de = match DesktopEntry::from_str(self.path.as_str(), contents) {
            Ok(de) => de,
            Err(e) => {
                return Err(e);
            },
        };
        let uris: [&str; 1] = [url];
        let parser = ExecParser::new(&de, locales);
        let one = uris.as_slice();
        proof {
            assert(one.deep_view() =~= seq![url@]);
        }
        parser.parse_with_uris(one)
    }
}

/// Whether `first` stands in `entries` at an earlier place than `second`.
pub open spec fn stands_before(
    entries: Seq<DesktopEntryView>,
    first: DesktopEntryView,
    second: DesktopEntryView,
) -> bool {
    exists|i: int, j: int|
        0 <= i < j < entries.len() && #[trigger] entries[i] == first && #[trigger] entries[j]
            == second
}

/// The handlers of a tag among some descriptors are those among all but the
/// last, followed by the last if it declares the tag.
pub proof fn lemma_handlers_step(entries: Seq<DesktopEntryView>, tag: Seq<char>)
    requires
        entries.len() > 0,
    ensures
        handlers(entries, tag) == if declares(entries.last(), tag) {
            handlers(entries.drop_last(), tag).push(entries.last())
        } else {
            handlers(entries.drop_last(), tag)
        },
{
    reveal(Seq::filter);
}

/// The handlers of a tag are exactly the descriptors that declare it, each as
/// often as it was given and in the order in which they were given; where no
/// two descriptors share an identifier, no two handlers do.
pub proof fn lemma_handlers_exact(entries: Seq<DesktopEntryView>, tag: Seq<char>)
    ensures
        handlers(entries, tag).len() <= entries.len(),
        forall|a: int|
            0 <= a < handlers(entries, tag).len() ==> declares(
                #[trigger] handlers(entries, tag)[a],
                tag,
            ) && entries.contains(handlers(entries, tag)[a]),
        forall|i: int|
            0 <= i < entries.len() && declares(#[trigger] entries[i], tag) ==> handlers(
                entries,
                tag,
            ).contains(entries[i]),
        forall|a: int, b: int|
            0 <= a < b < handlers(entries, tag).len() ==> #[trigger] stands_before(
                entries,
                handlers(entries, tag)[a],
                handlers(entries, tag)[b],
            ),
        distinct_ids(entries) ==> distinct_ids(handlers(entries, tag)),
    decreases entries.len(),
{
    let found = handlers(entries, tag);
    if entries.len() > 0 {
        let earlier = entries.drop_last();
        let before = handlers(earlier, tag);
        let n = entries.len() - 1;
        lemma_handlers_exact(earlier, tag);
        lemma_handlers_step(entries, tag);
        assert forall|a: int| 0 <= a < found.len() implies declares(#[trigger] found[a], tag)
            && entries.contains(found[a]) by {
            if a < before.len() {
                let i = choose|i: int| 0 <= i < earlier.len() && earlier[i] == before[a];
                assert(entries[i] == found[a]);
            } else {
                assert(entries[n] == found[a]);
            }
        }
        assert forall|i: int| 0 <= i < entries.len() && declares(
            #[trigger] entries[i],
            tag,
        ) implies found.contains(entries[i]) by {
            if i < n {
                assert(earlier[i] == entries[i]);
                let a = choose|a: int| 0 <= a < before.len() && before[a] == earlier[i];
                assert(found[a] == entries[i]);
            } else {
                assert(found[found.len() - 1] == entries[i]);
            }
        }
        assert forall|a: int, b: int| 0 <= a < b < found.len() implies #[trigger] stands_before(
            entries,
            found[a],
            found[b],
        ) by {
            if b < before.len() {
                assert(stands_before(earlier, before[a], before[b]));
                let (i, j) = choose|i: int, j: int|
                    0 <= i < j < earlier.len() && #[trigger] earlier[i] == before[a]
                        && #[trigger] earlier[j] == before[b];
                assert(entries[i] == found[a] && entries[j] == found[b]);
            } else {
                assert(earlier.contains(before[a]));
                let i = choose|i: int| 0 <= i < earlier.len() && earlier[i] == before[a];
                assert(entries[i] == found[a] && entries[n] == found[b]);
            }
        }
    }
    if distinct_ids(entries) {
        assert forall|a: int, b: int| 0 <= a < b < found.len() implies (#[trigger] found[a]).appid
            != (#[trigger] found[b]).appid by {
            assert(stands_before(entries, found[a], found[b]));
            let (i, j) = choose|i: int, j: int|
                0 <= i < j < entries.len() && #[trigger] entries[i] == found[a]
                    && #[trigger] entries[j] == found[b];
            assert(entries[i].appid != entries[j].appid);
        }
    }
}

/// A search fails for want of a handler exactly where no descriptor declares
/// the tag, and the failure carries the scheme that was asked for.
pub proof fn lemma_no_handlers(
    scheme: Seq<char>,
    tag: Seq<char>,
    entries: Seq<DesktopEntryView>,
    preferences: Seq<Seq<char>>,
)
    ensures
        (forall|i: int| 0 <= i < entries.len() ==> !declares(#[trigger] entries[i], tag))
            <==> handlers_for_tag(scheme, tag, entries, preferences) is Err,
        handlers_for_tag(scheme, tag, entries, preferences) matches Err(e) ==> e
            == ErrorView::NoHandlersFound(scheme),
        handlers_for_tag(scheme, tag, entries, preferences) matches Ok(apps) ==> apps
            == apps_of(handlers(entries, tag), preferences) && apps.len() > 0,
{
    lemma_handlers_exact(entries, tag);
    let found = handlers(entries, tag);
    if found.len() > 0 {
        assert(declares(found[0], tag) && entries.contains(found[0]));
    } else {
        assert forall|i: int| 0 <= i < entries.len() implies !declares(
            #[trigger] entries[i],
            tag,
        ) by {
            if declares(entries[i], tag) {
                assert(found.contains(entries[i]));
            }
        }
    }
}

/// A descriptor without a launch template is found like any other that
/// declares the tag; only its launch fails, for want of the template.
pub proof fn lemma_listed_without_template(
    entries: Seq<DesktopEntryView>,
    i: int,
    tag: Seq<char>,
    preferences: Seq<Seq<char>>,
    url: Seq<char>,
)
    requires
        0 <= i < entries.len(),
        declares(entries[i], tag),
        entries[i].value("Exec"@) is None,
    ensures
        handlers(entries, tag).contains(entries[i]),
        launch(Some(entries[i]), preferences, url) == Err::<(Seq<char>, Seq<Seq<char>>), ErrorView>(
            ErrorView::ParseExecArgs(
                ExecParseErrorView::ExecFieldNotFound { path: entries[i].path },
            ),
        ),
{
    lemma_handlers_exact(entries, tag);
}

} // verus!
