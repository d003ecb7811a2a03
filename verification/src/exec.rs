//! Launch templates: field codes, their expansion, and the command line they yield.

use vstd::prelude::*;
use crate::entry::DesktopEntry;
use crate::error::{Error, ErrorView, ExecParseError, ExecParseErrorView};
use crate::text::{trim, trimmed};

verus! {

/// What one word of a launch template stands for.
#[derive(Debug, Clone, Copy, PartialEq, Eq)]
pub enum FieldCode {
    SingleFileName,
    FileList,
    SingleUrl,
    UrlList,
    IconKey,
    TranslatedName,
    DesktopFileLocation,
    /// A code that the descriptor format has retired.
    Deprecated,
    /// A word that starts with `%` and is no known code.
    Unknown,
    /// Any other word: a literal argument.
    Arg,
}

/// The meaning of the second character of a two-character code.
pub open spec fn code_of(c: char) -> FieldCode {
    if c == 'f' {
        FieldCode::SingleFileName
    } else if c == 'F' {
        FieldCode::FileList
    } else if c == 'u' {
        FieldCode::SingleUrl
    } else if c == 'U' {
        FieldCode::UrlList
    } else if c == 'i' {
        FieldCode::IconKey
    } else if c == 'c' {
        FieldCode::TranslatedName
    } else if c == 'k' {
        FieldCode::DesktopFileLocation
    } else if c == 'd' || c == 'D' || c == 'n' || c == 'N' || c == 'v' || c == 'm' {
        FieldCode::Deprecated
    } else {
        FieldCode::Unknown
    }
}

/// The meaning of a whole word: a code only if the word is exactly `%` and one
/// character; any other word that starts with `%` is unknown.
pub open spec fn classify(word: Seq<char>) -> FieldCode {
    if word.len() > 0 && word[0] == '%' {
        if word.len() == 2 {
            code_of(word[1])
        } else {
            FieldCode::Unknown
        }
    } else {
        FieldCode::Arg
    }
}

impl FieldCode {
    /// Classifies one word of a launch template.
    pub fn of_word(word: &str) -> (code: FieldCode)
        ensures
            code == classify(word@),
    {
        let n: usize = word.unicode_len();
        if n == 0 || word.get_char(0) != '%' {
            return FieldCode::Arg;
        }
        if n != 2 {
            return FieldCode::Unknown;
        }
        let c = word.get_char(1);
        if c == 'f' {
            FieldCode::SingleFileName
        } else if c == 'F' {
            FieldCode::FileList
        } else if c == 'u' {
            FieldCode::SingleUrl
        } else if c == 'U' {
            FieldCode::UrlList
        } else if c == 'i' {
            FieldCode::IconKey
        } else if c == 'c' {
            FieldCode::TranslatedName
        } else if c == 'k' {
            FieldCode::DesktopFileLocation
        } else if c == 'd' || c == 'D' || c == 'n' || c == 'N' || c == 'v' || c == 'm' {
            FieldCode::Deprecated
        } else {
            FieldCode::Unknown
        }
    }
}

#[verifier::external_type_specification]
#[verifier::external_body]
pub struct ExParseError(shell_words::ParseError);

/// The words into which POSIX shell rules split `line`: separated by white
/// space, with quotes removed and backslash escapes resolved; nothing where a
/// quote is left open.
pub uninterp spec fn shell_split(line: Seq<char>) -> Option<Seq<Seq<char>>>;

/// Splits a command line into words.
///
/// Trusted: `shell_words::split`, a state machine over the characters of its
/// argument alone, so its outcome is named by `shell_split`. It fails only for
/// a quote that is never closed.
#[verifier::external_body]
fn split_words(line: &str) -> (r: Result<Vec<String>, shell_words::ParseError>)
    ensures
        r is Ok <==> shell_split(line@) is Some,
        r matches Ok(words) ==> Some(words.deep_view()) == shell_split(line@),
{
    shell_words::split(line)
}

/// What the field codes of a template are replaced with.
pub struct ExecContext {
    /// The URLs to open.
    pub uris: Seq<Seq<char>>,
    /// The descriptor's icon key.
    pub icon: Option<Seq<char>>,
    /// The descriptor's display name for the preferred locales.
    pub name: Option<Seq<char>>,
    /// Where the descriptor was loaded from.
    pub path: Seq<char>,
}

/// A command and its arguments, or the reason why there is none.
pub type Invocation = Result<(Seq<char>, Seq<Seq<char>>), ErrorView>;

/// The words that one word of a template expands to; nothing for a code with
/// no value and for a deprecated or unknown code.
pub open spec fn expand_word(word: Seq<char>, ctx: ExecContext) -> Option<Seq<Seq<char>>> {
    match classify(word) {
        FieldCode::SingleFileName | FieldCode::SingleUrl => if ctx.uris.len() > 0 {
            Some(seq![ctx.uris[0]])
        } else {
            None
        },
        FieldCode::FileList | FieldCode::UrlList => Some(ctx.uris),
        FieldCode::IconKey => match ctx.icon {
            Some(icon) => Some(seq![icon]),
            None => None,
        },
        FieldCode::TranslatedName => match ctx.name {
            Some(name) => Some(seq![name]),
            None => None,
        },
        FieldCode::DesktopFileLocation => Some(seq![ctx.path]),
        FieldCode::Deprecated | FieldCode::Unknown => None,
        FieldCode::Arg => Some(seq![word]),
    }
}

/// The expansions of all words, in order; a word that expands to nothing
/// leaves no trace.
pub open spec fn expand_words(words: Seq<Seq<char>>, ctx: ExecContext) -> Seq<Seq<char>>
    decreases words.len(),
{
    if words.len() == 0 {
        Seq::empty()
    } else {
        expand_words(words.drop_last(), ctx) + match expand_word(words.last(), ctx) {
            Some(expansion) => expansion,
            None => Seq::empty(),
        }
    }
}

/// The command line that the words of a template give: the first expanded word
/// is the command, the others are its arguments.
pub open spec fn invocation_of_words(words: Seq<Seq<char>>, ctx: ExecContext) -> Invocation {
    let expanded = expand_words(words, ctx);
    if expanded.len() == 0 {
        Err(ErrorView::ParseExecArgs(ExecParseErrorView::InvalidExecArgs { path: ctx.path }))
    } else {
        Ok((expanded[0], expanded.skip(1)))
    }
}

/// A trimmed template without the pair of double quotes around it, if it has
/// one; nothing where it starts with a double quote and does not end with
/// another.
pub open spec fn unwrap_quotes(template: Seq<char>) -> Option<Seq<char>> {
    if template.len() > 0 && template[0] == '"' {
        if template.len() >= 2 && template.last() == '"' {
            Some(template.subrange(1, template.len() - 1))
        } else {
            None
        }
    } else {
        Some(template)
    }
}

/// What becomes of a template once the outcome of splitting it is known.
pub open spec fn invocation_of_split(split: Option<Seq<Seq<char>>>, ctx: ExecContext) -> Invocation {
    match split {
        Some(words) => invocation_of_words(words, ctx),
        None => Err(ErrorView::ExecArgsShellParse),
    }
}

/// The command line that a descriptor's launch template gives.
pub open spec fn invocation(template: Option<Seq<char>>, ctx: ExecContext) -> Invocation {
    match template {
        None => Err(ErrorView::ParseExecArgs(ExecParseErrorView::ExecFieldNotFound { path: ctx.path })),
        Some(t) => match unwrap_quotes(trimmed(t)) {
            None => Err(
                ErrorView::ParseExecArgs(
                    ExecParseErrorView::InvalidFormat { reason: "unmatched quote"@, path: ctx.path },
                ),
            ),
            Some(line) => invocation_of_split(shell_split(line), ctx),
        },
    }
}

/// The outcome of a parse as plain values.
pub open spec fn outcome(r: Result<(String, Vec<String>), Error>) -> Invocation {
    match r {
        Ok((command, arguments)) => Ok((command@, arguments.deep_view())),
        Err(e) => Err(e@),
    }
}

/// Removes the white space around a template and then the pair of double
/// quotes around it, if it has one.
pub fn unwrap_template(template: &str) -> (line: Option<&str>)
    ensures
        line.deep_view() == unwrap_quotes(trimmed(template@)),
{
    let t = trim(template);
    let n: usize = t.unicode_len();
    if n > 0 && t.get_char(0) == '"' {
        if n >= 2 && t.get_char(n - 1) == '"' {
            Some(t.substring_char(1, n - 1))
        } else {
            None
        }
    } else {
        Some(t)
    }
}

/// Turns the launch template of a descriptor into a command line.
pub struct ExecParser<'a> {
    de: &'a DesktopEntry,
    locales: &'a [String],
}

impl<'a> ExecParser<'a> {
    /// The descriptor being parsed.
    pub closed spec fn entry(&self) -> &DesktopEntry {
        self.de
    }

    /// The preferred locales.
    pub closed spec fn preferences(&self) -> &[String] {
        self.locales
    }

    /// What field codes are replaced with when `uris` are to be opened.
    pub open spec fn context(&self, uris: Seq<Seq<char>>) -> ExecContext {
        ExecContext {
            uris,
            icon: self.entry()@.value("Icon"@),
            name: self.entry()@.localized("Name"@, self.preferences().deep_view()),
            path: self.entry()@.path,
        }
    }

    /// A parser for the launch template of `de`.
    pub fn new(de: &'a DesktopEntry, locales: &'a [String]) -> (parser: ExecParser<'a>)
        ensures
            parser.entry() == de,
            parser.preferences() == locales,
    {
        ExecParser { de, locales }
    }

    /// Expands one word of the template.
    pub fn parse_arg(&self, arg: &str, uris: &[&str]) -> (expansion: Option<Vec<String>>)
        ensures
            expansion.deep_view() == expand_word(arg@, self.context(uris.deep_view())),
    {
        let mut out: Vec<String> = Vec::new();
        match FieldCode::of_word(arg) {
            FieldCode::SingleFileName | FieldCode::SingleUrl => {
                if uris.len() > 0 {
                    out.push(uris[0].to_owned());
                    proof {
                        assert(out.deep_view() =~= seq![uris.deep_view()[0]]);
                    }
                    Some(out)
                } else {
                    None
                }
            },
            FieldCode::FileList | FieldCode::UrlList => {
                let mut i: usize = 0;
                while i < uris.len()
                    invariant
                        i <= uris.len(),
                        out.deep_view() == uris.deep_view().take(i as int),
                    decreases uris.len() - i,
                {
                    let ghost before = out.deep_view();
                    out.push(uris[i].to_owned());
                    proof {
                        assert(uris.deep_view()[i as int] == uris[i as int]@);
                        assert(out.deep_view() =~= before.push(uris[i as int]@));
                        assert(out.deep_view() =~= uris.deep_view().take(i + 1));
                    }
                    i = i + 1;
                }
                proof {
                    assert(uris.deep_view().take(i as int) =~= uris.deep_view());
                }
                Some(out)
            },
            FieldCode::IconKey => match self.de.icon() {
                Some(icon) => {
                    out.push(icon.to_owned());
                    proof {
                        assert(out.deep_view() =~= seq![icon@]);
                    }
                    Some(out)
                },
                None => None,
            },
            FieldCode::TranslatedName => match self.de.name(self.locales) {
                Some(name) => {
                    out.push(name.to_owned());
                    proof {
                        assert(out.deep_view() =~= seq![name@]);
                    }
                    Some(out)
                },
                None => None,
            },
            FieldCode::DesktopFileLocation => {
                out.push(self.de.path.clone());
                proof {
                    assert(out.deep_view() =~= seq![self.de.path@]);
                }
                Some(out)
            },
            FieldCode::Deprecated | FieldCode::Unknown => None,
            FieldCode::Arg => {
                out.push(arg.to_owned());
                proof {
                    assert(out.deep_view() =~= seq![arg@]);
                }
                Some(out)
            },
        }
    }

    /// Expands the words of a split template and takes the first expanded word
    /// as the command.
    pub fn parse_words(&self, words: &[String], uris: &[&str]) -> (r: Result<
        (String, Vec<String>),
        Error,
    >)
        ensures
            outcome(r) == invocation_of_words(words.deep_view(), self.context(uris.deep_view())),
    {
        let ghost ctx = self.context(uris.deep_view());
        let mut expanded: Vec<String> = Vec::new();
        let mut i: usize = 0;
        proof {
            assert(expanded.deep_view() =~= expand_words(words.deep_view().take(0), ctx));
        }
        while i < words.len()
            invariant
                i <= words.len(),
                ctx == self.context(uris.deep_view()),
                expanded.deep_view() == expand_words(words.deep_view().take(i as int), ctx),
            decreases words.len() - i,
        {
            let ghost before = expanded.deep_view();
            proof {
                assert(words.deep_view().take(i + 1).drop_last() =~= words.deep_view().take(
                    i as int,
                ));
                assert(words.deep_view().take(i + 1).last() == words[i as int]@);
            }
            match self.parse_arg(words[i].as_str(), uris) {
                Some(mut expansion) => {
                    let ghost added = expansion.deep_view();
                    expanded.append(&mut expansion);
                    proof {
                        assert(expanded.deep_view() =~= before + added);
                    }
                },
                None => {
                    proof {
                        assert(before + Seq::<Seq<char>>::empty() =~= before);
                    }
                },
            }
            i = i + 1;
        }
        proof {
            assert(words.deep_view().take(i as int) =~= words.deep_view());
        }
        if expanded.len() == 0 {
            return Err(
                Error::ParseExecArgs(ExecParseError::InvalidExecArgs { path: self.de.path.clone() }),
            );
        }
        let ghost all = expanded.deep_view();
        let command = expanded.remove(0);
        proof {
            assert(expanded.deep_view() =~= all.skip(1));
        }
        Ok((command, expanded))
    }

    /// Parses the launch template and expands its field codes for `uris`.
    pub fn parse_with_uris(&self, uris: &[&str]) -> (r: Result<(String, Vec<String>), Error>)
        ensures
            outcome(r) == invocation(
                self.entry()@.value("Exec"@),
                self.context(uris.deep_view()),
            ),
    {
        let template = match self.de.exec() {
            Some(template) => template,
            None => {
                return Err(
                    Error::ParseExecArgs(
                        ExecParseError::ExecFieldNotFound { path: self.de.path.clone() },
                    ),
                );
            },
        };
        let line = match unwrap_template(template) {
            Some(line) => line,
            None => {
                return Err(
                    Error::ParseExecArgs(
                        ExecParseError::InvalidFormat {
                            reason: "unmatched quote".to_owned(),
                            path: self.de.path.clone(),
                        },
                    ),
                );
            },
        };
        match split_words(line) {
            Ok(words) => self.parse_words(words.as_slice(), uris),
            Err(_) => Err(Error::ExecArgsShellParse),
        }
    }
}

/// A template that starts, once trimmed, with a double quote and does not end
/// with a second one is refused as badly formatted, whatever else it holds.
pub proof fn lemma_unmatched_quote(template: Seq<char>, ctx: ExecContext)
    requires
        trimmed(template).len() > 0,
        trimmed(template)[0] == '"',
        trimmed(template).len() < 2 || trimmed(template).last() != '"',
    ensures
        invocation(Some(template), ctx) == Invocation::Err(
            ErrorView::ParseExecArgs(
                ExecParseErrorView::InvalidFormat { reason: "unmatched quote"@, path: ctx.path },
            ),
        ),
{
}

/// A descriptor without a launch template has no command line, whatever is to
/// be opened.
pub proof fn lemma_missing_template(ctx: ExecContext)
    ensures
        invocation(None, ctx) == Invocation::Err(
            ErrorView::ParseExecArgs(ExecParseErrorView::ExecFieldNotFound { path: ctx.path }),
        ),
{
}

/// A command line, where there is one, starts with the first word that the
/// template expands to, and its arguments are the words that follow: none is
/// lost and none is added.
pub proof fn lemma_invocation_keeps_all_words(words: Seq<Seq<char>>, ctx: ExecContext)
    ensures
        match invocation_of_words(words, ctx) {
            Ok((command, arguments)) => seq![command] + arguments == expand_words(words, ctx),
            Err(e) => expand_words(words, ctx).len() == 0 && e == ErrorView::ParseExecArgs(
                ExecParseErrorView::InvalidExecArgs { path: ctx.path },
            ),
        },
{
    let expanded = expand_words(words, ctx);
    if expanded.len() > 0 {
        assert(seq![expanded[0]] + expanded.skip(1) =~= expanded);
    }
}

} // verus!
