use kairo_core::cli::{decide, listing_line, run, Action, Command};
use kairo_core::entry::DesktopEntry;
use kairo_core::error::ExecParseError;
use kairo_core::store::{collect_entries, SourceFile};
use kairo_core::{Error, UrlHandlerApp};

fn entries() -> Vec<DesktopEntry> {
    let files: Vec<SourceFile> = [
        ("a.desktop", "[Desktop Entry]\nName=A\nExec=a %u\nMimeType=x-scheme-handler/http;x-scheme-handler/ftp;\n"),
        ("b.desktop", "[Desktop Entry]\nName=B\nExec=b %u\nMimeType=x-scheme-handler/http;\n"),
    ]
    .iter()
    .map(|(name, text)| SourceFile {
        path: format!("/usr/share/applications/{}", name),
        contents: text.to_string(),
    })
    .collect();
    collect_entries(&files)
}

fn ids(apps: &[UrlHandlerApp]) -> Vec<&str> {
    apps.iter().map(|a| a.appid.as_str()).collect()
}

fn open(scheme: &str, no_prompt: bool) -> Result<Action, Error> {
    run(&Command::Open { of_url: scheme.to_string(), no_prompt }, &[], &entries())
}

#[test]
fn list_prefers_the_scheme_of_the_url() {
    let both = Command::List {
        url_scheme: Some("ftp".to_string()),
        scheme: Some("http".to_string()),
    };
    match run(&both, &[], &entries()).unwrap() {
        Action::Print(apps) => assert_eq!(ids(&apps), vec!["a"]),
        other => panic!("{:?}", other),
    }
    let scheme_only = Command::List { url_scheme: None, scheme: Some("http".to_string()) };
    match run(&scheme_only, &[], &entries()).unwrap() {
        Action::Print(apps) => assert_eq!(ids(&apps), vec!["a", "b"]),
        other => panic!("{:?}", other),
    }
}

#[test]
fn open_launches_a_sole_handler_and_asks_among_several() {
    match open("ftp", false).unwrap() {
        Action::Launch(app) => assert_eq!(app.appid, "a"),
        other => panic!("{:?}", other),
    }
    match open("http", false).unwrap() {
        Action::Prompt(apps) => assert_eq!(ids(&apps), vec!["a", "b"]),
        other => panic!("{:?}", other),
    }
    match open("http", true).unwrap() {
        Action::Launch(app) => assert_eq!(app.appid, "a"),
        other => panic!("{:?}", other),
    }
}

#[test]
fn requests_without_a_handler_fail() {
    assert_eq!(open("gopher", true), Err(Error::NoHandlersFound("gopher".to_string())));
    assert_eq!(open("go pher", false), Err(Error::MimeFromStr));
    let list = Command::List { url_scheme: Some("gopher".to_string()), scheme: None };
    assert_eq!(run(&list, &[], &entries()), Err(Error::NoHandlersFound("gopher".to_string())));
}

#[test]
fn decide_asks_where_nothing_can_be_launched() {
    let command = Command::Open { of_url: "http".to_string(), no_prompt: true };
    assert_eq!(decide(&command, Vec::new()), Action::Prompt(Vec::new()));
    let list = Command::List { url_scheme: None, scheme: Some("http".to_string()) };
    assert_eq!(decide(&list, Vec::new()), Action::Print(Vec::new()));
}

#[test]
fn listing_line_pads_the_identifier_to_sixteen_characters() {
    let app = |appid: &str, name: &str| UrlHandlerApp {
        appid: appid.to_string(),
        name: name.to_string(),
        comment: None,
        icon: None,
        path: String::new(),
    };
    assert_eq!(listing_line(&app("firefox", "Firefox")), "firefox          Firefox");
    assert_eq!(listing_line(&app("", "x")), "                 x");
    assert_eq!(listing_line(&app("sixteen-chars-id", "N")), "sixteen-chars-id N");
    assert_eq!(
        listing_line(&app("org.example.LongIdentifier", "Long")),
        "org.example.LongIdentifier Long"
    );
    assert_eq!(listing_line(&app("éé", "n")), format!("{:<16} {}", "éé", "n"));
}

#[test]
fn requested_scheme_is_that_of_the_url_first() {
    let both = Command::List { url_scheme: Some("a".to_string()), scheme: Some("b".to_string()) };
    assert_eq!(both.requested_scheme(), "a");
    let one = Command::List { url_scheme: None, scheme: Some("b".to_string()) };
    assert_eq!(one.requested_scheme(), "b");
    let open = Command::Open { of_url: "c".to_string(), no_prompt: false };
    assert_eq!(open.requested_scheme(), "c");
}

#[test]
fn messages_name_the_failure() {
    assert_eq!(
        Error::NoHandlersFound("file".to_string()).message(),
        "no handlers found for URL scheme: file"
    );
    assert_eq!(Error::MimeFromStr.message(), "failed to convert scheme to MIME type");
    assert_eq!(Error::DesktopEntryDecode.message(), "failed to open desktop entry");
    assert_eq!(
        Error::ExecArgsShellParse.message(),
        "failed to parse arguments: missing closing quote"
    );
    let invalid = ExecParseError::InvalidFormat {
        reason: "unmatched quote".to_string(),
        path: "/a/b.desktop".to_string(),
    };
    assert_eq!(invalid.message(), "invalid format in /a/b.desktop: unmatched quote");
    assert_eq!(
        Error::ParseExecArgs(invalid).message(),
        "failed to parse Exec command: invalid format in /a/b.desktop: unmatched quote"
    );
    assert_eq!(
        ExecParseError::InvalidExecArgs { path: "/a/b.desktop".to_string() }.message(),
        "invalid Exec arguments in /a/b.desktop"
    );
    assert_eq!(
        ExecParseError::ExecFieldNotFound { path: "/a/b.desktop".to_string() }.message(),
        "Exec key was not found in /a/b.desktop"
    );
}
