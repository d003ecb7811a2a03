use freedesktop_desktop_entry as fde;
use kairo_core::entry::DesktopEntry;
use kairo_core::handler::declares_tag;
use kairo_core::store::{collect_entries, contains_id, SourceFile};
use kairo_core::{Error, UrlHandlerApp};

const FIREFOX: &str = "[Desktop Entry]
Version=1.0
Type=Application
Name=Firefox
Name[de]=Firefox
Comment=Browse the World Wide Web
Comment[de]=Im Internet surfen
Icon=firefox
Exec=firefox %u
Terminal=false
MimeType=text/html;x-scheme-handler/http;x-scheme-handler/https;
";

const BLACK_HOLE: &str = "[Desktop Entry]
Version=1.0
Type=Application
Terminal=false
MimeType=x-scheme-handler/http;x-scheme-handler/https;
Name=Black Hole Browser
Name[de]=Schwarzes Loch-Browser
Comment=A minimalistic browser
Comment[de]=Ein minimalistischer Browser
Exec=echo --arg \"Value with spaces\" %u
";

const IPFS: &str = "[Desktop Entry]
Type=Application
Name=IPFS Desktop
Exec=ipfs-desktop %U
MimeType=x-scheme-handler/ipfs;x-scheme-handler/ipns;x-scheme-handler/http
";

const NO_EXEC: &str = "[Desktop Entry]
Type=Application
Name=No Exec
MimeType=x-scheme-handler/gopher;
";

const EDITOR: &str = "[Desktop Entry]
Type=Application
Name=Editor
Exec=editor %F
";

fn entries_path() -> String {
    "/usr/share/applications".to_string()
}

fn file(dir: &str, name: &str, contents: &str) -> SourceFile {
    SourceFile { path: format!("{}/{}", dir, name), contents: contents.to_string() }
}

fn files() -> Vec<SourceFile> {
    let dir = entries_path();
    vec![
        file(&dir, "black-hole.desktop", BLACK_HOLE),
        file(&dir, "editor.desktop", EDITOR),
        file(&dir, "firefox.desktop", FIREFOX),
        file(&dir, "ipfs-desktop.desktop", IPFS),
        file(&dir, "no-exec.desktop", NO_EXEC),
    ]
}

fn handlers(scheme: &str, files: &[SourceFile]) -> Result<Vec<UrlHandlerApp>, Error> {
    let locales: [String; 0] = [];
    UrlHandlerApp::handlers_for_scheme(scheme, &locales, &collect_entries(files))
}

fn black_hole_de() -> DesktopEntry {
    DesktopEntry::from_str(&format!("{}/black-hole.desktop", entries_path()), BLACK_HOLE).unwrap()
}

fn icon_source(icon: &Option<String>) -> fde::IconSource {
    icon.as_deref().map(fde::IconSource::from_unknown).unwrap_or_default()
}

fn ids(apps: &[UrlHandlerApp]) -> Vec<&str> {
    apps.iter().map(|a| a.appid.as_str()).collect()
}

#[test]
fn handler_test_test_handlers_for_scheme() {
    let search_paths = files();

    let apps = handlers("http", &search_paths).unwrap();
    assert_eq!(apps.len(), 3);

    let apps = handlers("ipfs", &search_paths).unwrap();
    assert_eq!(apps.len(), 1);

    let err = handlers("file", &search_paths).unwrap_err();
    assert!(matches!(err, kairo_core::Error::NoHandlersFound(_)));
}

#[test]
fn handler_test_test_from_desktop_entry() {
    let entries_path = entries_path();

    let locales: [String; 0] = [];
    let de =
        DesktopEntry::from_str(&format!("{}/firefox.desktop", entries_path), FIREFOX).unwrap();
    let app = UrlHandlerApp::from_desktop_entry(de.clone(), &locales);

    assert_eq!(app.appid.as_str(), "firefox");
    assert_eq!(app.name.as_str(), "Firefox");
    assert_eq!(app.comment.unwrap().as_str(), "Browse the World Wide Web");
    assert_eq!(app.icon.as_deref(), Some("firefox"));
    assert!(matches!(
        icon_source(&app.icon),
        fde::IconSource::Name(name) if name == app.appid
    ));
    assert_eq!(app.path, de.path);

    // Loads localized name and comment
    let locales = ["de".to_string()];
    let de = black_hole_de();
    let app = UrlHandlerApp::from_desktop_entry(de, &locales);

    assert_eq!(app.name.as_str(), "Schwarzes Loch-Browser");
    assert_eq!(
        app.comment.unwrap().as_str(),
        "Ein minimalistischer Browser"
    );
    assert_eq!(app.icon, None);
    assert_eq!(icon_source(&app.icon), fde::IconSource::default());
}

#[test]
fn test_open_url() {
    let locales: [String; 0] = [];
    let de = black_hole_de();
    let app = UrlHandlerApp::from_desktop_entry(de, &locales);

    let url: url::Url = "https://github.com".parse().unwrap();
    let result = app.open_url(BLACK_HOLE, &locales, url.as_str());
    assert!(result.is_ok());
    assert_eq!(
        result.unwrap(),
        (
            "echo".to_string(),
            vec![
                "--arg".to_string(),
                "Value with spaces".to_string(),
                "https://github.com/".to_string()
            ]
        )
    );
}

#[test]
fn open_url_reports_a_descriptor_that_no_longer_decodes() {
    let locales: [String; 0] = [];
    let app = UrlHandlerApp::from_desktop_entry(black_hole_de(), &locales);
    assert_eq!(
        app.open_url("Name=outside any group\n", &locales, "https://github.com/"),
        Err(Error::DesktopEntryDecode)
    );
}

#[test]
fn handlers_are_exactly_the_declaring_descriptors_in_order() {
    let apps = handlers("http", &files()).unwrap();
    assert_eq!(ids(&apps), vec!["black-hole", "firefox", "ipfs-desktop"]);
    let apps = handlers("https", &files()).unwrap();
    assert_eq!(ids(&apps), vec!["black-hole", "firefox"]);
    let apps = handlers("ipns", &files()).unwrap();
    assert_eq!(ids(&apps), vec!["ipfs-desktop"]);
}

#[test]
fn no_handler_carries_the_scheme_asked_for() {
    assert_eq!(
        handlers("file", &files()).unwrap_err(),
        Error::NoHandlersFound("file".to_string())
    );
    assert_eq!(
        handlers("mailto", &[]).unwrap_err(),
        Error::NoHandlersFound("mailto".to_string())
    );
}

#[test]
fn scheme_that_forms_no_media_type_is_rejected() {
    assert_eq!(handlers("ht tp", &files()).unwrap_err(), Error::MimeFromStr);
    assert_eq!(handlers("a/b", &files()).unwrap_err(), Error::MimeFromStr);
    assert_eq!(handlers("", &files()).unwrap_err(), Error::NoHandlersFound("".to_string()));
}

#[test]
fn capability_tag_is_the_lower_case_essence() {
    let apps = handlers("HTTP", &files()).unwrap();
    assert_eq!(ids(&apps), vec!["black-hole", "firefox", "ipfs-desktop"]);
    let apps = handlers("http;q=1", &files()).unwrap();
    assert_eq!(ids(&apps), vec!["black-hole", "firefox", "ipfs-desktop"]);
}

#[test]
fn select_handlers_compares_the_tag_exactly() {
    let locales: [String; 0] = [];
    let entries = collect_entries(&files());
    let apps =
        UrlHandlerApp::select_handlers("http", "x-scheme-handler/http", &locales, &entries)
            .unwrap();
    assert_eq!(apps.len(), 3);
    assert_eq!(
        UrlHandlerApp::select_handlers("http", "X-Scheme-Handler/http", &locales, &entries),
        Err(Error::NoHandlersFound("http".to_string()))
    );
    assert_eq!(
        UrlHandlerApp::select_handlers("http", "x-scheme-handler/htt", &locales, &entries),
        Err(Error::NoHandlersFound("http".to_string()))
    );
    let apps = UrlHandlerApp::select_handlers("any", "text/html", &locales, &entries).unwrap();
    assert_eq!(ids(&apps), vec!["firefox"]);
}

#[test]
fn descriptor_without_exec_is_listed_but_cannot_be_launched() {
    let locales: [String; 0] = [];
    let apps = handlers("gopher", &files()).unwrap();
    assert_eq!(ids(&apps), vec!["no-exec"]);
    let err = apps[0].open_url(NO_EXEC, &locales, "gopher://example.com/").unwrap_err();
    assert_eq!(
        err,
        Error::ParseExecArgs(kairo_core::error::ExecParseError::ExecFieldNotFound {
            path: "/usr/share/applications/no-exec.desktop".to_string(),
        })
    );
}

#[test]
fn first_descriptor_of_an_identifier_wins() {
    let local = "/home/me/.local/share/applications";
    let shadowing = "[Desktop Entry]\nName=My Firefox\nExec=my-firefox %u\nMimeType=x-scheme-handler/http;\n";
    let mut all = vec![file(local, "firefox.desktop", shadowing)];
    all.extend(files());
    let entries = collect_entries(&all);
    let names: Vec<&str> = entries.iter().map(|e| e.appid.as_str()).collect();
    assert_eq!(names, vec!["firefox", "black-hole", "editor", "ipfs-desktop", "no-exec"]);
    assert_eq!(entries[0].path, "/home/me/.local/share/applications/firefox.desktop");

    let apps = handlers("http", &all).unwrap();
    assert_eq!(ids(&apps), vec!["firefox", "black-hole", "ipfs-desktop"]);
    assert_eq!(apps[0].name, "My Firefox");
    let apps = handlers("https", &all).unwrap();
    assert_eq!(ids(&apps), vec!["black-hole"]);
}

#[test]
fn handlers_in_files_lists_each_identifier_once() {
    let locales: [String; 0] = [];
    let mut all = files();
    all.extend(files());
    let apps = UrlHandlerApp::handlers_in_files("http", &locales, &all).unwrap();
    assert_eq!(ids(&apps), vec!["black-hole", "firefox", "ipfs-desktop"]);
    assert_eq!(
        UrlHandlerApp::handlers_in_files("file", &locales, &all),
        Err(Error::NoHandlersFound("file".to_string()))
    );
}

#[test]
fn files_that_do_not_decode_are_passed_over() {
    let dir = entries_path();
    let all = vec![
        file(&dir, "broken.desktop", "Name=outside any group\n"),
        file(&dir, "README.txt", FIREFOX),
        file(&dir, "bad-escape.desktop", "[Desktop Entry]\nName=Bad\\q\n"),
        file(&dir, "firefox.desktop", FIREFOX),
    ];
    let entries = collect_entries(&all);
    assert_eq!(entries.len(), 1);
    assert_eq!(entries[0].appid, "firefox");
    assert!(collect_entries(&[]).is_empty());
}

#[test]
fn contains_id_and_declares_tag_answer_exactly() {
    let entries = collect_entries(&files());
    assert!(contains_id(&entries, "firefox"));
    assert!(!contains_id(&entries, "Firefox"));
    assert!(!contains_id(&entries, "fire"));
    assert!(declares_tag(&entries[0], "x-scheme-handler/https"));
    assert!(declares_tag(&entries[0], ""));
    assert!(!declares_tag(&entries[0], "x-scheme-handler/ipfs"));
    assert!(!declares_tag(&entries[1], ""));
    assert!(!declares_tag(&entries[3], ""));
}

#[test]
fn name_falls_back_to_the_identifier() {
    let locales = vec!["de".to_string()];
    let de = DesktopEntry::from_str("/opt/tools/nameless.desktop", "[Desktop Entry]\nExec=x\n")
        .unwrap();
    let app = UrlHandlerApp::from_desktop_entry(de, &locales);
    assert_eq!(app.appid, "nameless");
    assert_eq!(app.name, "nameless");
    assert_eq!(app.comment, None);
    assert_eq!(app.icon, None);
    assert_eq!(app.path, "/opt/tools/nameless.desktop");
}
