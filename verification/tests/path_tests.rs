use reniced::actions::match_text;
use reniced::path::{file_name, PathStyle};
use reniced::cli::MatchTarget;
use reniced::model::{ProcessEntry, ProcessKind};

#[test]
fn file_name_follows_path_components() {
    assert_eq!(file_name("/usr/bin/python3", PathStyle::Unix), Some("python3"));
    assert_eq!(file_name("python3", PathStyle::Unix), Some("python3"));
    assert_eq!(file_name("/usr/bin/", PathStyle::Unix), Some("bin"));
    assert_eq!(file_name("/usr/bin/.", PathStyle::Unix), Some("bin"));
    assert_eq!(file_name("/usr/bin//", PathStyle::Unix), Some("bin"));
    assert_eq!(file_name("./tool", PathStyle::Unix), Some("tool"));
    assert_eq!(file_name("/usr/..", PathStyle::Unix), None);
    assert_eq!(file_name("..", PathStyle::Unix), None);
    assert_eq!(file_name(".", PathStyle::Unix), None);
    assert_eq!(file_name("/", PathStyle::Unix), None);
    assert_eq!(file_name("", PathStyle::Unix), None);
    assert_eq!(file_name("a/...", PathStyle::Unix), Some("..."));
}

#[test]
fn file_name_agrees_with_std_path() {
    for p in ["/usr/bin/python3", "a/b/", "a/./", "./", "x/.", "/..", "a/b/..", "//", "a//b", "é/ü", ".hidden", "a/.hidden/"] {
        let expected = std::path::Path::new(p).file_name().and_then(|n| n.to_str());
        assert_eq!(file_name(p, PathStyle::Unix), expected, "path {:?}", p);
    }
}

#[test]
fn match_text_picks_the_field() {
    let p = ProcessEntry {
        pid: 7,
        cmd: "/opt/x/bin/worker --fast".to_string(),
        name: "worker".to_string(),
        exe: Some("/opt/x/bin/worker".to_string()),
        kind: ProcessKind::Thread,
    };
    assert_eq!(match_text(&p, MatchTarget::Name, PathStyle::Unix), Some("worker"));
    assert_eq!(match_text(&p, MatchTarget::Cmdline, PathStyle::Unix), Some("/opt/x/bin/worker --fast"));
    assert_eq!(match_text(&p, MatchTarget::Exe, PathStyle::Unix), Some("/opt/x/bin/worker"));
    assert_eq!(match_text(&p, MatchTarget::ExeBasename, PathStyle::Unix), Some("worker"));
}

fn w(p: &str) -> Option<&str> {
    file_name(p, PathStyle::Windows)
}

#[test]
fn windows_file_names() {
    assert_eq!(w("C:\\Program Files\\app.exe"), Some("app.exe"));
    assert_eq!(w("C:/dir/app.exe"), Some("app.exe"));
    assert_eq!(w("C:app.exe"), Some("app.exe"));
    assert_eq!(w("a\\b/c"), Some("c"));
    assert_eq!(w("C:"), None);
    assert_eq!(w("C:."), None);
    assert_eq!(w("C:\\"), None);
    assert_eq!(w("C:\\dir\\.\\"), Some("dir"));
    assert_eq!(w("C:\\dir\\.."), None);
    assert_eq!(w("\\\\server\\share"), None);
    assert_eq!(w("\\\\server\\share\\tools\\x.exe"), Some("x.exe"));
    assert_eq!(w("//server/share/x.exe"), Some("x.exe"));
    assert_eq!(w("\\\\server"), Some("server"));
    assert_eq!(w("\\\\?\\C:\\a/b"), Some("a/b"));
    assert_eq!(w("\\\\?\\C:\\a\\."), None);
    assert_eq!(w("\\\\?\\UNC\\srv\\sh\\f.exe"), Some("f.exe"));
    assert_eq!(w("\\\\?\\UNC\\srv\\sh"), None);
    assert_eq!(w("\\\\.\\COM1"), None);
    assert_eq!(w("\\\\.\\pipe\\name"), Some("name"));
    // On Unix a backslash is an ordinary character.
    assert_eq!(file_name("a\\b", PathStyle::Unix), Some("a\\b"));
}

#[test]
fn exe_basename_uses_the_platform_path_syntax() {
    let p = ProcessEntry {
        pid: 7,
        cmd: "worker".to_string(),
        name: "worker".to_string(),
        exe: Some("C:\\Tools\\worker.exe".to_string()),
        kind: ProcessKind::Process,
    };
    assert_eq!(match_text(&p, MatchTarget::ExeBasename, PathStyle::Windows), Some("worker.exe"));
    assert_eq!(match_text(&p, MatchTarget::ExeBasename, PathStyle::Unix), Some("C:\\Tools\\worker.exe"));
}
