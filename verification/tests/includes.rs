use puressh::config::client::SshClientConfig;
use puressh::config::includes::{
    expand_includes, expand_tilde, resolve_relative, tokenize_file_with_includes, Expansion,
    FileEntry, Snapshot, SourceFile, MAX_INCLUDE_DEPTH,
};
use puressh::config::parser::tokenize;
use puressh::config::server::SshServerConfig;
use puressh::config::walk::{
    contains_glob_meta, expand_glob, glob_segment_matches, DirEntry, Walk,
};
use puressh::config::ConfigError;

/// A file system in memory: absolute paths with their contents.
struct Files {
    files: Vec<(String, String)>,
}

impl Files {
    fn new(files: &[(&str, &str)]) -> Self {
        let files = files
            .iter()
            .map(|(p, t)| (p.to_string(), t.to_string()))
            .collect();
        Files { files }
    }

    fn read(&self, path: &str) -> Option<SourceFile> {
        let (p, t) = self.files.iter().find(|(p, _)| p == path)?;
        let dir = p[..p.rfind('/').unwrap()].to_string();
        Some(SourceFile {
            text: t.clone(),
            dir,
        })
    }

    /// The names in a directory, last one first.
    fn list(&self, dir: &str) -> Option<Vec<String>> {
        let prefix = if dir == "/" { dir.to_string() } else { format!("{dir}/") };
        let mut names: Vec<String> = Vec::new();
        for (p, _) in self.files.iter().rev() {
            if let Some(rest) = p.strip_prefix(&prefix) {
                let name = rest.split('/').next().unwrap().to_string();
                if !names.contains(&name) {
                    names.push(name);
                }
            }
        }
        if names.is_empty() {
            return None;
        }
        Some(names)
    }

    fn glob(&self, pattern: &str) -> Vec<String> {
        let mut seen: Vec<DirEntry> = Vec::new();
        loop {
            match expand_glob(pattern, &seen) {
                Walk::Done(found) => return found,
                Walk::List(path) => {
                    let names = self.list(&path);
                    seen.push(DirEntry { path, names });
                }
            }
        }
    }

    fn expand(&self, src: &str, dir: &str) -> Expansion {
        let mut seen = Snapshot::new();
        loop {
            let lines = tokenize(src).unwrap();
            match expand_includes(lines, dir, 0, Some("/home/me"), &seen) {
                Expansion::List(path) => {
                    let names = self.list(&path);
                    seen.dirs.push(DirEntry { path, names });
                }
                Expansion::Read(path) => {
                    let file = self.read(&path);
                    seen.files.push(FileEntry { path, file });
                }
                done => return done,
            }
        }
    }

    fn load(&self, path: &str) -> Result<SshClientConfig, ConfigError> {
        let root = self.read(path).unwrap();
        match self.expand(&root.text, &root.dir) {
            Expansion::Done(lines) => SshClientConfig::from_lines(lines),
            Expansion::Failed(e) => Err(e),
            other => panic!("not finished: {other:?}"),
        }
    }
}

#[test]
fn contains_glob_meta_works() {
    assert!(contains_glob_meta("foo*"));
    assert!(contains_glob_meta("foo?"));
    assert!(contains_glob_meta("foo[a-z]"));
    assert!(!contains_glob_meta("foo.bar"));
}

#[test]
fn expand_tilde_replaces_leading_tilde() {
    let home = Some("/tmp/fake-home");
    assert_eq!(expand_tilde("~/foo", home), "/tmp/fake-home/foo");
    assert_eq!(expand_tilde("~", home), "/tmp/fake-home");
    assert_eq!(expand_tilde("nottilde", home), "nottilde");
}

#[test]
fn tilde_without_a_home_or_for_another_user_is_kept() {
    assert_eq!(expand_tilde("~/foo", None), "~/foo");
    assert_eq!(expand_tilde("~bob/foo", Some("/h")), "~bob/foo");
    assert_eq!(expand_tilde("~//etc/x", Some("/h")), "/etc/x");
}

#[test]
fn relative_paths_are_rooted() {
    assert_eq!(resolve_relative("a.cfg", "/etc/ssh"), "/etc/ssh/a.cfg");
    assert_eq!(resolve_relative("a.cfg", "/etc/ssh/"), "/etc/ssh/a.cfg");
    assert_eq!(resolve_relative("/a.cfg", "/etc/ssh"), "/a.cfg");
    assert_eq!(resolve_relative("a.cfg", ""), "a.cfg");
}

#[test]
fn include_pulls_in_settings() {
    let fs = Files::new(&[
        ("/d/leaf.cfg", "Port 4242\n"),
        ("/d/root.cfg", "Host gw\n  HostName 10.0.0.1\nInclude /d/leaf.cfg\n"),
    ]);
    let cfg = fs.load("/d/root.cfg").unwrap();
    // Include is inside the `Host gw` block: its Port applies to gw.
    assert_eq!(cfg.lookup("gw").port, Some(4242));
    assert_eq!(cfg.lookup("gw").host_name.as_deref(), Some("10.0.0.1"));
}

#[test]
fn include_glob_pulls_all_matches() {
    let fs = Files::new(&[
        ("/d/conf.d/01.cfg", "Host gw\n  Port 2001\n"),
        ("/d/conf.d/02.cfg", "Host gw\n  User u2\n"),
        ("/d/conf.d/03.cfg", "Host gw\n  IdentityFile /tmp/k3\n"),
        ("/d/conf.d/skip.txt", "Host gw\n  Port 9999\n"),
        ("/d/root.cfg", "Include /d/conf.d/*.cfg\n"),
    ]);
    let cfg = fs.load("/d/root.cfg").unwrap();
    let eff = cfg.lookup("gw");
    // First-match-wins on Port: 01.cfg sorts first.
    assert_eq!(eff.port, Some(2001));
    assert_eq!(eff.user.as_deref(), Some("u2"));
    assert_eq!(eff.identity_files, vec!["/tmp/k3"]);
}

#[test]
fn include_relative_to_containing_file() {
    let fs = Files::new(&[
        ("/d/sibling.cfg", "Host gw\n  Port 7777\n"),
        ("/d/root.cfg", "Include sibling.cfg\n"),
    ]);
    let cfg = fs.load("/d/root.cfg").unwrap();
    assert_eq!(cfg.lookup("gw").port, Some(7777));
}

#[test]
fn include_missing_file_warned_not_fatal() {
    let fs = Files::new(&[("/d/root.cfg", "Host gw\n  Port 22\nInclude /d/nope.cfg\n")]);
    let cfg = fs.load("/d/root.cfg").expect("missing include is non-fatal");
    assert_eq!(cfg.lookup("gw").port, Some(22));
}

#[test]
fn include_circular_capped_at_16_depth() {
    assert_eq!(MAX_INCLUDE_DEPTH, 16);
    let fs = Files::new(&[("/d/loop.cfg", "Include /d/loop.cfg\n")]);
    let err = fs.load("/d/loop.cfg").unwrap_err();
    match err {
        ConfigError::Syntax { msg, .. } => {
            assert!(msg.contains("max depth"), "msg = {msg}");
        }
        _ => panic!("wrong err: {err:?}"),
    }
}

#[test]
fn include_load_with_base_resolves_relative() {
    let fs = Files::new(&[("/d/inner.cfg", "Host gw\n  Port 9999\n")]);
    let lines = match fs.expand("Include inner.cfg\n", "/d") {
        Expansion::Done(lines) => lines,
        other => panic!("{other:?}"),
    };
    let cfg = SshClientConfig::from_lines(lines).unwrap();
    assert_eq!(cfg.lookup("gw").port, Some(9999));
}

#[test]
fn include_inside_match_block_only_applies_there() {
    let fs = Files::new(&[
        ("/d/only_gw.cfg", "Port 3300\n"),
        (
            "/d/root.cfg",
            "Host gw\n  Include only_gw.cfg\nHost other\n  Port 22\n",
        ),
    ]);
    let cfg = fs.load("/d/root.cfg").unwrap();
    assert_eq!(cfg.lookup("gw").port, Some(3300));
    assert_eq!(cfg.lookup("other").port, Some(22));
}

#[test]
fn include_without_a_path_is_an_error() {
    let fs = Files::new(&[("/d/root.cfg", "Port 22\nInclude\n")]);
    match fs.load("/d/root.cfg").unwrap_err() {
        ConfigError::BadValue { line, keyword, msg } => {
            assert_eq!(line, 2);
            assert_eq!(keyword, "include");
            assert_eq!(msg, "Include requires at least one path");
        }
        e => panic!("wrong err: {e:?}"),
    }
}

#[test]
fn include_of_a_malformed_file_is_an_error() {
    let fs = Files::new(&[
        ("/d/bad.cfg", "User \"open\n"),
        ("/d/root.cfg", "Include bad.cfg\n"),
    ]);
    match fs.load("/d/root.cfg").unwrap_err() {
        ConfigError::Syntax { line, .. } => assert_eq!(line, 1),
        e => panic!("wrong err: {e:?}"),
    }
}

#[test]
fn include_uses_the_home_directory_and_skips_unreadable_directories() {
    let fs = Files::new(&[("/home/me/x.cfg", "Port 1\n")]);
    match fs.expand("Include ~/x.cfg\nUser u\n", "/d") {
        Expansion::Done(lines) => {
            assert_eq!(lines.len(), 2);
            assert_eq!(lines[0].keyword, "port");
            assert_eq!(lines[1].keyword, "user");
        }
        other => panic!("{other:?}"),
    }
    // A directory that cannot be listed matches nothing.
    match fs.expand("Include /none/*.cfg\nUser u\n", "/d") {
        Expansion::Done(lines) => assert_eq!(lines.len(), 1),
        other => panic!("{other:?}"),
    }
}

#[test]
fn expand_glob_no_meta_passes_through() {
    let fs = Files::new(&[("/tmp/noglob/plain.cfg", "")]);
    let v = fs.glob("/tmp/noglob/plain.cfg");
    assert_eq!(v, vec!["/tmp/noglob/plain.cfg"]);
}

#[test]
fn expand_glob_star_matches_directory_children() {
    let fs = Files::new(&[
        ("/tmp/star/config.d/a.cfg", ""),
        ("/tmp/star/config.d/b.cfg", ""),
        ("/tmp/star/config.d/other.txt", ""), // should not match *.cfg
    ]);
    let v = fs.glob("/tmp/star/config.d/*.cfg");
    assert_eq!(
        v,
        vec!["/tmp/star/config.d/a.cfg", "/tmp/star/config.d/b.cfg"]
    );
}

#[test]
fn expand_glob_works_in_every_component() {
    let fs = Files::new(&[
        ("/a/x-1/f", ""),
        ("/a/x/f", ""),
        ("/a/x/g", ""),
        ("/a/y/f", ""),
    ]);
    // Compared component by component, `x` comes before `x-1`.
    assert_eq!(fs.glob("/a/x*/?"), vec!["/a/x/f", "/a/x/g", "/a/x-1/f"]);
    assert_eq!(fs.glob("/a/*/none"), vec!["/a/x/none", "/a/x-1/none", "/a/y/none"]);
    assert!(fs.glob("/nowhere/*").is_empty());
    assert!(fs.glob("").is_empty());
    assert_eq!(fs.glob("//a/./b/"), vec!["/a/b"]);
    assert_eq!(fs.glob("./rel"), vec!["rel"]);
    let names = Some(vec!["b".to_string(), "a".to_string()]);
    let here = DirEntry { path: ".".to_string(), names };
    assert_eq!(
        expand_glob("*", &[here]),
        Walk::Done(vec!["a".to_string(), "b".to_string()])
    );
    assert_eq!(expand_glob("d/*", &[]), Walk::List("d".to_string()));
    assert!(glob_segment_matches("*.cfg", "a.cfg") && !glob_segment_matches("*.cfg", "cfg"));
}

#[test]
fn the_first_file_has_to_be_readable() {
    let seen = Snapshot::new();
    match tokenize_file_with_includes("/x", Err("gone"), 0, None, &seen) {
        Expansion::Failed(ConfigError::Syntax { line: 0, msg }) => {
            assert_eq!(msg, "Include: cannot read /x: gone");
        }
        other => panic!("{other:?}"),
    }
    let file = SourceFile { text: "Port 1\n".to_string(), dir: "/".to_string() };
    match tokenize_file_with_includes("/x", Ok(&file), 17, None, &seen) {
        Expansion::Failed(ConfigError::Syntax { line: 0, msg }) => {
            assert_eq!(msg, "Include: max depth exceeded");
        }
        other => panic!("{other:?}"),
    }
    match tokenize_file_with_includes("/x", Ok(&file), 16, None, &seen) {
        Expansion::Done(lines) => assert_eq!(lines.len(), 1),
        other => panic!("{other:?}"),
    }
    let file = SourceFile { text: "\"".to_string(), dir: "/".to_string() };
    assert!(matches!(
        tokenize_file_with_includes("/x", Ok(&file), 0, None, &seen),
        Expansion::Failed(_)
    ));
}

#[test]
fn server_lines_can_come_from_includes() {
    let fs = Files::new(&[("/d/more", "MaxSessions 3\n")]);
    let lines = match fs.expand("Port 22\nInclude more\n", "/d") {
        Expansion::Done(lines) => lines,
        other => panic!("{other:?}"),
    };
    let cfg = SshServerConfig::from_lines(lines).unwrap();
    assert_eq!(cfg.global.port, Some(22));
    assert_eq!(cfg.global.max_sessions, Some(3));
}

#[test]
fn expand_glob_understands_classes() {
    let fs = Files::new(&[("/d/a.cfg", ""), ("/d/b.cfg", ""), ("/d/c.cfg", "")]);
    assert_eq!(fs.glob("/d/[ab].cfg"), vec!["/d/a.cfg", "/d/b.cfg"]);
    assert_eq!(fs.glob("/d/[b-z].cfg"), vec!["/d/b.cfg", "/d/c.cfg"]);
    assert_eq!(fs.glob("/d/[!a].cfg"), vec!["/d/b.cfg", "/d/c.cfg"]);
    assert_eq!(fs.glob("/[cd]/[a]*"), vec!["/d/a.cfg"]);
    assert!(fs.glob("/d/[xyz].cfg").is_empty());
}

#[test]
fn classes_in_a_component() {
    // Single bytes and ranges, one after the other.
    assert!(glob_segment_matches("foo[a-z]", "foox"));
    assert!(!glob_segment_matches("foo[a-z]", "fooX"));
    assert!(!glob_segment_matches("foo[a-z]", "foo"));
    assert!(!glob_segment_matches("foo[a-z]", "fooxx"));
    assert!(glob_segment_matches("[a-c0-9_]", "b") && glob_segment_matches("[a-c0-9_]", "7"));
    assert!(glob_segment_matches("[a-c0-9_]", "_") && !glob_segment_matches("[a-c0-9_]", "d"));
    assert!(!glob_segment_matches("[z-a]", "m"));
    // A dash that is first or last.
    assert!(glob_segment_matches("[-a]", "-") && glob_segment_matches("[a-]", "-"));
    assert!(!glob_segment_matches("[a-]", "b"));
    // Turned around.
    assert!(glob_segment_matches("[!a-c]x", "dx") && !glob_segment_matches("[!a-c]x", "bx"));
    assert!(glob_segment_matches("[^a]", "b") && !glob_segment_matches("[^a]", "a"));
    assert!(!glob_segment_matches("[!a]", ""));
    assert!(glob_segment_matches("[a!]", "!"));
    // A bracket that comes first is in the class.
    assert!(glob_segment_matches("[]a]", "]") && glob_segment_matches("[]a]", "a"));
    assert!(glob_segment_matches("[!]a]", "b") && !glob_segment_matches("[!]a]", "]"));
    // A bracket that nothing closes stands for itself.
    assert!(glob_segment_matches("a[b*", "a[bc") && !glob_segment_matches("a[b*", "ab"));
    assert!(glob_segment_matches("[]", "[]") && glob_segment_matches("[!]", "[!]"));
    // With stars.
    assert!(glob_segment_matches("*[0-9].conf", "a10.conf"));
    assert!(!glob_segment_matches("*[0-9].conf", "a.conf"));
    assert!(glob_segment_matches("*[ab]*[cd]*", "xxaxxdxx"));
    assert!(!glob_segment_matches("*[ab]*[cd]*", "xxdxxaxx"));
    // A component that begins with `!` matches nothing.
    assert!(!glob_segment_matches("!a*", "!ab") && !glob_segment_matches("!a*", "b"));
}
