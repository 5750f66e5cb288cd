use sweet::sandbox::{
    all_secret_dirs, backend_for, known_tool_dirs, present_paths, resolve_tool_roots,
    safe_home_config_files, secret_dirs, Backend, Located, PathParts,
};

fn path(text: &str) -> PathParts {
    let mut parts = vec![b"/".to_vec()];
    for part in text.split('/').filter(|p| !p.is_empty()) {
        parts.push(part.as_bytes().to_vec());
    }
    PathParts { parts }
}

fn shown(paths: &Vec<PathParts>) -> Vec<String> {
    paths
        .iter()
        .map(|p| {
            let tail: Vec<String> =
                p.parts[1..].iter().map(|b| String::from_utf8(b.clone()).unwrap()).collect();
            format!("/{}", tail.join("/"))
        })
        .collect()
}

fn located(text: &str) -> Located {
    Located { path: path(text), canonical: None }
}

fn roots(parents: &[&str], known: &[&str], extra: &[&str]) -> Vec<String> {
    let names: Vec<String> = extra.iter().map(|s| s.to_string()).collect();
    let secrets =
        all_secret_dirs(&names).iter().map(|s| located(&format!("/home/u/{s}"))).collect();
    shown(&resolve_tool_roots(
        Some(path("/home/u")),
        parents.iter().map(|p| located(p)).collect(),
        known.iter().map(|k| Some(path(&format!("/home/u/{k}")))).collect(),
        secrets,
    ))
}

#[test]
fn resolve_excludes_secret_dirs() {
    assert!(roots(&["/home/u/.ssh", "/home/u/.ssh/keys"], &[], &[]).is_empty());
    assert!(roots(&["/home/u/.config"], &[], &[]).is_empty());
}

#[test]
fn resolve_includes_cargo_if_present() {
    assert_eq!(roots(&[], &[".cargo"], &[]), ["/home/u/.cargo"]);
}

#[test]
fn resolve_excludes_caller_supplied_secret_dirs() {
    assert_eq!(roots(&[], &[".cargo"], &[]), ["/home/u/.cargo"]);
    assert!(roots(&[], &[".cargo"], &[".cargo"]).is_empty());
}

#[test]
fn resolve_includes_path_parents() {
    let parent = path("/usr/bin").parent().unwrap();
    assert_eq!(shown(&vec![parent]), ["/usr"]);
    assert_eq!(roots(&["/usr"], &[], &[]), ["/usr"]);
}

#[test]
fn resolve_excludes_filesystem_root() {
    let parent = path("/bin").parent().unwrap();
    assert_eq!(shown(&vec![parent]), ["/"]);
    assert!(roots(&["/"], &[], &[]).is_empty());
}

#[test]
fn resolve_excludes_home_and_ancestors() {
    assert_eq!(roots(&["/", "/home", "/home/u", "/opt"], &[], &[]), ["/opt"]);
}

#[test]
fn a_root_is_given_once_where_it_comes_first() {
    assert_eq!(roots(&["/b", "/home/u/.bun", "/b"], &[".bun"], &[]), ["/b", "/home/u/.bun"]);
}

#[test]
fn a_name_that_only_begins_alike_is_no_ancestor() {
    assert_eq!(
        roots(&["/home/u2", "/home/u/.sshx"], &[], &[]),
        ["/home/u2", "/home/u/.sshx"]
    );
}

#[test]
fn links_are_followed_where_they_lead_somewhere() {
    let link = Located { path: path("/link"), canonical: Some(path("/home")) };
    let found = resolve_tool_roots(
        Some(path("/home/u")),
        vec![link, located("/opt")],
        vec![None, Some(path("/srv"))],
        vec![],
    );
    assert_eq!(shown(&found), ["/opt", "/srv"]);
    let secret = Located { path: path("/x"), canonical: Some(path("/opt/keys")) };
    let found = resolve_tool_roots(Some(path("/home/u")), vec![located("/opt")], vec![], vec![secret]);
    assert!(found.is_empty());
}

#[test]
fn without_a_home_directory_there_are_no_roots() {
    assert!(resolve_tool_roots(None, vec![located("/opt")], vec![], vec![]).is_empty());
    assert!(path("/").parent().is_none());
    assert_eq!(shown(&present_paths(vec![None, Some(path("/a"))])), ["/a"]);
}

#[test]
fn the_lists_hold_what_they_should() {
    assert_eq!(known_tool_dirs().len(), 16);
    assert!(known_tool_dirs().contains(&".cargo"));
    assert_eq!(secret_dirs().len(), 9);
    assert_eq!(safe_home_config_files(), [".gitconfig", ".gitignore_global"]);
    let all = all_secret_dirs(&vec![".mine".to_string()]);
    assert_eq!(all.len(), 10);
    assert_eq!(all[0], ".ssh");
    assert_eq!(all[9], ".mine");
}

#[test]
fn two_systems_have_a_backend() {
    assert_eq!(backend_for("linux"), Ok(Backend::Bubblewrap));
    assert_eq!(backend_for("macos"), Ok(Backend::Seatbelt));
    assert_eq!(
        backend_for("plan9"),
        Err("OS sandbox is not supported on this platform.".to_string())
    );
}
