use sdcpp::platform::Platform;
use sdcpp::walk::{find_server_executable, make_executable, DirEntry, ModeChange, ServerSearch};

fn entry(path: &str, is_dir: bool, mode: Option<u32>) -> DirEntry {
    let name = path.rsplit('/').next().unwrap().to_string();
    DirEntry { path: path.to_string(), name, is_dir, mode }
}

fn file(path: &str) -> DirEntry {
    entry(path, false, Some(0o644))
}

fn dir(path: &str) -> DirEntry {
    entry(path, true, Some(0o700))
}

#[test]
fn server_is_found_below() {
    let mut search = ServerSearch::new("/b".to_string());
    assert_eq!(search.next_directory(), Some("/b".to_string()));
    find_server_executable(&mut search, &vec![file("/b/sd"), dir("/b/x"), dir("/b/y")], Platform::Other);
    assert_eq!(search.next_directory(), Some("/b/y".to_string()));
    find_server_executable(&mut search, &vec![file("/b/y/sd-cli"), dir("/b/y/sd-server")], Platform::Other);
    assert_eq!(search.next_directory(), Some("/b/y/sd-server".to_string()));
    // That directory could not be listed.
    assert_eq!(search.next_directory(), Some("/b/x".to_string()));
    find_server_executable(&mut search, &vec![file("/b/x/server"), dir("/b/x/z")], Platform::Other);
    assert_eq!(search.next_directory(), None);
    assert_eq!(search.into_executable(), Some("/b/x/server".to_string()));
}

#[test]
fn tool_stands_in_for_the_server() {
    let mut search = ServerSearch::new("/b".to_string());
    search.next_directory();
    let entries = vec![file("/b/readme"), file("/b/sd-cli.exe"), file("/b/sd.exe"), file("/b/sd-server.exe")];
    find_server_executable(&mut search, &entries, Platform::Other);
    assert_eq!(search.next_directory(), None);
    assert_eq!(search.into_executable(), Some("/b/sd-cli.exe".to_string()));
}

#[test]
fn windows_servers_end_in_exe() {
    for (name, found) in [("sd-server.exe", true), ("sd-cpp-server.exe", true), ("server.exe", true), ("sd-server", false)] {
        let mut search = ServerSearch::new("d".to_string());
        search.next_directory();
        let path = format!("d/{}", name);
        find_server_executable(&mut search, &vec![file(&path)], Platform::Windows);
        assert_eq!(search.into_executable().is_some(), found);
    }
}

#[test]
fn search_is_settled_once_found() {
    let mut search = ServerSearch::new("d".to_string());
    search.next_directory();
    let platform = Platform::MacOs;
    find_server_executable(&mut search, &vec![dir("d/e"), file("d/sd-cpp-server"), file("d/sd-server")], platform);
    find_server_executable(&mut search, &vec![file("e/sd-server")], platform);
    assert_eq!(search.next_directory(), None);
    assert_eq!(search.into_executable(), Some("d/sd-cpp-server".to_string()));
}

#[test]
fn empty_search_finds_nothing() {
    let mut search = ServerSearch::new("d".to_string());
    search.next_directory();
    find_server_executable(&mut search, &vec![], Platform::Other);
    assert_eq!(search.next_directory(), None);
    assert_eq!(search.into_executable(), None);
}

#[test]
fn files_become_executable() {
    let mut pending = vec!["/left".to_string()];
    let entries = vec![file("/b/a"), dir("/b/x"), entry("/b/gone", false, None), entry("/b/s", false, Some(0o4600))];
    let changes = make_executable(&mut pending, &entries);
    assert_eq!(pending, vec!["/left".to_string(), "/b/x".to_string()]);
    assert_eq!(
        changes,
        vec![
            ModeChange { path: "/b/a".to_string(), mode: 0o755 },
            ModeChange { path: "/b/s".to_string(), mode: 0o4755 },
        ]
    );
    let again = make_executable(&mut pending, &vec![entry("/b/s", false, Some(0o4755))]);
    assert_eq!(again[0].mode, 0o4755);
}

/// A small disk: directories with what they hold.
fn disk() -> Vec<(String, Vec<DirEntry>)> {
    vec![
        ("/b".to_string(), vec![file("/b/a"), dir("/b/x"), dir("/b/gone"), dir("/b/y")]),
        ("/b/x".to_string(), vec![entry("/b/x/s", false, Some(0o4600)), dir("/b/x/z")]),
        ("/b/x/z".to_string(), vec![entry("/b/x/z/sd", false, None)]),
        ("/b/y".to_string(), vec![file("/b/y/sd-cli")]),
        ("/c".to_string(), vec![file("/c/sd-server")]),
    ]
}

fn walk_and_set(disk: &mut Vec<(String, Vec<DirEntry>)>) {
    let mut pending = vec!["/b".to_string()];
    while let Some(current) = pending.pop() {
        let listed = disk.iter().find(|d| d.0 == current).map(|d| d.1.clone());
        if let Some(entries) = listed {
            for change in make_executable(&mut pending, &entries) {
                for (_, entries) in disk.iter_mut() {
                    for entry in entries.iter_mut() {
                        if entry.path == change.path {
                            entry.mode = Some(change.mode);
                        }
                    }
                }
            }
        }
    }
}

#[test]
fn walk_makes_all_files_executable_once() {
    let mut disk_now = disk();
    walk_and_set(&mut disk_now);
    let mut expected = disk();
    expected[0].1[0].mode = Some(0o755);
    expected[1].1[0].mode = Some(0o4755);
    expected[3].1[0].mode = Some(0o755);
    assert_eq!(disk_now, expected);
    walk_and_set(&mut disk_now);
    assert_eq!(disk_now, expected);
}

#[test]
fn search_of_a_whole_tree_comes_to_a_tool_inside() {
    let disk = disk();
    let mut search = ServerSearch::new("/b".to_string());
    while let Some(current) = search.next_directory() {
        if let Some(listed) = disk.iter().find(|d| d.0 == current) {
            find_server_executable(&mut search, &listed.1, Platform::Other);
        }
    }
    assert_eq!(search.into_executable(), Some("/b/y/sd-cli".to_string()));
}
