use rustic_vfs::error::FsError;
use rustic_vfs::namespace::{BuildError, DirItem, FsTree, ItemKind, Listing, OpenOptions};
use rustic_vfs::template::{
    check_pieces, check_template, render, render_parsed, FormattedSnapshot, Locator, SnapshotInfo, TemplateError,
    Timestamp, DEFAULT_PATH_TEMPLATE, DEFAULT_TIME_TEMPLATE,
};
use rustic_vfs::text::split_path;
use rustic_vfs::tree::Resolved;
use rustic_vfs::webdavfs::RusticWebDavFS;

const DAY1: i64 = 1672531200; // 2023-01-01T00:00:00Z
const DAY: i64 = 86400;

fn ts(secs: i64) -> Timestamp {
    Timestamp { secs, nanos: 0, offset: 0 }
}

fn snap(host: &str, label: &str, secs: i64, tree: u128) -> SnapshotInfo {
    SnapshotInfo {
        id: "0123abcd".to_string(),
        long_id: "0123abcd0123abcd0123abcd0123abcd".to_string(),
        time: ts(secs),
        hostname: host.to_string(),
        username: "root".to_string(),
        label: label.to_string(),
        tags: vec![],
        summary: None,
        tree: Locator(0, tree),
    }
}

fn segs(p: &str) -> Vec<String> {
    split_path(p)
}

fn read_only() -> OpenOptions {
    OpenOptions { read: true, write: false, append: false, truncate: false, create: false, create_new: false }
}

fn names(items: &[DirItem]) -> Vec<String> {
    let mut v: Vec<String> = items.iter().map(|i| i.name.clone()).collect();
    v.sort();
    v
}

fn find<'a>(items: &'a [DirItem], name: &str) -> &'a ItemKind {
    &items.iter().find(|i| i.name == name).expect("listed").kind
}

fn virtual_items(t: &FsTree, p: &str) -> Vec<DirItem> {
    match t.dir_entries(&segs(p)) {
        Ok(Listing::Virtual(items)) => items,
        other => panic!("not a synthetic directory: {:?}", other),
    }
}

#[test]
fn split_path_drops_empty_segments() {
    assert_eq!(split_path("/a//b/"), vec!["a".to_string(), "b".to_string()]);
    assert!(split_path("").is_empty());
    assert!(split_path("///").is_empty());
}

#[test]
fn render_default_template() {
    let s = snap("h1", "default", DAY1, 1);
    let r = render("[{hostname}]/[{label}]/{time}", &s, "%Y-%m-%d").unwrap();
    assert_eq!(r, "[h1]/[default]/2023-01-01");
}

#[test]
fn render_time_with_seconds_and_offset() {
    let mut s = snap("h1", "l", DAY1 + 3661, 1);
    s.time.offset = 3600;
    let r = render("{time}", &s, "%Y-%m-%d_%H-%M-%S").unwrap();
    assert_eq!(r, "2023-01-01_02-01-01");
}

#[test]
fn render_every_key() {
    let mut s = snap("host", "lab", DAY1, 1);
    s.tags = vec!["a".to_string(), "b".to_string()];
    let r = render("{id}|{long_id}|{username}|{hostname}|{label}|{tags}", &s, "%Y").unwrap();
    assert_eq!(r, "0123abcd|0123abcd0123abcd0123abcd0123abcd|root|host|lab|a,b");
}

#[test]
fn render_backup_times_without_summary() {
    let s = snap("h", "l", DAY1, 1);
    let r = render("{backup_start}-{backup_end}", &s, "%Y").unwrap();
    assert_eq!(r, "no_backup_start-no_backup_end");
}

#[test]
fn render_backup_times_with_summary() {
    let mut s = snap("h", "l", DAY1, 1);
    s.summary = Some((ts(DAY1), ts(DAY1 + DAY)));
    let r = render("{backup_start}_{backup_end}", &s, "%m-%d").unwrap();
    assert_eq!(r, "01-01_01-02");
}

#[test]
fn render_unknown_key_fails() {
    let s = snap("h", "l", DAY1, 1);
    assert_eq!(render("{hostname}/{nope}", &s, "%Y"), Err(TemplateError::UnknownKey));
    assert_eq!(check_template("{hostname}/{nope}"), Some(TemplateError::UnknownKey));
    assert_eq!(check_template("[{hostname}]/[{label}]/{time}"), None);
}

#[test]
fn render_unterminated_key_fails() {
    let s = snap("h", "l", DAY1, 1);
    assert_eq!(render("{hostname", &s, "%Y"), Err(TemplateError::Unparsed));
    assert_eq!(check_template("a/{hostname"), Some(TemplateError::Unparsed));
}

#[test]
fn render_bad_time_format_fails() {
    let s = snap("h", "l", DAY1, 1);
    assert_eq!(render("{time}", &s, "foo%?"), Err(TemplateError::BadTimeFormat));
}

#[test]
fn unknown_placeholder_fails_construction_even_without_snapshots() {
    let r = FsTree::from_snapshots(vec![], "{hostname}/{bogus}", "%Y", false);
    assert!(matches!(r, Err(BuildError::Template(TemplateError::UnknownKey))));
    let r = RusticWebDavFS::from_snapshots(vec![snap("h", "l", DAY1, 1)], "{bogus}", "%Y", true, ts(0));
    assert!(matches!(r, Err(BuildError::Template(TemplateError::UnknownKey))));
}

#[test]
fn same_path_twice_is_a_conflict() {
    let snaps = vec![snap("h1", "l", DAY1, 1), snap("h1", "l", DAY1 + 60, 2)];
    let r = FsTree::from_snapshots(snaps, "{hostname}/{label}/{time}", "%Y-%m-%d", false);
    assert!(matches!(r, Err(BuildError::Conflict)));
}

#[test]
fn identical_snapshots_fold_into_links_as_symlinks() {
    let snaps = vec![snap("h1", "default", DAY1 + DAY, 7), snap("h1", "default", DAY1, 7)];
    let t = FsTree::from_snapshots(snaps, "[{hostname}]/[{label}]/{time}", "%Y-%m-%d", true).unwrap();
    let items = virtual_items(&t, "[h1]/[default]");
    assert_eq!(names(&items), vec!["2023-01-01", "2023-01-02", "latest"]);
    assert!(matches!(find(&items, "2023-01-01"), ItemKind::Real(Locator(0, 7))));
    assert!(matches!(find(&items, "2023-01-02"), ItemKind::Symlink(t) if t == "2023-01-01"));
    assert!(matches!(find(&items, "latest"), ItemKind::Symlink(t) if t == "2023-01-02"));
    // below the link, the same contents as below the first
    let a = t.node_from_path("[h1]/[default]/2023-01-01/etc/passwd");
    let b = t.node_from_path("[h1]/[default]/2023-01-02/etc/passwd");
    match (a, b) {
        (Resolved::Real { tree: ta, rest: ra }, Resolved::Real { tree: tb, rest: rb }) => {
            assert_eq!(ta, tb);
            assert_eq!(ra, rb);
            assert_eq!(ra, vec!["etc".to_string(), "passwd".to_string()]);
        }
        other => panic!("unexpected {:?}", other),
    }
}

#[test]
fn identical_snapshots_fold_into_directories() {
    let snaps = vec![snap("h1", "default", DAY1, 7), snap("h1", "default", DAY1 + DAY, 7)];
    let t = FsTree::from_snapshots(snaps, "{hostname}/{label}/{time}", "%Y-%m-%d", false).unwrap();
    let items = virtual_items(&t, "/h1/default");
    assert_eq!(names(&items), vec!["2023-01-01", "2023-01-02", "latest"]);
    for n in ["2023-01-01", "2023-01-02", "latest"] {
        assert!(matches!(find(&items, n), ItemKind::Real(Locator(0, 7))));
    }
    let l1 = t.dir_entries(&segs("h1/default/2023-01-01/x"));
    let l2 = t.dir_entries(&segs("h1/default/2023-01-02/x"));
    match (l1, l2) {
        (Ok(Listing::Real { tree: a, rest: ra }), Ok(Listing::Real { tree: b, rest: rb })) => {
            assert_eq!(a, b);
            assert_eq!(ra, rb);
        }
        other => panic!("unexpected {:?}", other),
    }
}

#[test]
fn different_trees_stay_real_and_latest_is_newest() {
    let snaps = vec![
        snap("h1", "l", DAY1, 1),
        snap("h1", "l", DAY1 + 2 * DAY, 3),
        snap("h1", "l", DAY1 + DAY, 2),
        snap("h2", "l", DAY1, 9),
    ];
    let t = FsTree::from_snapshots(snaps, "{hostname}/{label}/{time}", "%Y-%m-%d", true).unwrap();
    let items = virtual_items(&t, "h1/l");
    assert_eq!(names(&items), vec!["2023-01-01", "2023-01-02", "2023-01-03", "latest"]);
    assert!(matches!(find(&items, "2023-01-02"), ItemKind::Real(Locator(0, 2))));
    assert!(matches!(find(&items, "latest"), ItemKind::Symlink(t) if t == "2023-01-03"));
    let top = virtual_items(&t, "");
    assert_eq!(names(&top), vec!["h1", "h2"]);
    assert!(matches!(find(&top, "h1"), ItemKind::Dir));
    assert!(matches!(t.node_from_path("h2/l/latest"), Resolved::Symlink { target } if target == "2023-01-01"));
    assert!(matches!(t.node_from_path("h2/l/latest/a"), Resolved::Real { tree: Locator(0, 9), .. }));
}

#[test]
fn every_snapshot_resolves_to_its_tree() {
    let snaps = vec![snap("a", "x", DAY1, 1), snap("b", "y", DAY1 + DAY, 2), snap("b", "y", DAY1, 3)];
    let t = FsTree::from_snapshots(snaps.clone(), "{hostname}/{label}/{time}", "%Y-%m-%d", false).unwrap();
    for s in &snaps {
        let p = render("{hostname}/{label}/{time}", s, "%Y-%m-%d").unwrap();
        match t.node_from_path(&p) {
            Resolved::Real { tree, rest } => {
                assert_eq!(tree, s.tree);
                assert!(rest.is_empty());
            }
            other => panic!("unexpected {:?}", other),
        }
    }
}

#[test]
fn resolving_twice_gives_the_same_answer() {
    let snaps = vec![snap("a", "x", DAY1, 1), snap("a", "x", DAY1 + DAY, 1)];
    let fs = RusticWebDavFS::from_snapshots(snaps, "{hostname}/{label}/{time}", "%Y-%m-%d", true, ts(5)).unwrap();
    for p in ["", "a", "a/x", "a/x/latest", "a/x/2023-01-02", "a/x/2023-01-01/f", "nope"] {
        let r1 = fs.node_from_path(p);
        let r2 = fs.node_from_path(p);
        assert_eq!(format!("{:?}", r1), format!("{:?}", r2));
        let m1 = fs.synthetic_metadata(&r1);
        let m2 = fs.synthetic_metadata(&r2);
        assert_eq!(m1, m2);
    }
}

#[test]
fn missing_paths_and_symlinks_are_not_listed() {
    let snaps = vec![snap("a", "x", DAY1, 1)];
    let t = FsTree::from_snapshots(snaps, "{hostname}/{label}/{time}", "%Y-%m-%d", true).unwrap();
    assert!(matches!(t.dir_entries(&segs("b")), Err(FsError::NotFound)));
    assert!(matches!(t.dir_entries(&segs("a/x/latest")), Err(FsError::NotFound)));
    assert!(matches!(t.node_from_path("a/y"), Resolved::NotFound));
    assert!(matches!(t.node_from_path("a"), Resolved::Virtual));
}

#[test]
fn write_requests_are_forbidden_everywhere() {
    let snaps = vec![snap("a", "x", DAY1, 1)];
    let fs = RusticWebDavFS::from_snapshots(snaps, "{hostname}/{label}/{time}", "%Y-%m-%d", true, ts(0)).unwrap();
    let base = read_only();
    let writes = [
        OpenOptions { write: true, ..base },
        OpenOptions { append: true, ..base },
        OpenOptions { truncate: true, ..base },
        OpenOptions { create: true, ..base },
        OpenOptions { create_new: true, ..base },
    ];
    for p in ["", "a", "a/x", "a/x/latest", "a/x/2023-01-01", "a/x/2023-01-01/file", "missing"] {
        for o in writes {
            assert!(matches!(fs.open(p, o), Err(FsError::Forbidden)));
        }
    }
    assert!(matches!(fs.open("a/x/2023-01-01/file", base), Ok((Locator(0, 1), ref r)) if r == &vec!["file".to_string()]));
    assert!(matches!(fs.open("a/x", base), Err(FsError::WrongType)));
    assert!(matches!(fs.open("a/x/latest", base), Err(FsError::WrongType)));
    assert!(matches!(fs.open("missing", base), Err(FsError::NotFound)));
}

#[test]
fn direct_mount_serves_one_tree() {
    let fs = RusticWebDavFS::from_node(Locator(4, 5), ts(0));
    assert!(matches!(fs.node_from_path("/"), Resolved::Real { tree: Locator(4, 5), ref rest } if rest.is_empty()));
    assert!(matches!(fs.node_from_path("a/b"), Resolved::Real { tree: Locator(4, 5), ref rest } if rest.len() == 2));
    assert!(matches!(fs.dir_entries_from_path("a"), Ok(Listing::Real { tree: Locator(4, 5), .. })));
}

#[test]
fn default_templates_render_full_paths() {
    let s = snap("h1", "", DAY1 + 3 * 3600 + 4 * 60 + 5, 1);
    let r = render(DEFAULT_PATH_TEMPLATE, &s, DEFAULT_TIME_TEMPLATE).unwrap();
    assert_eq!(r, "[h1]/[]/2023-01-01_03-04-05");
}

#[test]
fn render_parsed_pieces() {
    let s = snap("h1", "l", DAY1, 1);
    let pieces = vec![(false, "a/".to_string()), (true, "hostname".to_string()), (false, "/".to_string()), (true, "label".to_string())];
    assert_eq!(render_parsed(&pieces, "", &s, "%Y").unwrap(), "a/h1/l");
    assert_eq!(render_parsed(&pieces, "{x", &s, "%Y"), Err(TemplateError::Unparsed));
    let bad = vec![(true, "hostname".to_string()), (true, "nope".to_string())];
    assert_eq!(render_parsed(&bad, "", &s, "%Y"), Err(TemplateError::UnknownKey));
}

#[test]
fn check_parsed_pieces() {
    assert_eq!(check_pieces(&vec![(true, "bogus".to_string())], ""), Some(TemplateError::UnknownKey));
    assert_eq!(check_pieces(&vec![(false, "bogus".to_string())], ""), None);
    assert_eq!(check_pieces(&vec![], "{x"), Some(TemplateError::Unparsed));
    assert_eq!(check_pieces(&vec![(true, "time".to_string()), (true, "tags".to_string())], ""), None);
}

#[test]
fn doubled_brace_is_a_literal_brace() {
    let s = snap("h1", "l", DAY1, 1);
    assert_eq!(render("a{{b", &s, "%Y").unwrap(), "a{b");
}

#[test]
fn formatted_snapshot_keys() {
    let s = snap("h1", "l", DAY1, 1);
    let f = FormattedSnapshot(&s, "%Y");
    assert_eq!(f.fmt("time").unwrap(), "2023");
    assert_eq!(f.fmt("username").unwrap(), "root");
    assert_eq!(f.fmt("id_long"), Err(TemplateError::UnknownKey));
}
