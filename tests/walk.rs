use path_git_format::ancestry::{AncestryWalk, MAX_COMMITS};

fn strings(v: &[&str]) -> Vec<String> {
    v.iter().map(|s| s.to_string()).collect()
}

fn id(n: u8) -> Vec<u8> {
    vec![0xab, n]
}

#[test]
fn walk_collects_nearest_first() {
    let mut w = AncestryWalk::new(id(1));
    assert_eq!(w.pending(), Some(id(1)));
    w.visit(strings(&["feat"]), Some(id(2)));
    assert_eq!(w.pending(), Some(id(2)));
    w.visit(strings(&["main"]), Some(id(3)));
    assert_eq!(w.pending(), Some(id(3)));
    w.visit(Vec::new(), None);
    assert_eq!(w.pending(), None);
    assert_eq!(w.label(), Some("feat, main".to_string()));
}

#[test]
fn walk_without_bookmarks_has_no_label() {
    let mut w = AncestryWalk::new(id(1));
    w.visit(Vec::new(), Some(id(2)));
    w.visit(Vec::new(), None);
    assert_eq!(w.pending(), None);
    assert_eq!(w.label(), None);
}

#[test]
fn walk_stops_after_max_commits() {
    let mut w = AncestryWalk::new(id(0));
    let mut visits: usize = 0;
    while let Some(c) = w.pending() {
        let n = c[1];
        w.visit(vec![format!("b{}", n)], Some(id(n + 1)));
        visits += 1;
    }
    assert_eq!(visits, MAX_COMMITS);
    assert_eq!(visits, 10);
    assert_eq!(
        w.label(),
        Some("b0, b1, b2, b3, b4, b5, b6, b7, b8, b9".to_string())
    );
}

#[test]
fn walk_stops_at_a_revisited_commit() {
    let mut w = AncestryWalk::new(id(1));
    w.visit(strings(&["a"]), Some(id(2)));
    w.visit(strings(&["b"]), Some(id(1)));
    assert_eq!(w.pending(), None);
    assert_eq!(w.label(), Some("a, b".to_string()));
}

#[test]
fn walk_keeps_each_name_once() {
    let mut w = AncestryWalk::new(id(1));
    w.visit(strings(&["main", "feat"]), Some(id(2)));
    w.visit(strings(&["feat", "old", "main"]), None);
    assert_eq!(w.label(), Some("main, feat, old".to_string()));
}

#[test]
fn walk_stops_where_a_commit_could_not_be_read() {
    let mut w = AncestryWalk::new(id(1));
    w.visit(strings(&["x"]), None);
    assert_eq!(w.pending(), None);
    assert_eq!(w.label(), Some("x".to_string()));
}
