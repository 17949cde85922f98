use local_issues_lib::project::Project;

#[test]
fn exact_search_matches_whole_titles_only() {
    let mut pr = Project::new("p", "/tmp/p");
    let a = pr.add_issue("crash on save", "alice");
    let _b = pr.add_issue("crash", "bob");
    let c = pr.add_issue("crash on save", "carol");
    let hits = pr.search_issues("crash on save").unwrap();
    assert_eq!(hits, vec![a, c]);
    for id in &hits {
        assert_eq!(pr.get_issue(*id).unwrap().name(), "crash on save");
    }
    assert!(pr.search_issues("crash on").is_none());
    assert_eq!(pr.search_issue("crash on save"), Some(a));
    assert_eq!(pr.search_issue("no such title"), None);
}

#[test]
fn partial_search_contains_either_way() {
    let mut pr = Project::new("p", "/tmp/p");
    let a = pr.add_issue("documentation", "alice");
    let b = pr.add_issue("doc", "bob");
    let _c = pr.add_issue("unrelated", "carol");
    // the query is inside the first title; the second title is inside the query
    let hits = pr.find_from_title("docs").unwrap();
    assert_eq!(hits, vec![b]);
    let hits = pr.find_from_title("document").unwrap();
    assert_eq!(hits, vec![a, b]);
    assert!(pr.find_from_title("nothing here").is_none());
    // the empty query is contained in every title
    let hits = pr.find_from_title("").unwrap();
    assert_eq!(hits.len(), 3);
}

#[test]
fn time_window_queries_are_inclusive() {
    let mut pr = Project::new_at("p", "/tmp/p", 0);
    let a = pr.add_issue_at("early", "alice", 10);
    let b = pr.add_issue_at("middle", "bob", 20);
    let c = pr.add_issue_at("late", "carol", 30);
    assert_eq!(pr.find_from_created_time(10, 20).unwrap(), vec![a, b]);
    assert_eq!(pr.find_from_created_time(11, 29).unwrap(), vec![b]);
    assert!(pr.find_from_created_time(31, 40).is_none());
    // updating an issue moves it in the updated-time index
    pr.add_comment_at(a, "bump", "dave", 50);
    assert_eq!(pr.find_from_updated_time(40, 60).unwrap(), vec![a]);
    assert_eq!(pr.find_from_updated_time(0, 35).unwrap(), vec![b, c]);
}

#[test]
fn comment_search_reads_bodies() {
    let mut pr = Project::new("p", "/tmp/p");
    let a = pr.add_issue("first", "alice");
    let b = pr.add_issue("second", "bob");
    let _quiet = pr.add_issue("third", "carol");
    pr.add_comment(a, "cannot reproduce on trunk", "dave");
    pr.add_comment(b, "reproduced, bisecting", "erin");
    assert_eq!(pr.find_from_comments("repro").unwrap(), vec![a, b]);
    assert_eq!(pr.find_from_comments("bisect").unwrap(), vec![b]);
    assert!(pr.find_from_comments("wontfix").is_none());
}
