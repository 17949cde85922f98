use local_issues_lib::issue::{Resolution, Status};
use local_issues_lib::project::Project;

#[test]
fn monotonic_ids_across_removals() {
    let mut pr = Project::new("p", "/tmp/p");
    let a = pr.add_issue("one", "alice");
    let b = pr.add_issue("two", "bob");
    assert_eq!(a, 1);
    assert_eq!(b, 2);
    pr.remove_issue(1);
    let c = pr.add_issue("three", "carol");
    assert_eq!(c, 3);
    assert_eq!(pr.count_issues(), 2);
    assert_eq!(pr.current_id(), 3);
    // the removed id stays dead: nothing is stored under it
    assert!(pr.get_issue(1).is_none());
    assert!(pr.get_issue(2).is_some());
    assert!(pr.get_issue(3).is_some());
}

#[test]
fn close_twice_is_idempotent() {
    let mut pr = Project::new_at("p", "/tmp/p", 10);
    let id = pr.add_issue_at("bug", "alice", 11);
    pr.to_close_issue_at(id, true, 12);
    let once = local_issues_lib::codec::serialize_project(&pr);
    pr.to_close_issue_at(id, true, 12);
    let twice = local_issues_lib::codec::serialize_project(&pr);
    assert_eq!(once, twice);
    assert!(matches!(
        pr.get_issue(id).unwrap().status(),
        Status::Closed(Resolution::Resolved)
    ));
}

#[test]
fn close_switches_resolution() {
    let mut pr = Project::new("p", "/tmp/p");
    let id = pr.add_issue("bug", "alice");
    pr.to_close_issue(id, false);
    assert!(matches!(
        pr.get_issue(id).unwrap().status(),
        Status::Closed(Resolution::Unresolved)
    ));
    pr.to_close_issue(id, true);
    assert!(matches!(
        pr.get_issue(id).unwrap().status(),
        Status::Closed(Resolution::Resolved)
    ));
    pr.to_open_issue(id);
    assert!(matches!(pr.get_issue(id).unwrap().status(), Status::Open));
}

#[test]
fn mutators_on_absent_id_are_no_ops() {
    let mut pr = Project::new("p", "/tmp/p");
    let id = pr.add_issue("bug", "alice");
    pr.to_close_issue(99, true);
    pr.to_open_issue(99);
    pr.add_comment(99, "nobody reads this", "bob");
    pr.remove_issue(99);
    assert_eq!(pr.count_issues(), 1);
    assert!(matches!(pr.get_issue(id).unwrap().status(), Status::Open));
    assert_eq!(pr.count_comments(id), Some(0));
    assert_eq!(pr.count_comments(99), None);
}

#[test]
fn comments_count_and_visibility() {
    let mut pr = Project::new("p", "/tmp/p");
    let id = pr.add_issue("bug", "alice");
    pr.add_comment(id, "first", "bob");
    pr.add_comment(id, "second", "bob");
    assert_eq!(pr.count_comments(id), Some(2));
    let issue = pr.get_issue(id).unwrap();
    assert_eq!(issue.count_message(), 2);
    assert_eq!(issue.count_visible_messages(), 2);
    assert_eq!(issue.comments()[0].message, "first");
    assert_eq!(issue.comments()[1].message, "second");
}

#[test]
fn soft_delete_counts_down_and_purges() {
    let mut pr = Project::new("p", "/tmp/p");
    let keep = pr.add_issue("keeper", "alice");
    let doomed = pr.add_issue("doomed", "bob");
    pr.to_mark_issue_for_deletion(doomed, 2);
    pr.save().unwrap();
    // one save: still present, countdown ticked from 2 to 1
    assert!(matches!(
        pr.get_issue(doomed).unwrap().status(),
        Status::MarkedForDeletion(1)
    ));
    pr.save().unwrap();
    // second save: the countdown ran out and the issue is purged
    assert!(pr.get_issue(doomed).is_none());
    assert!(pr.get_issue(keep).is_some());
    assert_eq!(pr.count_issues(), 1);
    // the purged id is never handed out again
    let next = pr.add_issue("after", "carol");
    assert_eq!(next, 3);
}

#[test]
fn soft_delete_zero_countdown_purges_on_next_save() {
    let mut pr = Project::new("p", "/tmp/p");
    let id = pr.add_issue("gone soon", "alice");
    pr.to_mark_issue_for_deletion(id, 0);
    pr.save().unwrap();
    assert!(pr.get_issue(id).is_none());
    assert_eq!(pr.count_issues(), 0);
}

#[test]
fn scenario_one_issue_commented_closed_saved_and_reopened() {
    let mut pr = Project::new("P", "/tmp/scenario_a");
    let id = pr.add_issue("bug1", "alice");
    assert_eq!(id, 1);
    pr.add_comment(1, "cannot repro", "bob");
    assert_eq!(pr.get_issue(1).unwrap().count_visible_messages(), 1);
    pr.to_close_issue(1, true);
    assert!(matches!(
        pr.get_issue(1).unwrap().status(),
        Status::Closed(Resolution::Resolved)
    ));
    let doc = pr.save().unwrap();
    let reopened = local_issues_lib::storage::load(Some(doc.as_str())).unwrap();
    assert_eq!(reopened.count_issues(), 1);
    let issue = reopened.get_issue(1).unwrap();
    assert_eq!(issue.name(), "bug1");
    assert!(matches!(issue.status(), Status::Closed(Resolution::Resolved)));
    assert_eq!(issue.count_message(), 1);
}

#[test]
fn scenario_duplicate_titles() {
    let mut pr = Project::new("p", "/tmp/scenario_b");
    let first = pr.add_issue("dup", "a");
    let second = pr.add_issue("dup", "b");
    let both = pr.search_issues("dup").unwrap();
    assert_eq!(both, vec![first, second]);
    assert_eq!(pr.search_issue("dup"), Some(first));
}

#[test]
fn save_is_a_pure_snapshot_without_marked_issues() {
    let mut pr = Project::new_at("p", "/tmp/p", 0);
    pr.add_issue_at("a", "alice", 1);
    pr.add_issue_at("b", "bob", 2);
    pr.to_close_issue_at(1, true, 3);
    let before = local_issues_lib::codec::serialize_project(&pr);
    let doc = pr.save().unwrap();
    let after = local_issues_lib::codec::serialize_project(&pr);
    assert_eq!(before, after);
    assert_eq!(doc.chars().collect::<Vec<char>>(), before);
}
