use local_issues_lib::display_options::{DisplayOptions, ShowLevel};
use local_issues_lib::issue::{Issue, Message};
use local_issues_lib::printer::{AltDisplay, IssuePrinter};
use local_issues_lib::project::Project;
use local_issues_lib::storage::Error;
use local_issues_lib::user::{User, Users};

#[test]
fn dp_test() -> Result<(), Error> {
    let mut pr = Project::new("name", "project_path");
    pr.add_issue("new_name", "test_author");
    pr.add_comment(1, "comment_msg", "");
    pr.add_issue("close?", "test_author");
    pr.add_comment(2, "closed?", "");
    pr.to_close_issue(2, false);
    pr.add_issue("not resolve", "test_author");
    pr.to_close_issue(3, true);

    let mut options = DisplayOptions::new();
    options.show_level(ShowLevel::Issues);
    options.content(&pr);
    println!("{}", options.format_display().unwrap());
    pr.save()?;
    Ok(())
}

#[test]
fn format_display_without_content_is_absent() {
    let options = DisplayOptions::new();
    assert!(options.format_display().is_none());
}

#[test]
fn format_display_issue_lines_hide_closed_by_default() {
    let mut pr = Project::new_at("n", "p", 3);
    pr.add_issue_at("open one", "a", 4);
    pr.add_issue_at("closed one", "b", 5);
    pr.to_close_issue_at(2, true, 6);
    let mut options = DisplayOptions::new();
    options.show_level(ShowLevel::Issues);
    options.content(&pr);
    let text = options.format_display().unwrap();
    assert_eq!(
        text,
        "n\n  issues: 2\n  created at: 3\n  updated at: 6\n  path: p\n\n\
         * [open] #1 open one 0 comments\n"
    );
    options.contain_close_issues(true);
    let text = options.format_display().unwrap();
    assert_eq!(
        text,
        "n\n  issues: 2\n  created at: 3\n  updated at: 6\n  path: p\n\n\
         * [open] #1 open one 0 comments\n* [resolved] #2 closed one 0 comments\n"
    );
}

#[test]
fn format_display_comments_level_lists_messages() {
    let mut pr = Project::new_at("n", "p", 0);
    pr.add_issue_at("talkative", "a", 1);
    pr.add_comment_at(1, "hello", "b", 2);
    pr.add_comment_at(1, "world", "c", 3);
    let mut options = DisplayOptions::new();
    options.content(&pr);
    let text = options.format_display().unwrap();
    assert_eq!(
        text,
        "n\n  issues: 1\n  created at: 0\n  updated at: 3\n  path: p\n\n\
         [open] #1 talkative\n  hello\n  world\n"
    );
}

#[test]
fn issue_printer_switches() {
    let author = User::new("a", "a@x");
    let mut issue = Issue::new_at("printable", author, 5);
    issue.comment_at(
        Message::new_at("only message", User::new("b", ""), 6),
        6,
    );
    let mut printer = IssuePrinter::new(issue);
    assert_eq!(printer.render(), "[open] printable\n");
    printer.contain_messages(true);
    assert_eq!(printer.render(), "[open] printable\n  only message\n");
    assert_eq!(printer.fmt_only_prop(), "[open] printable\n");
    assert_eq!(printer.fmt_only_open(), "[open] printable\n  only message\n");
    printer.content.close_at(true, 7);
    printer.opened(true);
    assert_eq!(printer.render(), "");
    assert_eq!(printer.fmt_only_open(), "");
    assert_eq!(printer.fmt_only_prop(), "[resolved] printable\n");
}

#[test]
fn issue_message_visibility_and_removal() {
    let mut issue = Issue::new_at("thread", User::new("a", ""), 0);
    issue.comment_at(Message::new_at("one", User::new("b", ""), 1), 1);
    issue.comment_at(Message::new_at("two", User::new("c", ""), 2), 2);
    issue.hide_message_at(0, 3);
    assert_eq!(issue.count_visible_messages(), 1);
    assert_eq!(issue.count_message(), 2);
    issue.show_message_at(0, 4);
    assert_eq!(issue.count_visible_messages(), 2);
    // out-of-range positions are silent no-ops
    issue.hide_message_at(9, 5);
    issue.remove_message_at(9, 5);
    assert_eq!(issue.count_message(), 2);
    issue.remove_message_at(0, 6);
    assert_eq!(issue.count_message(), 1);
    assert_eq!(issue.comments()[0].message, "two");
}

#[test]
fn issue_field_mutators() {
    let mut issue = Issue::new_at("old title", User::new("a", ""), 0);
    issue.rename_at("new title", 1);
    assert_eq!(issue.name(), "new title");
    assert_eq!(issue.updated_at(), 1);
    issue.edit_due_at(99, 2);
    assert_eq!(issue.due_date(), Some(99));
    issue.assign_at(User::new("worker", "w@x"), 3);
    assert_eq!(issue.updated_at(), 3);
    assert!(issue.contains_comment("x") == false);
    issue.comment_at(Message::new_at("some words", User::new("b", ""), 4), 4);
    assert!(issue.contains_comment("words"));
    assert!(!issue.contains_comment("other"));
}

#[test]
fn user_roster_lookup() {
    let mut users = Users::new();
    users.add_user(User::new("alice", "a@x"));
    users.add_user(User::new("bob", "b@x"));
    users.add_user(User::new("alice", "duplicate@x"));
    assert_eq!(users.len(), 3);
    assert!(users.exist("alice"));
    assert!(!users.exist("carol"));
    // a duplicate name resolves to the first entry
    assert_eq!(users.find("alice").unwrap().email(), "a@x");
    assert!(users.get(-1).is_none());
    assert_eq!(users.get(1).unwrap().name(), "bob");
    assert!(users.get(5).is_none());
    let slot = users.get_mut(0);
    slot.deactivate();
    assert!(users.get(0).unwrap().is_deactivated());
    assert_eq!(users.get_list().len(), 3);
}

#[test]
fn update_refreshes_the_timestamp_only() {
    let mut issue = Issue::new_at("stale", User::new("a", ""), 0);
    issue.update_at(42);
    assert_eq!(issue.updated_at(), 42);
    assert_eq!(issue.created_at(), 0);
    assert_eq!(issue.name(), "stale");
}
