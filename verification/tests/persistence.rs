use local_issues_lib::codec::{parse_document, serialize_project};
use local_issues_lib::issue::{Issue, Message, Resolution, Status};
use local_issues_lib::project::Project;
use local_issues_lib::storage::{db_path, load, open_or_create, Error};
use local_issues_lib::text::{chars_of, string_from_chars};
use local_issues_lib::user::{User, Users};

fn assert_same_project(a: &Project, b: &Project) {
    assert_eq!(a.project_name(), b.project_name());
    assert_eq!(a.project_path(), b.project_path());
    assert_eq!(a.current_id(), b.current_id());
    assert_eq!(a.created_at(), b.created_at());
    assert_eq!(a.updated_at(), b.updated_at());
    assert_eq!(a.get_users().len(), b.get_users().len());
    for (ua, ub) in a.get_users().get_list().iter().zip(b.get_users().get_list().iter()) {
        assert_eq!(ua.name(), ub.name());
        assert_eq!(ua.email(), ub.email());
        assert_eq!(ua.is_deactivated(), ub.is_deactivated());
    }
    assert_eq!(a.count_issues(), b.count_issues());
    for ((ia, issue_a), (ib, issue_b)) in a.get_issues().iter().zip(b.get_issues().iter()) {
        assert_eq!(ia, ib);
        assert_eq!(issue_a.name(), issue_b.name());
        assert_eq!(issue_a.status(), issue_b.status());
        assert_eq!(issue_a.created_at(), issue_b.created_at());
        assert_eq!(issue_a.updated_at(), issue_b.updated_at());
        assert_eq!(issue_a.due_date(), issue_b.due_date());
        assert_eq!(issue_a.created_by().name(), issue_b.created_by().name());
        assert_eq!(issue_a.count_message(), issue_b.count_message());
        for (ma, mb) in issue_a.comments().iter().zip(issue_b.comments().iter()) {
            assert_eq!(ma.message, mb.message);
            assert_eq!(ma.show, mb.show);
            assert_eq!(ma.created_at, mb.created_at);
            assert_eq!(ma.author.name(), mb.author.name());
        }
    }
}

#[test]
fn round_trip_built_through_the_api() {
    let mut pr = Project::new_at("trip", "/tmp/trip", 100);
    pr.add_issue_at("alpha", "alice", 101);
    pr.add_issue_at("beta", "bob", 102);
    pr.add_comment_at(1, "note one", "carol", 103);
    pr.to_close_issue_at(2, false, 104);
    pr.add_user(User::new("dave", "dave@example.com"));
    let doc = serialize_project(&pr);
    let back = parse_document(&doc).unwrap();
    assert_same_project(&pr, &back);
}

#[test]
fn round_trip_with_every_field_exercised() {
    let spiky = Issue {
        name: "quote \" and back\\slash".to_string(),
        status: Status::MarkedForDeletion(7),
        created_at: -3,
        updated_at: 9,
        due_date: Some(-123),
        author: User::new("a\\uthor", "a@x"),
        assigned_member: Some(vec![User::new("helper", "h@x"), User::new("", "")]),
        messages: vec![
            Message {
                message: "plain".to_string(),
                show: true,
                created_at: 7,
                author: User::new("m1", ""),
            },
            Message {
                message: "hidden \"msg\"".to_string(),
                show: false,
                created_at: -1,
                author: User::new("m2", "m2@x"),
            },
        ],
    };
    let closed = Issue {
        name: "".to_string(),
        status: Status::Closed(Resolution::Unresolved),
        created_at: i64::MIN,
        updated_at: i64::MAX,
        due_date: None,
        author: User::new("", ""),
        assigned_member: None,
        messages: vec![],
    };
    let mut deactivated = User::new("old-timer", "o@x");
    deactivated.deactivate();
    let pr = Project {
        project_name: "every \\ field \"here\"".to_string(),
        project_path: "/tmp/spiky".to_string(),
        current_id: u64::MAX,
        created_at: -40,
        updated_at: 40,
        users: Users { list: vec![deactivated] },
        issues: vec![(3, spiky), (u64::MAX, closed)],
    };
    let doc = serialize_project(&pr);
    let back = parse_document(&doc).unwrap();
    assert_same_project(&pr, &back);
    let spiky_back = back.get_issue(3).unwrap();
    assert_eq!(spiky_back.name(), "quote \" and back\\slash");
    assert_eq!(spiky_back.due_date(), Some(-123));
    assert!(matches!(spiky_back.status(), Status::MarkedForDeletion(7)));
    assert!(!spiky_back.comments()[1].show);
}

#[test]
fn empty_document_is_the_empty_store_signal() {
    let r = load(Some(""));
    assert_eq!(r.unwrap_err(), Error::FileIsZero);
    assert!(Error::FileIsZero.is_file_is_zero());
    assert!(!Error::FileIsZero.is_not_found());
}

#[test]
fn missing_document_is_not_found() {
    let r = load(None);
    assert_eq!(r.unwrap_err(), Error::NotFound);
    assert!(Error::NotFound.is_not_found());
    assert!(!Error::NotFound.is_file_is_zero());
}

#[test]
fn malformed_document_is_a_deserialize_failure() {
    assert_eq!(load(Some("{}")).unwrap_err(), Error::Deserialize);
    assert_eq!(load(Some("not json at all")).unwrap_err(), Error::Deserialize);
    let mut pr = Project::new_at("p", "/tmp/p", 0);
    pr.add_issue_at("a", "b", 1);
    let doc = string_from_chars(&serialize_project(&pr));
    let truncated = &doc[..doc.len() - 1];
    assert_eq!(load(Some(truncated)).unwrap_err(), Error::Deserialize);
    // trailing garbage after a complete document is refused too
    let mut padded = doc.clone();
    padded.push(' ');
    assert_eq!(load(Some(padded.as_str())).unwrap_err(), Error::Deserialize);
}

#[test]
fn unsound_ids_are_a_deserialize_failure() {
    // an id larger than the counter cannot come from this library
    let pr = Project {
        project_name: "p".to_string(),
        project_path: "/tmp/p".to_string(),
        current_id: 0,
        created_at: 0,
        updated_at: 0,
        users: Users { list: vec![] },
        issues: vec![(
            5,
            Issue {
                name: "ghost".to_string(),
                status: Status::Open,
                created_at: 0,
                updated_at: 0,
                due_date: None,
                author: User::new("x", ""),
                assigned_member: None,
                messages: vec![],
            },
        )],
    };
    let doc = string_from_chars(&serialize_project(&pr));
    assert_eq!(load(Some(doc.as_str())).unwrap_err(), Error::Deserialize);
}

#[test]
fn open_or_create_falls_back_on_empty_and_missing() {
    let fresh = open_or_create(Some(""), "p", "/tmp/p").unwrap();
    assert_eq!(fresh.current_id(), 0);
    assert_eq!(fresh.count_issues(), 0);
    assert_eq!(fresh.project_name(), "p");
    let fresh2 = open_or_create(None, "q", "/tmp/q").unwrap();
    assert_eq!(fresh2.current_id(), 0);
    assert_eq!(fresh2.count_issues(), 0);
    // a real parse failure still propagates
    assert_eq!(
        open_or_create(Some("{broken"), "p", "/tmp/p").unwrap_err(),
        Error::Deserialize
    );
}

#[test]
fn open_or_create_reads_an_existing_document() {
    let mut pr = Project::new_at("p", "/tmp/p", 0);
    pr.add_issue_at("a", "b", 1);
    let doc = pr.save().unwrap();
    let back = open_or_create(Some(doc.as_str()), "other", "/elsewhere").unwrap();
    assert_eq!(back.project_name(), "p");
    assert_eq!(back.count_issues(), 1);
}

#[test]
fn save_returns_the_document_it_would_write() {
    let mut pr = Project::new_at("p", "/tmp/p", 0);
    pr.add_issue_at("a", "b", 1);
    let doc = pr.save().unwrap();
    let back = load(Some(doc.as_str())).unwrap();
    assert_same_project(&pr, &back);
}

#[test]
fn db_path_is_derived_from_the_root() {
    assert_eq!(db_path("/home/me/proj"), "/home/me/proj/.code_pulse/db.json");
    assert_eq!(db_path(""), "/.code_pulse/db.json");
}

#[test]
fn chars_round_trip_through_strings() {
    // string_from_chars must rebuild exactly the characters handed to it
    let source = "mixed \"text\" with \\ marks";
    let chars = chars_of(source);
    assert_eq!(chars.len(), source.chars().count());
    let rebuilt = string_from_chars(&chars);
    assert_eq!(rebuilt, source);
}

#[test]
fn document_shape_is_stable() {
    let pr = Project::new_at("n", "p", 2);
    let doc = string_from_chars(&serialize_project(&pr));
    assert_eq!(
        doc,
        "{\"project_name\":\"n\",\"current_id\":0,\"created_at\":2,\"updated_at\":2,\
         \"project_path\":\"p\",\"users\":[],\"issues\":{}}"
    );
}

#[test]
fn error_descriptions() {
    assert_eq!(Error::FileIsZero.describe(), "file is zero");
    assert_eq!(Error::NotFound.describe(), "no store document was found");
    assert_eq!(Error::Deserialize.describe(), "the store document is malformed");
}

#[test]
fn create_new_touches_nothing_until_saved() {
    let pr = local_issues_lib::storage::create_new("fresh", "/tmp/fresh");
    assert_eq!(pr.project_name(), "fresh");
    assert_eq!(pr.project_path(), "/tmp/fresh");
    assert_eq!(pr.current_id(), 0);
    assert_eq!(pr.count_issues(), 0);
    assert_eq!(pr.get_users().len(), 0);
    assert_eq!(pr.created_at(), pr.updated_at());
}
