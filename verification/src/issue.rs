//! Issues, their lifecycle status, and their comment threads.

use crate::clock::now_ts;
use crate::user::{User, UserView};
use vstd::prelude::*;

verus! {

/// How a closed issue was resolved.
#[derive(Clone, Copy, Debug, PartialEq, Eq, Structural)]
pub enum Resolution {
    /// The issue was resolved.
    Resolved,
    /// The issue was closed without being resolved.
    Unresolved,
}

/// The lifecycle state of an issue.
///
/// `MarkedForDeletion(n)` is the soft-delete countdown: each successful save
/// of the owning project decrements `n` by one and purges the issue once the
/// countdown reaches zero.
#[derive(Clone, Copy, Debug, PartialEq, Eq, Structural)]
pub enum Status {
    /// The issue is open.
    Open,
    /// The issue is closed, resolved or not.
    Closed(Resolution),
    /// The issue is scheduled for removal after the countdown many saves.
    MarkedForDeletion(u64),
}

impl Status {
    /// Whether the status is `Open`.
    pub open spec fn spec_is_open(&self) -> bool {
        self is Open
    }

    /// Whether the status is `Open`.
    #[verifier::when_used_as_spec(spec_is_open)]
    pub fn is_open(&self) -> (r: bool)
        ensures
            r == self.spec_is_open(),
    {
        match self {
            Status::Open => true,
            _ => false,
        }
    }
}

/// The resolution named by the boolean the closing operations take.
pub open spec fn spec_resolution(is_resolved: bool) -> Resolution {
    if is_resolved {
        Resolution::Resolved
    } else {
        Resolution::Unresolved
    }
}

/// A timestamped, attributable text entry attached to an issue.  `show` is a
/// per-message soft-delete flag: a hidden message stays stored but is skipped
/// by the renderers.
#[derive(Debug)]
pub struct Message {
    pub message: String,
    pub show: bool,
    pub created_at: i64,
    pub author: User,
}

/// The mathematical value of a [`Message`].
#[verifier::ext_equal]
pub ghost struct MessageView {
    pub message: Seq<char>,
    pub show: bool,
    pub created_at: i64,
    pub author: UserView,
}

impl View for Message {
    type V = MessageView;

    open spec fn view(&self) -> MessageView {
        MessageView {
            message: self.message@,
            show: self.show,
            created_at: self.created_at,
            author: self.author@,
        }
    }
}

impl Clone for Message {
    fn clone(&self) -> (r: Self)
        ensures
            r@ == self@,
    {
        Message {
            message: self.message.clone(),
            show: self.show,
            created_at: self.created_at,
            author: self.author.clone(),
        }
    }
}

impl Message {
    /// Creates a visible message written at time `t`.
    pub fn new_at(message: &str, author: User, t: i64) -> (r: Self)
        ensures
            r@ == (MessageView { message: message@, show: true, created_at: t, author: author@ }),
    {
        Message { message: message.to_owned(), show: true, created_at: t, author }
    }

    /// Creates a visible message written now.
    pub fn new(message: &str, author: User) -> (r: Self)
        ensures
            r@.message == message@,
            r@.show == true,
            r@.author == author@,
    {
        let t = now_ts();
        Message::new_at(message, author, t)
    }
}

/// A trackable unit of work: a named issue with a lifecycle status, an
/// author, an optional due date, an optional set of assignees, and an ordered
/// sequence of messages.
#[derive(Debug)]
pub struct Issue {
    pub name: String,
    pub status: Status,
    pub created_at: i64,
    pub updated_at: i64,
    pub due_date: Option<i64>,
    pub author: User,
    pub assigned_member: Option<Vec<User>>,
    pub messages: Vec<Message>,
}

/// The mathematical value of an [`Issue`].
#[verifier::ext_equal]
pub ghost struct IssueView {
    pub name: Seq<char>,
    pub status: Status,
    pub created_at: i64,
    pub updated_at: i64,
    pub due_date: Option<i64>,
    pub author: UserView,
    pub assigned_member: Option<Seq<UserView>>,
    pub messages: Seq<MessageView>,
}

impl View for Issue {
    type V = IssueView;

    open spec fn view(&self) -> IssueView {
        IssueView {
            name: self.name@,
            status: self.status,
            created_at: self.created_at,
            updated_at: self.updated_at,
            due_date: self.due_date,
            author: self.author@,
            assigned_member: match self.assigned_member {
                Some(v) => Some(v@.map(|i: int, u: User| u@)),
                None => None,
            },
            messages: self.messages@.map(|i: int, m: Message| m@),
        }
    }
}

impl Clone for Issue {
    fn clone(&self) -> (r: Self)
        ensures
            r@ == self@,
    {
        let assigned_member = match &self.assigned_member {
            Some(v) => Some(clone_users(v)),
            None => None,
        };
        let messages = clone_messages(&self.messages);
        let r = Issue {
            name: self.name.clone(),
            status: self.status,
            created_at: self.created_at,
            updated_at: self.updated_at,
            due_date: self.due_date,
            author: self.author.clone(),
            assigned_member,
            messages,
        };
        proof {
            assert(r@ =~= self@);
        }
        r
    }
}

/// Copies a list of users element by element.
fn clone_users(v: &Vec<User>) -> (r: Vec<User>)
    ensures
        r@.map(|i: int, u: User| u@) == v@.map(|i: int, u: User| u@),
{
    let mut r: Vec<User> = Vec::new();
    let mut i: usize = 0;
    while i < v.len()
        invariant
            i <= v.len(),
            r@.len() == i,
            forall|j: int| 0 <= j < i ==> r@[j]@ == v@[j]@,
        decreases v.len() - i,
    {
        r.push(v[i].clone());
        i += 1;
    }
    proof {
        assert(r@.map(|i: int, u: User| u@) =~= v@.map(|i: int, u: User| u@));
    }
    r
}

/// Copies a list of messages element by element.
fn clone_messages(v: &Vec<Message>) -> (r: Vec<Message>)
    ensures
        r@.map(|i: int, m: Message| m@) == v@.map(|i: int, m: Message| m@),
{
    let mut r: Vec<Message> = Vec::new();
    let mut i: usize = 0;
    while i < v.len()
        invariant
            i <= v.len(),
            r@.len() == i,
            forall|j: int| 0 <= j < i ==> r@[j]@ == v@[j]@,
        decreases v.len() - i,
    {
        r.push(v[i].clone());
        i += 1;
    }
    proof {
        assert(r@.map(|i: int, m: Message| m@) =~= v@.map(|i: int, m: Message| m@));
    }
    r
}

impl Issue {
    /// The view of a fresh issue named `name` by `author` at time `t`.
    pub open spec fn fresh(name: Seq<char>, author: UserView, t: i64) -> IssueView {
        IssueView {
            name: name,
            status: Status::Open,
            created_at: t,
            updated_at: t,
            due_date: None,
            author: author,
            assigned_member: None,
            messages: Seq::empty(),
        }
    }

    /// Creates an open issue with an empty message sequence at time `t`.
    pub fn new_at(name: &str, author: User, t: i64) -> (r: Self)
        ensures
            r@ == Issue::fresh(name@, author@, t),
    {
        let r = Issue {
            name: name.to_owned(),
            status: Status::Open,
            created_at: t,
            updated_at: t,
            due_date: None,
            author,
            assigned_member: None,
            messages: Vec::new(),
        };
        proof {
            assert(r@ =~= Issue::fresh(name@, author@, t));
        }
        r
    }

    /// Creates an open issue with an empty message sequence, created now.
    pub fn new(name: &str, author: User) -> (r: Self)
        ensures
            r@ == Issue::fresh(name@, author@, r@.created_at),
    {
        let t = now_ts();
        Issue::new_at(name, author, t)
    }

    /// Refreshes `updated_at` to `t` and changes nothing else.
    pub fn update_at(&mut self, t: i64)
        ensures
            final(self)@ == (IssueView { updated_at: t, ..old(self)@ }),
    {
        self.updated_at = t;
        proof {
            assert(self@ =~= (IssueView { updated_at: t, ..old(self)@ }));
        }
    }

    /// Refreshes `updated_at` to the present time and changes nothing else.
    pub fn update(&mut self)
        ensures
            final(self)@ == (IssueView {
                updated_at: final(self)@.updated_at,
                ..old(self)@
            }),
    {
        let t = now_ts();
        self.update_at(t);
    }

    /// Replaces the title and refreshes `updated_at` to `t`.
    pub fn rename_at(&mut self, name: &str, t: i64)
        ensures
            final(self)@ == (IssueView { name: name@, updated_at: t, ..old(self)@ }),
    {
        self.name = name.to_owned();
        self.updated_at = t;
        proof {
            assert(self@ =~= (IssueView { name: name@, updated_at: t, ..old(self)@ }));
        }
    }

    /// Replaces the title and refreshes `updated_at` to the present time.
    pub fn rename(&mut self, name: &str)
        ensures
            final(self)@ == (IssueView {
                name: name@,
                updated_at: final(self)@.updated_at,
                ..old(self)@
            }),
    {
        let t = now_ts();
        self.rename_at(name, t);
    }

    /// Replaces the due date and refreshes `updated_at` to `t`.
    pub fn edit_due_at(&mut self, date: i64, t: i64)
        ensures
            final(self)@ == (IssueView { due_date: Some(date), updated_at: t, ..old(self)@ }),
    {
        self.due_date = Some(date);
        self.updated_at = t;
        proof {
            assert(self@ =~= (IssueView { due_date: Some(date), updated_at: t, ..old(self)@ }));
        }
    }

    /// Replaces the due date and refreshes `updated_at` to the present time.
    pub fn edit_due(&mut self, date: i64)
        ensures
            final(self)@ == (IssueView {
                due_date: Some(date),
                updated_at: final(self)@.updated_at,
                ..old(self)@
            }),
    {
        let t = now_ts();
        self.edit_due_at(date, t);
    }

    /// Replaces the assignee set with exactly the given user and refreshes
    /// `updated_at` to `t`.
    pub fn assign_at(&mut self, user: User, t: i64)
        ensures
            final(self)@ == (IssueView {
                assigned_member: Some(seq![user@]),
                updated_at: t,
                ..old(self)@
            }),
    {
        let ghost uv = user@;
        let mut v: Vec<User> = Vec::new();
        v.push(user);
        self.assigned_member = Some(v);
        self.updated_at = t;
        proof {
            assert(v@.map(|i: int, u: User| u@) =~= seq![uv]);
            assert(self@ =~= (IssueView {
                assigned_member: Some(seq![uv]),
                updated_at: t,
                ..old(self)@
            }));
        }
    }

    /// Replaces the assignee set with exactly the given user and refreshes
    /// `updated_at` to the present time.
    pub fn assign(&mut self, user: User)
        ensures
            final(self)@ == (IssueView {
                assigned_member: Some(seq![user@]),
                updated_at: final(self)@.updated_at,
                ..old(self)@
            }),
    {
        let t = now_ts();
        self.assign_at(user, t);
    }

    /// Appends a message and refreshes `updated_at` to `t`.
    pub fn comment_at(&mut self, new_comment: Message, t: i64)
        ensures
            final(self)@ == (IssueView {
                messages: old(self)@.messages.push(new_comment@),
                updated_at: t,
                ..old(self)@
            }),
    {
        let ghost mv = new_comment@;
        self.messages.push(new_comment);
        self.updated_at = t;
        proof {
            assert(self.messages@.map(|i: int, m: Message| m@) =~= old(self)@.messages.push(mv));
            assert(self@ =~= (IssueView {
                messages: old(self)@.messages.push(mv),
                updated_at: t,
                ..old(self)@
            }));
        }
    }

    /// Appends a message and refreshes `updated_at` to the present time.
    pub fn comment(&mut self, new_comment: Message)
        ensures
            final(self)@ == (IssueView {
                messages: old(self)@.messages.push(new_comment@),
                updated_at: final(self)@.updated_at,
                ..old(self)@
            }),
    {
        let t = now_ts();
        self.comment_at(new_comment, t);
    }

    /// Closes the issue, resolved or not, and refreshes `updated_at` to `t`.
    /// Closing an already-closed issue switches the resolution.
    pub fn close_at(&mut self, is_resolved: bool, t: i64)
        ensures
            final(self)@ == (IssueView {
                status: Status::Closed(
                    if is_resolved {
                        Resolution::Resolved
                    } else {
                        Resolution::Unresolved
                    },
                ),
                updated_at: t,
                ..old(self)@
            }),
    {
        self.status = Status::Closed(
            if is_resolved {
                Resolution::Resolved
            } else {
                Resolution::Unresolved
            },
        );
        self.updated_at = t;
        proof {
            assert(self@ =~= (IssueView { status: self.status, updated_at: t, ..old(self)@ }));
        }
    }

    /// Closes the issue, resolved or not, with the present time.
    pub fn close(&mut self, is_resolved: bool)
        ensures
            final(self)@ == (IssueView {
                status: Status::Closed(
                    if is_resolved {
                        Resolution::Resolved
                    } else {
                        Resolution::Unresolved
                    },
                ),
                updated_at: final(self)@.updated_at,
                ..old(self)@
            }),
    {
        let t = now_ts();
        self.close_at(is_resolved, t);
    }

    /// Unconditionally resets the status to `Open`, whatever it was, and
    /// refreshes `updated_at` to `t`.
    pub fn reopen_at(&mut self, t: i64)
        ensures
            final(self)@ == (IssueView { status: Status::Open, updated_at: t, ..old(self)@ }),
    {
        self.status = Status::Open;
        self.updated_at = t;
        proof {
            assert(self@ =~= (IssueView { status: Status::Open, updated_at: t, ..old(self)@ }));
        }
    }

    /// Unconditionally resets the status to `Open` with the present time.
    pub fn reopen(&mut self)
        ensures
            final(self)@ == (IssueView {
                status: Status::Open,
                updated_at: final(self)@.updated_at,
                ..old(self)@
            }),
    {
        let t = now_ts();
        self.reopen_at(t);
    }

    /// Marks the issue for deletion after `countdown` saves and refreshes
    /// `updated_at` to `t`.
    pub fn mark_for_deletion_at(&mut self, countdown: u64, t: i64)
        ensures
            final(self)@ == (IssueView {
                status: Status::MarkedForDeletion(countdown),
                updated_at: t,
                ..old(self)@
            }),
    {
        self.status = Status::MarkedForDeletion(countdown);
        self.updated_at = t;
        proof {
            assert(self@ =~= (IssueView { status: self.status, updated_at: t, ..old(self)@ }));
        }
    }

    /// Marks the issue for deletion after `countdown` saves, with the present
    /// time.
    pub fn mark_for_deletion(&mut self, countdown: u64)
        ensures
            final(self)@ == (IssueView {
                status: Status::MarkedForDeletion(countdown),
                updated_at: final(self)@.updated_at,
                ..old(self)@
            }),
    {
        let t = now_ts();
        self.mark_for_deletion_at(countdown, t);
    }

    /// Hides the message at `pos`; an out-of-range position is a no-op.
    pub fn hide_message_at(&mut self, pos: usize, t: i64)
        ensures
            pos < old(self)@.messages.len() ==> final(self)@ == (IssueView {
                messages: old(self)@.messages.update(
                    pos as int,
                    MessageView { show: false, ..old(self)@.messages[pos as int] },
                ),
                updated_at: t,
                ..old(self)@
            }),
            pos >= old(self)@.messages.len() ==> final(self)@ == old(self)@,
    {
        if pos < self.messages.len() {
            let m = &mut self.messages[pos];
            m.show = false;
            self.updated_at = t;
            proof {
                assert(self@.messages =~= old(self)@.messages.update(
                    pos as int,
                    MessageView { show: false, ..old(self)@.messages[pos as int] },
                ));
                assert(self@ =~= (IssueView {
                    messages: self@.messages,
                    updated_at: t,
                    ..old(self)@
                }));
            }
        } else {
            proof {
                assert(self@ =~= old(self)@);
            }
        }
    }

    /// Hides the message at `pos` with the present time; an out-of-range
    /// position is a no-op.
    pub fn hide_message(&mut self, pos: usize)
        ensures
            pos < old(self)@.messages.len() ==> final(self)@ == (IssueView {
                messages: old(self)@.messages.update(
                    pos as int,
                    MessageView { show: false, ..old(self)@.messages[pos as int] },
                ),
                updated_at: final(self)@.updated_at,
                ..old(self)@
            }),
            pos >= old(self)@.messages.len() ==> final(self)@ == old(self)@,
    {
        let t = now_ts();
        self.hide_message_at(pos, t);
    }

    /// Shows the message at `pos` again; an out-of-range position is a no-op.
    pub fn show_message_at(&mut self, pos: usize, t: i64)
        ensures
            pos < old(self)@.messages.len() ==> final(self)@ == (IssueView {
                messages: old(self)@.messages.update(
                    pos as int,
                    MessageView { show: true, ..old(self)@.messages[pos as int] },
                ),
                updated_at: t,
                ..old(self)@
            }),
            pos >= old(self)@.messages.len() ==> final(self)@ == old(self)@,
    {
        if pos < self.messages.len() {
            let m = &mut self.messages[pos];
            m.show = true;
            self.updated_at = t;
            proof {
                assert(self@.messages =~= old(self)@.messages.update(
                    pos as int,
                    MessageView { show: true, ..old(self)@.messages[pos as int] },
                ));
                assert(self@ =~= (IssueView {
                    messages: self@.messages,
                    updated_at: t,
                    ..old(self)@
                }));
            }
        } else {
            proof {
                assert(self@ =~= old(self)@);
            }
        }
    }

    /// Shows the message at `pos` again, with the present time; an
    /// out-of-range position is a no-op.
    pub fn show_message(&mut self, pos: usize)
        ensures
            pos < old(self)@.messages.len() ==> final(self)@ == (IssueView {
                messages: old(self)@.messages.update(
                    pos as int,
                    MessageView { show: true, ..old(self)@.messages[pos as int] },
                ),
                updated_at: final(self)@.updated_at,
                ..old(self)@
            }),
            pos >= old(self)@.messages.len() ==> final(self)@ == old(self)@,
    {
        let t = now_ts();
        self.show_message_at(pos, t);
    }

    /// Removes the message at `pos` outright; an out-of-range position is a
    /// no-op.
    pub fn remove_message_at(&mut self, pos: usize, t: i64)
        ensures
            pos < old(self)@.messages.len() ==> final(self)@ == (IssueView {
                messages: old(self)@.messages.remove(pos as int),
                updated_at: t,
                ..old(self)@
            }),
            pos >= old(self)@.messages.len() ==> final(self)@ == old(self)@,
    {
        if pos < self.messages.len() {
            self.messages.remove(pos);
            self.updated_at = t;
            proof {
                assert(self@.messages =~= old(self)@.messages.remove(pos as int));
                assert(self@ =~= (IssueView {
                    messages: self@.messages,
                    updated_at: t,
                    ..old(self)@
                }));
            }
        } else {
            proof {
                assert(self@ =~= old(self)@);
            }
        }
    }

    /// Removes the message at `pos` outright, with the present time; an
    /// out-of-range position is a no-op.
    pub fn remove_message(&mut self, pos: usize)
        ensures
            pos < old(self)@.messages.len() ==> final(self)@ == (IssueView {
                messages: old(self)@.messages.remove(pos as int),
                updated_at: final(self)@.updated_at,
                ..old(self)@
            }),
            pos >= old(self)@.messages.len() ==> final(self)@ == old(self)@,
    {
        let t = now_ts();
        self.remove_message_at(pos, t);
    }

    /// Whether any message body contains the given text.
    pub fn contains_comment(&self, s: &str) -> (r: bool)
        ensures
            r == exists|i: int|
                0 <= i < self@.messages.len() && crate::text::contains_seq(
                    self@.messages[i].message,
                    s@,
                ),
    {
        let pat = crate::text::chars_of(s);
        let mut i: usize = 0;
        while i < self.messages.len()
            invariant
                pat@ == s@,
                i <= self.messages.len(),
                forall|j: int|
                    0 <= j < i ==> !crate::text::contains_seq(self@.messages[j].message, s@),
            decreases self.messages.len() - i,
        {
            let body = crate::text::chars_of(self.messages[i].message.as_str());
            if crate::text::contains_chars(&body, &pat) {
                proof {
                    assert(self@.messages[i as int].message == body@);
                }
                return true;
            }
            proof {
                assert(self@.messages[i as int].message == body@);
            }
            i += 1;
        }
        false
    }

    /// Returns the title.
    pub fn name(&self) -> (r: &str)
        ensures
            r@ == self@.name,
    {
        self.name.as_str()
    }

    /// Returns the status.
    pub fn status(&self) -> (r: Status)
        ensures
            r == self@.status,
    {
        self.status
    }

    /// Returns the author.
    pub fn created_by(&self) -> (r: &User)
        ensures
            r@ == self@.author,
    {
        &self.author
    }

    /// Returns the creation timestamp.
    pub fn created_at(&self) -> (r: i64)
        ensures
            r == self@.created_at,
    {
        self.created_at
    }

    /// Returns the last-update timestamp.
    pub fn updated_at(&self) -> (r: i64)
        ensures
            r == self@.updated_at,
    {
        self.updated_at
    }

    /// Returns the due date, if one was set.
    pub fn due_date(&self) -> (r: Option<i64>)
        ensures
            r == self@.due_date,
    {
        self.due_date
    }

    /// Returns the message sequence.
    pub fn comments(&self) -> (r: &Vec<Message>)
        ensures
            r@.map(|i: int, m: Message| m@) == self@.messages,
    {
        &self.messages
    }

    /// The number of messages, hidden ones included.
    pub fn count_message(&self) -> (r: usize)
        ensures
            r == self@.messages.len(),
    {
        self.messages.len()
    }

    /// The number of visible messages.
    pub fn count_visible_messages(&self) -> (r: usize)
        ensures
            r == self@.messages.filter(|m: MessageView| m.show).len(),
    {
        let mut n: usize = 0;
        let mut i: usize = 0;
        while i < self.messages.len()
            invariant
                i <= self.messages.len(),
                n == self@.messages.take(i as int).filter(|m: MessageView| m.show).len(),
            decreases self.messages.len() - i,
        {
            proof {
                assert(self@.messages.take(i + 1).drop_last() =~= self@.messages.take(i as int));
                reveal_with_fuel(Seq::filter, 2);
            }
            if self.messages[i].show {
                n += 1;
            }
            i += 1;
        }
        proof {
            assert(self@.messages.take(self@.messages.len() as int) =~= self@.messages);
        }
        n
    }

    /// Whether the issue is open.
    pub fn is_opened(&self) -> (r: bool)
        ensures
            r == (self@.status is Open),
    {
        self.status.is_open()
    }
}

} // verus!
