//! The project aggregate: issues keyed by monotonically assigned ids, a user
//! roster, and the soft-delete pass that runs on every save.

use crate::clock::now_ts;
use crate::issue::{Issue, IssueView, Message, Status};
use crate::user::{User, UserView, Users};
use vstd::prelude::*;

verus! {

/// The mathematical value of a [`Project`].
#[verifier::ext_equal]
pub ghost struct ProjectView {
    pub name: Seq<char>,
    pub path: Seq<char>,
    pub current_id: u64,
    pub created_at: i64,
    pub updated_at: i64,
    pub users: Seq<UserView>,
    pub issues: Seq<(u64, IssueView)>,
}

impl ProjectView {
    /// Structural soundness of a project value: every issue id ever assigned
    /// is positive and no larger than `current_id`, and ids appear in
    /// strictly increasing (that is, insertion) order.
    pub open spec fn wf(self) -> bool {
        &&& forall|i: int| 0 <= i < self.issues.len() ==> 1 <= (#[trigger] self.issues[i]).0
            <= self.current_id
        &&& forall|i: int, j: int|
            0 <= i < j < self.issues.len() ==> (#[trigger] self.issues[i]).0 < (
            #[trigger] self.issues[j]).0
    }

    /// Whether some issue carries the id.
    pub open spec fn has_id(self, id: u64) -> bool {
        exists|i: int| 0 <= i < self.issues.len() && (#[trigger] self.issues[i]).0 == id
    }

    /// The position of the issue with the id (meaningful only under
    /// `has_id`; under `wf` the position is unique).
    pub open spec fn idx_of(self, id: u64) -> int {
        choose|i: int| 0 <= i < self.issues.len() && (#[trigger] self.issues[i]).0 == id
    }

    /// The issue with the id (meaningful only under `has_id`).
    pub open spec fn issue_of(self, id: u64) -> IssueView {
        self.issues[self.idx_of(id)].1
    }
}

/// What `add_issue_at` does to a project value: the next id is assigned to a
/// fresh issue by `author`, the counter advances, and the project is touched
/// at `t`.
pub open spec fn spec_add_issue(
    pv: ProjectView,
    name: Seq<char>,
    author: Seq<char>,
    t: i64,
) -> ProjectView
    recommends
        pv.current_id < u64::MAX,
{
    ProjectView {
        current_id: (pv.current_id + 1) as u64,
        updated_at: t,
        issues: pv.issues.push(
            (
                (pv.current_id + 1) as u64,
                Issue::fresh(
                    name,
                    UserView { name: author, email: Seq::empty(), deactivate: false },
                    t,
                ),
            ),
        ),
        ..pv
    }
}

/// What `remove_issue_at` does to a project value: the issue leaves the
/// table, the counter does not move; an absent id changes nothing.
pub open spec fn spec_remove_issue(pv: ProjectView, id: u64, t: i64) -> ProjectView {
    if pv.has_id(id) {
        ProjectView { updated_at: t, issues: pv.issues.remove(pv.idx_of(id)), ..pv }
    } else {
        pv
    }
}

/// What `to_close_issue_at` does to a project value: the issue's status
/// becomes closed with the given resolution; an absent id changes nothing.
pub open spec fn spec_close_issue(pv: ProjectView, id: u64, is_resolved: bool, t: i64) -> ProjectView {
    if pv.has_id(id) {
        ProjectView {
            updated_at: t,
            issues: pv.issues.update(
                pv.idx_of(id),
                (
                    id,
                    IssueView {
                        status: Status::Closed(crate::issue::spec_resolution(is_resolved)),
                        updated_at: t,
                        ..pv.issue_of(id)
                    },
                ),
            ),
            ..pv
        }
    } else {
        pv
    }
}

/// What the soft-delete pass does to one status: a countdown ticks down by
/// one, saturating at zero; every other status is untouched.
pub open spec fn sd_step_status(st: Status) -> Status {
    match st {
        Status::MarkedForDeletion(n) => Status::MarkedForDeletion(
            if n > 0 {
                (n - 1) as u64
            } else {
                0
            },
        ),
        _ => st,
    }
}

/// Whether an issue with this status survives the soft-delete pass: an issue
/// marked for deletion is purged once its countdown is at most one (it would
/// reach the floor of zero on this save).
pub open spec fn sd_survives(st: Status) -> bool {
    match st {
        Status::MarkedForDeletion(n) => n > 1,
        _ => true,
    }
}

/// What the soft-delete pass does to one surviving issue.
pub open spec fn sd_step_issue(iv: IssueView) -> IssueView {
    IssueView { status: sd_step_status(iv.status), ..iv }
}

/// The soft-delete pass over the issue table: purge the issues whose
/// countdown has run out, tick the countdown of the marked survivors.
pub open spec fn sd_pass(s: Seq<(u64, IssueView)>) -> Seq<(u64, IssueView)> {
    s.filter(|e: (u64, IssueView)| sd_survives(e.1.status)).map_values(
        |e: (u64, IssueView)| (e.0, sd_step_issue(e.1)),
    )
}

/// The aggregate root: one tracked workspace, holding issues and users, owned
/// by one on-disk document.
#[derive(Debug)]
pub struct Project {
    pub project_name: String,
    pub project_path: String,
    pub current_id: u64,
    pub created_at: i64,
    pub updated_at: i64,
    pub users: Users,
    pub issues: Vec<(u64, Issue)>,
}

impl View for Project {
    type V = ProjectView;

    open spec fn view(&self) -> ProjectView {
        ProjectView {
            name: self.project_name@,
            path: self.project_path@,
            current_id: self.current_id,
            created_at: self.created_at,
            updated_at: self.updated_at,
            users: self.users@,
            issues: self.issues@.map(|i: int, e: (u64, Issue)| (e.0, e.1@)),
        }
    }
}

impl Project {
    /// The view of a fresh project named `name` rooted at `path` at time `t`.
    pub open spec fn fresh(name: Seq<char>, path: Seq<char>, t: i64) -> ProjectView {
        ProjectView {
            name: name,
            path: path,
            current_id: 0,
            created_at: t,
            updated_at: t,
            users: Seq::empty(),
            issues: Seq::empty(),
        }
    }

    /// Creates a fresh project, in memory only, at time `t`: no issues, no
    /// users, and an id counter at zero.
    pub fn new_at(name: &str, path: &str, t: i64) -> (r: Self)
        ensures
            r@ == Project::fresh(name@, path@, t),
            r@.wf(),
    {
        let r = Project {
            project_name: name.to_owned(),
            project_path: path.to_owned(),
            current_id: 0,
            created_at: t,
            updated_at: t,
            users: Users::new(),
            issues: Vec::new(),
        };
        proof {
            assert(r@ =~= Project::fresh(name@, path@, t));
        }
        r
    }

    /// Creates a fresh project, in memory only, timestamped now.  Nothing is
    /// written to disk until the document from a save is stored.
    pub fn new(name: &str, path: &str) -> (r: Self)
        ensures
            r@ == Project::fresh(name@, path@, r@.created_at),
            r@.wf(),
    {
        let t = now_ts();
        Project::new_at(name, path, t)
    }

    /// The position of the issue with the id, by linear scan.
    fn find_index(&self, id: u64) -> (r: Option<usize>)
        ensures
            match r {
                Some(i) => i < self@.issues.len() && self@.issues[i as int].0 == id && (forall|
                    j: int,
                |
                    0 <= j < i ==> (#[trigger] self@.issues[j]).0 != id),
                None => !self@.has_id(id),
            },
    {
        let mut i: usize = 0;
        while i < self.issues.len()
            invariant
                i <= self.issues.len(),
                forall|j: int| 0 <= j < i ==> (#[trigger] self@.issues[j]).0 != id,
            decreases self.issues.len() - i,
        {
            if self.issues[i].0 == id {
                proof {
                    assert(self@.issues[i as int].0 == id);
                }
                return Some(i);
            }
            proof {
                assert(self@.issues[i as int].0 != id);
            }
            i += 1;
        }
        None
    }

    /// Under `wf`, the scan position is the `idx_of` position.
    pub proof fn lemma_idx_unique(pv: ProjectView, id: u64, i: int)
        requires
            pv.wf(),
            0 <= i < pv.issues.len(),
            pv.issues[i].0 == id,
        ensures
            pv.has_id(id),
            pv.idx_of(id) == i,
    {
        assert(pv.has_id(id));
        let k = pv.idx_of(id);
        if k != i {
            if k < i {
                assert(pv.issues[k].0 < pv.issues[i].0);
            } else {
                assert(pv.issues[i].0 < pv.issues[k].0);
            }
        }
    }

    /// Allocates the next id, inserts an open issue under it at time `t`, and
    /// advances the id counter.  The id is `current_id + 1` and is never
    /// reused later, even if the issue is removed.
    pub fn add_issue_at(&mut self, name: &str, author: &str, t: i64) -> (r: u64)
        requires
            old(self)@.wf(),
            old(self)@.current_id < u64::MAX,
        ensures
            r == old(self)@.current_id + 1,
            !old(self)@.has_id(r),
            final(self)@ == spec_add_issue(old(self)@, name@, author@, t),
            final(self)@.wf(),
    {
        let id = self.current_id + 1;
        let user = User::new(author, "");
        let issue = Issue::new_at(name, user, t);
        self.issues.push((id, issue));
        self.current_id = id;
        self.updated_at = t;
        proof {
            reveal_strlit("");
            assert(""@ =~= Seq::<char>::empty());
            assert(self@ =~= (ProjectView {
                current_id: id,
                updated_at: t,
                issues: old(self)@.issues.push(
                    (
                        id,
                        Issue::fresh(
                            name@,
                            UserView { name: author@, email: Seq::empty(), deactivate: false },
                            t,
                        ),
                    ),
                ),
                ..old(self)@
            }));
            assert(self@ =~= spec_add_issue(old(self)@, name@, author@, t));
        }
        id
    }

    /// Allocates the next id and inserts an open issue under it, timestamped
    /// now.
    pub fn add_issue(&mut self, name: &str, author: &str) -> (r: u64)
        requires
            old(self)@.wf(),
            old(self)@.current_id < u64::MAX,
        ensures
            r == old(self)@.current_id + 1,
            !old(self)@.has_id(r),
            final(self)@ == spec_add_issue(old(self)@, name@, author@, final(self)@.updated_at),
            final(self)@.wf(),
    {
        let t = now_ts();
        self.add_issue_at(name, author, t)
    }

    /// Hard-removes the issue with the id at time `t`; the id is not reused
    /// and the counter does not move.  An absent id is a silent no-op.
    pub fn remove_issue_at(&mut self, id: u64, t: i64)
        requires
            old(self)@.wf(),
        ensures
            final(self)@ == spec_remove_issue(old(self)@, id, t),
            final(self)@.wf(),
            final(self)@.current_id == old(self)@.current_id,
    {
        match self.find_index(id) {
            Some(i) => {
                proof {
                    Project::lemma_idx_unique(old(self)@, id, i as int);
                }
                self.issues.remove(i);
                self.updated_at = t;
                proof {
                    assert(self@.issues =~= old(self)@.issues.remove(i as int));
                    assert(self@ =~= (ProjectView {
                        updated_at: t,
                        issues: old(self)@.issues.remove(i as int),
                        ..old(self)@
                    }));
                }
            },
            None => {
                proof {
                    assert(self@ =~= old(self)@);
                }
            },
        }
    }

    /// Hard-removes the issue with the id, timestamped now; an absent id is a
    /// silent no-op.
    pub fn remove_issue(&mut self, id: u64)
        requires
            old(self)@.wf(),
        ensures
            final(self)@ == spec_remove_issue(old(self)@, id, final(self)@.updated_at),
            final(self)@.wf(),
            final(self)@.current_id == old(self)@.current_id,
    {
        let t = now_ts();
        self.remove_issue_at(id, t);
    }

    /// Replaces the issue stored under position `i` by a transformed copy.
    /// Helper for the id-addressed mutators.
    fn update_issue_view(&mut self, i: usize, issue: Issue, t: i64)
        requires
            i < old(self)@.issues.len(),
        ensures
            final(self)@ == (ProjectView {
                updated_at: t,
                issues: old(self)@.issues.update(
                    i as int,
                    (old(self)@.issues[i as int].0, issue@),
                ),
                ..old(self)@
            }),
    {
        let id = self.issues[i].0;
        let ghost prev = self@;
        self.issues.remove(i);
        self.issues.insert(i, (id, issue));
        self.updated_at = t;
        proof {
            assert(self@.issues =~= prev.issues.update(i as int, (prev.issues[i as int].0, issue@)));
            assert(self@ =~= (ProjectView {
                updated_at: t,
                issues: prev.issues.update(i as int, (prev.issues[i as int].0, issue@)),
                ..prev
            }));
        }
    }

    /// Closes the issue with the id, resolved or not, at time `t`.  An
    /// absent id is a silent no-op.
    pub fn to_close_issue_at(&mut self, id: u64, is_resolved: bool, t: i64)
        requires
            old(self)@.wf(),
        ensures
            final(self)@ == spec_close_issue(old(self)@, id, is_resolved, t),
            final(self)@.wf(),
            final(self)@.current_id == old(self)@.current_id,
    {
        match self.find_index(id) {
            Some(i) => {
                proof {
                    Project::lemma_idx_unique(old(self)@, id, i as int);
                }
                let mut issue = self.issues[i].1.clone();
                issue.close_at(is_resolved, t);
                self.update_issue_view(i, issue, t);
                proof {
                    assert(self@ =~= (ProjectView {
                        updated_at: t,
                        issues: old(self)@.issues.update(
                            i as int,
                            (
                                id,
                                IssueView {
                                    status: Status::Closed(
                                        crate::issue::spec_resolution(is_resolved),
                                    ),
                                    updated_at: t,
                                    ..old(self)@.issue_of(id)
                                },
                            ),
                        ),
                        ..old(self)@
                    }));
                }
            },
            None => {
                proof {
                    assert(self@ =~= old(self)@);
                }
            },
        }
    }

    /// Closes the issue with the id, timestamped now; an absent id is a
    /// silent no-op.
    pub fn to_close_issue(&mut self, id: u64, is_resolved: bool)
        requires
            old(self)@.wf(),
        ensures
            final(self)@ == spec_close_issue(old(self)@, id, is_resolved, final(self)@.updated_at),
            final(self)@.wf(),
            final(self)@.current_id == old(self)@.current_id,
    {
        let t = now_ts();
        self.to_close_issue_at(id, is_resolved, t);
    }

    /// Reopens the issue with the id at time `t`, whatever its status was.
    /// An absent id is a silent no-op.
    pub fn to_open_issue_at(&mut self, id: u64, t: i64)
        requires
            old(self)@.wf(),
        ensures
            old(self)@.has_id(id) ==> final(self)@ == (ProjectView {
                updated_at: t,
                issues: old(self)@.issues.update(
                    old(self)@.idx_of(id),
                    (
                        id,
                        IssueView { status: Status::Open, updated_at: t, ..old(self)@.issue_of(id) },
                    ),
                ),
                ..old(self)@
            }),
            !old(self)@.has_id(id) ==> final(self)@ == old(self)@,
            final(self)@.wf(),
            final(self)@.current_id == old(self)@.current_id,
    {
        match self.find_index(id) {
            Some(i) => {
                proof {
                    Project::lemma_idx_unique(old(self)@, id, i as int);
                }
                let mut issue = self.issues[i].1.clone();
                issue.reopen_at(t);
                self.update_issue_view(i, issue, t);
                proof {
                    assert(self@ =~= (ProjectView {
                        updated_at: t,
                        issues: old(self)@.issues.update(
                            i as int,
                            (
                                id,
                                IssueView {
                                    status: Status::Open,
                                    updated_at: t,
                                    ..old(self)@.issue_of(id)
                                },
                            ),
                        ),
                        ..old(self)@
                    }));
                }
            },
            None => {
                proof {
                    assert(self@ =~= old(self)@);
                }
            },
        }
    }

    /// Reopens the issue with the id, timestamped now; an absent id is a
    /// silent no-op.
    pub fn to_open_issue(&mut self, id: u64)
        requires
            old(self)@.wf(),
        ensures
            old(self)@.has_id(id) ==> final(self)@ == (ProjectView {
                updated_at: final(self)@.updated_at,
                issues: old(self)@.issues.update(
                    old(self)@.idx_of(id),
                    (
                        id,
                        IssueView {
                            status: Status::Open,
                            updated_at: final(self)@.updated_at,
                            ..old(self)@.issue_of(id)
                        },
                    ),
                ),
                ..old(self)@
            }),
            !old(self)@.has_id(id) ==> final(self)@ == old(self)@,
            final(self)@.wf(),
            final(self)@.current_id == old(self)@.current_id,
    {
        let t = now_ts();
        self.to_open_issue_at(id, t);
    }

    /// Appends a visible message by `author` to the issue with the id at time
    /// `t`.  An absent id is a silent no-op.
    pub fn add_comment_at(&mut self, id: u64, message: &str, author: &str, t: i64)
        requires
            old(self)@.wf(),
        ensures
            old(self)@.has_id(id) ==> final(self)@ == (ProjectView {
                updated_at: t,
                issues: old(self)@.issues.update(
                    old(self)@.idx_of(id),
                    (
                        id,
                        IssueView {
                            messages: old(self)@.issue_of(id).messages.push(
                                crate::issue::MessageView {
                                    message: message@,
                                    show: true,
                                    created_at: t,
                                    author: UserView {
                                        name: author@,
                                        email: Seq::empty(),
                                        deactivate: false,
                                    },
                                },
                            ),
                            updated_at: t,
                            ..old(self)@.issue_of(id)
                        },
                    ),
                ),
                ..old(self)@
            }),
            !old(self)@.has_id(id) ==> final(self)@ == old(self)@,
            final(self)@.wf(),
            final(self)@.current_id == old(self)@.current_id,
    {
        match self.find_index(id) {
            Some(i) => {
                proof {
                    Project::lemma_idx_unique(old(self)@, id, i as int);
                }
                let user = User::new(author, "");
                let msg = Message::new_at(message, user, t);
                let mut issue = self.issues[i].1.clone();
                issue.comment_at(msg, t);
                self.update_issue_view(i, issue, t);
                proof {
                    reveal_strlit("");
            assert(""@ =~= Seq::<char>::empty());
                    assert(self@ =~= (ProjectView {
                        updated_at: t,
                        issues: old(self)@.issues.update(
                            i as int,
                            (
                                id,
                                IssueView {
                                    messages: old(self)@.issue_of(id).messages.push(
                                        crate::issue::MessageView {
                                            message: message@,
                                            show: true,
                                            created_at: t,
                                            author: UserView {
                                                name: author@,
                                                email: Seq::empty(),
                                                deactivate: false,
                                            },
                                        },
                                    ),
                                    updated_at: t,
                                    ..old(self)@.issue_of(id)
                                },
                            ),
                        ),
                        ..old(self)@
                    }));
                }
            },
            None => {
                proof {
                    assert(self@ =~= old(self)@);
                }
            },
        }
    }

    /// Appends a visible message by `author` to the issue with the id,
    /// timestamped now; an absent id is a silent no-op.
    pub fn add_comment(&mut self, id: u64, message: &str, author: &str)
        requires
            old(self)@.wf(),
        ensures
            old(self)@.has_id(id) ==> final(self)@ == (ProjectView {
                updated_at: final(self)@.updated_at,
                issues: old(self)@.issues.update(
                    old(self)@.idx_of(id),
                    (
                        id,
                        IssueView {
                            messages: old(self)@.issue_of(id).messages.push(
                                crate::issue::MessageView {
                                    message: message@,
                                    show: true,
                                    created_at: final(self)@.updated_at,
                                    author: UserView {
                                        name: author@,
                                        email: Seq::empty(),
                                        deactivate: false,
                                    },
                                },
                            ),
                            updated_at: final(self)@.updated_at,
                            ..old(self)@.issue_of(id)
                        },
                    ),
                ),
                ..old(self)@
            }),
            !old(self)@.has_id(id) ==> final(self)@ == old(self)@,
            final(self)@.wf(),
            final(self)@.current_id == old(self)@.current_id,
    {
        let t = now_ts();
        self.add_comment_at(id, message, author, t);
    }

    /// Marks the issue with the id for deletion after `countdown` saves, at
    /// time `t`.  An absent id is a silent no-op.
    pub fn to_mark_issue_for_deletion_at(&mut self, id: u64, countdown: u64, t: i64)
        requires
            old(self)@.wf(),
        ensures
            old(self)@.has_id(id) ==> final(self)@ == (ProjectView {
                updated_at: t,
                issues: old(self)@.issues.update(
                    old(self)@.idx_of(id),
                    (
                        id,
                        IssueView {
                            status: Status::MarkedForDeletion(countdown),
                            updated_at: t,
                            ..old(self)@.issue_of(id)
                        },
                    ),
                ),
                ..old(self)@
            }),
            !old(self)@.has_id(id) ==> final(self)@ == old(self)@,
            final(self)@.wf(),
            final(self)@.current_id == old(self)@.current_id,
    {
        match self.find_index(id) {
            Some(i) => {
                proof {
                    Project::lemma_idx_unique(old(self)@, id, i as int);
                }
                let mut issue = self.issues[i].1.clone();
                issue.mark_for_deletion_at(countdown, t);
                self.update_issue_view(i, issue, t);
                proof {
                    assert(self@ =~= (ProjectView {
                        updated_at: t,
                        issues: old(self)@.issues.update(
                            i as int,
                            (
                                id,
                                IssueView {
                                    status: Status::MarkedForDeletion(countdown),
                                    updated_at: t,
                                    ..old(self)@.issue_of(id)
                                },
                            ),
                        ),
                        ..old(self)@
                    }));
                }
            },
            None => {
                proof {
                    assert(self@ =~= old(self)@);
                }
            },
        }
    }

    /// Marks the issue with the id for deletion after `countdown` saves,
    /// timestamped now; an absent id is a silent no-op.
    pub fn to_mark_issue_for_deletion(&mut self, id: u64, countdown: u64)
        requires
            old(self)@.wf(),
        ensures
            old(self)@.has_id(id) ==> final(self)@ == (ProjectView {
                updated_at: final(self)@.updated_at,
                issues: old(self)@.issues.update(
                    old(self)@.idx_of(id),
                    (
                        id,
                        IssueView {
                            status: Status::MarkedForDeletion(countdown),
                            updated_at: final(self)@.updated_at,
                            ..old(self)@.issue_of(id)
                        },
                    ),
                ),
                ..old(self)@
            }),
            !old(self)@.has_id(id) ==> final(self)@ == old(self)@,
            final(self)@.wf(),
            final(self)@.current_id == old(self)@.current_id,
    {
        let t = now_ts();
        self.to_mark_issue_for_deletion_at(id, countdown, t);
    }

    /// Adds a user to the roster at time `t`.
    pub fn add_user_at(&mut self, user: User, t: i64)
        ensures
            final(self)@ == (ProjectView {
                updated_at: t,
                users: old(self)@.users.push(user@),
                ..old(self)@
            }),
    {
        self.users.add_user(user);
        self.updated_at = t;
        proof {
            assert(self@ =~= (ProjectView { updated_at: t, users: self@.users, ..old(self)@ }));
        }
    }

    /// Adds a user to the roster, timestamped now.
    pub fn add_user(&mut self, user: User)
        ensures
            final(self)@ == (ProjectView {
                updated_at: final(self)@.updated_at,
                users: old(self)@.users.push(user@),
                ..old(self)@
            }),
    {
        let t = now_ts();
        self.add_user_at(user, t);
    }

    /// Runs the soft-delete pass: purges every issue whose deletion countdown
    /// has run out and ticks the countdown of the marked survivors.  Runs on
    /// every save, before the document is produced.
    pub fn run_soft_delete_pass(&mut self)
        requires
            old(self)@.wf(),
        ensures
            final(self)@ == (ProjectView { issues: sd_pass(old(self)@.issues), ..old(self)@ }),
            final(self)@.wf(),
            final(self)@.current_id == old(self)@.current_id,
    {
        let ghost s = self@.issues;
        let mut out: Vec<(u64, Issue)> = Vec::new();
        let mut i: usize = 0;
        while i < self.issues.len()
            invariant
                i <= self.issues@.len(),
                s == self@.issues,
                self@.wf(),
                out@.map(|k: int, e: (u64, Issue)| (e.0, e.1@)) == sd_pass(s.take(i as int)),
                forall|a: int, b: int|
                    0 <= a < b < out@.len() ==> (#[trigger] out@[a]).0 < (#[trigger] out@[b]).0,
                forall|a: int|
                    0 <= a < out@.len() ==> 1 <= (#[trigger] out@[a]).0 <= self@.current_id,
                out@.len() > 0 ==> i > 0 && out@[out@.len() - 1].0 <= s[i - 1].0,
            decreases self.issues@.len() - i,
        {
            let ghost outv0 = out@.map(|k: int, e: (u64, Issue)| (e.0, e.1@));
            let ghost e = s[i as int];
            proof {
                assert(s.take(i + 1).drop_last() =~= s.take(i as int));
                reveal_with_fuel(Seq::filter, 2);
            }
            let id = self.issues[i].0;
            let iss = &self.issues[i].1;
            match iss.status {
                Status::MarkedForDeletion(n) => {
                    if n > 1 {
                        let mut kept = iss.clone();
                        kept.status = Status::MarkedForDeletion(n - 1);
                        out.push((id, kept));
                        proof {
                            assert(kept@ =~= sd_step_issue(e.1));
                            assert(out@.map(|k: int, e2: (u64, Issue)| (e2.0, e2.1@))
                                =~= outv0.push((e.0, sd_step_issue(e.1))));
                            assert(sd_pass(s.take(i + 1)) =~= outv0.push(
                                (e.0, sd_step_issue(e.1)),
                            ));
                        }
                    } else {
                        proof {
                            assert(!sd_survives(e.1.status));
                            assert(sd_pass(s.take(i + 1)) =~= sd_pass(s.take(i as int)));
                        }
                    }
                },
                _ => {
                    let kept = iss.clone();
                    out.push((id, kept));
                    proof {
                        assert(sd_survives(e.1.status));
                        assert(sd_step_issue(e.1) =~= e.1);
                        assert(out@.map(|k: int, e2: (u64, Issue)| (e2.0, e2.1@)) =~= outv0.push(
                            (e.0, sd_step_issue(e.1)),
                        ));
                        assert(sd_pass(s.take(i + 1)) =~= outv0.push((e.0, sd_step_issue(e.1))));
                    }
                },
            }
            i += 1;
        }
        proof {
            assert(s.take(s.len() as int) =~= s);
        }
        self.issues = out;
        proof {
            assert(self@ =~= (ProjectView { issues: sd_pass(old(self)@.issues), ..old(self)@ }));
        }
    }

    /// Runs the soft-delete pass, then produces the document to be written
    /// over the stored one.  The write itself is the caller's: nothing here
    /// touches a disk, and the overwrite is not transactional.
    pub fn save(&mut self) -> (r: Result<String, crate::storage::Error>)
        requires
            old(self)@.wf(),
        ensures
            final(self)@ == (ProjectView { issues: sd_pass(old(self)@.issues), ..old(self)@ }),
            final(self)@.wf(),
            match r {
                Ok(doc) => doc@ == crate::codec::ser_project(final(self)@),
                Err(_) => false,
            },
    {
        self.run_soft_delete_pass();
        let chars = crate::codec::serialize_project(self);
        Ok(crate::text::string_from_chars(&chars))
    }

    /// The number of issues currently stored.
    pub fn count_issues(&self) -> (r: usize)
        ensures
            r == self@.issues.len(),
    {
        self.issues.len()
    }

    /// The number of messages on the issue with the id, hidden ones
    /// included; an absent id yields nothing, distinct from zero messages.
    pub fn count_comments(&self, id: u64) -> (r: Option<usize>)
        requires
            self@.wf(),
        ensures
            self@.has_id(id) ==> r == Some(self@.issue_of(id).messages.len() as usize),
            !self@.has_id(id) ==> r is None,
    {
        match self.find_index(id) {
            Some(i) => {
                proof {
                    Project::lemma_idx_unique(self@, id, i as int);
                }
                Some(self.issues[i].1.count_message())
            },
            None => None,
        }
    }

    /// The issue with the id, if it is stored.
    pub fn get_issue(&self, id: u64) -> (r: Option<&Issue>)
        requires
            self@.wf(),
        ensures
            self@.has_id(id) ==> match r {
                Some(iss) => iss@ == self@.issue_of(id),
                None => false,
            },
            !self@.has_id(id) ==> r is None,
    {
        match self.find_index(id) {
            Some(i) => {
                proof {
                    Project::lemma_idx_unique(self@, id, i as int);
                }
                Some(&self.issues[i].1)
            },
            None => None,
        }
    }

    /// The stored issue table: ids with their issues, in insertion order.
    pub fn get_issues(&self) -> (r: &Vec<(u64, Issue)>)
        ensures
            r@.map(|i: int, e: (u64, Issue)| (e.0, e.1@)) == self@.issues,
    {
        &self.issues
    }

    /// The user roster.
    pub fn get_users(&self) -> (r: &Users)
        ensures
            r@ == self@.users,
    {
        &self.users
    }

    /// The project's name.
    pub fn project_name(&self) -> (r: &str)
        ensures
            r@ == self@.name,
    {
        self.project_name.as_str()
    }

    /// The project's root path.
    pub fn project_path(&self) -> (r: &str)
        ensures
            r@ == self@.path,
    {
        self.project_path.as_str()
    }

    /// The id the last `add_issue` call assigned, or zero.
    pub fn current_id(&self) -> (r: u64)
        ensures
            r == self@.current_id,
    {
        self.current_id
    }

    /// The creation timestamp.
    pub fn created_at(&self) -> (r: i64)
        ensures
            r == self@.created_at,
    {
        self.created_at
    }

    /// The last-update timestamp.
    pub fn updated_at(&self) -> (r: i64)
        ensures
            r == self@.updated_at,
    {
        self.updated_at
    }
}

} // verus!
