//! A configurable plain-text renderer over a project snapshot.  It only
//! reads the entity model; nothing here mutates or persists anything.

use crate::codec::{append_i64, append_lit, append_u64, dec_rep, ser_i64};
use crate::issue::{IssueView, MessageView, Resolution, Status};
use crate::project::{Project, ProjectView};
use crate::text::string_from_chars;
use vstd::prelude::*;

verus! {

/// How far back a time-bounded rendering reaches.
#[derive(Clone, Copy, Debug, PartialEq, Eq, Structural)]
pub enum Range {
    /// No bound.
    All,
    /// At most this many entries.
    Max(u32),
}

/// How much of a project a rendering shows.
#[derive(Clone, Copy, Debug, PartialEq, Eq, Structural)]
pub enum ShowLevel {
    /// The project header alone.
    Project,
    /// The header and one line per issue.
    Issues,
    /// The header and every issue with its messages.
    Comments,
}

/// The textual marker for a status.
pub open spec fn render_status(st: Status) -> Seq<char> {
    match st {
        Status::Open => "[open]"@,
        Status::Closed(Resolution::Resolved) => "[resolved]"@,
        Status::Closed(Resolution::Unresolved) => "[unresolved]"@,
        Status::MarkedForDeletion(_) => "[deleted]"@,
    }
}

/// The project header: name, issue count, timestamps and path.
pub open spec fn render_header(pv: ProjectView) -> Seq<char> {
    pv.name + "\n  issues: "@ + dec_rep(pv.issues.len()) + "\n  created at: "@ + ser_i64(
        pv.created_at,
    ) + "\n  updated at: "@ + ser_i64(pv.updated_at) + "\n  path: "@ + pv.path
}

/// One summary line for one issue.
pub open spec fn render_line(e: (u64, IssueView)) -> Seq<char> {
    "* "@ + render_status(e.1.status) + " #"@ + dec_rep(e.0 as nat) + " "@ + e.1.name + " "@
        + dec_rep(e.1.messages.len()) + " comments\n"@
}

/// The summary lines for the issue table: closed issues appear only when
/// `contain` holds.
pub open spec fn render_lines(s: Seq<(u64, IssueView)>, contain: bool) -> Seq<char>
    decreases s.len(),
{
    if s.len() == 0 {
        Seq::empty()
    } else {
        render_lines(s.drop_last(), contain) + if contain || s.last().1.status is Open {
            render_line(s.last())
        } else {
            Seq::empty()
        }
    }
}

/// One indented line per message, hidden ones included.
pub open spec fn render_msgs(ms: Seq<MessageView>) -> Seq<char>
    decreases ms.len(),
{
    if ms.len() == 0 {
        Seq::empty()
    } else {
        render_msgs(ms.drop_last()) + "  "@ + ms.last().message + "\n"@
    }
}

/// One issue with its message thread.
pub open spec fn render_block(e: (u64, IssueView)) -> Seq<char> {
    render_status(e.1.status) + " #"@ + dec_rep(e.0 as nat) + " "@ + e.1.name + "\n"@
        + render_msgs(e.1.messages)
}

/// Every issue with its message thread.
pub open spec fn render_blocks(s: Seq<(u64, IssueView)>) -> Seq<char>
    decreases s.len(),
{
    if s.len() == 0 {
        Seq::empty()
    } else {
        render_blocks(s.drop_last()) + render_block(s.last())
    }
}

/// The whole rendering at a given level.
pub open spec fn render(pv: ProjectView, level: ShowLevel, contain: bool) -> Seq<char> {
    match level {
        ShowLevel::Project => render_header(pv),
        ShowLevel::Issues => render_header(pv) + "\n\n"@ + render_lines(pv.issues, contain),
        ShowLevel::Comments => render_header(pv) + "\n\n"@ + render_blocks(pv.issues),
    }
}

/// What to render and how: a level, whether closed issues show, and the
/// project snapshot to read.
#[derive(Debug)]
pub struct DisplayOptions<'a> {
    pub show_level: ShowLevel,
    pub contain_closed_issues: bool,
    pub up_to_by_created_date: Range,
    pub up_to_by_latest_update: Range,
    pub up_to_by_due: Range,
    pub content: Option<&'a Project>,
}

impl<'a> DisplayOptions<'a> {
    /// Fresh options: message-level rendering of nothing, closed issues
    /// hidden, no time bounds.
    pub fn new() -> (r: Self)
        ensures
            r.show_level == ShowLevel::Comments,
            r.contain_closed_issues == false,
            r.up_to_by_created_date == Range::All,
            r.up_to_by_latest_update == Range::All,
            r.up_to_by_due == Range::All,
            r.content is None,
    {
        DisplayOptions {
            show_level: ShowLevel::Comments,
            contain_closed_issues: false,
            up_to_by_created_date: Range::All,
            up_to_by_latest_update: Range::All,
            up_to_by_due: Range::All,
            content: None,
        }
    }

    /// Picks the level of detail.
    pub fn show_level(&mut self, level: ShowLevel) -> (r: &mut Self)
        ensures
            *r == (DisplayOptions { show_level: level, ..*old(self) }),
            *final(self) == *final(r),
    {
        self.show_level = level;
        self
    }

    /// Picks whether closed issues appear in the issue list.
    pub fn contain_close_issues(&mut self, contain_close_issues: bool) -> (r: &mut Self)
        ensures
            *r == (DisplayOptions { contain_closed_issues: contain_close_issues, ..*old(self) }),
            *final(self) == *final(r),
    {
        self.contain_closed_issues = contain_close_issues;
        self
    }

    /// Bounds the rendering by creation date.
    pub fn created_at(&mut self, up_to: Range) -> (r: &mut Self)
        ensures
            *r == (DisplayOptions { up_to_by_created_date: up_to, ..*old(self) }),
            *final(self) == *final(r),
    {
        self.up_to_by_created_date = up_to;
        self
    }

    /// Bounds the rendering by last update.
    pub fn updated_at(&mut self, up_to: Range) -> (r: &mut Self)
        ensures
            *r == (DisplayOptions { up_to_by_latest_update: up_to, ..*old(self) }),
            *final(self) == *final(r),
    {
        self.up_to_by_latest_update = up_to;
        self
    }

    /// Bounds the rendering by due date.
    pub fn due_at(&mut self, up_to: Range) -> (r: &mut Self)
        ensures
            *r == (DisplayOptions { up_to_by_due: up_to, ..*old(self) }),
            *final(self) == *final(r),
    {
        self.up_to_by_due = up_to;
        self
    }

    /// Picks the project snapshot to render.
    pub fn content(&mut self, content: &'a Project) -> (r: &mut Self)
        ensures
            *r == (DisplayOptions { content: Some(content), ..*old(self) }),
            *final(self) == *final(r),
    {
        self.content = Some(content);
        self
    }

    /// Renders the chosen snapshot at the chosen level; nothing was chosen,
    /// nothing comes back.
    pub fn format_display(&self) -> (r: Option<String>)
        ensures
            match self.content {
                None => r is None,
                Some(p) => match r {
                    Some(text) => text@ == render(
                        p@,
                        self.show_level,
                        self.contain_closed_issues,
                    ),
                    None => false,
                },
            },
    {
        let p = match self.content {
            None => {
                return None;
            },
            Some(p) => p,
        };
        let mut out: Vec<char> = Vec::new();
        append_header(&mut out, p);
        match self.show_level {
            ShowLevel::Project => {},
            ShowLevel::Issues => {
                append_lit(&mut out, "\n\n");
                append_lines(&mut out, p, self.contain_closed_issues);
            },
            ShowLevel::Comments => {
                append_lit(&mut out, "\n\n");
                append_blocks(&mut out, p);
            },
        }
        proof {
            assert(out@ =~= render(p@, self.show_level, self.contain_closed_issues));
        }
        Some(string_from_chars(&out))
    }
}

/// Appends the project header.
fn append_header(out: &mut Vec<char>, p: &Project)
    ensures
        final(out)@ == old(out)@ + render_header(p@),
{
    append_lit(out, p.project_name.as_str());
    append_lit(out, "\n  issues: ");
    append_u64(out, p.issues.len() as u64);
    append_lit(out, "\n  created at: ");
    append_i64(out, p.created_at);
    append_lit(out, "\n  updated at: ");
    append_i64(out, p.updated_at);
    append_lit(out, "\n  path: ");
    append_lit(out, p.project_path.as_str());
    proof {
        assert((p.issues.len() as u64) as nat == p@.issues.len());
        assert(out@ =~= old(out)@ + render_header(p@));
    }
}

/// Appends one summary line.
fn append_line(out: &mut Vec<char>, id: u64, iss: &crate::issue::Issue)
    ensures
        final(out)@ == old(out)@ + render_line((id, iss@)),
{
    append_lit(out, "* ");
    append_status_marker(out, iss.status);
    append_lit(out, " #");
    append_u64(out, id);
    append_lit(out, " ");
    append_lit(out, iss.name.as_str());
    append_lit(out, " ");
    append_u64(out, iss.count_message() as u64);
    append_lit(out, " comments\n");
    proof {
        assert(out@ =~= old(out)@ + render_line((id, iss@)));
    }
}

/// Appends the status marker.
fn append_status_marker(out: &mut Vec<char>, st: Status)
    ensures
        final(out)@ == old(out)@ + render_status(st),
{
    match st {
        Status::Open => append_lit(out, "[open]"),
        Status::Closed(Resolution::Resolved) => append_lit(out, "[resolved]"),
        Status::Closed(Resolution::Unresolved) => append_lit(out, "[unresolved]"),
        Status::MarkedForDeletion(_) => append_lit(out, "[deleted]"),
    }
}

/// Appends the summary lines of the issue table.
fn append_lines(out: &mut Vec<char>, p: &Project, contain: bool)
    ensures
        final(out)@ == old(out)@ + render_lines(p@.issues, contain),
{
    let ghost s = p@.issues;
    let mut i: usize = 0;
    while i < p.issues.len()
        invariant
            i <= p@.issues.len(),
            s == p@.issues,
            out@ == old(out)@ + render_lines(s.take(i as int), contain),
        decreases p@.issues.len() - i,
    {
        proof {
            assert(s.take(i + 1).drop_last() =~= s.take(i as int));
            assert(s.take(i + 1).last() == s[i as int]);
            assert(s[i as int] == (p.issues@[i as int].0, p.issues@[i as int].1@));
        }
        let id = p.issues[i].0;
        let iss = &p.issues[i].1;
        if contain || iss.is_opened() {
            append_line(out, id, iss);
        }
        proof {
            assert(out@ =~= old(out)@ + render_lines(s.take(i + 1), contain));
        }
        i += 1;
    }
    proof {
        assert(s.take(s.len() as int) =~= s);
    }
}

/// Appends the message thread of one issue.
fn append_msgs_lines(out: &mut Vec<char>, iss: &crate::issue::Issue)
    ensures
        final(out)@ == old(out)@ + render_msgs(iss@.messages),
{
    let ghost ms = iss@.messages;
    let mut i: usize = 0;
    while i < iss.messages.len()
        invariant
            i <= iss@.messages.len(),
            ms == iss@.messages,
            out@ == old(out)@ + render_msgs(ms.take(i as int)),
        decreases iss@.messages.len() - i,
    {
        proof {
            assert(ms.take(i + 1).drop_last() =~= ms.take(i as int));
            assert(ms.take(i + 1).last() == ms[i as int]);
            assert(ms[i as int] == iss.messages@[i as int]@);
        }
        append_lit(out, "  ");
        append_lit(out, iss.messages[i].message.as_str());
        append_lit(out, "\n");
        proof {
            assert(out@ =~= old(out)@ + render_msgs(ms.take(i + 1)));
        }
        i += 1;
    }
    proof {
        assert(ms.take(ms.len() as int) =~= ms);
    }
}

/// Appends one issue with its message thread.
fn append_block(out: &mut Vec<char>, id: u64, iss: &crate::issue::Issue)
    ensures
        final(out)@ == old(out)@ + render_block((id, iss@)),
{
    append_status_marker(out, iss.status);
    append_lit(out, " #");
    append_u64(out, id);
    append_lit(out, " ");
    append_lit(out, iss.name.as_str());
    append_lit(out, "\n");
    append_msgs_lines(out, iss);
    proof {
        assert(out@ =~= old(out)@ + render_block((id, iss@)));
    }
}

/// Appends every issue with its message thread.
fn append_blocks(out: &mut Vec<char>, p: &Project)
    ensures
        final(out)@ == old(out)@ + render_blocks(p@.issues),
{
    let ghost s = p@.issues;
    let mut i: usize = 0;
    while i < p.issues.len()
        invariant
            i <= p@.issues.len(),
            s == p@.issues,
            out@ == old(out)@ + render_blocks(s.take(i as int)),
        decreases p@.issues.len() - i,
    {
        proof {
            assert(s.take(i + 1).drop_last() =~= s.take(i as int));
            assert(s.take(i + 1).last() == s[i as int]);
            assert(s[i as int] == (p.issues@[i as int].0, p.issues@[i as int].1@));
        }
        let id = p.issues[i].0;
        let iss = &p.issues[i].1;
        append_block(out, id, iss);
        proof {
            assert(out@ =~= old(out)@ + render_blocks(s.take(i + 1)));
        }
        i += 1;
    }
    proof {
        assert(s.take(s.len() as int) =~= s);
    }
}

} // verus!
