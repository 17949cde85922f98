//! A small per-issue printer: renders one issue as text, optionally only
//! when it is open, optionally with its message thread.

use crate::codec::append_lit;
use crate::display_options::{render_msgs, render_status};
use crate::issue::{Issue, IssueView};
use crate::text::string_from_chars;
use vstd::prelude::*;

verus! {

/// The one-line property rendering of an issue: status marker and title.
pub open spec fn render_prop(iv: IssueView) -> Seq<char> {
    render_status(iv.status) + " "@ + iv.name + "\n"@
}

/// The full rendering of an issue: the property line and its messages.
pub open spec fn render_full(iv: IssueView) -> Seq<char> {
    render_prop(iv) + render_msgs(iv.messages)
}

/// Alternative renderings of an issue-like value.
pub trait AltDisplay {
    /// The issue this value renders.
    spec fn alt_view(&self) -> IssueView;

    /// Renders the issue with its messages, but only when it is open.
    fn fmt_only_open(&self) -> (r: String)
        ensures
            r@ == if self.alt_view().status is Open {
                render_full(self.alt_view())
            } else {
                Seq::<char>::empty()
            },
    ;

    /// Renders the property line alone, whatever the status.
    fn fmt_only_prop(&self) -> (r: String)
        ensures
            r@ == render_prop(self.alt_view()),
    ;
}

/// One issue with rendering switches.
#[derive(Debug)]
pub struct IssuePrinter {
    pub content: Issue,
    pub only_opened: bool,
    pub contain_message: bool,
}

impl IssuePrinter {
    /// Wraps an issue with both switches off.
    pub fn new(content: Issue) -> (r: Self)
        ensures
            r.content@ == content@,
            r.only_opened == false,
            r.contain_message == false,
    {
        IssuePrinter { content, only_opened: false, contain_message: false }
    }

    /// Switches rendering to open issues only.
    pub fn opened(&mut self, opened: bool)
        ensures
            *final(self) == (IssuePrinter { only_opened: opened, ..*old(self) }),
    {
        self.only_opened = opened;
    }

    /// Switches the message thread on or off.
    pub fn contain_messages(&mut self, con: bool)
        ensures
            *final(self) == (IssuePrinter { contain_message: con, ..*old(self) }),
    {
        self.contain_message = con;
    }

    /// Renders the issue as the switches ask: nothing for a non-open issue
    /// under `only_opened`, the property line alone without
    /// `contain_message`, the full block with it.
    pub fn render(&self) -> (r: String)
        ensures
            r@ == if self.only_opened && !(self.content@.status is Open) {
                Seq::<char>::empty()
            } else if self.contain_message {
                render_full(self.content@)
            } else {
                render_prop(self.content@)
            },
    {
        if self.only_opened && !self.content.is_opened() {
            let out: Vec<char> = Vec::new();
            return string_from_chars(&out);
        }
        if self.contain_message {
            fmt_full(&self.content)
        } else {
            fmt_prop(&self.content)
        }
    }
}

/// Renders the property line of an issue.
fn fmt_prop(iss: &Issue) -> (r: String)
    ensures
        r@ == render_prop(iss@),
{
    let mut out: Vec<char> = Vec::new();
    append_prop(&mut out, iss);
    string_from_chars(&out)
}

/// Renders an issue with its messages.
fn fmt_full(iss: &Issue) -> (r: String)
    ensures
        r@ == render_full(iss@),
{
    let mut out: Vec<char> = Vec::new();
    append_prop(&mut out, iss);
    append_thread(&mut out, iss);
    proof {
        assert(out@ =~= render_full(iss@));
    }
    string_from_chars(&out)
}

/// Appends the property line.
fn append_prop(out: &mut Vec<char>, iss: &Issue)
    ensures
        final(out)@ == old(out)@ + render_prop(iss@),
{
    match iss.status {
        crate::issue::Status::Open => append_lit(out, "[open]"),
        crate::issue::Status::Closed(crate::issue::Resolution::Resolved) => append_lit(
            out,
            "[resolved]",
        ),
        crate::issue::Status::Closed(crate::issue::Resolution::Unresolved) => append_lit(
            out,
            "[unresolved]",
        ),
        crate::issue::Status::MarkedForDeletion(_) => append_lit(out, "[deleted]"),
    }
    append_lit(out, " ");
    append_lit(out, iss.name.as_str());
    append_lit(out, "\n");
    proof {
        assert(out@ =~= old(out)@ + render_prop(iss@));
    }
}

/// Appends the message thread.
fn append_thread(out: &mut Vec<char>, iss: &Issue)
    ensures
        final(out)@ == old(out)@ + render_msgs(iss@.messages),
{
    let ghost ms = iss@.messages;
    let mut i: usize = 0;
    while i < iss.messages.len()
        invariant
            i <= iss@.messages.len(),
            ms == iss@.messages,
            out@ == old(out)@ + render_msgs(ms.take(i as int)),
        decreases iss@.messages.len() - i,
    {
        proof {
            assert(ms.take(i + 1).drop_last() =~= ms.take(i as int));
            assert(ms.take(i + 1).last() == ms[i as int]);
            assert(ms[i as int] == iss.messages@[i as int]@);
        }
        append_lit(out, "  ");
        append_lit(out, iss.messages[i].message.as_str());
        append_lit(out, "\n");
        proof {
            assert(out@ =~= old(out)@ + render_msgs(ms.take(i + 1)));
        }
        i += 1;
    }
    proof {
        assert(ms.take(ms.len() as int) =~= ms);
    }
}

impl AltDisplay for IssuePrinter {
    open spec fn alt_view(&self) -> IssueView {
        self.content@
    }

    fn fmt_only_open(&self) -> (r: String) {
        if self.content.is_opened() {
            fmt_full(&self.content)
        } else {
            let out: Vec<char> = Vec::new();
            string_from_chars(&out)
        }
    }

    fn fmt_only_prop(&self) -> (r: String) {
        fmt_prop(&self.content)
    }
}

} // verus!
