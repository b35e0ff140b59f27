//! Modal overlays of the chat front end (approval prompt, diff viewer, help), as state machines
//! driven by key presses; drawing them is left to the terminal layer.

use vstd::prelude::*;

use crate::keys::KeyCode;
use crate::text::{chars_of, has_prefix, lines_of, lines_spec, starts_with, string_of};

verus! {

/// Result of an overlay handling a key event.
#[derive(Debug, Clone, Copy, PartialEq, Eq, Structural)]
pub enum OverlayResult {
    Consumed,
    Dismiss,
}

#[derive(Debug, Clone, Copy, PartialEq, Eq, Structural)]
pub enum ApprovalChoice {
    Approve,
    Deny,
    ApproveSession,
    Cancel,
}

/// The options offered, in order: key, label and choice.
pub open spec fn approval_options() -> Seq<(char, Seq<char>, ApprovalChoice)> {
    seq![
        ('A', "Approve"@, ApprovalChoice::Approve),
        ('D', "Deny"@, ApprovalChoice::Deny),
        ('S', "Approve Session"@, ApprovalChoice::ApproveSession),
        ('C', "Cancel"@, ApprovalChoice::Cancel),
    ]
}

pub struct ApprovalOverlay {
    pub title: String,
    pub message: String,
    pub selected: usize,
    options: Vec<(char, &'static str, ApprovalChoice)>,
    confirmed: Option<ApprovalChoice>,
}

/// What a key does to the approval prompt: the new selection, the confirmed choice and the result.
pub open spec fn approval_key_spec(selected: usize, confirmed: Option<ApprovalChoice>, key: KeyCode) -> (
    usize,
    Option<ApprovalChoice>,
    OverlayResult,
) {
    match key {
        KeyCode::Left | KeyCode::Up => (if selected == 0 { 0 } else { (selected - 1) as usize }, confirmed, OverlayResult::Consumed),
        KeyCode::Right | KeyCode::Down | KeyCode::Tab => (if selected + 1 < 3 { (selected + 1) as usize } else { 3 }, confirmed, OverlayResult::Consumed),
        KeyCode::Enter => (selected, Some(approval_options()[selected as int].2), OverlayResult::Dismiss),
        KeyCode::Char('a') | KeyCode::Char('A') => (selected, Some(ApprovalChoice::Approve), OverlayResult::Dismiss),
        KeyCode::Char('d') | KeyCode::Char('D') => (selected, Some(ApprovalChoice::Deny), OverlayResult::Dismiss),
        KeyCode::Char('s') | KeyCode::Char('S') => (selected, Some(ApprovalChoice::ApproveSession), OverlayResult::Dismiss),
        KeyCode::Char('c') | KeyCode::Char('C') | KeyCode::Esc => (selected, Some(ApprovalChoice::Cancel), OverlayResult::Dismiss),
        _ => (selected, confirmed, OverlayResult::Consumed),
    }
}

impl ApprovalOverlay {
    /// The options are the four of `approval_options`.
    pub closed spec fn wf(&self) -> bool {
        &&& self.options@.len() == 4
        &&& forall|i: int|
            0 <= i < 4 ==> (#[trigger] self.options@[i]).0 == approval_options()[i].0 && self.options@[i].1@
                == approval_options()[i].1 && self.options@[i].2 == approval_options()[i].2
    }

    pub closed spec fn confirmed(&self) -> Option<ApprovalChoice> {
        self.confirmed
    }

    pub closed spec fn title_spec(&self) -> String {
        self.title
    }

    pub closed spec fn message_spec(&self) -> String {
        self.message
    }

    pub closed spec fn selected_spec(&self) -> usize {
        self.selected
    }

    pub fn new(title: String, message: String) -> (o: Self)
        ensures
            o.wf(),
            o.title_spec() == title,
            o.message_spec() == message,
            o.selected_spec() == 0,
            o.confirmed() is None,
    {
        let mut options: Vec<(char, &'static str, ApprovalChoice)> = Vec::new();
        options.push(('A', "Approve", ApprovalChoice::Approve));
        options.push(('D', "Deny", ApprovalChoice::Deny));
        options.push(('S', "Approve Session", ApprovalChoice::ApproveSession));
        options.push(('C', "Cancel", ApprovalChoice::Cancel));
        ApprovalOverlay { title, message, selected: 0, options, confirmed: None }
    }

    /// The options shown: key, label and choice.
    pub fn options(&self) -> (r: &Vec<(char, &'static str, ApprovalChoice)>)
        requires
            self.wf(),
        ensures
            r@.len() == 4,
            forall|i: int| 0 <= i < 4 ==> (#[trigger] r@[i]).0 == approval_options()[i].0 && r@[i].1@ == approval_options()[i].1
                && r@[i].2 == approval_options()[i].2,
    {
        &self.options
    }

    pub fn confirmed_choice(&self) -> (c: Option<ApprovalChoice>)
        ensures
            c == self.confirmed(),
    {
        self.confirmed
    }

    /// The decision made: `Some(true)` for approve (this once or for the session),
    /// `Some(false)` for deny or cancel, `None` while undecided.
    pub fn approval_result(&self) -> (r: Option<bool>)
        ensures
            r == match self.confirmed() {
                Some(c) => Some(c == ApprovalChoice::Approve || c == ApprovalChoice::ApproveSession),
                None => None,
            },
    {
        match self.confirmed {
            Some(c) => Some(c == ApprovalChoice::Approve || c == ApprovalChoice::ApproveSession),
            None => None,
        }
    }

    /// Handle a key: move the selection, or confirm a choice and close.
    pub fn handle_key(&mut self, key: KeyCode) -> (r: OverlayResult)
        requires
            old(self).wf(),
            old(self).selected_spec() < 4,
        ensures
            final(self).wf(),
            final(self).selected_spec() < 4,
            (final(self).selected_spec(), final(self).confirmed(), r) == approval_key_spec(
                old(self).selected_spec(),
                old(self).confirmed(),
                key,
            ),
            final(self).title_spec() == old(self).title_spec(),
            final(self).message_spec() == old(self).message_spec(),
    {
        match key {
            KeyCode::Left | KeyCode::Up => {
                self.selected = if self.selected == 0 { 0 } else { self.selected - 1 };
                OverlayResult::Consumed
            },
            KeyCode::Right | KeyCode::Down | KeyCode::Tab => {
                let n = self.selected + 1;
                let last = self.options.len() - 1;
                self.selected = if n < last { n } else { last };
                OverlayResult::Consumed
            },
            KeyCode::Enter => {
                self.confirmed = Some(self.options[self.selected].2);
                OverlayResult::Dismiss
            },
            KeyCode::Char('a') | KeyCode::Char('A') => {
                self.confirmed = Some(ApprovalChoice::Approve);
                OverlayResult::Dismiss
            },
            KeyCode::Char('d') | KeyCode::Char('D') => {
                self.confirmed = Some(ApprovalChoice::Deny);
                OverlayResult::Dismiss
            },
            KeyCode::Char('s') | KeyCode::Char('S') => {
                self.confirmed = Some(ApprovalChoice::ApproveSession);
                OverlayResult::Dismiss
            },
            KeyCode::Char('c') | KeyCode::Char('C') | KeyCode::Esc => {
                self.confirmed = Some(ApprovalChoice::Cancel);
                OverlayResult::Dismiss
            },
            _ => OverlayResult::Consumed,
        }
    }
}

/// The selection never leaves the four options, whatever keys are pressed.
pub proof fn law_approval_selection_in_range(selected: usize, confirmed: Option<ApprovalChoice>, key: KeyCode)
    requires
        selected < 4,
    ensures
        approval_key_spec(selected, confirmed, key).0 < 4,
{
}

/// Pressing Enter confirms exactly the highlighted option.
pub proof fn law_approval_enter_confirms_selected(selected: usize, confirmed: Option<ApprovalChoice>)
    requires
        selected < 4,
    ensures
        approval_key_spec(selected, confirmed, KeyCode::Enter).1 == Some(approval_options()[selected as int].2),
        approval_key_spec(selected, confirmed, KeyCode::Enter).2 == OverlayResult::Dismiss,
{
}

/// One line of a unified diff, sorted by how it starts.
#[derive(Debug, Clone)]
pub enum DiffLine {
    Header(String),
    Add(String),
    Del(String),
    Context(String),
    Hunk(String),
}

/// How a diff line is sorted: `+++` or `---` is a header, `@@` a hunk header, then `+` an
/// addition and `-` a deletion; anything else is context.
pub open spec fn diff_line_spec(d: DiffLine, line: Seq<char>) -> bool {
    if has_prefix(line, "+++"@) || has_prefix(line, "---"@) {
        d matches DiffLine::Header(t) && t@ == line
    } else if has_prefix(line, "@@"@) {
        d matches DiffLine::Hunk(t) && t@ == line
    } else if has_prefix(line, "+"@) {
        d matches DiffLine::Add(t) && t@ == line
    } else if has_prefix(line, "-"@) {
        d matches DiffLine::Del(t) && t@ == line
    } else {
        d matches DiffLine::Context(t) && t@ == line
    }
}

pub fn classify_diff_line(v: &Vec<char>) -> (d: DiffLine)
    ensures
        diff_line_spec(d, v@),
{
    let t = string_of(v);
    if starts_with(v, "+++") || starts_with(v, "---") {
        DiffLine::Header(t)
    } else if starts_with(v, "@@") {
        DiffLine::Hunk(t)
    } else if starts_with(v, "+") {
        DiffLine::Add(t)
    } else if starts_with(v, "-") {
        DiffLine::Del(t)
    } else {
        DiffLine::Context(t)
    }
}

/// Sort each line of a unified diff.
pub fn parse_diff(text: &str) -> (r: Vec<DiffLine>)
    ensures
        r@.len() == lines_spec(text@).len(),
        forall|i: int| 0 <= i < r@.len() ==> diff_line_spec(#[trigger] r@[i], lines_spec(text@)[i]),
{
    let v = chars_of(text);
    let ls = lines_of(&v);
    let mut out: Vec<DiffLine> = Vec::new();
    let mut i: usize = 0;
    while i < ls.len()
        invariant
            v@ == text@,
            ls@.len() == lines_spec(v@).len(),
            forall|j: int| 0 <= j < ls@.len() ==> (#[trigger] ls@[j])@ == lines_spec(v@)[j],
            i <= ls.len(),
            out@.len() == i,
            forall|j: int| 0 <= j < i ==> diff_line_spec(#[trigger] out@[j], lines_spec(v@)[j]),
        decreases ls.len() - i,
    {
        let d = classify_diff_line(&ls[i]);
        out.push(d);
        i = i + 1;
    }
    out
}

/// `a.saturating_sub(b)` and `a.saturating_add(b)` for `u16`.
pub open spec fn sat_sub16(a: u16, b: u16) -> u16 {
    if a < b { 0 } else { (a - b) as u16 }
}

pub open spec fn sat_add16(a: u16, b: u16) -> u16 {
    if a + b > u16::MAX { u16::MAX } else { (a + b) as u16 }
}

fn saturating_sub16(a: u16, b: u16) -> (r: u16)
    ensures
        r == sat_sub16(a, b),
{
    if a < b { 0 } else { a - b }
}

fn saturating_add16(a: u16, b: u16) -> (r: u16)
    ensures
        r == sat_add16(a, b),
{
    if a > u16::MAX - b { u16::MAX } else { a + b }
}

/// How the scrolling viewers react to keys: `page` lines per page, and the keys that close them.
pub open spec fn scroll_key_spec(scroll: u16, key: KeyCode, page: u16, closes: bool) -> (u16, OverlayResult) {
    if closes {
        (scroll, OverlayResult::Dismiss)
    } else {
        match key {
            KeyCode::Up | KeyCode::Char('k') => (sat_sub16(scroll, 1), OverlayResult::Consumed),
            KeyCode::Down | KeyCode::Char('j') => (sat_add16(scroll, 1), OverlayResult::Consumed),
            KeyCode::PageUp => (sat_sub16(scroll, page), OverlayResult::Consumed),
            KeyCode::PageDown => (sat_add16(scroll, page), OverlayResult::Consumed),
            KeyCode::Home => (0, OverlayResult::Consumed),
            KeyCode::End => (u16::MAX, OverlayResult::Consumed),
            _ => (scroll, OverlayResult::Consumed),
        }
    }
}

fn scroll_key(scroll: u16, key: KeyCode, page: u16) -> (r: u16)
    ensures
        r == scroll_key_spec(scroll, key, page, false).0,
{
    match key {
        KeyCode::Up | KeyCode::Char('k') => saturating_sub16(scroll, 1),
        KeyCode::Down | KeyCode::Char('j') => saturating_add16(scroll, 1),
        KeyCode::PageUp => saturating_sub16(scroll, page),
        KeyCode::PageDown => saturating_add16(scroll, page),
        KeyCode::Home => 0,
        KeyCode::End => u16::MAX,
        _ => scroll,
    }
}

/// The rows shown of `total` rows in a view of `visible` rows scrolled by `scroll`:
/// the scroll is clamped so that the view ends at the last row, and the shown range is `[start, end)`.
pub open spec fn visible_range(total: nat, scroll: u16, visible: nat) -> (int, int) {
    let max_scroll = (if total > visible { total - visible } else { 0 }) % 0x10000;
    let start = if scroll < max_scroll { scroll as int } else { max_scroll as int };
    let end = if start + visible < total { start + visible } else { total as int };
    (start, end)
}

/// The rows to draw: `[start, end)` of `total`.
pub fn visible_rows(total: usize, scroll: u16, visible: usize) -> (r: (usize, usize))
    ensures
        (r.0 as int, r.1 as int) == visible_range(total as nat, scroll, visible as nat),
        r.0 <= r.1 <= total,
{
    let over: usize = if total > visible { total - visible } else { 0 };
    let max_scroll: u16 = (over % 0x10000) as u16;
    let start: usize = if scroll < max_scroll { scroll as usize } else { max_scroll as usize };
    let end: usize = if visible < total && start < total - visible { start + visible } else { total };
    (start, end)
}

pub struct DiffViewer {
    pub filename: String,
    lines: Vec<DiffLine>,
    scroll: u16,
}

impl DiffViewer {
    pub closed spec fn lines(&self) -> Seq<DiffLine> {
        self.lines@
    }

    pub closed spec fn filename_spec(&self) -> String {
        self.filename
    }

    pub closed spec fn scroll(&self) -> u16 {
        self.scroll
    }

    pub fn new(filename: String, diff_text: &str) -> (d: Self)
        ensures
            d.filename_spec() == filename,
            d.scroll() == 0,
            d.lines().len() == lines_spec(diff_text@).len(),
            forall|i: int| 0 <= i < d.lines().len() ==> diff_line_spec(#[trigger] d.lines()[i], lines_spec(diff_text@)[i]),
    {
        let lines = parse_diff(diff_text);
        DiffViewer { filename, lines, scroll: 0 }
    }

    pub fn lines_ref(&self) -> (r: &Vec<DiffLine>)
        ensures
            r@ == self.lines(),
    {
        &self.lines
    }

    pub fn scroll_position(&self) -> (r: u16)
        ensures
            r == self.scroll(),
    {
        self.scroll
    }

    /// Esc or `q` closes; arrows, `j`/`k` and the page keys scroll (a page is twenty lines).
    pub fn handle_key(&mut self, key: KeyCode) -> (r: OverlayResult)
        ensures
            (final(self).scroll(), r) == scroll_key_spec(old(self).scroll(), key, 20, key == KeyCode::Esc || key == KeyCode::Char('q')),
            final(self).lines() == old(self).lines(),
            final(self).filename_spec() == old(self).filename_spec(),
    {
        if key == KeyCode::Esc || key == KeyCode::Char('q') {
            return OverlayResult::Dismiss;
        }
        self.scroll = scroll_key(self.scroll, key, 20);
        OverlayResult::Consumed
    }
}

pub struct HelpOverlay {
    scroll: u16,
}

impl HelpOverlay {
    pub closed spec fn scroll(&self) -> u16 {
        self.scroll
    }

    pub fn new() -> (h: Self)
        ensures
            h.scroll() == 0,
    {
        HelpOverlay { scroll: 0 }
    }

    pub fn scroll_position(&self) -> (r: u16)
        ensures
            r == self.scroll(),
    {
        self.scroll
    }

    /// Esc, `q` or `?` closes; arrows, `j`/`k` and the page keys scroll (a page is fifteen lines).
    pub fn handle_key(&mut self, key: KeyCode) -> (r: OverlayResult)
        ensures
            (final(self).scroll(), r) == scroll_key_spec(
                old(self).scroll(),
                key,
                15,
                key == KeyCode::Esc || key == KeyCode::Char('q') || key == KeyCode::Char('?'),
            ),
    {
        if key == KeyCode::Esc || key == KeyCode::Char('q') || key == KeyCode::Char('?') {
            return OverlayResult::Dismiss;
        }
        self.scroll = scroll_key(self.scroll, key, 15);
        OverlayResult::Consumed
    }
}

/// The shown range always lies within the rows, whatever the scroll position.
pub proof fn law_visible_range_within(total: nat, scroll: u16, visible: nat)
    ensures
        0 <= visible_range(total, scroll, visible).0 <= visible_range(total, scroll, visible).1 <= total,
{
}

} // verus!
