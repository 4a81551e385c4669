//! The sessions drawer: the list of past sessions, a read-only detail view of the selected one,
//! and in-place editing of its description and tags. Which sub-view shows is decided here by key
//! bindings alone; the application mode only decides whether the drawer is open.

use vstd::prelude::*;

use crate::action::{Action, KeyCode, KeyPress};
use ratatui_textarea::Key;
use crate::models::{Session, SessionStatus};
use crate::text::{
    dec, is_ws, join_strings, joined, pad_zeros, push_dec_padded, string_of, string_views, trim,
    trimmed,
};

verus! {

broadcast use vstd::std_specs::vec::group_vec_axioms;

/// A one-line-or-more text editor (a `ratatui_textarea::TextArea`), opaque to the proofs.
#[verifier::external_body]
#[derive(Debug)]
pub struct EditArea {
    inner: ratatui_textarea::TextArea<'static>,
}

/// The lines a text area holds (`TextArea::lines`).
pub uninterp spec fn text_area_lines(t: EditArea) -> Seq<Seq<char>>;

/// The `(row, column)` of a text area's cursor (`TextArea::cursor`).
pub uninterp spec fn text_area_cursor(t: EditArea) -> (usize, usize);

/// Whether a text area has a selection under way (`TextArea::is_selecting`).
pub uninterp spec fn text_area_selecting(t: EditArea) -> bool;

/// The cursor is on one of the lines, at most one past its last character.
pub open spec fn cursor_on_text(lines: Seq<Seq<char>>, cursor: (usize, usize)) -> bool {
    cursor.0 < lines.len() && cursor.1 <= lines[cursor.0 as int].len()
}

/// The lines with `c` typed at the cursor.
pub open spec fn typed_at(lines: Seq<Seq<char>>, cursor: (usize, usize), c: char) -> Seq<Seq<char>> {
    lines.update(cursor.0 as int, lines[cursor.0 as int].insert(cursor.1 as int, c))
}

/// A key that the text area inserts as a character: a plain character (not a line break)
/// without Control or Alt.
pub open spec fn typed_char(key: KeyPress) -> Option<char> {
    match key.code {
        KeyCode::Char(c) => if c != '\n' && c != '\r' && !key.ctrl && !key.alt {
            Some(c)
        } else {
            None
        },
        _ => None,
    }
}

/// Every character of `line` is printable ASCII, one terminal column wide.
pub open spec fn printable_ascii(line: Seq<char>) -> bool {
    forall|i: int| 0 <= i < line.len() ==> ' ' <= #[trigger] line[i] && line[i] <= '~'
}

/// The lines with line `row` and the line after it joined into one.
pub open spec fn join_with_next(lines: Seq<Seq<char>>, row: int) -> Seq<Seq<char>> {
    lines.subrange(0, row) + seq![lines[row] + lines[row + 1]] + lines.subrange(row + 2, lines.len() as int)
}

/// The lines and cursor after an editing key, for the keys whose effect is stated, when no
/// selection is under way and the cursor is on the text:
/// - a plain character (see `typed_char`) is inserted at the cursor, which moves right;
/// - Backspace (without Control or Alt) removes the character before the cursor, or at the
///   start of a line joins it to the line before, the cursor following; at the very start
///   nothing changes;
/// - Delete (without Control or Alt) removes the character at the cursor, or at the end of a
///   line joins the next line to it, the cursor staying; at the very end nothing changes;
/// - Left and Right (without Control, Alt or Shift) move the cursor one character, across a
///   line break at either end of a line, and stop at either end of the text;
/// - Home and End (without Shift) move the cursor to the start or the end of its line.
/// Delete, Left and Right are stated for lines of printable ASCII (Left at the start of a line
/// also for the line before): the text area steps through display columns, which for those
/// lines are the characters. `None` for any other key or case.
pub open spec fn edit_result(key: KeyPress, lines: Seq<Seq<char>>, cursor: (usize, usize)) -> Option<
    (Seq<Seq<char>>, (usize, usize)),
> {
    let row = cursor.0 as int;
    let col = cursor.1 as int;
    let line = lines[row];
    if !cursor_on_text(lines, cursor) {
        None
    } else {
        match key.code {
            KeyCode::Char(_) => match typed_char(key) {
                Some(c) => if col < usize::MAX {
                    Some((typed_at(lines, cursor, c), (cursor.0, (col + 1) as usize)))
                } else {
                    None
                },
                None => None,
            },
            KeyCode::Backspace => if key.ctrl || key.alt {
                None
            } else if col > 0 {
                Some((lines.update(row, line.remove(col - 1)), (cursor.0, (col - 1) as usize)))
            } else if row > 0 {
                Some((join_with_next(lines, row - 1), ((row - 1) as usize, lines[row - 1].len() as usize)))
            } else {
                Some((lines, cursor))
            },
            KeyCode::Delete => if key.ctrl || key.alt || !printable_ascii(line) {
                None
            } else if col < line.len() {
                Some((lines.update(row, line.remove(col)), cursor))
            } else if row + 1 < lines.len() {
                Some((join_with_next(lines, row), cursor))
            } else {
                Some((lines, cursor))
            },
            KeyCode::Left => if key.ctrl || key.alt || key.shift || !printable_ascii(line) {
                None
            } else if col > 0 {
                Some((lines, (cursor.0, (col - 1) as usize)))
            } else if row == 0 {
                Some((lines, cursor))
            } else if printable_ascii(lines[row - 1]) {
                Some((lines, ((row - 1) as usize, lines[row - 1].len() as usize)))
            } else {
                None
            },
            KeyCode::Right => if key.ctrl || key.alt || key.shift || !printable_ascii(line) {
                None
            } else if col < line.len() {
                Some((lines, (cursor.0, (col + 1) as usize)))
            } else if row + 1 < lines.len() {
                Some((lines, ((row + 1) as usize, 0usize)))
            } else {
                Some((lines, cursor))
            },
            KeyCode::Home => if key.shift {
                None
            } else {
                Some((lines, (cursor.0, 0usize)))
            },
            KeyCode::End => if key.shift {
                None
            } else {
                Some((lines, (cursor.0, line.len() as usize)))
            },
            _ => None,
        }
    }
}

/// `TextArea::new(vec![text])`. Trusted: the constructor keeps the lines it is given (it only
/// adds an empty line to an empty list), starts the cursor at `(0, 0)` and has no selection.
#[verifier::external_body]
fn text_area_with(text: String) -> (r: EditArea)
    ensures
        text_area_lines(r) == seq![text@],
        text_area_cursor(r) == (0usize, 0usize),
        !text_area_selecting(r),
{
    EditArea { inner: ratatui_textarea::TextArea::new(vec![text]) }
}

#[verifier::external_type_specification]
#[verifier::external_body]
pub struct ExTextAreaKey(ratatui_textarea::Key);

/// The text area's own name for a key (what its crossterm conversion gives; keys it has no
/// name for become `Key::Null`, which it ignores). A conversion, with nothing to state.
#[verifier::external_body]
fn text_area_key(code: KeyCode) -> (r: Key) {
    match code {
        KeyCode::Char(c) => Key::Char(c), KeyCode::Backspace => Key::Backspace,
        KeyCode::Enter => Key::Enter, KeyCode::Left => Key::Left,
        KeyCode::Right => Key::Right, KeyCode::Up => Key::Up,
        KeyCode::Down => Key::Down, KeyCode::Tab | KeyCode::BackTab => Key::Tab,
        KeyCode::Delete => Key::Delete, KeyCode::Home => Key::Home,
        KeyCode::End => Key::End, KeyCode::PageUp => Key::PageUp,
        KeyCode::PageDown => Key::PageDown, KeyCode::F(n) => Key::F(n),
        KeyCode::Esc => Key::Esc, KeyCode::Other => Key::Null,
    }
}

/// `TextArea::input`. Trusted for what the crate's source keeps on every edit: a text area
/// never holds fewer than one line (lines are only ever removed by joining them into an
/// earlier one) and its cursor stays on the text (the input handler checks both after every
/// key). With no selection under way, the keys `edit_result` covers do what it says: a plain
/// character goes to `insert_char`, Backspace to `delete_char`, Delete to `delete_next_char`,
/// Left, Right, Home and End to cursor moves (`Back`, `Forward`, `Head`, `End`), each
/// cancelling the selection. The text areas here are all made by `TextArea::new` and never
/// reconfigured, so lines do not wrap and a line of printable ASCII has one display column per
/// character. A key the text area has no name for (`Key::Null`) changes nothing. What other
/// keys do (Up, Down, Tab, Enter as a character, the Control and Alt bindings, editing over a
/// selection, and cursor moves over characters of other widths) is not stated here.
#[verifier::external_body]
fn text_area_input(t: &mut EditArea, key: KeyPress)
    ensures
        text_area_lines(*final(t)).len() >= 1,
        cursor_on_text(text_area_lines(*final(t)), text_area_cursor(*final(t))),
        match edit_result(key, text_area_lines(*old(t)), text_area_cursor(*old(t))) {
            Some(res) => !text_area_selecting(*old(t)) ==> {
                &&& text_area_lines(*final(t)) == res.0
                &&& text_area_cursor(*final(t)) == res.1
                &&& !text_area_selecting(*final(t))
            },
            None => true,
        },
        key.code == KeyCode::Other ==> {
            &&& text_area_lines(*final(t)) == text_area_lines(*old(t))
            &&& text_area_cursor(*final(t)) == text_area_cursor(*old(t))
            &&& text_area_selecting(*final(t)) == text_area_selecting(*old(t))
        },
{
    let input = ratatui_textarea::Input { key: text_area_key(key.code), ctrl: key.ctrl, alt: key.alt, shift: key.shift };
    t.inner.input(input);
}

/// `TextArea::lines`, copied out. Trusted: the copy holds exactly the text area's lines.
#[verifier::external_body]
fn text_area_text(t: &EditArea) -> (r: Vec<String>)
    ensures
        string_views(r@) == text_area_lines(*t),
{
    t.inner.lines().to_vec()
}

/// `TextArea::cursor` as a `(row, column)` pair. Trusted: it is the cursor the text area holds.
#[verifier::external_body]
fn text_area_cursor_of(t: &EditArea) -> (r: (usize, usize))
    ensures
        r == text_area_cursor(*t),
{
    let ratatui_textarea::DataCursor(row, col) = t.inner.cursor();
    (row, col)
}

/// `HH:MM:SS` for whole seconds, hours not capped at two digits.
pub open spec fn hhmmss_text(secs: int) -> Seq<char> {
    pad_zeros(dec((secs / 3600) as nat), 2) + seq![':'] + pad_zeros(dec(((secs % 3600) / 60) as nat), 2)
        + seq![':'] + pad_zeros(dec((secs % 60) as nat), 2)
}

/// Formats whole seconds as `HH:MM:SS`, as the list and the detail view show elapsed time.
pub fn format_hhmmss(secs: u64) -> (r: String)
    ensures
        r@ == hhmmss_text(secs as int),
{
    let mut v: Vec<char> = Vec::new();
    push_dec_padded(&mut v, secs / 3600, 2);
    v.push(':');
    push_dec_padded(&mut v, (secs % 3600) / 60, 2);
    v.push(':');
    push_dec_padded(&mut v, secs % 60, 2);
    assert(v@ =~= hhmmss_text(secs as int));
    string_of(v.as_slice())
}

/// How the list and the detail view name a status.
pub open spec fn status_label_text(s: SessionStatus) -> Seq<char> {
    match s {
        SessionStatus::Running => "running"@,
        SessionStatus::Paused => "paused"@,
        SessionStatus::OnBreak => "on break"@,
        SessionStatus::Completed => "completed"@,
    }
}

pub fn status_label(s: SessionStatus) -> (r: &'static str)
    ensures
        r@ == status_label_text(s),
{
    match s {
        SessionStatus::Running => "running",
        SessionStatus::Paused => "paused",
        SessionStatus::OnBreak => "on break",
        SessionStatus::Completed => "completed",
    }
}

/// `s` split at every `,` (`str::split(',')`): one more piece than there are commas.
pub open spec fn split_commas(s: Seq<char>) -> Seq<Seq<char>>
    decreases s.len(),
{
    if s.len() == 0 {
        seq![Seq::<char>::empty()]
    } else {
        let init = split_commas(s.drop_last());
        if s.last() == ',' {
            init.push(Seq::<char>::empty())
        } else {
            init.update(init.len() - 1, init.last().push(s.last()))
        }
    }
}

pub proof fn lemma_split_commas_nonempty(s: Seq<char>)
    ensures
        split_commas(s).len() >= 1,
    decreases s.len(),
{
    if s.len() > 0 {
        lemma_split_commas_nonempty(s.drop_last());
    }
}

/// The pieces, each trimmed, with the empty ones left out.
pub open spec fn nonempty_trimmed(pieces: Seq<Seq<char>>) -> Seq<Seq<char>>
    decreases pieces.len(),
{
    if pieces.len() == 0 {
        Seq::empty()
    } else {
        let init = nonempty_trimmed(pieces.drop_last());
        let t = trim(pieces.last());
        if t.len() > 0 {
            init.push(t)
        } else {
            init
        }
    }
}

/// The tags typed on one line: comma-separated, each trimmed, empty ones dropped.
pub open spec fn tags_in(line: Seq<char>) -> Seq<Seq<char>> {
    nonempty_trimmed(split_commas(line))
}

/// Reads the tags typed on one line.
pub fn parse_tags(line: &String) -> (r: Vec<String>)
    ensures
        string_views(r@) == tags_in(line@),
{
    let v = crate::text::chars_of(line.as_str());
    let mut out: Vec<String> = Vec::new();
    let mut cur: Vec<char> = Vec::new();
    let ghost mut done: Seq<Seq<char>> = Seq::empty();
    let mut i: usize = 0;
    proof {
        assert(v@.subrange(0, 0) =~= Seq::<char>::empty());
        assert(done.push(cur@) =~= seq![Seq::<char>::empty()]);
    }
    while i < v.len()
        invariant
            i <= v@.len(),
            split_commas(v@.subrange(0, i as int)) == done.push(cur@),
            string_views(out@) == nonempty_trimmed(done),
        decreases v@.len() - i,
    {
        let c = v[i];
        proof {
            assert(v@.subrange(0, i + 1).drop_last() =~= v@.subrange(0, i as int));
            assert(v@.subrange(0, i + 1).last() == c);
        }
        if c == ',' {
            let t = trimmed(&cur);
            proof {
                assert(done.push(cur@).drop_last() =~= done);
                assert(done.push(cur@).last() == cur@);
            }
            if t.len() > 0 {
                let ghost before = string_views(out@);
                out.push(string_of(t.as_slice()));
                assert(string_views(out@) =~= before.push(t@));
            }
            proof {
                done = done.push(cur@);
            }
            cur = Vec::new();
            proof {
                assert(split_commas(v@.subrange(0, i + 1)) =~= done.push(cur@));
            }
        } else {
            let ghost old_cur = cur@;
            cur.push(c);
            proof {
                assert(split_commas(v@.subrange(0, i + 1)) =~= done.push(old_cur).update(
                    done.len() as int,
                    old_cur.push(c),
                ));
                assert(done.push(old_cur).update(done.len() as int, old_cur.push(c)) =~= done.push(cur@));
            }
        }
        i = i + 1;
    }
    proof {
        assert(v@.subrange(0, i as int) =~= line@);
        assert(done.push(cur@).drop_last() =~= done);
        assert(done.push(cur@).last() == cur@);
    }
    let t = trimmed(&cur);
    if t.len() > 0 {
        let ghost before = string_views(out@);
        out.push(string_of(t.as_slice()));
        assert(string_views(out@) =~= before.push(t@));
    }
    out
}

/// Which of the drawer's sub-views is showing.
#[derive(Clone, Copy, Debug, PartialEq, Eq, Structural)]
pub enum Pane {
    List,
    Detail,
    EditDescription,
    EditTags,
}

#[derive(Debug)]
enum SessionListView {
    List,
    /// Read-only detail view of the selected row.
    Detail,
    /// Editing the selected row's description.
    EditDescription(EditArea),
    /// Editing the selected row's tags (comma-separated, one line).
    EditTags(EditArea),
}

/// The drawer listing past sessions: the rows last loaded, the highlighted row, how far the
/// list is scrolled sideways, and which sub-view shows. The detail view's description and tags
/// rows are recorded by the renderer so that the cursor can be placed over the field being
/// edited.
#[derive(Debug)]
pub struct SessionListComponent {
    sessions: Vec<(i64, Session)>,
    selected: Option<usize>,
    scroll_x: u16,
    view: SessionListView,
    description_row: u16,
    tags_row: u16,
}

/// The id of the row `sel` picks, if it picks one.
pub open spec fn id_at(sessions: Seq<(i64, Session)>, sel: Option<usize>) -> Option<i64> {
    match sel {
        Some(i) => if i < sessions.len() {
            Some(sessions[i as int].0)
        } else {
            None
        },
        None => None,
    }
}

/// The row after `sel`, wrapping to the first; the first row when none is highlighted.
pub open spec fn next_row(sel: Option<usize>, len: int) -> Option<usize> {
    if len == 0 {
        sel
    } else {
        match sel {
            Some(i) => Some(((i + 1) % len) as usize),
            None => Some(0usize),
        }
    }
}

/// The row before `sel`, wrapping to the last; the last row when none is highlighted.
pub open spec fn previous_row(sel: Option<usize>, len: int) -> Option<usize> {
    if len == 0 {
        sel
    } else {
        match sel {
            Some(i) => if i == 0 {
                Some((len - 1) as usize)
            } else {
                Some((i - 1) as usize)
            },
            None => Some((len - 1) as usize),
        }
    }
}

/// Moving down then up (or up then down) returns to the same row, wrapping at both ends.
pub proof fn law_up_undoes_down(i: usize, len: int)
    requires
        0 <= i < len,
        len <= usize::MAX,
    ensures
        previous_row(next_row(Some(i), len), len) == Some(i),
        next_row(previous_row(Some(i), len), len) == Some(i),
{
    if i + 1 < len {
        vstd::arithmetic::div_mod::lemma_small_mod((i + 1) as nat, len as nat);
    } else {
        vstd::arithmetic::div_mod::lemma_mod_self_0(len);
    }
    if i > 0 {
        vstd::arithmetic::div_mod::lemma_small_mod(i as nat, len as nat);
    } else {
        vstd::arithmetic::div_mod::lemma_mod_self_0(len);
    }
}

/// The first row whose id is `id`, if any.
pub open spec fn row_of(sessions: Seq<(i64, Session)>, id: i64) -> Option<int>
    decreases sessions.len(),
{
    if sessions.len() == 0 {
        None
    } else {
        match row_of(sessions.drop_last(), id) {
            Some(i) => Some(i),
            None => if sessions.last().0 == id {
                Some(sessions.len() - 1)
            } else {
                None
            },
        }
    }
}

/// The highlighted row after a reload: the row of the previously highlighted id if the new
/// rows still hold it, else the first row, else none.
pub open spec fn reselected(prev: Option<i64>, sessions: Seq<(i64, Session)>) -> Option<usize> {
    let found = match prev {
        Some(id) => row_of(sessions, id),
        None => None,
    };
    match found {
        Some(i) => Some(i as usize),
        None => if sessions.len() == 0 {
            None
        } else {
            Some(0usize)
        },
    }
}

pub proof fn lemma_row_of(sessions: Seq<(i64, Session)>, id: i64)
    ensures
        row_of(sessions, id) matches Some(i) ==> 0 <= i < sessions.len() && sessions[i].0 == id,
        row_of(sessions, id) is None ==> forall|k: int| 0 <= k < sessions.len() ==> sessions[k].0 != id,
    decreases sessions.len(),
{
    if sessions.len() > 0 {
        let d = sessions.drop_last();
        lemma_row_of(d, id);
        match row_of(d, id) {
            Some(i) => {
                assert(d[i] == sessions[i]);
            },
            None => {
                if row_of(sessions, id) is None {
                    assert forall|k: int| 0 <= k < sessions.len() implies sessions[k].0 != id by {
                        if k < d.len() {
                            assert(d[k] == sessions[k]);
                        } else {
                            assert(sessions[k] == sessions.last());
                        }
                    }
                } else {
                    assert(sessions[sessions.len() - 1] == sessions.last());
                }
            },
        }
    }
}

pub proof fn lemma_row_of_prefix(s: Seq<(i64, Session)>, k: int, id: i64)
    requires
        0 <= k <= s.len(),
        row_of(s.subrange(0, k), id) is Some,
    ensures
        row_of(s, id) == row_of(s.subrange(0, k), id),
    decreases s.len() - k,
{
    if k < s.len() {
        assert(s.subrange(0, k + 1).drop_last() =~= s.subrange(0, k));
        lemma_row_of_prefix(s, k + 1, id);
    } else {
        assert(s.subrange(0, k) =~= s);
    }
}

/// Two sessions that agree in every field a copy keeps.
pub open spec fn same_session(a: Session, b: Session) -> bool {
    &&& a.topic == b.topic
    &&& a.started_at == b.started_at
    &&& a.elapsed == b.elapsed
    &&& a.status == b.status
    &&& a.running_since == b.running_since
    &&& a.running_since_wall == b.running_since_wall
    &&& a.description == b.description
    &&& a.tags@ == b.tags@
}

/// Row lists that hold the same ids in the same order, with equal sessions.
pub open spec fn same_rows(a: Seq<(i64, Session)>, b: Seq<(i64, Session)>) -> bool {
    &&& a.len() == b.len()
    &&& forall|i: int| 0 <= i < a.len() ==> a[i].0 == #[trigger] b[i].0 && same_session(a[i].1, b[i].1)
}

/// The description shown for editing: the session's description, or nothing.
pub open spec fn description_text(s: Session) -> Seq<char> {
    match s.description {
        Some(d) => d@,
        None => Seq::empty(),
    }
}

/// The tags shown for editing: comma-and-space separated.
pub open spec fn tags_text(s: Session) -> Seq<char> {
    joined(string_views(s.tags@), ", "@)
}

/// The parts of the detail view that depend on the session and the pane: the line under
/// "Description:" and the line under "Tags:" (each with whether it is a dimmed placeholder; the
/// line of the field being edited is left empty for the editor to be drawn over), the key hint,
/// and the rows of the two lines, counted from the top of the view.
pub struct DetailView {
    pub description: String,
    pub description_dim: bool,
    pub tags: String,
    pub tags_dim: bool,
    pub hint: String,
    pub description_row: u16,
    pub tags_row: u16,
}

/// The line under "Description:": empty while it is edited, else the description or a
/// placeholder.
pub open spec fn description_line(s: Session, pane: Pane) -> Seq<char> {
    if pane == Pane::EditDescription {
        Seq::empty()
    } else {
        match s.description {
            Some(d) => d@,
            None => "No description"@,
        }
    }
}

/// The line under "Tags:": empty while they are edited, else the tags joined by `", "` or a
/// placeholder.
pub open spec fn tags_line(s: Session, pane: Pane) -> Seq<char> {
    if pane == Pane::EditTags {
        Seq::empty()
    } else if s.tags@.len() == 0 {
        "No tags"@
    } else {
        tags_text(s)
    }
}

/// The key hint at the foot of the detail view.
pub open spec fn detail_hint(pane: Pane) -> Seq<char> {
    if pane == Pane::EditDescription || pane == Pane::EditTags {
        "Enter: save   Esc: cancel"@
    } else {
        "d: edit description   t: edit tags   Esc: back"@
    }
}

/// Lays out the detail view of `s` in `pane`: topic, status, start and a blank line come
/// first, so the description sits on row 5 after its heading and the tags on row 8 after a
/// blank line and theirs.
pub fn detail_view(s: &Session, pane: Pane) -> (r: DetailView)
    ensures
        r.description@ == description_line(*s, pane),
        r.description_dim == (pane != Pane::EditDescription && s.description is None),
        r.tags@ == tags_line(*s, pane),
        r.tags_dim == (pane != Pane::EditTags && s.tags@.len() == 0),
        r.hint@ == detail_hint(pane),
        r.description_row == 5,
        r.tags_row == 8,
{
    let (description, description_dim) = if pane == Pane::EditDescription {
        (String::new(), false)
    } else {
        match &s.description {
            Some(d) => (d.clone(), false),
            None => (String::from_str("No description"), true),
        }
    };
    let (tags, tags_dim) = if pane == Pane::EditTags {
        (String::new(), false)
    } else if s.tags.len() == 0 {
        (String::from_str("No tags"), true)
    } else {
        (join_strings(&s.tags, ", "), false)
    };
    let hint = if pane == Pane::EditDescription || pane == Pane::EditTags {
        String::from_str("Enter: save   Esc: cancel")
    } else {
        String::from_str("d: edit description   t: edit tags   Esc: back")
    };
    DetailView { description, description_dim, tags, tags_dim, hint, description_row: 5, tags_row: 8 }
}

/// A copy of a session.
pub fn copy_session(s: &Session) -> (r: Session)
    ensures
        same_session(r, *s),
{
    let description = match &s.description {
        Some(d) => Some(d.clone()),
        None => None,
    };
    let mut tags: Vec<String> = Vec::new();
    let mut i: usize = 0;
    while i < s.tags.len()
        invariant
            i <= s.tags@.len(),
            tags@ == s.tags@.subrange(0, i as int),
        decreases s.tags@.len() - i,
    {
        tags.push(s.tags[i].clone());
        i = i + 1;
        assert(tags@ =~= s.tags@.subrange(0, i as int));
    }
    assert(tags@ =~= s.tags@);
    let running_since = match &s.running_since {
        Some(t) => Some(t.clone()),
        None => None,
    };
    Session {
        topic: s.topic.clone(),
        started_at: s.started_at,
        elapsed: s.elapsed,
        status: s.status,
        running_since,
        running_since_wall: s.running_since_wall,
        description,
        tags,
    }
}

/// A copy of a list of rows.
pub fn copy_rows(rows: &Vec<(i64, Session)>) -> (r: Vec<(i64, Session)>)
    ensures
        same_rows(r@, rows@),
{
    let mut out: Vec<(i64, Session)> = Vec::new();
    let mut i: usize = 0;
    while i < rows.len()
        invariant
            i <= rows@.len(),
            same_rows(out@, rows@.subrange(0, i as int)),
        decreases rows@.len() - i,
    {
        let (id, s) = &rows[i];
        out.push((*id, copy_session(s)));
        i = i + 1;
    }
    assert(rows@.subrange(0, i as int) =~= rows@);
    out
}

/// `x - 1`, stopping at zero.
pub open spec fn dec_sat(x: u16) -> u16 {
    if x == 0 {
        0
    } else {
        (x - 1) as u16
    }
}

/// `x + 1`, stopping at `u16::MAX`.
pub open spec fn inc_sat(x: u16) -> u16 {
    if x == u16::MAX {
        u16::MAX
    } else {
        (x + 1) as u16
    }
}

/// What the selected row offers for editing its description.
pub open spec fn description_for_edit(c: SessionListComponent) -> Seq<char> {
    match c.selected_session_view() {
        Some(s) => description_text(s),
        None => Seq::empty(),
    }
}

/// What the selected row offers for editing its tags.
pub open spec fn tags_for_edit(c: SessionListComponent) -> Seq<char> {
    match c.selected_session_view() {
        Some(s) => tags_text(s),
        None => Seq::empty(),
    }
}

/// What a key does on the list view.
pub open spec fn list_key(old: SessionListComponent, code: KeyCode, new: SessionListComponent, out: Option<Action>) -> bool {
    match code {
        KeyCode::Down | KeyCode::Char('j') => {
            &&& new.selected_view() == next_row(old.selected_view(), old.sessions_view().len() as int)
            &&& new.scroll_view() == old.scroll_view()
            &&& new.same_content(old)
            &&& out is None
        },
        KeyCode::Up | KeyCode::Char('k') => {
            &&& new.selected_view() == previous_row(old.selected_view(), old.sessions_view().len() as int)
            &&& new.scroll_view() == old.scroll_view()
            &&& new.same_content(old)
            &&& out is None
        },
        KeyCode::Left | KeyCode::Char('h') => {
            &&& new.scroll_view() == dec_sat(old.scroll_view())
            &&& new.selected_view() == old.selected_view()
            &&& new.same_content(old)
            &&& out is None
        },
        KeyCode::Right | KeyCode::Char('l') => {
            &&& new.scroll_view() == inc_sat(old.scroll_view())
            &&& new.selected_view() == old.selected_view()
            &&& new.same_content(old)
            &&& out is None
        },
        KeyCode::Enter => {
            &&& new == old
            &&& out == (match old.selected_id_view() {
                Some(id) => Some(Action::SessionSelected(id)),
                None => None,
            })
        },
        KeyCode::Char('i') => {
            &&& new.same_list(old)
            &&& new.pane_view() == (if old.selected_id_view() is Some { Pane::Detail } else { Pane::List })
            &&& out is None
        },
        KeyCode::Esc => new == old && out == Some(Action::CloseSessionList),
        _ => new == old && out is None,
    }
}

/// What a key does on the detail view.
pub open spec fn detail_key(old: SessionListComponent, code: KeyCode, new: SessionListComponent, out: Option<Action>) -> bool {
    match code {
        KeyCode::Esc => new.same_list(old) && new.pane_view() == Pane::List && out is None,
        KeyCode::Char('d') => {
            &&& new.same_list(old)
            &&& new.pane_view() == Pane::EditDescription
            &&& new.edit_lines() == seq![description_for_edit(old)]
            &&& new.edit_cursor() == (0usize, 0usize)
            &&& out is None
        },
        KeyCode::Char('t') => {
            &&& new.same_list(old)
            &&& new.pane_view() == Pane::EditTags
            &&& new.edit_lines() == seq![tags_for_edit(old)]
            &&& new.edit_cursor() == (0usize, 0usize)
            &&& out is None
        },
        _ => new == old && out is None,
    }
}

/// What a key does while a field is being edited: Enter saves, Esc cancels, and any other key
/// goes to the editor.
pub open spec fn edit_key(old: SessionListComponent, key: KeyPress, new: SessionListComponent, out: Option<Action>) -> bool {
    match key.code {
        KeyCode::Enter => {
            &&& new.same_list(old)
            &&& new.pane_view() == Pane::Detail
            &&& if old.pane_view() == Pane::EditDescription {
                out matches Some(Action::SetSessionDescription { id, text })
                    && id == old.selected_id_view()
                    && text@ == joined(old.edit_lines(), seq!['\n'])
            } else {
                out matches Some(Action::SetSessionTags { id, tags })
                    && id == old.selected_id_view()
                    && string_views(tags@) == tags_in(old.edit_lines()[0])
            }
        },
        KeyCode::Esc => new.same_list(old) && new.pane_view() == Pane::Detail && out is None,
        _ => {
            &&& new.same_list(old)
            &&& new.pane_view() == old.pane_view()
            &&& new.edit_lines().len() >= 1
            &&& out is None
            &&& match edit_result(key, old.edit_lines(), old.edit_cursor()) {
                Some(res) => !old.edit_selecting() ==> {
                    &&& new.edit_lines() == res.0
                    &&& new.edit_cursor() == res.1
                    &&& !new.edit_selecting()
                },
                None => true,
            }
            &&& key.code == KeyCode::Other ==> {
                &&& new.edit_lines() == old.edit_lines()
                &&& new.edit_cursor() == old.edit_cursor()
                &&& new.edit_selecting() == old.edit_selecting()
            }
        },
    }
}

/// What a key does, by the sub-view showing when it comes.
pub open spec fn key_effect(old: SessionListComponent, key: KeyPress, new: SessionListComponent, out: Option<Action>) -> bool {
    match old.pane_view() {
        Pane::List => list_key(old, key.code, new, out),
        Pane::Detail => detail_key(old, key.code, new, out),
        _ => edit_key(old, key, new, out),
    }
}

impl SessionListComponent {
    pub closed spec fn sessions_view(self) -> Seq<(i64, Session)> {
        self.sessions@
    }

    pub closed spec fn selected_view(self) -> Option<usize> {
        self.selected
    }

    pub closed spec fn scroll_view(self) -> u16 {
        self.scroll_x
    }

    pub closed spec fn pane_view(self) -> Pane {
        match self.view {
            SessionListView::List => Pane::List,
            SessionListView::Detail => Pane::Detail,
            SessionListView::EditDescription(_) => Pane::EditDescription,
            SessionListView::EditTags(_) => Pane::EditTags,
        }
    }

    /// The lines of the field being edited; empty when nothing is being edited.
    pub closed spec fn edit_lines(self) -> Seq<Seq<char>> {
        match self.view {
            SessionListView::EditDescription(t) => text_area_lines(t),
            SessionListView::EditTags(t) => text_area_lines(t),
            _ => Seq::empty(),
        }
    }

    /// The cursor of the field being edited.
    pub closed spec fn edit_cursor(self) -> (usize, usize) {
        match self.view {
            SessionListView::EditDescription(t) => text_area_cursor(t),
            SessionListView::EditTags(t) => text_area_cursor(t),
            _ => (0usize, 0usize),
        }
    }

    /// Whether the field being edited has a selection under way.
    pub closed spec fn edit_selecting(self) -> bool {
        match self.view {
            SessionListView::EditDescription(t) => text_area_selecting(t),
            SessionListView::EditTags(t) => text_area_selecting(t),
            _ => false,
        }
    }

    pub closed spec fn rows_view(self) -> (u16, u16) {
        (self.description_row, self.tags_row)
    }

    /// The highlighted row is a row of the list, and a field being edited holds a line with
    /// the editor's cursor on its text.
    pub closed spec fn wf(self) -> bool {
        &&& self.selected matches Some(i) ==> i < self.sessions@.len()
        &&& (self.pane_view() == Pane::EditDescription || self.pane_view() == Pane::EditTags)
            ==> self.edit_lines().len() >= 1 && cursor_on_text(self.edit_lines(), self.edit_cursor())
    }

    pub open spec fn selected_id_view(self) -> Option<i64> {
        id_at(self.sessions_view(), self.selected_view())
    }

    /// The highlighted session, if any.
    pub open spec fn selected_session_view(self) -> Option<Session> {
        match self.selected_view() {
            Some(i) => if i < self.sessions_view().len() {
                Some(self.sessions_view()[i as int].1)
            } else {
                None
            },
            None => None,
        }
    }

    /// Everything but the highlighted row and the sideways scroll agrees.
    pub open spec fn same_content(self, other: Self) -> bool {
        &&& self.sessions_view() == other.sessions_view()
        &&& self.pane_view() == other.pane_view()
        &&& self.edit_lines() == other.edit_lines()
        &&& self.edit_cursor() == other.edit_cursor()
        &&& self.rows_view() == other.rows_view()
    }

    /// Only the sub-view (and the field being edited) changed.
    pub open spec fn same_list(self, other: Self) -> bool {
        &&& self.sessions_view() == other.sessions_view()
        &&& self.selected_view() == other.selected_view()
        &&& self.scroll_view() == other.scroll_view()
        &&& self.rows_view() == other.rows_view()
    }

    /// An empty drawer on the list view.
    pub fn new() -> (r: Self)
        ensures
            r.wf(),
            r.sessions_view().len() == 0,
            r.selected_view() is None,
            r.scroll_view() == 0,
            r.pane_view() == Pane::List,
            r.rows_view() == (0u16, 0u16),
    {
        SessionListComponent {
            sessions: Vec::new(),
            selected: None,
            scroll_x: 0,
            view: SessionListView::List,
            description_row: 0,
            tags_row: 0,
        }
    }

    /// The database id of the highlighted row, if any.
    pub fn selected_id(&self) -> (r: Option<i64>)
        ensures
            r == self.selected_id_view(),
    {
        match self.selected {
            Some(i) => if i < self.sessions.len() {
                Some(self.sessions[i].0)
            } else {
                None
            },
            None => None,
        }
    }

    fn selected_session(&self) -> (r: Option<&Session>)
        ensures
            r matches Some(s) ==> self.selected_session_view() == Some(*s),
            r is None ==> self.selected_session_view() is None,
    {
        match self.selected {
            Some(i) => if i < self.sessions.len() {
                Some(&self.sessions[i].1)
            } else {
                None
            },
            None => None,
        }
    }

    /// The index of the highlighted row, if any.
    pub fn selected_index(&self) -> (r: Option<usize>)
        ensures
            r == self.selected_view(),
    {
        self.selected
    }

    /// The rows last loaded.
    pub fn rows(&self) -> (r: &Vec<(i64, Session)>)
        ensures
            r@ == self.sessions_view(),
    {
        &self.sessions
    }

    /// How many columns the list is scrolled to the right.
    pub fn scroll_offset(&self) -> (r: u16)
        ensures
            r == self.scroll_view(),
    {
        self.scroll_x
    }

    /// Which sub-view shows.
    pub fn pane(&self) -> (r: Pane)
        ensures
            r == self.pane_view(),
    {
        match self.view {
            SessionListView::List => Pane::List,
            SessionListView::Detail => Pane::Detail,
            SessionListView::EditDescription(_) => Pane::EditDescription,
            SessionListView::EditTags(_) => Pane::EditTags,
        }
    }

    /// The lines of the field being edited; none when nothing is being edited.
    pub fn editing_lines(&self) -> (r: Vec<String>)
        ensures
            string_views(r@) == self.edit_lines(),
    {
        match &self.view {
            SessionListView::EditDescription(t) => text_area_text(t),
            SessionListView::EditTags(t) => text_area_text(t),
            _ => {
                let r: Vec<String> = Vec::new();
                assert(string_views(r@) =~= Seq::<Seq<char>>::empty());
                r
            },
        }
    }

    /// Records where the renderer drew the description and tags rows of the detail view.
    pub fn record_detail_rows(&mut self, description_row: u16, tags_row: u16)
        requires
            old(self).wf(),
        ensures
            final(self).wf(),
            final(self).rows_view() == (description_row, tags_row),
            final(self).sessions_view() == old(self).sessions_view(),
            final(self).selected_view() == old(self).selected_view(),
            final(self).scroll_view() == old(self).scroll_view(),
            final(self).pane_view() == old(self).pane_view(),
            final(self).edit_lines() == old(self).edit_lines(),
            final(self).edit_cursor() == old(self).edit_cursor(),
    {
        self.description_row = description_row;
        self.tags_row = tags_row;
    }

    /// Highlights the next row, wrapping to the first.
    fn select_next(&mut self)
        requires
            old(self).wf(),
        ensures
            final(self).wf(),
            final(self).selected_view() == next_row(old(self).selected_view(), old(self).sessions_view().len() as int),
            final(self).scroll_view() == old(self).scroll_view(),
            final(self).same_content(*old(self)),
    {
        if self.sessions.len() == 0 {
            return;
        }
        let next = match self.selected {
            Some(i) => (i + 1) % self.sessions.len(),
            None => 0,
        };
        self.selected = Some(next);
    }

    /// Highlights the previous row, wrapping to the last.
    fn select_previous(&mut self)
        requires
            old(self).wf(),
        ensures
            final(self).wf(),
            final(self).selected_view() == previous_row(old(self).selected_view(), old(self).sessions_view().len() as int),
            final(self).scroll_view() == old(self).scroll_view(),
            final(self).same_content(*old(self)),
    {
        if self.sessions.len() == 0 {
            return;
        }
        let prev = match self.selected {
            Some(i) => if i == 0 {
                self.sessions.len() - 1
            } else {
                i - 1
            },
            None => self.sessions.len() - 1,
        };
        self.selected = Some(prev);
    }

    /// Replaces the rows, keeping the highlight on the same session id when it is still
    /// listed, else on the first row.
    pub fn load_sessions(&mut self, sessions: Vec<(i64, Session)>)
        requires
            old(self).wf(),
        ensures
            final(self).wf(),
            final(self).sessions_view() == sessions@,
            final(self).selected_view() == reselected(old(self).selected_id_view(), sessions@),
            final(self).scroll_view() == old(self).scroll_view(),
            final(self).pane_view() == old(self).pane_view(),
            final(self).edit_lines() == old(self).edit_lines(),
            final(self).edit_cursor() == old(self).edit_cursor(),
            final(self).rows_view() == old(self).rows_view(),
    {
        let selected_id = self.selected_id();
        self.sessions = sessions;
        let mut found: Option<usize> = None;
        if let Some(id) = selected_id {
            let mut i: usize = 0;
            while i < self.sessions.len() && found.is_none()
                invariant
                    i <= self.sessions@.len(),
                    self.sessions@ == sessions@,
                    found is None ==> row_of(sessions@.subrange(0, i as int), id) is None,
                    found matches Some(k) ==> row_of(sessions@, id) == Some(k as int),
                decreases self.sessions@.len() - i,
            {
                proof {
                    assert(sessions@.subrange(0, i + 1).drop_last() =~= sessions@.subrange(0, i as int));
                }
                if self.sessions[i].0 == id {
                    found = Some(i);
                    proof {
                        lemma_row_of_prefix(sessions@, i + 1, id);
                    }
                }
                i = i + 1;
            }
            proof {
                if found is None {
                    assert(sessions@.subrange(0, i as int) =~= sessions@);
                }
                lemma_row_of(sessions@, id);
            }
        }
        self.selected = match found {
            Some(i) => Some(i),
            None => if self.sessions.len() == 0 {
                None
            } else {
                Some(0)
            },
        };
    }
    /// The description of the selected row, or nothing.
    fn description_for_edit(&self) -> (r: String)
        ensures
            r@ == description_for_edit(*self),
    {
        match self.selected_session() {
            Some(s) => match &s.description {
                Some(d) => d.clone(),
                None => String::new(),
            },
            None => String::new(),
        }
    }

    /// The tags of the selected row, joined for editing, or nothing.
    fn tags_for_edit(&self) -> (r: String)
        ensures
            r@ == tags_for_edit(*self),
    {
        match self.selected_session() {
            Some(s) => join_strings(&s.tags, ", "),
            None => String::new(),
        }
    }

    /// Reacts to a key; see `key_effect`.
    pub fn handle_key(&mut self, key: KeyPress) -> (r: Option<Action>)
        requires
            old(self).wf(),
        ensures
            final(self).wf(),
            key_effect(*old(self), key, *final(self), r),
    {
        let mut v = SessionListView::Detail;
        std::mem::swap(&mut v, &mut self.view);
        match v {
            SessionListView::EditDescription(mut ta) => {
                let id = self.selected_id();
                match key.code {
                    KeyCode::Enter => {
                        let lines = text_area_text(&ta);
                        let text = join_strings(&lines, "\n");
                        proof {
                            reveal_strlit("\n");
                            assert("\n"@ =~= seq!['\n']);
                        }
                        Some(Action::SetSessionDescription { id, text })
                    },
                    KeyCode::Esc => None,
                    _ => {
                        text_area_input(&mut ta, key);
                        self.view = SessionListView::EditDescription(ta);
                        None
                    },
                }
            },
            SessionListView::EditTags(mut ta) => {
                let id = self.selected_id();
                match key.code {
                    KeyCode::Enter => {
                        let lines = text_area_text(&ta);
                        assert(string_views(lines@)[0] == lines@[0]@);
                        let tags = parse_tags(&lines[0]);
                        Some(Action::SetSessionTags { id, tags })
                    },
                    KeyCode::Esc => None,
                    _ => {
                        text_area_input(&mut ta, key);
                        self.view = SessionListView::EditTags(ta);
                        None
                    },
                }
            },
            SessionListView::Detail => {
                match key.code {
                    KeyCode::Esc => {
                        self.view = SessionListView::List;
                        None
                    },
                    KeyCode::Char('d') => {
                        let text = self.description_for_edit();
                        self.view = SessionListView::EditDescription(text_area_with(text));
                        None
                    },
                    KeyCode::Char('t') => {
                        let text = self.tags_for_edit();
                        self.view = SessionListView::EditTags(text_area_with(text));
                        None
                    },
                    _ => None,
                }
            },
            SessionListView::List => {
                self.view = SessionListView::List;
                match key.code {
                    KeyCode::Down | KeyCode::Char('j') => {
                        self.select_next();
                        None
                    },
                    KeyCode::Up | KeyCode::Char('k') => {
                        self.select_previous();
                        None
                    },
                    KeyCode::Left | KeyCode::Char('h') => {
                        self.scroll_x = if self.scroll_x == 0 { 0 } else { self.scroll_x - 1 };
                        None
                    },
                    KeyCode::Right | KeyCode::Char('l') => {
                        self.scroll_x = if self.scroll_x == u16::MAX { u16::MAX } else { self.scroll_x + 1 };
                        None
                    },
                    KeyCode::Enter => match self.selected_id() {
                        Some(id) => Some(Action::SessionSelected(id)),
                        None => None,
                    },
                    KeyCode::Char('i') => {
                        if self.selected_id().is_some() {
                            self.view = SessionListView::Detail;
                        }
                        None
                    },
                    KeyCode::Esc => Some(Action::CloseSessionList),
                    _ => None,
                }
            },
        }
    }

    /// Reacts to an action: a reload of the rows, or a key.
    pub fn handle_action(&mut self, action: &Action) -> (r: Option<Action>)
        requires
            old(self).wf(),
        ensures
            final(self).wf(),
            match action {
                Action::SessionsLoaded(rows) => {
                    &&& same_rows(final(self).sessions_view(), rows@)
                    &&& final(self).selected_view() == reselected(old(self).selected_id_view(), final(self).sessions_view())
                    &&& final(self).scroll_view() == old(self).scroll_view()
                    &&& final(self).pane_view() == old(self).pane_view()
                    &&& final(self).edit_lines() == old(self).edit_lines()
                    &&& r is None
                },
                Action::Key(k) => key_effect(*old(self), *k, *final(self), r),
                _ => *final(self) == *old(self) && r is None,
            },
    {
        match action {
            Action::SessionsLoaded(rows) => {
                let copied = copy_rows(rows);
                self.load_sessions(copied);
                None
            },
            Action::Key(key) => self.handle_key(*key),
            _ => None,
        }
    }

    /// Where the terminal cursor goes while a field is being edited: the editor's column, on
    /// the row the renderer recorded for that field.
    pub fn cursor(&self) -> (r: Option<(u16, u16)>)
        ensures
            r == (match self.pane_view() {
                Pane::EditDescription => Some((self.edit_cursor().1 as u16, self.rows_view().0)),
                Pane::EditTags => Some((self.edit_cursor().1 as u16, self.rows_view().1)),
                _ => None,
            }),
    {
        match &self.view {
            SessionListView::EditDescription(ta) => {
                let (_, col) = text_area_cursor_of(ta);
                Some((col as u16, self.description_row))
            },
            SessionListView::EditTags(ta) => {
                let (_, col) = text_area_cursor_of(ta);
                Some((col as u16, self.tags_row))
            },
            _ => None,
        }
    }
}

impl Default for SessionListComponent {
    fn default() -> (r: Self)
        ensures
            r.wf(),
            r.sessions_view().len() == 0,
            r.selected_view() is None,
            r.scroll_view() == 0,
            r.pane_view() == Pane::List,
    {
        SessionListComponent::new()
    }
}

} // verus!
