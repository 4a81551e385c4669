//! The neovim-style `:command` input line with its submitted-command history.

use vstd::prelude::*;

use crate::action::{Action, KeyCode};
use crate::fixed_queue::FixedQueue;
use crate::text::string_of;

verus! {

broadcast use vstd::std_specs::vec::group_vec_axioms;

/// How many submitted commands the line remembers.
pub const HISTORY_CAPACITY: usize = 500;

/// The command line's state: the text being edited, the cursor as a character index into it,
/// and the history of submitted commands that Up/Down walk through.
#[derive(Debug)]
pub struct CommandLineComponent {
    history: FixedQueue<String, 500>,
    last_key_was_history: bool,
    history_index: usize,
    buffer: Vec<char>,
    cursor: usize,
}

/// `s` without its leading `:` characters (`trim_start_matches(":")`).
pub open spec fn strip_colons(s: Seq<char>) -> Seq<char>
    decreases s.len(),
{
    if s.len() > 0 && s[0] == ':' {
        strip_colons(s.drop_first())
    } else {
        s
    }
}

impl CommandLineComponent {
    pub closed spec fn history_view(self) -> Seq<Seq<char>> {
        self.history.view().map_values(|s: String| s@)
    }

    pub closed spec fn buffer_view(self) -> Seq<char> {
        self.buffer@
    }

    pub closed spec fn cursor_view(self) -> int {
        self.cursor as int
    }

    pub closed spec fn history_index_view(self) -> int {
        self.history_index as int
    }

    pub closed spec fn browsing_history(self) -> bool {
        self.last_key_was_history
    }

    /// The history is consistent, the history position is within it, and the cursor is within
    /// the text.
    pub closed spec fn wf(self) -> bool {
        &&& self.history.wf()
        &&& self.history_index <= self.history.view().len()
        &&& self.cursor <= self.buffer@.len()
    }

    /// What well-formedness means to a caller: the cursor lies within the text, the history
    /// position within the history, and the history holds at most `HISTORY_CAPACITY` commands.
    /// `new` establishes it and every method keeps it.
    pub proof fn lemma_wf_bounds(self)
        requires
            self.wf(),
        ensures
            0 <= self.cursor_view() <= self.buffer_view().len(),
            0 <= self.history_index_view() <= self.history_view().len(),
            self.history_view().len() <= HISTORY_CAPACITY,
    {
        self.history.lemma_len_bound();
    }

    /// The history entry `k` steps back from the newest (1 is the newest).
    pub open spec fn history_back(self, k: int) -> Seq<char> {
        self.history_view()[self.history_view().len() - k]
    }

    pub fn new() -> (r: Self)
        ensures
            r.wf(),
            r.history_view() == Seq::<Seq<char>>::empty(),
            r.buffer_view() == Seq::<char>::empty(),
            r.cursor_view() == 0,
            r.history_index_view() == 0,
            !r.browsing_history(),
    {
        let r = CommandLineComponent {
            history: FixedQueue::new(),
            last_key_was_history: false,
            history_index: 0,
            buffer: Vec::new(),
            cursor: 0,
        };
        assert(r.history_view() =~= Seq::<Seq<char>>::empty());
        r
    }

    /// The text being edited.
    pub fn buffer_text(&self) -> (r: String)
        ensures
            r@ == self.buffer_view(),
    {
        string_of(self.buffer.as_slice())
    }

    /// The cursor, as a character index into the text.
    pub fn cursor_index(&self) -> (r: usize)
        ensures
            r == self.cursor_view(),
    {
        self.cursor
    }

    /// How many commands the history holds.
    pub fn history_len(&self) -> (r: usize)
        ensures
            r == self.history_view().len(),
    {
        self.history.len()
    }

    /// Clears the text and the history position.
    pub fn reset(&mut self)
        requires
            old(self).wf(),
        ensures
            final(self).wf(),
            final(self).history_view() == old(self).history_view(),
            final(self).buffer_view() == Seq::<char>::empty(),
            final(self).cursor_view() == 0,
            final(self).history_index_view() == 0,
            !final(self).browsing_history(),
    {
        self.buffer = Vec::new();
        self.history_index = 0;
        self.last_key_was_history = false;
        self.cursor = 0;
    }

    /// Inserts `c` at the cursor and moves the cursor past it.
    pub fn insert_char(&mut self, c: char)
        requires
            old(self).wf(),
        ensures
            final(self).wf(),
            final(self).buffer_view() == old(self).buffer_view().insert(old(self).cursor_view(), c),
            final(self).cursor_view() == old(self).cursor_view() + 1,
            final(self).history_view() == old(self).history_view(),
            final(self).history_index_view() == old(self).history_index_view(),
            final(self).browsing_history() == old(self).browsing_history(),
    {
        self.buffer.insert(self.cursor, c);
        let n: usize = self.buffer.len();
        assert(self.cursor < n);
        self.cursor = self.cursor + 1;
    }

    /// Deletes the character before the cursor, if any.
    pub fn backspace(&mut self)
        requires
            old(self).wf(),
        ensures
            final(self).wf(),
            old(self).cursor_view() == 0 ==> final(self).buffer_view() == old(self).buffer_view()
                && final(self).cursor_view() == 0,
            old(self).cursor_view() > 0 ==> final(self).buffer_view() == old(self).buffer_view().remove(
                old(self).cursor_view() - 1,
            ) && final(self).cursor_view() == old(self).cursor_view() - 1,
            final(self).history_view() == old(self).history_view(),
            final(self).history_index_view() == old(self).history_index_view(),
            final(self).browsing_history() == old(self).browsing_history(),
    {
        if self.cursor == 0 {
            return;
        }
        self.cursor = self.cursor - 1;
        self.buffer.remove(self.cursor);
    }

    /// Moves the cursor one character left, stopping at the start.
    pub fn move_left(&mut self)
        requires
            old(self).wf(),
        ensures
            final(self).wf(),
            final(self).cursor_view() == if old(self).cursor_view() > 0 {
                old(self).cursor_view() - 1
            } else {
                0
            },
            final(self).buffer_view() == old(self).buffer_view(),
            final(self).history_view() == old(self).history_view(),
            final(self).history_index_view() == old(self).history_index_view(),
            final(self).browsing_history() == old(self).browsing_history(),
    {
        self.cursor = if self.cursor > 0 { self.cursor - 1 } else { 0 };
    }

    /// Moves the cursor one character right, stopping at the end of the text.
    pub fn move_right(&mut self)
        requires
            old(self).wf(),
        ensures
            final(self).wf(),
            final(self).cursor_view() == if old(self).cursor_view() + 1 <= old(self).buffer_view().len() {
                old(self).cursor_view() + 1
            } else {
                old(self).buffer_view().len() as int
            },
            final(self).buffer_view() == old(self).buffer_view(),
            final(self).history_view() == old(self).history_view(),
            final(self).history_index_view() == old(self).history_index_view(),
            final(self).browsing_history() == old(self).browsing_history(),
    {
        let len = self.buffer.len();
        self.cursor = if self.cursor < len { self.cursor + 1 } else { len };
    }

    /// Replaces the text with the history entry `history_index` steps back from the newest and
    /// puts the cursor at its end.
    fn load_history_entry(&mut self)
        requires
            old(self).wf(),
            1 <= old(self).history_index_view() <= old(self).history_view().len(),
        ensures
            final(self).wf(),
            final(self).buffer_view() == old(self).history_back(old(self).history_index_view()),
            final(self).cursor_view() == final(self).buffer_view().len(),
            final(self).history_view() == old(self).history_view(),
            final(self).history_index_view() == old(self).history_index_view(),
            final(self).browsing_history() == old(self).browsing_history(),
    {
        let n = self.history.len();
        proof {
            self.history.lemma_len_bound();
        }
        let entry = self.history.index(n - self.history_index);
        proof {
            let k = (n - self.history_index) as int;
            vstd::arithmetic::div_mod::lemma_small_mod(k as nat, n as nat);
            assert(self.history_view()[k] == self.history.view()[k]@);
        }
        let chars = crate::text::chars_of(entry.as_str());
        self.buffer = chars;
        self.cursor = self.buffer.len();
    }
}

/// How the command line reacts to a key: the state after it and the action it emits.
pub open spec fn key_effect(old: CommandLineComponent, key: KeyCode, new: CommandLineComponent, out: Option<Action>) -> bool {
    match key {
        KeyCode::Char(c) => {
            &&& new.buffer_view() == old.buffer_view().insert(old.cursor_view(), c)
            &&& new.cursor_view() == old.cursor_view() + 1
            &&& new.history_view() == old.history_view()
            &&& new.history_index_view() == old.history_index_view()
            &&& !new.browsing_history()
            &&& out is None
        },
        KeyCode::Backspace => {
            &&& (old.cursor_view() == 0 ==> new.buffer_view() == old.buffer_view() && new.cursor_view() == 0)
            &&& (old.cursor_view() > 0 ==> new.buffer_view() == old.buffer_view().remove(old.cursor_view() - 1)
                && new.cursor_view() == old.cursor_view() - 1)
            &&& new.history_view() == old.history_view()
            &&& new.history_index_view() == old.history_index_view()
            &&& !new.browsing_history()
            &&& out is None
        },
        KeyCode::Left => {
            &&& new.cursor_view() == if old.cursor_view() > 0 { old.cursor_view() - 1 } else { 0 }
            &&& new.buffer_view() == old.buffer_view()
            &&& new.history_view() == old.history_view()
            &&& new.history_index_view() == old.history_index_view()
            &&& new.browsing_history() == old.browsing_history()
            &&& out is None
        },
        KeyCode::Right => {
            &&& new.cursor_view() == if old.cursor_view() + 1 <= old.buffer_view().len() {
                old.cursor_view() + 1
            } else {
                old.buffer_view().len() as int
            }
            &&& new.buffer_view() == old.buffer_view()
            &&& new.history_view() == old.history_view()
            &&& new.history_index_view() == old.history_index_view()
            &&& new.browsing_history() == old.browsing_history()
            &&& out is None
        },
        KeyCode::Enter => {
            let text = strip_colons(old.buffer_view());
            &&& new.history_view() == (if old.history_view().len() < HISTORY_CAPACITY {
                old.history_view().push(text)
            } else {
                old.history_view().drop_first().push(text)
            })
            &&& new.buffer_view() == Seq::<char>::empty()
            &&& new.cursor_view() == 0
            &&& new.history_index_view() == 0
            &&& !new.browsing_history()
            &&& out matches Some(Action::SubmitCommand(s)) && s@ == text
        },
        KeyCode::Up => {
            if old.history_view().len() > 0 && (old.buffer_view().len() == 0 || old.browsing_history()) {
                let k = if old.history_index_view() + 1 <= old.history_view().len() {
                    old.history_index_view() + 1
                } else {
                    old.history_view().len() as int
                };
                &&& new.history_index_view() == k
                &&& new.buffer_view() == old.history_back(k)
                &&& new.cursor_view() == new.buffer_view().len()
                &&& new.browsing_history()
                &&& new.history_view() == old.history_view()
                &&& out is None
            } else {
                &&& new == old
                &&& out is None
            }
        },
        KeyCode::Down => {
            if old.browsing_history() {
                let k = if old.history_index_view() > 0 { old.history_index_view() - 1 } else { 0 };
                &&& new.history_index_view() == k
                &&& (k == 0 ==> new.buffer_view() == Seq::<char>::empty() && !new.browsing_history())
                &&& (k > 0 ==> new.buffer_view() == old.history_back(k) && new.browsing_history())
                &&& new.cursor_view() == new.buffer_view().len()
                &&& new.history_view() == old.history_view()
                &&& out is None
            } else {
                &&& new == old
                &&& out is None
            }
        },
        KeyCode::Esc => {
            &&& new.buffer_view() == Seq::<char>::empty()
            &&& new.cursor_view() == 0
            &&& new.history_index_view() == 0
            &&& !new.browsing_history()
            &&& new.history_view() == old.history_view()
            &&& out matches Some(Action::ExitCommandMode)
        },
        _ => new == old && out is None,
    }
}

/// Down undoes Up while walking the history: from an empty line (or from a history entry that
/// is not the oldest), Up followed by Down comes back to the same text and position in the
/// history.
pub proof fn law_down_undoes_up(
    s0: CommandLineComponent,
    s1: CommandLineComponent,
    s2: CommandLineComponent,
    o1: Option<Action>,
    o2: Option<Action>,
)
    requires
        key_effect(s0, KeyCode::Up, s1, o1),
        key_effect(s1, KeyCode::Down, s2, o2),
        s0.history_view().len() > 0,
        s0.history_index_view() < s0.history_view().len(),
        (s0.buffer_view().len() == 0 && s0.history_index_view() == 0 && !s0.browsing_history()) || (
        s0.browsing_history() && s0.history_index_view() > 0 && s0.buffer_view() == s0.history_back(
            s0.history_index_view(),
        )),
    ensures
        s2.buffer_view() == s0.buffer_view(),
        s2.history_index_view() == s0.history_index_view(),
        s2.browsing_history() == s0.browsing_history(),
        s2.history_view() == s0.history_view(),
        o1 is None && o2 is None,
{
}

/// `s` with its leading `:` characters removed.
fn strip_leading_colons(v: &Vec<char>) -> (r: Vec<char>)
    ensures
        r@ == strip_colons(v@),
{
    let mut i: usize = 0;
    assert(v@.subrange(0, v@.len() as int) =~= v@);
    while i < v.len() && v[i] == ':'
        invariant
            i <= v@.len(),
            strip_colons(v@) == strip_colons(v@.subrange(i as int, v@.len() as int)),
        decreases v@.len() - i,
    {
        assert(v@.subrange(i as int, v@.len() as int).drop_first() =~= v@.subrange(i + 1, v@.len() as int));
        i = i + 1;
    }
    crate::text::sub_chars(v, i, v.len())
}

impl CommandLineComponent {
    /// Reacts to an action: entering command mode clears the line; keys edit it, submit it
    /// (Enter), walk the history (Up/Down) or leave command mode (Esc).
    pub fn handle_action(&mut self, action: &Action) -> (r: Option<Action>)
        requires
            old(self).wf(),
        ensures
            final(self).wf(),
            match action {
                Action::EnterCommandMode => {
                    &&& final(self).buffer_view() == Seq::<char>::empty()
                    &&& final(self).cursor_view() == 0
                    &&& final(self).history_index_view() == 0
                    &&& !final(self).browsing_history()
                    &&& final(self).history_view() == old(self).history_view()
                    &&& r is None
                },
                Action::Key(k) => key_effect(*old(self), k.code, *final(self), r),
                _ => *final(self) == *old(self) && r is None,
            },
    {
        match action {
            Action::EnterCommandMode => {
                self.reset();
                None
            },
            Action::Key(key) => self.handle_key(key.code),
            _ => None,
        }
    }

    fn handle_key(&mut self, code: KeyCode) -> (r: Option<Action>)
        requires
            old(self).wf(),
        ensures
            final(self).wf(),
            key_effect(*old(self), code, *final(self), r),
    {
        match code {
            KeyCode::Char(c) => {
                self.last_key_was_history = false;
                self.insert_char(c);
                None
            },
            KeyCode::Backspace => {
                self.last_key_was_history = false;
                self.backspace();
                None
            },
            KeyCode::Left => {
                self.move_left();
                None
            },
            KeyCode::Right => {
                self.move_right();
                None
            },
            KeyCode::Enter => {
                self.last_key_was_history = false;
                let text = strip_leading_colons(&self.buffer);
                let s = string_of(text.as_slice());
                let ghost old_hist = self.history_view();
                let ghost old_q = self.history.view();
                let entry = string_of(text.as_slice());
                let ghost e = entry;
                self.history.push(entry);
                proof {
                    old(self).history.lemma_len_bound();
                    if old_q.len() < HISTORY_CAPACITY {
                        assert(self.history.view() == old_q.push(e));
                        assert(self.history_view() =~= old_hist.push(text@));
                    } else {
                        assert(self.history.view() == old_q.drop_first().push(e));
                        assert(self.history_view() =~= old_hist.drop_first().push(text@));
                    }
                }
                self.reset();
                Some(Action::SubmitCommand(s))
            },
            KeyCode::Up => {
                if self.history.is_empty() {
                    return None;
                }
                if self.buffer.len() == 0 || self.last_key_was_history {
                    self.last_key_was_history = true;
                    let n = self.history.len();
                    self.history_index = if self.history_index + 1 <= n {
                        self.history_index + 1
                    } else {
                        n
                    };
                    self.load_history_entry();
                }
                None
            },
            KeyCode::Down => {
                if self.last_key_was_history {
                    self.history_index = if self.history_index > 0 {
                        self.history_index - 1
                    } else {
                        0
                    };
                    if self.history_index == 0 {
                        self.buffer = Vec::new();
                        self.last_key_was_history = false;
                        self.cursor = 0;
                    } else {
                        self.load_history_entry();
                    }
                }
                None
            },
            KeyCode::Esc => {
                self.reset();
                Some(Action::ExitCommandMode)
            },
            _ => None,
        }
    }

    /// The terminal cursor position relative to the command line row: one column past the
    /// `:` prompt.
    pub fn cursor(&self) -> (r: Option<(u16, u16)>)
        requires
            (self.cursor_view() % 65536) < 65535,
        ensures
            r == Some(((self.cursor_view() % 65536 + 1) as u16, 0u16)),
    {
        let c: u16 = (self.cursor % 65536) as u16;
        Some((c + 1, 0))
    }
}

impl Default for CommandLineComponent {
    fn default() -> (r: Self)
        ensures
            r.wf(),
            r.history_view() == Seq::<Seq<char>>::empty(),
            r.buffer_view() == Seq::<char>::empty(),
            r.cursor_view() == 0,
    {
        Self::new()
    }
}

} // verus!
