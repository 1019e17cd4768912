//! The decisions of the terminal screens: list selection in its three
//! modes, the search input line, and closing a message. Drawing and reading
//! keys happen outside the library; it is handed each key and says what
//! follows.

use vstd::prelude::*;
use vstd::string::*;
use crate::text::push_char;

verus! {

/// How a list selection ended.
#[derive(Debug, Clone, Copy, PartialEq, Eq, Structural)]
pub enum SelectAction {
    Confirm,
    Install,
    Search,
    Back,
    Quit,
}

/// The outcome of a list selection: the indices it returns and how it ended.
#[derive(Debug, Clone)]
pub struct SelectResult {
    pub indices: Vec<usize>,
    pub action: SelectAction,
}

/// The kind of a list selection: pick one item, work on several items (the
/// search list), or keep one chosen item (the provider list).
#[derive(Debug, Clone, Copy, PartialEq, Eq, Structural)]
pub enum SelectMode {
    One,
    Many,
    StickyOne,
}

/// A key press, as the screens tell keys apart.
#[derive(Debug, Clone, Copy, PartialEq, Eq, Structural)]
pub enum Key {
    Up,
    Down,
    Enter,
    Esc,
    Backspace,
    Char(char),
    Other,
}

/// The positions of the marked entries, in increasing order.
pub open spec fn marked_positions(marked: Seq<bool>) -> Seq<usize>
    decreases marked.len(),
{
    if marked.len() == 0 {
        Seq::empty()
    } else {
        let rest = marked_positions(marked.drop_last());
        if marked.last() { rest.push((marked.len() - 1) as usize) } else { rest }
    }
}

/// The indices of the marked entries, in increasing order.
pub fn selected_indices(selected: &[bool]) -> (indices: Vec<usize>)
    ensures
        indices@ == marked_positions(selected@),
{
    let mut indices: Vec<usize> = Vec::new();
    let mut i: usize = 0;
    assert(selected@.take(0) =~= Seq::<bool>::empty());
    while i < selected.len()
        invariant
            i <= selected.len(),
            indices@ == marked_positions(selected@.take(i as int)),
        decreases selected.len() - i,
    {
        proof {
            assert(selected@.take(i + 1).drop_last() =~= selected@.take(i as int));
        }
        if selected[i] {
            indices.push(i);
        }
        i = i + 1;
    }
    proof {
        assert(selected@.take(selected.len() as int) =~= selected@);
    }
    indices
}

/// The marked positions are exactly the marked entries, each below the
/// length, in strictly increasing order.
pub proof fn lemma_marked_positions(marked: Seq<bool>)
    requires
        marked.len() <= usize::MAX,
    ensures
        forall|k: int| 0 <= k < marked_positions(marked).len()
            ==> (#[trigger] marked_positions(marked)[k]) < marked.len() && marked[marked_positions(marked)[k] as int],
        forall|a: int, b: int| 0 <= a < b < marked_positions(marked).len()
            ==> #[trigger] marked_positions(marked)[a] < #[trigger] marked_positions(marked)[b],
        forall|i: int| 0 <= i < marked.len() && #[trigger] marked[i]
            ==> marked_positions(marked).contains(i as usize),
    decreases marked.len(),
{
    if marked.len() > 0 {
        let r = marked.drop_last();
        lemma_marked_positions(r);
        let rp = marked_positions(r);
        let mp = marked_positions(marked);
        assert forall|k: int| 0 <= k < mp.len()
            implies (#[trigger] mp[k]) < marked.len() && marked[mp[k] as int] by {
            if k < rp.len() {
                assert(mp[k] == rp[k]);
                assert(r[rp[k] as int] == marked[rp[k] as int]);
            }
        }
        assert forall|a: int, b: int| 0 <= a < b < mp.len() implies #[trigger] mp[a] < #[trigger] mp[b] by {
            assert(rp[a] < r.len());
            if b < rp.len() {
                assert(rp[a] < rp[b]);
            }
        }
        assert forall|i: int| 0 <= i < marked.len() && #[trigger] marked[i]
            implies mp.contains(i as usize) by {
            if i < r.len() {
                assert(r[i]);
                let w = choose|w: int| 0 <= w < rp.len() && rp[w] == i as usize;
                assert(mp[w] == i as usize);
            } else {
                assert(mp[rp.len() as int] == i as usize);
            }
        }
    }
}

/// The mathematical state of a list selection.
pub struct SelectView {
    pub mode: SelectMode,
    pub len: nat,
    pub cursor: nat,
    pub marked: Seq<bool>,
}

/// The mathematical outcome of a list selection.
pub struct SelectOutcome {
    pub indices: Seq<usize>,
    pub action: SelectAction,
}

/// Only the entry at `k` is marked.
pub open spec fn only_marked(len: nat, k: nat) -> Seq<bool> {
    Seq::new(len, |i: int| i == k)
}

/// What a key does to a list selection: the state afterwards, and the
/// outcome if the selection ends.
///
/// Up and Down move the cursor within the list. In the search list, Space
/// and Enter return the item under the cursor; `/` asks for a new search and
/// `i` for the install, each with the marked items. In a pick-one list,
/// Enter returns the item under the cursor. In the provider list, Space and
/// Enter move the single mark to the cursor. Esc goes back and `q` quits,
/// each with the marked items. Other keys do nothing.
pub open spec fn select_transition(s: SelectView, key: Key) -> (SelectView, Option<SelectOutcome>) {
    let marks = SelectOutcome { indices: marked_positions(s.marked), action: SelectAction::Back };
    let here = SelectOutcome { indices: seq![s.cursor as usize], action: SelectAction::Confirm };
    match key {
        Key::Up => (SelectView { cursor: if s.cursor == 0 { 0 } else { (s.cursor - 1) as nat }, ..s }, None),
        Key::Down => (SelectView { cursor: if s.cursor + 1 < s.len { s.cursor + 1 } else { s.cursor }, ..s }, None),
        Key::Char(' ') if s.mode == SelectMode::Many => (s, Some(here)),
        Key::Enter if s.mode != SelectMode::StickyOne => (s, Some(here)),
        Key::Enter if s.mode == SelectMode::StickyOne =>
            (SelectView { marked: only_marked(s.len, s.cursor), ..s }, None),
        Key::Char(' ') if s.mode == SelectMode::StickyOne =>
            (SelectView { marked: only_marked(s.len, s.cursor), ..s }, None),
        Key::Esc => (s, Some(marks)),
        Key::Char('/') if s.mode == SelectMode::Many => (s, Some(SelectOutcome { action: SelectAction::Search, ..marks })),
        Key::Char('i') if s.mode == SelectMode::Many => (s, Some(SelectOutcome { action: SelectAction::Install, ..marks })),
        Key::Char('q') => (s, Some(SelectOutcome { action: SelectAction::Quit, ..marks })),
        _ => (s, None),
    }
}

/// A list selection in progress.
pub struct SelectState {
    mode: SelectMode,
    len: usize,
    cursor: usize,
    marked: Vec<bool>,
}

/// How a list selection starts: an empty list ends it at once, going back
/// with nothing; otherwise it is open.
pub enum SelectOpening {
    Finished(SelectResult),
    Open(SelectState),
}

impl View for SelectState {
    type V = SelectView;

    closed spec fn view(&self) -> SelectView {
        SelectView { mode: self.mode, len: self.len as nat, cursor: self.cursor as nat, marked: self.marked@ }
    }
}

/// A selection state is sound: the cursor is on an item, there is one mark
/// per item, and a provider list has exactly one mark.
pub open spec fn select_sound(s: SelectView) -> bool {
    &&& s.cursor < s.len
    &&& s.marked.len() == s.len
    &&& s.mode == SelectMode::StickyOne ==> exists|k: nat| k < s.len && s.marked == #[trigger] only_marked(s.len, k)
}

impl SelectState {
    #[verifier::type_invariant]
    spec fn sound(&self) -> bool {
        select_sound(self@)
    }

    /// The mode of the list.
    pub fn mode(&self) -> (m: SelectMode)
        ensures
            m == self@.mode,
    {
        self.mode
    }

    /// The position of the cursor.
    pub fn cursor(&self) -> (c: usize)
        ensures
            c == self@.cursor,
            c < self@.len,
    {
        proof {
            use_type_invariant(self);
        }
        self.cursor
    }

    /// Whether the item at `index` is marked.
    pub fn is_marked(&self, index: usize) -> (m: bool)
        requires
            index < self@.len,
        ensures
            m == self@.marked[index as int],
    {
        proof {
            use_type_invariant(self);
        }
        self.marked[index]
    }

    /// Starts the search list over `item_count` items, marking those that
    /// `selected` marks (items beyond it are unmarked), cursor on the first.
    pub fn many(item_count: usize, selected: &[bool]) -> (opening: SelectOpening)
        ensures
            item_count == 0 ==> (opening matches SelectOpening::Finished(r) && r.indices@.len() == 0
                && r.action == SelectAction::Back),
            item_count > 0 ==> (opening matches SelectOpening::Open(s) && s@ == SelectView {
                mode: SelectMode::Many,
                len: item_count as nat,
                cursor: 0,
                marked: Seq::new(item_count as nat, |i: int| i < selected@.len() && selected@[i]),
            } && select_sound(s@)),
    {
        if item_count == 0 {
            return SelectOpening::Finished(SelectResult { indices: Vec::new(), action: SelectAction::Back });
        }
        let mut marked: Vec<bool> = Vec::new();
        let mut i: usize = 0;
        while i < item_count
            invariant
                i <= item_count,
                marked@ =~= Seq::new(i as nat, |k: int| k < selected@.len() && selected@[k]),
            decreases item_count - i,
        {
            let m = i < selected.len() && selected[i];
            marked.push(m);
            i = i + 1;
        }
        SelectOpening::Open(SelectState { mode: SelectMode::Many, len: item_count, cursor: 0, marked })
    }

    /// Starts a pick-one list over `item_count` items, nothing marked,
    /// cursor on the first.
    pub fn one(item_count: usize) -> (opening: SelectOpening)
        ensures
            item_count == 0 ==> (opening matches SelectOpening::Finished(r) && r.indices@.len() == 0
                && r.action == SelectAction::Back),
            item_count > 0 ==> (opening matches SelectOpening::Open(s) && s@ == SelectView {
                mode: SelectMode::One,
                len: item_count as nat,
                cursor: 0,
                marked: Seq::new(item_count as nat, |i: int| false),
            } && select_sound(s@)),
    {
        if item_count == 0 {
            return SelectOpening::Finished(SelectResult { indices: Vec::new(), action: SelectAction::Back });
        }
        let mut marked: Vec<bool> = Vec::new();
        let mut i: usize = 0;
        while i < item_count
            invariant
                i <= item_count,
                marked@ =~= Seq::new(i as nat, |k: int| false),
            decreases item_count - i,
        {
            marked.push(false);
            i = i + 1;
        }
        SelectOpening::Open(SelectState { mode: SelectMode::One, len: item_count, cursor: 0, marked })
    }

    /// Starts the provider list over `item_count` items with the cursor and
    /// the single mark on `selected_index` (the first item when there is none,
    /// the last when it lies beyond the list).
    pub fn sticky(item_count: usize, selected_index: Option<usize>) -> (opening: SelectOpening)
        ensures
            item_count == 0 ==> (opening matches SelectOpening::Finished(r) && r.indices@.len() == 0
                && r.action == SelectAction::Back),
            item_count > 0 ==> (opening matches SelectOpening::Open(s) && select_sound(s@) && {
                let wanted: nat = match selected_index { Some(k) => k as nat, None => 0 };
                let start: nat = if wanted < item_count { wanted } else { (item_count - 1) as nat };
                s@ == (SelectView {
                    mode: SelectMode::StickyOne,
                    len: item_count as nat,
                    cursor: start,
                    marked: only_marked(item_count as nat, start),
                })
            }),
    {
        if item_count == 0 {
            return SelectOpening::Finished(SelectResult { indices: Vec::new(), action: SelectAction::Back });
        }
        let wanted = match selected_index {
            Some(k) => k,
            None => 0,
        };
        let start = if wanted < item_count { wanted } else { item_count - 1 };
        let marked = only_marked_vec(item_count, start);
        SelectOpening::Open(SelectState { mode: SelectMode::StickyOne, len: item_count, cursor: start, marked })
    }

    /// Handles one key press, as `select_transition` describes it.
    pub fn step(&mut self, key: Key) -> (outcome: Option<SelectResult>)
        ensures
            final(self)@ == select_transition(old(self)@, key).0,
            select_sound(final(self)@),
            match select_transition(old(self)@, key).1 {
                Some(o) => outcome matches Some(r) && r.indices@ == o.indices && r.action == o.action,
                None => outcome is None,
            },
            key == Key::Esc ==> (outcome matches Some(r) && r.action == SelectAction::Back
                && r.indices@ == marked_positions(old(self)@.marked) && final(self)@ == old(self)@),
            key == Key::Char('q') ==> (outcome matches Some(r) && r.action == SelectAction::Quit
                && r.indices@ == marked_positions(old(self)@.marked) && final(self)@ == old(self)@),
            key == Key::Enter && old(self)@.mode != SelectMode::StickyOne ==> (outcome matches Some(r)
                && r.action == SelectAction::Confirm && r.indices@ == seq![old(self)@.cursor as usize]),
            key == Key::Up || key == Key::Down ==> (outcome is None
                && final(self)@.marked == old(self)@.marked && final(self)@.mode == old(self)@.mode),
            key == Key::Up ==> final(self)@.cursor == if old(self)@.cursor == 0 { 0 } else { (old(self)@.cursor - 1) as nat },
            key == Key::Down ==> final(self)@.cursor
                == if old(self)@.cursor + 1 < old(self)@.len { old(self)@.cursor + 1 } else { old(self)@.cursor },
    {
        proof {
            use_type_invariant(&*self);
            lemma_transition_sound(self@, key);
            lemma_select_keys(self@);
        }
        let here = self.cursor;
        let mode = self.mode;
        let len = self.len;
        if key == Key::Up {
            self.cursor = if here == 0 { 0 } else { here - 1 };
            return None;
        }
        if key == Key::Down {
            self.cursor = if here + 1 < len { here + 1 } else { here };
            return None;
        }
        let many = mode == SelectMode::Many;
        let sticky = mode == SelectMode::StickyOne;
        if (key == Key::Char(' ') && many) || (key == Key::Enter && !sticky) {
            return Some(SelectResult { indices: vec![here], action: SelectAction::Confirm });
        }
        if sticky && (key == Key::Enter || key == Key::Char(' ')) {
            self.marked = only_marked_vec(len, here);
            return None;
        }
        let action = if key == Key::Esc {
            SelectAction::Back
        } else if key == Key::Char('/') && many {
            SelectAction::Search
        } else if key == Key::Char('i') && many {
            SelectAction::Install
        } else if key == Key::Char('q') {
            SelectAction::Quit
        } else {
            return None;
        };
        Some(SelectResult { indices: selected_indices(self.marked.as_slice()), action })
    }
}

/// Every key keeps a selection state sound: the cursor stays on an item,
/// there stays one mark per item, and a provider list keeps exactly one mark.
pub proof fn lemma_transition_sound(s: SelectView, key: Key)
    requires
        select_sound(s),
    ensures
        select_sound(select_transition(s, key).0),
{
    let next = select_transition(s, key).0;
    assert(only_marked(s.len, s.cursor).len() == s.len);
    if s.mode == SelectMode::StickyOne {
        let k = choose|k: nat| k < s.len && s.marked == #[trigger] only_marked(s.len, k);
        if next.marked == s.marked {
            assert(k < next.len && next.marked == only_marked(next.len, k));
        } else {
            assert(next.marked == only_marked(next.len, s.cursor));
        }
    }
}

/// A selection that ends returns positions of items only: a confirmation
/// the single item under the cursor, any other ending the marked items in
/// increasing order.
pub proof fn lemma_transition_outcome(s: SelectView, key: Key)
    requires
        select_sound(s),
        s.len <= usize::MAX,
    ensures
        match select_transition(s, key).1 {
            Some(o) => {
                &&& o.action == SelectAction::Confirm ==> o.indices == seq![s.cursor as usize]
                &&& o.action != SelectAction::Confirm ==> o.indices == marked_positions(s.marked)
                &&& forall|k: int| 0 <= k < o.indices.len() ==> (#[trigger] o.indices[k]) < s.len
                &&& forall|a: int, b: int| 0 <= a < b < o.indices.len()
                    ==> #[trigger] o.indices[a] < #[trigger] o.indices[b]
            },
            None => true,
        },
{
    lemma_marked_positions(s.marked);
}

/// What the keys common to every list do, in every mode: Esc goes back and
/// `q` quits, each with the marked positions and the state unchanged; Enter
/// in a pick-one or search list confirms the item under the cursor; Up and
/// Down end nothing and move only the cursor, one step, within the list.
pub proof fn lemma_select_keys(s: SelectView)
    ensures
        select_transition(s, Key::Esc) == (s, Some(SelectOutcome { indices: marked_positions(s.marked), action: SelectAction::Back })),
        select_transition(s, Key::Char('q')) == (s, Some(SelectOutcome { indices: marked_positions(s.marked), action: SelectAction::Quit })),
        s.mode != SelectMode::StickyOne ==> select_transition(s, Key::Enter)
            == (s, Some(SelectOutcome { indices: seq![s.cursor as usize], action: SelectAction::Confirm })),
        select_transition(s, Key::Up).1 is None,
        select_transition(s, Key::Down).1 is None,
        select_transition(s, Key::Up).0 == (SelectView { cursor: if s.cursor == 0 { 0 } else { (s.cursor - 1) as nat }, ..s }),
        select_transition(s, Key::Down).0 == (SelectView { cursor: if s.cursor + 1 < s.len { s.cursor + 1 } else { s.cursor }, ..s }),
        s.mode == SelectMode::Many ==> select_transition(s, Key::Char(' '))
            == (s, Some(SelectOutcome { indices: seq![s.cursor as usize], action: SelectAction::Confirm })),
        s.mode == SelectMode::Many ==> select_transition(s, Key::Char('/'))
            == (s, Some(SelectOutcome { indices: marked_positions(s.marked), action: SelectAction::Search })),
        s.mode == SelectMode::Many ==> select_transition(s, Key::Char('i'))
            == (s, Some(SelectOutcome { indices: marked_positions(s.marked), action: SelectAction::Install })),
        s.mode == SelectMode::StickyOne ==> {
            &&& select_transition(s, Key::Enter).1 is None
            &&& select_transition(s, Key::Char(' ')).1 is None
            &&& select_transition(s, Key::Enter).0 == select_transition(s, Key::Char(' ')).0
            &&& select_transition(s, Key::Enter).0.cursor == s.cursor
            &&& select_transition(s, Key::Enter).0.len == s.len
            &&& select_transition(s, Key::Enter).0.marked.len() == s.len
            &&& forall|i: int| 0 <= i < s.len ==> (#[trigger] select_transition(s, Key::Enter).0.marked[i] <==> i == s.cursor)
        },
        s.mode == SelectMode::One ==> {
            &&& select_transition(s, Key::Char(' ')) == (s, None::<SelectOutcome>)
            &&& select_transition(s, Key::Char('/')) == (s, None::<SelectOutcome>)
            &&& select_transition(s, Key::Char('i')) == (s, None::<SelectOutcome>)
        },
{
}

fn only_marked_vec(len: usize, k: usize) -> (marked: Vec<bool>)
    requires
        k < len,
    ensures
        marked@ == only_marked(len as nat, k as nat),
{
    let mut marked: Vec<bool> = Vec::new();
    let mut i: usize = 0;
    while i < len
        invariant
            i <= len,
            marked@ =~= Seq::new(i as nat, |j: int| j == k),
        decreases len - i,
    {
        marked.push(i == k);
        i = i + 1;
    }
    marked
}

/// A marker column and an item: `[x]` for a marked item, `[ ]` otherwise.
pub open spec fn select_row_line(marked: bool, item: Seq<char>) -> Seq<char> {
    (if marked { "[x] "@ } else { "[ ] "@ }) + item
}

/// The line that shows an item of a list.
pub fn select_row(marked: bool, item: &str) -> (line: String)
    ensures
        line@ == select_row_line(marked, item@),
{
    let marker = if marked { String::from_str("[x] ") } else { String::from_str("[ ] ") };
    marker.concat(item)
}

/// Whether a key closes a message: Enter, Esc or `q`.
pub fn closes_message(key: Key) -> (closes: bool)
    ensures
        closes == (key == Key::Enter || key == Key::Esc || key == Key::Char('q')),
{
    match key {
        Key::Enter | Key::Esc => true,
        Key::Char(c) => c == 'q',
        _ => false,
    }
}

/// A character of the Unicode `White_Space` property, as `char::is_whitespace`
/// reads it.
pub open spec fn is_white_space(c: char) -> bool {
    ('\u{9}' <= c && c <= '\u{d}') || c == ' ' || c == '\u{85}' || c == '\u{a0}' || c == '\u{1680}'
        || ('\u{2000}' <= c && c <= '\u{200a}') || c == '\u{2028}' || c == '\u{2029}' || c == '\u{202f}'
        || c == '\u{205f}' || c == '\u{3000}'
}

/// The number of white-space characters at the start of a text.
pub open spec fn leading_white(s: Seq<char>) -> nat
    decreases s.len(),
{
    if s.len() > 0 && is_white_space(s[0]) { 1 + leading_white(s.drop_first()) } else { 0 }
}

/// The number of white-space characters at the end of a text.
pub open spec fn trailing_white(s: Seq<char>) -> nat
    decreases s.len(),
{
    if s.len() > 0 && is_white_space(s.last()) { 1 + trailing_white(s.drop_last()) } else { 0 }
}

/// A text without its leading and trailing white space.
pub open spec fn trimmed(s: Seq<char>) -> Seq<char> {
    if leading_white(s) == s.len() {
        Seq::empty()
    } else {
        s.subrange(leading_white(s) as int, s.len() - trailing_white(s))
    }
}

/// `str::trim`: the text without its leading and trailing white space
/// (white space in the sense of the Unicode `White_Space` property).
#[verifier::external_body]
fn trim_white_space(s: &str) -> (t: &str)
    ensures
        t@ == trimmed(s@),
{
    s.trim()
}

/// `String::pop`: removes the last character, if there is one.
#[verifier::external_body]
fn pop_char(s: &mut String)
    ensures
        final(s)@ == if old(s)@.len() > 0 { old(s)@.drop_last() } else { old(s)@ },
{
    s.pop();
}

/// What a key does to the search input line.
pub enum InputOutcome {
    /// The line is still being edited.
    Editing,
    /// Enter with some text besides white space: the text, trimmed.
    Submitted(String),
    /// Esc: no new search.
    Cancelled,
}

/// The search input line being edited.
pub struct InputState {
    pub value: String,
}

impl InputState {
    /// Starts editing with `initial` in the line.
    pub fn new(initial: &str) -> (s: InputState)
        ensures
            s.value@ == initial@,
    {
        InputState { value: String::from_str(initial) }
    }

    /// Handles one key press: Enter submits the trimmed line unless it is
    /// only white space, Esc cancels, Backspace removes the last character,
    /// a character key appends the character, other keys do nothing.
    pub fn step(&mut self, key: Key) -> (outcome: InputOutcome)
        ensures
            match key {
                Key::Enter => if trimmed(old(self).value@).len() > 0 {
                    outcome matches InputOutcome::Submitted(t) && t@ == trimmed(old(self).value@)
                } else {
                    outcome is Editing
                },
                Key::Esc => outcome is Cancelled,
                _ => outcome is Editing,
            },
            final(self).value@ == match key {
                Key::Backspace => if old(self).value@.len() > 0 {
                    old(self).value@.drop_last()
                } else {
                    old(self).value@
                },
                Key::Char(c) => old(self).value@.push(c),
                _ => old(self).value@,
            },
    {
        if key == Key::Enter {
            let t = trim_white_space(self.value.as_str());
            if t.unicode_len() > 0 {
                return InputOutcome::Submitted(String::from_str(t));
            }
            return InputOutcome::Editing;
        }
        if key == Key::Esc {
            return InputOutcome::Cancelled;
        }
        if key == Key::Backspace {
            pop_char(&mut self.value);
            return InputOutcome::Editing;
        }
        if let Key::Char(c) = key {
            push_char(&mut self.value, c);
        }
        InputOutcome::Editing
    }
}

} // verus!
