//! Choosing archives from a list with the keyboard.
//!
//! The terminal is the driver's business. What a key press does to the
//! cursor, to the set of marked archives and to the dialog is decided here.
use crate::seqs::lemma_filter_take_next;
use vstd::prelude::*;
use vstd::string::StringExecFns;

verus! {

/// One archive of a vault's inventory.
#[derive(Debug)]
pub struct ArchiveItem {
    pub archive_id: String,
    pub archive_description: String,
    pub creation_date: String,
    pub size: i64,
    pub sha256_tree_hash: String,
}

impl Clone for ArchiveItem {
    fn clone(&self) -> (r: Self)
        ensures
            r == *self,
    {
        ArchiveItem {
            archive_id: self.archive_id.clone(),
            archive_description: self.archive_description.clone(),
            creation_date: self.creation_date.clone(),
            size: self.size,
            sha256_tree_hash: self.sha256_tree_hash.clone(),
        }
    }
}

/// A key that the operator pressed, as far as the dialogs tell keys apart.
#[derive(Debug, Clone, Copy, PartialEq, Eq, Structural)]
pub enum KeyPress {
    Char(char),
    Up,
    Down,
    Enter,
    Esc,
    Other,
}

/// The cursor position after moving down from `selected` in a list of `len`
/// items: one further, and from the last item back to the first.
pub open spec fn next_index(selected: Option<usize>, len: nat) -> int {
    match selected {
        Some(i) => if i >= len - 1 {
            0
        } else {
            i + 1
        },
        None => 0,
    }
}

/// The cursor position after moving up from `selected` in a list of `len`
/// items: one back, and from the first item on to the last.
pub open spec fn previous_index(selected: Option<usize>, len: nat) -> int {
    match selected {
        Some(i) => if i == 0 {
            len - 1
        } else {
            i - 1
        },
        None => 0,
    }
}

/// A list of items with a cursor on one of them.
pub struct Events<T: Clone> {
    items: Vec<T>,
    selected: Option<usize>,
}

/// What a list with a cursor holds.
pub struct EventsView<T> {
    pub items: Seq<T>,
    pub selected: Option<usize>,
}

impl<T: Clone> View for Events<T> {
    type V = EventsView<T>;

    closed spec fn view(&self) -> EventsView<T> {
        EventsView { items: self.items@, selected: self.selected }
    }
}

impl<T> EventsView<T> {
    /// The list is not empty and the cursor, if set, is on one of its items.
    pub open spec fn well_formed(self) -> bool {
        &&& self.items.len() > 0
        &&& self.selected matches Some(i) ==> i < self.items.len()
    }
}

impl<T: Clone> Clone for Events<T> {
    fn clone(&self) -> (r: Self)
        ensures
            r@.selected == self@.selected,
            r@.items.len() == self@.items.len(),
            forall|i: int|
                0 <= i < self@.items.len() ==> cloned(self@.items[i], #[trigger] r@.items[i]),
    {
        Events { items: self.items.clone(), selected: self.selected }
    }
}

impl<T: Clone> Events<T> {
    /// A list with the cursor on its first item.
    pub fn new(items: Vec<T>) -> (r: Events<T>)
        ensures
            r@.items == items@,
            r@.selected == Some(0usize),
    {
        Events { items, selected: Some(0) }
    }

    /// Moves the cursor one item down, wrapping from the last to the first.
    pub fn next(&mut self)
        requires
            old(self)@.selected is Some ==> old(self)@.items.len() > 0,
        ensures
            final(self)@.items == old(self)@.items,
            final(self)@.selected == Some(
                next_index(old(self)@.selected, old(self)@.items.len()) as usize,
            ),
            old(self)@.well_formed() ==> final(self)@.well_formed(),
    {
        let i: usize = match self.selected {
            Some(i) => {
                if i >= self.items.len() - 1 {
                    0
                } else {
                    i + 1
                }
            },
            None => 0,
        };
        self.selected = Some(i);
    }

    /// Moves the cursor one item up, wrapping from the first to the last.
    pub fn previous(&mut self)
        requires
            old(self)@.selected is Some ==> old(self)@.items.len() > 0,
        ensures
            final(self)@.items == old(self)@.items,
            final(self)@.selected == Some(
                previous_index(old(self)@.selected, old(self)@.items.len()) as usize,
            ),
            old(self)@.well_formed() ==> final(self)@.well_formed(),
    {
        let i: usize = match self.selected {
            Some(i) => {
                if i == 0 {
                    self.items.len() - 1
                } else {
                    i - 1
                }
            },
            None => 0,
        };
        self.selected = Some(i);
    }

    /// A copy of the item under the cursor, if the cursor is set.
    pub fn chosen(&mut self) -> (r: Option<T>)
        requires
            old(self)@.selected matches Some(i) ==> i < old(self)@.items.len(),
        ensures
            final(self)@ == old(self)@,
            match r {
                Some(v) => old(self)@.selected matches Some(i) && cloned(
                    old(self)@.items[i as int],
                    v,
                ),
                None => old(self)@.selected is None,
            },
    {
        match self.selected {
            Some(i) => Some(self.items[i].clone()),
            None => None,
        }
    }

    /// The items of the list, in order.
    pub fn items(&self) -> (r: &Vec<T>)
        ensures
            r@ == self@.items,
    {
        &self.items
    }

    /// The position of the cursor.
    pub fn selected(&self) -> (r: Option<usize>)
        ensures
            r == self@.selected,
    {
        self.selected
    }
}

/// Whether `marked` holds an archive with the id `id`.
pub open spec fn is_marked(marked: Seq<ArchiveItem>, id: Seq<char>) -> bool {
    exists|i: int| 0 <= i < marked.len() && (#[trigger] marked[i]).archive_id@ == id
}

/// The marked archives after the operator toggles `item`: without every
/// archive of that id if one was marked, else with `item` added at the end.
pub open spec fn toggled(marked: Seq<ArchiveItem>, item: ArchiveItem) -> Seq<ArchiveItem> {
    if is_marked(marked, item.archive_id@) {
        marked.filter(|x: ArchiveItem| x.archive_id@ != item.archive_id@)
    } else {
        marked.push(item)
    }
}

/// The state of the dialog in which the operator marks archives.
pub struct ArchivePicker {
    events: Events<ArchiveItem>,
    marked: Vec<ArchiveItem>,
    quit: bool,
}

/// What the marking dialog holds.
pub struct ArchivePickerView {
    pub events: EventsView<ArchiveItem>,
    pub marked: Seq<ArchiveItem>,
    pub quit: bool,
}

impl ArchivePickerView {
    /// The dialog after one key press.
    ///
    /// `q`, Escape and Enter close it; `j` and Down, `k` and Up move the
    /// cursor; Space toggles the archive under the cursor, and closes the
    /// dialog if there is no cursor. Other keys change nothing.
    pub open spec fn step(self, key: KeyPress) -> ArchivePickerView {
        let len = self.events.items.len();
        if key == KeyPress::Char('q') || key == KeyPress::Esc || key == KeyPress::Enter {
            ArchivePickerView { quit: true, ..self }
        } else if key == KeyPress::Char('j') || key == KeyPress::Down {
            ArchivePickerView {
                events: EventsView {
                    selected: Some(next_index(self.events.selected, len) as usize),
                    ..self.events
                },
                ..self
            }
        } else if key == KeyPress::Char('k') || key == KeyPress::Up {
            ArchivePickerView {
                events: EventsView {
                    selected: Some(previous_index(self.events.selected, len) as usize),
                    ..self.events
                },
                ..self
            }
        } else if key == KeyPress::Char(' ') {
            match self.events.selected {
                Some(i) => ArchivePickerView {
                    marked: toggled(self.marked, self.events.items[i as int]),
                    ..self
                },
                None => ArchivePickerView { quit: true, ..self },
            }
        } else {
            self
        }
    }
}

impl View for ArchivePicker {
    type V = ArchivePickerView;

    closed spec fn view(&self) -> ArchivePickerView {
        ArchivePickerView { events: self.events@, marked: self.marked@, quit: self.quit }
    }
}

/// Whether `marked` holds an archive with the id of `item`.
fn holds_archive(marked: &Vec<ArchiveItem>, item: &ArchiveItem) -> (r: bool)
    ensures
        r == is_marked(marked@, item.archive_id@),
{
    let mut i: usize = 0;
    while i < marked.len()
        invariant
            i <= marked.len(),
            forall|j: int| 0 <= j < i ==> (#[trigger] marked@[j]).archive_id@ != item.archive_id@,
        decreases marked.len() - i,
    {
        if marked[i].archive_id == item.archive_id {
            return true;
        }
        i = i + 1;
    }
    false
}

/// The archives of `marked` whose id differs from that of `item`.
fn without_archive(marked: &Vec<ArchiveItem>, item: &ArchiveItem) -> (r: Vec<ArchiveItem>)
    ensures
        r@ == marked@.filter(|x: ArchiveItem| x.archive_id@ != item.archive_id@),
{
    let ghost keep = |x: ArchiveItem| x.archive_id@ != item.archive_id@;
    let mut kept: Vec<ArchiveItem> = Vec::new();
    let mut i: usize = 0;
    proof {
        assert(marked@.take(0) =~= Seq::<ArchiveItem>::empty());
        reveal(Seq::filter);
    }
    while i < marked.len()
        invariant
            i <= marked.len(),
            keep == |x: ArchiveItem| x.archive_id@ != item.archive_id@,
            kept@ == marked@.take(i as int).filter(keep),
        decreases marked.len() - i,
    {
        proof {
            lemma_filter_take_next(marked@, i as int, keep);
        }
        if marked[i].archive_id != item.archive_id {
            kept.push(marked[i].clone());
        }
        i = i + 1;
    }
    proof {
        assert(marked@.take(marked@.len() as int) =~= marked@);
    }
    kept
}

impl ArchivePicker {
    /// A dialog over `events` with nothing marked yet.
    pub fn new(events: Events<ArchiveItem>) -> (r: ArchivePicker)
        ensures
            r@.events == events@,
            r@.marked == Seq::<ArchiveItem>::empty(),
            !r@.quit,
    {
        ArchivePicker { events, marked: Vec::new(), quit: false }
    }

    /// Applies one key press to the dialog.
    pub fn handle(&mut self, key: KeyPress)
        requires
            old(self)@.events.well_formed(),
        ensures
            final(self)@ == old(self)@.step(key),
            final(self)@.events.well_formed(),
    {
        match key {
            KeyPress::Char('q') | KeyPress::Esc | KeyPress::Enter => {
                self.quit = true;
            },
            KeyPress::Char('j') | KeyPress::Down => {
                self.events.next();
            },
            KeyPress::Char('k') | KeyPress::Up => {
                self.events.previous();
            },
            KeyPress::Char(' ') => {
                match self.events.chosen() {
                    Some(value) => {
                        if holds_archive(&self.marked, &value) {
                            self.marked = without_archive(&self.marked, &value);
                        } else {
                            self.marked.push(value);
                        }
                    },
                    None => {
                        self.quit = true;
                    },
                }
            },
            _ => {},
        }
    }

    /// Whether the dialog has been closed.
    pub fn should_quit(&self) -> (r: bool)
        ensures
            r == self@.quit,
    {
        self.quit
    }

    /// The list and its cursor, for drawing.
    pub fn events(&self) -> (r: &Events<ArchiveItem>)
        ensures
            r@ == self@.events,
    {
        &self.events
    }

    /// The line that stands for `item` in the list: its description and its
    /// id, followed by a star if the archive is marked.
    pub fn label(&self, item: &ArchiveItem) -> (r: String)
        ensures
            r@ == if is_marked(self@.marked, item.archive_id@) {
                item.archive_description@ + " "@ + item.archive_id@ + " "@ + " *"@
            } else {
                item.archive_description@ + " "@ + item.archive_id@
            },
    {
        let mut line = item.archive_description.clone();
        line.append(" ");
        line.append(item.archive_id.as_str());
        if holds_archive(&self.marked, item) {
            line.append(" ");
            line.append(" *");
        }
        line
    }

    /// The marked archives, or `None` if the operator marked none.
    pub fn finish(self) -> (r: Option<Vec<ArchiveItem>>)
        ensures
            r is Some <==> self@.marked.len() >= 1,
            r matches Some(v) ==> v@ == self@.marked,
    {
        if self.marked.len() >= 1 {
            Some(self.marked)
        } else {
            None
        }
    }
}

/// The answer that stands behind an option of the yes-or-no dialog.
pub open spec fn answer_of(option: Seq<char>) -> Option<bool> {
    if option == "yes"@ {
        Some(true)
    } else if option == "no"@ {
        Some(false)
    } else {
        None
    }
}

/// The state of the dialog that asks the operator to confirm with yes or no.
pub struct Confirmation {
    events: Events<String>,
    answer: Option<bool>,
    quit: bool,
}

/// What the yes-or-no dialog holds.
pub struct ConfirmationView {
    pub events: EventsView<String>,
    pub answer: Option<bool>,
    pub quit: bool,
}

impl ConfirmationView {
    /// The dialog offers "yes" and "no", in that order, with the cursor on
    /// one of them.
    pub open spec fn well_formed(self) -> bool {
        &&& self.events.items.len() == 2
        &&& self.events.items[0]@ == "yes"@
        &&& self.events.items[1]@ == "no"@
        &&& self.events.well_formed()
    }

    /// The dialog after one key press.
    ///
    /// `q` and Escape close it without an answer; `j` and Down, `k` and Up
    /// move the cursor; Enter closes it with the answer under the cursor.
    /// Other keys change nothing.
    pub open spec fn step(self, key: KeyPress) -> ConfirmationView {
        let len = self.events.items.len();
        if key == KeyPress::Char('q') || key == KeyPress::Esc {
            ConfirmationView { quit: true, ..self }
        } else if key == KeyPress::Char('j') || key == KeyPress::Down {
            ConfirmationView {
                events: EventsView {
                    selected: Some(next_index(self.events.selected, len) as usize),
                    ..self.events
                },
                ..self
            }
        } else if key == KeyPress::Char('k') || key == KeyPress::Up {
            ConfirmationView {
                events: EventsView {
                    selected: Some(previous_index(self.events.selected, len) as usize),
                    ..self.events
                },
                ..self
            }
        } else if key == KeyPress::Enter {
            match self.events.selected {
                Some(i) => ConfirmationView {
                    quit: true,
                    answer: answer_of(self.events.items[i as int]@),
                    ..self
                },
                None => ConfirmationView { quit: true, ..self },
            }
        } else {
            self
        }
    }
}

impl View for Confirmation {
    type V = ConfirmationView;

    closed spec fn view(&self) -> ConfirmationView {
        ConfirmationView { events: self.events@, answer: self.answer, quit: self.quit }
    }
}

impl Confirmation {
    /// A dialog with the cursor on "yes" and no answer yet.
    pub fn new() -> (r: Confirmation)
        ensures
            r@.well_formed(),
            r@.events.selected == Some(0usize),
            r@.answer is None,
            !r@.quit,
    {
        let mut options: Vec<String> = Vec::new();
        options.push(String::from_str("yes"));
        options.push(String::from_str("no"));
        Confirmation { events: Events::new(options), answer: None, quit: false }
    }

    /// Applies one key press to the dialog.
    pub fn handle(&mut self, key: KeyPress)
        requires
            old(self)@.well_formed(),
        ensures
            final(self)@ == old(self)@.step(key),
            final(self)@.well_formed(),
    {
        match key {
            KeyPress::Char('q') | KeyPress::Esc => {
                self.quit = true;
            },
            KeyPress::Char('j') | KeyPress::Down => {
                self.events.next();
            },
            KeyPress::Char('k') | KeyPress::Up => {
                self.events.previous();
            },
            KeyPress::Enter => {
                match self.events.chosen() {
                    Some(value) => {
                        proof {
                            reveal_strlit("yes");
                            reveal_strlit("no");
                        }
                        self.quit = true;
                        let yes = String::from_str("yes");
                        if value == yes {
                            self.answer = Some(true);
                        } else {
                            self.answer = Some(false);
                        }
                    },
                    None => {
                        self.quit = true;
                    },
                }
            },
            _ => {},
        }
    }

    /// Whether the dialog has been closed.
    pub fn should_quit(&self) -> (r: bool)
        ensures
            r == self@.quit,
    {
        self.quit
    }

    /// The options and the cursor, for drawing.
    pub fn events(&self) -> (r: &Events<String>)
        ensures
            r@ == self@.events,
    {
        &self.events
    }

    /// The operator's answer, or `None` if the dialog was left without one.
    pub fn finish(self) -> (r: Option<bool>)
        ensures
            r == self@.answer,
    {
        self.answer
    }
}

/// The line that announces the deletion of `item`: a space, its description,
/// " created on " and its creation date.
pub fn deletion_line(item: &ArchiveItem) -> (r: String)
    ensures
        r@ == " "@ + item.archive_description@ + " created on "@ + item.creation_date@,
{
    let mut line = String::from_str(" ");
    line.append(item.archive_description.as_str());
    line.append(" created on ");
    line.append(item.creation_date.as_str());
    line
}

} // verus!
