//! The interactive selection menu as a state machine: one key in, one step out.
//! Drawing the menu and reading keys from the terminal is left to the caller.
use vstd::prelude::*;

verus! {

/// A key press, as the menu reads it.
#[derive(Debug, PartialEq, Eq, Structural, Copy, Clone)]
pub enum Key {
    Up,
    Down,
    /// A printable character; Enter arrives as `Char('\n')`.
    Char(char),
    /// A character typed with Ctrl held.
    Ctrl(char),
    Esc,
    /// Any other key.
    Other,
}

/// What one key press did to the menu.
#[derive(Debug, PartialEq, Eq, Structural, Copy, Clone)]
pub enum Step {
    /// The menu goes on, with the highlight possibly moved.
    Continue,
    /// The highlighted item, at this index, was chosen.
    Selected(usize),
    /// The user cancelled; nothing is chosen.
    Cancelled,
}

pub open spec fn is_enter(k: Key) -> bool {
    k == Key::Char('\n')
}

/// `q`, `n`, Esc and Ctrl-C cancel the menu.
pub open spec fn is_cancel(k: Key) -> bool {
    k == Key::Char('q') || k == Key::Char('n') || k == Key::Esc || k == Key::Ctrl('c')
}

/// The highlighted index after `k` in a menu of `len` items: Up and Down move it
/// by one within `[0, len - 1]`; other keys leave it.
pub open spec fn next_index(len: nat, current: nat, k: Key) -> nat {
    match k {
        Key::Up => if current > 0 {
            (current - 1) as nat
        } else {
            0
        },
        Key::Down => if current + 1 < len {
            current + 1
        } else {
            current
        },
        _ => current,
    }
}

/// The index chosen when the keys `keys` are pressed, in order, in a menu of
/// `len` items whose highlight is at `current`; `None` when a cancel key comes
/// first or the keys run out before Enter.
pub open spec fn outcome(len: nat, current: nat, keys: Seq<Key>) -> Option<nat>
    decreases keys.len(),
{
    if keys.len() == 0 {
        None
    } else if is_enter(keys[0]) {
        Some(current)
    } else if is_cancel(keys[0]) {
        None
    } else {
        outcome(len, next_index(len, current, keys[0]), keys.drop_first())
    }
}

pub open spec fn opt_nat(o: Option<usize>) -> Option<nat> {
    match o {
        Some(i) => Some(i as nat),
        None => None,
    }
}

/// How the item at `i` is drawn when the highlight is at `current`.
pub open spec fn menu_line(item: Seq<char>, i: nat, current: nat) -> Seq<char> {
    if i == current {
        "> "@ + item
    } else {
        "  "@ + item
    }
}

/// A menu over a non-empty list of `len` items, with one of them highlighted.
pub struct Menu {
    len: usize,
    current: usize,
}

impl Menu {
    #[verifier::type_invariant]
    closed spec fn inv(&self) -> bool {
        0 < self.len && self.current < self.len
    }

    pub closed spec fn len_spec(&self) -> nat {
        self.len as nat
    }

    pub closed spec fn current_spec(&self) -> nat {
        self.current as nat
    }

    /// A menu over `len` items with the first highlighted; `None` when there is
    /// nothing to choose from.
    pub fn new(len: usize) -> (r: Option<Menu>)
        ensures
            r is None <==> len == 0,
            r is Some ==> r->0.len_spec() == len && r->0.current_spec() == 0,
    {
        if len == 0 {
            None
        } else {
            Some(Menu { len, current: 0 })
        }
    }

    pub fn len(&self) -> (r: usize)
        ensures
            r == self.len_spec(),
    {
        self.len
    }

    /// The index of the highlighted item.
    pub fn current(&self) -> (r: usize)
        ensures
            r == self.current_spec(),
    {
        self.current
    }

    /// Takes one key: Enter chooses the highlighted item, a cancel key ends the
    /// menu, Up and Down move the highlight, and any other key does nothing.
    pub fn step(&mut self, key: Key) -> (r: Step)
        ensures
            final(self).len_spec() == old(self).len_spec(),
            is_enter(key) ==> r == Step::Selected(old(self).current_spec() as usize),
            !is_enter(key) && is_cancel(key) ==> r == Step::Cancelled,
            !is_enter(key) && !is_cancel(key) ==> r == Step::Continue,
            is_enter(key) || is_cancel(key) ==> final(self).current_spec()
                == old(self).current_spec(),
            !is_enter(key) && !is_cancel(key) ==> final(self).current_spec() == next_index(
                old(self).len_spec(),
                old(self).current_spec(),
                key,
            ),
    {
        proof {
            use_type_invariant(&*self);
        }
        match key {
            Key::Char('\n') => Step::Selected(self.current),
            Key::Char('q') | Key::Char('n') | Key::Esc | Key::Ctrl('c') => Step::Cancelled,
            Key::Up => {
                if self.current > 0 {
                    self.current = self.current - 1;
                }
                Step::Continue
            },
            Key::Down => {
                if self.current < self.len - 1 {
                    self.current = self.current + 1;
                }
                Step::Continue
            },
            _ => Step::Continue,
        }
    }

    /// Feeds `keys` to the menu in order until one of them ends it; the index
    /// chosen, or `None` when it was cancelled or the keys ran out.
    pub fn select(&mut self, keys: &Vec<Key>) -> (r: Option<usize>)
        ensures
            opt_nat(r) == outcome(old(self).len_spec(), old(self).current_spec(), keys@),
            final(self).len_spec() == old(self).len_spec(),
    {
        let mut i: usize = 0;
        assert(keys@.subrange(0, keys@.len() as int) =~= keys@);
        while i < keys.len()
            invariant
                i <= keys@.len(),
                self.len_spec() == old(self).len_spec(),
                outcome(old(self).len_spec(), old(self).current_spec(), keys@) == outcome(
                    self.len_spec(),
                    self.current_spec(),
                    keys@.subrange(i as int, keys@.len() as int),
                ),
            decreases keys@.len() - i,
        {
            let ghost rest = keys@.subrange(i as int, keys@.len() as int);
            assert(rest.drop_first() =~= keys@.subrange(i + 1, keys@.len() as int));
            assert(rest[0] == keys@[i as int]);
            match self.step(keys[i]) {
                Step::Selected(j) => {
                    return Some(j);
                },
                Step::Cancelled => {
                    return None;
                },
                Step::Continue => {},
            }
            i = i + 1;
        }
        None
    }

    /// The lines that draw the menu: each item on its own line, the highlighted
    /// one after `> `, the others after two spaces.
    pub fn lines(&self, items: &Vec<String>) -> (r: Vec<String>)
        requires
            items@.len() == self.len_spec(),
        ensures
            r@.len() == items@.len(),
            forall|i: int|
                0 <= i < r@.len() ==> #[trigger] r@[i]@ == menu_line(
                    items@[i]@,
                    i as nat,
                    self.current_spec(),
                ),
    {
        let mut out: Vec<String> = Vec::new();
        let mut i: usize = 0;
        while i < items.len()
            invariant
                i <= items@.len(),
                out@.len() == i,
                forall|k: int|
                    0 <= k < i ==> #[trigger] out@[k]@ == menu_line(
                        items@[k]@,
                        k as nat,
                        self.current_spec(),
                    ),
            decreases items@.len() - i,
        {
            let mut line = if i == self.current {
                String::from_str("> ")
            } else {
                String::from_str("  ")
            };
            line.append(items[i].as_str());
            out.push(line);
            i = i + 1;
        }
        out
    }
}

/// The index chosen from `items` by the keys `keys`, starting on the first item;
/// an empty list chooses nothing and reads no key.
pub fn select_from<T>(items: &Vec<T>, keys: &Vec<Key>) -> (r: Option<usize>)
    ensures
        items@.len() == 0 ==> r is None,
        items@.len() > 0 ==> opt_nat(r) == outcome(items@.len(), 0, keys@),
        r matches Some(i) ==> i < items@.len(),
{
    match Menu::new(items.len()) {
        None => None,
        Some(mut menu) => {
            proof {
                chosen_within(items@.len(), 0, keys@);
            }
            menu.select(keys)
        },
    }
}

/// A cancel key ends the menu with nothing chosen, whatever keys follow it and
/// wherever the highlight is.
pub proof fn cancel_chooses_nothing(len: nat, current: nat, keys: Seq<Key>)
    requires
        keys.len() > 0,
        is_cancel(keys[0]),
    ensures
        outcome(len, current, keys) is None,
{
}

/// Enter chooses the highlighted item, whatever keys follow it.
pub proof fn enter_chooses_current(len: nat, current: nat, keys: Seq<Key>)
    requires
        keys.len() > 0,
        is_enter(keys[0]),
    ensures
        outcome(len, current, keys) == Some(current),
{
}

/// Whatever keys are pressed, a chosen index is within the list.
pub proof fn chosen_within(len: nat, current: nat, keys: Seq<Key>)
    requires
        current < len,
    ensures
        outcome(len, current, keys) matches Some(i) ==> i < len,
    decreases keys.len(),
{
    if keys.len() > 0 && !is_enter(keys[0]) && !is_cancel(keys[0]) {
        chosen_within(len, next_index(len, current, keys[0]), keys.drop_first());
    }
}

} // verus!
