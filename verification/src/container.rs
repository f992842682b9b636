use vstd::prelude::*;
use vstd::string::StringExecFns;

use crate::counter::SharedState;
use crate::data::ComplexData;
use crate::data::render_spec;

verus! {

/// What a container can hold and dispatch: either a parsed value, which
/// carries a mutation counter, or a plain text alternative, which has
/// none.
#[derive(Debug)]
pub enum DataItem {
    Complex(ComplexData),
    Plain(String),
}

/// The line that processing an item emits: the display string for a
/// parsed value, a fixed processing notice for plain text.
pub open spec fn process_line_spec(d: DataItem) -> Seq<char> {
    match d {
        DataItem::Complex(c) => render_spec(c.payload@),
        DataItem::Plain(t) => "Processing String: "@ + t@,
    }
}

/// The display string of an item: the rendering of a parsed value, the
/// text itself otherwise.
pub open spec fn display_spec(d: DataItem) -> Seq<char> {
    match d {
        DataItem::Complex(c) => render_spec(c.payload@),
        DataItem::Plain(t) => t@,
    }
}

/// The effect of one counter bump on an item: a parsed value's counter
/// grows by one and its payload stays; plain text is left untouched.
pub open spec fn bump_spec(d: DataItem) -> DataItem {
    match d {
        DataItem::Complex(c) => DataItem::Complex(
            ComplexData {
                payload: c.payload,
                shared_state: SharedState { counter: (c.shared_state.counter + 1) as usize },
            },
        ),
        DataItem::Plain(t) => DataItem::Plain(t),
    }
}

/// The effect of `n` counter bumps in a row.
pub open spec fn bump_n_spec(d: DataItem, n: nat) -> DataItem
    decreases n,
{
    if n == 0 {
        d
    } else {
        bump_spec(bump_n_spec(d, (n - 1) as nat))
    }
}

impl DataItem {
    /// The type-identity query: whether this item is backed by a parsed
    /// value, and so has a counter that a bump would be meaningful for.
    pub fn is_complex(&self) -> (r: bool)
        ensures
            r == (*self is Complex),
    {
        match self {
            DataItem::Complex(_) => true,
            DataItem::Plain(_) => false,
        }
    }

    /// The line that processing this item emits.
    pub fn process_line(&self) -> (r: String)
        ensures
            r@ == process_line_spec(*self),
    {
        match self {
            DataItem::Complex(c) => c.to_display_string(),
            DataItem::Plain(t) => {
                let mut s = String::new();
                s.append("Processing String: ");
                s.append(t.as_str());
                s
            },
        }
    }

    /// This item's display string.
    pub fn display_string(&self) -> (r: String)
        ensures
            r@ == display_spec(*self),
    {
        match self {
            DataItem::Complex(c) => c.to_display_string(),
            DataItem::Plain(t) => t.clone(),
        }
    }

    /// Bumps the counter of a parsed value and returns the new count;
    /// for plain text this is a no-op and returns nothing.
    pub fn increment_shared_counter(&mut self) -> (r: Option<usize>)
        requires
            *old(self) is Complex ==> old(self)->Complex_0.shared_state.counter < usize::MAX,
        ensures
            *final(self) == bump_spec(*old(self)),
            r is Some <==> *old(self) is Complex,
            *old(self) is Complex ==> r->0 == old(self)->Complex_0.shared_state.counter + 1,
    {
        match self {
            DataItem::Complex(c) => Some(c.increment_shared_counter()),
            DataItem::Plain(_) => None,
        }
    }
}

/// Holds one dispatchable item and forwards the uniform operations to
/// it; the counter bump goes through the type-identity check, so that it
/// runs exactly on value-backed items.
pub struct Container {
    pub data: DataItem,
}

impl Container {
    pub fn new(data: DataItem) -> (r: Container)
        ensures
            r.data == data,
    {
        Container { data }
    }

    /// The line that processing the held item emits.
    pub fn process_data(&self) -> (r: String)
        ensures
            r@ == process_line_spec(self.data),
    {
        self.data.process_line()
    }

    /// The held item's display string.
    pub fn print_data(&self) -> (r: String)
        ensures
            r@ == display_spec(self.data),
    {
        self.data.display_string()
    }

    /// Bumps the counter when — and only when — the held item is backed
    /// by a parsed value, and then returns the new count; plain text is
    /// recognized and left untouched.
    pub fn increment_shared_counter(&mut self) -> (r: Option<usize>)
        requires
            old(self).data is Complex ==> old(
                self,
            ).data->Complex_0.shared_state.counter < usize::MAX,
        ensures
            final(self).data == bump_spec(old(self).data),
            r is Some <==> old(self).data is Complex,
            old(self).data is Complex ==> r->0 == old(
                self,
            ).data->Complex_0.shared_state.counter + 1,
            old(self).data is Plain ==> *final(self) == *old(self),
    {
        if self.data.is_complex() {
            self.data.increment_shared_counter()
        } else {
            None
        }
    }
}

/// Law: bumping a value-backed item `n` times adds exactly `n` to its
/// counter and leaves its payload alone; bumping a plain-text item any
/// number of times changes nothing.
pub proof fn lemma_repeated_bumps(d: DataItem, n: nat)
    requires
        d is Complex ==> d->Complex_0.shared_state.counter + n <= usize::MAX,
    ensures
        d is Complex ==> bump_n_spec(d, n) is Complex && bump_n_spec(
            d,
            n,
        )->Complex_0.shared_state.counter == d->Complex_0.shared_state.counter + n && bump_n_spec(
            d,
            n,
        )->Complex_0.payload == d->Complex_0.payload,
        d is Plain ==> bump_n_spec(d, n) == d,
    decreases n,
{
    if n > 0 {
        lemma_repeated_bumps(d, (n - 1) as nat);
    }
}

/// Law: a freshly parsed value starts with counter zero, so after
/// exactly `n` bumps its counter reads `n`.
pub proof fn lemma_counter_counts_bumps(d: DataItem, n: nat)
    requires
        d is Complex,
        d->Complex_0.shared_state.counter == 0,
        n <= usize::MAX,
    ensures
        bump_n_spec(d, n)->Complex_0.shared_state.counter == n,
{
    lemma_repeated_bumps(d, n);
}

} // verus!
