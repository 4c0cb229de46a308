//! The click counter: a number that goes up by one with each click and is
//! shown as decimal text.

use crate::decimal::{format_nat, nat_text};
use vstd::prelude::*;

verus! {

/// The state of the counter program. Its view is the number of clicks
/// counted so far.
pub struct App {
    counter: usize,
}

impl View for App {
    type V = nat;

    closed spec fn view(&self) -> nat {
        self.counter as nat
    }
}

/// The count after one more click.
pub open spec fn clicked(count: nat) -> nat {
    count + 1
}

/// The count after `n` more clicks.
pub open spec fn clicked_times(count: nat, n: nat) -> nat
    decreases n,
{
    if n == 0 {
        count
    } else {
        clicked(clicked_times(count, (n - 1) as nat))
    }
}

/// What the label shows for a count.
pub open spec fn label_text(count: nat) -> Seq<char> {
    nat_text(count)
}

impl App {
    /// A counter that has seen no click.
    pub fn new() -> (app: Self)
        ensures
            app@ == 0,
    {
        App { counter: 0 }
    }

    /// The number of clicks counted so far.
    pub fn count(&self) -> (n: usize)
        ensures
            n == self@,
    {
        self.counter
    }

    /// Counts one click and returns the text for the label.
    pub fn on_click(&mut self) -> (text: String)
        requires
            old(self)@ < usize::MAX,
        ensures
            final(self)@ == clicked(old(self)@),
            text@ == label_text(final(self)@),
    {
        self.counter = self.counter + 1;
        format_nat(self.counter as u64)
    }

    /// Handles one round of notifications: `button_clicked` tells whether the
    /// button reported a click. Returns the new text for the label, if the
    /// label has to change.
    pub fn handle_actions(&mut self, button_clicked: bool) -> (label: Option<String>)
        requires
            button_clicked ==> old(self)@ < usize::MAX,
        ensures
            final(self)@ == if button_clicked {
                clicked(old(self)@)
            } else {
                old(self)@
            },
            match label {
                Some(text) => button_clicked && text@ == label_text(final(self)@),
                None => !button_clicked,
            },
    {
        if button_clicked {
            Some(self.on_click())
        } else {
            None
        }
    }
}

impl Default for App {
    fn default() -> (app: Self)
        ensures
            app@ == 0,
    {
        App::new()
    }
}

/// After `n` clicks a fresh counter stands at `n`, and its label shows the
/// decimal text of `n`.
pub proof fn lemma_clicks_from_fresh(n: nat)
    ensures
        clicked_times(0, n) == n,
        label_text(clicked_times(0, n)) == nat_text(n),
    decreases n,
{
    if n > 0 {
        lemma_clicks_from_fresh((n - 1) as nat);
    }
}

} // verus!
