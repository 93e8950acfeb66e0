//! The entries of a right-click menu.

use vstd::prelude::*;

verus! {

/// One entry of a context menu: its label, whether it is a destructive action
/// (styled red), and what choosing it does. An entry without an action is shown and
/// cannot be chosen.
#[derive(Debug, PartialEq, Eq)]
pub struct MenuItem<A> {
    pub label: String,
    pub destructive: bool,
    pub action: Option<A>,
}

impl<A> MenuItem<A> {
    /// A normal (non-destructive) menu entry.
    pub fn new(label: String, action: A) -> (r: Self)
        ensures
            r == (MenuItem { label, destructive: false, action: Some(action) }),
    {
        MenuItem { label, destructive: false, action: Some(action) }
    }

    /// A destructive menu entry, such as "Delete".
    pub fn destructive(label: String, action: A) -> (r: Self)
        ensures
            r == (MenuItem { label, destructive: true, action: Some(action) }),
    {
        MenuItem { label, destructive: true, action: Some(action) }
    }

    /// An entry that is shown but not offered.
    pub fn unavailable(label: String) -> (r: Self)
        ensures
            r == (MenuItem::<A> { label, destructive: false, action: None }),
    {
        MenuItem { label, destructive: false, action: None }
    }
}

/// An entry that can be chosen does its action, one that is not available does nothing,
/// and only a destructive one is marked.
pub proof fn law_only_a_destructive_entry_is_marked<A>(
    label: String,
    action: A,
    plain: MenuItem<A>,
    red: MenuItem<A>,
    grey: MenuItem<A>,
)
    requires
        call_ensures(MenuItem::<A>::new, (label, action), plain),
        call_ensures(MenuItem::<A>::destructive, (label, action), red),
        call_ensures(MenuItem::<A>::unavailable, (label,), grey),
    ensures
        plain.label@ == label@ && red.label@ == label@ && grey.label@ == label@,
        plain.action == Some(action) && red.action == Some(action) && grey.action is None,
        !plain.destructive && red.destructive && !grey.destructive,
{
}

} // verus!
