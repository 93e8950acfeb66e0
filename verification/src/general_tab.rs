//! The general tab of the settings dialog: client-local preferences.

use vstd::prelude::*;

verus! {

/// What the tab shows. A change that comes from the stored preferences is applied
/// without being announced as one the user made: the box then reports what this tab holds.
#[derive(Debug, Clone, Copy, PartialEq, Eq, Structural)]
pub struct GeneralTab {
    /// Share basic device context with the assistant.
    pub share_client_context: bool,
}

impl GeneralTab {
    /// What a report that the box stands at `on` asks to be saved.
    pub open spec fn write(self, on: bool) -> Option<bool> {
        if on != self.share_client_context {
            Some(on)
        } else {
            None
        }
    }

    /// A tab with sharing on: it is unless the user opts out.
    pub fn new() -> (r: Self)
        ensures
            r.share_client_context,
    {
        GeneralTab { share_client_context: true }
    }

    /// Apply the persisted value, with nothing to save.
    pub fn set_share_client_context(&mut self, on: bool)
        ensures
            final(self).share_client_context == on,
    {
        self.share_client_context = on;
    }

    /// The box reports that it stands at `on`. Returns the value to save, where the
    /// user changed it.
    pub fn toggled(&mut self, on: bool) -> (r: Option<bool>)
        ensures
            r == old(self).write(on),
            final(self).share_client_context == on,
    {
        let changed = on != self.share_client_context;
        self.share_client_context = on;
        if changed {
            Some(on)
        } else {
            None
        }
    }
}

/// Applying the persisted value is never echoed back as a save, and a change of the
/// user's always is one.
pub proof fn law_only_changes_are_saved(tab: GeneralTab)
    ensures
        tab.write(tab.share_client_context) is None,
        tab.write(!tab.share_client_context) == Some(!tab.share_client_context),
{
}

/// Sharing is on unless the user opted out; the user's change is saved once, and a
/// stored value that is applied is not saved again.
pub proof fn law_sharing_is_saved_when_changed(
    tab: &mut GeneralTab,
    set: &mut GeneralTab,
    echo: &mut GeneralTab,
    fresh: GeneralTab,
    on: bool,
    r: Option<bool>,
    echoed: Option<bool>,
)
    requires
        call_ensures(GeneralTab::new, (), fresh),
        call_ensures(GeneralTab::toggled, (tab, on), r),
        call_ensures(GeneralTab::set_share_client_context, (set, on), ()),
        *old(echo) == *final(set),
        call_ensures(GeneralTab::toggled, (echo, on), echoed),
    ensures
        fresh.share_client_context,
        r is Some <==> on != old(tab).share_client_context,
        r is Some ==> r->0 == on,
        final(tab).share_client_context == on,
        final(set).share_client_context == on,
        echoed is None,
{
}

} // verus!
