//! The voice tab of the settings dialog: the wake-word toggle and the voice that
//! replies are spoken with.

use crate::api::VoiceInfo;
use crate::text::{opt_text, same_text, texts, trim, trimmed};
use vstd::prelude::*;

verus! {

/// What the dropdown says of a voice.
pub open spec fn voice_label(v: VoiceInfo) -> Seq<char> {
    let name = if trimmed(v.display_name@).len() == 0 {
        v.id@
    } else {
        v.display_name@
    };
    if trimmed(v.language@).len() == 0 {
        name
    } else {
        name + " ("@ + v.language@ + ")"@
    }
}

/// Render a voice's dropdown label. Prefers the display name, appends the language
/// when present, and falls back to the raw id if the name is empty.
pub fn display_label(v: &VoiceInfo) -> (r: String)
    ensures
        r@ == voice_label(*v),
{
    let mut out = if trim(v.display_name.as_str()).is_empty() {
        v.id.clone()
    } else {
        v.display_name.clone()
    };
    if !trim(v.language.as_str()).is_empty() {
        out.append(" (");
        out.append(v.language.as_str());
        out.append(")");
    }
    out
}

/// What the tab shows. A control that reports the state it was given by this tab
/// reports no change, so applying the daemon's state is never echoed back.
pub struct VoiceTab {
    /// The wake word is on.
    pub enabled: bool,
    pub enable_sensitive: bool,
    /// Voice ids in the order of the dropdown's entries, so a position maps back to
    /// the id to send.
    pub voice_ids: Vec<String>,
    pub labels: Vec<String>,
    /// The selected entry; a dropdown without entries has none.
    pub selected: Option<usize>,
    pub voices_sensitive: bool,
    pub status: &'static str,
}

/// `place` is where the current voice first stands in the list; it is the first
/// place where the current voice is not in the list, or where there is none.
pub open spec fn shows_current(ids: Seq<Seq<char>>, current: Option<Seq<char>>, place: int) -> bool {
    match current {
        Some(id) if ids.contains(id) => {
            &&& 0 <= place < ids.len()
            &&& ids[place] == id
            &&& forall|j: int| 0 <= j < place ==> #[trigger] ids[j] != id
        },
        _ => place == 0,
    }
}

impl VoiceTab {
    /// What a report that the wake word stands at `on` asks to be written.
    pub open spec fn enabled_write(self, on: bool) -> Option<bool> {
        if on != self.enabled {
            Some(on)
        } else {
            None
        }
    }

    /// The voice that a report of the selected position asks to be set.
    pub open spec fn voice_write(self, index: int) -> Option<Seq<char>> {
        if 0 <= index < self.voice_ids@.len() && self.selected != Some(index as usize) {
            Some(self.voice_ids@[index]@)
        } else {
            None
        }
    }

    /// The dropdown lists `voices` with the current one selected.
    pub open spec fn shows_voices(self, voices: Seq<VoiceInfo>, current: Option<Seq<char>>) -> bool {
        &&& self.voice_ids@.len() == voices.len()
        &&& self.labels@.len() == voices.len()
        &&& forall|i: int| #![trigger voices[i]]
            0 <= i < voices.len() ==> {
                &&& self.voice_ids@[i]@ == voices[i].id@
                &&& self.labels@[i]@ == voice_label(voices[i])
            }
        &&& self.voices_sensitive == (voices.len() > 0)
        &&& self.selected is Some == (voices.len() > 0)
        &&& self.selected is Some ==> shows_current(
            texts(self.voice_ids@),
            current,
            self.selected->0 as int,
        )
        &&& self.status@ == (if voices.len() > 0 {
            ""@
        } else {
            "No voices installed. Run the voice daemon's setup to provision a voice model."@
        })
    }

    /// A tab that has not heard from the voice daemon.
    pub fn new() -> (r: Self)
        ensures
            !r.enabled,
            r.enable_sensitive,
            r.voice_ids@.len() == 0,
            r.labels@.len() == 0,
            r.selected is None,
            r.voices_sensitive,
            r.status@ == ""@,
    {
        VoiceTab {
            enabled: false,
            enable_sensitive: true,
            voice_ids: Vec::new(),
            labels: Vec::new(),
            selected: None,
            voices_sensitive: true,
            status: "",
        }
    }

    /// Apply the daemon's wake-word flag.
    pub fn set_enabled_state(&mut self, enabled: bool)
        ensures
            *final(self) == (VoiceTab { enabled, ..*old(self) }),
    {
        self.enabled = enabled;
    }

    /// The wake-word box reports that it stands at `on`. Returns the flag to write,
    /// where the user changed it.
    pub fn enabled_toggled(&mut self, on: bool) -> (r: Option<bool>)
        ensures
            r == old(self).enabled_write(on),
            *final(self) == (VoiceTab { enabled: on, ..*old(self) }),
    {
        let changed = on != self.enabled;
        self.enabled = on;
        if changed {
            Some(on)
        } else {
            None
        }
    }

    /// Populate the voice dropdown and select `current` (the active voice id, if
    /// any). A daemon without voices greys the dropdown and says what to do.
    pub fn set_voices(&mut self, voices: &Vec<VoiceInfo>, current: Option<&str>)
        ensures
            final(self).shows_voices(
                voices@,
                match current {
                    Some(id) => Some(id@),
                    None => None,
                },
            ),
            final(self).enabled == old(self).enabled,
            final(self).enable_sensitive == old(self).enable_sensitive,
    {
        let mut ids: Vec<String> = Vec::new();
        let mut labels: Vec<String> = Vec::new();
        let mut i: usize = 0;
        while i < voices.len()
            invariant
                i <= voices.len(),
                ids@.len() == i,
                labels@.len() == i,
                forall|j: int| #![trigger voices@[j]]
                    0 <= j < i ==> ids@[j]@ == voices@[j].id@ && labels@[j]@ == voice_label(
                        voices@[j],
                    ),
            decreases voices.len() - i,
        {
            labels.push(display_label(&voices[i]));
            ids.push(voices[i].id.clone());
            i = i + 1;
        }
        let has_voices = voices.len() > 0;
        self.selected = if has_voices {
            match current {
                Some(id) => Some(place_or_first(&ids, id)),
                None => Some(0),
            }
        } else {
            None
        };
        self.voice_ids = ids;
        self.labels = labels;
        self.voices_sensitive = has_voices;
        self.status = if has_voices {
            ""
        } else {
            "No voices installed. Run the voice daemon's setup to provision a voice model."
        };
    }

    /// Disable the controls and explain why: the voice daemon is not there.
    pub fn set_unavailable(&mut self)
        ensures
            !final(self).enabled,
            !final(self).enable_sensitive,
            !final(self).voices_sensitive,
            final(self).status@
                == "Voice service not available. Start the voice daemon (org.desktopAssistant.Voice) to enable these controls."@,
            final(self).voice_ids == old(self).voice_ids,
            final(self).labels == old(self).labels,
            final(self).selected == old(self).selected,
    {
        self.enabled = false;
        self.enable_sensitive = false;
        self.voices_sensitive = false;
        self.status =
        "Voice service not available. Start the voice daemon (org.desktopAssistant.Voice) to enable these controls.";
    }

    /// Re-enable the controls after a transition back to available. Selection state
    /// is applied separately.
    pub fn set_available(&mut self)
        ensures
            final(self).enable_sensitive,
            final(self).voices_sensitive,
            final(self).status@ == ""@,
            final(self).enabled == old(self).enabled,
            final(self).voice_ids == old(self).voice_ids,
            final(self).labels == old(self).labels,
            final(self).selected == old(self).selected,
    {
        self.enable_sensitive = true;
        self.voices_sensitive = true;
        self.status = "";
    }

    /// The dropdown reports that the entry at `index` is selected. Returns the voice
    /// to set, where the user picked another one.
    pub fn voice_selected(&mut self, index: usize) -> (r: Option<String>)
        ensures
            opt_text(r) == old(self).voice_write(index as int),
            *final(self) == (VoiceTab {
                selected: if index < old(self).voice_ids@.len() {
                    Some(index)
                } else {
                    old(self).selected
                },
                ..*old(self)
            }),
    {
        if index >= self.voice_ids.len() {
            return None;
        }
        let changed = match self.selected {
            Some(shown) => shown != index,
            None => true,
        };
        self.selected = Some(index);
        if changed {
            Some(self.voice_ids[index].clone())
        } else {
            None
        }
    }
}

/// The first place of `id` in `ids`; the first place of all where it is not there.
fn place_or_first(ids: &Vec<String>, id: &str) -> (r: usize)
    ensures
        shows_current(texts(ids@), Some(id@), r as int),
{
    let mut i: usize = 0;
    while i < ids.len()
        invariant
            i <= ids.len(),
            forall|j: int| 0 <= j < i ==> #[trigger] texts(ids@)[j] != id@,
        decreases ids.len() - i,
    {
        assert(texts(ids@)[i as int] == ids@[i as int]@);
        if same_text(ids[i].as_str(), id) {
            assert(texts(ids@).contains(id@));
            return i;
        }
        i = i + 1;
    }
    0
}

/// The tab shows the voice that is spoken with: whatever place is selected for a
/// current voice of the list stands for that voice.
pub proof fn law_the_current_voice_is_selected(
    ids: Seq<Seq<char>>,
    current: Seq<char>,
    place: int,
)
    requires
        ids.contains(current),
        shows_current(ids, Some(current), place),
    ensures
        0 <= place < ids.len(),
        ids[place] == current,
{
}

/// Applying the daemon's state is never echoed back as a write: neither the flag nor
/// the selection that the tab holds asks for one.
pub proof fn law_applied_state_is_not_written(tab: VoiceTab)
    ensures
        tab.enabled_write(tab.enabled) is None,
        tab.selected is Some ==> tab.voice_write(tab.selected->0 as int) is None,
{
}

/// The list offers every voice by its own id, by its name or else its id, and with its
/// language where it has one; the voice in use is selected, or else the first.
pub proof fn law_every_voice_is_offered(
    tab: &mut VoiceTab,
    voices: Vec<VoiceInfo>,
    current: Option<&str>,
    i: int,
)
    requires
        call_ensures(VoiceTab::set_voices, (tab, &voices, current), ()),
        0 <= i < voices@.len(),
    ensures
        final(tab).voice_ids@.len() == voices@.len() && final(tab).labels@.len() == voices@.len(),
        final(tab).voice_ids@[i]@ == voices@[i].id@,
        ({
            let name = if trimmed(voices@[i].display_name@).len() > 0 {
                voices@[i].display_name@
            } else {
                voices@[i].id@
            };
            &&& trimmed(voices@[i].language@).len() == 0 ==> final(tab).labels@[i]@ == name
            &&& trimmed(voices@[i].language@).len() > 0 ==> final(tab).labels@[i]@ == name + " ("@
                + voices@[i].language@ + ")"@
        }),
        final(tab).voices_sensitive,
        final(tab).selected is Some && final(tab).selected->0 < voices@.len(),
        current is Some && voices@[i].id@ == current->0@ ==> final(tab).voice_ids@[final(tab).selected->0 as int]@ == current->0@,
        current is None ==> final(tab).selected == Some(0usize),
        final(tab).status@.len() == 0,
        final(tab).enabled == old(tab).enabled,
{
    reveal_strlit("");
    assert(voices@[i] == voices@[i]);
    let ids = texts(final(tab).voice_ids@);
    assert(ids[i] == voices@[i].id@);
    if current is Some && voices@[i].id@ == current->0@ {
        assert(ids.contains(current->0@));
        assert(ids[final(tab).selected->0 as int] == final(tab).voice_ids@[final(tab).selected->0 as int]@);
    }
    if current is Some && ids.contains(current->0@) {
        assert(shows_current(ids, Some(current->0@), final(tab).selected->0 as int));
    }
}

/// Without any voice there is nothing to choose, and the tab says so.
pub proof fn law_no_voices_is_said(
    tab: &mut VoiceTab,
    voices: Vec<VoiceInfo>,
    current: Option<&str>,
)
    requires
        call_ensures(VoiceTab::set_voices, (tab, &voices, current), ()),
        voices@.len() == 0,
    ensures
        final(tab).voice_ids@.len() == 0,
        !final(tab).voices_sensitive,
        final(tab).selected is None,
        final(tab).status@
            == "No voices installed. Run the voice daemon's setup to provision a voice model."@,
{
}

/// A voice's label by itself.
pub proof fn law_a_voice_is_labelled(v: VoiceInfo, r: String)
    requires
        call_ensures(display_label, (&v,), r),
    ensures
        ({
            let name = if trimmed(v.display_name@).len() > 0 {
                v.display_name@
            } else {
                v.id@
            };
            &&& trimmed(v.language@).len() == 0 ==> r@ == name
            &&& trimmed(v.language@).len() > 0 ==> r@ == name + " ("@ + v.language@ + ")"@
        }),
{
}

/// What the user changes is sent once: the wake word as it now stands, and the voice
/// that was picked; what the daemon reported is not sent back.
pub proof fn law_the_users_voice_is_sent(
    tab: &mut VoiceTab,
    picked: &mut VoiceTab,
    set: &mut VoiceTab,
    echo: &mut VoiceTab,
    on: bool,
    index: usize,
    wake: Option<bool>,
    voice: Option<String>,
    echoed: Option<bool>,
)
    requires
        call_ensures(VoiceTab::enabled_toggled, (tab, on), wake),
        call_ensures(VoiceTab::voice_selected, (picked, index), voice),
        call_ensures(VoiceTab::set_enabled_state, (set, on), ()),
        *old(echo) == *final(set),
        call_ensures(VoiceTab::enabled_toggled, (echo, on), echoed),
    ensures
        wake is Some <==> on != old(tab).enabled,
        wake is Some ==> wake->0 == on,
        final(tab).enabled == on,
        voice is Some <==> index < old(picked).voice_ids@.len() && old(picked).selected
            != Some(index),
        voice is Some ==> voice->0@ == old(picked).voice_ids@[index as int]@,
        voice is Some ==> final(picked).selected == Some(index),
        echoed is None,
        final(picked).voice_ids@ == old(picked).voice_ids@,
{
}

/// A voice daemon that is gone switches everything off and says so; one that is back
/// switches the controls on again, and neither touches the list.
pub proof fn law_the_controls_follow_the_daemon(gone: &mut VoiceTab, back: &mut VoiceTab)
    requires
        call_ensures(VoiceTab::set_unavailable, (gone,), ()),
        *old(back) == *final(gone),
        call_ensures(VoiceTab::set_available, (back,), ()),
    ensures
        !final(gone).enabled && !final(gone).enable_sensitive && !final(gone).voices_sensitive,
        final(gone).status@
            == "Voice service not available. Start the voice daemon (org.desktopAssistant.Voice) to enable these controls."@,
        final(back).enable_sensitive && final(back).voices_sensitive,
        final(back).status@.len() == 0,
        final(back).voice_ids@ == old(gone).voice_ids@,
        final(back).labels@ == old(gone).labels@,
        final(back).selected == old(gone).selected,
{
    reveal_strlit("");
}

} // verus!
