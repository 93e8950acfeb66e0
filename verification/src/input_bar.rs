//! The input bar: a text entry, and under it the voice controls of the open
//! conversation with a push-to-talk button.

use crate::api::{AdeleOutput, VoiceState};
use vstd::prelude::*;

verus! {

/// Option labels for `You:` (voice input). The position is the source of truth the
/// callbacks decode.
pub const VOICE_IN_OPTIONS: [&'static str; 2] = ["Disabled", "Enabled"];

/// Option labels for `Adele:` (voice output), in the order of the levels.
pub const ADELE_OUTPUT_OPTIONS: [&'static str; 3] = ["Disabled", "On Demand", "Always"];

/// Icon fallback chain for the resting (idle) microphone; the fallbacks are there
/// so a theme missing the muted glyph still renders a microphone.
pub const MIC_IDLE_ICONS: [&'static str; 4] = [
    "audio-input-microphone-muted-symbolic",
    "audio-input-microphone-muted",
    "microphone-sensitivity-muted-symbolic",
    "audio-input-microphone-symbolic",
];

/// Icons shown while listening: an open microphone.
pub const MIC_LISTENING_ICONS: [&'static str; 3] = [
    "audio-input-microphone-symbolic",
    "audio-input-microphone",
    "microphone-sensitivity-high-symbolic",
];

/// Icons shown while processing: a refresh glyph.
pub const MIC_PROCESSING_ICONS: [&'static str; 2] = [
    "view-refresh-symbolic",
    "content-loading-symbolic",
];

/// Icons shown while speaking: a speaker.
pub const MIC_SPEAKING_ICONS: [&'static str; 2] = [
    "audio-volume-high-symbolic",
    "audio-volume-high",
];

/// The `You:` index for a voice-input state: disabled 0, enabled 1.
pub fn voice_in_index(enabled: bool) -> (r: u32)
    ensures
        r == (if enabled {
            1u32
        } else {
            0u32
        }),
{
    if enabled {
        1
    } else {
        0
    }
}

/// Decode the `You:` index. Any unexpected index falls back to disabled, the safe
/// default (no audio capture offered).
pub fn voice_in_from_index(index: u32) -> (r: bool)
    ensures
        r == (index == 1),
{
    index == 1
}

/// The level at an index of the `Adele:` dropdown.
pub open spec fn output_at(index: int) -> AdeleOutput {
    if index == 1 {
        AdeleOutput::OnDemand
    } else if index == 2 {
        AdeleOutput::Always
    } else {
        AdeleOutput::Disabled
    }
}

/// The `Adele:` index for an output level.
pub fn adele_output_index(level: AdeleOutput) -> (r: u32)
    ensures
        r == (match level {
            AdeleOutput::Disabled => 0u32,
            AdeleOutput::OnDemand => 1u32,
            AdeleOutput::Always => 2u32,
        }),
{
    match level {
        AdeleOutput::Disabled => 0,
        AdeleOutput::OnDemand => 1,
        AdeleOutput::Always => 2,
    }
}

/// Decode the `Adele:` index. An unexpected index falls back to disabled (the safe
/// default: never speaks).
pub fn adele_output_from_index(index: u32) -> (r: AdeleOutput)
    ensures
        r == output_at(index as int),
{
    match index {
        1 => AdeleOutput::OnDemand,
        2 => AdeleOutput::Always,
        _ => AdeleOutput::Disabled,
    }
}

/// The icon fallback chain for a pipeline state.
pub open spec fn icons_of(state: VoiceState) -> Seq<&'static str> {
    match state {
        VoiceState::Idle => MIC_IDLE_ICONS@,
        VoiceState::Listening => MIC_LISTENING_ICONS@,
        VoiceState::Processing => MIC_PROCESSING_ICONS@,
        VoiceState::Speaking => MIC_SPEAKING_ICONS@,
    }
}

/// The icon fallback chain for a pipeline state.
pub fn mic_icons_for(state: VoiceState) -> (r: Vec<&'static str>)
    ensures
        r@ == icons_of(state),
        r@.len() > 0,
{
    match state {
        VoiceState::Idle => {
            let r = vec![
                MIC_IDLE_ICONS[0],
                MIC_IDLE_ICONS[1],
                MIC_IDLE_ICONS[2],
                MIC_IDLE_ICONS[3],
            ];
            assert(r@ =~= MIC_IDLE_ICONS@);
            r
        },
        VoiceState::Listening => {
            let r = vec![MIC_LISTENING_ICONS[0], MIC_LISTENING_ICONS[1], MIC_LISTENING_ICONS[2]];
            assert(r@ =~= MIC_LISTENING_ICONS@);
            r
        },
        VoiceState::Processing => {
            let r = vec![MIC_PROCESSING_ICONS[0], MIC_PROCESSING_ICONS[1]];
            assert(r@ =~= MIC_PROCESSING_ICONS@);
            r
        },
        VoiceState::Speaking => {
            let r = vec![MIC_SPEAKING_ICONS[0], MIC_SPEAKING_ICONS[1]];
            assert(r@ =~= MIC_SPEAKING_ICONS@);
            r
        },
    }
}

/// The push-to-talk button's tooltip.
pub open spec fn tooltip_of(state: VoiceState) -> Seq<char> {
    match state {
        VoiceState::Speaking => "Stop speaking"@,
        VoiceState::Idle => "Push to talk"@,
        VoiceState::Listening => "Push to talk — Listening…"@,
        VoiceState::Processing => "Push to talk — Processing…"@,
    }
}

/// The push-to-talk button's tooltip for a state: "Stop speaking" while speaking
/// (the click barges in), otherwise "Push to talk" with the phase in progress
/// appended.
pub fn mic_tooltip_for(state: VoiceState) -> (r: String)
    ensures
        r@ == tooltip_of(state),
{
    match state {
        VoiceState::Speaking => "Stop speaking".to_owned(),
        VoiceState::Idle => "Push to talk".to_owned(),
        VoiceState::Listening => "Push to talk — Listening…".to_owned(),
        VoiceState::Processing => "Push to talk — Processing…".to_owned(),
    }
}

/// What a click on the push-to-talk button does.
#[derive(Debug, Clone, Copy, PartialEq, Eq, Structural)]
pub enum MicClick {
    /// Barge in: stop the playback.
    StopSpeaking,
    /// Start a push-to-talk turn.
    StartTurn,
}

/// The voice controls of the open conversation. A dropdown that reports the position
/// it was given by this bar reports no change, so showing another conversation's
/// state is never echoed back as a write to it.
#[derive(Debug, Clone, Copy, PartialEq, Eq, Structural)]
pub struct InputBar {
    /// `You:`, whether voice input is enabled.
    pub voice_in: bool,
    /// `Adele:`, when replies are read aloud.
    pub adele_output: AdeleOutput,
    /// Whether voice capture is available on this machine.
    pub voice_available: bool,
    /// The last pipeline state reflected on the push-to-talk button.
    pub state: VoiceState,
}

impl InputBar {
    /// The push-to-talk button is shown: voice input is enabled and there is
    /// something to capture with, so that the user is never offered a dead control.
    pub open spec fn shows_mic(self) -> bool {
        self.voice_in && self.voice_available
    }

    /// A bar at rest with voice off.
    pub fn new() -> (r: Self)
        ensures
            !r.voice_in,
            r.adele_output == AdeleOutput::Disabled,
            !r.voice_available,
            r.state == VoiceState::Idle,
            !r.shows_mic(),
    {
        InputBar {
            voice_in: false,
            adele_output: AdeleOutput::Disabled,
            voice_available: false,
            state: VoiceState::Idle,
        }
    }

    /// Whether the push-to-talk button is shown.
    pub fn mic_visible(&self) -> (r: bool)
        ensures
            r == self.shows_mic(),
    {
        self.voice_in && self.voice_available
    }

    /// The voice-input state that a report of the `You:` position asks to be written.
    pub open spec fn voice_in_write(self, index: int) -> Option<bool> {
        if (index == 1) != self.voice_in {
            Some(index == 1)
        } else {
            None
        }
    }

    /// The output level that a report of the `Adele:` position asks to be written.
    pub open spec fn output_write(self, index: int) -> Option<AdeleOutput> {
        if output_at(index) != self.adele_output {
            Some(output_at(index))
        } else {
            None
        }
    }

    /// The `You:` dropdown reports its position. Returns the voice-input state to
    /// write, where the user changed it.
    pub fn voice_in_selected(&mut self, index: u32) -> (r: Option<bool>)
        ensures
            r == old(self).voice_in_write(index as int),
            *final(self) == (InputBar { voice_in: index == 1, ..*old(self) }),
    {
        let enabled = voice_in_from_index(index);
        let changed = enabled != self.voice_in;
        self.voice_in = enabled;
        if changed {
            Some(enabled)
        } else {
            None
        }
    }

    /// The `Adele:` dropdown reports its position. Returns the level to write, where
    /// the user changed it.
    pub fn adele_output_selected(&mut self, index: u32) -> (r: Option<AdeleOutput>)
        ensures
            r == old(self).output_write(index as int),
            *final(self) == (InputBar { adele_output: output_at(index as int), ..*old(self) }),
    {
        let level = adele_output_from_index(index);
        let changed = level != self.adele_output;
        self.adele_output = level;
        if changed {
            Some(level)
        } else {
            None
        }
    }

    /// Reflect the active conversation's voice-input state, with nothing to write
    /// back. Returns the position of the `You:` dropdown.
    pub fn set_voice_in_active(&mut self, enabled: bool) -> (r: u32)
        ensures
            *final(self) == (InputBar { voice_in: enabled, ..*old(self) }),
            (r == 1) == enabled,
            r <= 1,
    {
        self.voice_in = enabled;
        voice_in_index(enabled)
    }

    /// Reflect the active conversation's output level, with nothing to write back.
    /// Returns the position of the `Adele:` dropdown.
    pub fn set_adele_output_active(&mut self, level: AdeleOutput) -> (r: u32)
        ensures
            *final(self) == (InputBar { adele_output: level, ..*old(self) }),
            output_at(r as int) == level,
            r <= 2,
    {
        self.adele_output = level;
        adele_output_index(level)
    }

    /// Record whether voice capture is available on this machine. Without it the
    /// push-to-talk button stays hidden even while `You:` is enabled; the output
    /// level is independent and unaffected.
    pub fn set_voice_available(&mut self, available: bool)
        ensures
            *final(self) == (InputBar { voice_available: available, ..*old(self) }),
    {
        self.voice_available = available;
    }

    /// Reflect the voice pipeline state. Returns whether the button is highlighted:
    /// while a turn is in flight.
    pub fn reflect_voice_state(&mut self, state: VoiceState) -> (r: bool)
        ensures
            *final(self) == (InputBar { state, ..*old(self) }),
            r == (state != VoiceState::Idle),
    {
        self.state = state;
        state != VoiceState::Idle
    }

    /// The last pipeline state reflected on the push-to-talk button.
    pub fn current_state(&self) -> (r: VoiceState)
        ensures
            r == self.state,
    {
        self.state
    }

    /// What a click on the push-to-talk button does now.
    pub fn click(&self) -> (r: MicClick)
        ensures
            r == (if self.state == VoiceState::Speaking {
                MicClick::StopSpeaking
            } else {
                MicClick::StartTurn
            }),
    {
        match self.state {
            VoiceState::Speaking => MicClick::StopSpeaking,
            _ => MicClick::StartTurn,
        }
    }
}

/// The tooltip offers to stop exactly where the click does.
pub proof fn law_the_tooltip_tells_what_the_click_does(bar: InputBar)
    ensures
        tooltip_of(bar.state) == "Stop speaking"@ <==> bar.state == VoiceState::Speaking,
{
    reveal_strlit("Stop speaking");
    reveal_strlit("Push to talk");
    reveal_strlit("Push to talk — Listening…");
    reveal_strlit("Push to talk — Processing…");
    assert("Stop speaking"@[0] == 'S');
    assert("Push to talk"@[0] == 'P');
    assert("Push to talk — Listening…"@[0] == 'P');
    assert("Push to talk — Processing…"@[0] == 'P');
}

/// Showing a conversation's state is never echoed back as a write: the positions that
/// stand for what the bar holds ask for none.
pub proof fn law_shown_state_is_not_written(bar: InputBar, index: int)
    ensures
        (index == 1) == bar.voice_in ==> bar.voice_in_write(index) is None,
        output_at(index) == bar.adele_output ==> bar.output_write(index) is None,
{
}

/// Every output level has its own position, and an index outside the list is the
/// safe default.
pub proof fn law_output_positions(index: int)
    ensures
        index < 0 || index > 2 ==> output_at(index) == AdeleOutput::Disabled,
        output_at(0) == AdeleOutput::Disabled,
        output_at(1) == AdeleOutput::OnDemand,
        output_at(2) == AdeleOutput::Always,
{
}

/// The button for speaking shows exactly where voice input is on and there is something
/// to capture with, whichever came first.
pub proof fn law_the_button_shows_where_it_works(
    bar: &mut InputBar,
    then: &mut InputBar,
    enabled: bool,
    available: bool,
    position: u32,
    shown: bool,
)
    requires
        call_ensures(InputBar::set_voice_in_active, (bar, enabled), position),
        *old(then) == *final(bar),
        call_ensures(InputBar::set_voice_available, (then, available), ()),
        call_ensures(InputBar::mic_visible, (final(then),), shown),
    ensures
        shown <==> enabled && available,
        position == (if enabled {
            1u32
        } else {
            0u32
        }),
        final(then).adele_output == old(bar).adele_output,
        final(then).state == old(bar).state,
{
}

/// What the user chooses for their own voice is sent once, and what a conversation
/// brings along is not.
pub proof fn law_the_users_choice_is_sent(
    bar: &mut InputBar,
    other: &mut InputBar,
    index: u32,
    voice: Option<bool>,
    output: Option<AdeleOutput>,
)
    requires
        call_ensures(InputBar::voice_in_selected, (bar, index), voice),
        call_ensures(InputBar::adele_output_selected, (other, index), output),
    ensures
        final(bar).voice_in == (index == 1),
        voice is Some <==> final(bar).voice_in != old(bar).voice_in,
        voice is Some ==> voice->0 == final(bar).voice_in,
        index == 0 ==> final(other).adele_output is Disabled,
        index == 1 ==> final(other).adele_output is OnDemand,
        index == 2 ==> final(other).adele_output is Always,
        index > 2 ==> final(other).adele_output is Disabled,
        output is Some <==> final(other).adele_output != old(other).adele_output,
        output is Some ==> output->0 == final(other).adele_output,
        final(bar).voice_available == old(bar).voice_available,
        final(bar).state == old(bar).state,
{
}

/// Showing a conversation's state puts the dropdowns on it, and their report of it is
/// not sent back.
pub proof fn law_a_conversations_state_is_not_sent_back(
    bar: &mut InputBar,
    then: &mut InputBar,
    loud: &mut InputBar,
    after: &mut InputBar,
    enabled: bool,
    level: AdeleOutput,
    at: u32,
    level_at: u32,
    voice: Option<bool>,
    output: Option<AdeleOutput>,
)
    requires
        call_ensures(InputBar::set_voice_in_active, (bar, enabled), at),
        *old(then) == *final(bar),
        call_ensures(InputBar::voice_in_selected, (then, at), voice),
        call_ensures(InputBar::set_adele_output_active, (loud, level), level_at),
        *old(after) == *final(loud),
        call_ensures(InputBar::adele_output_selected, (after, level_at), output),
    ensures
        voice is None,
        final(then).voice_in == enabled,
        output is None,
        final(after).adele_output == level,
{
}

/// The positions of both dropdowns read back.
pub proof fn law_voice_positions_read_back(
    enabled: bool,
    at: u32,
    back: bool,
    level: AdeleOutput,
    level_at: u32,
    level_back: AdeleOutput,
)
    requires
        call_ensures(voice_in_index, (enabled,), at),
        call_ensures(voice_in_from_index, (at,), back),
        call_ensures(adele_output_index, (level,), level_at),
        call_ensures(adele_output_from_index, (level_at,), level_back),
    ensures
        back == enabled,
        level_back == level,
        at == 1 <==> enabled,
        at == 0 <==> !enabled,
        level_at == 0 <==> level is Disabled,
        level_at == 1 <==> level is OnDemand,
        level_at == 2 <==> level is Always,
{
}

/// A click while Adele speaks stops it, and any other click starts a turn; the tooltip
/// says which, and the button is marked while anything is going on.
pub proof fn law_a_click_while_speaking_stops(
    bar: &mut InputBar,
    state: VoiceState,
    active: bool,
    click: MicClick,
    now: VoiceState,
    tooltip: String,
)
    requires
        call_ensures(InputBar::reflect_voice_state, (bar, state), active),
        call_ensures(InputBar::click, (final(bar),), click),
        call_ensures(InputBar::current_state, (final(bar),), now),
        call_ensures(mic_tooltip_for, (state,), tooltip),
    ensures
        now == state,
        click is StopSpeaking <==> state is Speaking,
        click is StopSpeaking <==> tooltip@ == "Stop speaking"@,
        active <==> !(state is Idle),
        state is Idle ==> tooltip@ == "Push to talk"@,
        state is Listening ==> tooltip@ == "Push to talk — Listening…"@,
        state is Processing ==> tooltip@ == "Push to talk — Processing…"@,
        final(bar).voice_in == old(bar).voice_in,
        final(bar).adele_output == old(bar).adele_output,
{
    law_the_tooltip_tells_what_the_click_does(*final(bar));
}

/// Each state of the voice has icons of its own, the plainest name last.
pub proof fn law_each_state_has_its_icons(state: VoiceState, r: Vec<&'static str>)
    requires
        call_ensures(mic_icons_for, (state,), r),
    ensures
        state is Idle ==> r@.len() == 4 && r@[0]@ == "audio-input-microphone-muted-symbolic"@
            && r@[1]@ == "audio-input-microphone-muted"@ && r@[2]@
            == "microphone-sensitivity-muted-symbolic"@ && r@[3]@
            == "audio-input-microphone-symbolic"@,
        state is Listening ==> r@.len() == 3 && r@[0]@ == "audio-input-microphone-symbolic"@
            && r@[1]@ == "audio-input-microphone"@ && r@[2]@
            == "microphone-sensitivity-high-symbolic"@,
        state is Processing ==> r@.len() == 2 && r@[0]@ == "view-refresh-symbolic"@ && r@[1]@
            == "content-loading-symbolic"@,
        state is Speaking ==> r@.len() == 2 && r@[0]@ == "audio-volume-high-symbolic"@ && r@[1]@
            == "audio-volume-high"@,
{
}

/// A bar starts silent: no voice in, none out, and no button.
pub proof fn law_a_bar_starts_silent(r: InputBar, shown: bool, state: VoiceState)
    requires
        call_ensures(InputBar::new, (), r),
        call_ensures(InputBar::mic_visible, (&r,), shown),
        call_ensures(InputBar::current_state, (&r,), state),
    ensures
        !r.voice_in && r.adele_output is Disabled && !shown && state is Idle,
{
}

} // verus!
