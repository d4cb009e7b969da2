//! The tool as a whole: which screen is up, what the text box and the
//! glyph hold, and what one frame makes of them.

use vstd::prelude::*;
use crate::animation::{
    advance,
    advanced,
    animation_valid,
    AnimationStep,
    PROGRESS_FULL,
    SECOND,
};
use crate::animation::lemma_advanced_stays_valid;
use crate::editor::{lemma_after_input_keeps_wf, opt_view, IntentionText, TextState};
use crate::glyph::{generate, is_glyph_of, labels_of, lemma_glyph_of_phrase, GlyphPoint};
use crate::input::FrameInput;
use crate::normalize::digits;

verus! {

/// How long the notice that a glyph was saved stays up, in microseconds.
pub const SAVE_NOTICE: u64 = SECOND;

/// The screen that is up.
#[derive(Clone, Copy, Debug, PartialEq, Eq)]
pub enum Screen {
    /// The title, waiting for the activation key.
    Start,
    /// The text box.
    Input,
    /// The finished glyph.
    Display,
    /// The glyph while it is drawn stroke by stroke: `progress` millionths
    /// of segment `segment` are drawn, and all segments before it.
    Animating { progress: u64, segment: usize },
    /// The glyph with the notice that it was saved.
    Saving,
}

/// The tool as mathematical values.
pub struct AppState {
    pub screen: Screen,
    pub text: TextState,
    pub points: Seq<GlyphPoint>,
    /// Microseconds since the last reset, for the blinking cursor.
    pub blink_timer: u64,
    /// Microseconds for which the saved notice has been up.
    pub save_timer: u64,
}

/// What one frame asks of the world outside.
pub struct FrameEffects {
    /// Text that a copy hands to the clipboard.
    pub copied: Option<String>,
    /// Text that a cut hands to the clipboard.
    pub cut: Option<String>,
    /// Whether the glyph is to be written to a file.
    pub export: bool,
}

/// The sum of two times, held at the largest time that can be counted.
pub open spec fn time_sum(a: u64, b: u64) -> u64 {
    if a + b > u64::MAX {
        u64::MAX
    } else {
        (a + b) as u64
    }
}

impl AppState {
    /// What holds of the tool at every moment: the text box is well
    /// formed, every label is a digit, an animation stands inside the
    /// glyph, and the save timer runs only while the notice is up.
    pub open spec fn wf(self) -> bool {
        &&& self.text.wf()
        &&& self.points.len() <= usize::MAX
        &&& forall|i: int| 0 <= i < self.points.len() ==> (#[trigger] self.points[i]).label <= 9
        &&& (self.screen matches Screen::Animating { progress, segment } ==> animation_valid(
            progress,
            segment,
            self.points.len() as int,
        ))
        &&& if self.screen is Saving {
            self.save_timer < SAVE_NOTICE
        } else {
            self.save_timer == 0
        }
    }

    /// The tool as it starts: the title screen, nothing typed, no glyph.
    pub open spec fn initial() -> AppState {
        AppState {
            screen: Screen::Start,
            text: TextState::empty(),
            points: Seq::empty(),
            blink_timer: 0,
            save_timer: 0,
        }
    }

    /// The state after the timers have taken in `elapsed` microseconds:
    /// the blink timer grows, and the save notice, where it is up, comes
    /// down once it has been up for its time.
    pub open spec fn ticked(self, elapsed: u64) -> AppState {
        let blink_timer = time_sum(self.blink_timer, elapsed);
        if self.screen is Saving {
            if self.save_timer + elapsed >= SAVE_NOTICE {
                AppState { screen: Screen::Display, blink_timer, save_timer: 0, ..self }
            } else {
                AppState { blink_timer, save_timer: (self.save_timer + elapsed) as u64, ..self }
            }
        } else {
            AppState { blink_timer, ..self }
        }
    }

    /// Back to an empty text box: text, glyph and timers are cleared.
    pub open spec fn cleared(self) -> AppState {
        AppState {
            screen: Screen::Input,
            text: TextState::empty(),
            points: Seq::empty(),
            blink_timer: 0,
            save_timer: 0,
        }
    }

    /// The state once `made` has come out of a generation: a glyph
    /// replaces the one before and the display comes up; without one
    /// nothing changes.
    pub open spec fn with_glyph(self, made: Option<Seq<GlyphPoint>>) -> AppState {
        match made {
            Some(points) => AppState { screen: Screen::Display, points, save_timer: 0, ..self },
            None => self,
        }
    }

    /// What the keys make of the display screen: the animate key starts
    /// the animation where the glyph has a segment to draw; else the
    /// reset key clears; else the save key brings the notice up.
    pub open spec fn display_keys(self, input: FrameInput) -> AppState {
        if input.space && self.points.len() > 1 {
            AppState { screen: Screen::Animating { progress: 0, segment: 0 }, ..self }
        } else if input.r {
            self.cleared()
        } else if input.s {
            AppState { screen: Screen::Saving, save_timer: 0, ..self }
        } else {
            self
        }
    }

    /// The animation screen after `elapsed` microseconds.
    pub open spec fn animated(self, elapsed: u64) -> AppState {
        match self.screen {
            Screen::Animating { progress, segment } => match advanced(
                progress,
                segment,
                elapsed,
                self.points.len() as int,
            ) {
                AnimationStep::Running { progress: p, segment: s } => AppState {
                    screen: Screen::Animating { progress: p, segment: s },
                    ..self
                },
                AnimationStep::Finished => AppState { screen: Screen::Display, ..self },
            },
            _ => self,
        }
    }

    /// Whether `next` can follow this state after a frame of `elapsed`
    /// microseconds with the given input. The timers go first; then the
    /// screen that is up serves the input. But for the glyph that a
    /// generation makes, in which chance has a part, the next state is
    /// fixed.
    pub open spec fn steps_to(self, next: AppState, elapsed: u64, input: FrameInput) -> bool {
        let t = self.ticked(elapsed);
        match t.screen {
            Screen::Start => next == if input.space {
                AppState { screen: Screen::Input, ..t }
            } else {
                t
            },
            Screen::Input => {
                let edited = AppState { text: t.text.after_input(input), ..t };
                if input.enter && digits(edited.text.text).len() > 0 {
                    &&& next == edited.with_glyph(Some(next.points))
                    &&& is_glyph_of(next.points, edited.text.text)
                } else {
                    next == edited
                }
            },
            Screen::Display => next == t.display_keys(input),
            Screen::Animating { .. } => next == t.animated(elapsed),
            Screen::Saving => next == t,
        }
    }

    /// Whether a frame with the given input asks for the glyph to be
    /// written to a file: the save key on the display screen, unless the
    /// animate or the reset key took the frame.
    pub open spec fn exports(self, elapsed: u64, input: FrameInput) -> bool {
        let t = self.ticked(elapsed);
        t.screen is Display && !(input.space && t.points.len() > 1) && !input.r && input.s
    }

    /// What a frame with the given input hands to the clipboard as copied.
    pub open spec fn copied_by(self, elapsed: u64, input: FrameInput) -> Option<Seq<char>> {
        let t = self.ticked(elapsed);
        if t.screen is Input {
            t.text.copied_by(input)
        } else {
            None
        }
    }

    /// What a frame with the given input hands to the clipboard as cut.
    pub open spec fn cut_by(self, elapsed: u64, input: FrameInput) -> Option<Seq<char>> {
        let t = self.ticked(elapsed);
        if t.screen is Input {
            t.text.cut_by(input)
        } else {
            None
        }
    }
}

/// The tool: the screen that is up, the text box, the glyph and the two
/// timers.
pub struct SigilApp {
    screen: Screen,
    editor: IntentionText,
    points: Vec<GlyphPoint>,
    blink_timer: u64,
    save_timer: u64,
}

impl View for SigilApp {
    type V = AppState;

    closed spec fn view(&self) -> AppState {
        AppState {
            screen: self.screen,
            text: self.editor@,
            points: self.points@,
            blink_timer: self.blink_timer,
            save_timer: self.save_timer,
        }
    }
}

impl SigilApp {
    /// The tool as it starts.
    pub fn new() -> (app: SigilApp)
        ensures
            app@ == AppState::initial(),
            app@.wf(),
    {
        SigilApp {
            screen: Screen::Start,
            editor: IntentionText::new(),
            points: Vec::new(),
            blink_timer: 0,
            save_timer: 0,
        }
    }

    /// The screen that is up.
    pub fn screen(&self) -> (screen: Screen)
        ensures
            screen == self@.screen,
    {
        self.screen
    }

    /// The text box.
    pub fn intention(&self) -> (text: &IntentionText)
        ensures
            text@ == self@.text,
    {
        &self.editor
    }

    /// The points of the glyph, in the order in which they are joined.
    pub fn points(&self) -> (points: &Vec<GlyphPoint>)
        ensures
            points@ == self@.points,
    {
        &self.points
    }

    /// Microseconds since the last reset.
    pub fn blink_timer(&self) -> (t: u64)
        ensures
            t == self@.blink_timer,
    {
        self.blink_timer
    }

    /// Microseconds for which the saved notice has been up.
    pub fn save_timer(&self) -> (t: u64)
        ensures
            t == self@.save_timer,
    {
        self.save_timer
    }

    /// Lets the timers take in `elapsed` microseconds.
    pub fn tick(&mut self, elapsed: u64)
        requires
            old(self)@.wf(),
        ensures
            final(self)@ == old(self)@.ticked(elapsed),
            final(self)@.wf(),
    {
        self.blink_timer = self.blink_timer.saturating_add(elapsed);
        if let Screen::Saving = self.screen {
            if elapsed >= SAVE_NOTICE || self.save_timer + elapsed >= SAVE_NOTICE {
                self.screen = Screen::Display;
                self.save_timer = 0;
            } else {
                self.save_timer = self.save_timer + elapsed;
            }
        }
    }

    /// Back to an empty text box.
    pub fn reset(&mut self)
        requires
            old(self)@.wf(),
        ensures
            final(self)@ == old(self)@.cleared(),
            final(self)@.wf(),
    {
        self.screen = Screen::Input;
        self.editor.clear();
        self.points = Vec::new();
        self.blink_timer = 0;
        self.save_timer = 0;
    }

    /// Takes what a generation made: a glyph replaces the one before and
    /// the display comes up; without one nothing changes.
    pub fn accept_glyph(&mut self, made: Option<Vec<GlyphPoint>>)
        requires
            old(self)@.wf(),
            made matches Some(points) ==> forall|i: int|
                0 <= i < points.len() ==> (#[trigger] points[i]).label <= 9,
        ensures
            final(self)@ == old(self)@.with_glyph(
                match made {
                    Some(points) => Some(points@),
                    None => None,
                },
            ),
            final(self)@.wf(),
    {
        match made {
            Some(points) => {
                assert(points@.len() == points.len());
                self.points = points;
                self.screen = Screen::Display;
                self.save_timer = 0;
            },
            None => {},
        }
    }

    /// Finalizes the text: makes the glyph of it, where it has digits,
    /// and brings the display up.
    pub fn generate_sigil(&mut self)
        requires
            old(self)@.wf(),
        ensures
            final(self)@.wf(),
            final(self)@ == old(self)@.with_glyph(
                if digits(old(self)@.text.text).len() > 0 {
                    Some(final(self)@.points)
                } else {
                    None
                },
            ),
            digits(old(self)@.text.text).len() > 0 ==> is_glyph_of(
                final(self)@.points,
                old(self)@.text.text,
            ),
    {
        let text = self.editor.text();
        let made = generate(text.as_str());
        self.accept_glyph(made);
    }

    /// Serves one frame: `elapsed` microseconds have passed and `input`
    /// has come in.
    pub fn update(&mut self, elapsed: u64, input: &FrameInput) -> (effects: FrameEffects)
        requires
            old(self)@.wf(),
        ensures
            final(self)@.wf(),
            old(self)@.steps_to(final(self)@, elapsed, *input),
            effects.export == old(self)@.exports(elapsed, *input),
            opt_view(effects.copied) == old(self)@.copied_by(elapsed, *input),
            opt_view(effects.cut) == old(self)@.cut_by(elapsed, *input),
    {
        self.tick(elapsed);
        let mut effects = FrameEffects { copied: None, cut: None, export: false };
        match self.screen {
            Screen::Start => {
                if input.space {
                    self.screen = Screen::Input;
                }
            },
            Screen::Input => {
                let handed = self.editor.handle_text_input(input);
                effects.copied = handed.copied;
                effects.cut = handed.cut;
                if input.enter {
                    self.generate_sigil();
                }
            },
            Screen::Display => {
                if input.space && self.points.len() > 1 {
                    self.screen = Screen::Animating { progress: 0, segment: 0 };
                } else if input.r {
                    self.reset();
                } else if input.s {
                    effects.export = true;
                    self.screen = Screen::Saving;
                    self.save_timer = 0;
                }
            },
            Screen::Animating { progress, segment } => {
                match advance(progress, segment, elapsed, self.points.len()) {
                    AnimationStep::Running { progress: p, segment: s } => {
                        self.screen = Screen::Animating { progress: p, segment: s };
                    },
                    AnimationStep::Finished => {
                        self.screen = Screen::Display;
                    },
                }
            },
            Screen::Saving => {},
        }
        effects
    }
}

/// Whatever a frame brings, the tool stays well formed: the cursor and
/// the selection stay inside the text, every label stays a digit, and an
/// animation stays inside the glyph.
pub proof fn lemma_step_keeps_wf(s: AppState, next: AppState, elapsed: u64, input: FrameInput)
    requires
        s.wf(),
        s.steps_to(next, elapsed, input),
    ensures
        next.wf(),
{
    let t = s.ticked(elapsed);
    match t.screen {
        Screen::Input => {
            lemma_after_input_keeps_wf(t.text, input);
            if input.enter && digits(t.text.after_input(input).text).len() > 0 {
                lemma_glyph_of_phrase(next.points, t.text.after_input(input).text);
            }
        },
        Screen::Animating { progress, segment } => {
            lemma_advanced_stays_valid(progress, segment, elapsed, t.points.len() as int);
        },
        _ => {},
    }
}

/// On the display screen a glyph of a single point cannot be animated:
/// the animate key leaves the screen as it is.
pub proof fn lemma_single_point_never_animates(
    s: AppState,
    next: AppState,
    elapsed: u64,
    input: FrameInput,
)
    requires
        s.wf(),
        s.screen is Display,
        s.points.len() <= 1,
        s.steps_to(next, elapsed, input),
    ensures
        !(next.screen is Animating),
        input.space && !input.r && !input.s ==> next == s.ticked(elapsed),
{
}

/// Once the saved notice has been up for its time, it comes down: the
/// save timer stands at zero again, and the display is back to serve the
/// keys of the frame. Before that the notice stays whatever the input,
/// and text and glyph stay what they were.
pub proof fn lemma_save_notice_expires(s: AppState, next: AppState, elapsed: u64, input: FrameInput)
    requires
        s.wf(),
        s.screen is Saving,
        s.steps_to(next, elapsed, input),
    ensures
        s.save_timer + elapsed >= SAVE_NOTICE ==> next.save_timer == 0 && next
            == s.ticked(elapsed).display_keys(input) && s.ticked(elapsed).screen is Display,
        s.save_timer + elapsed >= SAVE_NOTICE && !input.space && !input.r && !input.s
            ==> next.screen is Display && next.text == s.text && next.points == s.points,
        s.save_timer + elapsed < SAVE_NOTICE ==> next.screen is Saving && next.save_timer
            == s.save_timer + elapsed && next.text == s.text && next.points == s.points,
{
}

/// The finalize key makes no glyph of a phrase without digits: the text
/// box stays up and the glyph stays what it was.
pub proof fn lemma_no_digits_stays_on_input(
    s: AppState,
    next: AppState,
    elapsed: u64,
    input: FrameInput,
)
    requires
        s.wf(),
        s.screen is Input,
        digits(s.text.after_input(input).text).len() == 0,
        s.steps_to(next, elapsed, input),
    ensures
        next.screen is Input,
        next.points == s.points,
        next.text == s.text.after_input(input),
{
}

/// The finalize key makes a glyph of a phrase with digits and brings the
/// display up: one point for each digit, labelled with the digits
/// rearranged.
pub proof fn lemma_digits_reach_display(
    s: AppState,
    next: AppState,
    elapsed: u64,
    input: FrameInput,
)
    requires
        s.wf(),
        s.screen is Input,
        input.enter,
        digits(s.text.after_input(input).text).len() > 0,
        s.steps_to(next, elapsed, input),
    ensures
        next.screen is Display,
        next.text == s.text.after_input(input),
        next.points.len() == digits(next.text.text).len(),
        labels_of(next.points).to_multiset() == digits(next.text.text).to_multiset(),
{
    lemma_glyph_of_phrase(next.points, s.text.after_input(input).text);
}

/// Only the text box takes typed characters: on every other screen the
/// text stays what it was, unless a reset empties it.
pub proof fn lemma_typing_only_on_input(
    s: AppState,
    next: AppState,
    elapsed: u64,
    input: FrameInput,
)
    requires
        s.wf(),
        !(s.screen is Input),
        s.steps_to(next, elapsed, input),
    ensures
        next.text == s.text || next.text == TextState::empty(),
{
}

} // verus!
