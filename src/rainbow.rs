use crate::animations::RainbowDir;
use crate::colors::{lerp_color, ManipulatableColor, Rgba8};
use crate::progression::Progression;
use vstd::prelude::*;

verus! {

/// An ordered, read-only palette of colors.
pub type Rainbow<'a> = &'a [Rgba8];

/// A read-only view of a rainbow that can be read back to front.
pub struct ReversibleRainbow<'a> {
    pub backer: Rainbow<'a>,
    pub rainbow_dir: RainbowDir,
}

impl<'a> ReversibleRainbow<'a> {
    /// The color at `i` as seen in this view's direction.
    pub open spec fn at(&self, i: int) -> Rgba8 {
        match self.rainbow_dir {
            RainbowDir::Forward => self.backer@[i],
            RainbowDir::Backward => self.backer@[self.backer@.len() - 1 - i],
        }
    }

    pub fn new(backer: Rainbow<'a>, rainbow_dir: RainbowDir) -> (r: Self)
        ensures
            r.backer@ == backer@,
            r.rainbow_dir == rainbow_dir,
    {
        ReversibleRainbow { backer, rainbow_dir }
    }

    pub fn len(&self) -> (r: usize)
        ensures
            r == self.backer@.len(),
    {
        self.backer.len()
    }

    pub fn is_empty(&self) -> (r: bool)
        ensures
            r == (self.backer@.len() == 0),
    {
        self.backer.len() == 0
    }

    pub fn index(&self, index: usize) -> (c: Rgba8)
        requires
            index < self.backer@.len(),
        ensures
            c == self.at(index as int),
    {
        match self.rainbow_dir {
            RainbowDir::Forward => self.backer[index],
            RainbowDir::Backward => self.backer[self.backer.len() - 1 - index],
        }
    }
}

/// A rainbow together with a cursor over its positions.
pub struct StatefulRainbow<'a> {
    pub backer: ReversibleRainbow<'a>,
    pub position: Progression,
}

impl<'a> StatefulRainbow<'a> {
    /// The cursor is well formed and has one position per color.
    pub open spec fn wf(&self) -> bool {
        &&& self.position.wf()
        &&& self.position.total == self.backer.backer@.len()
    }

    pub open spec fn spec_current_color(&self) -> Rgba8 {
        self.backer.at(self.position.position() as int)
    }

    pub open spec fn spec_next_color(&self) -> Rgba8 {
        self.backer.at(self.position.next_raw() as int)
    }

    pub open spec fn spec_last_color(&self) -> Rgba8 {
        self.backer.at(self.position.prev_raw() as int)
    }

    pub fn new(rainbow: Rainbow<'a>, rainbow_dir: RainbowDir) -> (r: StatefulRainbow<'a>)
        ensures
            r.wf(),
            r.backer.backer@ == rainbow@,
            r.backer.rainbow_dir == rainbow_dir,
            r.position == Progression::new_spec(rainbow@.len() as usize),
    {
        let position = Progression::new(rainbow.len());
        let backer = ReversibleRainbow { backer: rainbow, rainbow_dir };
        StatefulRainbow { backer, position }
    }

    pub fn current_color(&self) -> (c: Rgba8)
        requires
            self.wf(),
            self.backer.backer@.len() > 0,
        ensures
            c == self.spec_current_color(),
    {
        self.backer.index(self.position.get_current())
    }

    pub fn decrement(&mut self)
        requires
            old(self).wf(),
        ensures
            final(self).wf(),
            final(self).backer == old(self).backer,
            final(self).position == old(self).position.stepped_down(),
    {
        self.position.decrement();
    }

    pub fn increment(&mut self)
        requires
            old(self).wf(),
        ensures
            final(self).wf(),
            final(self).backer == old(self).backer,
            final(self).position == old(self).position.stepped_up(),
    {
        self.position.increment();
    }

    pub fn peek_next_color(&self) -> (c: Rgba8)
        requires
            self.wf(),
            self.backer.backer@.len() > 0,
        ensures
            c == self.spec_next_color(),
    {
        self.backer.index(self.position.peek_next())
    }

    pub fn peek_last_color(&self) -> (c: Rgba8)
        requires
            self.wf(),
            self.backer.backer@.len() > 0,
        ensures
            c == self.spec_last_color(),
    {
        self.backer.index(self.position.peek_prev())
    }

    pub fn reset(&mut self)
        requires
            old(self).wf(),
        ensures
            final(self).wf(),
            final(self).backer == old(self).backer,
            final(self).position == (Progression { current: 0, ..old(self).position }),
    {
        self.position.reset();
    }
}

/// The color of a fading effect: the rainbow's current color blended toward its next one by
/// the frame progression, or the current color alone when the progression is empty.
pub open spec fn fade_color(rainbow: &StatefulRainbow, frames: Progression) -> Rgba8 {
    if frames.total == 0 {
        rainbow.spec_current_color()
    } else {
        lerp_color(
            frames.position() as int,
            0,
            frames.total as int,
            rainbow.spec_current_color(),
            rainbow.spec_next_color(),
        )
    }
}

/// Blends the rainbow's current color toward the next one as `frames` runs; an empty
/// progression gives the current color unchanged.
pub fn calculate_fade_color(rainbow: &StatefulRainbow, frames: &Progression) -> (c: Rgba8)
    requires
        rainbow.wf(),
        rainbow.backer.backer@.len() > 0,
        frames.wf(),
        frames.total <= i32::MAX,
    ensures
        c == fade_color(rainbow, *frames),
        frames.total == 0 ==> c == rainbow.spec_current_color(),
{
    let current_color = rainbow.current_color();
    if frames.total == 0 {
        return current_color;
    }
    let next_color = rainbow.peek_next_color();
    current_color.lerp_with(next_color, *frames)
}

/// Advances a marching rainbow to its next color and restarts the frame count.
pub fn advance_rainbow_color(rainbow: &mut StatefulRainbow, frames: &mut Progression)
    requires
        old(rainbow).wf(),
    ensures
        final(rainbow).wf(),
        final(rainbow).backer == old(rainbow).backer,
        final(rainbow).position == old(rainbow).position.stepped_up(),
        *final(frames) == (Progression { current: 0, ..*old(frames) }),
{
    rainbow.increment();
    frames.reset();
}

/// A fading rainbow and a marching rainbow driven by one frame progression.
pub struct TimedRainbows<'a> {
    pub fade_rainbow: StatefulRainbow<'a>,
    pub incremental_rainbow: StatefulRainbow<'a>,
    pub frames: Progression,
}

impl<'a> TimedRainbows<'a> {
    pub open spec fn wf(&self) -> bool {
        &&& self.fade_rainbow.wf()
        &&& self.incremental_rainbow.wf()
        &&& self.frames.wf()
    }
}

/// Something that fades between the colors of a rainbow as a frame progression runs.
pub trait FadeRainbow<'a> {
    spec fn fade_source(&self) -> StatefulRainbow<'a>;

    spec fn fade_frames(&self) -> Progression;

    fn rainbow(&self) -> (r: &StatefulRainbow<'a>)
        ensures
            *r == self.fade_source(),
    ;

    fn frames(&self) -> (r: &Progression)
        ensures
            *r == self.fade_frames(),
    ;

    /// The current color blended toward the next one; the current color alone when the
    /// progression is empty.
    fn calculate_fade_color(&self) -> (c: Rgba8)
        requires
            self.fade_source().wf(),
            self.fade_source().backer.backer@.len() > 0,
            self.fade_frames().wf(),
            self.fade_frames().total <= i32::MAX,
        ensures
            c == fade_color(&self.fade_source(), self.fade_frames()),
            self.fade_frames().total == 0 ==> c == self.fade_source().spec_current_color(),
    {
        calculate_fade_color(self.rainbow(), self.frames())
    }

    fn current_fade_color(&self) -> (c: Rgba8)
        requires
            self.fade_source().wf(),
            self.fade_source().backer.backer@.len() > 0,
        ensures
            c == self.fade_source().spec_current_color(),
    {
        self.rainbow().current_color()
    }
}

/// Something that steps through the colors of a rainbow.
pub trait MarchingRainbow<'a> {
    spec fn march_source(&self) -> StatefulRainbow<'a>;

    spec fn march_frames(&self) -> Progression;

    fn rainbow(&self) -> (r: &StatefulRainbow<'a>)
        ensures
            *r == self.march_source(),
    ;

    fn frames(&self) -> (r: &Progression)
        ensures
            *r == self.march_frames(),
    ;

    fn current_rainbow_color(&self) -> (c: Rgba8)
        requires
            self.march_source().wf(),
            self.march_source().backer.backer@.len() > 0,
        ensures
            c == self.march_source().spec_current_color(),
    {
        self.rainbow().current_color()
    }
}

impl<'a> FadeRainbow<'a> for TimedRainbows<'a> {
    open spec fn fade_source(&self) -> StatefulRainbow<'a> {
        self.fade_rainbow
    }

    open spec fn fade_frames(&self) -> Progression {
        self.frames
    }

    fn rainbow(&self) -> (r: &StatefulRainbow<'a>) {
        &self.fade_rainbow
    }

    fn frames(&self) -> (r: &Progression) {
        &self.frames
    }
}

impl<'a> MarchingRainbow<'a> for TimedRainbows<'a> {
    open spec fn march_source(&self) -> StatefulRainbow<'a> {
        self.incremental_rainbow
    }

    open spec fn march_frames(&self) -> Progression {
        self.frames
    }

    fn rainbow(&self) -> (r: &StatefulRainbow<'a>) {
        &self.incremental_rainbow
    }

    fn frames(&self) -> (r: &Progression) {
        &self.frames
    }
}

impl<'a> TimedRainbows<'a> {
    /// Advances the marching rainbow and restarts the shared frame count.
    pub fn advance_rainbow_color(&mut self)
        requires
            old(self).wf(),
        ensures
            final(self).wf(),
            final(self).fade_rainbow == old(self).fade_rainbow,
            final(self).incremental_rainbow.backer == old(self).incremental_rainbow.backer,
            final(self).incremental_rainbow.position
                == old(self).incremental_rainbow.position.stepped_up(),
            final(self).frames == (Progression { current: 0, ..old(self).frames }),
    {
        advance_rainbow_color(&mut self.incremental_rainbow, &mut self.frames);
    }
}

} // verus!
