use crate::colors::Rgba8;
use crate::utility::{convert_ns_to_frames, default_translation_array};
use vstd::prelude::*;

verus! {

/// The largest offset of a rotating animation: the supersampled resolution of a rotation over
/// the whole translation table.
pub const MAX_OFFSET: u16 = 65535;

/// Direction of an animation; what it does depends on the animation's mode.
#[derive(Clone, Copy, Debug, PartialEq, Eq, Structural)]
pub enum Direction {
    Positive,
    Stopped,
    Negative,
}

/// The order in which a rainbow's colors are read.
#[derive(Clone, Copy, Debug, PartialEq, Eq, Structural)]
pub enum RainbowDir {
    Forward,
    Backward,
}

/// The layer that an outside call targets.
#[derive(Clone, Copy, Debug, PartialEq, Eq, Structural)]
pub enum AnimationType {
    Background,
    Foreground,
    Trigger,
}

/// How many trigger animations may run at once.
pub const MAX_NUM_ACTIVE_TRIGGERS: usize = 10;

/// One color that a layer puts at one position of the segment.
#[derive(Clone, Copy, Debug, PartialEq, Eq, Structural)]
pub struct PixelWrite {
    pub index: usize,
    pub color: Rgba8,
}

/// The segment after the writes, in order: a later write to a position wins.
pub open spec fn apply_writes(s: Seq<Rgba8>, ws: Seq<PixelWrite>) -> Seq<Rgba8>
    decreases ws.len(),
{
    if ws.len() == 0 {
        s
    } else {
        let last = ws.last();
        apply_writes(s, ws.drop_last()).update(last.index as int, last.color)
    }
}

/// Every write lands inside a segment of `n` positions.
pub open spec fn writes_fit(ws: Seq<PixelWrite>, n: nat) -> bool {
    forall|i: int| 0 <= i < ws.len() ==> (#[trigger] ws[i]).index < n
}

/// Tells whether every write lands inside a segment of `n` positions.
pub fn writes_fit_check(writes: &Vec<PixelWrite>, n: usize) -> (r: bool)
    ensures
        r == writes_fit(writes@, n as nat),
{
    let mut i: usize = 0;
    while i < writes.len()
        invariant
            i <= writes@.len(),
            forall|k: int| 0 <= k < i ==> (#[trigger] writes@[k]).index < n,
        decreases writes@.len() - i,
    {
        if writes[i].index >= n {
            return false;
        }
        i = i + 1;
    }
    true
}

proof fn lemma_apply_writes_len(s: Seq<Rgba8>, ws: Seq<PixelWrite>)
    requires
        writes_fit(ws, s.len()),
    ensures
        apply_writes(s, ws).len() == s.len(),
    decreases ws.len(),
{
    if ws.len() > 0 {
        assert(writes_fit(ws.drop_last(), s.len()));
        lemma_apply_writes_len(s, ws.drop_last());
    }
}

proof fn lemma_apply_writes_concat(s: Seq<Rgba8>, a: Seq<PixelWrite>, b: Seq<PixelWrite>)
    ensures
        apply_writes(s, a + b) == apply_writes(apply_writes(s, a), b),
    decreases b.len(),
{
    if b.len() == 0 {
        assert(a + b =~= a);
    } else {
        assert((a + b).drop_last() =~= a + b.drop_last());
        lemma_apply_writes_concat(s, a, b.drop_last());
    }
}

/// Writes `writes` into `segment`, in order.
pub fn paint(segment: &mut Vec<Rgba8>, writes: &Vec<PixelWrite>)
    requires
        writes_fit(writes@, old(segment)@.len()),
    ensures
        final(segment)@ == apply_writes(old(segment)@, writes@),
{
    let mut i: usize = 0;
    while i < writes.len()
        invariant
            i <= writes@.len(),
            writes_fit(writes@, old(segment)@.len()),
            segment@ == apply_writes(old(segment)@, writes@.take(i as int)),
        decreases writes@.len() - i,
    {
        proof {
            assert(writes_fit(writes@.take(i as int), old(segment)@.len()));
            lemma_apply_writes_len(old(segment)@, writes@.take(i as int));
            assert(writes@.take(i as int + 1).drop_last() =~= writes@.take(i as int));
        }
        let w = writes[i];
        segment.set(w.index, w.color);
        i = i + 1;
    }
    assert(writes@.take(i as int) =~= writes@);
}

/// A fresh vector holding the same writes.
pub fn copy_writes(writes: &Vec<PixelWrite>) -> (r: Vec<PixelWrite>)
    ensures
        r@ == writes@,
{
    let mut r: Vec<PixelWrite> = Vec::new();
    let mut i: usize = 0;
    while i < writes.len()
        invariant
            i <= writes@.len(),
            r@ == writes@.take(i as int),
        decreases writes@.len() - i,
    {
        r.push(writes[i]);
        i = i + 1;
        assert(r@ =~= writes@.take(i as int));
    }
    assert(writes@.take(i as int) =~= writes@);
    r
}

/// What a background or foreground layer starts from.
pub struct LayerParameters {
    pub offset: u16,
    pub paint: Vec<PixelWrite>,
}

/// A background or foreground layer: its rotation offset, its one-shot trigger flag, and
/// the writes that its pattern makes each frame.
pub struct Layer {
    pub offset: u16,
    pub has_been_triggered: bool,
    pub paint: Vec<PixelWrite>,
}

impl Layer {
    pub fn new(parameters: LayerParameters) -> (l: Layer)
        ensures
            l.offset == parameters.offset,
            !l.has_been_triggered,
            l.paint@ == parameters.paint@,
    {
        Layer { offset: parameters.offset, has_been_triggered: false, paint: parameters.paint }
    }

    /// Paints this layer's writes over the segment.
    pub fn update(&self, segment: &mut Vec<Rgba8>)
        requires
            writes_fit(self.paint@, old(segment)@.len()),
        ensures
            final(segment)@ == apply_writes(old(segment)@, self.paint@),
    {
        paint(segment, &self.paint);
    }
}

/// How a trigger request is handled.
#[derive(Clone, Copy, Debug, PartialEq, Eq, Structural)]
pub enum TriggerMode {
    NoTrigger,
    Background,
    Foreground,
    Overlay,
}

/// A trigger request: its mode, how long it runs, and what it paints each frame.
pub struct TriggerParameters {
    pub mode: TriggerMode,
    pub duration_ns: u64,
    pub paint: Vec<PixelWrite>,
}

/// One running trigger animation.
pub struct TriggerInstance {
    pub paint: Vec<PixelWrite>,
    pub frames_left: usize,
}

/// The writes of the running triggers, in the order in which they were added.
pub open spec fn trigger_writes(active: Seq<TriggerInstance>) -> Seq<PixelWrite>
    decreases active.len(),
{
    if active.len() == 0 {
        Seq::empty()
    } else {
        trigger_writes(active.drop_last()) + active.last().paint@
    }
}

/// The running triggers after one frame: each has one frame less, and those whose last
/// frame it was are gone; the order is kept.
pub open spec fn aged(active: Seq<TriggerInstance>) -> Seq<(Seq<PixelWrite>, usize)>
    decreases active.len(),
{
    if active.len() == 0 {
        Seq::empty()
    } else {
        let first = active[0];
        let rest = aged(active.drop_first());
        if first.frames_left > 1 {
            seq![(first.paint@, (first.frames_left - 1) as usize)] + rest
        } else {
            rest
        }
    }
}

/// The running triggers as paints and remaining frames.
pub open spec fn instances_view(active: Seq<TriggerInstance>) -> Seq<(Seq<PixelWrite>, usize)> {
    active.map_values(|t: TriggerInstance| (t.paint@, t.frames_left))
}

/// The frames that a trigger of `duration_ns` runs at `frame_rate`: at least one.
pub open spec fn trigger_frames(duration_ns: u64, frame_rate: u32) -> usize {
    let frames = duration_ns * frame_rate / 1_000_000_000;
    if frames == 0 {
        1usize
    } else {
        frames as usize
    }
}

/// A bounded set of running trigger animations. A trigger that arrives when it is full
/// is turned away.
pub struct TriggerCollection {
    pub active: Vec<TriggerInstance>,
}

impl TriggerCollection {
    pub open spec fn wf(&self, n: nat) -> bool {
        &&& self.active@.len() <= MAX_NUM_ACTIVE_TRIGGERS
        &&& forall|i: int|
            0 <= i < self.active@.len() ==> writes_fit((#[trigger] self.active@[i]).paint@, n)
    }

    pub fn new() -> (c: TriggerCollection)
        ensures
            c.active@.len() == 0,
    {
        TriggerCollection { active: Vec::new() }
    }

    /// Starts a trigger that runs for the frames that its duration lasts (at least one), unless
    /// the collection is full; reports whether it was taken.
    pub fn add_trigger(&mut self, params: &TriggerParameters, frame_rate: u32) -> (added: bool)
        requires
            old(self).active@.len() < MAX_NUM_ACTIVE_TRIGGERS ==> params.duration_ns * frame_rate
                <= u64::MAX,
            old(self).active@.len() < MAX_NUM_ACTIVE_TRIGGERS ==> params.duration_ns * frame_rate
                / 1_000_000_000 <= usize::MAX,
        ensures
            added == (old(self).active@.len() < MAX_NUM_ACTIVE_TRIGGERS),
            !added ==> final(self).active@ == old(self).active@,
            added ==> instances_view(final(self).active@) == instances_view(old(self).active@).push(
            (params.paint@, trigger_frames(params.duration_ns, frame_rate)),
        ),
        added ==> final(self).active@.last().paint@ == params.paint@,
    {
        if self.active.len() >= MAX_NUM_ACTIVE_TRIGGERS {
            return false;
        }
        let frames = convert_ns_to_frames(params.duration_ns, frame_rate);
        let frames_left: usize = if frames == 0 {
            1
        } else {
            frames
        };
        let paint = copy_writes(&params.paint);
        self.active.push(TriggerInstance { paint, frames_left });
        assert(instances_view(self.active@) =~= instances_view(old(self).active@).push(
            (params.paint@, trigger_frames(params.duration_ns, frame_rate)),
        ));
        true
    }

    /// Paints every running trigger over the segment in the order in which they were added,
    /// then moves each on by one frame and retires those that have run their course.
    pub fn update(&mut self, segment: &mut Vec<Rgba8>)
        requires
            old(self).wf(old(segment)@.len()),
        ensures
            final(segment)@ == apply_writes(old(segment)@, trigger_writes(old(self).active@)),
            final(segment)@.len() == old(segment)@.len(),
            instances_view(final(self).active@) == aged(old(self).active@),
            final(self).wf(old(segment)@.len()),
    {
        let ghost n = old(segment)@.len();
        let ghost s0 = old(segment)@;
        let mut i: usize = 0;
        while i < self.active.len()
            invariant
                i <= self.active@.len(),
                self.wf(n),
                *self == *old(self),
                segment@.len() == n,
                segment@ == apply_writes(s0, trigger_writes(self.active@.take(i as int))),
            decreases self.active@.len() - i,
        {
            proof {
                let a = self.active@;
                assert(a.take(i as int + 1).drop_last() =~= a.take(i as int));
                lemma_apply_writes_concat(s0, trigger_writes(a.take(i as int)), a[i as int].paint@);
                assert(writes_fit(a[i as int].paint@, n));
                lemma_apply_writes_len(segment@, a[i as int].paint@);
            }
            paint(segment, &self.active[i].paint);
            i = i + 1;
        }
        assert(self.active@.take(i as int) =~= self.active@);
        let mut rest: Vec<TriggerInstance> = Vec::new();
        core::mem::swap(&mut self.active, &mut rest);
        let ghost orig = rest@;
        while rest.len() > 0
            invariant
                instances_view(self.active@) + aged(rest@) == aged(orig),
                self.active@.len() + rest@.len() <= MAX_NUM_ACTIVE_TRIGGERS,
                forall|k: int|
                    0 <= k < self.active@.len() ==> writes_fit((#[trigger] self.active@[k]).paint@, n),
                forall|k: int| 0 <= k < rest@.len() ==> writes_fit((#[trigger] rest@[k]).paint@, n),
            decreases rest@.len(),
        {
            let ghost before = rest@;
            let ghost kept = self.active@;
            let inst = rest.remove(0);
            proof {
                assert(rest@ =~= before.drop_first());
            }
            if inst.frames_left > 1 {
                let ghost entry = (inst.paint@, (inst.frames_left - 1) as usize);
                self.active.push(TriggerInstance { paint: inst.paint, frames_left: inst.frames_left - 1 });
                proof {
                    assert(instances_view(self.active@) =~= instances_view(kept).push(entry));
                    assert(instances_view(kept) + aged(before) =~= instances_view(kept) + (seq![entry]
                        + aged(rest@)));
                    assert(instances_view(self.active@) + aged(rest@) =~= instances_view(kept) + (
                    seq![entry] + aged(rest@)));
                }
            }
        }
        assert(aged(rest@) =~= Seq::empty());
        assert(instances_view(self.active@) =~= aged(orig));
    }
}

/// The parameters of the background and foreground layers of an animation.
pub struct AnimationParameters {
    pub bg: LayerParameters,
    pub fg: LayerParameters,
}

/// A write is the last one to its position when no later write goes there.
pub open spec fn last_at(ws: Seq<PixelWrite>, k: int) -> bool {
    forall|j: int| k < j < ws.len() ==> (#[trigger] ws[j]).index != ws[k].index
}

/// No write goes to position `i`.
pub open spec fn untouched(ws: Seq<PixelWrite>, i: int) -> bool {
    forall|j: int| 0 <= j < ws.len() ==> (#[trigger] ws[j]).index != i
}

proof fn lemma_last_write_wins(s: Seq<Rgba8>, ws: Seq<PixelWrite>, k: int)
    requires
        writes_fit(ws, s.len()),
        0 <= k < ws.len(),
        last_at(ws, k),
    ensures
        apply_writes(s, ws)[ws[k].index as int] == ws[k].color,
    decreases ws.len(),
{
    assert(writes_fit(ws.drop_last(), s.len()));
    lemma_apply_writes_len(s, ws.drop_last());
    if k < ws.len() - 1 {
        lemma_last_write_wins(s, ws.drop_last(), k);
    }
}

proof fn lemma_untouched_kept(s: Seq<Rgba8>, ws: Seq<PixelWrite>, i: int)
    requires
        writes_fit(ws, s.len()),
        0 <= i < s.len(),
        untouched(ws, i),
    ensures
        apply_writes(s, ws)[i] == s[i],
    decreases ws.len(),
{
    if ws.len() > 0 {
        assert(writes_fit(ws.drop_last(), s.len()));
        lemma_apply_writes_len(s, ws.drop_last());
        lemma_untouched_kept(s, ws.drop_last(), i);
    }
}

/// Layers are composited in a fixed order. A foreground write that is the foreground's last
/// to its position shows in the frame, over whatever the background put there, unless a
/// trigger writes that position; and a trigger write that is the triggers' last to its
/// position shows whatever both layers put there.
pub proof fn lemma_layer_order(
    s: Seq<Rgba8>,
    bg: Seq<PixelWrite>,
    fg: Seq<PixelWrite>,
    active: Seq<TriggerInstance>,
)
    requires
        writes_fit(bg, s.len()),
        writes_fit(fg, s.len()),
        writes_fit(trigger_writes(active), s.len()),
    ensures
        forall|k: int|
            0 <= k < fg.len() && last_at(fg, k) && untouched(trigger_writes(active), fg[k].index as int)
                ==> #[trigger] composited(s, bg, fg, active)[fg[k].index as int] == fg[k].color,
        forall|k: int|
            0 <= k < trigger_writes(active).len() && last_at(trigger_writes(active), k)
                ==> #[trigger] composited(s, bg, fg, active)[trigger_writes(active)[k].index as int]
                == trigger_writes(active)[k].color,
{
    let tw = trigger_writes(active);
    let s1 = apply_writes(s, bg);
    let s2 = apply_writes(s1, fg);
    lemma_apply_writes_len(s, bg);
    lemma_apply_writes_len(s1, fg);
    assert forall|k: int|
        0 <= k < fg.len() && last_at(fg, k) && untouched(tw, fg[k].index as int) implies
        #[trigger] composited(s, bg, fg, active)[fg[k].index as int] == fg[k].color by {
        lemma_last_write_wins(s1, fg, k);
        lemma_untouched_kept(s2, tw, fg[k].index as int);
    }
    assert forall|k: int| 0 <= k < tw.len() && last_at(tw, k) implies
        #[trigger] composited(s, bg, fg, active)[tw[k].index as int] == tw[k].color by {
        lemma_last_write_wins(s2, tw, k);
    }
}

/// A segment of LEDs with its translation table and its three layers: background, foreground,
/// and the running triggers, composited in that order every frame.
pub struct Animation {
    pub translation_array: Vec<usize>,
    pub segment: Vec<Rgba8>,
    pub fg_state: Layer,
    pub bg_state: Layer,
    pub triggers: TriggerCollection,
}

/// The segment after one frame: background, then foreground, then the triggers in order.
pub open spec fn composited(
    s: Seq<Rgba8>,
    bg: Seq<PixelWrite>,
    fg: Seq<PixelWrite>,
    active: Seq<TriggerInstance>,
) -> Seq<Rgba8> {
    apply_writes(apply_writes(apply_writes(s, bg), fg), trigger_writes(active))
}

impl Animation {
    /// The segment and its table match in length, and every layer paints inside it.
    pub open spec fn wf(&self) -> bool {
        let n = self.segment@.len();
        &&& self.translation_array@.len() == n
        &&& writes_fit(self.bg_state.paint@, n)
        &&& writes_fit(self.fg_state.paint@, n)
        &&& self.triggers.wf(n)
    }

    /// An animation of `n_led` positions: an identity translation table, a zeroed segment,
    /// both layers as their parameters give them, and no triggers running.
    pub fn new(parameters: AnimationParameters, n_led: usize) -> (a: Animation)
        requires
            writes_fit(parameters.bg.paint@, n_led as nat),
            writes_fit(parameters.fg.paint@, n_led as nat),
        ensures
            a.wf(),
            a.segment@ == Seq::new(n_led as nat, |i: int| Rgba8 { r: 0, g: 0, b: 0, a: 0 }),
            forall|i: int| 0 <= i < n_led ==> #[trigger] a.translation_array@[i] == i,
            a.bg_state.offset == parameters.bg.offset,
            a.bg_state.paint@ == parameters.bg.paint@,
            !a.bg_state.has_been_triggered,
            a.fg_state.offset == parameters.fg.offset,
            a.fg_state.paint@ == parameters.fg.paint@,
            !a.fg_state.has_been_triggered,
            a.triggers.active@.len() == 0,
    {
        let translation_array = default_translation_array(n_led, 0);
        let mut segment: Vec<Rgba8> = Vec::new();
        let mut i: usize = 0;
        while i < n_led
            invariant
                i <= n_led,
                segment@ == Seq::new(i as nat, |k: int| Rgba8 { r: 0, g: 0, b: 0, a: 0 }),
            decreases n_led - i,
        {
            segment.push(Rgba8::new(0, 0, 0, 0));
            i = i + 1;
            assert(segment@ =~= Seq::new(i as nat, |k: int| Rgba8 { r: 0, g: 0, b: 0, a: 0 }));
        }
        let fg_state = Layer::new(parameters.fg);
        let bg_state = Layer::new(parameters.bg);
        let triggers = TriggerCollection::new();
        Animation { translation_array, segment, fg_state, bg_state, triggers }
    }

    /// Composites one frame: the background, then the foreground, then the triggers, and ages
    /// the triggers by one frame.
    pub fn update(&mut self)
        requires
            old(self).wf(),
        ensures
            final(self).wf(),
            final(self).segment@ == composited(
                old(self).segment@,
                old(self).bg_state.paint@,
                old(self).fg_state.paint@,
                old(self).triggers.active@,
            ),
            instances_view(final(self).triggers.active@) == aged(old(self).triggers.active@),
            final(self).translation_array@ == old(self).translation_array@,
            final(self).bg_state == old(self).bg_state,
            final(self).fg_state == old(self).fg_state,
    {
        proof {
            lemma_apply_writes_len(self.segment@, self.bg_state.paint@);
            lemma_apply_writes_len(
                apply_writes(self.segment@, self.bg_state.paint@),
                self.fg_state.paint@,
            );
        }
        self.bg_state.update(&mut self.segment);
        self.fg_state.update(&mut self.segment);
        self.triggers.update(&mut self.segment);
    }

    /// Sets the rotation offset of the background or foreground layer; triggers have none.
    pub fn set_offset(&mut self, a_type: AnimationType, offset: u16)
        ensures
            final(self).bg_state.offset == if a_type == AnimationType::Background {
                offset
            } else {
                old(self).bg_state.offset
            },
            final(self).fg_state.offset == if a_type == AnimationType::Foreground {
                offset
            } else {
                old(self).fg_state.offset
            },
            final(self).bg_state.paint == old(self).bg_state.paint,
            final(self).bg_state.has_been_triggered == old(self).bg_state.has_been_triggered,
            final(self).fg_state.paint == old(self).fg_state.paint,
            final(self).fg_state.has_been_triggered == old(self).fg_state.has_been_triggered,
            final(self).segment == old(self).segment,
            final(self).translation_array == old(self).translation_array,
            final(self).triggers == old(self).triggers,
    {
        match a_type {
            AnimationType::Background => {
                self.bg_state.offset = offset;
            },
            AnimationType::Foreground => {
                self.fg_state.offset = offset;
            },
            AnimationType::Trigger => {},
        }
    }

    /// Handles a trigger request: none, the background's or foreground's one-shot flag, or
    /// a new running trigger (turned away when the collection is full).
    pub fn trigger(&mut self, params: &TriggerParameters, frame_rate: u32)
        requires
            old(self).wf(),
            params.mode == TriggerMode::Overlay ==> writes_fit(
                params.paint@,
                old(self).segment@.len(),
            ),
            params.mode == TriggerMode::Overlay ==> params.duration_ns * frame_rate <= u64::MAX,
            params.mode == TriggerMode::Overlay ==> params.duration_ns * frame_rate / 1_000_000_000
                <= usize::MAX,
        ensures
            final(self).wf(),
            final(self).segment == old(self).segment,
            final(self).translation_array == old(self).translation_array,
            final(self).bg_state.offset == old(self).bg_state.offset,
            final(self).bg_state.paint == old(self).bg_state.paint,
            final(self).fg_state.offset == old(self).fg_state.offset,
            final(self).fg_state.paint == old(self).fg_state.paint,
            final(self).bg_state.has_been_triggered == (old(self).bg_state.has_been_triggered
                || params.mode == TriggerMode::Background),
            final(self).fg_state.has_been_triggered == (old(self).fg_state.has_been_triggered
                || params.mode == TriggerMode::Foreground),
            params.mode != TriggerMode::Overlay || old(self).triggers.active@.len()
                >= MAX_NUM_ACTIVE_TRIGGERS ==> final(self).triggers.active@ == old(self).triggers.active@,
            params.mode == TriggerMode::Overlay && old(self).triggers.active@.len()
                < MAX_NUM_ACTIVE_TRIGGERS ==> instances_view(final(self).triggers.active@)
                == instances_view(old(self).triggers.active@).push(
                (params.paint@, trigger_frames(params.duration_ns, frame_rate)),
            ),
    {
        match params.mode {
            TriggerMode::NoTrigger => {},
            TriggerMode::Background => {
                self.bg_state.has_been_triggered = true;
            },
            TriggerMode::Foreground => {
                self.fg_state.has_been_triggered = true;
            },
            TriggerMode::Overlay => {
                let ghost n = self.segment@.len();
                let ghost before = self.triggers.active@;
                let _ = self.triggers.add_trigger(params, frame_rate);
                proof {
                    assert(instances_view(self.triggers.active@).len()
                        == self.triggers.active@.len());
                    assert(instances_view(before).len() == before.len());
                    assert(self.triggers.active@.len() <= MAX_NUM_ACTIVE_TRIGGERS);
                    assert forall|k: int| 0 <= k < self.triggers.active@.len() implies writes_fit(
                        (#[trigger] self.triggers.active@[k]).paint@,
                        n,
                    ) by {
                        let now = self.triggers.active@;
                        if before.len() < MAX_NUM_ACTIVE_TRIGGERS {
                            if k < before.len() {
                                assert(instances_view(now)[k] == (now[k].paint@, now[k].frames_left));
                                assert(instances_view(before)[k] == (
                                    before[k].paint@,
                                    before[k].frames_left,
                                ));
                                assert(instances_view(now)[k] == instances_view(before)[k]);
                                assert(writes_fit(before[k].paint@, n));
                            } else {
                                assert(k == now.len() - 1);
                            }
                        } else {
                            assert(now == before);
                            assert(writes_fit(before[k].paint@, n));
                        }
                    }
                }
            },
        }
    }

    /// The colors of the segment, by logical position.
    pub fn segment(&self) -> (r: &[Rgba8])
        ensures
            r@ == self.segment@,
    {
        self.segment.as_slice()
    }

    /// The physical LED address of each logical position.
    pub fn translation_array(&self) -> (r: &[usize])
        ensures
            r@ == self.translation_array@,
    {
        self.translation_array.as_slice()
    }
}

} // verus!
