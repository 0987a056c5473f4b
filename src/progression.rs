use vstd::prelude::*;

verus! {

/// A cyclic position counter with a direction.
///
/// A progression whose `total` is 0 or 1 is "mono": every query returns 0 and
/// every mutator (but `reset` and `reverse_direction`) leaves it unchanged.
#[derive(Default, Debug, Copy, Clone)]
pub struct Progression {
    /// The stored counter; the direction only changes how it is reported.
    pub current: usize,
    pub total: usize,
    pub is_forward: bool,
}

impl Progression {
    /// The counter lies inside the cycle (or is 0 for an empty cycle).
    pub open spec fn wf(&self) -> bool {
        self.current == 0 || self.current < self.total
    }

    pub open spec fn mono(&self) -> bool {
        self.total <= 1
    }

    /// The position as seen from outside.
    pub open spec fn position(&self) -> nat {
        if self.mono() {
            0
        } else if self.is_forward {
            self.current as nat
        } else {
            (self.total - 1 - self.current) as nat
        }
    }

    /// The counter one step up, wrapping at `total`.
    pub open spec fn next_raw(&self) -> nat {
        if self.mono() {
            0
        } else {
            ((self.current + 1) % (self.total as int)) as nat
        }
    }

    /// The counter one step down, wrapping at 0.
    pub open spec fn prev_raw(&self) -> nat {
        if self.mono() {
            0
        } else {
            ((self.current + self.total - 1) % (self.total as int)) as nat
        }
    }

    /// The progression after one `increment`.
    pub open spec fn stepped_up(self) -> Progression {
        if self.mono() {
            self
        } else {
            Progression { current: self.next_raw() as usize, ..self }
        }
    }

    /// The progression after one `decrement`.
    pub open spec fn stepped_down(self) -> Progression {
        if self.mono() {
            self
        } else {
            Progression { current: self.prev_raw() as usize, ..self }
        }
    }

    /// The progression after `k` calls of `increment`.
    pub open spec fn stepped_up_n(self, k: nat) -> Progression
        decreases k,
    {
        if k == 0 {
            self
        } else {
            self.stepped_up_n((k - 1) as nat).stepped_up()
        }
    }

    pub open spec fn new_spec(total: usize) -> Progression {
        Progression { current: 0, total, is_forward: true }
    }

    pub fn new(total: usize) -> (r: Self)
        ensures
            r == Progression::new_spec(total),
            r.wf(),
    {
        Progression { current: 0, total, is_forward: true }
    }

    pub fn reverse_direction(&mut self)
        ensures
            final(self).is_forward == !old(self).is_forward,
            final(self).current == old(self).current,
            final(self).total == old(self).total,
    {
        self.is_forward = !self.is_forward;
    }

    fn is_mono(&self) -> (r: bool)
        ensures
            r == self.mono(),
    {
        self.total <= 1
    }

    pub fn is_first_frame(&self) -> (r: bool)
        ensures
            r == (self.current == 0),
    {
        self.current == 0
    }

    pub fn get_current(&self) -> (r: usize)
        requires
            self.wf(),
        ensures
            r == self.position(),
            self.total == 0 ==> r == 0,
            self.total > 0 ==> r < self.total,
    {
        if self.is_mono() {
            return 0;
        }
        if self.is_forward {
            self.current
        } else {
            self.total - 1 - self.current
        }
    }

    pub fn set_current(&mut self, value: usize)
        ensures
            old(self).mono() ==> *final(self) == *old(self),
            !old(self).mono() ==> *final(self) == (Progression {
                current: (value % old(self).total) as usize,
                ..*old(self)
            }),
            old(self).wf() ==> final(self).wf(),
    {
        if self.is_mono() {
            return;
        }
        let value = value % self.total;
        self.current = value;
    }

    pub fn decrement(&mut self)
        requires
            old(self).wf(),
        ensures
            *final(self) == old(self).stepped_down(),
            final(self).wf(),
    {
        if self.is_mono() {
            return;
        }
        self.current = self.peek_prev();
    }

    /// Steps down; reports whether the counter wrapped round to `total - 1`.
    pub fn checked_decrement(&mut self) -> (r: bool)
        requires
            old(self).wf(),
        ensures
            *final(self) == old(self).stepped_down(),
            final(self).wf(),
            r == (!old(self).mono() && final(self).current == old(self).total - 1),
    {
        if self.is_mono() {
            return false;
        }
        self.decrement();
        self.current == self.total - 1
    }

    pub fn increment(&mut self)
        requires
            old(self).wf(),
        ensures
            *final(self) == old(self).stepped_up(),
            final(self).wf(),
    {
        if self.is_mono() {
            return;
        }
        self.current = self.peek_next();
    }

    /// Steps up; reports whether the counter wrapped round to 0.
    pub fn checked_increment(&mut self) -> (r: bool)
        requires
            old(self).wf(),
        ensures
            *final(self) == old(self).stepped_up(),
            final(self).wf(),
            r == (!old(self).mono() && final(self).current == 0),
    {
        if self.is_mono() {
            return false;
        }
        self.increment();
        self.current == 0
    }

    pub fn peek_next(&self) -> (r: usize)
        requires
            self.wf(),
        ensures
            r == self.next_raw(),
            self.total > 0 ==> r < self.total,
    {
        self.up_one()
    }

    pub fn peek_prev(&self) -> (r: usize)
        requires
            self.wf(),
        ensures
            r == self.prev_raw(),
            self.total > 0 ==> r < self.total,
    {
        self.down_one()
    }

    fn up_one(&self) -> (r: usize)
        requires
            self.wf(),
        ensures
            r == self.next_raw(),
            self.total > 0 ==> r < self.total,
    {
        if self.is_mono() {
            return 0;
        }
        (self.current + 1) % self.total
    }

    fn down_one(&self) -> (r: usize)
        requires
            self.wf(),
        ensures
            r == self.prev_raw(),
            self.total > 0 ==> r < self.total,
    {
        if self.is_mono() {
            return 0;
        }
        proof {
            let t = self.total as int;
            let c = self.current as int;
            if c == 0 {
                vstd::arithmetic::div_mod::lemma_small_mod((t - 1) as nat, t as nat);
            } else {
                vstd::arithmetic::div_mod::lemma_mod_add_multiples_vanish(c - 1, t);
                vstd::arithmetic::div_mod::lemma_small_mod((c - 1) as nat, t as nat);
            }
        }
        if self.current == 0 {
            self.total - 1
        } else {
            self.current - 1
        }
    }

    pub fn reset(&mut self)
        ensures
            *final(self) == (Progression { current: 0, ..*old(self) }),
            final(self).wf(),
    {
        self.current = 0
    }
}

/// After `k` increments of a proper cycle the counter stands at `(current + k) mod total`,
/// with total and direction untouched.
proof fn lemma_stepped_up_n(p: Progression, k: nat)
    requires
        p.wf(),
        p.total >= 2,
    ensures
        p.stepped_up_n(k).current == (p.current + k) % (p.total as int),
        p.stepped_up_n(k).total == p.total,
        p.stepped_up_n(k).is_forward == p.is_forward,
        p.stepped_up_n(k).wf(),
    decreases k,
{
    let t = p.total as int;
    if k == 0 {
        vstd::arithmetic::div_mod::lemma_small_mod(p.current as nat, t as nat);
    } else {
        lemma_stepped_up_n(p, (k - 1) as nat);
        let x = p.current + k - 1;
        vstd::arithmetic::div_mod::lemma_add_mod_noop(x, 1, t);
        vstd::arithmetic::div_mod::lemma_small_mod(1, t as nat);
        vstd::arithmetic::div_mod::lemma_mod_bound(x + 1, t);
    }
}

/// Incrementing a cycle of `total >= 2` positions `total` times brings it back where it
/// started, and the counter wraps round to 0 on exactly one of those steps: the step
/// `total - current`, which is the one on which `checked_increment` reports true.
pub proof fn lemma_full_cycle(p: Progression)
    requires
        p.wf(),
        p.total >= 2,
    ensures
        p.stepped_up_n(p.total as nat) == p,
        p.stepped_up_n(p.total as nat).position() == p.position(),
        forall|k: nat|
            1 <= k <= p.total ==> (#[trigger] p.stepped_up_n(k).current == 0 <==> k == p.total
                - p.current),
{
    let t = p.total as int;
    let c = p.current as int;
    lemma_stepped_up_n(p, p.total as nat);
    vstd::arithmetic::div_mod::lemma_mod_add_multiples_vanish(c, t);
    vstd::arithmetic::div_mod::lemma_small_mod(c as nat, t as nat);
    assert forall|k: nat| 1 <= k <= p.total implies (#[trigger] p.stepped_up_n(k).current == 0
        <==> k == p.total - p.current) by {
        lemma_stepped_up_n(p, k);
        if c + k < t {
            vstd::arithmetic::div_mod::lemma_small_mod((c + k) as nat, t as nat);
        } else {
            vstd::arithmetic::div_mod::lemma_mod_add_multiples_vanish(c + k - t, t);
            vstd::arithmetic::div_mod::lemma_small_mod((c + k - t) as nat, t as nat);
        }
    }
}

/// A progression of 0 or 1 positions always reports position 0, and stepping it up or
/// down changes nothing.
pub proof fn lemma_mono_is_fixed(p: Progression)
    requires
        p.wf(),
        p.total <= 1,
    ensures
        p.position() == 0,
        p.stepped_up() == p,
        p.stepped_down() == p,
{
}

/// Reversing a forward progression whose counter `c` lies strictly inside the cycle
/// reports position `total - 1 - c`, and a following increment still moves the stored
/// counter up by one, as it did before the reversal.
pub proof fn lemma_reverse_mirrors(p: Progression)
    requires
        p.wf(),
        p.is_forward,
        0 < p.current < p.total - 1,
    ensures
        ({
            let r = Progression { is_forward: !p.is_forward, ..p };
            &&& r.position() == p.total - 1 - p.current
            &&& r.stepped_up().current == p.current + 1
            &&& r.stepped_up().current == p.stepped_up().current
        }),
{
    vstd::arithmetic::div_mod::lemma_small_mod((p.current + 1) as nat, p.total as nat);
}

} // verus!
