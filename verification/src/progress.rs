//! Terminal progress reporting, split from the terminal itself: these types
//! keep the counting state and say exactly which control bytes to emit,
//! while the caller owns stdout, performs the writes, and reports a failed
//! write back via [`ProgressBar::set_broken`]. Once inactive — after
//! [`ProgressBar::end`] or a broken write — nothing more is ever emitted.

use vstd::prelude::*;

use crate::text::{dec_digits, push_decimal};

verus! {

/// The control bytes that set a terminal progress indicator to `pct`
/// percent.
pub open spec fn pb_update(pct: nat) -> Seq<u8> {
    seq![27u8, ']' as u8, '9' as u8, ';' as u8, '4' as u8, ';' as u8, '1' as u8, ';' as u8]
        + dec_digits(pct) + seq![7u8]
}

/// The control bytes that clear the terminal progress indicator.
pub open spec fn pb_clear() -> Seq<u8> {
    seq![27u8, ']' as u8, '9' as u8, ';' as u8, '4' as u8, ';' as u8, '0' as u8, 7u8]
}

/// The control bytes that set the indicator to its indeterminate state.
pub open spec fn pb_indeterminate() -> Seq<u8> {
    seq![27u8, ']' as u8, '9' as u8, ';' as u8, '4' as u8, ';' as u8, '3' as u8, 7u8]
}

fn pb_update_bytes(pct: usize) -> (r: Vec<u8>)
    ensures
        r@ == pb_update(pct as nat),
{
    let mut v: Vec<u8> = vec![27u8, ']' as u8, '9' as u8, ';' as u8, '4' as u8, ';' as u8, '1' as u8, ';' as u8];
    proof {
        assert(v@ =~= seq![27u8, ']' as u8, '9' as u8, ';' as u8, '4' as u8, ';' as u8, '1' as u8, ';' as u8]);
    }
    push_decimal(&mut v, pct as u64);
    v.push(7u8);
    proof {
        assert(v@ =~= pb_update(pct as nat));
    }
    v
}

fn pb_clear_bytes() -> (r: Vec<u8>)
    ensures
        r@ == pb_clear(),
{
    let v: Vec<u8> = vec![27u8, ']' as u8, '9' as u8, ';' as u8, '4' as u8, ';' as u8, '0' as u8, 7u8];
    proof {
        assert(v@ =~= pb_clear());
    }
    v
}

fn pb_indeterminate_bytes() -> (r: Vec<u8>)
    ensures
        r@ == pb_indeterminate(),
{
    let v: Vec<u8> = vec![27u8, ']' as u8, '9' as u8, ';' as u8, '4' as u8, ';' as u8, '3' as u8, 7u8];
    proof {
        assert(v@ =~= pb_indeterminate());
    }
    v
}

/// The percentage shown after `current` of `max` steps.
pub open spec fn pb_pct(current: nat, max: nat) -> nat {
    100 * current / max
}

/// A determinate progress bar over a known number of steps.
pub struct ProgressBar {
    /// Whether the indicator is still being rendered; cleared by `end` and
    /// by `set_broken`.
    pub isatty: bool,
    pub current: usize,
    pub max: usize,
}

impl ProgressBar {
    /// The counting state stays within bounds, and percentages cannot
    /// overflow.
    pub open spec fn wf(self) -> bool {
        1 <= self.max <= usize::MAX / 100 && self.current <= self.max
    }

    /// A fresh bar over `max` steps; `isatty` says whether the caller's
    /// stdout renders the indicator at all.
    pub fn new(isatty: bool, max: usize) -> (s: ProgressBar)
        requires
            1 <= max <= usize::MAX / 100,
        ensures
            s.wf(),
            s.isatty == isatty,
            s.current == 0,
            s.max == max,
    {
        ProgressBar { isatty, current: 0, max }
    }

    /// Starts over: the count returns to zero, and an active bar asks for
    /// the zero-percent indicator to be written.
    pub fn begin(&mut self) -> (r: Option<Vec<u8>>)
        requires
            old(self).wf(),
        ensures
            final(self).wf(),
            *final(self) == (ProgressBar { current: 0, ..*old(self) }),
            match r {
                Some(b) => old(self).isatty && b@ == pb_update(0),
                None => !old(self).isatty,
            },
    {
        self.current = 0;
        if self.isatty {
            Some(pb_update_bytes(0))
        } else {
            None
        }
    }

    /// One step done: the count advances, and an active bar asks for the
    /// new percentage to be written.
    pub fn next(&mut self) -> (r: Option<Vec<u8>>)
        requires
            old(self).wf(),
            old(self).current < old(self).max,
        ensures
            final(self).wf(),
            *final(self) == (ProgressBar { current: (old(self).current + 1) as usize, ..*old(
                self,
            ) }),
            match r {
                Some(b) => old(self).isatty && b@ == pb_update(
                    pb_pct((old(self).current + 1) as nat, old(self).max as nat),
                ),
                None => !old(self).isatty,
            },
    {
        self.current = self.current + 1;
        if self.isatty {
            let pct = 100 * self.current / self.max;
            Some(pb_update_bytes(pct))
        } else {
            None
        }
    }

    /// Done: an active bar asks for the indicator to be cleared, and the
    /// bar goes inactive for good.
    pub fn end(&mut self) -> (r: Option<Vec<u8>>)
        ensures
            *final(self) == (ProgressBar { isatty: false, ..*old(self) }),
            match r {
                Some(b) => old(self).isatty && b@ == pb_clear(),
                None => !old(self).isatty,
            },
    {
        let was = self.isatty;
        self.isatty = false;
        if was {
            Some(pb_clear_bytes())
        } else {
            None
        }
    }

    /// A write failed: never ask for another.
    pub fn set_broken(&mut self)
        ensures
            *final(self) == (ProgressBar { isatty: false, ..*old(self) }),
    {
        self.isatty = false;
    }
}

/// An indeterminate progress indicator: on or off, with no count.
pub struct IndeterminateProgressBar {
    /// Whether the indicator is still being rendered.
    pub isatty: bool,
}

impl IndeterminateProgressBar {
    pub fn new(isatty: bool) -> (s: IndeterminateProgressBar)
        ensures
            s.isatty == isatty,
    {
        IndeterminateProgressBar { isatty }
    }

    /// An active indicator asks for its spinner state to be written.
    pub fn begin(&mut self) -> (r: Option<Vec<u8>>)
        ensures
            *final(self) == *old(self),
            match r {
                Some(b) => old(self).isatty && b@ == pb_indeterminate(),
                None => !old(self).isatty,
            },
    {
        if self.isatty {
            Some(pb_indeterminate_bytes())
        } else {
            None
        }
    }

    /// Done: an active indicator asks to be cleared and goes inactive for
    /// good.
    pub fn end(&mut self) -> (r: Option<Vec<u8>>)
        ensures
            *final(self) == (IndeterminateProgressBar { isatty: false }),
            match r {
                Some(b) => old(self).isatty && b@ == pb_clear(),
                None => !old(self).isatty,
            },
    {
        let was = self.isatty;
        self.isatty = false;
        if was {
            Some(pb_clear_bytes())
        } else {
            None
        }
    }

    /// A write failed: never ask for another.
    pub fn set_broken(&mut self)
        ensures
            *final(self) == (IndeterminateProgressBar { isatty: false }),
    {
        self.isatty = false;
    }
}

} // verus!
