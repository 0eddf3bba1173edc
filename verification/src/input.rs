//! The input snapshot: a point-in-time reading of the sixteen logical keys,
//! refreshed once per instruction cycle by the collaborator outside the
//! library. Mapping logical keys to physical ones is that collaborator's
//! concern.
use vstd::prelude::*;

verus! {

/// Held and just-released state of the sixteen logical keys 0x0..0xF.
pub struct InputSnapshot {
    /// Whether each key is currently held.
    pub held: Vec<bool>,
    /// Whether each key was just released since the previous snapshot.
    pub released: Vec<bool>,
}

/// Well-formedness: one entry per logical key in each list.
pub open spec fn input_wf(inp: InputSnapshot) -> bool {
    inp.held@.len() == 16 && inp.released@.len() == 16
}

impl InputSnapshot {
    /// A snapshot with no key held and none just released.
    pub fn idle() -> (inp: InputSnapshot)
        ensures
            input_wf(inp),
            forall|k: int| 0 <= k < 16 ==> !inp.held@[k] && !inp.released@[k],
    {
        InputSnapshot { held: vec![false; 16], released: vec![false; 16] }
    }

    /// The lowest held key code, if any key is held.
    pub fn first_held_key(&self) -> (r: Option<u8>)
        requires
            input_wf(*self),
        ensures
            r == first_held(self.held@),
    {
        let mut k: usize = 0;
        while k < 16
            invariant
                input_wf(*self),
                k <= 16,
                first_held(self.held@) == first_held_from(self.held@, k as int),
            decreases 16 - k,
        {
            if self.held[k] {
                return Some(k as u8);
            }
            k += 1;
        }
        None
    }
}

/// The lowest key code at or above `k` that is held, if any.
pub open spec fn first_held_from(held: Seq<bool>, k: int) -> Option<u8>
    decreases 16 - k,
{
    if k < 0 || k >= 16 {
        None
    } else if held[k] {
        Some(k as u8)
    } else {
        first_held_from(held, k + 1)
    }
}

/// The lowest held key code, if any key is held.
pub open spec fn first_held(held: Seq<bool>) -> Option<u8> {
    first_held_from(held, 0)
}

} // verus!
