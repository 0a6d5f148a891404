use vstd::prelude::*;

verus! {

/// The sixteen-key keypad as the instruction engine reads it: which keys are
/// currently down, and a "pending" latch that is set by the most recent input
/// edge and cleared whenever the engine reads the keypad. Translating
/// physical input events into key numbers happens outside, and is fed in
/// through `update_key_status`.
pub struct Keyboard {
    pub key_statuses: [bool; 16],
    pub key_press_pending: bool,
}

/// The lowest key number at or above `from` that is down, if any.
pub open spec fn lowest_pressed(keys: Seq<bool>, from: int) -> Option<u8>
    recommends
        keys.len() == 16,
    decreases 16 - from,
{
    if from < 0 || from >= 16 {
        None
    } else if keys[from] {
        Some(from as u8)
    } else {
        lowest_pressed(keys, from + 1)
    }
}

impl Keyboard {
    /// A keypad with no key down and no press pending.
    pub fn new() -> (r: Keyboard)
        ensures
            forall|k: int| 0 <= k < 16 ==> !r.key_statuses@[k],
            !r.key_press_pending,
    {
        Keyboard { key_statuses: [false; 16], key_press_pending: false }
    }

    /// Whether key `key` is currently down. Reading the keypad clears the
    /// pending latch.
    pub fn is_pressed(&mut self, key: u8) -> (r: bool)
        requires
            key < 16,
        ensures
            r == old(self).key_statuses@[key as int],
            final(self).key_statuses == old(self).key_statuses,
            !final(self).key_press_pending,
    {
        self.key_press_pending = false;
        self.key_statuses[key as usize]
    }

    /// The lowest key currently down, but only while a press is pending; the
    /// pending latch is cleared by the read.
    pub fn any_key_pressed(&mut self) -> (r: Option<u8>)
        ensures
            r == if old(self).key_press_pending {
                lowest_pressed(old(self).key_statuses@, 0)
            } else {
                None::<u8>
            },
            final(self).key_statuses == old(self).key_statuses,
            !final(self).key_press_pending,
    {
        let keys = self.key_statuses;
        let mut ret: Option<u8> = None;
        if self.key_press_pending {
            let mut i: usize = 0;
            while i < 16
                invariant_except_break
                    i <= 16,
                    ret is None,
                    keys@.len() == 16,
                    lowest_pressed(keys@, 0) == lowest_pressed(keys@, i as int),
                ensures
                    ret == lowest_pressed(keys@, 0),
                decreases 16 - i,
            {
                if keys[i] {
                    ret = Some(i as u8);
                    break ;
                }
                i += 1;
            }
        }
        self.key_press_pending = false;
        ret
    }

    /// Record a key going down or up, and latch that an input edge arrived.
    pub fn update_key_status(&mut self, key: u8, down: bool)
        requires
            key < 16,
        ensures
            final(self).key_statuses@ == old(self).key_statuses@.update(key as int, down),
            final(self).key_press_pending,
    {
        self.key_statuses[key as usize] = down;
        self.key_press_pending = true;
    }
}

} // verus!
