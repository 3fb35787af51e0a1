//! The state that the step-by-step debugger keeps between steps.
use vstd::prelude::*;

verus! {

/// The debugger's state: the history of AST states, the step shown and the last step, and
/// whether it is running through the steps or resetting.
#[derive(Clone, Debug, Default)]
pub struct MyData {
    pub history_max: String,
    pub history: Vec<String>,
    pub step: usize,
    pub step_max: usize,
    pub step_is_running: bool,
    pub step_is_resetting: bool,
}

impl MyData {
    /// Replaces the history with a copy of `new_vec`.
    pub fn history_update(&mut self, new_vec: &Vec<String>)
        ensures
            final(self).history@.map_values(|s: String| s@) == new_vec@.map_values(|s: String| s@),
            final(self).history_max == old(self).history_max,
            final(self).step == old(self).step,
            final(self).step_max == old(self).step_max,
            final(self).step_is_running == old(self).step_is_running,
            final(self).step_is_resetting == old(self).step_is_resetting,
    {
        let mut copy: Vec<String> = Vec::new();
        let mut i: usize = 0;
        while i < new_vec.len()
            invariant
                i <= new_vec@.len(),
                copy@.len() == i,
                forall|k: int| 0 <= k < i ==> #[trigger] copy@[k]@ == new_vec@[k]@,
            decreases new_vec@.len() - i,
        {
            copy.push(new_vec[i].clone());
            i = i + 1;
        }
        assert(copy@.map_values(|s: String| s@) =~= new_vec@.map_values(|s: String| s@));
        self.history = copy;
    }

    /// Sets the last history entry's text.
    pub fn history_max_update(&mut self, string: String)
        ensures
            final(self).history_max == string,
            final(self).history == old(self).history,
            final(self).step == old(self).step,
            final(self).step_max == old(self).step_max,
            final(self).step_is_running == old(self).step_is_running,
            final(self).step_is_resetting == old(self).step_is_resetting,
    {
        self.history_max = string;
    }

    /// Sets the step shown.
    pub fn step_update(&mut self, val: usize)
        ensures
            *final(self) == (MyData { step: val, ..*old(self) }),
    {
        self.step = val;
    }

    /// Sets the last step.
    pub fn step_max_update(&mut self, val: usize)
        ensures
            *final(self) == (MyData { step_max: val, ..*old(self) }),
    {
        self.step_max = val;
    }

    /// Sets whether the debugger runs through the steps.
    pub fn step_is_running_update(&mut self, val: bool)
        ensures
            *final(self) == (MyData { step_is_running: val, ..*old(self) }),
    {
        self.step_is_running = val;
    }

    /// Sets whether the debugger is resetting.
    pub fn step_is_resetting_update(&mut self, val: bool)
        ensures
            *final(self) == (MyData { step_is_resetting: val, ..*old(self) }),
    {
        self.step_is_resetting = val;
    }
}

/// The debugger's state after it completed step `completed` (see `MyData::after_step`).
pub open spec fn after_step_data(d: MyData, completed: usize) -> MyData {
    if 1 <= completed <= 3 || (completed == 4 && d.step_max >= 4) {
        if d.step_max == completed {
            MyData { step_is_running: false, ..d }
        } else {
            MyData { step: (completed + 1) as usize, ..d }
        }
    } else if completed == 5 {
        MyData { step_is_running: false, step: 0, ..d }
    } else {
        d
    }
}

impl MyData {
    /// Decides what the debugger does after it completed step `completed` (1 to 5): it stops
    /// running when that step was the last one asked for (`step_max`), else goes on to the
    /// next step; after the last step, 5, it stops and goes back to step 0. Anything else
    /// changes nothing.
    pub fn after_step(&mut self, completed: usize)
        ensures
            *final(self) == after_step_data(*old(self), completed),
    {
        if (1 <= completed && completed <= 3) || (completed == 4 && self.step_max >= 4) {
            if self.step_max == completed {
                self.step_is_running = false;
            } else {
                self.step = completed + 1;
            }
        } else if completed == 5 {
            self.step_is_running = false;
            self.step = 0;
        }
    }
}

} // verus!
