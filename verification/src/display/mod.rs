pub mod setup;

use vstd::prelude::*;

verus! {

/// Tracks how many terminal lines the prompts and renders above the cursor
/// occupy, so a front end can clear exactly that many.
pub struct Display {
    pub height: u16,
}

impl Display {
    pub fn new() -> (r: Display)
        ensures
            r.height == 0,
    {
        Display { height: 0 }
    }

    pub fn add_height(&mut self, height: u16)
        requires
            old(self).height + height <= u16::MAX,
        ensures
            final(self).height == old(self).height + height,
    {
        self.height = self.height + height;
    }

    pub fn remove_height(&mut self, height: u16)
        requires
            height <= old(self).height,
        ensures
            final(self).height == old(self).height - height,
    {
        self.height = self.height - height;
    }

    pub fn reset_height(&mut self)
        ensures
            final(self).height == 0,
    {
        self.height = 0;
    }

    pub fn get_height(&self) -> (r: u16)
        ensures
            r == self.height,
    {
        self.height
    }
}

} // verus!
