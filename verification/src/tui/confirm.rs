use vstd::prelude::*;

verus! {

/// A yes/no prompt: the message a front end shows and how its lines are
/// cleared afterwards. `full_size` is the number of lines the element takes
/// up on screen.
pub struct Confirm {
    pub message: String,
    pub full_size: i32,
    pub manual_clear: bool,
}

impl Confirm {
    pub fn new() -> (r: Confirm)
        ensures
            r.message@.len() == 0,
            r.full_size == 2,
            r.manual_clear == false,
    {
        Confirm { message: String::new(), full_size: 2, manual_clear: false }
    }

    pub fn set_message(self, message: &str) -> (r: Confirm)
        ensures
            r.message@ == message@,
            r.full_size == self.full_size,
            r.manual_clear == self.manual_clear,
    {
        Confirm { message: String::from_str(message), ..self }
    }

    pub fn manual_clear(self) -> (r: Confirm)
        ensures
            r.message@ == self.message@,
            r.full_size == self.full_size,
            r.manual_clear == true,
    {
        Confirm { manual_clear: true, ..self }
    }
}

} // verus!
