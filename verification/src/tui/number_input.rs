use vstd::prelude::*;

verus! {

/// A bounded number prompt: the message, the accepted range, and how its
/// lines are cleared. `full_size` is the number of lines the element takes
/// up; `reset_size` the lines of its input section.
pub struct NumberInput {
    pub message: String,
    pub min: i32,
    pub max: Option<i32>,
    pub full_size: u16,
    pub reset_size: u16,
    pub manual_clear: bool,
}

impl NumberInput {
    pub fn new() -> (r: NumberInput)
        ensures
            r.message@.len() == 0,
            r.min == 0,
            r.max is None,
            r.full_size == 3,
            r.reset_size == 1,
            r.manual_clear == false,
    {
        NumberInput {
            message: String::new(),
            min: 0,
            max: None,
            full_size: 3,
            reset_size: 1,
            manual_clear: false,
        }
    }

    pub fn set_message(self, message: &str) -> (r: NumberInput)
        ensures
            r.message@ == message@,
            r.min == self.min,
            r.max == self.max,
            r.full_size == self.full_size,
            r.reset_size == self.reset_size,
            r.manual_clear == self.manual_clear,
    {
        NumberInput { message: String::from_str(message), ..self }
    }

    pub fn set_min(self, min: i32) -> (r: NumberInput)
        ensures
            r.min == min,
            r.message@ == self.message@,
            r.max == self.max,
            r.full_size == self.full_size,
            r.reset_size == self.reset_size,
            r.manual_clear == self.manual_clear,
    {
        NumberInput { min, ..self }
    }

    pub fn set_max(self, max: i32) -> (r: NumberInput)
        ensures
            r.max == Some(max),
            r.message@ == self.message@,
            r.min == self.min,
            r.full_size == self.full_size,
            r.reset_size == self.reset_size,
            r.manual_clear == self.manual_clear,
    {
        NumberInput { max: Some(max), ..self }
    }

    pub fn manual_clear(self) -> (r: NumberInput)
        ensures
            r.manual_clear == true,
            r.message@ == self.message@,
            r.min == self.min,
            r.max == self.max,
            r.full_size == self.full_size,
            r.reset_size == self.reset_size,
    {
        NumberInput { manual_clear: true, ..self }
    }

    /// Whether an entered number passes the prompt's bounds: at least the
    /// minimum, and at most the maximum when one was set.
    pub fn accepts(&self, n: i32) -> (r: bool)
        ensures
            r == (n >= self.min && match self.max {
                Some(m) => n <= m,
                None => true,
            }),
    {
        if n < self.min {
            return false;
        }
        match self.max {
            Some(m) => n <= m,
            None => true,
        }
    }
}

} // verus!
