use vstd::prelude::*;

verus! {

/// A pick-one prompt: the title, the listed options, and how its lines are
/// cleared. `full_size` is the number of lines the element takes up — one
/// title line plus one per option; `reset_size` the lines of its option
/// list.
pub struct OptionSelect {
    pub title: String,
    pub options: Vec<String>,
    pub full_size: i32,
    pub reset_size: i32,
    pub manual_clear: bool,
}

impl OptionSelect {
    pub fn new() -> (r: OptionSelect)
        ensures
            r.title@.len() == 0,
            r.options@.len() == 0,
            r.full_size == 1,
            r.reset_size == 0,
            r.manual_clear == false,
    {
        OptionSelect {
            title: String::new(),
            options: Vec::new(),
            full_size: 1,
            reset_size: 0,
            manual_clear: false,
        }
    }

    pub fn set_title(self, title: &str) -> (r: OptionSelect)
        ensures
            r.title@ == title@,
            r.options == self.options,
            r.full_size == self.full_size,
            r.reset_size == self.reset_size,
            r.manual_clear == self.manual_clear,
    {
        OptionSelect { title: String::from_str(title), ..self }
    }

    pub fn add_option(self, option: &str) -> (r: OptionSelect)
        requires
            self.full_size < i32::MAX,
            self.reset_size < i32::MAX,
        ensures
            r.options@.len() == self.options@.len() + 1,
            forall|i: int| 0 <= i < self.options@.len() ==> r.options@[i] == #[trigger] self.options@[i],
            r.options@[self.options@.len() as int]@ == option@,
            r.full_size == self.full_size + 1,
            r.reset_size == self.reset_size + 1,
            r.title@ == self.title@,
            r.manual_clear == self.manual_clear,
    {
        let mut s = self;
        s.options.push(String::from_str(option));
        s.full_size = s.full_size + 1;
        s.reset_size = s.reset_size + 1;
        s
    }

    pub fn add_option_if_true(self, option: String, condition: bool) -> (r: OptionSelect)
        requires
            self.full_size < i32::MAX,
            self.reset_size < i32::MAX,
        ensures
            condition ==> r.options@.len() == self.options@.len() + 1 && (forall|i: int|
                0 <= i < self.options@.len() ==> r.options@[i] == #[trigger] self.options@[i])
                && r.options@[self.options@.len() as int] == option && r.full_size
                == self.full_size + 1 && r.reset_size == self.reset_size + 1,
            !condition ==> r == self,
            r.title@ == self.title@,
            r.manual_clear == self.manual_clear,
    {
        if condition {
            let mut s = self;
            s.options.push(option);
            s.full_size = s.full_size + 1;
            s.reset_size = s.reset_size + 1;
            s
        } else {
            self
        }
    }

    pub fn manual_clear(self) -> (r: OptionSelect)
        ensures
            r.manual_clear == true,
            r.title@ == self.title@,
            r.options == self.options,
            r.full_size == self.full_size,
            r.reset_size == self.reset_size,
    {
        OptionSelect { manual_clear: true, ..self }
    }

    /// The highlighted position after a step down the list, wrapping from
    /// the last option to the first.
    pub fn next_option(&self, current: usize) -> (r: usize)
        requires
            self.options@.len() > 0,
            current < self.options@.len(),
        ensures
            r == if current + 1 < self.options@.len() {
                current + 1
            } else {
                0
            },
    {
        let len = self.options.len();
        if current + 1 < len {
            current + 1
        } else {
            0
        }
    }

    /// The highlighted position after a step up the list, wrapping from the
    /// first option to the last.
    pub fn previous_option(&self, current: usize) -> (r: usize)
        requires
            self.options@.len() > 0,
            current < self.options@.len(),
        ensures
            r == if current > 0 {
                current - 1
            } else {
                self.options@.len() - 1
            },
    {
        if current > 0 {
            current - 1
        } else {
            self.options.len() - 1
        }
    }
}

} // verus!
