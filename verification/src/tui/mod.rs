pub mod confirm;
pub mod number_input;
pub mod option_select;
