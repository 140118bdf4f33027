pub mod bit;
pub mod font_selector;
