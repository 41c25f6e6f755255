pub mod general;
pub mod punishments;
pub mod regex;
pub mod word;
