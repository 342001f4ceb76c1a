//! Vocabulary drilling: choosing the words of a training session, the
//! exercise that each mastery level calls for, grading answers, and the
//! bounded mastery counter that grading moves.

pub mod word;
pub mod composer;
mod random;
pub mod text;
pub mod exercise;
pub mod session;
pub mod store;
