pub mod builder;
pub mod commands;
pub mod editor;
pub mod export;
pub mod import;
pub mod model;
pub mod normalize;
pub mod pager;
pub mod text;

pub use model::{AnswerOption, Question, Record, VerbForms};
