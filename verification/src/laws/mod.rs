//! What holds of the library as a whole, across its operations.

pub mod checkup;
pub mod commands;
pub mod deriving;
pub mod doctor;
pub mod export;
pub mod filtering;
pub mod findings;
pub mod frames;
pub mod operations;
pub mod replay;
pub mod requests;
pub mod shifts;
pub mod values;
pub mod view;
pub mod texts;
pub mod vocabulary;
pub mod wording;
