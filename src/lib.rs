pub mod disk;
pub mod errors;
pub mod history;
pub mod laws;
pub mod organizer;
pub mod paths;
pub mod rules;
pub mod text;
