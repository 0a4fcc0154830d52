pub mod cli;
pub mod gcc;
