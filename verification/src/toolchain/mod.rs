pub mod gcc;
