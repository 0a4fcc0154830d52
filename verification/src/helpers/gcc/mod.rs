pub mod dependencies;
