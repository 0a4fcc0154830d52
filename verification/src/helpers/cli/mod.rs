pub mod argparser;
pub mod build_dir;
