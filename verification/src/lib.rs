pub mod dbf;
pub mod shx;
