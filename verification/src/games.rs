pub mod entities;
pub mod thunder_fighter;
