pub mod person;
