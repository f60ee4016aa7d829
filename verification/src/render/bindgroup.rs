pub mod serial;
