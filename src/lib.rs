pub mod context;
pub mod error;
pub mod limits;
pub mod number;
pub mod text;
pub mod value;
pub mod required;
pub mod enumeration;
pub mod exclusive;
pub mod validator;
