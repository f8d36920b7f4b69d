pub mod bin;
pub mod machine;
pub mod pacer;
