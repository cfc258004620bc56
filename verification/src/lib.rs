pub mod machine;
pub mod semantics;
