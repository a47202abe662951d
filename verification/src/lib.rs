//! A personal task-tracking library: immutable task values built through a
//! copy-on-write builder, and a SQLite-backed store with CRUD operations.

pub mod controller;
pub mod date;
pub mod priority;
pub mod store;
pub mod task;
pub mod task_state;
pub mod text;

pub use date::Date;
pub use date::ParseError;
pub use priority::Priority;
pub use store::ConcreteTaskRelationalManager;
pub use store::PersistenceError;
pub use store::TaskRelationalManager;
pub use task::ConcreteTaskBuilder;
pub use task::Task;
pub use task::TaskBuilder;
pub use task_state::TaskState;
