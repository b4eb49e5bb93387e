//! A task queue over a single `tasks` table: the table itself, the rows it
//! hands out, the settings of the store it stands for, and the pass that
//! drives waiting tasks to success or back into the queue with an error.
pub mod connection;
pub mod driver;
pub mod error;
pub mod laws;
pub mod store;
pub mod task;

pub use connection::{
    SqliteConnectionManager, SQLITE_OPEN_CREATE, SQLITE_OPEN_FULL_MUTEX, SQLITE_OPEN_READ_WRITE,
    SQLITE_OPEN_SHARED_CACHE,
};
pub use driver::{apply_draw, apply_draws, error_message, run_test, PAGE_SIZE};
pub use error::StoreError;
pub use laws::{
    lemma_pass_lowers_waiting, lemma_round_trip, lemma_set_error_waits, lemma_update_idempotent,
    lemma_zero_limit_empty,
};
pub use store::TaskRepository;
pub use task::{task_from_row, tasks_from_rows, InsertTask, NewTask, Row, Task, TaskEntity};
