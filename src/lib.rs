pub mod block;
pub mod data;
pub mod stream;
pub mod worker;

pub use block::CSPWorkerPool;
pub use data::{PoolError, Rx, Tx, Work};
pub use stream::CSPStreamWorkerPool;
pub use worker::{StreamWorker, Worker};
