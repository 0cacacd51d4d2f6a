//! Dense matrices over integer scalars, multiplied cell by cell through a
//! pool of workers that are reached over channels.

mod channel;
pub mod dispatch;
pub mod error;
pub mod laws;
pub mod matrix;
pub mod metrics;
pub mod pool;
pub mod scalar;
pub mod text;
pub mod vector;

pub use dispatch::{assemble, cell_task, map_phase, multiply, received, reduce_phase, Pending};
pub use error::MatrixError;
pub use matrix::{Grid, Matrix};
pub use metrics::{AmapMetrics, MetricsError};
pub use pool::{serve, Msg, MsgInput, MsgOutput, WorkerPool};
pub use scalar::Scalar;
pub use vector::{dot_product, dot_product_fits, Vector};
