//! One statement or operation on many query targets: the chunks that share
//! an SSH session, the sessions that are open at a time, and what becomes
//! of each query target.

pub use self::laws::{
    law_chunk_atomicity, law_concurrency_bounds, law_names_partition, law_never_stuck,
    law_partition_complete, law_prepared_chunk_has_every_tunnel,
};
pub use self::runs::{
    law_all_succeed, law_no_session_no_output, law_one_fails_alone, law_one_query_fails_alone,
    law_run_confined,
};
pub(crate) use self::machine::turned;
pub use self::machine::Batch;
pub use self::model::{BatchAction, BatchEvent, BatchView, ChunkPhase, TargetPhase};
pub use self::plan::{plan_chunks, ChunkRange};

pub mod laws;
pub mod machine;
pub mod model;
pub mod outcome;
pub mod plan;
pub mod runs;
pub mod soundness;
