//! A filesystem-capacity exerciser: it fills a directory with self-describing
//! files of pseudo-random content, verifies each against the record held in
//! its own name, and prunes a deterministic half to make room again.
pub mod codec;
pub mod digest;
pub mod generator;
pub mod orchestrator;
pub mod policy;
pub mod store;
pub mod text;

pub use codec::{candidate_name, decode_name, encode_base, encode_name, DecodedName, VerifyError};
pub use digest::digest;
pub use generator::generate;
pub use orchestrator::{
    split_for_prune, Action, Event, Orchestrator, Phase, RunCounters, TrackedFile,
};
pub use policy::{next_file_size, size_from_candidate, MAX_FILE_SIZE, MIN_FILE_SIZE};
pub use store::{
    pick_name, plan_file, resolve_seed, resolve_size, verify_contents, verify_exit_code, CreateError, PlannedFile,
    NAME_ATTEMPTS,
};
pub use text::{decimal_text, parse_decimal};
