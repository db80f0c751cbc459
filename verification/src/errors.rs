//! The error texts that the application hands to its front end.
use vstd::prelude::*;

verus! {

/// Prefix of an error reported by an engine or its connection.
pub const ENGINE_PREFIX: &'static str = "ENGINE:";

/// What follows the prefix when an engine's answer is not JSON.
pub const DECODE_ERROR: &'static str = "error decoding response body";

/// What follows the prefix when the image engine's answer names no job.
pub const NO_JOB_ID: &'static str = "no job id";

/// The model answered nothing usable.
pub const EMPTY: &'static str = "EMPTY";

/// The text engine is still loading its model.
pub const LOADING: &'static str = "LOADING";

/// No model is chosen.
pub const NO_MODEL: &'static str = "NO_MODEL";

/// The work was cancelled.
pub const CANCELED: &'static str = "CANCELED";

/// A file name that could leave its folder.
pub const BAD_NAME: &'static str = "bad name";

/// The model's files are not all on disk.
pub const NOT_DOWNLOADED: &'static str = "not downloaded";

/// No catalog entry has that id.
pub const UNKNOWN_MODEL: &'static str = "unknown model";

/// The chosen model's file is missing.
pub const MODEL_MISSING: &'static str = "model_missing";

/// The engine's program is missing.
pub const ENGINE_MISSING: &'static str = "engine_missing";

/// The engine ended while loading.
pub const LOAD_FAILED: &'static str = "load_failed";

/// The engine did not become ready in time.
pub const LOAD_TIMEOUT: &'static str = "load_timeout";

/// The uncensored text model, which rewrites image prompts, is missing.
pub const NO_UNCENSORED: &'static str = "NO_UNCENSORED";

/// Editing a photo needs a photo.
pub const NEED_PHOTO: &'static str = "NEED_PHOTO";

} // verus!
