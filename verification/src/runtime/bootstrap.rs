//! Start-up steps that need no UI.
use vstd::prelude::*;

use crate::logging::{
    env_filter_parses, init_tracing, lemma_default_filter_parses_safely, LoggingConfig, DEFAULT_ENV_FILTER,
};
use crate::runtime::error::{AppError, AppResult};

verus! {

/// Initialises tracing with the default options; a failure becomes an
/// application error carrying its text.
pub fn init_logging() -> (r: AppResult<()>)
    ensures
        !env_filter_parses(DEFAULT_ENV_FILTER@) ==> (r matches Err(e) && exists|t: Seq<char>| e.message@
            == "invalid tracing filter: "@ + t),
        env_filter_parses(DEFAULT_ENV_FILTER@) ==> (r is Ok || (r matches Err(e) && exists|t: Seq<char>|
            e.message@ == "tracing was already initialized: "@ + t)),
{
    proof {
        lemma_default_filter_parses_safely();
    }
    match init_tracing(&LoggingConfig::default()).0 {
        Ok(()) => Ok(()),
        Err(e) => Err(AppError::from_error(e.describe())),
    }
}

} // verus!
