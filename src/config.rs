use vstd::prelude::*;

use crate::error::JailError;
use crate::names::{join, join_path};
use crate::runtime::{runtime_named, runtime_named_spec, Runtime};
use crate::text::{lower_of, lowercase};

verus! {

/// The optional global configuration.
#[derive(Debug)]
pub struct Config {
    /// The engine to use instead of the one found first.
    pub runtime: Option<Runtime>,
}

impl Default for Config {
    fn default() -> (r: Config)
        ensures
            r.runtime is None,
    {
        Config { runtime: None }
    }
}

/// The directory that holds one directory per jail, inside the data directory.
pub fn jails_dir(data_dir: &str) -> (r: String)
    ensures
        r@ == join_path(data_dir@, "jails"@),
{
    join(data_dir, "jails")
}

/// The engine override in force: the environment's value when it is set,
/// which must name an engine in any case; else the configuration's choice.
pub fn get_runtime_override(env_value: Option<&str>, config: &Config) -> (r: Result<
    Option<Runtime>,
    JailError,
>)
    ensures
        match env_value {
            Some(v) => match runtime_named_spec(lower_of(v@)) {
                Some(rt) => r == Ok::<Option<Runtime>, JailError>(Some(rt)),
                None => r matches Err(JailError::InvalidRuntime(s)) && s@ == v@,
            },
            None => r == Ok::<Option<Runtime>, JailError>(config.runtime),
        },
{
    match env_value {
        Some(v) => {
            let lower = lowercase(v);
            match runtime_named(lower.as_str()) {
                Some(rt) => Ok(Some(rt)),
                None => Err(JailError::InvalidRuntime(v.to_owned())),
            }
        },
        None => Ok(config.runtime),
    }
}

} // verus!
