//! Configuration types that are built from the environment.
use vstd::prelude::*;
use crate::error::Result;

verus! {

/// A configuration that can be built from the environment.
///
/// `env_name_key` names the environment variable that holds the name of the
/// current environment (such as `local` or `prd`), and `dotenv_file` the
/// dotenv file to load before the configuration is built; `from_env_with`
/// builds the configuration for the given environment name.
pub trait EnvPortal {
    fn env_name_key() -> Option<&'static str>;

    fn dotenv_file() -> Option<&'static str>;

    fn from_env_with(env: Option<String>) -> Result<Self> where Self: Sized;
}

/// The dotenv files that building a configuration loads, where they exist,
/// in this order: the configured file, then the file for the environment
/// name, named as the configured file followed by `.` and that name.
pub fn dotenv_files(file: Option<&str>, env: Option<&str>) -> (r: Vec<String>)
    ensures
        file is None ==> r@.len() == 0,
        file matches Some(f) ==> {
            &&& r@.len() == if env is Some {
                2int
            } else {
                1int
            }
            &&& r@[0]@ == f@
            &&& env matches Some(e) ==> r@[1]@ == f@ + "."@ + e@
        },
{
    let mut r: Vec<String> = Vec::new();
    if let Some(f) = file {
        r.push(String::from_str(f));
        if let Some(e) = env {
            let mut name = String::from_str(f);
            name.append(".");
            name.append(e);
            r.push(name);
        }
    }
    r
}

} // verus!
