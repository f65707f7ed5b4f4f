//! On-disk feature flags: a flag is set when a marker file of its name
//! exists under the flags directory. The existence test is file I/O and
//! belongs to the embedding binary; the flag names and the marker path
//! are decided here.

use vstd::prelude::*;
use vstd::string::*;

verus! {

/// The known feature flags; each names one marker file.
#[derive(Debug, Clone, Copy)]
pub enum Flags {
    LimitedCache,
}

impl Flags {
    /// The marker file name of this flag.
    pub fn as_str(&self) -> (r: &'static str)
        ensures
            r@ == "limited-cache"@,
    {
        match self {
            Flags::LimitedCache => "limited-cache",
        }
    }
}

/// The path of the marker file for `key`: the flags directory, a
/// separator, the key.
pub fn flag_path(key: &str) -> (r: String)
    ensures
        r@ == "/tmp/flags/"@ + key@,
{
    let mut s = String::from_str("/tmp/flags/");
    s.append(key);
    s
}

} // verus!
