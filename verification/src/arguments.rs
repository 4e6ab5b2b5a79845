//! Run configuration.
//!
//! The command line itself is parsed and validated by the surrounding
//! application; the library receives the resolved values in
//! `CommandLineArgs`. A preset name is resolved here to the raw query
//! entries it stands for.

use vstd::prelude::*;
use crate::constants::{get_presets, spec_presets, presets_model};
use crate::casefold::str_eq;

verus! {

/// The resolved run configuration, as the application hands it over.
pub struct CommandLineArgs {
    /// path of the compressed input archive
    pub input: String,
    /// path of the output file for matched lines
    pub output: String,
    /// raw `field:value` query entries, when given directly
    pub fields: Option<Vec<String>>,
    /// append to the output file instead of overwriting it
    pub append: bool,
    /// maximum number of lines per batch
    pub chunk_size: usize,
    /// overwrite the output file without asking
    pub overwrite: bool,
    /// sample the input instead of scanning it exhaustively
    pub random: bool,
    /// only count the input's lines and exit
    pub linecount: bool,
    /// name of a built-in preset, when one is used
    pub preset: Option<String>,
    /// print run details at start
    pub verbose: bool,
    /// number of worker threads
    pub threads: usize,
}

/// Resolves a preset name to the raw query entries it stands for; nothing
/// when no built-in preset has the name.
pub fn get_preset_fields(preset: &str) -> (r: Option<Vec<String>>)
    ensures
        match r {
            Some(fields) => exists|j: int|
                0 <= j < spec_presets().len() && (#[trigger] spec_presets()[j]).name == preset@
                    && fields@.map_values(|s: String| s@) == spec_presets()[j].fields,
            None => forall|j: int|
                0 <= j < spec_presets().len() ==> (#[trigger] spec_presets()[j]).name != preset@,
        },
{
    let mut presets = get_presets();
    let n = presets.len();
    let mut j: usize = 0;
    while j < n
        invariant
            n == presets@.len(),
            j <= n,
            presets_model(presets@) == spec_presets(),
            forall|k: int| 0 <= k < j ==> (#[trigger] spec_presets()[k]).name != preset@,
        decreases n - j,
    {
        proof {
            assert(presets_model(presets@)[j as int] == presets@[j as int].model());
        }
        if str_eq(presets[j].name.as_str(), preset) {
            let p = presets.remove(j);
            return Some(p.fields);
        }
        j = j + 1;
    }
    None
}

} // verus!
