//! System health: what the diagnostics report, decided from the probes'
//! outputs (running the probes is the shell's work).

use vstd::prelude::*;

use crate::text::{chars_of, contains_text, find_text, first_occurrence, is_first, trim, trim_str};

verus! {

/// Aggregated system health.
#[derive(Debug, PartialEq, Eq)]
pub struct SystemHealth {
    pub git_available: bool,
    pub nim_available: bool,
    pub gpu_detected: bool,
    pub gpu_info: Option<String>,
}

/// The GPU a probe reports: the NVIDIA query's trimmed output when it is not
/// empty, else the CPU brand when it names an Apple M-series chip, else none.
pub open spec fn gpu_of(nvidia: Option<Seq<char>>, cpu_brand: Option<Seq<char>>) -> Option<Seq<char>> {
    if nvidia is Some && trim(nvidia->0).len() > 0 {
        Some(trim(nvidia->0))
    } else if cpu_brand is Some && contains_text(trim(cpu_brand->0), "Apple M"@) {
        Some(trim(cpu_brand->0))
    } else {
        None
    }
}

/// The text of an optional probe output.
pub open spec fn output_text(o: Option<&str>) -> Option<Seq<char>> {
    match o {
        Some(s) => Some(s@),
        None => None,
    }
}

/// Decide whether a GPU was found, from the output of the NVIDIA query (when
/// it ran and succeeded) and of the CPU-brand query (on macOS, when it
/// succeeded).
pub fn gpu_report(nvidia: Option<&str>, cpu_brand: Option<&str>) -> (r: (bool, Option<String>))
    ensures
        r.0 == gpu_of(output_text(nvidia), output_text(cpu_brand)) is Some,
        match gpu_of(output_text(nvidia), output_text(cpu_brand)) {
            Some(g) => r.1 matches Some(x) && x@ == g,
            None => r.1 is None,
        },
{
    match nvidia {
        Some(out) => {
            let info = trim_str(out);
            if info.unicode_len() > 0 {
                return (true, Some(info));
            }
        },
        None => {},
    }
    match cpu_brand {
        Some(out) => {
            let info = trim_str(out);
            let cs = chars_of(info.as_str());
            let pat = chars_of("Apple M");
            match find_text(&cs, &pat) {
                Some(i) => {
                    proof {
                        assert(is_first(cs@, pat@, i as int));
                    }
                    (true, Some(info))
                },
                None => (false, None),
            }
        },
        None => (false, None),
    }
}

} // verus!
