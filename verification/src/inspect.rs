//! What `capsule inspect` reports.
use vstd::prelude::*;

use crate::detector::{Language, Project};
use crate::util::text::concat;

verus! {

/// Packages that the runtime itself needs: `tsx` for TypeScript.
pub fn runtime_packages(project: &Project) -> (r: Vec<String>)
    ensures
        project.language == Language::TypeScript ==> r@.map_values(|s: String| s@) == seq!["tsx"@],
        project.language != Language::TypeScript ==> r@.len() == 0,
{
    match project.language {
        Language::TypeScript => {
            let r = vec!["tsx".to_owned()];
            assert(r@.map_values(|s: String| s@) =~= seq!["tsx"@]);
            r
        },
        Language::Python | Language::Node => Vec::new(),
    }
}

/// The lines that list values: `  none` for no value, `  - value` for each.
pub fn list_lines(values: &[String]) -> (r: Vec<String>)
    ensures
        values@.len() == 0 ==> r@.map_values(|s: String| s@) == seq!["  none"@],
        values@.len() > 0 ==> r@.len() == values@.len() && forall|i: int|
            0 <= i < r@.len() ==> #[trigger] r@[i]@ == "  - "@ + values@[i]@,
{
    if values.len() == 0 {
        let r = vec!["  none".to_owned()];
        assert(r@.map_values(|s: String| s@) =~= seq!["  none"@]);
        return r;
    }
    let mut r: Vec<String> = Vec::new();
    let mut i: usize = 0;
    while i < values.len()
        invariant
            i <= values@.len(),
            r@.len() == i,
            forall|k: int| 0 <= k < i ==> #[trigger] r@[k]@ == "  - "@ + values@[k]@,
        decreases values@.len() - i,
    {
        r.push(concat("  - ", values[i].as_str()));
        i = i + 1;
    }
    r
}

} // verus!
