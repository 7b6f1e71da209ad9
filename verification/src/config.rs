//! The fully-resolved configuration handed to the pipeline at startup.
//!
//! Reading environment variables and text files happens outside; the library
//! receives the resolved values. The one rule enforced here: the fallback
//! category name "Other" is always among the configured categories.

use vstd::prelude::*;
use vstd::string::StringSliceAdditionalSpecFns;
use vstd::utf8::encode_utf8;

use crate::analysis::{cat_views, category_allowed};
use crate::text::{eq_ignore_ascii_case, str_eq_ignore_ascii_case};

verus! {

/// Everything the pipeline is configured with: where the store lives, how to
/// reach the model service, the analysis persona and categories, and the
/// cycle's cadence and fetch count.
pub struct Config {
    pub database_url: String,
    pub ollama_url: String,
    pub ollama_model: String,
    pub persona: String,
    pub categories: Vec<String>,
    pub fetch_interval_minutes: u64,
    pub top_stories_count: usize,
}

/// Guarantees the fallback category: when no configured name equals "Other"
/// up to ASCII case, "Other" is appended; the given names are kept in order.
pub fn ensure_other_category(categories: Vec<String>) -> (r: Vec<String>)
    ensures
        category_allowed(cat_views(categories@), "Other"@) ==> r@ == categories@,
        !category_allowed(cat_views(categories@), "Other"@) ==> (r@.len() == categories@.len() + 1
            && r@.take(categories@.len() as int) == categories@ && r@.last()@ == "Other"@),
        category_allowed(cat_views(r@), "Other"@),
{
    let mut i: usize = 0;
    while i < categories.len()
        invariant
            i <= categories@.len(),
            forall|k: int|
                0 <= k < i ==> !eq_ignore_ascii_case(
                    encode_utf8(#[trigger] cat_views(categories@)[k]),
                    encode_utf8("Other"@),
                ),
        decreases categories@.len() - i,
    {
        if str_eq_ignore_ascii_case(categories[i].as_str(), "Other") {
            proof {
                assert(eq_ignore_ascii_case(
                    encode_utf8(cat_views(categories@)[i as int]),
                    encode_utf8("Other"@),
                ));
            }
            return categories;
        }
        i += 1;
    }
    let mut r = categories;
    let ghost before = r@;
    r.push("Other".to_owned());
    proof {
        assert(r@.take(before.len() as int) =~= before);
        assert(eq_ignore_ascii_case(
            encode_utf8(cat_views(r@)[before.len() as int]),
            encode_utf8("Other"@),
        ));
    }
    r
}

} // verus!
