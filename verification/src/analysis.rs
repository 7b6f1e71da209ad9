//! The analysis client's pure half: locating the JSON object in a model
//! reply, parsing it into a judgment, and normalizing the judged category
//! against the configured category names.

use vstd::prelude::*;
use vstd::string::StrSliceExecFns;
use vstd::string::StringExecFns;
use vstd::string::StringSliceAdditionalSpecFns;
use vstd::utf8::encode_utf8;

use crate::errors::AnalysisError;
use crate::models::{AnalysisResult, AnalysisResultV, Article};
use crate::text::{eq_ignore_ascii_case, str_eq_ignore_ascii_case};

verus! {

/// `i` is the position of the first occurrence of `c` in `s`.
pub open spec fn is_first_index_of(s: Seq<char>, c: char, i: int) -> bool {
    0 <= i < s.len() && s[i] == c && forall|k: int| 0 <= k < i ==> s[k] != c
}

/// `j` is the position of the last occurrence of `c` in `s`.
pub open spec fn is_last_index_of(s: Seq<char>, c: char, j: int) -> bool {
    0 <= j < s.len() && s[j] == c && forall|k: int| j < k < s.len() ==> s[k] != c
}

/// The substring from the first `{` through the last `}`, when the first `{`
/// comes before the last `}`; the whole text otherwise.
pub open spec fn extracted_json(s: Seq<char>) -> Seq<char> {
    if (exists|i: int| is_first_index_of(s, '{', i)) && (exists|j: int|
        is_last_index_of(s, '}', j)) {
        let i = choose|i: int| is_first_index_of(s, '{', i);
        let j = choose|j: int| is_last_index_of(s, '}', j);
        if i < j {
            s.subrange(i, j + 1)
        } else {
            s
        }
    } else {
        s
    }
}

/// The position of the first occurrence of `c` in `content`, if any.
fn find_first_char(content: &str, c: char) -> (r: Option<usize>)
    ensures
        match r {
            Some(i) => is_first_index_of(content@, c, i as int),
            None => forall|k: int| 0 <= k < content@.len() ==> content@[k] != c,
        },
{
    let n = content.unicode_len();
    let mut i: usize = 0;
    while i < n
        invariant
            i <= n == content@.len(),
            forall|k: int| 0 <= k < i ==> content@[k] != c,
        decreases n - i,
    {
        if content.get_char(i) == c {
            return Some(i);
        }
        i += 1;
    }
    None
}

/// The position of the last occurrence of `c` in `content`, if any.
fn find_last_char(content: &str, c: char) -> (r: Option<usize>)
    ensures
        match r {
            Some(j) => is_last_index_of(content@, c, j as int),
            None => forall|k: int| 0 <= k < content@.len() ==> content@[k] != c,
        },
{
    let n = content.unicode_len();
    let mut i: usize = n;
    while i > 0
        invariant
            i <= n == content@.len(),
            forall|k: int| i <= k < content@.len() ==> content@[k] != c,
        decreases i,
    {
        i -= 1;
        if content.get_char(i) == c {
            return Some(i);
        }
    }
    None
}

/// Two first-occurrence positions coincide.
proof fn lemma_first_index_unique(s: Seq<char>, c: char, i1: int, i2: int)
    requires
        is_first_index_of(s, c, i1),
        is_first_index_of(s, c, i2),
    ensures
        i1 == i2,
{
}

/// Two last-occurrence positions coincide.
proof fn lemma_last_index_unique(s: Seq<char>, c: char, j1: int, j2: int)
    requires
        is_last_index_of(s, c, j1),
        is_last_index_of(s, c, j2),
    ensures
        j1 == j2,
{
}

/// The JSON object embedded in a model reply: the first `{` through the last
/// `}` when that span is non-trivial, the whole reply otherwise.
pub fn extract_json(content: &str) -> (r: String)
    ensures
        r@ == extracted_json(content@),
{
    let n = content.unicode_len();
    let first = find_first_char(content, '{');
    let last = find_last_char(content, '}');
    match (first, last) {
        (Some(i), Some(j)) => {
            if i < j {
                proof {
                    let ci = choose|i0: int| is_first_index_of(content@, '{', i0);
                    let cj = choose|j0: int| is_last_index_of(content@, '}', j0);
                    lemma_first_index_unique(content@, '{', ci, i as int);
                    lemma_last_index_unique(content@, '}', cj, j as int);
                }
                assert(j < n);
                let sub = content.substring_char(i, j + 1);
                sub.to_owned()
            } else {
                proof {
                    let ci = choose|i0: int| is_first_index_of(content@, '{', i0);
                    let cj = choose|j0: int| is_last_index_of(content@, '}', j0);
                    lemma_first_index_unique(content@, '{', ci, i as int);
                    lemma_last_index_unique(content@, '}', cj, j as int);
                }
                content.to_owned()
            }
        },
        _ => content.to_owned(),
    }
}

/// The four judgment fields that JSON-parsing a text yields, when it is one
/// well-formed JSON object holding a boolean "relevant", a string "reason",
/// an i64 "priority" and a string "category"; None otherwise. What counts as
/// well-formed JSON takes pages to state, so the result bears a name instead:
/// it is a function of the text alone.
pub uninterp spec fn judgment_fields_of(s: Seq<char>) -> Option<(bool, Seq<char>, int, Seq<char>)>;

/// Relies on serde_json::from_str::<Value> and the accessors Value::get,
/// Value::as_bool, Value::as_i64 and Value::as_str: parses the text as one
/// JSON document and reads the four judgment fields out of it, all a function
/// of the text alone, named by [`judgment_fields_of`].
#[verifier::external_body]
fn parse_judgment_fields(s: &str) -> (r: Option<(bool, String, i64, String)>)
    ensures
        match r {
            Some(f) => judgment_fields_of(s@) == Some((f.0, f.1@, f.2 as int, f.3@)),
            None => judgment_fields_of(s@) is None,
        },
{
    let v: serde_json::Value = serde_json::from_str(s).ok()?;
    Some((
        v.get("relevant")?.as_bool()?,
        v.get("reason")?.as_str()?.to_owned(),
        v.get("priority")?.as_i64()?,
        v.get("category")?.as_str()?.to_owned(),
    ))
}

/// Assembles a judgment from its four parsed fields. A priority outside the
/// contract's 1..=5 range makes the whole judgment invalid rather than being
/// silently adjusted.
pub fn judgment_from_fields(relevant: bool, reason: String, priority: i64, category: String) -> (r:
    Option<AnalysisResult>)
    ensures
        1 <= priority <= 5 ==> (r matches Some(j) && j@ == (AnalysisResultV {
            relevant: relevant,
            reason: reason@,
            priority: priority as int,
            category: category@,
        })),
        !(1 <= priority <= 5) ==> r is None,
{
    if 1 <= priority && priority <= 5 {
        Some(AnalysisResult { relevant, reason, priority, category })
    } else {
        None
    }
}

/// Parses a judgment out of the model's free-text reply: the span from the
/// first `{` through the last `}` is read as a JSON object with the four
/// judgment fields. It succeeds exactly when that span parses to the four
/// fields with a priority within 1..=5, and then returns them verbatim; any
/// other reply fails, keeping the raw reply — a default judgment is never
/// substituted.
pub fn parse_judgment(content: &str) -> (r: Result<AnalysisResult, AnalysisError>)
    ensures
        (r is Ok) <==> (judgment_fields_of(extracted_json(content@)) matches Some(f) && 1 <= f.2
            <= 5),
        r matches Ok(j) ==> j@.valid() && judgment_fields_of(extracted_json(content@)) == Some(
            (j@.relevant, j@.reason, j@.priority, j@.category),
        ),
        r matches Err(e) ==> (e matches AnalysisError::MalformedJudgment(raw) && raw@ == content@),
{
    let json_str = extract_json(content);
    match parse_judgment_fields(json_str.as_str()) {
        Some((relevant, reason, priority, category)) => {
            match judgment_from_fields(relevant, reason, priority, category) {
                Some(j) => Ok(j),
                None => Err(AnalysisError::MalformedJudgment(content.to_owned())),
            }
        },
        None => Err(AnalysisError::MalformedJudgment(content.to_owned())),
    }
}

/// The views of the configured category names.
pub open spec fn cat_views(cats: Seq<String>) -> Seq<Seq<char>> {
    cats.map_values(|c: String| c@)
}

/// Whether `candidate` equals one of the configured category names up to
/// ASCII case.
pub open spec fn category_allowed(cats: Seq<Seq<char>>, candidate: Seq<char>) -> bool {
    exists|i: int|
        0 <= i < cats.len() && eq_ignore_ascii_case(
            encode_utf8(#[trigger] cats[i]),
            encode_utf8(candidate),
        )
}

/// The category a judgment is persisted under: the judged name when it is
/// configured (kept verbatim), the fallback name otherwise.
pub open spec fn normalized_category(cats: Seq<Seq<char>>, candidate: Seq<char>) -> Seq<char> {
    if category_allowed(cats, candidate) {
        candidate
    } else {
        "Other"@
    }
}

/// Forces a judged category into the configured set: a candidate matching a
/// configured name up to ASCII case is kept verbatim, anything else becomes
/// "Other".
pub fn normalize_category(candidate: &String, categories: &Vec<String>) -> (r: String)
    ensures
        r@ == normalized_category(cat_views(categories@), candidate@),
{
    let mut i: usize = 0;
    while i < categories.len()
        invariant
            i <= categories@.len(),
            forall|k: int|
                0 <= k < i ==> !eq_ignore_ascii_case(
                    encode_utf8(#[trigger] cat_views(categories@)[k]),
                    encode_utf8(candidate@),
                ),
        decreases categories@.len() - i,
    {
        if str_eq_ignore_ascii_case(categories[i].as_str(), candidate.as_str()) {
            proof {
                assert(eq_ignore_ascii_case(
                    encode_utf8(cat_views(categories@)[i as int]),
                    encode_utf8(candidate@),
                ));
            }
            return candidate.clone();
        }
        i += 1;
    }
    "Other".to_owned()
}

/// The sequences of `parts` joined by `sep`.
pub open spec fn joined(parts: Seq<Seq<char>>, sep: Seq<char>) -> Seq<char>
    decreases parts.len(),
{
    if parts.len() == 0 {
        Seq::empty()
    } else if parts.len() == 1 {
        parts[0]
    } else {
        joined(parts.drop_last(), sep) + sep + parts.last()
    }
}

/// The configured category names joined by ", ".
fn join_categories(categories: &Vec<String>) -> (r: String)
    ensures
        r@ == joined(cat_views(categories@), ", "@),
{
    let mut acc = String::new();
    let mut i: usize = 0;
    while i < categories.len()
        invariant
            i <= categories@.len(),
            acc@ == joined(cat_views(categories@).take(i as int), ", "@),
        decreases categories@.len() - i,
    {
        if i > 0 {
            acc.append(", ");
        }
        acc.append(categories[i].as_str());
        proof {
            let cs = cat_views(categories@);
            let gi = i as int;
            assert(cs.take(gi + 1).drop_last() =~= cs.take(gi));
            assert(cs.take(gi + 1).last() == cs[gi]);
            assert(acc@ =~= joined(cs.take(gi + 1), ", "@));
        }
        i += 1;
    }
    proof {
        assert(cat_views(categories@).take(categories@.len() as int) =~= cat_views(categories@));
    }
    acc
}

/// The single-turn prompt sent for one item: fixed instructions and output
/// shape, then the persona, the allowed category names, and the item's title
/// and URL (a missing URL reads "N/A").
pub open spec fn prompt_text(
    persona: Seq<char>,
    cats: Seq<Seq<char>>,
    title: Seq<char>,
    url: Option<Seq<char>>,
) -> Seq<char> {
    "Analyze this Hacker News article.\nAssign the most specific category from the list below.\nUse 'Other' ONLY for news that does not fit any other category.\n\nOutput Format (JSON):\n{\"relevant\": boolean, \"reason\": \"explanation\", \"priority\": number (1-5), \"category\": \"category_name\"}\n\nPersona: "@
        + persona + "\n\nAvailable Categories (Strict): "@ + joined(cats, ", "@)
        + "\n\nArticle Title: "@ + title + "\nArticle URL: "@ + (match url {
        Some(u) => u,
        None => "N/A"@,
    })
}

/// Builds the prompt for one item.
pub fn build_prompt(persona: &str, article: &Article, categories: &Vec<String>) -> (r: String)
    ensures
        r@ == prompt_text(persona@, cat_views(categories@), article@.title, article@.url),
{
    let mut p = String::new();
    p.append(
        "Analyze this Hacker News article.\nAssign the most specific category from the list below.\nUse 'Other' ONLY for news that does not fit any other category.\n\nOutput Format (JSON):\n{\"relevant\": boolean, \"reason\": \"explanation\", \"priority\": number (1-5), \"category\": \"category_name\"}\n\nPersona: ",
    );
    p.append(persona);
    p.append("\n\nAvailable Categories (Strict): ");
    let cats = join_categories(categories);
    p.append(cats.as_str());
    p.append("\n\nArticle Title: ");
    p.append(article.title.as_str());
    p.append("\nArticle URL: ");
    match &article.url {
        Some(u) => p.append(u.as_str()),
        None => p.append("N/A"),
    }
    proof {
        assert(p@ =~= prompt_text(
            persona@,
            cat_views(categories@),
            article@.title,
            article@.url,
        ));
    }
    p
}

} // verus!
