//! The generated source file: one snippet per asset, in manifest order.
use vstd::prelude::*;
use crate::ident::{all_named, gen_idents, has_icon_form, names_distinct, path_ident, path_ok, IdentError, NameError};
use crate::snippet::{gen_snippet, snippet_text};

verus! {

/// The snippets of the first `n` assets, one line break between two.
pub open spec fn code_upto(paths: Seq<String>, contents: Seq<String>, n: int) -> Seq<char>
    decreases n,
{
    if n <= 0 {
        Seq::empty()
    } else {
        code_upto(paths, contents, n - 1) + (if n > 1 { seq!['\n'] } else { Seq::empty() })
            + snippet_text(path_ident(paths[n - 1]@), contents[n - 1]@)
    }
}

pub open spec fn code_spec(paths: Seq<String>, contents: Seq<String>) -> Seq<char> {
    code_upto(paths, contents, paths.len() as int)
}

/// The whole generated file for the assets' paths and resolved contents,
/// given in manifest order. Fails, with nothing built, when a path has no
/// identifier or two paths share one.
pub fn generate_code(paths: &Vec<String>, contents: &Vec<String>) -> (r: Result<String, NameError>)
    requires
        paths@.len() == contents@.len(),
    ensures
        r is Ok <==> all_named(paths@) && names_distinct(paths@),
        r is Ok ==> r->Ok_0@ == code_spec(paths@, contents@),
        r matches Err(NameError::Invalid(k, e)) ==> k < paths@.len() && !path_ok(paths@[k as int]@)
            && (forall|i: int| 0 <= i < k ==> path_ok(#[trigger] paths@[i]@))
            && (e == if has_icon_form(paths@[k as int]@) { IdentError::MalformedSlug } else { IdentError::BadPath }),
        r matches Err(NameError::Collision(a, b)) ==> all_named(paths@) && a < b < paths@.len()
            && path_ident(paths@[a as int]@) == path_ident(paths@[b as int]@),
{
    let idents = match gen_idents(paths) {
        Ok(v) => v,
        Err(e) => return Err(e),
    };
    let n = paths.len();
    let mut code = String::new();
    let mut k: usize = 0;
    while k < n
        invariant
            n == paths@.len(),
            n == contents@.len(),
            idents@.len() == n,
            forall|i: int| 0 <= i < n ==> (#[trigger] idents@[i])@ == path_ident(paths@[i]@),
            k <= n,
            code@ == code_upto(paths@, contents@, k as int),
        decreases n - k,
    {
        if k > 0 {
            proof {
                reveal_strlit("\n");
            }
            code.append("\n");
        }
        let snippet = gen_snippet(idents[k].as_str(), contents[k].as_str());
        code.append(snippet.as_str());
        assert(code@ =~= code_upto(paths@, contents@, k + 1));
        k = k + 1;
    }
    Ok(code)
}

} // verus!
