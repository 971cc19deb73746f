//! Slug to type-name conversion: `alarm-clock` becomes `AlarmClock`.
use vstd::prelude::*;
use crate::text::{is_alpha, is_ascii_alpha, is_ascii_digit, is_digit, matches_at, occurs_at, push_char, to_upper, upper};

verus! {

/// Why a manifest path could not be turned into an identifier.
#[derive(Debug, Clone, PartialEq, Eq)]
pub enum IdentError {
    /// The path does not have the form `/icons/<slug>.svg`.
    BadPath,
    /// The slug is empty, starts with something other than a letter, holds a
    /// character other than letters, digits and `-`, holds `--`, or ends in `-`.
    MalformedSlug,
}

pub open spec fn slug_char(c: char) -> bool {
    is_alpha(c) || is_digit(c) || c == '-'
}

/// The slugs the generator is defined on.
pub open spec fn valid_slug(s: Seq<char>) -> bool {
    &&& s.len() > 0
    &&& is_alpha(s[0])
    &&& forall|i: int| 0 <= i < s.len() ==> slug_char(#[trigger] s[i])
    &&& forall|i: int| 0 <= i < s.len() - 1 ==> !(#[trigger] s[i] == '-' && s[i + 1] == '-')
    &&& s[s.len() - 1] != '-'
}

/// What the slug's character at `i` contributes to the identifier: the first
/// character and each one after a hyphen are uppercased, hyphens vanish, and a
/// hyphen between two digits becomes `_` so that digit groups stay apart.
pub open spec fn piece(s: Seq<char>, i: int) -> Seq<char> {
    if i == 0 {
        seq![upper(s[0])]
    } else if s[i] == '-' {
        if i + 1 < s.len() && is_digit(s[i + 1]) && is_digit(s[i - 1]) {
            seq!['_']
        } else {
            Seq::empty()
        }
    } else if s[i - 1] == '-' {
        seq![upper(s[i])]
    } else {
        seq![s[i]]
    }
}

/// The identifier built from the first `n` characters of the slug.
pub open spec fn ident_upto(s: Seq<char>, n: int) -> Seq<char>
    decreases n,
{
    if n <= 0 {
        Seq::empty()
    } else {
        ident_upto(s, n - 1) + piece(s, n - 1)
    }
}

pub open spec fn ident_spec(s: Seq<char>) -> Seq<char> {
    ident_upto(s, s.len() as int)
}

/// A type name in every target language: ASCII letters, digits and `_`,
/// beginning with an uppercase letter.
pub open spec fn valid_identifier(id: Seq<char>) -> bool {
    &&& id.len() > 0
    &&& 'A' <= id[0] && id[0] <= 'Z'
    &&& forall|i: int| 0 <= i < id.len() ==> is_alpha(#[trigger] id[i]) || is_digit(id[i]) || id[i] == '_'
}

pub open spec fn icons_prefix() -> Seq<char> {
    seq!['/', 'i', 'c', 'o', 'n', 's', '/']
}

pub open spec fn svg_suffix() -> Seq<char> {
    seq!['.', 's', 'v', 'g']
}

/// `path` is `/icons/<slug>.svg`.
pub open spec fn has_icon_form(path: Seq<char>) -> bool {
    &&& path.len() >= icons_prefix().len() + svg_suffix().len()
    &&& occurs_at(path, icons_prefix(), 0)
    &&& occurs_at(path, svg_suffix(), path.len() - svg_suffix().len())
}

pub open spec fn slug_spec(path: Seq<char>) -> Seq<char> {
    path.subrange(icons_prefix().len() as int, path.len() - svg_suffix().len())
}

/// The bare slug of a manifest path: `/icons/alarm-clock.svg` gives `alarm-clock`.
pub fn slug_of_path(path: &str) -> (r: Option<&str>)
    ensures
        r is Some <==> has_icon_form(path@),
        r is Some ==> r->0@ == slug_spec(path@),
{
    let prefix = "/icons/";
    let suffix = ".svg";
    proof {
        reveal_strlit("/icons/");
        reveal_strlit(".svg");
        assert(prefix@ =~= icons_prefix());
        assert(suffix@ =~= svg_suffix());
    }
    let n = path.unicode_len();
    if n < 11 {
        return None;
    }
    if !matches_at(path, prefix, 0) || !matches_at(path, suffix, n - 4) {
        return None;
    }
    Some(path.substring_char(7, n - 4))
}

pub fn is_valid_slug(s: &str) -> (r: bool)
    ensures
        r == valid_slug(s@),
{
    let n = s.unicode_len();
    if n == 0 || !is_ascii_alpha(s.get_char(0)) || s.get_char(n - 1) == '-' {
        return false;
    }
    let mut i: usize = 0;
    while i < n
        invariant
            n == s@.len(),
            n > 0,
            i <= n,
            forall|j: int| 0 <= j < i ==> slug_char(#[trigger] s@[j]),
            forall|j: int| 0 <= j < i && j < n - 1 ==> !(#[trigger] s@[j] == '-' && s@[j + 1] == '-'),
        decreases n - i,
    {
        let c = s.get_char(i);
        if !(is_ascii_alpha(c) || is_ascii_digit(c) || c == '-') {
            assert(!slug_char(s@[i as int]));
            return false;
        }
        if c == '-' && i + 1 < n && s.get_char(i + 1) == '-' {
            return false;
        }
        i = i + 1;
    }
    true
}

proof fn lemma_ident_upto_valid(s: Seq<char>, n: int)
    requires
        valid_slug(s),
        0 < n <= s.len(),
    ensures
        valid_identifier(ident_upto(s, n)),
    decreases n,
{
    if n == 1 {
        assert(ident_upto(s, 0) =~= Seq::<char>::empty());
        assert(ident_upto(s, 1) =~= seq![upper(s[0])]);
    } else {
        lemma_ident_upto_valid(s, n - 1);
        let a = ident_upto(s, n - 1);
        let p = piece(s, n - 1);
        assert(slug_char(s[n - 1]));
        assert forall|i: int| 0 <= i < p.len() implies is_alpha(#[trigger] p[i]) || is_digit(p[i]) || p[i] == '_' by {}
        assert forall|i: int| 0 <= i < a.len() + p.len() implies is_alpha(#[trigger] (a + p)[i]) || is_digit((a + p)[i]) || (a + p)[i] == '_' by {
            if i >= a.len() {
                assert((a + p)[i] == p[i - a.len()]);
            }
        }
    }
}

/// Every identifier that the generator produces is a valid type name.
pub proof fn lemma_ident_is_valid(s: Seq<char>)
    requires
        valid_slug(s),
    ensures
        valid_identifier(ident_spec(s)),
{
    lemma_ident_upto_valid(s, s.len() as int);
}

/// The identifier is a function of the slug alone: equal slugs give equal
/// identifiers, on every call.
pub proof fn lemma_ident_deterministic(a: Seq<char>, b: Seq<char>)
    requires
        valid_slug(a),
        a == b,
    ensures
        ident_spec(a) == ident_spec(b),
        valid_identifier(ident_spec(a)),
{
    lemma_ident_is_valid(a);
}

/// Runs the slug through the hyphen/number state machine.
pub fn ident_of_slug(slug: &str) -> (r: Result<String, IdentError>)
    ensures
        r is Ok <==> valid_slug(slug@),
        r is Ok ==> r->Ok_0@ == ident_spec(slug@) && valid_identifier(r->Ok_0@),
        r is Err ==> r->Err_0 == IdentError::MalformedSlug,
{
    if !is_valid_slug(slug) {
        return Err(IdentError::MalformedSlug);
    }
    let n = slug.unicode_len();
    let mut ident = String::new();
    let mut at_hyphen = false;
    let mut at_number = false;
    let mut i: usize = 0;
    while i < n
        invariant
            n == slug@.len(),
            valid_slug(slug@),
            i <= n,
            ident@ == ident_upto(slug@, i as int),
            i == 0 ==> !at_hyphen && !at_number,
            i > 0 ==> at_hyphen == (slug@[i - 1] == '-'),
            i > 0 ==> at_number == (if slug@[i - 1] == '-' {
                is_digit(slug@[i - 2])
            } else {
                i > 1 && is_digit(slug@[i - 1])
            }),
        decreases n - i,
    {
        let c = slug.get_char(i);
        proof {
            if i > 1 && slug@[i - 1] == '-' {
                assert(slug@[i - 2] != '-');
            }
        }
        if i == 0 {
            push_char(&mut ident, to_upper(c));
        } else if c == '-' {
            if i + 1 < n {
                let nc = slug.get_char(i + 1);
                if is_ascii_digit(nc) && at_number {
                    push_char(&mut ident, '_');
                }
            }
            at_hyphen = true;
        } else if at_hyphen {
            at_hyphen = false;
            at_number = is_ascii_digit(c);
            push_char(&mut ident, to_upper(c));
        } else {
            at_number = is_ascii_digit(c);
            push_char(&mut ident, c);
        }
        proof {
            assert(ident_upto(slug@, i + 1) == ident_upto(slug@, i as int) + piece(slug@, i as int));
            if i == 1 && c == '-' {
                assert(!is_digit(slug@[0]));
            }
        }
        assert(ident@ =~= ident_upto(slug@, i + 1));
        i = i + 1;
    }
    proof {
        lemma_ident_is_valid(slug@);
    }
    Ok(ident)
}

/// The identifier for a manifest path `/icons/<slug>.svg`.
pub fn gen_ident(path: &str) -> (r: Result<String, IdentError>)
    ensures
        !has_icon_form(path@) ==> r == Err::<String, IdentError>(IdentError::BadPath),
        has_icon_form(path@) ==> (r is Ok <==> valid_slug(slug_spec(path@))),
        has_icon_form(path@) && !valid_slug(slug_spec(path@)) ==> r == Err::<String, IdentError>(IdentError::MalformedSlug),
        r is Ok ==> r->Ok_0@ == ident_spec(slug_spec(path@)) && valid_identifier(r->Ok_0@),
{
    match slug_of_path(path) {
        None => Err(IdentError::BadPath),
        Some(slug) => ident_of_slug(slug),
    }
}

/// Why a set of manifest paths could not be named.
#[derive(Debug, Clone, PartialEq, Eq)]
pub enum NameError {
    /// The path at this position has no identifier.
    Invalid(usize, IdentError),
    /// The paths at these two positions give the same identifier.
    Collision(usize, usize),
}

/// The path has an identifier.
pub open spec fn path_ok(p: Seq<char>) -> bool {
    has_icon_form(p) && valid_slug(slug_spec(p))
}

pub open spec fn path_ident(p: Seq<char>) -> Seq<char> {
    ident_spec(slug_spec(p))
}

pub open spec fn all_named(paths: Seq<String>) -> bool {
    forall|i: int| 0 <= i < paths.len() ==> path_ok(#[trigger] paths[i]@)
}

pub open spec fn names_distinct(paths: Seq<String>) -> bool {
    forall|i: int, j: int|
        0 <= i < j < paths.len() ==> path_ident(#[trigger] paths[i]@) != path_ident(#[trigger] paths[j]@)
}

/// The first pair of positions, in order, that hold equal strings.
pub fn find_duplicate(v: &Vec<String>) -> (r: Option<(usize, usize)>)
    ensures
        r is None <==> (forall|i: int, j: int| 0 <= i < j < v@.len() ==> (#[trigger] v@[i])@ != (#[trigger] v@[j])@),
        r matches Some((i, j)) ==> i < j < v@.len() && v@[i as int]@ == v@[j as int]@,
{
    let n = v.len();
    let mut i: usize = 0;
    while i < n
        invariant
            n == v@.len(),
            i <= n,
            forall|a: int, b: int| 0 <= a < i && a < b < n ==> (#[trigger] v@[a])@ != (#[trigger] v@[b])@,
        decreases n - i,
    {
        let mut j: usize = i + 1;
        while j < n
            invariant
                n == v@.len(),
                i < n,
                i < j <= n,
                forall|a: int, b: int| 0 <= a < i && a < b < n ==> (#[trigger] v@[a])@ != (#[trigger] v@[b])@,
                forall|b: int| i < b < j ==> v@[i as int]@ != (#[trigger] v@[b])@,
            decreases n - j,
        {
            if v[i] == v[j] {
                return Some((i, j));
            }
            j = j + 1;
        }
        i = i + 1;
    }
    None
}

/// One identifier per manifest path, in order. A path without an identifier,
/// or two paths with the same one, is an error: identifiers are never
/// adjusted to make them unique.
pub fn gen_idents(paths: &Vec<String>) -> (r: Result<Vec<String>, NameError>)
    ensures
        r is Ok <==> all_named(paths@) && names_distinct(paths@),
        r is Ok ==> r->Ok_0@.len() == paths@.len()
            && forall|i: int| 0 <= i < paths@.len() ==> (#[trigger] r->Ok_0@[i])@ == path_ident(paths@[i]@),
        r is Ok ==> forall|i: int, j: int| 0 <= i < j < paths@.len() ==> (#[trigger] r->Ok_0@[i])@ != (#[trigger] r->Ok_0@[j])@,
        r matches Err(NameError::Invalid(k, e)) ==> k < paths@.len() && !path_ok(paths@[k as int]@)
            && (forall|i: int| 0 <= i < k ==> path_ok(#[trigger] paths@[i]@))
            && (e == if has_icon_form(paths@[k as int]@) { IdentError::MalformedSlug } else { IdentError::BadPath }),
        r matches Err(NameError::Collision(a, b)) ==> all_named(paths@) && a < b < paths@.len()
            && path_ident(paths@[a as int]@) == path_ident(paths@[b as int]@),
{
    let n = paths.len();
    let mut idents: Vec<String> = Vec::new();
    let mut k: usize = 0;
    while k < n
        invariant
            n == paths@.len(),
            k <= n,
            idents@.len() == k,
            forall|i: int| 0 <= i < k ==> path_ok(#[trigger] paths@[i]@),
            forall|i: int| 0 <= i < k ==> (#[trigger] idents@[i])@ == path_ident(paths@[i]@),
        decreases n - k,
    {
        match gen_ident(paths[k].as_str()) {
            Ok(id) => idents.push(id),
            Err(e) => return Err(NameError::Invalid(k, e)),
        }
        k = k + 1;
    }
    match find_duplicate(&idents) {
        Some((a, b)) => {
            assert(path_ident(paths@[a as int]@) == path_ident(paths@[b as int]@));
            Err(NameError::Collision(a, b))
        },
        None => {
            assert forall|i: int, j: int| 0 <= i < j < paths@.len() implies path_ident(
                #[trigger] paths@[i]@,
            ) != path_ident(#[trigger] paths@[j]@) by {
                assert(idents@[i]@ != idents@[j]@);
            }
            Ok(idents)
        },
    }
}

} // verus!
