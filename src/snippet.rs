//! Generated source for one icon: a marker type whose rendering is the
//! icon's SVG text, held in a raw string literal.
use vstd::prelude::*;
use crate::text::{matches_at, occurs_at, push_char};

verus! {

pub open spec fn hashes(h: nat) -> Seq<char> {
    Seq::new(h, |i: int| '#')
}

/// The sequence that ends a raw string literal opened with `h` hashes.
pub open spec fn closing(h: nat) -> Seq<char> {
    seq!['"'] + hashes(h)
}

pub open spec fn contains(s: Seq<char>, pat: Seq<char>) -> bool {
    exists|i: int| occurs_at(s, pat, i)
}

/// Content fits in a raw string literal with `h` hashes when it does not hold
/// that literal's terminator.
pub open spec fn fits(s: Seq<char>, h: nat) -> bool {
    !contains(s, closing(h))
}

pub open spec fn min_hashes_from(s: Seq<char>, h: nat) -> nat
    decreases s.len() + 1 - h,
{
    if h > s.len() || fits(s, h) {
        h
    } else {
        min_hashes_from(s, h + 1)
    }
}

/// The fewest hashes, at least one, with which the content fits.
pub open spec fn min_hashes(s: Seq<char>) -> nat {
    min_hashes_from(s, 1)
}

/// Does `pat` occur anywhere in `s`?
pub fn find(s: &str, pat: &str) -> (r: bool)
    ensures
        r == contains(s@, pat@),
{
    let n = s.unicode_len();
    let mut i: usize = 0;
    while i < n
        invariant
            n == s@.len(),
            i <= n,
            forall|j: int| 0 <= j < i ==> !occurs_at(s@, pat@, j),
        decreases n - i,
    {
        if matches_at(s, pat, i) {
            return true;
        }
        i = i + 1;
    }
    if matches_at(s, pat, n) {
        return true;
    }
    assert forall|j: int| !occurs_at(s@, pat@, j) by {
        if 0 <= j < i {
        }
    }
    false
}

proof fn lemma_long_fits(s: Seq<char>, h: nat)
    requires
        h >= s.len(),
    ensures
        fits(s, h),
{
    assert forall|i: int| !occurs_at(s, closing(h), i) by {}
}

proof fn lemma_min_hashes_from(s: Seq<char>, h: nat)
    requires
        h >= 1,
    ensures
        min_hashes_from(s, h) >= h,
        fits(s, min_hashes_from(s, h)),
    decreases s.len() + 1 - h,
{
    if h > s.len() {
        lemma_long_fits(s, h);
    } else if !fits(s, h) {
        lemma_min_hashes_from(s, h + 1);
    }
}

/// The number of hashes the raw literal holding `svg` needs.
pub fn raw_hashes(svg: &str) -> (r: usize)
    ensures
        r == min_hashes(svg@),
        r >= 1,
        fits(svg@, r as nat),
        forall|g: nat| 1 <= g < r ==> !fits(svg@, g),
{
    let n = svg.unicode_len();
    let mut h: usize = 1;
    let mut close = String::new();
    push_char(&mut close, '"');
    push_char(&mut close, '#');
    proof {
        assert(close@ =~= closing(1));
    }
    while h <= n && find(svg, close.as_str())
        invariant
            n == svg@.len(),
            1 <= h <= n + 1,
            close@ == closing(h as nat),
            min_hashes_from(svg@, h as nat) == min_hashes(svg@),
            forall|g: nat| 1 <= g < h ==> !fits(svg@, g),
        decreases n + 1 - h,
    {
        push_char(&mut close, '#');
        proof {
            assert(close@ =~= closing((h + 1) as nat));
        }
        h = h + 1;
    }
    proof {
        lemma_min_hashes_from(svg@, h as nat);
        if h > n {
            lemma_long_fits(svg@, h as nat);
        }
    }
    h
}

/// Appends `h` hashes.
fn push_hashes(s: &mut String, h: usize)
    ensures
        final(s)@ == old(s)@ + hashes(h as nat),
{
    let mut k: usize = 0;
    while k < h
        invariant
            k <= h,
            s@ == old(s)@ + hashes(k as nat),
        decreases h - k,
    {
        push_char(s, '#');
        assert(s@ =~= old(s)@ + hashes((k + 1) as nat));
        k = k + 1;
    }
}

pub open spec fn snippet_head() -> Seq<char> {
    "#[derive(Debug, Clone, Copy)]\npub struct "@
}

pub open spec fn snippet_display() -> Seq<char> {
    ";\n\nimpl std::fmt::Display for "@
}

pub open spec fn snippet_fmt() -> Seq<char> {
    " {\n\tfn fmt(&self, f: &mut std::fmt::Formatter) -> Result<(), std::fmt::Error> {\n\t\tf.write_str(r"@
}

pub open spec fn snippet_close_fmt() -> Seq<char> {
    ")\n\t}\n}\n\nimpl LucideIcon for "@
}

pub open spec fn snippet_tail() -> Seq<char> {
    " {\n\tfn to_svg(&self) -> String {\n\t\tself.to_string()\n\t}\n}\n"@
}

/// The raw string literal `r#"<svg>"#`, with `h` hashes on each side.
pub open spec fn raw_literal(svg: Seq<char>, h: nat) -> Seq<char> {
    hashes(h) + seq!['"'] + svg + seq!['"'] + hashes(h)
}

/// The text emitted for one icon.
pub open spec fn snippet_text(ident: Seq<char>, svg: Seq<char>) -> Seq<char> {
    snippet_head() + ident + snippet_display() + ident + snippet_fmt()
        + raw_literal(svg, min_hashes(svg)) + snippet_close_fmt() + ident + snippet_tail()
}

/// Declares the marker type `ident` and makes it render `svg` verbatim: the
/// SVG text sits unescaped in a raw literal whose delimiter it cannot close.
pub fn gen_snippet(ident: &str, svg: &str) -> (r: String)
    ensures
        r@ == snippet_text(ident@, svg@),
{
    let h = raw_hashes(svg);
    let mut s = String::new();
    s.append("#[derive(Debug, Clone, Copy)]\npub struct ");
    s.append(ident);
    s.append(";\n\nimpl std::fmt::Display for ");
    s.append(ident);
    s.append(" {\n\tfn fmt(&self, f: &mut std::fmt::Formatter) -> Result<(), std::fmt::Error> {\n\t\tf.write_str(r");
    let ghost before = s@;
    push_hashes(&mut s, h);
    push_char(&mut s, '"');
    s.append(svg);
    push_char(&mut s, '"');
    push_hashes(&mut s, h);
    assert(s@ =~= before + raw_literal(svg@, h as nat));
    s.append(")\n\t}\n}\n\nimpl LucideIcon for ");
    s.append(ident);
    s.append(" {\n\tfn to_svg(&self) -> String {\n\t\tself.to_string()\n\t}\n}\n");
    assert(s@ =~= snippet_text(ident@, svg@));
    s
}

} // verus!
