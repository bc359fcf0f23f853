//! Which attachments are model files, and which inbound events are watched.

use vstd::prelude::*;
use crate::names::{extension_of, lemma_last_dot_unique};

verus! {

/// Whether `c` stands for the pattern character `p`, letters compared
/// without regard to ASCII case. Patterns are written in lowercase.
pub open spec fn folds_to(c: char, p: char) -> bool {
    c == p || ('a' <= p && p <= 'z' && c as u32 + 32 == p as u32)
}

/// Whether `s` ends with the lowercase pattern `p`, ignoring ASCII case.
pub open spec fn ends_with_folded(s: Seq<char>, p: Seq<char>) -> bool {
    &&& p.len() <= s.len()
    &&& forall|i: int| 0 <= i < p.len() ==> #[trigger] folds_to(s[s.len() - p.len() + i], p[i])
}

pub open spec fn ext_3mf() -> Seq<char> { seq!['.', '3', 'm', 'f'] }
pub open spec fn ext_stl() -> Seq<char> { seq!['.', 's', 't', 'l'] }
pub open spec fn ext_obj() -> Seq<char> { seq!['.', 'o', 'b', 'j'] }
pub open spec fn ext_gcode() -> Seq<char> { seq!['.', 'g', 'c', 'o', 'd', 'e'] }

/// The suffixes of model files: `.3mf`, `.stl`, `.obj` and `.gcode`.
pub open spec fn model_suffixes() -> Seq<Seq<char>> {
    seq![ext_3mf(), ext_stl(), ext_obj(), ext_gcode()]
}

/// A file name is a model's when it ends with one of the model suffixes, in
/// any case.
pub open spec fn is_model_name(s: Seq<char>) -> bool {
    exists|j: int| 0 <= j < 4 && #[trigger] ends_with_folded(s, model_suffixes()[j])
}

/// A name that is nothing but a model suffix, such as `.stl`: it has no base
/// name, so no extension.
pub open spec fn is_bare_suffix(s: Seq<char>) -> bool {
    exists|j: int|
        0 <= j < 4 && #[trigger] ends_with_folded(s, model_suffixes()[j])
            && s.len() == model_suffixes()[j].len()
}

/// Whether the character `c` of a name stands for the pattern character `p`.
fn char_folds_to(c: char, p: char) -> (r: bool)
    ensures
        r == folds_to(c, p),
{
    c == p || ('a' <= p && p <= 'z' && (c as u32) + 32 == (p as u32))
}

/// Whether `name` ends with the lowercase `pattern`, ignoring ASCII case.
fn ends_with_pattern(name: &str, pattern: &str) -> (r: bool)
    ensures
        r == ends_with_folded(name@, pattern@),
{
    let n = name.unicode_len();
    let m = pattern.unicode_len();
    if m > n {
        return false;
    }
    let mut i: usize = 0;
    while i < m
        invariant
            m <= n,
            n == name@.len(),
            m == pattern@.len(),
            i <= m,
            forall|k: int| 0 <= k < i ==> #[trigger] folds_to(name@[n - m + k], pattern@[k]),
        decreases m - i,
    {
        if !char_folds_to(name.get_char(n - m + i), pattern.get_char(i)) {
            return false;
        }
        i = i + 1;
    }
    true
}

/// Whether an attachment is a model file, by the suffix of its name:
/// `.3mf`, `.stl`, `.obj` or `.gcode`, letters in any case.
pub fn is_model_file(filename: &str) -> (r: bool)
    ensures
        r == is_model_name(filename@),
{
    proof {
        reveal_strlit(".3mf");
        reveal_strlit(".stl");
        reveal_strlit(".obj");
        reveal_strlit(".gcode");
        assert(".3mf"@ =~= ext_3mf());
        assert(".stl"@ =~= ext_stl());
        assert(".obj"@ =~= ext_obj());
        assert(".gcode"@ =~= ext_gcode());
    }
    let r = ends_with_pattern(filename, ".3mf") || ends_with_pattern(filename, ".stl")
        || ends_with_pattern(filename, ".obj") || ends_with_pattern(filename, ".gcode");
    proof {
        if r {
            if ends_with_folded(filename@, ext_3mf()) {
                assert(ends_with_folded(filename@, model_suffixes()[0]));
            } else if ends_with_folded(filename@, ext_stl()) {
                assert(ends_with_folded(filename@, model_suffixes()[1]));
            } else if ends_with_folded(filename@, ext_obj()) {
                assert(ends_with_folded(filename@, model_suffixes()[2]));
            } else {
                assert(ends_with_folded(filename@, model_suffixes()[3]));
            }
        }
    }
    r
}

/// Every model file name but a bare suffix has an extension, and that
/// extension is itself a model suffix without its dot: a name with no
/// extension, or with another one such as `.txt`, is never a model's.
pub proof fn lemma_model_name_has_extension(s: Seq<char>)
    requires
        is_model_name(s),
        !is_bare_suffix(s),
    ensures
        extension_of(s) matches Some(ext)
            && is_model_name(seq!['.'] + ext)
            && ext.len() + 1 < s.len(),
{
    let j = choose|j: int| 0 <= j < 4 && #[trigger] ends_with_folded(s, model_suffixes()[j]);
    let p = model_suffixes()[j];
    let k = s.len() - p.len();
    assert(p[0] == '.');
    assert(folds_to(s[k + 0], p[0]));
    assert(s[k] == '.');
    assert(forall|i: int| 1 <= i < p.len() ==> p[i] != '.');
    assert forall|i: int| k < i < s.len() implies s[i] != '.' by {
        assert(folds_to(s[k + (i - k)], p[i - k]));
    }
    assert(k > 0);
    lemma_last_dot_unique(s, k);
    let ext = s.subrange(k + 1, s.len() as int);
    assert(!(s =~= seq!['.', '.'])) by {
        if s =~= seq!['.', '.'] {
            assert(s.len() == 2);
        }
    }
    assert(extension_of(s) == Some(ext));
    let t = seq!['.'] + ext;
    assert(t =~= s.subrange(k, s.len() as int));
    assert forall|i: int| 0 <= i < p.len() implies #[trigger] folds_to(t[t.len() - p.len() + i], p[i]) by {
        assert(t[i] == s[k + i]);
        assert(folds_to(s[s.len() - p.len() + i], p[i]));
    }
    assert(ends_with_folded(t, model_suffixes()[j]));
}

/// Whether a message is watched for models: one from a person, not a bot,
/// posted inside a guild.
pub fn watches_message(from_bot: bool, in_guild: bool) -> (r: bool)
    ensures
        r == (!from_bot && in_guild),
{
    !from_bot && in_guild
}

} // verus!
