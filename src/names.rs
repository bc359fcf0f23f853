//! Names of the files that a run keeps in its workspace, and the split of an
//! attachment's file name into base name and extension.

use vstd::prelude::*;

verus! {

/// The character of a decimal digit.
pub open spec fn digit_char(d: nat) -> char {
    if d == 0 { '0' }
    else if d == 1 { '1' }
    else if d == 2 { '2' }
    else if d == 3 { '3' }
    else if d == 4 { '4' }
    else if d == 5 { '5' }
    else if d == 6 { '6' }
    else if d == 7 { '7' }
    else if d == 8 { '8' }
    else { '9' }
}

/// The decimal digits of `n`, most significant first, with no leading zero.
pub open spec fn decimal(n: nat) -> Seq<char>
    decreases n,
{
    if n < 10 {
        seq![digit_char(n)]
    } else {
        decimal(n / 10).push(digit_char(n % 10))
    }
}

/// `n` in decimal, padded with a leading zero to at least two digits.
pub open spec fn padded2(n: nat) -> Seq<char> {
    if n < 10 {
        seq!['0'] + decimal(n)
    } else {
        decimal(n)
    }
}

/// The file of frame `i`: `a-<index, two digits at least>.png`.
pub open spec fn frame_name(i: nat) -> Seq<char> {
    seq!['a', '-'] + padded2(i) + seq!['.', 'p', 'n', 'g']
}

/// The file that holds the downloaded model: `a.<extension>`.
pub open spec fn model_name(ext: Seq<char>) -> Seq<char> {
    seq!['a', '.'] + ext
}

/// A name with `.gif` appended.
pub open spec fn gif_name(base: Seq<char>) -> Seq<char> {
    base + seq!['.', 'g', 'i', 'f']
}

/// Whether `c` is a digit of lowercase hexadecimal.
pub open spec fn is_lower_hex(c: char) -> bool {
    ('0' <= c && c <= '9') || ('a' <= c && c <= 'f')
}

/// A random identifier in its hyphenated form: 36 characters, lowercase hex
/// digits in groups of 8, 4, 4, 4 and 12, joined by `-`.
pub open spec fn is_hyphenated_id(s: Seq<char>) -> bool {
    &&& s.len() == 36
    &&& forall|i: int|
        0 <= i < 36 ==> if i == 8 || i == 13 || i == 18 || i == 23 {
            #[trigger] s[i] == '-'
        } else {
            is_lower_hex(s[i])
        }
}

/// What `str::to_lowercase` returns for a text.
pub uninterp spec fn lower_of(s: Seq<char>) -> Seq<char>;

/// Relies on `str::to_lowercase`: the lowercase form of a text, which depends
/// on its characters alone.
#[verifier::external_body]
fn lowercase(s: &str) -> (r: String)
    ensures
        r@ == lower_of(s@),
{
    s.to_lowercase()
}

/// Relies on `uuid::Uuid::new_v4` and the `Display` of `uuid::Uuid`: a random
/// version 4 identifier, written in lowercase hyphenated form.
#[verifier::external_body]
fn random_id() -> (r: String)
    ensures
        is_hyphenated_id(r@),
{
    uuid::Uuid::new_v4().to_string()
}

/// The position of the last `.` in `s`, if any.
pub open spec fn last_dot(s: Seq<char>) -> Option<int>
    decreases s.len(),
{
    if s.len() == 0 {
        None
    } else if s.last() == '.' {
        Some(s.len() - 1)
    } else {
        last_dot(s.drop_last())
    }
}

/// The extension of a file name: the text after its last `.`, where that dot
/// is not the first character and some text follows it. The name `..` has
/// none. The file name is taken as a single path component.
pub open spec fn extension_of(s: Seq<char>) -> Option<Seq<char>> {
    match last_dot(s) {
        Some(k) => if k == 0 || k + 1 == s.len() || s =~= seq!['.', '.'] {
            None
        } else {
            Some(s.subrange(k + 1, s.len() as int))
        },
        None => None,
    }
}

/// The base name of a file name that has an extension: the text before its
/// last `.`.
pub open spec fn stem_of(s: Seq<char>) -> Seq<char> {
    match last_dot(s) {
        Some(k) => s.subrange(0, k),
        None => s,
    }
}

/// The `.` characters that `last_dot` finds.
proof fn lemma_last_dot(s: Seq<char>)
    ensures
        match last_dot(s) {
            Some(k) => 0 <= k < s.len() && s[k] == '.' && forall|j: int|
                k < j < s.len() ==> s[j] != '.',
            None => forall|j: int| 0 <= j < s.len() ==> s[j] != '.',
        },
    decreases s.len(),
{
    if s.len() > 0 && s.last() != '.' {
        lemma_last_dot(s.drop_last());
        assert(forall|j: int| 0 <= j < s.len() - 1 ==> s.drop_last()[j] == s[j]);
    }
}

/// Appends the decimal digits of `n` to `out`.
fn push_decimal(out: &mut String, n: u32)
    ensures
        final(out)@ == old(out)@ + decimal(n as nat),
    decreases n,
{
    if n >= 10 {
        push_decimal(out, n / 10);
    }
    let d = n % 10;
    let digit = if d == 0 { "0" }
        else if d == 1 { "1" }
        else if d == 2 { "2" }
        else if d == 3 { "3" }
        else if d == 4 { "4" }
        else if d == 5 { "5" }
        else if d == 6 { "6" }
        else if d == 7 { "7" }
        else if d == 8 { "8" }
        else { "9" };
    proof {
        reveal_strlit("0");
        reveal_strlit("1");
        reveal_strlit("2");
        reveal_strlit("3");
        reveal_strlit("4");
        reveal_strlit("5");
        reveal_strlit("6");
        reveal_strlit("7");
        reveal_strlit("8");
        reveal_strlit("9");
    }
    assert(digit@ =~= seq![digit_char(d as nat)]);
    out.append(digit);
    assert(final(out)@ =~= old(out)@ + decimal(n as nat));
}

/// The name of the file of frame `index`: `a-00.png`, `a-01.png`, ...
pub fn frame_file_name(index: u32) -> (r: String)
    ensures
        r@ == frame_name(index as nat),
{
    let mut r = String::from_str("a-");
    if index < 10 {
        r.append("0");
    }
    push_decimal(&mut r, index);
    r.append(".png");
    proof {
        reveal_strlit("a-");
        reveal_strlit("0");
        reveal_strlit(".png");
    }
    assert(r@ =~= frame_name(index as nat));
    r
}

/// The name of the model file for an extension already in lowercase:
/// `a.<extension>`.
pub fn model_file_name_lowered(lower_ext: &str) -> (r: String)
    ensures
        r@ == model_name(lower_ext@),
{
    let r = String::from_str("a.").concat(lower_ext);
    proof {
        reveal_strlit("a.");
    }
    assert(r@ =~= model_name(lower_ext@));
    r
}

/// The name under which the downloaded model is written: `a.` followed by the
/// lowercase form of the attachment's extension.
pub fn model_file_name(ext: &str) -> (r: String)
    ensures
        r@ == model_name(lower_of(ext@)),
{
    let lower = lowercase(ext);
    model_file_name_lowered(lower.as_str())
}

/// `base` with `.gif` appended.
pub fn gif_file_name(base: &str) -> (r: String)
    ensures
        r@ == gif_name(base@),
{
    let r = String::from_str(base).concat(".gif");
    proof {
        reveal_strlit(".gif");
    }
    assert(r@ =~= gif_name(base@));
    r
}

/// A fresh name for an animation file: a random identifier followed by `.gif`,
/// so that concurrent runs never pick the same name.
pub fn animation_file_name() -> (r: String)
    ensures
        exists|id: Seq<char>| is_hyphenated_id(id) && r@ == gif_name(id),
{
    let id = random_id();
    let r = gif_file_name(id.as_str());
    assert(is_hyphenated_id(id@) && r@ == gif_name(id@));
    r
}

/// Splits an attachment's file name into its base name and its extension.
/// Gives `None` where the name has no extension.
pub fn split_file_name(name: &str) -> (r: Option<(String, String)>)
    ensures
        match extension_of(name@) {
            None => r is None,
            Some(ext) => r matches Some((stem, e)) && stem@ == stem_of(name@) && e@ == ext,
        },
{
    let len = name.unicode_len();
    let mut i: usize = len;
    while i > 0 && name.get_char(i - 1) != '.'
        invariant
            i <= len == name@.len(),
            forall|j: int| i <= j < len ==> name@[j] != '.',
        decreases i,
    {
        i = i - 1;
    }
    proof {
        lemma_last_dot(name@);
        if i > 0 {
            assert(last_dot(name@) == Some((i - 1) as int)) by {
                lemma_last_dot_unique(name@, (i - 1) as int);
            }
        } else {
            assert(last_dot(name@) is None) by {
                if let Some(k) = last_dot(name@) {
                    assert(name@[k] == '.');
                }
            }
        }
    }
    if i <= 1 || i == len {
        return None;
    }
    if len == 2 && name.get_char(0) == '.' {
        assert(name@ =~= seq!['.', '.']);
        return None;
    }
    assert(!(name@ =~= seq!['.', '.'])) by {
        if name@ =~= seq!['.', '.'] {
            assert(name@[0] == '.');
        }
    }
    let stem = String::from_str(name.substring_char(0, i - 1));
    let ext = String::from_str(name.substring_char(i, len));
    Some((stem, ext))
}

/// `last_dot` is the dot after which no other dot comes.
pub(crate) proof fn lemma_last_dot_unique(s: Seq<char>, k: int)
    requires
        0 <= k < s.len(),
        s[k] == '.',
        forall|j: int| k < j < s.len() ==> s[j] != '.',
    ensures
        last_dot(s) == Some(k),
    decreases s.len(),
{
    if s.last() != '.' {
        lemma_last_dot_unique(s.drop_last(), k);
    }
}

} // verus!
