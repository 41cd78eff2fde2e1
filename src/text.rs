//! Normalization of artist and track names, and substring containment.
use vstd::prelude::*;
use vstd::string::*;

verus! {

/// Whether `c` belongs to the regex class `\w` (Unicode letters, marks,
/// digits, connector punctuation and join controls).
pub uninterp spec fn word_char(c: char) -> bool;

/// Relies on regex::Regex::is_match with the pattern `^\w$`: true exactly
/// when the one-character string is a word character.
#[verifier::external_body]
fn is_word_char(c: char) -> (r: bool)
    ensures
        r == word_char(c),
{
    regex::Regex::new(r"^\w$").unwrap().is_match(&c.to_string())
}

/// Normal form of `s`: every maximal run of non-word characters becomes one
/// space, word characters are kept. Defined over prefixes: a non-word
/// character that follows another one adds nothing.
pub open spec fn normalized(s: Seq<char>) -> Seq<char>
    decreases s.len(),
{
    if s.len() == 0 {
        Seq::empty()
    } else {
        let prev = normalized(s.drop_last());
        let c = s.last();
        if word_char(c) {
            prev.push(c)
        } else if s.len() >= 2 && !word_char(s[s.len() - 2]) {
            prev
        } else {
            prev.push(' ')
        }
    }
}

/// `t` is already in normal form: each non-word character is a space, and
/// no two non-word characters are adjacent.
pub open spec fn is_normal(t: Seq<char>) -> bool {
    forall|j: int|
        0 <= j < t.len() && !word_char(#[trigger] t[j]) ==> t[j] == ' ' && (j == 0 || word_char(
            t[j - 1],
        ))
}

/// `needle` occurs in `hay` as a contiguous run.
pub open spec fn contains(hay: Seq<char>, needle: Seq<char>) -> bool {
    exists|i: int|
        0 <= i && i + needle.len() <= hay.len() && #[trigger] hay.subrange(i, i + needle.len())
            == needle
}

/// Relies on str::contains with a `&str` pattern: true exactly when `needle`
/// is a substring of `hay`.
#[verifier::external_body]
pub(crate) fn str_contains(hay: &str, needle: &str) -> (r: bool)
    ensures
        r == contains(hay@, needle@),
{
    hay.contains(needle)
}

/// Replaces each maximal run of non-word characters of `s` by a single space.
pub fn normalize(s: &str) -> (r: String)
    ensures
        r@ == normalized(s@),
{
    let n = s.unicode_len();
    let mut out = String::new();
    let mut i: usize = 0;
    while i < n
        invariant
            n == s@.len(),
            i <= n,
            out@ == normalized(s@.subrange(0, i as int)),
        decreases n - i,
    {
        let c = s.get_char(i);
        let w = is_word_char(c);
        let ghost pre = s@.subrange(0, i as int);
        let ghost cur = s@.subrange(0, i + 1);
        assert(cur.drop_last() == pre);
        assert(cur.last() == c);
        if w {
            out.append(s.substring_char(i, i + 1));
            assert(s@.subrange(i as int, i + 1) == seq![c]);
        } else {
            let follows_non_word = i >= 1 && !is_word_char(s.get_char(i - 1));
            assert(i >= 1 ==> cur[i - 1] == s@[i - 1]);
            if !follows_non_word {
                out.append(" ");
                assert(" "@ == seq![' ']) by {
                    reveal_strlit(" ");
                }
            }
        }
        i = i + 1;
    }
    assert(s@.subrange(0, n as int) == s@);
    out
}

/// The last character of a normal form is non-word only where the input
/// ends in a non-word character.
proof fn lemma_normalized_shape(s: Seq<char>)
    ensures
        is_normal(normalized(s)),
        normalized(s).len() > 0 && !word_char(normalized(s).last()) ==> s.len() > 0
            && !word_char(s.last()),
    decreases s.len(),
{
    if s.len() > 0 {
        lemma_normalized_shape(s.drop_last());
        let p = normalized(s.drop_last());
        let t = normalized(s);
        assert forall|j: int| 0 <= j < t.len() && !word_char(#[trigger] t[j]) implies t[j] == ' '
            && (j == 0 || word_char(t[j - 1])) by {
            if j < p.len() {
                assert(t[j] == p[j]);
                if j > 0 {
                    assert(t[j - 1] == p[j - 1]);
                }
            } else {
                if j > 0 {
                    assert(t[j - 1] == p[j - 1]);
                }
            }
        }
    }
}

/// A sequence already in normal form is its own normal form.
proof fn lemma_normal_fixed(t: Seq<char>)
    requires
        is_normal(t),
    ensures
        normalized(t) == t,
    decreases t.len(),
{
    if t.len() > 0 {
        let p = t.drop_last();
        assert(is_normal(p)) by {
            assert forall|j: int| 0 <= j < p.len() && !word_char(#[trigger] p[j]) implies p[j]
                == ' ' && (j == 0 || word_char(p[j - 1])) by {
                assert(p[j] == t[j]);
                if j > 0 {
                    assert(p[j - 1] == t[j - 1]);
                }
            }
        }
        lemma_normal_fixed(p);
        let k = t.len() - 1;
        assert(t.last() == t[k]);
        if !word_char(t[k]) {
            assert(t[k] == ' ');
        }
        assert(p.push(t.last()) == t);
    }
}

/// Normalizing twice gives the same result as normalizing once.
pub proof fn lemma_normalize_idempotent(s: Seq<char>)
    ensures
        normalized(normalized(s)) == normalized(s),
{
    lemma_normalized_shape(s);
    lemma_normal_fixed(normalized(s));
}

} // verus!
