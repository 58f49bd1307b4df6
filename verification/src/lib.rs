//! A small collection of verified utilities: a worker pool with a
//! graceful shutdown protocol, a generic result cacher, sequence
//! factories, input-mapping helpers, collection summaries, a
//! regular-expression line search, evolutionary-algorithm scaffolding,
//! and string transforms.

pub mod evolutionary_algorithms;
pub mod factories;
pub mod gcacher;
pub mod input;
pub mod minigrep;
pub mod pool;
pub mod reitertools;
pub mod traits;

pub use gcacher::GCacher;

use unicode_segmentation::UnicodeSegmentation;
use vstd::prelude::*;
use vstd::string::StrSliceExecFns;
use vstd::string::StringExecFns;

verus! {

/// Whether `c` carries the White_Space property, the set that std's
/// `char::is_whitespace` recognises.
pub open spec fn is_space_char(c: char) -> bool {
    ||| c == ' '
    ||| c == '\t'
    ||| c == '\n'
    ||| c == '\u{b}'
    ||| c == '\u{c}'
    ||| c == '\r'
    ||| c == '\u{85}'
    ||| c == '\u{a0}'
    ||| c == '\u{1680}'
    ||| c == '\u{2000}'
    ||| c == '\u{2001}'
    ||| c == '\u{2002}'
    ||| c == '\u{2003}'
    ||| c == '\u{2004}'
    ||| c == '\u{2005}'
    ||| c == '\u{2006}'
    ||| c == '\u{2007}'
    ||| c == '\u{2008}'
    ||| c == '\u{2009}'
    ||| c == '\u{200a}'
    ||| c == '\u{2028}'
    ||| c == '\u{2029}'
    ||| c == '\u{202f}'
    ||| c == '\u{205f}'
    ||| c == '\u{3000}'
}

/// Whether `c` carries the White_Space property, executably.
fn is_space(c: char) -> (space: bool)
    ensures
        space == is_space_char(c),
{
    c == ' ' || c == '\t' || c == '\n' || c == '\u{b}' || c == '\u{c}' || c == '\r' || c == '\u{85}'
        || c == '\u{a0}' || c == '\u{1680}' || c == '\u{2000}' || c == '\u{2001}' || c == '\u{2002}'
        || c == '\u{2003}' || c == '\u{2004}' || c == '\u{2005}' || c == '\u{2006}' || c
        == '\u{2007}' || c == '\u{2008}' || c == '\u{2009}' || c == '\u{200a}' || c == '\u{2028}'
        || c == '\u{2029}' || c == '\u{202f}' || c == '\u{205f}' || c == '\u{3000}'
}

/// `s` without its leading whitespace.
pub open spec fn trim_front(s: Seq<char>) -> Seq<char>
    decreases s.len(),
{
    if s.len() > 0 && is_space_char(s.first()) {
        trim_front(s.drop_first())
    } else {
        s
    }
}

/// `s` without its trailing whitespace.
pub open spec fn trim_back(s: Seq<char>) -> Seq<char>
    decreases s.len(),
{
    if s.len() > 0 && is_space_char(s.last()) {
        trim_back(s.drop_last())
    } else {
        s
    }
}

/// `s` without leading and trailing whitespace.
pub open spec fn trim_spec(s: Seq<char>) -> Seq<char> {
    trim_back(trim_front(s))
}

/// The slice of `s` that remains after dropping leading whitespace.
fn str_trim_front(s: &str) -> (r: &str)
    ensures
        r@ == trim_front(s@),
    decreases s@.len(),
{
    let n = s.unicode_len();
    if n == 0 {
        s
    } else if is_space(s.get_char(0)) {
        let rest = s.substring_char(1, n);
        proof {
            assert(rest@ =~= s@.drop_first());
        }
        str_trim_front(rest)
    } else {
        s
    }
}

/// The slice of `s` that remains after dropping trailing whitespace.
fn str_trim_back(s: &str) -> (r: &str)
    ensures
        r@ == trim_back(s@),
    decreases s@.len(),
{
    let n = s.unicode_len();
    if n == 0 {
        s
    } else if is_space(s.get_char(n - 1)) {
        let rest = s.substring_char(0, n - 1);
        proof {
            assert(rest@ =~= s@.drop_last());
        }
        str_trim_back(rest)
    } else {
        s
    }
}

/// The slice of `s` that remains after dropping leading and trailing
/// whitespace.
pub(crate) fn str_trim(s: &str) -> (r: &str)
    ensures
        r@ == trim_spec(s@),
{
    str_trim_back(str_trim_front(s))
}

/// The segments that unicode word splitting cuts `s` into, in order.
pub uninterp spec fn word_bounds_of(s: Seq<char>) -> Seq<Seq<char>>;

/// The extended grapheme clusters of `s`, in order.
pub uninterp spec fn graphemes_of(s: Seq<char>) -> Seq<Seq<char>>;

/// The given parts, concatenated in order.
pub open spec fn concat_all(parts: Seq<Seq<char>>) -> Seq<char>
    decreases parts.len(),
{
    if parts.len() == 0 {
        Seq::empty()
    } else {
        parts.first() + concat_all(parts.drop_first())
    }
}

/// Relies on unicode_segmentation's `split_word_bounds`: it cuts the
/// string at word boundaries, and the substrings concatenated in order
/// give back the original string.
#[verifier::external_body]
fn split_word_bounds(s: &str) -> (words: Vec<String>)
    ensures
        words@.map_values(|w: String| w@) == word_bounds_of(s@),
        concat_all(words@.map_values(|w: String| w@)) == s@,
{
    s.split_word_bounds().map(|w| w.to_owned()).collect()
}

/// Relies on unicode_segmentation's `graphemes` with extended clusters:
/// it cuts the string into grapheme clusters, and the clusters
/// concatenated in order give back the original string.
#[verifier::external_body]
fn graphemes(s: &str) -> (clusters: Vec<String>)
    ensures
        clusters@.map_values(|g: String| g@) == graphemes_of(s@),
        concat_all(clusters@.map_values(|g: String| g@)) == s@,
{
    s.graphemes(true).map(|g| g.to_owned()).collect()
}

/// Whether `c` is an unaccented Latin letter.
pub open spec fn is_ascii_letter(c: char) -> bool {
    ('a' <= c && c <= 'z') || ('A' <= c && c <= 'Z')
}

/// Whether `c` is a Latin vowel, in either case.
pub open spec fn is_vowel(c: char) -> bool {
    c == 'a' || c == 'A' || c == 'e' || c == 'E' || c == 'i' || c == 'I' || c == 'o' || c == 'O'
        || c == 'u' || c == 'U'
}

/// Whether any character of `s` is a Latin vowel.
pub open spec fn has_vowel(s: Seq<char>) -> bool {
    exists|i: int| 0 <= i < s.len() && is_vowel(#[trigger] s[i])
}

/// Whether any character of `s` is a Latin vowel, executably.
fn str_has_vowel(s: &str) -> (found: bool)
    ensures
        found == has_vowel(s@),
{
    let n = s.unicode_len();
    let mut i: usize = 0;
    while i < n
        invariant
            i <= n == s@.len(),
            forall|j: int| 0 <= j < i ==> !is_vowel(#[trigger] s@[j]),
        decreases n - i,
    {
        let c = s.get_char(i);
        if c == 'a' || c == 'A' || c == 'e' || c == 'E' || c == 'i' || c == 'I' || c == 'o' || c
            == 'O' || c == 'u' || c == 'U' {
            return true;
        }
        i += 1;
    }
    false
}

/// The Pig Latin rendering of one word-bound segment.
///
/// A segment that does not begin with a Latin letter passes through
/// unchanged. One that does is split at its first grapheme cluster: when
/// the cluster holds a vowel the whole segment is kept and `-hay` is
/// appended; otherwise the cluster moves to the back, before `ay`, with a
/// hyphen in between whenever anything precedes it.
pub open spec fn pigify_word(w: Seq<char>) -> Seq<char> {
    if w.len() > 0 && is_ascii_letter(w.first()) && graphemes_of(w).len() > 0 {
        let head = graphemes_of(w).first();
        let rest = concat_all(graphemes_of(w).drop_first());
        if has_vowel(head) {
            w + "-hay"@
        } else {
            (if rest.len() > 0 {
                rest + "-"@
            } else {
                rest
            }) + head + "ay"@
        }
    } else {
        w
    }
}

/// The Pig Latin rendering of a sequence of word-bound segments,
/// concatenated in order.
pub open spec fn pigify_words(ws: Seq<Seq<char>>) -> Seq<char>
    decreases ws.len(),
{
    if ws.len() == 0 {
        Seq::empty()
    } else {
        pigify_word(ws.first()) + pigify_words(ws.drop_first())
    }
}

/// The Pig Latin rendering of one segment, executably.
pub fn pigify_segment(w: &str) -> (out: String)
    ensures
        out@ == pigify_word(w@),
{
    let n = w.unicode_len();
    if n == 0 {
        return w.to_owned();
    }
    let first = w.get_char(0);
    if !(('a' <= first && first <= 'z') || ('A' <= first && first <= 'Z')) {
        return w.to_owned();
    }
    let clusters = graphemes(w);
    proof {
        assert(graphemes_of(w@).len() > 0) by {
            if graphemes_of(w@).len() == 0 {
                assert(concat_all(graphemes_of(w@)) =~= Seq::<char>::empty());
            }
        }
    }
    let head: &String = &clusters[0];
    let head_len = head.as_str().unicode_len();
    proof {
        assert(graphemes_of(w@).first() == head@);
        assert(concat_all(graphemes_of(w@)) == head@ + concat_all(graphemes_of(w@).drop_first()));
        assert(head_len <= n);
    }
    let rest = w.substring_char(head_len, n);
    proof {
        assert(rest@ =~= concat_all(graphemes_of(w@).drop_first()));
    }
    if str_has_vowel(head.as_str()) {
        let mut out = w.to_owned();
        out.append("-hay");
        out
    } else {
        let mut out: String;
        if rest.unicode_len() > 0 {
            out = rest.to_owned();
            out.append("-");
        } else {
            out = rest.to_owned();
        }
        out.append(head.as_str());
        out.append("ay");
        out
    }
}

/// Roughly translates the provided string into Pig Latin: the input is
/// trimmed, split at unicode word boundaries, and each segment is
/// rendered as [`pigify_word`] describes.
pub fn pigify(convert: &str) -> (out: String)
    ensures
        out@ == pigify_words(word_bounds_of(trim_spec(convert@))),
{
    let trimmed = str_trim(convert);
    let words = split_word_bounds(trimmed);
    let ghost all = words@.map_values(|w: String| w@);
    let mut out = String::new();
    let mut i: usize = 0;
    proof {
        assert(all.skip(0) =~= all);
        assert(out@ + pigify_words(all) =~= pigify_words(all));
    }
    while i < words.len()
        invariant
            i <= words@.len(),
            all == words@.map_values(|w: String| w@),
            all == word_bounds_of(trim_spec(convert@)),
            out@ + pigify_words(all.skip(i as int)) == pigify_words(all),
        decreases words@.len() - i,
    {
        let segment = pigify_segment(words[i].as_str());
        proof {
            assert(all.skip(i as int).first() == words@[i as int]@);
            assert(all.skip(i as int).drop_first() =~= all.skip(i + 1));
        }
        out.append(segment.as_str());
        proof {
            assert(out@ + pigify_words(all.skip(i + 1)) =~= pigify_words(all));
        }
        i += 1;
    }
    proof {
        assert(all.skip(words@.len() as int) =~= Seq::<Seq<char>>::empty());
        assert(out@ =~= pigify_words(all));
    }
    out
}

} // verus!
