//! Splitting a passage into typing units and joining units back together.
//!
//! A passage whose first grapheme cluster is two columns wide is typed one
//! cluster at a time; any other passage is typed word by word.

use crate::text::{char_is_whitespace, chars_of, is_whitespace, join_spaced, unit_views};
use unicode_segmentation::UnicodeSegmentation;
use unicode_width::UnicodeWidthStr;
use vstd::prelude::*;
use vstd::string::StrSliceExecFns;
use vstd::string::StringExecFns;

verus! {

/// The extended grapheme clusters of `s`, as `unicode_segmentation` cuts them.
pub uninterp spec fn grapheme_clusters(s: Seq<char>) -> Seq<Seq<char>>;

/// The number of terminal columns that `s` takes, as `unicode_width` counts them.
pub uninterp spec fn display_width(s: Seq<char>) -> usize;

/// Calls `UnicodeSegmentation::graphemes` for extended clusters and collects
/// what the iterator yields. The iterator hands out consecutive, non-empty
/// slices of its argument and stops at the end of it, so the clusters laid end
/// to end are the argument again.
#[verifier::external_body]
pub(crate) fn graphemes_of<'a>(s: &'a str) -> (r: Vec<&'a str>)
    ensures
        unit_views(r@) == grapheme_clusters(s@),
        unit_views(r@).flatten() == s@,
        forall|i: int| 0 <= i < r.len() ==> (#[trigger] r[i])@.len() > 0,
{
    UnicodeSegmentation::graphemes(s, true).collect()
}

/// Calls `UnicodeWidthStr::width`; nothing is claimed of the number but that
/// it depends on the characters alone.
#[verifier::external_body]
pub(crate) fn width_of(s: &str) -> (r: usize)
    ensures
        r == display_width(s@),
{
    UnicodeWidthStr::width(s)
}

/// The cluster that decides a passage's mode: its first one, or a single
/// space where the passage has none.
pub open spec fn leading_cluster(passage: Seq<char>) -> Seq<char> {
    let clusters = grapheme_clusters(passage);
    if clusters.len() > 0 {
        clusters[0]
    } else {
        seq![' ']
    }
}

/// A passage is wide when its leading cluster takes two columns.
pub open spec fn is_wide(passage: Seq<char>) -> bool {
    display_width(leading_cluster(passage)) == 2
}

/// One left-to-right pass over `s`: the words already closed by whitespace,
/// and the word still open at the end of `s`.
pub open spec fn scan_words(s: Seq<char>) -> (Seq<Seq<char>>, Seq<char>)
    decreases s.len(),
{
    if s.len() == 0 {
        (Seq::empty(), Seq::empty())
    } else {
        let (closed, open) = scan_words(s.drop_last());
        if is_whitespace(s.last()) {
            (
                if open.len() > 0 {
                    closed.push(open)
                } else {
                    closed
                },
                Seq::empty(),
            )
        } else {
            (closed, open.push(s.last()))
        }
    }
}

/// The maximal runs of non-whitespace characters of `s`, in order.
pub open spec fn split_words(s: Seq<char>) -> Seq<Seq<char>> {
    let (closed, open) = scan_words(s);
    if open.len() > 0 {
        closed.push(open)
    } else {
        closed
    }
}

/// The typing units of a passage.
pub open spec fn units_of(passage: Seq<char>) -> Seq<Seq<char>> {
    if is_wide(passage) {
        grapheme_clusters(passage)
    } else {
        split_words(passage)
    }
}

/// The passage that a list of units stands for: wide units are laid end to
/// end, others are separated by one space. The first unit decides.
pub open spec fn passage_of(units: Seq<Seq<char>>) -> Seq<char> {
    if units.len() == 0 {
        Seq::empty()
    } else if is_wide(units[0]) {
        units.flatten()
    } else {
        join_spaced(units)
    }
}

/// Whether the passage is typed one cluster at a time: its first cluster is
/// two columns wide.
pub fn is_wide_character(passage: &str) -> (wide: bool)
    ensures
        wide == is_wide(passage@),
{
    let clusters = graphemes_of(passage);
    let leading: &str = if clusters.len() > 0 {
        clusters[0]
    } else {
        " "
    };
    proof {
        reveal_strlit(" ");
        assert(" "@ =~= seq![' ']);
    }
    width_of(leading) == 2
}

/// A unit that word splitting leaves whole: not empty, and free of whitespace.
pub open spec fn is_word(unit: Seq<char>) -> bool {
    &&& unit.len() > 0
    &&& forall|i: int| 0 <= i < unit.len() ==> !is_whitespace(#[trigger] unit[i])
}

/// Every unit is a word.
pub open spec fn all_words(units: Seq<Seq<char>>) -> bool {
    forall|i: int| 0 <= i < units.len() ==> is_word(#[trigger] units[i])
}

/// Text whose only whitespace is a single space between two words.
pub open spec fn is_single_spaced(s: Seq<char>) -> bool {
    &&& s.len() > 0 ==> !is_whitespace(s[0]) && !is_whitespace(s.last())
    &&& forall|i: int|
        0 <= i < s.len() && is_whitespace(#[trigger] s[i]) ==> s[i] == ' ' && (i + 1 < s.len()
            ==> !is_whitespace(s[i + 1]))
}

/// What `scan_words` has seen so far, written out again.
spec fn scanned_text(closed: Seq<Seq<char>>, open: Seq<char>, after_space: bool) -> Seq<char> {
    if after_space {
        join_spaced(closed) + seq![' ']
    } else if closed.len() > 0 {
        join_spaced(closed) + seq![' '] + open
    } else {
        open
    }
}

/// A scan closes words only, and no whitespace stands in the word left open.
proof fn lemma_scan_keeps_words(s: Seq<char>)
    ensures
        all_words(scan_words(s).0),
        forall|i: int| 0 <= i < scan_words(s).1.len() ==> !is_whitespace(#[trigger] scan_words(s).1[i]),
    decreases s.len(),
{
    if s.len() > 0 {
        lemma_scan_keeps_words(s.drop_last());
    }
}

/// Splitting yields words only: no unit is empty or holds whitespace.
pub proof fn lemma_split_yields_words(s: Seq<char>)
    ensures
        all_words(split_words(s)),
{
    lemma_scan_keeps_words(s);
}

/// Scanning on through a word lengthens the word left open, and nothing else.
proof fn lemma_scan_append_word(s: Seq<char>, word: Seq<char>)
    requires
        forall|i: int| 0 <= i < word.len() ==> !is_whitespace(#[trigger] word[i]),
    ensures
        scan_words(s + word) == (scan_words(s).0, scan_words(s).1 + word),
    decreases word.len(),
{
    if word.len() > 0 {
        lemma_scan_append_word(s, word.drop_last());
        assert((s + word).drop_last() =~= s + word.drop_last());
    }
}

/// Joining words with single spaces and splitting again gives the words back.
pub proof fn lemma_split_of_join(units: Seq<Seq<char>>)
    requires
        all_words(units),
    ensures
        split_words(join_spaced(units)) == units,
    decreases units.len(),
{
    let empty = Seq::<char>::empty();
    if units.len() == 1 {
        lemma_scan_append_word(empty, units[0]);
    } else if units.len() > 1 {
        let init = units.drop_last();
        let last = units.last();
        lemma_split_of_join(init);
        let spaced = join_spaced(init) + seq![' '];
        assert(spaced.drop_last() =~= join_spaced(init));
        lemma_scan_append_word(spaced, last);
    }
}

/// Of single-spaced text, every beginning is what its scan has seen so far,
/// written out again.
proof fn lemma_scan_of_single_spaced(s: Seq<char>, i: int)
    requires
        is_single_spaced(s),
        0 <= i <= s.len(),
    ensures
        i > 0 ==> s.take(i) == scanned_text(
            scan_words(s.take(i)).0,
            scan_words(s.take(i)).1,
            is_whitespace(s[i - 1]),
        ),
        i > 0 && is_whitespace(s[i - 1]) ==> scan_words(s.take(i)).0.len() > 0 && scan_words(
            s.take(i),
        ).1.len() == 0,
        i > 0 && !is_whitespace(s[i - 1]) ==> scan_words(s.take(i)).1.len() > 0,
    decreases i,
{
    if i > 0 {
        let j = i - 1;
        lemma_scan_of_single_spaced(s, j);
        lemma_scan_step(s, j);
        let (closed, open) = scan_words(s.take(j));
        if is_whitespace(s[j]) {
            assert(closed.push(open).drop_last() =~= closed);
        }
    }
}

/// Splitting single-spaced text and joining the words gives the text back.
pub proof fn lemma_join_of_split(s: Seq<char>)
    requires
        is_single_spaced(s),
    ensures
        join_spaced(split_words(s)) == s,
{
    if s.len() > 0 {
        lemma_scan_of_single_spaced(s, s.len() as int);
        assert(s.take(s.len() as int) == s);
        let (closed, open) = scan_words(s);
        assert(closed.push(open).drop_last() =~= closed);
    }
}

/// Splitting, joining and splitting again changes nothing.
pub proof fn lemma_split_join_split(s: Seq<char>)
    ensures
        split_words(join_spaced(split_words(s))) == split_words(s),
{
    lemma_split_yields_words(s);
    lemma_split_of_join(split_words(s));
}

/// The clusters of a passage, laid end to end, are the passage. Every
/// passage that was cut into clusters is known to be so.
pub open spec fn tiles(passage: Seq<char>) -> bool {
    grapheme_clusters(passage).flatten() == passage
}

/// The first unit of a passage is typed in the mode of the passage.
pub open spec fn mode_stable(passage: Seq<char>) -> bool {
    units_of(passage).len() > 0 ==> is_wide(units_of(passage)[0]) == is_wide(passage)
}

/// The units of a passage give the passage back: a wide one always, any
/// other where it is single-spaced.
pub proof fn lemma_passage_of_units(passage: Seq<char>)
    requires
        mode_stable(passage),
        is_wide(passage) ==> tiles(passage),
        !is_wide(passage) ==> is_single_spaced(passage),
    ensures
        passage_of(units_of(passage)) == passage,
{
    if !is_wide(passage) {
        lemma_join_of_split(passage);
    }
}

/// Cutting a passage into units, joining them and cutting again gives the
/// same units, whatever the spacing of the passage.
pub proof fn lemma_units_round_trip(passage: Seq<char>)
    requires
        mode_stable(passage),
        is_wide(passage) ==> tiles(passage),
        is_wide(passage_of(units_of(passage))) == is_wide(passage),
    ensures
        units_of(passage_of(units_of(passage))) == units_of(passage),
{
    if !is_wide(passage) {
        lemma_split_join_split(passage);
    }
}

/// Scanning one more character.
proof fn lemma_scan_step(s: Seq<char>, i: int)
    requires
        0 <= i < s.len(),
    ensures
        scan_words(s.take(i + 1)) == ({
            let (closed, open) = scan_words(s.take(i));
            if is_whitespace(s[i]) {
                (
                    if open.len() > 0 {
                        closed.push(open)
                    } else {
                        closed
                    },
                    Seq::<char>::empty(),
                )
            } else {
                (closed, open.push(s[i]))
            }
        }),
{
    assert(s.take(i + 1).drop_last() == s.take(i));
}

/// Splits on Unicode whitespace, dropping empty pieces.
fn split_on_whitespace<'a>(passage: &'a str) -> (words: Vec<&'a str>)
    ensures
        unit_views(words@) == split_words(passage@),
{
    let chars = chars_of(passage);
    let n = chars.len();
    let mut words: Vec<&'a str> = Vec::new();
    let mut start: usize = 0;
    let mut i: usize = 0;
    while i < n
        invariant
            chars@ == passage@,
            n == chars.len(),
            start <= i <= n,
            scan_words(chars@.take(i as int)) == (
                unit_views(words@),
                chars@.subrange(start as int, i as int),
            ),
        decreases n - i,
    {
        proof {
            lemma_scan_step(chars@, i as int);
        }
        if char_is_whitespace(chars[i]) {
            if start < i {
                let word = passage.substring_char(start, i);
                words.push(word);
            }
            start = i + 1;
        }
        i += 1;
    }
    proof {
        assert(chars@.take(n as int) == chars@);
    }
    if start < n {
        let word = passage.substring_char(start, n);
        words.push(word);
    }
    words
}

/// Cuts a passage into its typing units: clusters for a wide passage, else
/// the words between runs of whitespace.
pub fn to_words<'a>(passage: &'a str) -> (words: Vec<&'a str>)
    ensures
        unit_views(words@) == units_of(passage@),
        is_wide(passage@) ==> tiles(passage@),
        is_wide(passage@) ==> forall|i: int| 0 <= i < words.len() ==> (#[trigger] words[i])@.len() > 0,
{
    if is_wide_character(passage) {
        graphemes_of(passage)
    } else {
        split_on_whitespace(passage)
    }
}

/// Appends every unit to `out`, each but the first preceded by `separator`.
fn append_units(out: &mut String, words: &[&str], spaced: bool)
    ensures
        final(out)@ == old(out)@ + (if spaced {
            join_spaced(unit_views(words@))
        } else {
            unit_views(words@).flatten()
        }),
{
    let ghost units = unit_views(words@);
    let mut i: usize = 0;
    while i < words.len()
        invariant
            i <= words.len(),
            units == unit_views(words@),
            out@ == old(out)@ + (if spaced {
                join_spaced(units.take(i as int))
            } else {
                units.take(i as int).flatten()
            }),
        decreases words.len() - i,
    {
        proof {
            assert(units.take(i + 1).drop_last() == units.take(i as int));
            assert(units.take(i + 1) == units.take(i as int).push(units[i as int]));
            units.take(i as int).lemma_flatten_push(units[i as int]);
            reveal_strlit(" ");
        }
        if spaced && i > 0 {
            out.append(" ");
        }
        out.append(words[i]);
        i += 1;
    }
    proof {
        assert(units.take(words.len() as int) == units);
    }
}

/// Joins units to a passage again: wide units end to end, others with a
/// single space between.
pub fn join_to_passage(words: &[&str]) -> (passage: String)
    ensures
        passage@ == passage_of(unit_views(words@)),
{
    let mut passage = String::new();
    if words.len() > 0 {
        let wide = is_wide_character(words[0]);
        append_units(&mut passage, words, !wide);
    }
    passage
}

} // verus!
