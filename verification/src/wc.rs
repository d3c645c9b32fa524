//! Word-count statistics: lines, words, and characters of a text, where a
//! word is a maximal run of characters separated by blanks (space, tab,
//! carriage return, or newline).
//!
//! These are this library's definitions, stated exactly: a character is one
//! Unicode scalar value (not one byte), and only the four ASCII blanks
//! separate words — a counter that separated on every Unicode whitespace
//! character or counted bytes would differ on some inputs.

use vstd::prelude::*;

verus! {

/// Whether `c` separates words.
pub open spec fn is_blank(c: char) -> bool {
    c == ' ' || c == '\t' || c == '\r' || c == '\n'
}

/// How many words `s` holds: one for every non-blank character that is at
/// the start or follows a blank.
pub open spec fn word_count(s: Seq<char>) -> nat
    decreases s.len(),
{
    if s.len() == 0 {
        0
    } else {
        word_count(s.drop_last()) + (if !is_blank(s.last()) && (s.len() == 1 || is_blank(
            s[s.len() - 2],
        )) {
            1nat
        } else {
            0nat
        })
    }
}

/// Whether `c` separates words.
pub fn blank(c: char) -> (r: bool)
    ensures
        r == is_blank(c),
{
    c == ' ' || c == '\t' || c == '\r' || c == '\n'
}

/// Counts the words of one line.
pub fn count_words(line: &Vec<char>) -> (r: usize)
    ensures
        r == word_count(line@),
{
    let mut cnt: usize = 0;
    let mut i: usize = 0;
    while i < line.len()
        invariant
            i <= line@.len(),
            cnt <= i,
            cnt == word_count(line@.take(i as int)),
        decreases line@.len() - i,
    {
        let starts_word = !blank(line[i]) && (i == 0 || blank(line[i - 1]));
        proof {
            assert(line@.take(i + 1).drop_last() =~= line@.take(i as int));
            assert(line@.take(i + 1).last() == line@[i as int]);
        }
        if starts_word {
            cnt += 1;
        }
        i += 1;
    }
    proof {
        assert(line@.take(line@.len() as int) =~= line@);
    }
    cnt
}

/// The total number of words over all lines.
pub open spec fn total_words(lines: Seq<Seq<char>>) -> nat
    decreases lines.len(),
{
    if lines.len() == 0 {
        0
    } else {
        total_words(lines.drop_last()) + word_count(lines.last())
    }
}

/// The total number of characters over all lines.
pub open spec fn total_chars(lines: Seq<Seq<char>>) -> nat
    decreases lines.len(),
{
    if lines.len() == 0 {
        0
    } else {
        total_chars(lines.drop_last()) + lines.last().len()
    }
}

/// Counts lines, words, and characters of a text given line by line:
/// `None` exactly when a total would not fit the counter.
pub fn count_text(lines: &Vec<Vec<char>>) -> (r: Option<(usize, u64, u64)>)
    ensures
        r matches Some(t) ==> t.0 == lines@.len() && t.1 == total_words(
            lines@.map_values(|l: Vec<char>| l@),
        ) && t.2 == total_chars(lines@.map_values(|l: Vec<char>| l@)),
        r is Some <==> total_words(lines@.map_values(|l: Vec<char>| l@)) <= u64::MAX
            && total_chars(lines@.map_values(|l: Vec<char>| l@)) <= u64::MAX,
{
    let ghost vl = lines@.map_values(|l: Vec<char>| l@);
    let mut words: u64 = 0;
    let mut chars: u64 = 0;
    let mut i: usize = 0;
    while i < lines.len()
        invariant
            i <= lines@.len(),
            vl == lines@.map_values(|l: Vec<char>| l@),
            words == total_words(vl.take(i as int)),
            chars == total_chars(vl.take(i as int)),
        decreases lines@.len() - i,
    {
        let w = count_words(&lines[i]);
        let c = lines[i].len();
        proof {
            assert(vl.take(i + 1).drop_last() =~= vl.take(i as int));
            assert(vl.take(i + 1).last() == vl[i as int]);
            lemma_totals_monotone(vl, i + 1);
        }
        if words > u64::MAX - w as u64 || chars > u64::MAX - c as u64 {
            // A longer text never counts less, so the whole total is
            // already out of range.
            return None;
        }
        words = words + w as u64;
        chars = chars + c as u64;
        i += 1;
    }
    proof {
        assert(vl.take(vl.len() as int) =~= vl);
    }
    Some((lines.len(), words, chars))
}

/// A prefix of the text never counts more than the whole.
proof fn lemma_totals_monotone(lines: Seq<Seq<char>>, k: int)
    requires
        0 <= k <= lines.len(),
    ensures
        total_words(lines.take(k)) <= total_words(lines),
        total_chars(lines.take(k)) <= total_chars(lines),
    decreases lines.len() - k,
{
    if k == lines.len() {
        assert(lines.take(k) =~= lines);
    } else {
        lemma_totals_monotone(lines, k + 1);
        assert(lines.take(k + 1).drop_last() =~= lines.take(k));
    }
}

} // verus!
