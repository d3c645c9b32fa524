//! The guessing-game round logic: masking the secret word, applying one
//! guess, and deciding the win, plus the random pick of a secret word.

use rand::Rng;
use vstd::prelude::*;

verus! {

/// Relies on String::push: appends exactly one character to the string.
#[verifier::external_body]
fn push_char(s: &mut String, c: char)
    ensures
        final(s)@ == old(s)@.push(c),
{
    s.push(c);
}

/// Relies on rand::Rng::gen_range on the thread-local generator: a value
/// below `n`. Nothing more is promised of a random value.
#[verifier::external_body]
fn random_below(n: usize) -> (r: usize)
    requires
        n >= 1,
    ensures
        r < n,
{
    rand::thread_rng().gen_range(0..n)
}

/// Picks one of the given words at random; `None` when there are none.
pub fn pick_a_random_word(words: &Vec<String>) -> (r: Option<String>)
    ensures
        r is Some <==> words@.len() >= 1,
        r matches Some(w) ==> exists|i: int| 0 <= i < words@.len() && w == words@[i],
    {
    if words.len() == 0 {
        return None;
    }
    let i = random_below(words.len());
    Some(words[i].clone())
}

/// The secret word as shown to the player: revealed positions keep their
/// character, hidden ones show an underscore.
pub fn get_masked_secret_word(chars: &Vec<char>, show_table: &Vec<bool>) -> (r: String)
    requires
        chars@.len() <= show_table@.len(),
    ensures
        r@.len() == chars@.len(),
        forall|i: int|
            0 <= i < chars@.len() ==> r@[i] == if show_table@[i] {
                chars@[i]
            } else {
                '_'
            },
{
    let mut r = String::new();
    let mut i: usize = 0;
    while i < chars.len()
        invariant
            i <= chars@.len(),
            chars@.len() <= show_table@.len(),
            r@.len() == i,
            forall|j: int|
                0 <= j < i ==> r@[j] == if show_table@[j] {
                    chars@[j]
                } else {
                    '_'
                },
        decreases chars@.len() - i,
    {
        if show_table[i] {
            push_char(&mut r, chars[i]);
        } else {
            push_char(&mut r, '_');
        }
        i += 1;
    }
    r
}

/// Applies one guess: reveals the first still-hidden position holding the
/// guessed character and reports whether the guess hit anything.
pub fn handle_guess(guess: char, secret_word_chars: &Vec<char>, show_table: &mut Vec<bool>) -> (r:
    bool)
    requires
        secret_word_chars@.len() <= old(show_table)@.len(),
    ensures
        final(show_table)@.len() == old(show_table)@.len(),
        r ==> exists|i: int|
            {
                &&& 0 <= i < secret_word_chars@.len()
                &&& secret_word_chars@[i] == guess
                &&& !old(show_table)@[i]
                &&& final(show_table)@ == old(show_table)@.update(i, true)
                &&& forall|j: int|
                    0 <= j < i ==> !(secret_word_chars@[j] == guess && !old(show_table)@[j])
            },
        !r ==> final(show_table)@ == old(show_table)@ && forall|i: int|
            0 <= i < secret_word_chars@.len() ==> !((#[trigger] secret_word_chars@[i]) == guess
                && !old(show_table)@[i]),
{
    let mut i: usize = 0;
    while i < secret_word_chars.len()
        invariant
            i <= secret_word_chars@.len(),
            secret_word_chars@.len() <= show_table@.len(),
            show_table@ == old(show_table)@,
            forall|j: int|
                0 <= j < i ==> !((#[trigger] secret_word_chars@[j]) == guess && !show_table@[j]),
        decreases secret_word_chars@.len() - i,
    {
        if secret_word_chars[i] == guess && !show_table[i] {
            show_table.set(i, true);
            return true;
        }
        i += 1;
    }
    false
}

/// Whether every position of the secret word has been revealed.
#[allow(non_snake_case)]
pub fn checkWin(show_table: &Vec<bool>) -> (r: bool)
    ensures
        r == forall|i: int| 0 <= i < show_table@.len() ==> #[trigger] show_table@[i],
{
    let mut i: usize = 0;
    while i < show_table.len()
        invariant
            i <= show_table@.len(),
            forall|j: int| 0 <= j < i ==> #[trigger] show_table@[j],
        decreases show_table@.len() - i,
    {
        if !show_table[i] {
            return false;
        }
        i += 1;
    }
    true
}

} // verus!
