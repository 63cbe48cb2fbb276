//! The checkpoint as the wallet keeps it: a block height written in decimal
//! under one attribute.

use crate::text::{
    all_digits, char_digit_value, char_is_digit, chars_of, decimal, digits_value,
    is_digit, lemma_decimal, lemma_digits_value_push, push_decimal,
};
use vstd::prelude::*;

verus! {

/// The name of the attribute that holds the checkpoint.
pub open spec fn checkpoint_attribute_text() -> Seq<char> {
    "block_height"@
}

/// The height that the text `s` stands for, where it is one: digits and
/// nothing else, for a number that a `u64` holds.
pub open spec fn checkpoint_of_text(s: Seq<char>) -> Option<u64> {
    if s.len() > 0 && all_digits(s) && digits_value(s) <= u64::MAX {
        Some(digits_value(s) as u64)
    } else {
        None
    }
}

/// The checkpoint that the wallet holds, given the value of its attribute
/// where there is one. An attribute that is no height counts as none.
pub open spec fn checkpoint_of_attribute(attribute: Option<Seq<char>>) -> Option<u64> {
    match attribute {
        Some(s) => checkpoint_of_text(s),
        None => None,
    }
}

/// The name of the attribute that holds the checkpoint.
pub fn checkpoint_attribute() -> (name: String)
    ensures
        name@ == checkpoint_attribute_text(),
{
    String::from_str("block_height")
}

/// The text under which the height `height` is kept.
pub fn checkpoint_text(height: u64) -> (s: String)
    ensures
        s@ == decimal(height as nat),
{
    let mut s = String::new();
    push_decimal(&mut s, height);
    assert(s@ =~= decimal(height as nat));
    s
}

/// Reads a height from the text of the attribute.
pub fn parse_checkpoint(text: &str) -> (r: Option<u64>)
    ensures
        r == checkpoint_of_text(text@),
{
    let chars = chars_of(text);
    if chars.len() == 0 {
        return None;
    }
    let mut acc: u64 = 0;
    let mut i: usize = 0;
    assert(chars@.take(0) =~= Seq::<char>::empty());
    while i < chars.len()
        invariant
            i <= chars.len(),
            chars@ == text@,
            all_digits(chars@.take(i as int)),
            acc == digits_value(chars@.take(i as int)),
        decreases chars.len() - i,
    {
        let c = chars[i];
        if !char_is_digit(c) {
            assert(!is_digit(chars@[i as int]));
            return None;
        }
        let d = char_digit_value(c);
        proof {
            let before = chars@.take(i as int);
            assert(chars@.take(i + 1) =~= before.push(c));
            lemma_digits_value_push(before, c);
        }
        if acc > (u64::MAX - d) / 10 {
            proof {
                if all_digits(chars@) {
                    lemma_digits_value_prefix(chars@, i + 1);
                }
            }
            return None;
        }
        acc = acc * 10 + d;
        i = i + 1;
    }
    assert(chars@.take(i as int) =~= chars@);
    Some(acc)
}

/// The checkpoint that the wallet holds, given the value of its attribute
/// where there is one: none where the attribute is missing or is no height.
pub fn read_checkpoint(attribute: Option<&str>) -> (r: Option<u64>)
    ensures
        r == checkpoint_of_attribute(
            match attribute {
                Some(s) => Some(s@),
                None => None,
            },
        ),
{
    match attribute {
        Some(s) => parse_checkpoint(s),
        None => None,
    }
}

/// A numeral is worth at least as much as each of its prefixes.
pub proof fn lemma_digits_value_prefix(s: Seq<char>, k: int)
    requires
        0 <= k <= s.len(),
        all_digits(s),
    ensures
        digits_value(s.take(k)) <= digits_value(s),
    decreases s.len() - k,
{
    if k == s.len() {
        assert(s.take(k) =~= s);
    } else {
        lemma_digits_value_prefix(s, k + 1);
        assert(s.take(k + 1) =~= s.take(k).push(s[k]));
        lemma_digits_value_push(s.take(k), s[k]);
    }
}

/// A height that was written is read back as it was.
pub proof fn lemma_checkpoint_round_trip(height: u64)
    ensures
        checkpoint_of_text(decimal(height as nat)) == Some(height),
{
    lemma_decimal(height as nat);
}

} // verus!
