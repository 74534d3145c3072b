//! Characters handed over as texts of one character each.

use crate::alphabet::all_plain;
use vstd::prelude::*;
use vstd::string::*;

verus! {

/// Whether each text of `items` is a single character.
pub open spec fn single_chars(items: Seq<&str>) -> bool {
    forall|i: int| 0 <= i < items.len() ==> (#[trigger] items[i])@.len() == 1
}

/// The first character of each text of `items`.
pub open spec fn item_chars(items: Seq<&str>) -> Seq<char> {
    Seq::new(items.len(), |i: int| items[i]@[0])
}

/// Whether each text of `items` is a single plain ASCII character.
pub open spec fn valid_items(items: Seq<&str>) -> bool {
    single_chars(items) && all_plain(item_chars(items))
}

/// The texts of one character that stand for the characters of `chars`.
pub open spec fn char_texts(chars: Seq<char>) -> Seq<Seq<char>> {
    Seq::new(chars.len(), |i: int| seq![chars[i]])
}

/// What the texts of `v` hold.
pub open spec fn texts(v: Seq<String>) -> Seq<Seq<char>> {
    Seq::new(v.len(), |i: int| v[i]@)
}

/// `String::from(char)`: the text made of that one character.
#[verifier::external_body]
fn char_to_string(c: char) -> (r: String)
    ensures
        r@ == seq![c],
{
    String::from(c)
}

/// The character that `s` is made of, if it is made of one alone.
pub fn char_from_str(s: &str) -> (r: Option<char>)
    ensures
        r == if s@.len() == 1 {
            Some(s@[0])
        } else {
            None
        },
{
    if s.unicode_len() == 1 {
        Some(s.get_char(0))
    } else {
        None
    }
}

/// The characters that the texts of `items` are made of, if each is made
/// of one alone.
pub fn chars_of(items: &[&str]) -> (r: Option<Vec<char>>)
    ensures
        r is Some <==> single_chars(items@),
        r matches Some(v) ==> v@ == item_chars(items@),
{
    let mut out: Vec<char> = Vec::new();
    let mut i: usize = 0;
    while i < items.len()
        invariant
            i <= items@.len(),
            out@.len() == i,
            forall|j: int| 0 <= j < i ==> (#[trigger] items@[j])@.len() == 1,
            forall|j: int| 0 <= j < i ==> out@[j] == items@[j]@[0],
        decreases items.len() - i,
    {
        match char_from_str(items[i]) {
            Some(c) => {
                out.push(c);
            },
            None => {
                return None;
            },
        }
        i += 1;
    }
    assert(out@ =~= item_chars(items@));
    Some(out)
}

/// Each character of `chars` as a text of its own.
pub fn strings_of(chars: &Vec<char>) -> (r: Vec<String>)
    ensures
        texts(r@) == char_texts(chars@),
{
    let mut out: Vec<String> = Vec::new();
    let mut i: usize = 0;
    while i < chars.len()
        invariant
            i <= chars@.len(),
            out@.len() == i,
            forall|j: int| 0 <= j < i ==> (#[trigger] out@[j])@ == seq![chars@[j]],
        decreases chars.len() - i,
    {
        out.push(char_to_string(chars[i]));
        i += 1;
    }
    assert(texts(out@) =~= char_texts(chars@));
    out
}

} // verus!
