//! The classes of characters that a key is made of, and how many
//! characters of each class a text holds.

use crate::count::Count;
use crate::error::GenError;
use vstd::multiset::*;
use vstd::prelude::*;
use vstd::string::*;
use vstd::utf8::is_ascii_chars;

verus! {

/// The class of a character.
#[derive(Clone, Copy, Debug, PartialEq, Eq, Structural)]
pub enum CharClass {
    /// An ASCII letter, `a` to `z` or `A` to `Z`.
    Letter,
    /// An ASCII punctuation character.
    Symbol,
    /// An ASCII digit, `0` to `9`.
    Digit,
    /// Any other character.
    Other,
}

/// The class that `c` belongs to.
pub open spec fn class_of(c: char) -> CharClass {
    if ('a' <= c <= 'z') || ('A' <= c <= 'Z') {
        CharClass::Letter
    } else if '0' <= c <= '9' {
        CharClass::Digit
    } else if ('!' <= c <= '/') || (':' <= c <= '@') || ('[' <= c <= '`') || ('{' <= c <= '~') {
        CharClass::Symbol
    } else {
        CharClass::Other
    }
}

/// Whether `c` is an ASCII character and no control character.
pub open spec fn is_plain(c: char) -> bool {
    ' ' <= c <= '~'
}

/// How many characters of `s` belong to `class`.
pub open spec fn count_class(s: Seq<char>, class: CharClass) -> nat
    decreases s.len(),
{
    if s.len() == 0 {
        0
    } else if class_of(s.last()) == class {
        count_class(s.drop_last(), class) + 1
    } else {
        count_class(s.drop_last(), class)
    }
}

/// The class that `c` belongs to.
pub fn classify(c: char) -> (r: CharClass)
    ensures
        r == class_of(c),
{
    if (c >= 'a' && c <= 'z') || (c >= 'A' && c <= 'Z') {
        CharClass::Letter
    } else if c >= '0' && c <= '9' {
        CharClass::Digit
    } else if (c >= '!' && c <= '/') || (c >= ':' && c <= '@') || (c >= '[' && c <= '`') || (c
        >= '{' && c <= '~') {
        CharClass::Symbol
    } else {
        CharClass::Other
    }
}

/// Each character of a text is counted in one class, and in one only.
pub proof fn lemma_count_class_total(s: Seq<char>)
    ensures
        count_class(s, CharClass::Letter) + count_class(s, CharClass::Symbol) + count_class(
            s,
            CharClass::Digit,
        ) + count_class(s, CharClass::Other) == s.len(),
    decreases s.len(),
{
    if s.len() > 0 {
        lemma_count_class_total(s.drop_last());
    }
}

/// The counts of a text put together from two are the sums of their counts.
pub proof fn lemma_count_class_concat(a: Seq<char>, b: Seq<char>, class: CharClass)
    ensures
        count_class(a + b, class) == count_class(a, class) + count_class(b, class),
    decreases b.len(),
{
    if b.len() == 0 {
        assert(a + b =~= a);
    } else {
        assert((a + b).drop_last() =~= a + b.drop_last());
        lemma_count_class_concat(a, b.drop_last(), class);
    }
}

/// In a text whose characters all belong to one class, that class counts
/// every character and any other class none.
pub proof fn lemma_count_class_uniform(s: Seq<char>, own: CharClass, class: CharClass)
    requires
        forall|i: int| 0 <= i < s.len() ==> class_of(#[trigger] s[i]) == own,
    ensures
        count_class(s, class) == if class == own {
            s.len()
        } else {
            0
        },
    decreases s.len(),
{
    if s.len() > 0 {
        lemma_count_class_uniform(s.drop_last(), own, class);
    }
}

/// The count of a class is the size of the multiset of the characters of
/// that class.
proof fn lemma_count_class_multiset(s: Seq<char>, class: CharClass)
    ensures
        count_class(s, class) == s.to_multiset().filter(|c: char| class_of(c) == class).len(),
    decreases s.len(),
{
    broadcast use group_multiset_axioms;

    let f = |c: char| class_of(c) == class;
    if s.len() == 0 {
        s.to_multiset_ensures();
        assert(s.to_multiset().len() == 0);
        assert(s.to_multiset().filter(f) =~= Multiset::<char>::empty());
    } else {
        let t = s.drop_last();
        let c = s.last();
        lemma_count_class_multiset(t, class);
        t.to_multiset_ensures();
        assert(t.push(c) =~= s);
        assert(s.to_multiset() =~= t.to_multiset().insert(c));
        if f(c) {
            assert(t.to_multiset().insert(c).filter(f) =~= t.to_multiset().filter(f).insert(c));
            lemma_insert_len(t.to_multiset().filter(f), c);
        } else {
            assert(t.to_multiset().insert(c).filter(f) =~= t.to_multiset().filter(f));
        }
    }
}

/// The counts of a text do not depend on the order of its characters.
pub proof fn lemma_count_class_permutation(a: Seq<char>, b: Seq<char>, class: CharClass)
    requires
        a.to_multiset() == b.to_multiset(),
    ensures
        count_class(a, class) == count_class(b, class),
{
    lemma_count_class_multiset(a, class);
    lemma_count_class_multiset(b, class);
}

/// Counts the letters, the symbols and the digits of `text`, in this
/// order. A text that holds a character outside ASCII is refused; ASCII
/// characters of no class are passed over.
pub fn count_classes(text: &str) -> (r: Result<(Count, Count, Count), GenError>)
    ensures
        r is Ok <==> is_ascii_chars(text@),
        r matches Ok(counts) ==> {
            &&& counts.0@ == count_class(text@, CharClass::Letter)
            &&& counts.1@ == count_class(text@, CharClass::Symbol)
            &&& counts.2@ == count_class(text@, CharClass::Digit)
        },
        r matches Err(e) ==> e == GenError::InvalidChar,
{
    if !text.is_ascii() {
        return Err(GenError::InvalidChar);
    }
    let bytes = text.as_bytes();
    proof {
        is_ascii_spec_bytes(text);
    }
    let mut letters: usize = 0;
    let mut symbols: usize = 0;
    let mut digits: usize = 0;
    let mut i: usize = 0;
    while i < bytes.len()
        invariant
            i <= bytes.len(),
            bytes@.len() == text@.len(),
            is_ascii_chars(text@),
            forall|j: int| 0 <= j < bytes@.len() ==> bytes@[j] == text@[j] as u8,
            letters == count_class(text@.take(i as int), CharClass::Letter),
            symbols == count_class(text@.take(i as int), CharClass::Symbol),
            digits == count_class(text@.take(i as int), CharClass::Digit),
        decreases bytes.len() - i,
    {
        let c = bytes[i] as char;
        proof {
            let before = text@.take(i as int);
            let after = text@.take(i + 1);
            assert('\0' <= text@[i as int] <= '\u{7f}');
            assert(c == text@[i as int]);
            assert(after.drop_last() =~= before);
            assert(after.last() == c);
            lemma_count_class_total(after);
        }
        match classify(c) {
            CharClass::Letter => {
                letters += 1;
            },
            CharClass::Symbol => {
                symbols += 1;
            },
            CharClass::Digit => {
                digits += 1;
            },
            CharClass::Other => {},
        }
        i += 1;
    }
    assert(text@.take(i as int) =~= text@);
    Ok((Count::from_usize(letters), Count::from_usize(symbols), Count::from_usize(digits)))
}

} // verus!
