//! The characters that a key may be made of, kept apart by class.

use crate::class::{class_of, classify, is_plain, CharClass};
use crate::count::Count;
use crate::error::GenError;
use vstd::prelude::*;

verus! {

/// `s`, followed by those characters of `items` that belong to `class` and
/// that are not there yet, in the order of `items`.
pub open spec fn merged(s: Seq<char>, items: Seq<char>, class: CharClass) -> Seq<char>
    decreases items.len(),
{
    if items.len() == 0 {
        s
    } else {
        let m = merged(s, items.drop_last(), class);
        let c = items.last();
        if class_of(c) == class && !m.contains(c) {
            m.push(c)
        } else {
            m
        }
    }
}

/// The test that a character passes when it is not among `items`.
pub open spec fn not_among(items: Seq<char>) -> spec_fn(char) -> bool {
    |c: char| !items.contains(c)
}

/// `s` without the characters that are among `items`.
pub open spec fn without(s: Seq<char>, items: Seq<char>) -> Seq<char> {
    s.filter(not_among(items))
}

/// Whether every character of `items` is a plain ASCII character.
pub open spec fn all_plain(items: Seq<char>) -> bool {
    forall|i: int| 0 <= i < items.len() ==> is_plain(#[trigger] items[i])
}

/// Whether `s` can be the characters of `class` in an alphabet: all of them
/// belong to the class, and none stands twice.
pub open spec fn class_set(s: Seq<char>, class: CharClass) -> bool {
    &&& s.no_duplicates()
    &&& forall|i: int| 0 <= i < s.len() ==> class_of(#[trigger] s[i]) == class
}

/// The characters from `!` to `~`, in the order of their codes: every plain
/// ASCII character but the space.
pub open spec fn default_chars() -> Seq<char> {
    Seq::new(94, |i: int| (i + 33) as char)
}

/// What an alphabet holds: its letters, its symbols and its digits, each
/// in the order in which they came in.
pub ghost struct AlphabetView {
    pub letters: Seq<char>,
    pub symbols: Seq<char>,
    pub digits: Seq<char>,
}

impl AlphabetView {
    /// The alphabet that holds nothing.
    pub open spec fn empty() -> AlphabetView {
        AlphabetView { letters: Seq::empty(), symbols: Seq::empty(), digits: Seq::empty() }
    }

    /// The alphabet of all plain ASCII characters that have a class.
    pub open spec fn full() -> AlphabetView {
        AlphabetView::empty().add(default_chars())
    }

    /// Whether each part holds characters of its own class only, and none
    /// of them twice.
    pub open spec fn wf(self) -> bool {
        &&& class_set(self.letters, CharClass::Letter)
        &&& class_set(self.symbols, CharClass::Symbol)
        &&& class_set(self.digits, CharClass::Digit)
    }

    /// The characters of `class`; none for the class of the characters
    /// that no key is made of.
    pub open spec fn of(self, class: CharClass) -> Seq<char> {
        match class {
            CharClass::Letter => self.letters,
            CharClass::Symbol => self.symbols,
            CharClass::Digit => self.digits,
            CharClass::Other => Seq::empty(),
        }
    }

    /// Whether the alphabet holds `c`.
    pub open spec fn contains(self, c: char) -> bool {
        self.letters.contains(c) || self.symbols.contains(c) || self.digits.contains(c)
    }

    /// Whether the alphabet holds every character of `items`.
    pub open spec fn contains_all(self, items: Seq<char>) -> bool {
        forall|i: int| 0 <= i < items.len() ==> self.contains(#[trigger] items[i])
    }

    /// The alphabet with the characters of `items` added, each to the part
    /// of its class.
    pub open spec fn add(self, items: Seq<char>) -> AlphabetView {
        AlphabetView {
            letters: merged(self.letters, items, CharClass::Letter),
            symbols: merged(self.symbols, items, CharClass::Symbol),
            digits: merged(self.digits, items, CharClass::Digit),
        }
    }

    /// The alphabet without the characters of `items`.
    pub open spec fn delete(self, items: Seq<char>) -> AlphabetView {
        AlphabetView {
            letters: without(self.letters, items),
            symbols: without(self.symbols, items),
            digits: without(self.digits, items),
        }
    }

    /// The alphabet with the part of `class` emptied.
    pub open spec fn clear(self, class: CharClass) -> AlphabetView {
        match class {
            CharClass::Letter => AlphabetView { letters: Seq::empty(), ..self },
            CharClass::Symbol => AlphabetView { symbols: Seq::empty(), ..self },
            CharClass::Digit => AlphabetView { digits: Seq::empty(), ..self },
            CharClass::Other => self,
        }
    }

    /// The alphabet with the characters of `other` added.
    pub open spec fn union(self, other: AlphabetView) -> AlphabetView {
        self.add(other.letters).add(other.symbols).add(other.digits)
    }

    /// Whether every class of which characters are asked for has a
    /// character to give.
    pub open spec fn consistent(self, letters: nat, symbols: nat, digits: nat) -> bool {
        &&& letters > 0 ==> self.letters.len() > 0
        &&& symbols > 0 ==> self.symbols.len() > 0
        &&& digits > 0 ==> self.digits.len() > 0
    }
}

/// What `merged` holds: what was there, and the characters of the class
/// that came with `items`. It keeps what was there as a prefix.
pub proof fn lemma_merged(s: Seq<char>, items: Seq<char>, class: CharClass)
    ensures
        forall|c: char|
            #[trigger] merged(s, items, class).contains(c) <==> s.contains(c) || (items.contains(c)
                && class_of(c) == class),
        class_set(s, class) ==> class_set(merged(s, items, class), class),
        s.len() <= merged(s, items, class).len(),
        merged(s, items, class).take(s.len() as int) == s,
    decreases items.len(),
{
    let m = merged(s, items, class);
    if items.len() == 0 {
        assert(m.take(s.len() as int) =~= s);
    } else {
        let rest = items.drop_last();
        let last = items.last();
        let before = merged(s, rest, class);
        lemma_merged(s, rest, class);
        assert(items =~= rest.push(last));
        assert forall|c: char| #[trigger] m.contains(c) <==> s.contains(c) || (items.contains(c)
            && class_of(c) == class) by {
            if m.contains(c) {
                let i = choose|i: int| 0 <= i < m.len() && m[i] == c;
                if i < before.len() {
                    assert(before.contains(c));
                } else {
                    assert(items[items.len() - 1] == c);
                }
            }
            if s.contains(c) || (items.contains(c) && class_of(c) == class) {
                if before.contains(c) {
                    let i = choose|i: int| 0 <= i < before.len() && before[i] == c;
                    assert(m[i] == c);
                } else {
                    assert(!rest.contains(c));
                    let j = choose|j: int| 0 <= j < items.len() && items[j] == c;
                    if j < rest.len() {
                        assert(rest[j] == c);
                    }
                    assert(c == last);
                    assert(m[m.len() - 1] == c);
                }
            }
        }
        assert(m.take(s.len() as int) =~= before.take(s.len() as int));
    }
}

/// What `without` holds: what was there and is not among `items`. A set of
/// characters of a class stays one.
pub proof fn lemma_without(s: Seq<char>, items: Seq<char>, class: CharClass)
    ensures
        forall|c: char|
            #[trigger] without(s, items).contains(c) <==> s.contains(c) && !items.contains(c),
        class_set(s, class) ==> class_set(without(s, items), class),
    decreases s.len(),
{
    let p = not_among(items);
    let w = without(s, items);
    if s.len() == 0 {
        reveal(Seq::filter);
    } else {
        let rest = s.drop_last();
        let last = s.last();
        let before = without(rest, items);
        lemma_without(rest, items, class);
        assert(s =~= rest.push(last));
        rest.lemma_filter_push(last, p);
        assert forall|c: char| #[trigger] w.contains(c) <==> s.contains(c) && !items.contains(
            c,
        ) by {
            if w.contains(c) {
                let i = choose|i: int| 0 <= i < w.len() && w[i] == c;
                if i < before.len() {
                    assert(before.contains(c));
                    let j = choose|j: int| 0 <= j < rest.len() && rest[j] == c;
                    assert(s[j] == c);
                } else {
                    assert(s[s.len() - 1] == c);
                }
            }
            if s.contains(c) && !items.contains(c) {
                let j = choose|j: int| 0 <= j < s.len() && s[j] == c;
                if j < rest.len() {
                    assert(rest[j] == c);
                    assert(before.contains(c));
                    let i = choose|i: int| 0 <= i < before.len() && before[i] == c;
                    assert(w[i] == c);
                } else {
                    assert(w[w.len() - 1] == c);
                }
            }
        }
        if class_set(s, class) {
            assert(class_set(rest, class)) by {
                assert forall|i: int| 0 <= i < rest.len() implies class_of(#[trigger] rest[i])
                    == class by {
                    assert(rest[i] == s[i]);
                }
            }
            if p(last) {
                assert(!before.contains(last)) by {
                    if before.contains(last) {
                        let j = choose|j: int| 0 <= j < rest.len() && rest[j] == last;
                        assert(s[j] == s[s.len() - 1]);
                    }
                }
            }
        }
    }
}

/// In a well-formed alphabet every character is a plain ASCII character
/// and stands in the part of its class, and so in one part only.
pub proof fn lemma_alphabet_parts(a: AlphabetView)
    requires
        a.wf(),
    ensures
        all_plain(a.letters),
        all_plain(a.symbols),
        all_plain(a.digits),
        forall|c: char| #[trigger]
            a.contains(c) ==> class_of(c) != CharClass::Other && a.of(class_of(c)).contains(c),
        forall|c: char, class: CharClass| #[trigger]
            a.of(class).contains(c) ==> class_of(c) == class,
{
    assert forall|c: char, class: CharClass| #[trigger]
        a.of(class).contains(c) implies class_of(c) == class by {
        let part = a.of(class);
        let i = choose|i: int| 0 <= i < part.len() && part[i] == c;
        assert(class_of(part[i]) == class);
    }
    assert forall|c: char| #[trigger] a.contains(c) implies class_of(c) != CharClass::Other
        && a.of(class_of(c)).contains(c) by {
        if a.letters.contains(c) {
            assert(a.of(CharClass::Letter).contains(c));
        } else if a.symbols.contains(c) {
            assert(a.of(CharClass::Symbol).contains(c));
        } else {
            assert(a.of(CharClass::Digit).contains(c));
        }
    }
    assert forall|i: int| 0 <= i < a.letters.len() implies is_plain(#[trigger] a.letters[i]) by {
        assert(class_of(a.letters[i]) == CharClass::Letter);
    }
    assert forall|i: int| 0 <= i < a.symbols.len() implies is_plain(#[trigger] a.symbols[i]) by {
        assert(class_of(a.symbols[i]) == CharClass::Symbol);
    }
    assert forall|i: int| 0 <= i < a.digits.len() implies is_plain(#[trigger] a.digits[i]) by {
        assert(class_of(a.digits[i]) == CharClass::Digit);
    }
}

/// The alphabet of all plain ASCII characters has letters, symbols and
/// digits, so that it can serve any counts.
pub proof fn lemma_full_alphabet()
    ensures
        AlphabetView::full().wf(),
        AlphabetView::full().letters.len() > 0,
        AlphabetView::full().symbols.len() > 0,
        AlphabetView::full().digits.len() > 0,
        forall|l: nat, s: nat, n: nat| #[trigger] AlphabetView::full().consistent(l, s, n),
{
    let all = default_chars();
    let none = Seq::<char>::empty();
    lemma_merged(none, all, CharClass::Letter);
    lemma_merged(none, all, CharClass::Symbol);
    lemma_merged(none, all, CharClass::Digit);
    assert(all[('a' as int) - 33] == 'a');
    assert(all[('!' as int) - 33] == '!');
    assert(all[('0' as int) - 33] == '0');
    let full = AlphabetView::full();
    assert(full.letters.contains('a'));
    assert(full.symbols.contains('!'));
    assert(full.digits.contains('0'));
}

/// The characters of a key's alphabet: letters, symbols and digits, each
/// class in a part of its own where no character stands twice.
#[derive(Debug)]
pub struct Alphabet {
    letters: Vec<char>,
    symbols: Vec<char>,
    digits: Vec<char>,
}

impl View for Alphabet {
    type V = AlphabetView;

    closed spec fn view(&self) -> AlphabetView {
        AlphabetView { letters: self.letters@, symbols: self.symbols@, digits: self.digits@ }
    }
}

/// Whether `v` holds `c`.
fn holds(v: &Vec<char>, c: char) -> (r: bool)
    ensures
        r == v@.contains(c),
{
    let mut i: usize = 0;
    while i < v.len()
        invariant
            i <= v.len(),
            forall|j: int| 0 <= j < i ==> v@[j] != c,
        decreases v.len() - i,
    {
        if v[i] == c {
            return true;
        }
        i += 1;
    }
    false
}

/// A copy of `v`.
fn copy_chars(v: &Vec<char>) -> (r: Vec<char>)
    ensures
        r@ == v@,
{
    let mut out: Vec<char> = Vec::new();
    let mut i: usize = 0;
    while i < v.len()
        invariant
            i <= v.len(),
            out@ == v@.take(i as int),
        decreases v.len() - i,
    {
        out.push(v[i]);
        assert(v@.take(i + 1) =~= v@.take(i as int).push(v@[i as int]));
        i += 1;
    }
    assert(v@.take(i as int) =~= v@);
    out
}

/// The characters of `v` that are not among `items`.
fn retain_without(v: &Vec<char>, items: &[char]) -> (r: Vec<char>)
    ensures
        r@ == without(v@, items@),
{
    let mut out: Vec<char> = Vec::new();
    let mut i: usize = 0;
    proof {
        reveal(Seq::filter);
    }
    while i < v.len()
        invariant
            i <= v.len(),
            out@ == without(v@.take(i as int), items@),
        decreases v.len() - i,
    {
        let c = v[i];
        proof {
            assert(v@.take(i + 1) =~= v@.take(i as int).push(c));
            v@.take(i as int).lemma_filter_push(c, not_among(items@));
        }
        if !slice_holds(items, c) {
            out.push(c);
        }
        i += 1;
    }
    assert(v@.take(i as int) =~= v@);
    out
}

/// Whether `items` holds `c`.
fn slice_holds(items: &[char], c: char) -> (r: bool)
    ensures
        r == items@.contains(c),
{
    let mut i: usize = 0;
    while i < items.len()
        invariant
            i <= items.len(),
            forall|j: int| 0 <= j < i ==> items@[j] != c,
        decreases items.len() - i,
    {
        if items[i] == c {
            return true;
        }
        i += 1;
    }
    false
}

/// Whether every character of `items` is a plain ASCII character.
pub fn check_ascii(items: &[char]) -> (r: bool)
    ensures
        r == all_plain(items@),
{
    let mut i: usize = 0;
    while i < items.len()
        invariant
            i <= items.len(),
            forall|j: int| 0 <= j < i ==> is_plain(#[trigger] items@[j]),
        decreases items.len() - i,
    {
        let c = items[i];
        if c < ' ' || c > '~' {
            return false;
        }
        i += 1;
    }
    true
}

impl Alphabet {
    /// Whether the alphabet is what its type says: each part holds
    /// characters of its own class only, and none of them twice.
    pub open spec fn wf(&self) -> bool {
        self@.wf()
    }

    /// The alphabet that holds nothing.
    pub fn new() -> (r: Alphabet)
        ensures
            r.wf(),
            r@ == AlphabetView::empty(),
    {
        Alphabet { letters: Vec::new(), symbols: Vec::new(), digits: Vec::new() }
    }

    /// The alphabet of all plain ASCII characters that have a class, each
    /// part in the order of the characters' codes.
    pub fn default_data() -> (r: Alphabet)
        ensures
            r.wf(),
            r@ == AlphabetView::full(),
    {
        let mut all: Vec<char> = Vec::new();
        let mut code: u8 = 33;
        while code < 127
            invariant
                33 <= code <= 127,
                all@ == default_chars().take(code - 33),
            decreases 127 - code,
        {
            all.push(code as char);
            assert(default_chars().take(code + 1 - 33) =~= default_chars().take(code - 33).push(
                code as char,
            ));
            code += 1;
        }
        assert(default_chars().take(94) =~= default_chars());
        Alphabet::group(all.as_slice())
    }

    /// The characters of `items` sorted by class: the alphabet made of
    /// them alone. A character without a class is passed over.
    pub fn group(items: &[char]) -> (r: Alphabet)
        ensures
            r.wf(),
            r@ == AlphabetView::empty().add(items@),
    {
        let mut alphabet = Alphabet::new();
        alphabet.merge(items);
        alphabet
    }

    /// Adds each character of `items` that has a class, and that is not
    /// there yet, to the part of its class.
    fn merge(&mut self, items: &[char])
        requires
            old(self).wf(),
        ensures
            final(self).wf(),
            final(self)@ == old(self)@.add(items@),
    {
        let mut i: usize = 0;
        while i < items.len()
            invariant
                i <= items.len(),
                self.wf(),
                self@ == old(self)@.add(items@.take(i as int)),
            decreases items.len() - i,
        {
            let c = items[i];
            proof {
                assert(items@.take(i + 1).drop_last() =~= items@.take(i as int));
            }
            match classify(c) {
                CharClass::Letter => {
                    if !holds(&self.letters, c) {
                        self.letters.push(c);
                    }
                },
                CharClass::Symbol => {
                    if !holds(&self.symbols, c) {
                        self.symbols.push(c);
                    }
                },
                CharClass::Digit => {
                    if !holds(&self.digits, c) {
                        self.digits.push(c);
                    }
                },
                CharClass::Other => {},
            }
            i += 1;
        }
        assert(items@.take(i as int) =~= items@);
    }

    /// Adds the characters of `items`, each to the part of its class. A
    /// character that is there already, or that has no class, is passed
    /// over. Where one of them is no plain ASCII character, nothing is
    /// added.
    pub fn add(&mut self, items: &[char]) -> (r: Result<(), GenError>)
        requires
            old(self).wf(),
        ensures
            final(self).wf(),
            r is Ok <==> all_plain(items@),
            r is Ok ==> final(self)@ == old(self)@.add(items@),
            r matches Err(e) ==> e == GenError::InvalidChar && final(self)@ == old(self)@,
    {
        if !check_ascii(items) {
            return Err(GenError::InvalidChar);
        }
        self.merge(items);
        Ok(())
    }

    /// Takes the characters of `items` out of the alphabet. Where one of
    /// them is no plain ASCII character, or is not in the alphabet, nothing
    /// is taken out.
    pub fn delete(&mut self, items: &[char]) -> (r: Result<(), GenError>)
        requires
            old(self).wf(),
        ensures
            final(self).wf(),
            r is Ok <==> all_plain(items@) && old(self)@.contains_all(items@),
            r is Ok ==> final(self)@ == old(self)@.delete(items@),
            r is Err ==> final(self)@ == old(self)@,
            r matches Err(e) ==> e == if all_plain(items@) {
                GenError::DelNonExistValue
            } else {
                GenError::InvalidChar
            },
    {
        if !check_ascii(items) {
            return Err(GenError::InvalidChar);
        }
        let mut i: usize = 0;
        while i < items.len()
            invariant
                i <= items.len(),
                self.wf(),
                self@ == old(self)@,
                all_plain(items@),
                forall|j: int| 0 <= j < i ==> self@.contains(#[trigger] items@[j]),
            decreases items.len() - i,
        {
            if !self.contains(items[i]) {
                return Err(GenError::DelNonExistValue);
            }
            i += 1;
        }
        proof {
            lemma_without(self.letters@, items@, CharClass::Letter);
            lemma_without(self.symbols@, items@, CharClass::Symbol);
            lemma_without(self.digits@, items@, CharClass::Digit);
        }
        self.letters = retain_without(&self.letters, items);
        self.symbols = retain_without(&self.symbols, items);
        self.digits = retain_without(&self.digits, items);
        Ok(())
    }

    /// Puts the characters of `items` in the place of everything that the
    /// alphabet held. A character that has no class is passed over. Where
    /// one of them is no plain ASCII character, the alphabet stays as it
    /// was.
    pub fn replace(&mut self, items: &[char]) -> (r: Result<(), GenError>)
        requires
            old(self).wf(),
        ensures
            final(self).wf(),
            r is Ok <==> all_plain(items@),
            r is Ok ==> final(self)@ == AlphabetView::empty().add(items@),
            r matches Err(e) ==> e == GenError::InvalidChar && final(self)@ == old(self)@,
    {
        if !check_ascii(items) {
            return Err(GenError::InvalidChar);
        }
        *self = Alphabet::group(items);
        Ok(())
    }

    /// Adds the characters of `other`.
    pub fn union(&mut self, other: &Alphabet)
        requires
            old(self).wf(),
            other.wf(),
        ensures
            final(self).wf(),
            final(self)@ == old(self)@.union(other@),
    {
        self.merge(other.letters.as_slice());
        self.merge(other.symbols.as_slice());
        self.merge(other.digits.as_slice());
    }

    /// Empties the part of `class`.
    pub fn clear(&mut self, class: CharClass)
        requires
            old(self).wf(),
        ensures
            final(self).wf(),
            final(self)@ == old(self)@.clear(class),
    {
        match class {
            CharClass::Letter => {
                self.letters = Vec::new();
            },
            CharClass::Symbol => {
                self.symbols = Vec::new();
            },
            CharClass::Digit => {
                self.digits = Vec::new();
            },
            CharClass::Other => {},
        }
    }

    /// Empties every part.
    pub fn clear_all(&mut self)
        ensures
            final(self).wf(),
            final(self)@ == AlphabetView::empty(),
    {
        self.letters = Vec::new();
        self.symbols = Vec::new();
        self.digits = Vec::new();
    }

    /// Whether the alphabet holds `c`.
    pub fn contains(&self, c: char) -> (r: bool)
        ensures
            r == self@.contains(c),
    {
        holds(&self.letters, c) || holds(&self.symbols, c) || holds(&self.digits, c)
    }

    /// The characters of `class`, in the order in which they came in.
    pub fn data(&self, class: CharClass) -> (r: Vec<char>)
        ensures
            r@ == self@.of(class),
    {
        match class {
            CharClass::Letter => copy_chars(&self.letters),
            CharClass::Symbol => copy_chars(&self.symbols),
            CharClass::Digit => copy_chars(&self.digits),
            CharClass::Other => Vec::new(),
        }
    }

    /// How many characters of `class` there are.
    pub fn size(&self, class: CharClass) -> (r: usize)
        ensures
            r == self@.of(class).len(),
    {
        match class {
            CharClass::Letter => self.letters.len(),
            CharClass::Symbol => self.symbols.len(),
            CharClass::Digit => self.digits.len(),
            CharClass::Other => 0,
        }
    }

    /// Tells whether every class of which characters are asked for has a
    /// character to give.
    pub fn check(&self, letters: &Count, symbols: &Count, digits: &Count) -> (r: Result<
        (),
        GenError,
    >)
        ensures
            r is Ok <==> self@.consistent(letters@, symbols@, digits@),
            r matches Err(e) ==> e == GenError::MissChar,
    {
        let no_letter = !letters.is_zero() && self.letters.len() == 0;
        let no_symbol = !symbols.is_zero() && self.symbols.len() == 0;
        let no_digit = !digits.is_zero() && self.digits.len() == 0;
        if no_letter || no_symbol || no_digit {
            Err(GenError::MissChar)
        } else {
            Ok(())
        }
    }
}

impl Clone for Alphabet {
    fn clone(&self) -> (r: Self)
        ensures
            r@ == self@,
    {
        Alphabet {
            letters: copy_chars(&self.letters),
            symbols: copy_chars(&self.symbols),
            digits: copy_chars(&self.digits),
        }
    }
}

} // verus!
