//! The key generator: counts, alphabet and key, and what may be done to
//! them.

use crate::alphabet::{lemma_alphabet_parts, lemma_full_alphabet, Alphabet, AlphabetView};
use crate::class::{
    class_of, count_class, count_classes, lemma_count_class_concat, lemma_count_class_permutation,
    lemma_count_class_uniform, CharClass,
};
use crate::count::{decimal_text, decimal_value, is_decimal, Count};
use crate::error::GenError;
use crate::items::{char_from_str, char_texts, chars_of, item_chars, strings_of, texts, valid_items};
use crate::sample::{draw_class, shuffled, within};
use vstd::prelude::*;
use vstd::string::*;
use vstd::utf8::is_ascii_chars;

verus! {

/// The unit of a generator made by `RandKey::new`.
pub const INITIAL_UNIT: usize = 65535;

/// The unit of the default generator.
pub const DEFAULT_UNIT: usize = 1048576;

/// What `set_key` does with the counts of the key it is given.
#[derive(Clone, Copy, Debug, PartialEq, Eq, Structural)]
pub enum SetRandKeyOp {
    /// The counts of the generator become those of the key.
    Update,
    /// The key is taken only if its counts are those of the generator.
    Check,
}

/// The class that a selector names: `L` the letters, `S` the symbols, `N`
/// the digits.
pub open spec fn kind_class(kind: Seq<char>) -> Option<CharClass> {
    if kind == seq!['L'] {
        Some(CharClass::Letter)
    } else if kind == seq!['S'] {
        Some(CharClass::Symbol)
    } else if kind == seq!['N'] {
        Some(CharClass::Digit)
    } else {
        None
    }
}

/// What a generator holds.
pub ghost struct RandKeyView {
    /// How many letters a key is to have.
    pub ltr_cnt: nat,
    /// How many symbols a key is to have.
    pub sbl_cnt: nat,
    /// How many digits a key is to have.
    pub num_cnt: nat,
    /// The key.
    pub key: Seq<char>,
    /// The largest number of characters that is drawn in one piece.
    pub unit: nat,
    /// The characters that a key is drawn from.
    pub data: AlphabetView,
}

impl RandKeyView {
    /// Whether the unit is positive, the alphabet well formed and the key
    /// made of ASCII characters.
    pub open spec fn wf(self) -> bool {
        &&& self.unit > 0
        &&& self.data.wf()
        &&& is_ascii_chars(self.key)
    }

    /// The length that a key is to have.
    pub open spec fn total(self) -> nat {
        self.ltr_cnt + self.sbl_cnt + self.num_cnt
    }

    /// The count of `class`.
    pub open spec fn count(self, class: CharClass) -> nat {
        match class {
            CharClass::Letter => self.ltr_cnt,
            CharClass::Symbol => self.sbl_cnt,
            CharClass::Digit => self.num_cnt,
            CharClass::Other => 0,
        }
    }

    /// The generator with `n` as the count of `class`.
    pub open spec fn with_count(self, class: CharClass, n: nat) -> RandKeyView {
        match class {
            CharClass::Letter => RandKeyView { ltr_cnt: n, ..self },
            CharClass::Symbol => RandKeyView { sbl_cnt: n, ..self },
            CharClass::Digit => RandKeyView { num_cnt: n, ..self },
            CharClass::Other => self,
        }
    }

    /// Whether the alphabet has a character for every class of which the
    /// counts ask one.
    pub open spec fn consistent(self) -> bool {
        self.data.consistent(self.ltr_cnt, self.sbl_cnt, self.num_cnt)
    }

    /// Why no key can be made, if none can: a class without characters, or
    /// a key too long for a machine word to count.
    pub open spec fn join_error(self) -> Option<GenError> {
        if !self.consistent() {
            Some(GenError::MissChar)
        } else if self.total() > usize::MAX {
            Some(GenError::Overflow)
        } else {
            None
        }
    }

    /// Whether `key` is a key for this generator: as long as the counts
    /// say, with as many characters of each class as its count says, all
    /// of them from the alphabet.
    pub open spec fn generates(self, key: Seq<char>) -> bool {
        &&& key.len() == self.total()
        &&& count_class(key, CharClass::Letter) == self.ltr_cnt
        &&& count_class(key, CharClass::Symbol) == self.sbl_cnt
        &&& count_class(key, CharClass::Digit) == self.num_cnt
        &&& forall|i: int| 0 <= i < key.len() ==> self.data.contains(#[trigger] key[i])
    }

    /// Whether the counts are those of `key`.
    pub open spec fn counts_of(self, key: Seq<char>) -> bool {
        &&& self.ltr_cnt == count_class(key, CharClass::Letter)
        &&& self.sbl_cnt == count_class(key, CharClass::Symbol)
        &&& self.num_cnt == count_class(key, CharClass::Digit)
    }

    /// What `set_key` makes of the generator.
    pub open spec fn set_key(self, val: Seq<char>, op: SetRandKeyOp) -> Result<
        RandKeyView,
        GenError,
    > {
        if !is_ascii_chars(val) {
            Err(GenError::InvalidChar)
        } else {
            match op {
                SetRandKeyOp::Update => Ok(
                    RandKeyView {
                        ltr_cnt: count_class(val, CharClass::Letter),
                        sbl_cnt: count_class(val, CharClass::Symbol),
                        num_cnt: count_class(val, CharClass::Digit),
                        key: val,
                        ..self
                    },
                ),
                SetRandKeyOp::Check => if self.counts_of(val) {
                    Ok(RandKeyView { key: val, ..self })
                } else {
                    Err(GenError::InconsistentField)
                },
            }
        }
    }

    /// What `set_unit` makes of the generator.
    pub open spec fn set_unit(self, val: Seq<char>) -> Result<RandKeyView, GenError> {
        if !is_decimal(val) {
            Err(GenError::InvalidNumber)
        } else if decimal_value(val) == 0 {
            Err(GenError::InvalidUnit)
        } else {
            Ok(RandKeyView { unit: decimal_value(val), ..self })
        }
    }

    /// What `set_cnt` makes of the generator.
    pub open spec fn set_cnt(self, kind: Seq<char>, val: Seq<char>) -> Result<
        RandKeyView,
        GenError,
    > {
        match kind_class(kind) {
            None => Err(GenError::InvalidKind),
            Some(class) => if is_decimal(val) {
                Ok(self.with_count(class, decimal_value(val)))
            } else {
                Err(GenError::InvalidNumber)
            },
        }
    }

    /// What `clear` makes of the generator.
    pub open spec fn clear(self, kind: Seq<char>) -> Result<RandKeyView, GenError> {
        match kind_class(kind) {
            None => Err(GenError::InvalidKind),
            Some(class) => Ok(RandKeyView { data: self.data.clear(class), ..self }),
        }
    }

    /// What `add_item` makes of the generator.
    pub open spec fn add_item(self, items: Seq<&str>) -> Result<RandKeyView, GenError> {
        if valid_items(items) {
            Ok(RandKeyView { data: self.data.add(item_chars(items)), ..self })
        } else {
            Err(GenError::InvalidChar)
        }
    }

    /// What `del_item` makes of the generator.
    pub open spec fn del_item(self, items: Seq<&str>) -> Result<RandKeyView, GenError> {
        if !valid_items(items) {
            Err(GenError::InvalidChar)
        } else if !self.data.contains_all(item_chars(items)) {
            Err(GenError::DelNonExistValue)
        } else {
            Ok(RandKeyView { data: self.data.delete(item_chars(items)), ..self })
        }
    }

    /// The generator with the alphabet made of the characters of `items`
    /// alone.
    pub open spec fn replace_data(self, items: Seq<&str>) -> RandKeyView {
        RandKeyView { data: AlphabetView::empty().add(item_chars(items)), ..self }
    }

    /// The two generators put together: the counts added, the second key
    /// behind the first, the characters of the second alphabet added to the
    /// first, and the unit of the first.
    pub open spec fn combine(self, other: RandKeyView) -> RandKeyView {
        RandKeyView {
            ltr_cnt: self.ltr_cnt + other.ltr_cnt,
            sbl_cnt: self.sbl_cnt + other.sbl_cnt,
            num_cnt: self.num_cnt + other.num_cnt,
            key: self.key + other.key,
            unit: self.unit,
            data: self.data.union(other.data),
        }
    }
}

/// Whether an operation did what `model` says: on success the generator
/// is the one that `model` gives, on failure the error is the one that
/// `model` gives and the generator is as it was.
pub open spec fn follows(
    r: Result<(), GenError>,
    before: RandKeyView,
    after: RandKeyView,
    model: Result<RandKeyView, GenError>,
) -> bool {
    match model {
        Ok(v) => r is Ok && after == v,
        Err(e) => r == Err::<(), GenError>(e) && after == before,
    }
}

/// A generator with the alphabet of all plain ASCII characters can make a
/// key for any counts, as long as a machine word can count its characters.
pub proof fn lemma_full_alphabet_joins(v: RandKeyView)
    requires
        v.data == AlphabetView::full(),
    ensures
        v.consistent(),
        v.join_error() == if v.total() > usize::MAX {
            Some(GenError::Overflow)
        } else {
            None
        },
{
    lemma_full_alphabet();
    assert(AlphabetView::full().consistent(v.ltr_cnt, v.sbl_cnt, v.num_cnt));
}

/// A key of a generator is made of ASCII characters, and counting its
/// characters by class gives the counts of the generator again: checked
/// against them the key is taken, and an update by it leaves them as they
/// are.
pub proof fn lemma_generated_key_keeps_counts(v: RandKeyView, key: Seq<char>)
    requires
        v.data.wf(),
        v.generates(key),
    ensures
        is_ascii_chars(key),
        v.counts_of(key),
        v.set_key(key, SetRandKeyOp::Check) == Ok::<RandKeyView, GenError>(
            RandKeyView { key: key, ..v },
        ),
        v.set_key(key, SetRandKeyOp::Update) == Ok::<RandKeyView, GenError>(
            RandKeyView { key: key, ..v },
        ),
{
    lemma_alphabet_parts(v.data);
    assert forall|i: int| 0 <= i < key.len() implies '\0' <= #[trigger] key[i] <= '\u{7f}' by {
        assert(v.data.contains(key[i]));
    }
}

/// Characters drawn from characters of one class belong to that class.
proof fn lemma_part_class(part: Seq<char>, data: Seq<char>, own: CharClass)
    requires
        within(part, data),
        forall|i: int| 0 <= i < data.len() ==> class_of(#[trigger] data[i]) == own,
    ensures
        forall|i: int| 0 <= i < part.len() ==> class_of(#[trigger] part[i]) == own,
{
    assert forall|i: int| 0 <= i < part.len() implies class_of(#[trigger] part[i]) == own by {
        let c = part[i];
        assert(data.contains(c));
        let j = choose|j: int| 0 <= j < data.len() && data[j] == c;
        assert(class_of(data[j]) == own);
    }
}

/// The three runs of drawn characters, put together in any order, make a
/// key for the generator.
proof fn lemma_shuffled_parts(
    v: RandKeyView,
    letters: Seq<char>,
    symbols: Seq<char>,
    digits: Seq<char>,
    key: Seq<char>,
)
    requires
        v.data.wf(),
        letters.len() == v.ltr_cnt,
        symbols.len() == v.sbl_cnt,
        digits.len() == v.num_cnt,
        within(letters, v.data.letters),
        within(symbols, v.data.symbols),
        within(digits, v.data.digits),
        key.to_multiset() == (letters + symbols + digits).to_multiset(),
    ensures
        v.generates(key),
{
    let buffer = letters + symbols + digits;
    key.to_multiset_ensures();
    buffer.to_multiset_ensures();
    lemma_part_class(letters, v.data.letters, CharClass::Letter);
    lemma_part_class(symbols, v.data.symbols, CharClass::Symbol);
    lemma_part_class(digits, v.data.digits, CharClass::Digit);
    assert forall|class: CharClass| #[trigger]
        count_class(key, class) == count_class(letters, class) + count_class(symbols, class)
            + count_class(digits, class) by {
        lemma_count_class_permutation(key, buffer, class);
        lemma_count_class_concat(letters + symbols, digits, class);
        lemma_count_class_concat(letters, symbols, class);
    }
    lemma_count_class_uniform(letters, CharClass::Letter, CharClass::Letter);
    lemma_count_class_uniform(letters, CharClass::Letter, CharClass::Symbol);
    lemma_count_class_uniform(letters, CharClass::Letter, CharClass::Digit);
    lemma_count_class_uniform(symbols, CharClass::Symbol, CharClass::Letter);
    lemma_count_class_uniform(symbols, CharClass::Symbol, CharClass::Symbol);
    lemma_count_class_uniform(symbols, CharClass::Symbol, CharClass::Digit);
    lemma_count_class_uniform(digits, CharClass::Digit, CharClass::Letter);
    lemma_count_class_uniform(digits, CharClass::Digit, CharClass::Symbol);
    lemma_count_class_uniform(digits, CharClass::Digit, CharClass::Digit);
    assert forall|i: int| 0 <= i < key.len() implies v.data.contains(#[trigger] key[i]) by {
        let c = key[i];
        assert(key.contains(c));
        assert(key.to_multiset().count(c) > 0);
        assert(buffer.to_multiset().count(c) > 0);
        assert(buffer.contains(c));
        let j = choose|j: int| 0 <= j < buffer.len() && buffer[j] == c;
        if j < letters.len() {
            assert(letters[j] == c);
        } else if j < letters.len() + symbols.len() {
            assert(symbols[j - letters.len()] == c);
        } else {
            assert(digits[j - letters.len() - symbols.len()] == c);
        }
    }
}

/// The class that `kind` names.
fn class_of_kind(kind: &str) -> (r: Option<CharClass>)
    ensures
        r == kind_class(kind@),
{
    match char_from_str(kind) {
        Some(c) => {
            proof {
                assert(kind@ =~= seq![c]);
                assert(seq!['L'][0] == 'L' && seq!['S'][0] == 'S' && seq!['N'][0] == 'N');
            }
            if c == 'L' {
                Some(CharClass::Letter)
            } else if c == 'S' {
                Some(CharClass::Symbol)
            } else if c == 'N' {
                Some(CharClass::Digit)
            } else {
                None
            }
        },
        None => {
            proof {
                assert(seq!['L'].len() == 1 && seq!['S'].len() == 1 && seq!['N'].len() == 1);
            }
            None
        },
    }
}

/// A generator of random keys: how many letters, symbols and digits a key
/// is to have, the characters to draw them from, and the last key.
#[derive(Debug)]
pub struct RandKey {
    ltr_cnt: Count,
    sbl_cnt: Count,
    num_cnt: Count,
    key: String,
    unit: Count,
    data: Alphabet,
}

impl View for RandKey {
    type V = RandKeyView;

    closed spec fn view(&self) -> RandKeyView {
        RandKeyView {
            ltr_cnt: self.ltr_cnt@,
            sbl_cnt: self.sbl_cnt@,
            num_cnt: self.num_cnt@,
            key: self.key@,
            unit: self.unit@,
            data: self.data@,
        }
    }
}

impl Clone for RandKey {
    fn clone(&self) -> (r: Self)
        ensures
            r@ == self@,
    {
        RandKey {
            ltr_cnt: self.ltr_cnt.clone(),
            sbl_cnt: self.sbl_cnt.clone(),
            num_cnt: self.num_cnt.clone(),
            key: self.key.clone(),
            unit: self.unit.clone(),
            data: self.data.clone(),
        }
    }
}

impl Default for RandKey {
    /// The generator of no characters at all, with the alphabet of all
    /// plain ASCII characters.
    fn default() -> (r: Self)
        ensures
            r.wf(),
            r@ == (RandKeyView {
                ltr_cnt: 0,
                sbl_cnt: 0,
                num_cnt: 0,
                key: Seq::empty(),
                unit: DEFAULT_UNIT as nat,
                data: AlphabetView::full(),
            }),
    {
        RandKey {
            ltr_cnt: Count::from_usize(0),
            sbl_cnt: Count::from_usize(0),
            num_cnt: Count::from_usize(0),
            key: String::new(),
            unit: Count::from_usize(DEFAULT_UNIT),
            data: Alphabet::default_data(),
        }
    }
}

impl RandKey {
    /// Whether the generator is what its type says: see `RandKeyView::wf`.
    pub open spec fn wf(&self) -> bool {
        self@.wf()
    }

    /// Whether each of the three texts is a decimal numeral.
    pub fn check_init(input: (&str, &str, &str)) -> (r: bool)
        ensures
            r == (is_decimal(input.0@) && is_decimal(input.1@) && is_decimal(input.2@)),
    {
        Count::parse(input.0).is_ok() && Count::parse(input.1).is_ok() && Count::parse(
            input.2,
        ).is_ok()
    }

    /// A generator for keys of `ltr_cnt` letters, `sbl_cnt` symbols and
    /// `num_cnt` digits, each count a decimal numeral. It has no key yet,
    /// and draws from all plain ASCII characters.
    pub fn new(ltr_cnt: &str, sbl_cnt: &str, num_cnt: &str) -> (r: Result<RandKey, GenError>)
        ensures
            r is Ok <==> is_decimal(ltr_cnt@) && is_decimal(sbl_cnt@) && is_decimal(num_cnt@),
            r matches Ok(k) ==> k.wf() && k@ == (RandKeyView {
                ltr_cnt: decimal_value(ltr_cnt@),
                sbl_cnt: decimal_value(sbl_cnt@),
                num_cnt: decimal_value(num_cnt@),
                key: Seq::empty(),
                unit: INITIAL_UNIT as nat,
                data: AlphabetView::full(),
            }),
            r matches Err(e) ==> e == GenError::InvalidNumber,
    {
        if !Self::check_init((ltr_cnt, sbl_cnt, num_cnt)) {
            return Err(GenError::InvalidNumber);
        }
        let letters = Count::parse(ltr_cnt)?;
        let symbols = Count::parse(sbl_cnt)?;
        let digits = Count::parse(num_cnt)?;
        Ok(
            RandKey {
                ltr_cnt: letters,
                sbl_cnt: symbols,
                num_cnt: digits,
                key: String::new(),
                unit: Count::from_usize(INITIAL_UNIT),
                data: Alphabet::default_data(),
            },
        )
    }

    /// The key.
    pub fn key(&self) -> (r: &str)
        ensures
            r@ == self@.key,
    {
        self.key.as_str()
    }

    /// Puts `val` in the place of the key. With `Update` the counts become
    /// those of `val`; with `Check` they stay, and `val` is refused unless
    /// its counts are the same. A text that is not all ASCII is refused
    /// either way.
    pub fn set_key(&mut self, val: &str, op: SetRandKeyOp) -> (r: Result<(), GenError>)
        requires
            old(self).wf(),
        ensures
            final(self).wf(),
            follows(r, old(self)@, final(self)@, old(self)@.set_key(val@, op)),
    {
        let counts = count_classes(val)?;
        match op {
            SetRandKeyOp::Update => {
                self.ltr_cnt = counts.0;
                self.sbl_cnt = counts.1;
                self.num_cnt = counts.2;
                self.key = val.to_owned();
                Ok(())
            },
            SetRandKeyOp::Check => {
                if self.ltr_cnt.equals(&counts.0) && self.sbl_cnt.equals(&counts.1)
                    && self.num_cnt.equals(&counts.2) {
                    self.key = val.to_owned();
                    Ok(())
                } else {
                    Err(GenError::InconsistentField)
                }
            },
        }
    }

    /// The unit, as a decimal numeral.
    pub fn unit(&self) -> (r: String)
        ensures
            r@ == decimal_text(self@.unit),
    {
        self.unit.to_text()
    }

    /// Sets the unit to the number that `val` denotes. A text that is no
    /// decimal numeral is refused, and so is zero.
    pub fn set_unit(&mut self, val: &str) -> (r: Result<(), GenError>)
        requires
            old(self).wf(),
        ensures
            final(self).wf(),
            follows(r, old(self)@, final(self)@, old(self)@.set_unit(val@)),
    {
        let unit = Count::parse(val)?;
        if unit.is_zero() {
            Err(GenError::InvalidUnit)
        } else {
            self.unit = unit;
            Ok(())
        }
    }

    /// The alphabet: its letters, its symbols and its digits, in this
    /// order, each character as a text of its own.
    pub fn all_data(&self) -> (r: Vec<Vec<String>>)
        ensures
            r@.len() == 3,
            texts(r@[0]@) == char_texts(self@.data.letters),
            texts(r@[1]@) == char_texts(self@.data.symbols),
            texts(r@[2]@) == char_texts(self@.data.digits),
    {
        let mut all: Vec<Vec<String>> = Vec::new();
        all.push(strings_of(&self.data.data(CharClass::Letter)));
        all.push(strings_of(&self.data.data(CharClass::Symbol)));
        all.push(strings_of(&self.data.data(CharClass::Digit)));
        all
    }

    /// The characters of the class that `kind` names, each as a text of
    /// its own.
    pub fn data(&self, kind: &str) -> (r: Result<Vec<String>, GenError>)
        ensures
            match kind_class(kind@) {
                Some(class) => r is Ok && texts(r->Ok_0@) == char_texts(self@.data.of(class)),
                None => r == Err::<Vec<String>, GenError>(GenError::InvalidKind),
            },
    {
        match class_of_kind(kind) {
            Some(class) => Ok(strings_of(&self.data.data(class))),
            None => Err(GenError::InvalidKind),
        }
    }

    /// Empties the alphabet.
    pub fn clear_all(&mut self)
        requires
            old(self).wf(),
        ensures
            final(self).wf(),
            final(self)@ == (RandKeyView { data: AlphabetView::empty(), ..old(self)@ }),
    {
        self.data.clear_all();
    }

    /// Empties the class that `kind` names.
    pub fn clear(&mut self, kind: &str) -> (r: Result<(), GenError>)
        requires
            old(self).wf(),
        ensures
            final(self).wf(),
            follows(r, old(self)@, final(self)@, old(self)@.clear(kind@)),
    {
        match class_of_kind(kind) {
            Some(class) => {
                self.data.clear(class);
                Ok(())
            },
            None => Err(GenError::InvalidKind),
        }
    }

    /// Tells whether the alphabet has a character for every class of which
    /// the counts ask one.
    pub fn check_data(&self) -> (r: Result<(), GenError>)
        ensures
            r is Ok <==> self@.consistent(),
            r matches Err(e) ==> e == GenError::MissChar,
    {
        self.data.check(&self.ltr_cnt, &self.sbl_cnt, &self.num_cnt)
    }

    /// Takes the characters of `items` out of the alphabet. Each item is a
    /// text of one plain ASCII character, and each character must be in
    /// the alphabet; else nothing is taken out.
    pub fn del_item(&mut self, items: &[&str]) -> (r: Result<(), GenError>)
        requires
            old(self).wf(),
        ensures
            final(self).wf(),
            follows(r, old(self)@, final(self)@, old(self)@.del_item(items@)),
    {
        match chars_of(items) {
            Some(chars) => self.data.delete(chars.as_slice()),
            None => Err(GenError::InvalidChar),
        }
    }

    /// Adds the characters of `items` to the alphabet, each to its class.
    /// Each item is a text of one plain ASCII character; else nothing is
    /// added. A character without a class, or one that is there already,
    /// is passed over.
    pub fn add_item(&mut self, items: &[&str]) -> (r: Result<(), GenError>)
        requires
            old(self).wf(),
        ensures
            final(self).wf(),
            follows(r, old(self)@, final(self)@, old(self)@.add_item(items@)),
    {
        match chars_of(items) {
            Some(chars) => self.data.add(chars.as_slice()),
            None => Err(GenError::InvalidChar),
        }
    }

    /// Makes the alphabet anew from the characters of `items`, each a text
    /// of one plain ASCII character; else the alphabet stays as it was.
    /// The new alphabet stays also where it lacks a class that the counts
    /// ask for, which the result then tells.
    pub fn replace_data(&mut self, items: &[&str]) -> (r: Result<(), GenError>)
        requires
            old(self).wf(),
        ensures
            final(self).wf(),
            !valid_items(items@) ==> r == Err::<(), GenError>(GenError::InvalidChar)
                && final(self)@ == old(self)@,
            valid_items(items@) ==> final(self)@ == old(self)@.replace_data(items@),
            valid_items(items@) && final(self)@.consistent() ==> r is Ok,
            valid_items(items@) && !final(self)@.consistent() ==> r == Err::<(), GenError>(
                GenError::MissChar,
            ),
    {
        let chars = match chars_of(items) {
            Some(chars) => chars,
            None => {
                return Err(GenError::InvalidChar);
            },
        };
        match self.data.replace(chars.as_slice()) {
            Ok(()) => self.check_data(),
            Err(e) => Err(e),
        }
    }

    /// The length of the key.
    pub fn len(&self) -> (r: usize)
        requires
            self.wf(),
        ensures
            r == self@.key.len(),
    {
        let key = self.key.as_str();
        proof {
            is_ascii_spec_bytes(key);
        }
        key.as_bytes().len()
    }

    /// Whether the key is empty.
    pub fn is_empty(&self) -> (r: bool)
        ensures
            r == (self@.key.len() == 0),
    {
        self.key.as_str().is_empty()
    }

    /// The count of the class that `kind` names, as a decimal numeral.
    pub fn get_cnt(&self, kind: &str) -> (r: Option<String>)
        ensures
            match kind_class(kind@) {
                Some(class) => r is Some && r->Some_0@ == decimal_text(self@.count(class)),
                None => r is None,
            },
    {
        match class_of_kind(kind) {
            Some(CharClass::Letter) => Some(self.ltr_cnt.to_text()),
            Some(CharClass::Symbol) => Some(self.sbl_cnt.to_text()),
            Some(CharClass::Digit) => Some(self.num_cnt.to_text()),
            _ => None,
        }
    }

    /// Sets the count of the class that `kind` names to the number that
    /// `val` denotes.
    pub fn set_cnt(&mut self, kind: &str, val: &str) -> (r: Result<(), GenError>)
        requires
            old(self).wf(),
        ensures
            final(self).wf(),
            follows(r, old(self)@, final(self)@, old(self)@.set_cnt(kind@, val@)),
    {
        let class = match class_of_kind(kind) {
            Some(class) => class,
            None => {
                return Err(GenError::InvalidKind);
            },
        };
        let count = Count::parse(val)?;
        match class {
            CharClass::Letter => {
                self.ltr_cnt = count;
            },
            CharClass::Symbol => {
                self.sbl_cnt = count;
            },
            CharClass::Digit => {
                self.num_cnt = count;
            },
            CharClass::Other => {},
        }
        Ok(())
    }

    /// Makes a new key: for each class as many characters as its count
    /// says, drawn at random from the characters of the class, and all of
    /// them put in an order drawn at random. Where a class lacks
    /// characters, or the key would be longer than a machine word can
    /// count, the old key stays.
    pub fn join(&mut self) -> (r: Result<(), GenError>)
        requires
            old(self).wf(),
        ensures
            final(self).wf(),
            match old(self)@.join_error() {
                Some(e) => r == Err::<(), GenError>(e) && final(self)@ == old(self)@,
                None => {
                    &&& r is Ok
                    &&& final(self)@ == (RandKeyView { key: final(self)@.key, ..old(self)@ })
                    &&& old(self)@.generates(final(self)@.key)
                },
            },
    {
        self.check_data()?;
        let total = self.ltr_cnt.plus(&self.sbl_cnt).plus(&self.num_cnt);
        if total.to_usize().is_none() {
            return Err(GenError::Overflow);
        }
        let letters = self.data.data(CharClass::Letter);
        let symbols = self.data.data(CharClass::Symbol);
        let digits = self.data.data(CharClass::Digit);
        let mut buffer = draw_class(&self.ltr_cnt, &self.unit, &letters);
        let mut symbol_part = draw_class(&self.sbl_cnt, &self.unit, &symbols);
        let mut digit_part = draw_class(&self.num_cnt, &self.unit, &digits);
        let ghost letter_chars = buffer@;
        let ghost symbol_chars = symbol_part@;
        let ghost digit_chars = digit_part@;
        buffer.append(&mut symbol_part);
        buffer.append(&mut digit_part);
        let key = shuffled(buffer);
        proof {
            lemma_shuffled_parts(self@, letter_chars, symbol_chars, digit_chars, key@);
            lemma_generated_key_keeps_counts(self@, key@);
        }
        self.key = key;
        Ok(())
    }

    /// The two generators put together, without a new key being made: the
    /// counts are added, the key of `other` comes behind this one, and the
    /// characters of the alphabet of `other` are added to this one. The
    /// unit is that of this generator.
    pub fn combine(&self, other: &RandKey) -> (r: RandKey)
        requires
            self.wf(),
            other.wf(),
        ensures
            r.wf(),
            r@ == self@.combine(other@),
    {
        let mut data = self.data.clone();
        data.union(&other.data);
        let key = self.key.clone().concat(other.key.as_str());
        RandKey {
            ltr_cnt: self.ltr_cnt.plus(&other.ltr_cnt),
            sbl_cnt: self.sbl_cnt.plus(&other.sbl_cnt),
            num_cnt: self.num_cnt.plus(&other.num_cnt),
            key,
            unit: self.unit.clone(),
            data,
        }
    }

    /// Puts `other` together with this generator, as `combine` does it.
    pub fn add_assign(&mut self, other: &RandKey)
        requires
            old(self).wf(),
            other.wf(),
        ensures
            final(self).wf(),
            final(self)@ == old(self)@.combine(other@),
    {
        self.ltr_cnt = self.ltr_cnt.plus(&other.ltr_cnt);
        self.sbl_cnt = self.sbl_cnt.plus(&other.sbl_cnt);
        self.num_cnt = self.num_cnt.plus(&other.num_cnt);
        self.key.append(other.key.as_str());
        self.data.union(&other.data);
    }
}

/// What `+` asks of its operands. The sum is told by what it holds, in the
/// contract of `add`, and not as a value that `add_spec` could name: so no
/// claim is made through `add_spec`.
impl vstd::std_specs::ops::AddSpecImpl for RandKey {
    open spec fn obeys_add_spec() -> bool {
        false
    }

    open spec fn add_req(self, rhs: RandKey) -> bool {
        self.wf() && rhs.wf()
    }

    open spec fn add_spec(self, rhs: RandKey) -> RandKey {
        self
    }
}

impl core::ops::Add for RandKey {
    type Output = RandKey;

    /// The two generators put together, as `combine` does it.
    fn add(self, rhs: RandKey) -> (r: RandKey)
        ensures
            r.wf(),
            r@ == self@.combine(rhs@),
    {
        self.combine(&rhs)
    }
}

/// A value from which a generator can be made.
pub trait ToRandKey {
    /// What comes of it.
    type Output;

    /// The generator that has `self` as its key.
    fn to_randkey(&self) -> Self::Output;
}

impl ToRandKey for str {
    type Output = Result<RandKey, GenError>;

    /// The default generator with this text as its key and the counts of
    /// the text as its counts. A text that is not all ASCII is refused.
    fn to_randkey(&self) -> (r: Result<RandKey, GenError>)
        ensures
            r is Ok <==> is_ascii_chars(self@),
            r matches Ok(k) ==> k.wf() && k@ == (RandKeyView {
                ltr_cnt: count_class(self@, CharClass::Letter),
                sbl_cnt: count_class(self@, CharClass::Symbol),
                num_cnt: count_class(self@, CharClass::Digit),
                key: self@,
                unit: DEFAULT_UNIT as nat,
                data: AlphabetView::full(),
            }),
            r matches Err(e) ==> e == GenError::InvalidChar,
    {
        let mut key = RandKey::default();
        match key.set_key(self, SetRandKeyOp::Update) {
            Ok(()) => Ok(key),
            Err(_) => Err(GenError::InvalidChar),
        }
    }
}

impl ToRandKey for String {
    type Output = Result<RandKey, GenError>;

    /// As for the text that the `String` holds.
    fn to_randkey(&self) -> (r: Result<RandKey, GenError>)
        ensures
            r is Ok <==> is_ascii_chars(self@),
            r matches Ok(k) ==> k.wf() && k@ == (RandKeyView {
                ltr_cnt: count_class(self@, CharClass::Letter),
                sbl_cnt: count_class(self@, CharClass::Symbol),
                num_cnt: count_class(self@, CharClass::Digit),
                key: self@,
                unit: DEFAULT_UNIT as nat,
                data: AlphabetView::full(),
            }),
            r matches Err(e) ==> e == GenError::InvalidChar,
    {
        self.as_str().to_randkey()
    }
}

} // verus!
