//! Which texts are handed to the property-list reader, and which are turned
//! away unread because reading them may not come back.

use vstd::prelude::*;

verus! {

/// The most nesting levels that a text may open and still be read.
pub const NESTING_LIMIT: usize = 128;

/// The name of the XML element that holds a date.
pub open spec fn date_word() -> Seq<char> {
    seq!['d', 'a', 't', 'e']
}

/// The name of the XML element that opens an array.
pub open spec fn array_word() -> Seq<char> {
    seq!['a', 'r', 'r', 'a', 'y']
}

/// The name of the XML element that opens a dictionary.
pub open spec fn dict_word() -> Seq<char> {
    seq!['d', 'i', 'c', 't']
}

/// The eight characters with which the binary encoding starts.
pub open spec fn binary_magic() -> Seq<char> {
    seq!['b', 'p', 'l', 'i', 's', 't', '0', '0']
}

/// Whether `word` stands in `text` from position `i` on.
pub open spec fn occurs_at(text: Seq<char>, word: Seq<char>, i: int) -> bool {
    &&& 0 <= i
    &&& i + word.len() <= text.len()
    &&& forall|k: int| 0 <= k < word.len() ==> text[i + k] == #[trigger] word[k]
}

/// Whether `word` stands at position `i` where the name of an XML element
/// can stand: right behind `<`, or behind the `:` that ends a prefix.
pub open spec fn names(text: Seq<char>, word: Seq<char>, i: int) -> bool {
    &&& 1 <= i
    &&& text[i - 1] == '<' || text[i - 1] == ':'
    &&& occurs_at(text, word, i)
}

/// Whether a nesting level can open at position `i`: at a bracket of the
/// old-style encoding, or at the name of an XML array or dictionary.
pub open spec fn may_open(text: Seq<char>, i: int) -> bool {
    ||| text[i] == '('
    ||| text[i] == '{'
    ||| names(text, array_word(), i)
    ||| names(text, dict_word(), i)
}

/// The number of positions below `n` at which a nesting level can open.
pub open spec fn openings(text: Seq<char>, n: int) -> nat
    decreases n,
{
    if n <= 0 {
        0
    } else if may_open(text, n - 1) {
        openings(text, n - 1) + 1
    } else {
        openings(text, n - 1)
    }
}

/// Whether `text` is handed to the reader. It is not in the binary
/// encoding, whose nesting does not show in the text; it names no date
/// element; and it can open no more than `NESTING_LIMIT` nesting levels.
pub open spec fn readable(text: Seq<char>) -> bool {
    &&& !occurs_at(text, binary_magic(), 0)
    &&& forall|i: int| 0 <= i < text.len() ==> !names(text, date_word(), i)
    &&& openings(text, text.len() as int) <= NESTING_LIMIT
}

/// The characters of a string, one for one.
pub fn characters(text: &str) -> (r: Vec<char>)
    ensures
        r@ == text@,
{
    let mut found: Vec<char> = Vec::new();
    for c in it: text.chars()
        invariant
            it.seq() == text@,
            found@ == it.seq().take(it.index() as int),
    {
        found.push(c);
    }
    found
}

/// Tells whether `word` stands in `text` from position `i` on.
pub fn stands_at(text: &Vec<char>, word: &Vec<char>, i: usize) -> (r: bool)
    ensures
        r == occurs_at(text@, word@, i as int),
{
    if word.len() > text.len() || i > text.len() - word.len() {
        return false;
    }
    let mut k: usize = 0;
    while k < word.len()
        invariant
            k <= word.len(),
            i + word.len() <= text.len(),
            forall|j: int| 0 <= j < k ==> text@[i + j] == #[trigger] word@[j],
        decreases word.len() - k,
    {
        if text[i + k] != word[k] {
            return false;
        }
        k = k + 1;
    }
    true
}

/// Tells whether `word` stands at position `i` as the name of an XML
/// element.
pub fn stands_as_name(text: &Vec<char>, word: &Vec<char>, i: usize) -> (r: bool)
    ensures
        r == names(text@, word@, i as int),
{
    if i == 0 || i > text.len() {
        return false;
    }
    let before = text[i - 1];
    (before == '<' || before == ':') && stands_at(text, word, i)
}

/// Tells whether a text is handed to the reader.
pub fn is_readable(text: &str) -> (r: bool)
    ensures
        r == readable(text@),
{
    let chars = characters(text);
    let magic: Vec<char> = vec!['b', 'p', 'l', 'i', 's', 't', '0', '0'];
    let date: Vec<char> = vec!['d', 'a', 't', 'e'];
    let array: Vec<char> = vec!['a', 'r', 'r', 'a', 'y'];
    let dict: Vec<char> = vec!['d', 'i', 'c', 't'];
    assert(magic@ =~= binary_magic());
    assert(date@ =~= date_word());
    assert(array@ =~= array_word());
    assert(dict@ =~= dict_word());
    if stands_at(&chars, &magic, 0) {
        return false;
    }
    let mut opened: usize = 0;
    let mut i: usize = 0;
    while i < chars.len()
        invariant
            i <= chars.len(),
            chars@ == text@,
            date@ == date_word(),
            array@ == array_word(),
            dict@ == dict_word(),
            opened == openings(text@, i as int),
            opened <= i,
            forall|j: int| 0 <= j < i ==> !names(text@, date_word(), j),
        decreases chars.len() - i,
    {
        if stands_as_name(&chars, &date, i) {
            return false;
        }
        let c = chars[i];
        if c == '(' || c == '{' || stands_as_name(&chars, &array, i) || stands_as_name(
            &chars,
            &dict,
            i,
        ) {
            opened = opened + 1;
        }
        i = i + 1;
    }
    opened <= NESTING_LIMIT
}

} // verus!
