//! Character-level text operations: white space, spans of characters,
//! trimming, splitting at a separator and splitting into words.
//!
//! Every operation is specified over `Seq<char>`, the view of a string.

use vstd::prelude::*;
use vstd::std_specs::iter::IteratorSpec;
use vstd::string::*;

verus! {

/// Whether `c` is a white-space character: one of the code points that carry
/// the Unicode property `White_Space`.
pub open spec fn is_space(c: char) -> bool {
    let n = c as u32;
    ||| 0x09 <= n <= 0x0D
    ||| n == 0x20
    ||| n == 0x85
    ||| n == 0xA0
    ||| n == 0x1680
    ||| 0x2000 <= n <= 0x200A
    ||| n == 0x2028
    ||| n == 0x2029
    ||| n == 0x202F
    ||| n == 0x205F
    ||| n == 0x3000
}

/// Tests a character for white space.
pub fn is_whitespace(c: char) -> (b: bool)
    ensures
        b == is_space(c),
{
    let n: u32 = c as u32;
    (0x09 <= n && n <= 0x0D) || n == 0x20 || n == 0x85 || n == 0xA0 || n == 0x1680 || (0x2000 <= n
        && n <= 0x200A) || n == 0x2028 || n == 0x2029 || n == 0x202F || n == 0x205F || n == 0x3000
}

/// A set of characters that a scan runs over.
#[derive(Clone, Copy, Debug)]
pub enum CharClass {
    /// The white-space characters.
    Space,
    /// Every character that is not white space.
    Solid,
    /// Every character but the given one.
    Except(char),
}

impl CharClass {
    /// Whether `c` belongs to the class.
    pub open spec fn has(self, c: char) -> bool {
        match self {
            CharClass::Space => is_space(c),
            CharClass::Solid => !is_space(c),
            CharClass::Except(x) => c != x,
        }
    }

    /// Tests a character for membership.
    pub fn holds(&self, c: char) -> (b: bool)
        ensures
            b == self.has(c),
    {
        match self {
            CharClass::Space => is_whitespace(c),
            CharClass::Solid => !is_whitespace(c),
            CharClass::Except(x) => c != *x,
        }
    }
}

/// Length of the longest prefix of `s` whose characters all belong to `class`.
pub open spec fn span(s: Seq<char>, class: CharClass) -> nat
    decreases s.len(),
{
    if s.len() > 0 && class.has(s[0]) {
        1 + span(s.drop_first(), class)
    } else {
        0
    }
}

/// Length of the longest suffix of `s` whose characters all belong to `class`.
pub open spec fn span_back(s: Seq<char>, class: CharClass) -> nat
    decreases s.len(),
{
    if s.len() > 0 && class.has(s.last()) {
        1 + span_back(s.drop_last(), class)
    } else {
        0
    }
}

/// A span ends at the first character outside the class, or at the
/// end of the text when there is none.
pub proof fn lemma_span(s: Seq<char>, class: CharClass, n: int)
    requires
        0 <= n <= s.len(),
        forall|k: int| 0 <= k < n ==> class.has(#[trigger] s[k]),
        n == s.len() || !class.has(s[n]),
    ensures
        span(s, class) == n,
    decreases n,
{
    if n > 0 {
        let t = s.drop_first();
        assert forall|k: int| 0 <= k < n - 1 implies class.has(#[trigger] t[k]) by {
            assert(t[k] == s[k + 1]);
        }
        lemma_span(t, class, n - 1);
    }
}

/// A backward span ends at the last character outside the class.
pub proof fn lemma_span_back(s: Seq<char>, class: CharClass, n: int)
    requires
        0 <= n <= s.len(),
        forall|k: int| s.len() - n <= k < s.len() ==> class.has(#[trigger] s[k]),
        n == s.len() || !class.has(s[s.len() - n - 1]),
    ensures
        span_back(s, class) == n,
    decreases n,
{
    if n > 0 {
        let t = s.drop_last();
        assert forall|k: int| t.len() - (n - 1) <= k < t.len() implies class.has(
            #[trigger] t[k],
        ) by {
            assert(t[k] == s[k]);
        }
        lemma_span_back(t, class, n - 1);
    }
}

/// A span never leaves the text, covers only characters of the class and
/// stops at a character outside it.
pub proof fn lemma_span_bounds(s: Seq<char>, class: CharClass)
    ensures
        0 <= span(s, class) <= s.len(),
        forall|k: int| 0 <= k < span(s, class) ==> class.has(#[trigger] s[k]),
        span(s, class) < s.len() ==> !class.has(s[span(s, class) as int]),
    decreases s.len(),
{
    if s.len() > 0 && class.has(s[0]) {
        let t = s.drop_first();
        lemma_span_bounds(t, class);
        assert forall|k: int| 0 <= k < span(s, class) implies class.has(#[trigger] s[k]) by {
            if k > 0 {
                assert(s[k] == t[k - 1]);
            }
        }
    }
}

/// A backward span never leaves the text and covers only characters of the class.
pub proof fn lemma_span_back_bounds(s: Seq<char>, class: CharClass)
    ensures
        0 <= span_back(s, class) <= s.len(),
        forall|k: int|
            s.len() - span_back(s, class) <= k < s.len() ==> class.has(#[trigger] s[k]),
        span_back(s, class) < s.len() ==> !class.has(s[s.len() - span_back(s, class) - 1]),
    decreases s.len(),
{
    if s.len() > 0 && class.has(s.last()) {
        let t = s.drop_last();
        lemma_span_back_bounds(t, class);
        assert forall|k: int| s.len() - span_back(s, class) <= k < s.len() implies class.has(
            #[trigger] s[k],
        ) by {
            if k < s.len() - 1 {
                assert(s[k] == t[k]);
            }
        }
    }
}

/// The characters of a string, in order.
pub fn chars_of(s: &str) -> (v: Vec<char>)
    ensures
        v@ == s@,
{
    let mut v: Vec<char> = Vec::new();
    for c in it: s.chars()
        invariant
            it.seq() == s@,
            v@ == s@.take(it.index() as int),
    {
        v.push(c);
    }
    v
}

/// Whether two strings hold the same characters.
pub fn str_eq(a: &str, b: &str) -> (r: bool)
    ensures
        r == (a@ == b@),
{
    let mut rest = b.chars();
    for x in it: a.chars()
        invariant
            it.seq() == a@,
            rest.obeys_prophetic_iter_laws(),
            it.index() <= b@.len(),
            rest.remaining() == b@.skip(it.index() as int),
            a@.take(it.index() as int) == b@.take(it.index() as int),
    {
        match rest.next() {
            None => {
                return false;
            },
            Some(y) => {
                if x != y {
                    return false;
                }
                assert(a@.take(it.index() + 1) == a@.take(it.index() as int).push(x));
                assert(b@.take(it.index() + 1) == b@.take(it.index() as int).push(y));
            },
        }
    }
    let last = rest.next();
    assert(a@.take(a@.len() as int) == a@);
    assert(last is None ==> b@.take(a@.len() as int) == b@);
    last.is_none()
}

/// Scans forward from `from` over the characters of `class`: the result is
/// the position of the first character at or after `from` that is outside
/// the class, or the length of the text.
pub fn scan(chars: &Vec<char>, from: usize, class: CharClass) -> (to: usize)
    requires
        from <= chars.len(),
    ensures
        from <= to <= chars.len(),
        to == from + span(chars@.skip(from as int), class),
{
    let mut to = from;
    while to < chars.len() && class.holds(chars[to])
        invariant
            from <= to <= chars.len(),
            forall|k: int| from <= k < to ==> class.has(#[trigger] chars@[k]),
        decreases chars.len() - to,
    {
        to += 1;
    }
    proof {
        let t = chars@.skip(from as int);
        assert forall|k: int| 0 <= k < to - from implies class.has(#[trigger] t[k]) by {
            assert(t[k] == chars@[from + k]);
        }
        lemma_span(t, class, to - from);
    }
    to
}

/// Scans backward from `to` over the characters of `class`, not past `from`:
/// the result is the position after the last character before `to` that is
/// outside the class, or `from`.
pub fn scan_back(chars: &Vec<char>, from: usize, to: usize, class: CharClass) -> (end: usize)
    requires
        from <= to <= chars.len(),
    ensures
        from <= end <= to,
        end == to - span_back(chars@.subrange(from as int, to as int), class),
{
    let mut end = to;
    while end > from && class.holds(chars[end - 1])
        invariant
            from <= end <= to <= chars.len(),
            forall|k: int| end <= k < to ==> class.has(#[trigger] chars@[k]),
        decreases end,
    {
        end -= 1;
    }
    proof {
        let t = chars@.subrange(from as int, to as int);
        assert forall|k: int| t.len() - (to - end) <= k < t.len() implies class.has(
            #[trigger] t[k],
        ) by {
            assert(t[k] == chars@[from + k]);
        }
        lemma_span_back(t, class, to - end);
    }
    end
}

/// The text without its leading and trailing white space.
pub open spec fn trim(s: Seq<char>) -> Seq<char> {
    let t = s.skip(span(s, CharClass::Space) as int);
    t.take(t.len() - span_back(t, CharClass::Space))
}

/// A trimmed text is the part of the text between its leading and its
/// trailing white space: what is cut off at either end is white space only,
/// and what is left neither starts nor ends with white space.
pub proof fn lemma_trim(s: Seq<char>)
    ensures
        ({
            let from = span(s, CharClass::Space) as int;
            let to = s.len() - span_back(s.skip(from), CharClass::Space);
            &&& 0 <= from <= to <= s.len()
            &&& trim(s) == s.subrange(from, to)
            &&& forall|k: int| 0 <= k < from ==> is_space(#[trigger] s[k])
            &&& forall|k: int| to <= k < s.len() ==> is_space(#[trigger] s[k])
            &&& from < to ==> !is_space(s[from]) && !is_space(s[to - 1])
        }),
{
    let from = span(s, CharClass::Space) as int;
    lemma_span_bounds(s, CharClass::Space);
    let t = s.skip(from);
    lemma_span_back_bounds(t, CharClass::Space);
    let to = s.len() - span_back(t, CharClass::Space);
    assert(t.take(to - from) == s.subrange(from, to));
    assert forall|k: int| 0 <= k < from implies is_space(#[trigger] s[k]) by {
        assert(CharClass::Space.has(s[k]));
    }
    assert forall|k: int| to <= k < s.len() implies is_space(#[trigger] s[k]) by {
        assert(t[k - from] == s[k]);
        assert(CharClass::Space.has(t[k - from]));
    }
    if from < to {
        assert(!CharClass::Space.has(s[from]));
        assert(t[to - from - 1] == s[to - 1]);
        assert(!CharClass::Space.has(t[to - from - 1]));
    }
}

/// Removes leading and trailing white space.
pub fn trim_str<'a>(s: &'a str) -> (r: &'a str)
    ensures
        r@ == trim(s@),
{
    let chars = chars_of(s);
    let from = scan(&chars, 0, CharClass::Space);
    let to = scan_back(&chars, from, chars.len(), CharClass::Space);
    proof {
        let t = s@.skip(from as int);
        assert(chars@.skip(0) == s@);
        assert(chars@.subrange(from as int, chars.len() as int) == t);
        assert(t.take(to - from) == s@.subrange(from as int, to as int));
    }
    s.substring_char(from, to)
}

/// The pieces of `s` between the occurrences of `sep`: one more piece than
/// there are separators, each possibly empty.
pub open spec fn split(s: Seq<char>, sep: char) -> Seq<Seq<char>>
    decreases s.len(),
{
    let n = span(s, CharClass::Except(sep)) as int;
    if n >= s.len() {
        seq![s]
    } else {
        proof {
            lemma_span_bounds(s, CharClass::Except(sep));
        }
        seq![s.take(n)] + split(s.skip(n + 1), sep)
    }
}

/// A text has at least one piece.
pub proof fn lemma_split_not_empty(s: Seq<char>, sep: char)
    ensures
        split(s, sep).len() > 0,
{
}

/// Splits a string at every occurrence of `sep`.
pub fn split_str<'a>(s: &'a str, sep: char) -> (pieces: Vec<&'a str>)
    ensures
        pieces.deep_view() == split(s@, sep),
{
    let chars = chars_of(s);
    let mut pieces: Vec<&'a str> = Vec::new();
    let mut from: usize = 0;
    proof {
        assert(s@.skip(0) == s@);
        assert(pieces.deep_view() + split(s@, sep) == split(s@, sep));
    }
    loop
        invariant
            chars@ == s@,
            from <= chars.len(),
            pieces.deep_view() + split(s@.skip(from as int), sep) == split(s@, sep),
        decreases chars.len() - from,
    {
        let to = scan(&chars, from, CharClass::Except(sep));
        let ghost before = pieces.deep_view();
        let ghost rest = s@.skip(from as int);
        pieces.push(s.substring_char(from, to));
        proof {
            assert(rest.take(to - from) == s@.subrange(from as int, to as int));
            assert(pieces.deep_view() == before.push(rest.take(to - from)));
        }
        if to == chars.len() {
            proof {
                assert(rest.take(to - from) == rest);
                assert(before.push(rest) == before + seq![rest]);
            }
            return pieces;
        }
        proof {
            assert(rest.skip(to - from + 1) == s@.skip(to + 1));
            assert(before + (seq![rest.take(to - from)] + split(s@.skip(to + 1), sep))
                == before.push(rest.take(to - from)) + split(s@.skip(to + 1), sep));
        }
        from = to + 1;
    }
}

/// The words of `s`: its maximal runs of characters that are not white space,
/// in order.
pub open spec fn words(s: Seq<char>) -> Seq<Seq<char>>
    decreases s.len(),
{
    let t = s.skip(span(s, CharClass::Space) as int);
    let n = span(t, CharClass::Solid) as int;
    if n == 0 {
        seq![]
    } else {
        proof {
            lemma_span_bounds(s, CharClass::Space);
            lemma_span_bounds(t, CharClass::Solid);
        }
        seq![t.take(n)] + words(t.skip(n))
    }
}

/// Whether `w` is a word: not empty, and without white space.
pub open spec fn is_word(w: Seq<char>) -> bool {
    w.len() > 0 && forall|k: int| 0 <= k < w.len() ==> !is_space(#[trigger] w[k])
}

/// Every word of a text is a word.
pub proof fn lemma_words_are_words(s: Seq<char>)
    ensures
        forall|i: int| 0 <= i < words(s).len() ==> is_word(#[trigger] words(s)[i]),
    decreases s.len(),
{
    let t = s.skip(span(s, CharClass::Space) as int);
    let n = span(t, CharClass::Solid) as int;
    lemma_span_bounds(s, CharClass::Space);
    lemma_span_bounds(t, CharClass::Solid);
    if n != 0 {
        lemma_words_are_words(t.skip(n));
        let first = t.take(n);
        assert forall|k: int| 0 <= k < first.len() implies !is_space(#[trigger] first[k]) by {
            assert(first[k] == t[k]);
            assert(CharClass::Solid.has(t[k]));
        }
        assert forall|i: int| 0 <= i < words(s).len() implies is_word(#[trigger] words(s)[i]) by {
            if i > 0 {
                assert(words(s)[i] == words(t.skip(n))[i - 1]);
            }
        }
    }
}

/// Splits a string into its words.
pub fn split_words(s: &str) -> (list: Vec<String>)
    ensures
        list.deep_view() == words(s@),
{
    let chars = chars_of(s);
    let mut list: Vec<String> = Vec::new();
    let mut at: usize = 0;
    proof {
        assert(s@.skip(0) == s@);
        assert(list.deep_view() + words(s@) == words(s@));
    }
    loop
        invariant
            chars@ == s@,
            at <= chars.len(),
            list.deep_view() + words(s@.skip(at as int)) == words(s@),
        decreases chars.len() - at,
    {
        let from = scan(&chars, at, CharClass::Space);
        let to = scan(&chars, from, CharClass::Solid);
        let ghost before = list.deep_view();
        let ghost rest = s@.skip(at as int);
        let ghost t = rest.skip(from - at);
        proof {
            assert(t == s@.skip(from as int));
        }
        if to == from {
            proof {
                assert(before + Seq::<Seq<char>>::empty() == before);
            }
            return list;
        }
        list.push(s.substring_char(from, to).to_owned());
        proof {
            assert(t.take(to - from) == s@.subrange(from as int, to as int));
            assert(list.deep_view() == before.push(t.take(to - from)));
            assert(t.skip(to - from) == s@.skip(to as int));
            assert(before + (seq![t.take(to - from)] + words(s@.skip(to as int)))
                == before.push(t.take(to - from)) + words(s@.skip(to as int)));
        }
        at = to;
    }
}

} // verus!
