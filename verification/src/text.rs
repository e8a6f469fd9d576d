//! Editing a line of text by character position, and trimming it.
use vstd::prelude::*;

verus! {

broadcast use vstd::string::group_string_axioms;

/// Appends a character, through `String::push`: std documents that it
/// appends the character to the end of the string.
#[verifier::external_body]
fn push_char(s: &mut String, c: char)
    ensures
        final(s)@ == old(s)@.push(c),
{
    s.push(c);
}

/// Unicode's White_Space property: the characters for which std's
/// `char::is_whitespace` returns true.
pub open spec fn is_white_space(c: char) -> bool {
    ||| '\u{9}' <= c <= '\u{d}'
    ||| c == ' '
    ||| c == '\u{85}'
    ||| c == '\u{a0}'
    ||| c == '\u{1680}'
    ||| '\u{2000}' <= c <= '\u{200a}'
    ||| c == '\u{2028}'
    ||| c == '\u{2029}'
    ||| c == '\u{202f}'
    ||| c == '\u{205f}'
    ||| c == '\u{3000}'
}

/// Whether a character is white space, through `char::is_whitespace`; std
/// documents it as the Unicode White_Space property, which the contract
/// spells out.
#[verifier::external_body]
fn is_whitespace(c: char) -> (b: bool)
    ensures
        b == is_white_space(c),
{
    c.is_whitespace()
}

/// The characters of a string, in order.
pub fn chars_of(s: &str) -> (v: Vec<char>)
    ensures
        v@ == s@,
{
    let mut v: Vec<char> = Vec::new();
    let mut it = s.chars();
    loop
        invariant
            v@ + vstd::std_specs::iter::IteratorSpec::remaining(&it) == s@,
            vstd::std_specs::iter::IteratorSpec::decrease(&it) is Some,
        decreases vstd::std_specs::iter::IteratorSpec::decrease(&it)->0,
    {
        match it.next() {
            Some(c) => {
                v.push(c);
            },
            None => {
                assert(v@ =~= s@);
                return v;
            },
        }
    }
}

/// A string made of the characters `chars[from..to]`.
pub fn string_of(chars: &Vec<char>, from: usize, to: usize) -> (s: String)
    requires
        from <= to <= chars.len(),
    ensures
        s@ == chars@.subrange(from as int, to as int),
{
    let mut s = String::new();
    let mut i = from;
    while i < to
        invariant
            from <= i <= to <= chars.len(),
            s@ == chars@.subrange(from as int, i as int),
        decreases to - i,
    {
        push_char(&mut s, chars[i]);
        assert(s@ =~= chars@.subrange(from as int, i + 1));
        i = i + 1;
    }
    s
}

/// The number of characters of a string.
pub fn char_count(s: &str) -> (n: usize)
    ensures
        n == s@.len(),
{
    chars_of(s).len()
}

/// Where a character typed at cursor position `cursor` goes: at the cursor,
/// or at the end when the cursor stands past it.
pub open spec fn insert_position(text: Seq<char>, cursor: int) -> int {
    if cursor < text.len() {
        cursor
    } else {
        text.len() as int
    }
}

/// `text` with `c` typed at cursor position `cursor`.
pub open spec fn typed(text: Seq<char>, cursor: int, c: char) -> Seq<char> {
    text.insert(insert_position(text, cursor), c)
}

/// `text` after a backspace at cursor position `cursor`: the character before
/// the cursor goes, if the cursor is inside the text and not at its start.
pub open spec fn backspaced(text: Seq<char>, cursor: int) -> Seq<char> {
    if 0 < cursor <= text.len() {
        text.remove(cursor - 1)
    } else {
        text
    }
}

/// Typing a character at a cursor within the text and then deleting the
/// character before the advanced cursor gives the text back.
pub proof fn law_typed_then_backspaced(text: Seq<char>, cursor: int, c: char)
    requires
        0 <= cursor <= text.len(),
    ensures
        backspaced(typed(text, cursor, c), cursor + 1) == text,
{
    assert(typed(text, cursor, c).remove(cursor) =~= text);
}

/// The string with `c` typed at cursor position `cursor`.
pub fn insert_char_at(s: &String, cursor: usize, c: char) -> (r: String)
    ensures
        r@ == typed(s@, cursor as int, c),
{
    let chars = chars_of(s.as_str());
    let at = if cursor < chars.len() {
        cursor
    } else {
        chars.len()
    };
    let mut r = string_of(&chars, 0, at);
    push_char(&mut r, c);
    let mut i = at;
    while i < chars.len()
        invariant
            at <= i <= chars.len(),
            chars@ == s@,
            at == insert_position(s@, cursor as int),
            r@ == chars@.subrange(0, at as int).push(c) + chars@.subrange(at as int, i as int),
        decreases chars.len() - i,
    {
        push_char(&mut r, chars[i]);
        assert(r@ =~= chars@.subrange(0, at as int).push(c) + chars@.subrange(at as int, i + 1));
        i = i + 1;
    }
    assert(r@ =~= typed(s@, cursor as int, c));
    r
}

/// The string after a backspace at cursor position `cursor`.
pub fn remove_char_before(s: &String, cursor: usize) -> (r: String)
    ensures
        r@ == backspaced(s@, cursor as int),
{
    let chars = chars_of(s.as_str());
    if cursor == 0 || cursor > chars.len() {
        let r = string_of(&chars, 0, chars.len());
        assert(r@ =~= s@);
        return r;
    }
    let mut r = string_of(&chars, 0, cursor - 1);
    let mut i = cursor;
    while i < chars.len()
        invariant
            0 < cursor <= i <= chars.len(),
            chars@ == s@,
            r@ == chars@.subrange(0, cursor - 1) + chars@.subrange(cursor as int, i as int),
        decreases chars.len() - i,
    {
        push_char(&mut r, chars[i]);
        assert(r@ =~= chars@.subrange(0, cursor - 1) + chars@.subrange(cursor as int, i + 1));
        i = i + 1;
    }
    assert(r@ =~= backspaced(s@, cursor as int));
    r
}

/// The index of the first character at or after `i` that is not white space
/// (the length if there is none).
pub open spec fn first_solid_from(s: Seq<char>, i: int) -> int
    decreases s.len() - i,
{
    if i >= s.len() {
        s.len() as int
    } else if !is_white_space(s[i]) {
        i
    } else {
        first_solid_from(s, i + 1)
    }
}

/// One past the index of the last character before `j` that is not white
/// space (0 if there is none).
pub open spec fn last_solid_before(s: Seq<char>, j: int) -> int
    decreases j,
{
    if j <= 0 {
        0
    } else if !is_white_space(s[j - 1]) {
        j
    } else {
        last_solid_before(s, j - 1)
    }
}

/// `s` without its leading and trailing white space, as `str::trim` gives it.
pub open spec fn trimmed(s: Seq<char>) -> Seq<char> {
    let a = first_solid_from(s, 0);
    let b = last_solid_before(s, s.len() as int);
    if a < b {
        s.subrange(a, b)
    } else {
        Seq::empty()
    }
}

proof fn lemma_first_solid_bounds(s: Seq<char>, i: int)
    requires
        0 <= i <= s.len(),
    ensures
        i <= first_solid_from(s, i) <= s.len(),
        forall|k: int| i <= k < first_solid_from(s, i) ==> is_white_space(#[trigger] s[k]),
        first_solid_from(s, i) < s.len() ==> !is_white_space(s[first_solid_from(s, i)]),
    decreases s.len() - i,
{
    if i < s.len() && is_white_space(s[i]) {
        lemma_first_solid_bounds(s, i + 1);
    }
}

proof fn lemma_last_solid_bounds(s: Seq<char>, j: int)
    requires
        0 <= j <= s.len(),
    ensures
        0 <= last_solid_before(s, j) <= j,
        forall|k: int| last_solid_before(s, j) <= k < j ==> is_white_space(#[trigger] s[k]),
        last_solid_before(s, j) > 0 ==> !is_white_space(s[last_solid_before(s, j) - 1]),
    decreases j,
{
    if j > 0 && is_white_space(s[j - 1]) {
        lemma_last_solid_bounds(s, j - 1);
    }
}

/// Trimming removes white space from the two ends and nothing else: the
/// result is a contiguous part of the text, everything before and after it
/// is white space, and it neither starts nor ends with white space; it is
/// empty exactly when the text is all white space.
pub proof fn law_trim_removes_only_outer_white_space(s: Seq<char>)
    ensures
        exists|a: int, b: int|
            0 <= a <= b <= s.len() && trimmed(s) == s.subrange(a, b) && (forall|k: int|
                0 <= k < a ==> is_white_space(#[trigger] s[k])) && (forall|k: int|
                b <= k < s.len() ==> is_white_space(#[trigger] s[k])),
        trimmed(s).len() > 0 ==> !is_white_space(trimmed(s)[0]) && !is_white_space(
            trimmed(s)[trimmed(s).len() - 1],
        ),
        trimmed(s).len() == 0 <==> forall|k: int| 0 <= k < s.len() ==> is_white_space(#[trigger] s[k]),
{
    lemma_first_solid_bounds(s, 0);
    lemma_last_solid_bounds(s, s.len() as int);
    let a = first_solid_from(s, 0);
    let b = last_solid_before(s, s.len() as int);
    if a < b {
        assert(trimmed(s) == s.subrange(a, b));
        assert(!is_white_space(s[a]));
        assert(trimmed(s)[0] == s[a]);
        assert(trimmed(s)[trimmed(s).len() - 1] == s[b - 1]);
    } else {
        assert(trimmed(s) == s.subrange(a, a));
        if b > 0 {
            assert(!is_white_space(s[b - 1]));
            assert(b - 1 < a);
        }
        assert forall|k: int| 0 <= k < s.len() implies is_white_space(#[trigger] s[k]) by {
            if k >= a {
                assert(k >= b);
            }
        }
    }
}

/// The string without its leading and trailing white space.
pub fn trim(s: &String) -> (r: String)
    ensures
        r@ == trimmed(s@),
{
    let chars = chars_of(s.as_str());
    let mut a: usize = 0;
    while a < chars.len() && is_whitespace(chars[a])
        invariant
            a <= chars.len(),
            chars@ == s@,
            first_solid_from(s@, 0) == first_solid_from(s@, a as int),
        decreases chars.len() - a,
    {
        a = a + 1;
    }
    let mut b: usize = chars.len();
    while b > 0 && is_whitespace(chars[b - 1])
        invariant
            b <= chars.len(),
            chars@ == s@,
            last_solid_before(s@, s@.len() as int) == last_solid_before(s@, b as int),
        decreases b,
    {
        b = b - 1;
    }
    if a < b {
        string_of(&chars, a, b)
    } else {
        String::new()
    }
}

/// The parts of a line of text that a cursor at position `cursor` splits it
/// into: the characters before the cursor, the character under it (a space
/// past the end), and the characters after it. A cursor beyond the end counts
/// as standing at the end.
pub fn split_at_cursor(s: &String, cursor: usize) -> (parts: (String, char, String))
    ensures
        ({
            let k = if cursor < s@.len() { cursor as int } else { s@.len() as int };
            &&& parts.0@ == s@.subrange(0, k)
            &&& parts.1 == (if k < s@.len() { s@[k] } else { ' ' })
            &&& parts.2@ == (if k < s@.len() { s@.subrange(k + 1, s@.len() as int) } else { Seq::empty() })
        }),
{
    let chars = chars_of(s.as_str());
    let k = if cursor < chars.len() {
        cursor
    } else {
        chars.len()
    };
    let before = string_of(&chars, 0, k);
    if k < chars.len() {
        (before, chars[k], string_of(&chars, k + 1, chars.len()))
    } else {
        (before, ' ', String::new())
    }
}

} // verus!
