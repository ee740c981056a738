//! JSON text of lists of strings.
use vstd::prelude::*;

use crate::base58;

verus! {

/// A lower-case hexadecimal digit.
pub open spec fn hex_digit(n: u32) -> char {
    if n < 10 {
        ('0' as u32 + n) as char
    } else {
        ('a' as u32 + (n - 10)) as char
    }
}

/// How a character stands in a JSON string.
pub open spec fn json_char(c: char) -> Seq<char> {
    let n = c as u32;
    if c == '"' || c == '\\' {
        seq!['\\', c]
    } else if n == 8 {
        seq!['\\', 'b']
    } else if n == 9 {
        seq!['\\', 't']
    } else if n == 10 {
        seq!['\\', 'n']
    } else if n == 12 {
        seq!['\\', 'f']
    } else if n == 13 {
        seq!['\\', 'r']
    } else if n < 32 {
        seq!['\\', 'u', '0', '0', hex_digit(n / 16), hex_digit(n % 16)]
    } else {
        seq![c]
    }
}

/// The characters of a JSON string, between its quotes.
pub open spec fn json_chars(s: Seq<char>) -> Seq<char>
    decreases s.len(),
{
    if s.len() == 0 {
        Seq::empty()
    } else {
        json_chars(s.drop_last()) + json_char(s.last())
    }
}

/// A string as a JSON value.
pub open spec fn json_string(s: Seq<char>) -> Seq<char> {
    seq!['"'] + json_chars(s) + seq!['"']
}

/// The elements of a JSON array of strings, between its brackets.
pub open spec fn json_elements(items: Seq<Seq<char>>) -> Seq<char>
    decreases items.len(),
{
    if items.len() == 0 {
        Seq::empty()
    } else if items.len() == 1 {
        json_string(items[0])
    } else {
        json_elements(items.drop_last()) + seq![','] + json_string(items.last())
    }
}

/// A list of strings as a JSON array, without white space.
pub open spec fn json_array(items: Seq<Seq<char>>) -> Seq<char> {
    seq!['['] + json_elements(items) + seq![']']
}

/// The characters of each string of a list.
pub open spec fn texts(items: Seq<String>) -> Seq<Seq<char>> {
    items.map_values(|item: String| item@)
}

/// Writes a list of strings as JSON with `serde_json::to_string`.
///
/// Trusted: a list of strings is always written (it holds no map, and neither `Vec` nor
/// `String` refuses to be serialized), as an array without white space whose strings
/// escape quotes, backslashes and control characters only.
#[verifier::external_body]
pub(crate) fn write_string_array(items: &Vec<String>) -> (text: Option<String>)
    ensures
        text is Some,
        text.unwrap()@ == json_array(texts(items@)),
{
    serde_json::to_string(items).ok()
}

/// A base58 text stands in JSON as it is.
pub proof fn law_base58_needs_no_escapes(key: Seq<u8>)
    ensures
        json_string(base58::base58(key)) == seq!['"'] + base58::base58(key) + seq!['"'],
{
    let text = base58::base58(key);
    assert forall|i: int| 0 <= i < text.len() implies json_char(#[trigger] text[i]) == seq![
        text[i],
    ] by {
        base58::lemma_base58_chars(key, i);
        reveal_strlit("123456789ABCDEFGHJKLMNPQRSTUVWXYZabcdefghijkmnopqrstuvwxyz");
    }
    lemma_plain_chars(text);
}

proof fn lemma_plain_chars(s: Seq<char>)
    requires
        forall|i: int| 0 <= i < s.len() ==> json_char(#[trigger] s[i]) == seq![s[i]],
    ensures
        json_chars(s) == s,
    decreases s.len(),
{
    if s.len() > 0 {
        assert forall|i: int| 0 <= i < s.drop_last().len() implies json_char(
            #[trigger] s.drop_last()[i],
        ) == seq![s.drop_last()[i]] by {
            assert(s.drop_last()[i] == s[i]);
        }
        lemma_plain_chars(s.drop_last());
        assert(json_char(s.last()) == seq![s.last()]) by {
            assert(s.last() == s[s.len() - 1]);
        }
        assert(json_chars(s) =~= s);
    } else {
        assert(json_chars(s) =~= s);
    }
}

/// Whether a text stands in JSON as it is, and holds no quote.
spec fn is_plain(s: Seq<char>) -> bool {
    &&& json_chars(s) == s
    &&& forall|i: int| 0 <= i < s.len() ==> #[trigger] s[i] != '"'
}

/// What stands before the last element of a list.
spec fn before_last(items: Seq<Seq<char>>) -> Seq<char> {
    if items.len() == 1 {
        Seq::empty()
    } else {
        json_elements(items.drop_last()) + seq![',']
    }
}

proof fn lemma_last(items: Seq<Seq<char>>)
    requires
        items.len() > 0,
        is_plain(items.last()),
    ensures
        json_elements(items) == before_last(items) + seq!['"'] + items.last() + seq!['"'],
{
    assert(json_elements(items) =~= before_last(items) + seq!['"'] + items.last() + seq!['"']);
}

/// A quoted text at the end of others is not shorter than it looks.
proof fn lemma_quoted_end(p: Seq<char>, x: Seq<char>, q: Seq<char>, y: Seq<char>)
    requires
        p + seq!['"'] + x + seq!['"'] == q + seq!['"'] + y + seq!['"'],
        forall|i: int| 0 <= i < y.len() ==> #[trigger] y[i] != '"',
    ensures
        x.len() >= y.len(),
{
    let left = p + seq!['"'] + x + seq!['"'];
    let right = q + seq!['"'] + y + seq!['"'];
    assert(left.len() == p.len() + x.len() + 2);
    assert(right.len() == q.len() + y.len() + 2);
    if x.len() < y.len() {
        assert(left[p.len() as int] == '"');
        let at = p.len() - q.len() - 1;
        assert(right[p.len() as int] == y[at]);
    }
}

/// Texts that end in the same quoted text have the same parts.
proof fn lemma_quoted_parts(p: Seq<char>, x: Seq<char>, q: Seq<char>, y: Seq<char>)
    requires
        p + seq!['"'] + x + seq!['"'] == q + seq!['"'] + y + seq!['"'],
        forall|i: int| 0 <= i < x.len() ==> #[trigger] x[i] != '"',
        forall|i: int| 0 <= i < y.len() ==> #[trigger] y[i] != '"',
    ensures
        p == q,
        x == y,
{
    let left = p + seq!['"'] + x + seq!['"'];
    let right = q + seq!['"'] + y + seq!['"'];
    lemma_quoted_end(p, x, q, y);
    lemma_quoted_end(q, y, p, x);
    assert(left.len() == p.len() + x.len() + 2);
    assert(right.len() == q.len() + y.len() + 2);
    let from = p.len() as int + 1;
    assert(p =~= left.take(from - 1));
    assert(q =~= right.take(from - 1));
    assert(x =~= left.subrange(from, from + x.len()));
    assert(y =~= right.subrange(from, from + x.len()));
}

proof fn lemma_elements_are_injective(a: Seq<Seq<char>>, b: Seq<Seq<char>>)
    requires
        forall|i: int| 0 <= i < a.len() ==> is_plain(#[trigger] a[i]),
        forall|i: int| 0 <= i < b.len() ==> is_plain(#[trigger] b[i]),
        json_elements(a) == json_elements(b),
    ensures
        a == b,
    decreases a.len(),
{
    if a.len() > 0 {
        assert(is_plain(a[a.len() - 1]));
        lemma_last(a);
    }
    if b.len() > 0 {
        assert(is_plain(b[b.len() - 1]));
        lemma_last(b);
    }
    if a.len() > 0 && b.len() > 0 {
        let (p, x) = (before_last(a), a.last());
        let (q, y) = (before_last(b), b.last());
        lemma_quoted_parts(p, x, q, y);
        if a.len() > 1 && b.len() > 1 {
            assert(json_elements(a.drop_last()) =~= p.drop_last());
            assert(json_elements(b.drop_last()) =~= q.drop_last());
            lemma_elements_are_injective(a.drop_last(), b.drop_last());
        }
        assert(a =~= a.drop_last().push(x));
        assert(b =~= b.drop_last().push(y));
    } else {
        assert(a =~= b);
    }
}

/// The keys of a list, as base58 texts.
pub open spec fn key_texts(keys: Seq<Seq<u8>>) -> Seq<Seq<char>> {
    Seq::new(keys.len(), |i: int| base58::base58(keys[i]))
}

proof fn lemma_key_texts_are_plain(keys: Seq<Seq<u8>>, i: int)
    requires
        0 <= i < keys.len(),
    ensures
        is_plain(key_texts(keys)[i]),
{
    let text = base58::base58(keys[i]);
    assert forall|j: int| 0 <= j < text.len() implies json_char(#[trigger] text[j]) == seq![
        text[j],
    ] && text[j] != '"' by {
        base58::lemma_base58_chars(keys[i], j);
        reveal_strlit("123456789ABCDEFGHJKLMNPQRSTUVWXYZabcdefghijkmnopqrstuvwxyz");
    }
    lemma_plain_chars(text);
}

/// Two lists of keys with the same JSON array are the same list.
pub proof fn law_arrays_of_keys_are_injective(a: Seq<Seq<u8>>, b: Seq<Seq<u8>>)
    requires
        forall|i: int| 0 <= i < a.len() ==> (#[trigger] a[i]).len() == 32,
        forall|i: int| 0 <= i < b.len() ==> (#[trigger] b[i]).len() == 32,
        json_array(key_texts(a)) == json_array(key_texts(b)),
    ensures
        a == b,
{
    let (x, y) = (key_texts(a), key_texts(b));
    assert forall|i: int| 0 <= i < x.len() implies is_plain(#[trigger] x[i]) by {
        lemma_key_texts_are_plain(a, i);
    }
    assert forall|i: int| 0 <= i < y.len() implies is_plain(#[trigger] y[i]) by {
        lemma_key_texts_are_plain(b, i);
    }
    assert(json_elements(x) =~= json_array(x).subrange(1, json_array(x).len() - 1));
    assert(json_elements(y) =~= json_array(y).subrange(1, json_array(y).len() - 1));
    lemma_elements_are_injective(x, y);
    assert forall|i: int| 0 <= i < a.len() implies a[i] == b[i] by {
        assert(x[i] == y[i]);
        base58::law_base58_is_injective(a[i], b[i]);
    }
    assert(a =~= b);
}

} // verus!
