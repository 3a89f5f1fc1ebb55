//! Small operations on text that the rest of the crate is built from.

use vstd::prelude::*;

verus! {

/// `String::push` appends one character to the end of the string.
pub assume_specification[ String::push ](s: &mut String, c: char)
    ensures
        final(s)@ == old(s)@.push(c),
;

/// The texts of a list of strings, in order.
pub open spec fn texts(strings: Seq<String>) -> Seq<Seq<char>> {
    strings.map_values(|s: String| s@)
}

/// The ASCII upper-case form of a character: `a`..`z` become `A`..`Z`,
/// every other character stays as it is.
pub open spec fn upper_char(c: char) -> char {
    if 'a' <= c && c <= 'z' {
        ((c as u8) - 32) as char
    } else {
        c
    }
}

/// The text with every character replaced by its ASCII upper-case form.
pub open spec fn upper(s: Seq<char>) -> Seq<char> {
    s.map_values(|c: char| upper_char(c))
}

/// Maps one character to its ASCII upper-case form.
pub fn to_upper_char(c: char) -> (r: char)
    ensures
        r == upper_char(c),
{
    if 'a' <= c && c <= 'z' {
        let code: u8 = c as u8;
        (code - 32) as char
    } else {
        c
    }
}

/// The ASCII upper-case form of `s`.
pub fn to_upper(s: &str) -> (r: String)
    ensures
        r@ == upper(s@),
{
    let mut r = String::new();
    for c in it: s.chars()
        invariant
            it.seq() == s@,
            r@ == upper(s@.take(it.index() as int)),
    {
        r.push(to_upper_char(c));
    }
    r
}

/// Whether two texts are the same.
pub fn text_eq(a: &str, b: &str) -> (r: bool)
    ensures
        r == (a@ == b@),
{
    let x = a.as_bytes();
    let y = b.as_bytes();
    proof {
        vstd::utf8::encode_utf8_decode_utf8(a@);
        vstd::utf8::encode_utf8_decode_utf8(b@);
    }
    if x.len() != y.len() {
        return false;
    }
    let n = x.len();
    let mut i: usize = 0;
    while i < n
        invariant
            i <= n,
            n == x@.len(),
            n == y@.len(),
            x@ == vstd::utf8::encode_utf8(a@),
            y@ == vstd::utf8::encode_utf8(b@),
            forall|j: int| 0 <= j < i ==> x@[j] == y@[j],
        decreases n - i,
    {
        if x[i] != y[i] {
            proof {
                assert(x@ != y@);
            }
            return false;
        }
        i += 1;
    }
    proof {
        assert(x@ =~= y@);
    }
    true
}

/// The characters of `s`, in order.
pub fn chars_of(s: &str) -> (r: Vec<char>)
    ensures
        r@ == s@,
{
    let mut r: Vec<char> = Vec::new();
    for c in it: s.chars()
        invariant
            it.seq() == s@,
            r@ == s@.take(it.index() as int),
    {
        r.push(c);
    }
    r
}

/// The text made of the characters of `chars` from `from` up to `to`.
fn text_of(chars: &Vec<char>, from: usize, to: usize) -> (r: String)
    requires
        from <= to <= chars@.len(),
    ensures
        r@ == chars@.subrange(from as int, to as int),
{
    let mut r = String::new();
    let mut i: usize = from;
    while i < to
        invariant
            from <= i <= to,
            to <= chars@.len(),
            r@ == chars@.subrange(from as int, i as int),
        decreases to - i,
    {
        r.push(chars[i]);
        proof {
            assert(chars@.subrange(from as int, i + 1) =~= chars@.subrange(from as int, i as int).push(
                chars@[i as int],
            ));
        }
        i += 1;
    }
    r
}

/// Whether `s` begins with `prefix`.
pub fn starts_with(s: &str, prefix: &str) -> (r: bool)
    ensures
        r == prefix@.is_prefix_of(s@),
{
    let text = chars_of(s);
    let start = chars_of(prefix);
    let n = start.len();
    if text.len() < n {
        return false;
    }
    let mut i: usize = 0;
    while i < n
        invariant
            i <= n,
            n == start@.len(),
            n <= text@.len(),
            text@ == s@,
            start@ == prefix@,
            forall|j: int| 0 <= j < i ==> text@[j] == start@[j],
        decreases n - i,
    {
        if text[i] != start[i] {
            proof {
                assert(text@.subrange(0, n as int)[i as int] != start@[i as int]);
            }
            return false;
        }
        i += 1;
    }
    proof {
        assert(start@ =~= text@.subrange(0, n as int));
    }
    true
}

/// Whether `sep` stands in `s` at `i` and nowhere else.
pub open spec fn only_at(s: Seq<char>, sep: char, i: int) -> bool {
    &&& 0 <= i < s.len()
    &&& s[i] == sep
    &&& forall|j: int| 0 <= j < s.len() && j != i ==> s[j] != sep
}

/// The two parts of `s` around `sep`, where `sep` stands in `s` exactly once;
/// `None` where it stands there not at all or more than once.
pub open spec fn two_parts(s: Seq<char>, sep: char) -> Option<(Seq<char>, Seq<char>)> {
    if exists|i: int| only_at(s, sep, i) {
        let i = choose|i: int| only_at(s, sep, i);
        Some((s.take(i), s.skip(i + 1)))
    } else {
        None
    }
}

/// Splits `s` at `sep` into exactly two parts.
pub fn split_in_two(s: &str, sep: char) -> (r: Option<(String, String)>)
    ensures
        match r {
            Some((a, b)) => two_parts(s@, sep) == Some((a@, b@)),
            None => two_parts(s@, sep) is None,
        },
{
    let chars = chars_of(s);
    let n = chars.len();
    let mut at: Option<usize> = None;
    let mut i: usize = 0;
    while i < n
        invariant
            i <= n,
            n == chars@.len(),
            chars@ == s@,
            match at {
                Some(k) => k < i && chars@[k as int] == sep && forall|j: int|
                    0 <= j < i && j != k ==> chars@[j] != sep,
                None => forall|j: int| 0 <= j < i ==> chars@[j] != sep,
            },
        decreases n - i,
    {
        if chars[i] == sep {
            match at {
                Some(k) => {
                    proof {
                        assert forall|m: int| !only_at(chars@, sep, m) by {
                            if only_at(chars@, sep, m) {
                                assert(chars@[k as int] == sep);
                                assert(chars@[i as int] == sep);
                            }
                        }
                    }
                    return None;
                },
                None => {
                    at = Some(i);
                },
            }
        }
        i += 1;
    }
    match at {
        Some(k) => {
            proof {
                assert(only_at(chars@, sep, k as int));
                let m = choose|m: int| only_at(chars@, sep, m);
                assert(m == k);
                assert(chars@.take(k as int) =~= chars@.subrange(0, k as int));
                assert(chars@.skip(k + 1) =~= chars@.subrange(k + 1, n as int));
            }
            let a = text_of(&chars, 0, k);
            let b = text_of(&chars, k + 1, n);
            Some((a, b))
        },
        None => {
            proof {
                assert forall|m: int| !only_at(chars@, sep, m) by {}
            }
            None
        },
    }
}

} // verus!
