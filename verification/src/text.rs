//! Character and string helpers used by the tokenizer, the parser and the output writer.
use vstd::prelude::*;

verus! {

/// The Unicode `White_Space` property, as `char::is_whitespace` documents it.
pub open spec fn spec_is_whitespace(c: char) -> bool {
    let u = c as u32;
    (0x09 <= u && u <= 0x0D) || u == 0x20 || u == 0x85 || u == 0xA0 || u == 0x1680
        || (0x2000 <= u && u <= 0x200A) || u == 0x2028 || u == 0x2029 || u == 0x202F
        || u == 0x205F || u == 0x3000
}

/// True when the character has the Unicode `White_Space` property.
pub fn is_whitespace(c: char) -> (b: bool)
    ensures
        b == spec_is_whitespace(c),
{
    let u = c as u32;
    (0x09 <= u && u <= 0x0D) || u == 0x20 || u == 0x85 || u == 0xA0 || u == 0x1680
        || (0x2000 <= u && u <= 0x200A) || u == 0x2028 || u == 0x2029 || u == 0x202F
        || u == 0x205F || u == 0x3000
}

/// Whether `char::is_numeric` holds of a character (the Unicode general categories Nd, Nl and No).
pub uninterp spec fn char_is_numeric(c: char) -> bool;

/// An ASCII decimal digit.
pub open spec fn is_ascii_digit(c: char) -> bool {
    '0' <= c && c <= '9'
}

/// Calls `char::is_numeric`. Its result is named `char_is_numeric`; among ASCII
/// characters the numeric ones are exactly the ten decimal digits (general category Nd),
/// as the Unicode tables that the function reads give them.
#[verifier::external_body]
pub(crate) fn is_numeric(c: char) -> (b: bool)
    ensures
        b == char_is_numeric(c),
        (c as u32) < 128 ==> (b <==> is_ascii_digit(c)),
{
    c.is_numeric()
}

/// Calls `String::push`: appends one character.
#[verifier::external_body]
pub(crate) fn push_char(s: &mut String, c: char)
    ensures
        final(s)@ == old(s)@.push(c),
{
    s.push(c);
}

/// A new `String` holding the given characters.
pub fn string_from_chars(chars: &[char]) -> (s: String)
    ensures
        s@ == chars@,
{
    let mut s = String::new();
    let mut i: usize = 0;
    while i < chars.len()
        invariant
            i <= chars@.len(),
            s@ == chars@.subrange(0, i as int),
        decreases chars@.len() - i,
    {
        push_char(&mut s, chars[i]);
        i = i + 1;
        assert(s@ =~= chars@.subrange(0, i as int));
    }
    assert(chars@.subrange(0, chars@.len() as int) =~= chars@);
    s
}

/// The characters of a string, in order.
pub fn chars_of(s: &String) -> (v: Vec<char>)
    ensures
        v@ == s@,
{
    let mut v: Vec<char> = Vec::new();
    for c in it: s.as_str().chars()
        invariant
            v@ == it.seq().take(it.index() as int),
            it.seq() == s@,
    {
        v.push(c);
    }
    v
}


/// A `String` holding the text of a literal.
pub fn lit(s: &str) -> (r: String)
    ensures
        r@ == s@,
{
    s.to_owned()
}

/// The concatenation of two strings.
pub fn concat(a: &String, b: &String) -> (r: String)
    ensures
        r@ == a@ + b@,
{
    let r = a.clone();
    r.concat(b.as_str())
}

/// The concatenation of a string and a literal.
pub fn concat_str(a: &String, b: &str) -> (r: String)
    ensures
        r@ == a@ + b@,
{
    let r = a.clone();
    r.concat(b)
}

/// The decimal digit for a number below ten.
pub open spec fn digit_char(d: nat) -> char {
    if d == 0 { '0' } else if d == 1 { '1' } else if d == 2 { '2' } else if d == 3 { '3' }
    else if d == 4 { '4' } else if d == 5 { '5' } else if d == 6 { '6' } else if d == 7 { '7' }
    else if d == 8 { '8' } else { '9' }
}

/// The decimal digits of a number, most significant first, with no leading zeros.
pub open spec fn decimal(n: nat) -> Seq<char>
    decreases n,
{
    if n < 10 {
        seq![digit_char(n)]
    } else {
        decimal(n / 10).push(digit_char(n % 10))
    }
}

fn digit_to_char(d: usize) -> (c: char)
    requires
        d < 10,
    ensures
        c == digit_char(d as nat),
{
    if d == 0 { '0' } else if d == 1 { '1' } else if d == 2 { '2' } else if d == 3 { '3' }
    else if d == 4 { '4' } else if d == 5 { '5' } else if d == 6 { '6' } else if d == 7 { '7' }
    else if d == 8 { '8' } else { '9' }
}

/// The decimal text of a number, as `format!("{}", n)` writes it.
pub fn usize_to_string(n: usize) -> (s: String)
    ensures
        s@ == decimal(n as nat),
    decreases n,
{
    if n < 10 {
        let mut s = String::new();
        push_char(&mut s, digit_to_char(n));
        assert(s@ =~= seq![digit_char(n as nat)]);
        s
    } else {
        let mut s = usize_to_string(n / 10);
        push_char(&mut s, digit_to_char(n % 10));
        s
    }
}

/// A string repeated `n` times.
pub open spec fn repeat(s: Seq<char>, n: nat) -> Seq<char>
    decreases n,
{
    if n == 0 {
        Seq::empty()
    } else {
        repeat(s, (n - 1) as nat) + s
    }
}

/// A literal repeated `n` times, as `str::repeat` gives it.
pub fn repeat_str(s: &str, n: usize) -> (r: String)
    ensures
        r@ == repeat(s@, n as nat),
{
    let mut r = String::new();
    let mut i: usize = 0;
    while i < n
        invariant
            i <= n,
            r@ == repeat(s@, i as nat),
        decreases n - i,
    {
        r = r.concat(s);
        i = i + 1;
    }
    r
}

/// `p` occurs in `s` at position `i`.
pub open spec fn occurs_at(s: Seq<char>, p: Seq<char>, i: int) -> bool {
    0 <= i && i + p.len() <= s.len() && s.subrange(i, i + p.len()) == p
}

/// `p` occurs somewhere in `s`, as `str::contains` decides.
pub open spec fn seq_contains(s: Seq<char>, p: Seq<char>) -> bool {
    exists|i: int| occurs_at(s, p, i)
}

/// Whether `p` occurs at position `i` of `s`.
fn matches_at(s: &Vec<char>, p: &Vec<char>, i: usize) -> (b: bool)
    requires
        i <= s@.len(),
    ensures
        b == occurs_at(s@, p@, i as int),
{
    if p.len() > s.len() - i {
        return false;
    }
    let mut k: usize = 0;
    while k < p.len()
        invariant
            i + p@.len() <= s.len(),
            k <= p@.len(),
            forall|m: int| 0 <= m < k ==> s@[i + m] == p@[m],
        decreases p@.len() - k,
    {
        if s[i + k] != p[k] {
            assert(s@.subrange(i as int, i + p@.len())[k as int] != p@[k as int]);
            return false;
        }
        k = k + 1;
    }
    assert(s@.subrange(i as int, i + p@.len()) =~= p@);
    true
}

/// Whether `p` occurs in `s`.
pub fn contains(s: &String, p: &str) -> (b: bool)
    ensures
        b == seq_contains(s@, p@),
{
    let sv = chars_of(s);
    let pv = chars_of(&p.to_owned());
    let mut i: usize = 0;
    while i < sv.len()
        invariant
            i <= sv@.len(),
            sv@ == s@,
            pv@ == p@,
            forall|m: int| 0 <= m < i ==> !occurs_at(s@, p@, m),
        decreases sv@.len() - i,
    {
        if matches_at(&sv, &pv, i) {
            return true;
        }
        i = i + 1;
    }
    if matches_at(&sv, &pv, i) {
        return true;
    }
    assert forall|m: int| !occurs_at(s@, p@, m) by {
        if 0 <= m && m + p@.len() <= s@.len() && m == i {
            assert(!occurs_at(s@, p@, i as int));
        }
    }
    false
}

/// The number of non-overlapping occurrences of `p` in `s`, searched from the left,
/// as `str::matches(..).count()` gives it for a non-empty pattern.
pub open spec fn count_matches(s: Seq<char>, p: Seq<char>) -> nat
    recommends
        p.len() > 0,
    decreases s.len(),
{
    if s.len() < p.len() || p.len() == 0 {
        0
    } else if s.take(p.len() as int) == p {
        1 + count_matches(s.skip(p.len() as int), p)
    } else {
        count_matches(s.skip(1), p)
    }
}

/// `s` with every non-overlapping occurrence of `p` from the left replaced by `r`,
/// as `str::replace` gives it for a non-empty pattern.
pub open spec fn replace_all(s: Seq<char>, p: Seq<char>, r: Seq<char>) -> Seq<char>
    recommends
        p.len() > 0,
    decreases s.len(),
{
    if s.len() < p.len() || p.len() == 0 {
        s
    } else if s.take(p.len() as int) == p {
        r + replace_all(s.skip(p.len() as int), p, r)
    } else {
        seq![s[0]] + replace_all(s.skip(1), p, r)
    }
}

proof fn lemma_skip_skip(s: Seq<char>, a: int, b: int)
    requires
        0 <= a,
        0 <= b,
        a + b <= s.len(),
    ensures
        s.skip(a).skip(b) == s.skip(a + b),
{
    assert(s.skip(a).skip(b) =~= s.skip(a + b));
}

proof fn lemma_take_is_occurs(s: Seq<char>, p: Seq<char>, i: int)
    requires
        0 <= i <= s.len(),
    ensures
        (s.skip(i).len() >= p.len() && s.skip(i).take(p.len() as int) == p) <==> occurs_at(s, p, i),
{
    if i + p.len() <= s.len() {
        assert(s.skip(i).take(p.len() as int) =~= s.subrange(i, i + p.len()));
    }
}

/// The number of non-overlapping occurrences of a non-empty `p` in `s`.
pub fn count_str(s: &String, p: &str) -> (n: usize)
    requires
        p@.len() > 0,
    ensures
        n == count_matches(s@, p@),
{
    let sv = chars_of(s);
    let pv = chars_of(&p.to_owned());
    let mut i: usize = 0;
    let mut n: usize = 0;
    assert(s@.skip(0) =~= s@);
    while i < sv.len()
        invariant
            i <= sv@.len(),
            sv@ == s@,
            pv@ == p@,
            p@.len() > 0,
            n <= i,
            count_matches(s@, p@) == n + count_matches(s@.skip(i as int), p@),
        decreases sv@.len() - i,
    {
        proof { lemma_take_is_occurs(s@, p@, i as int); }
        if matches_at(&sv, &pv, i) {
            proof { lemma_skip_skip(s@, i as int, p@.len() as int); }
            n = n + 1;
            i = i + pv.len();
        } else {
            proof {
                lemma_skip_skip(s@, i as int, 1);
                if s@.skip(i as int).len() < p@.len() {
                    assert(count_matches(s@.skip(i as int), p@) == 0);
                    assert(s@.skip(i + 1).len() < p@.len());
                }
            }
            i = i + 1;
        }
    }
    assert(s@.skip(i as int).len() == 0);
    n
}

/// `s` with every non-overlapping occurrence of the non-empty `p` replaced by `r`.
pub fn replace_str(s: &String, p: &String, r: &String) -> (out: String)
    requires
        p@.len() > 0,
    ensures
        out@ == replace_all(s@, p@, r@),
{
    let sv = chars_of(s);
    let pv = chars_of(p);
    let mut i: usize = 0;
    let mut out = String::new();
    assert(s@.skip(0) =~= s@);
    while i < sv.len()
        invariant
            i <= sv@.len(),
            sv@ == s@,
            pv@ == p@,
            p@.len() > 0,
            replace_all(s@, p@, r@) == out@ + replace_all(s@.skip(i as int), p@, r@),
        decreases sv@.len() - i,
    {
        proof { lemma_take_is_occurs(s@, p@, i as int); }
        if matches_at(&sv, &pv, i) {
            proof { lemma_skip_skip(s@, i as int, p@.len() as int); }
            let ghost before = out@;
            out = out.concat(r.as_str());
            assert(out@ + replace_all(s@.skip(i + p@.len()), p@, r@) =~= before + (r@
                + replace_all(s@.skip(i as int).skip(p@.len() as int), p@, r@)));
            i = i + pv.len();
        } else {
            proof { lemma_skip_skip(s@, i as int, 1); }
            let ghost before = out@;
            push_char(&mut out, sv[i]);
            proof {
                let t = s@.skip(i as int);
                if t.len() < p@.len() {
                    assert(t =~= seq![t[0]] + t.skip(1));
                    assert(t.skip(1).len() < p@.len());
                    assert(replace_all(t.skip(1), p@, r@) == t.skip(1));
                    assert(out@ + replace_all(s@.skip(i + 1), p@, r@) =~= before + t);
                } else {
                    assert(out@ + replace_all(s@.skip(i + 1), p@, r@) =~= before + (seq![t[0]]
                        + replace_all(t.skip(1), p@, r@)));
                }
            }
            i = i + 1;
        }
    }
    assert(s@.skip(i as int) =~= Seq::<char>::empty());
    assert(out@ + Seq::<char>::empty() =~= out@);
    out
}

/// The pieces of `s` between the occurrences of the character `sep`, as `str::split` gives
/// them for a one-character pattern: one more piece than there are separators.
pub open spec fn split_on(s: Seq<char>, sep: char) -> Seq<Seq<char>>
    decreases s.len(),
{
    if s.len() == 0 {
        seq![Seq::<char>::empty()]
    } else {
        let rest = split_on(s.drop_last(), sep);
        if s.last() == sep {
            rest.push(Seq::<char>::empty())
        } else {
            rest.update(rest.len() - 1, rest.last().push(s.last()))
        }
    }
}

/// `split_on` always gives at least one piece.
pub proof fn lemma_split_on_len(s: Seq<char>, sep: char)
    ensures
        split_on(s, sep).len() >= 1,
    decreases s.len(),
{
    if s.len() > 0 {
        lemma_split_on_len(s.drop_last(), sep);
    }
}

/// No piece of a split holds the separator.
pub proof fn lemma_split_on_pieces(s: Seq<char>, sep: char)
    ensures
        forall|i: int, j: int|
            0 <= i < split_on(s, sep).len() && 0 <= j < split_on(s, sep)[i].len() ==> #[trigger] split_on(s, sep)[i][j]
                != sep,
    decreases s.len(),
{
    if s.len() > 0 {
        lemma_split_on_pieces(s.drop_last(), sep);
        lemma_split_on_len(s.drop_last(), sep);
        let rest = split_on(s.drop_last(), sep);
        let all = split_on(s, sep);
        assert forall|i: int, j: int| 0 <= i < all.len() && 0 <= j < all[i].len() implies #[trigger] all[i][j] != sep by {
            if s.last() == sep {
                if i < rest.len() {
                    assert(all[i] == rest[i]);
                }
            } else {
                if i < rest.len() - 1 {
                    assert(all[i] == rest[i]);
                } else {
                    assert(all[i] == rest.last().push(s.last()));
                    if j < rest.last().len() {
                        assert(all[i][j] == rest[rest.len() - 1][j]);
                    }
                }
            }
        }
    }
}

/// A string without `sep` is one piece.
pub proof fn lemma_split_on_absent(s: Seq<char>, sep: char)
    requires
        forall|i: int| 0 <= i < s.len() ==> s[i] != sep,
    ensures
        split_on(s, sep).len() == 1,
    decreases s.len(),
{
    if s.len() > 0 {
        lemma_split_on_absent(s.drop_last(), sep);
    }
}

/// The pieces of a string between the occurrences of `sep`.
pub fn split_char(s: &String, sep: char) -> (v: Vec<String>)
    ensures
        v@.len() == split_on(s@, sep).len(),
        forall|k: int| 0 <= k < v@.len() ==> (#[trigger] v@[k])@ == split_on(s@, sep)[k],
{
    let cs = chars_of(s);
    let mut v: Vec<String> = Vec::new();
    let mut cur = String::new();
    let mut i: usize = 0;
    while i < cs.len()
        invariant
            i <= cs@.len(),
            cs@ == s@,
            split_on(s@.take(i as int), sep).len() == v@.len() + 1,
            forall|k: int| 0 <= k < v@.len() ==> (#[trigger] v@[k])@ == split_on(s@.take(i as int), sep)[k],
            cur@ == split_on(s@.take(i as int), sep).last(),
        decreases cs@.len() - i,
    {
        proof {
            assert(s@.take(i + 1).drop_last() =~= s@.take(i as int));
            lemma_split_on_len(s@.take(i as int), sep);
        }
        if cs[i] == sep {
            v.push(cur);
            cur = String::new();
        } else {
            push_char(&mut cur, cs[i]);
        }
        i = i + 1;
    }
    assert(s@.take(i as int) =~= s@);
    v.push(cur);
    v
}

/// The first position of `x` in `v`, if any.
#[verifier::opaque]
pub open spec fn index_of(v: Seq<Seq<char>>, x: Seq<char>) -> Option<int> {
    if exists|i: int| 0 <= i < v.len() && v[i] == x {
        Some(choose|i: int| 0 <= i < v.len() && v[i] == x && forall|k: int| 0 <= k < i ==> v[k] != x)
    } else {
        None
    }
}

/// The first position found by `index_of` is the smallest one.
pub proof fn lemma_index_of(v: Seq<Seq<char>>, x: Seq<char>, i: int)
    requires
        0 <= i < v.len(),
        v[i] == x,
        forall|k: int| 0 <= k < i ==> v[k] != x,
    ensures
        index_of(v, x) == Some(i),
{
    reveal(index_of);
    let j = choose|j: int| 0 <= j < v.len() && v[j] == x && forall|k: int| 0 <= k < j ==> v[k] != x;
    assert(0 <= j < v.len() && v[j] == x && forall|k: int| 0 <= k < j ==> v[k] != x);
}

/// The first position of `x` among the strings of `v`, if any.
pub fn position_of(v: &Vec<String>, x: &String) -> (r: Option<usize>)
    ensures
        match r {
            Some(k) => index_of(v@.map_values(|s: String| s@), x@) == Some(k as int),
            None => index_of(v@.map_values(|s: String| s@), x@) is None,
        },
{
    let ghost w = v@.map_values(|s: String| s@);
    let mut i: usize = 0;
    while i < v.len()
        invariant
            i <= v@.len(),
            w == v@.map_values(|s: String| s@),
            forall|k: int| 0 <= k < i ==> w[k] != x@,
        decreases v@.len() - i,
    {
        if v[i] == *x {
            proof { lemma_index_of(w, x@, i as int); }
            return Some(i);
        }
        i = i + 1;
    }
    proof { reveal(index_of); }
    None
}

/// The lowercase form of a string, as `str::to_lowercase` maps it (by Unicode's
/// `Lowercase` property).
pub uninterp spec fn lowercase(s: Seq<char>) -> Seq<char>;

/// An ASCII letter in lower case; any other character as it is.
pub open spec fn ascii_lower(c: char) -> char {
    if 'A' <= c && c <= 'Z' {
        ((c as u32) + 32) as char
    } else {
        c
    }
}

/// An ASCII letter in upper case; any other character as it is.
pub open spec fn ascii_upper(c: char) -> char {
    if 'a' <= c && c <= 'z' {
        ((c as u32) - 32) as char
    } else {
        c
    }
}

/// Calls `str::to_lowercase`. The result depends on the string alone and is named
/// `lowercase`; of ASCII text the contract states that each upper case letter becomes its
/// lower case letter and every other character stays. What Unicode maps other characters
/// to is left unsaid.
#[verifier::external_body]
pub(crate) fn to_lowercase(s: &String) -> (r: String)
    ensures
        r@ == lowercase(s@),
        is_ascii_text(s@) ==> r@ == s@.map_values(|c: char| ascii_lower(c)),
{
    s.to_lowercase()
}

/// The first character of the uppercase form of a character, as `char::to_uppercase`
/// yields it.
pub uninterp spec fn uppercase_first(c: char) -> char;

/// Calls `char::to_uppercase` and takes the first character it yields (it always yields
/// at least one). The result depends on the character alone and is named `uppercase_first`;
/// of an ASCII character the contract states that a lower case letter becomes its upper
/// case letter and any other stays. What Unicode maps other characters to is left unsaid.
#[verifier::external_body]
pub(crate) fn to_uppercase_first(c: char) -> (r: char)
    ensures
        r == uppercase_first(c),
        (c as u32) < 128 ==> r == ascii_upper(c),
{
    c.to_uppercase().next().unwrap_or(c)
}


/// Every character is ASCII.
pub open spec fn is_ascii_text(s: Seq<char>) -> bool {
    forall|i: int| 0 <= i < s.len() ==> (#[trigger] s[i] as u32) < 128
}

/// The pieces of `s` between the line breaks "\r\n" (as `str::split` gives them), scanning
/// from a piece that starts at `start`, at `i`.
pub open spec fn crlf_pieces(s: Seq<char>, start: int, i: int) -> Seq<Seq<char>>
    decreases s.len() - i,
{
    if i + 1 >= s.len() || i < start || start < 0 {
        seq![s.subrange(start, s.len() as int)]
    } else if s[i] == '\r' && s[i + 1] == '\n' {
        seq![s.subrange(start, i)] + crlf_pieces(s, i + 2, i + 2)
    } else {
        crlf_pieces(s, start, i + 1)
    }
}

/// The pieces of a text between its line breaks "\r\n": the text before the first, between
/// each two, and after the last (each possibly empty).
pub fn split_crlf(s: &String) -> (v: Vec<String>)
    ensures
        v@.map_values(|p: String| p@) == crlf_pieces(s@, 0, 0),
{
    let chars = chars_of(s);
    let n = chars.len();
    let mut v: Vec<String> = Vec::new();
    let mut start: usize = 0;
    let mut i: usize = 0;
    while n > 0 && i < n - 1
        invariant
            chars@ == s@,
            n == chars@.len(),
            start <= i <= n,
            v@.map_values(|p: String| p@) + crlf_pieces(s@, start as int, i as int) == crlf_pieces(s@, 0, 0),
        decreases n - i,
    {
        if chars[i] == '\r' && chars[i + 1] == '\n' {
            let piece = string_from_chars(vstd::slice::slice_subrange(chars.as_slice(), start, i));
            let ghost prev = v@.map_values(|p: String| p@);
            v.push(piece);
            proof {
                assert(v@.map_values(|p: String| p@) =~= prev.push(s@.subrange(start as int, i as int)));
                assert(prev.push(s@.subrange(start as int, i as int)) + crlf_pieces(s@, i + 2, i + 2)
                    =~= prev + (seq![s@.subrange(start as int, i as int)] + crlf_pieces(s@, i + 2, i + 2)));
            }
            start = i + 2;
            i = i + 2;
        } else {
            i = i + 1;
        }
    }
    let ghost prev = v@.map_values(|p: String| p@);
    let last = string_from_chars(vstd::slice::slice_subrange(chars.as_slice(), start, n));
    v.push(last);
    proof {
        assert(v@.map_values(|p: String| p@) =~= prev + seq![s@.subrange(start as int, n as int)]);
    }
    v
}

/// Whether every character of the text is ASCII.
pub fn is_ascii(s: &String) -> (b: bool)
    ensures
        b == is_ascii_text(s@),
{
    let chars = chars_of(s);
    let mut i: usize = 0;
    while i < chars.len()
        invariant
            chars@ == s@,
            i <= chars@.len(),
            forall|k: int| 0 <= k < i ==> (#[trigger] chars@[k] as u32) < 128,
        decreases chars@.len() - i,
    {
        if (chars[i] as u32) >= 128 {
            return false;
        }
        i = i + 1;
    }
    true
}

/// Every character is an ASCII digit.
pub open spec fn all_digits(s: Seq<char>) -> bool {
    forall|i: int| 0 <= i < s.len() ==> is_ascii_digit(#[trigger] s[i])
}

/// The value of a decimal digit.
pub open spec fn digit_value(c: char) -> nat {
    ((c as u32) - ('0' as u32)) as nat
}

/// The value of a string of decimal digits.
pub open spec fn digits_value(s: Seq<char>) -> nat
    decreases s.len(),
{
    if s.len() == 0 {
        0
    } else {
        digits_value(s.drop_last()) * 10 + digit_value(s.last())
    }
}

/// A longer string of digits is worth at least as much as its prefix.
pub proof fn lemma_digits_value_prefix(s: Seq<char>, i: int)
    requires
        0 <= i <= s.len(),
    ensures
        digits_value(s.take(i)) <= digits_value(s),
    decreases s.len() - i,
{
    if i < s.len() {
        lemma_digits_value_prefix(s, i + 1);
        assert(s.take(i + 1).drop_last() =~= s.take(i));
    } else {
        assert(s.take(i) =~= s);
    }
}

/// The value of the digits of `s`, when they are all digits and it is at most `bound`.
fn digits_value_upto(s: &[char], bound: u64) -> (r: Option<u64>)
    ensures
        match r {
            Some(v) => all_digits(s@) && v == digits_value(s@) && v <= bound,
            None => !all_digits(s@) || digits_value(s@) > bound,
        },
{
    let mut v: u128 = 0;
    let mut i: usize = 0;
    while i < s.len()
        invariant
            i <= s@.len(),
            all_digits(s@.take(i as int)),
            v == digits_value(s@.take(i as int)),
            v <= bound,
        decreases s@.len() - i,
    {
        let c = s[i];
        assert(s@.take(i + 1).drop_last() =~= s@.take(i as int));
        if !('0' <= c && c <= '9') {
            assert(!is_ascii_digit(s@[i as int]));
            return None;
        }
        let d: u128 = ((c as u32) - ('0' as u32)) as u128;
        v = v * 10 + d;
        i = i + 1;
        if v > bound as u128 {
            proof { lemma_digits_value_prefix(s@, i as int); }
            return None;
        }
    }
    assert(s@.take(i as int) =~= s@);
    Some(v as u64)
}

/// The text is an `i64` as `str::parse::<i64>` reads it: an optional sign, then one or
/// more ASCII digits, with a value from -9223372036854775808 to 9223372036854775807.
pub open spec fn parses_i64(s: Seq<char>) -> bool {
    let signed = s.len() > 0 && (s[0] == '-' || s[0] == '+');
    let digits = if signed { s.skip(1) } else { s };
    &&& digits.len() > 0
    &&& all_digits(digits)
    &&& if s.len() > 0 && s[0] == '-' {
        digits_value(digits) <= 9223372036854775808
    } else {
        digits_value(digits) <= 9223372036854775807
    }
}

/// Whether the text reads as an `i64`.
pub fn parses_as_i64(s: &Vec<char>) -> (b: bool)
    ensures
        b == parses_i64(s@),
{
    let signed = s.len() > 0 && (s[0] == '-' || s[0] == '+');
    let neg = s.len() > 0 && s[0] == '-';
    let start: usize = if signed { 1 } else { 0 };
    let digits = vstd::slice::slice_subrange(s.as_slice(), start, s.len());
    assert(digits@ =~= (if signed { s@.skip(1) } else { s@ }));
    if digits.len() == 0 {
        return false;
    }
    let bound: u64 = if neg { 9223372036854775808 } else { 9223372036854775807 };
    digits_value_upto(digits, bound).is_some()
}

/// The text is a `usize` as `str::parse::<usize>` reads it: an optional '+', then one or
/// more ASCII digits, with a value at most `usize::MAX`.
pub open spec fn parses_usize(s: Seq<char>) -> bool {
    let digits = if s.len() > 0 && s[0] == '+' { s.skip(1) } else { s };
    digits.len() > 0 && all_digits(digits) && digits_value(digits) <= usize::MAX
}

/// The value of a text that reads as a `usize`.
pub open spec fn usize_value(s: Seq<char>) -> nat {
    digits_value(if s.len() > 0 && s[0] == '+' { s.skip(1) } else { s })
}

/// Reads the text as a `usize`, as `str::parse::<usize>` does.
pub fn parse_usize(s: &String) -> (r: Option<usize>)
    ensures
        match r {
            Some(v) => parses_usize(s@) && v == usize_value(s@),
            None => !parses_usize(s@),
        },
{
    let chars = chars_of(s);
    let signed = chars.len() > 0 && chars[0] == '+';
    let start: usize = if signed { 1 } else { 0 };
    let digits = vstd::slice::slice_subrange(chars.as_slice(), start, chars.len());
    assert(digits@ =~= (if signed { s@.skip(1) } else { s@ }));
    if digits.len() == 0 {
        return None;
    }
    match digits_value_upto(digits, usize::MAX as u64) {
        Some(v) => Some(v as usize),
        None => None,
    }
}


/// Ten to the power `k`.
pub open spec fn pow10(k: nat) -> nat
    decreases k,
{
    if k == 0 {
        1
    } else {
        10 * pow10((k - 1) as nat)
    }
}

/// `k` zero digits.
pub open spec fn zeros(k: nat) -> Seq<char> {
    Seq::new(k, |i: int| '0')
}

/// Powers of ten multiply by adding their exponents.
pub proof fn lemma_pow10_add(a: nat, b: nat)
    ensures
        pow10(a + b) == pow10(a) * pow10(b),
        pow10(a) >= 1,
    decreases b,
{
    if b == 0 {
        lemma_pow10_pos(a);
        assert(pow10(0) == 1);
        assert(a + b == a);
        assert(pow10(a) * 1 == pow10(a));
    } else {
        lemma_pow10_add(a, (b - 1) as nat);
        assert(pow10(a + b) == 10 * pow10((a + b - 1) as nat));
        assert((a + b - 1) as nat == a + (b - 1) as nat);
        assert(pow10(b) == 10 * pow10((b - 1) as nat));
        assert(10 * (pow10(a) * pow10((b - 1) as nat)) == pow10(a) * (10 * pow10((b - 1) as nat))) by (nonlinear_arith);
    }
}

/// A power of ten is at least one.
pub proof fn lemma_pow10_pos(a: nat)
    ensures
        pow10(a) >= 1,
    decreases a,
{
    if a > 0 {
        lemma_pow10_pos((a - 1) as nat);
    }
}

/// A larger exponent gives a power of ten at least as large.
pub proof fn lemma_pow10_mono(a: nat, b: nat)
    requires
        a <= b,
    ensures
        pow10(a) <= pow10(b),
{
    lemma_pow10_add(a, (b - a) as nat);
    lemma_pow10_pos((b - a) as nat);
    assert(pow10(a) * pow10((b - a) as nat) >= pow10(a)) by (nonlinear_arith)
        requires
            pow10((b - a) as nat) >= 1;
}

/// The value of digits followed by more digits.
pub proof fn lemma_digits_append(a: Seq<char>, b: Seq<char>)
    ensures
        digits_value(a + b) == digits_value(a) * pow10(b.len()) + digits_value(b),
    decreases b.len(),
{
    if b.len() == 0 {
        assert(a + b =~= a);
        assert(pow10(0) == 1);
        assert(digits_value(b) == 0);
        assert(digits_value(a) * 1 == digits_value(a));
    } else {
        lemma_digits_append(a, b.drop_last());
        assert((a + b).drop_last() =~= a + b.drop_last());
        assert((a + b).last() == b.last());
        let va = digits_value(a);
        let p = pow10(b.drop_last().len());
        let vb = digits_value(b.drop_last());
        let d = digit_value(b.last());
        assert(digits_value(a + b) == digits_value((a + b).drop_last()) * 10 + digit_value((a + b).last()));
        assert(digits_value(b) == vb * 10 + d);
        assert(pow10(b.len()) == 10 * p);
        assert((va * p + vb) * 10 + d == va * (10 * p) + (vb * 10 + d)) by (nonlinear_arith);
        assert(digits_value(a + b.drop_last()) == va * p + vb);
        assert(digits_value((a + b).drop_last()) == va * p + vb);
    }
}

/// `k` digits are worth less than ten to the power `k`.
pub proof fn lemma_digits_upper(s: Seq<char>)
    requires
        all_digits(s),
    ensures
        digits_value(s) < pow10(s.len()),
    decreases s.len(),
{
    if s.len() > 0 {
        let t = s.drop_last();
        assert(all_digits(t)) by {
            assert forall|i: int| 0 <= i < t.len() implies is_ascii_digit(#[trigger] t[i]) by {
                assert(t[i] == s[i]);
            }
        }
        lemma_digits_upper(t);
        assert(is_ascii_digit(s[s.len() - 1]));
        assert(digit_value(s.last()) <= 9);
        let v = digits_value(t);
        let p = pow10(t.len());
        assert(v * 10 + 9 < 10 * p) by (nonlinear_arith)
            requires
                v < p;
    }
}

/// Digits that start with a non-zero digit are worth at least ten to the power of their
/// length less one.
pub proof fn lemma_digits_lower(s: Seq<char>)
    requires
        all_digits(s),
        s.len() > 0,
        s[0] != '0',
    ensures
        digits_value(s) >= pow10((s.len() - 1) as nat),
{
    let first = s.take(1);
    let rest = s.skip(1);
    assert(s =~= first + rest);
    lemma_digits_append(first, rest);
    assert(first.drop_last() =~= Seq::<char>::empty());
    assert(is_ascii_digit(s[0]));
    assert(first.last() == s[0]);
    assert(digits_value(first.drop_last()) == 0);
    assert(digits_value(first) == digit_value(s[0]));
    assert(digit_value(s[0]) >= 1);
    let p = pow10(rest.len());
    assert(digit_value(s[0]) * p >= p) by (nonlinear_arith)
        requires
            digit_value(s[0]) >= 1;
}

/// Zero digits are worth nothing.
pub proof fn lemma_zeros_value(k: nat)
    ensures
        digits_value(zeros(k)) == 0,
        all_digits(zeros(k)),
    decreases k,
{
    if k > 0 {
        lemma_zeros_value((k - 1) as nat);
        assert(zeros(k).drop_last() =~= zeros((k - 1) as nat));
    }
}

/// Leading zeros do not change the value.
pub proof fn lemma_leading_zeros(k: nat, s: Seq<char>)
    ensures
        digits_value(zeros(k) + s) == digits_value(s),
{
    lemma_zeros_value(k);
    lemma_digits_append(zeros(k), s);
}

/// Of two digit strings of one length, the one with the smaller digit at the first place
/// where they differ is worth less.
pub proof fn lemma_lex_less(a: Seq<char>, b: Seq<char>, i: int)
    requires
        a.len() == b.len(),
        all_digits(a),
        all_digits(b),
        0 <= i < a.len(),
        a.take(i) == b.take(i),
        a[i] < b[i],
    ensures
        digits_value(a) < digits_value(b),
{
    let k = (a.len() - i - 1) as nat;
    let pa = a.take(i + 1);
    let ra = a.skip(i + 1);
    let pb = b.take(i + 1);
    let rb = b.skip(i + 1);
    assert(a =~= pa + ra);
    assert(b =~= pb + rb);
    lemma_digits_append(pa, ra);
    lemma_digits_append(pb, rb);
    assert(pa.drop_last() =~= a.take(i));
    assert(pb.drop_last() =~= b.take(i));
    assert(all_digits(ra)) by {
        assert forall|j: int| 0 <= j < ra.len() implies is_ascii_digit(#[trigger] ra[j]) by {
            assert(ra[j] == a[i + 1 + j]);
        }
    }
    lemma_digits_upper(ra);
    assert(is_ascii_digit(a[i]) && is_ascii_digit(b[i]));
    let v = digits_value(a.take(i));
    let da = digit_value(a[i]);
    let db = digit_value(b[i]);
    assert(da < db);
    let p = pow10(k);
    let x = digits_value(ra);
    let y = digits_value(rb);
    assert((v * 10 + da) * p + x < (v * 10 + db) * p + y) by (nonlinear_arith)
        requires
            x < p,
            da + 1 <= db,
            y >= 0,
            p >= 1;
}

} // verus!
