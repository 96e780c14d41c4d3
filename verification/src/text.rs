//! Character-level text operations shared by the services: whitespace
//! trimming, field extraction and suffixes.

use vstd::prelude::*;

verus! {

/// The Unicode `White_Space` property (PropList.txt).
pub open spec fn is_white_space(c: char) -> bool {
    let u = c as u32;
    ||| 0x09 <= u <= 0x0D
    ||| u == 0x20
    ||| u == 0x85
    ||| u == 0xA0
    ||| u == 0x1680
    ||| 0x2000 <= u <= 0x200A
    ||| u == 0x2028
    ||| u == 0x2029
    ||| u == 0x202F
    ||| u == 0x205F
    ||| u == 0x3000
}

/// `s` with its leading white space removed.
pub open spec fn trim_start(s: Seq<char>) -> Seq<char>
    decreases s.len(),
{
    if s.len() > 0 && is_white_space(s[0]) {
        trim_start(s.drop_first())
    } else {
        s
    }
}

/// `s` with its trailing white space removed.
pub open spec fn trim_end(s: Seq<char>) -> Seq<char>
    decreases s.len(),
{
    if s.len() > 0 && is_white_space(s.last()) {
        trim_end(s.drop_last())
    } else {
        s
    }
}

/// `s` with leading and trailing white space removed.
pub open spec fn trim(s: Seq<char>) -> Seq<char> {
    trim_end(trim_start(s))
}

/// `char::is_whitespace` from std: true exactly for the characters with the
/// Unicode `White_Space` property, as its documentation states.
#[verifier::external_body]
fn char_is_whitespace(c: char) -> (r: bool)
    ensures
        r == is_white_space(c),
{
    c.is_whitespace()
}

/// `String: FromIterator<char>` from std: the string holds the characters in order.
#[verifier::external_body]
pub(crate) fn string_from_chars(chars: &[char]) -> (s: String)
    ensures
        s@ == chars@,
{
    chars.iter().collect()
}

/// The characters of `s`, in order.
pub fn chars_of(s: &str) -> (v: Vec<char>)
    ensures
        v@ == s@,
{
    let n = s.unicode_len();
    let mut v: Vec<char> = Vec::new();
    let mut i: usize = 0;
    while i < n
        invariant
            n == s@.len(),
            i <= n,
            v@ == s@.take(i as int),
        decreases n - i,
    {
        let c = s.get_char(i);
        v.push(c);
        i = i + 1;
        assert(v@ =~= s@.take(i as int));
    }
    assert(v@ =~= s@);
    v
}

proof fn lemma_trim_start_skip(s: Seq<char>, i: int)
    requires
        0 <= i < s.len(),
        is_white_space(s[i]),
    ensures
        trim_start(s.skip(i)) == trim_start(s.skip(i + 1)),
{
    assert(s.skip(i).drop_first() =~= s.skip(i + 1));
}

proof fn lemma_trim_end_take(s: Seq<char>, j: int)
    requires
        0 < j <= s.len(),
        is_white_space(s[j - 1]),
    ensures
        trim_end(s.take(j)) == trim_end(s.take(j - 1)),
{
    assert(s.take(j).drop_last() =~= s.take(j - 1));
}

/// The characters of `s` with leading and trailing white space removed.
pub fn trim_chars(s: &[char]) -> (r: Vec<char>)
    ensures
        r@ == trim(s@),
{
    let n = s.len();
    let mut i: usize = 0;
    assert(s@.skip(0) =~= s@);
    while i < n && char_is_whitespace(s[i])
        invariant
            n == s@.len(),
            i <= n,
            trim_start(s@) == trim_start(s@.skip(i as int)),
        decreases n - i,
    {
        proof {
            lemma_trim_start_skip(s@, i as int);
        }
        i = i + 1;
    }
    let ghost rest = s@.skip(i as int);
    assert(trim_start(s@) == rest) by {
        if i < n {
            assert(rest[0] == s@[i as int]);
        }
    }
    let mut j: usize = n;
    assert(rest.take(n - i) =~= rest);
    while j > i && char_is_whitespace(s[j - 1])
        invariant
            n == s@.len(),
            i <= j <= n,
            rest == s@.skip(i as int),
            trim_end(rest) == trim_end(rest.take(j - i)),
        decreases j,
    {
        proof {
            lemma_trim_end_take(rest, j - i);
        }
        j = j - 1;
    }
    assert(trim_end(rest.take(j - i)) == rest.take(j - i)) by {
        if j > i {
            assert(rest.take(j - i).last() == s@[j - 1]);
        }
    }
    assert(rest.take(j - i) =~= s@.subrange(i as int, j as int));
    slice_range(s, i, j)
}

/// The characters `s[from..to]`, copied.
pub fn slice_range(s: &[char], from: usize, to: usize) -> (r: Vec<char>)
    requires
        from <= to <= s.len(),
    ensures
        r@ == s@.subrange(from as int, to as int),
{
    let mut r: Vec<char> = Vec::new();
    let mut k: usize = from;
    while k < to
        invariant
            from <= k <= to <= s.len(),
            r@ == s@.subrange(from as int, k as int),
        decreases to - k,
    {
        r.push(s[k]);
        k = k + 1;
        assert(r@ =~= s@.subrange(from as int, k as int));
    }
    r
}

/// `text` with leading and trailing white space removed, as `str::trim` gives it.
pub fn trim_text(text: &str) -> (r: String)
    ensures
        r@ == trim(text@),
{
    let chars = chars_of(text);
    let t = trim_chars(chars.as_slice());
    string_from_chars(t.as_slice())
}

} // verus!

verus! {

/// The index of the first `x` in `s` at or after `from`, or `s.len()` when
/// there is none.
pub open spec fn find_from<T>(s: Seq<T>, x: T, from: nat) -> nat
    decreases s.len() - from,
{
    if from >= s.len() {
        s.len()
    } else if s[from as int] == x {
        from
    } else {
        find_from(s, x, from + 1)
    }
}

/// The second field of `s` split at `sep`, as `s.split(sep).nth(1)` gives
/// it: the text between the first separator and the next one (or the end);
/// `None` when `s` holds no separator.
pub open spec fn second_field(s: Seq<char>, sep: char) -> Option<Seq<char>> {
    let i = find_from(s, sep, 0);
    if i == s.len() {
        None
    } else {
        Some(s.subrange(i + 1 as int, find_from(s, sep, i + 1) as int))
    }
}

/// The last `n` characters of `s`, or all of `s` when it is shorter.
pub open spec fn last_chars(s: Seq<char>, n: nat) -> Seq<char> {
    if s.len() <= n {
        s
    } else {
        s.skip(s.len() - n)
    }
}

pub proof fn lemma_find_from_bounds<T>(s: Seq<T>, x: T, from: nat)
    requires
        from <= s.len(),
    ensures
        from <= find_from(s, x, from) <= s.len(),
        find_from(s, x, from) < s.len() ==> s[find_from(s, x, from) as int] == x,
        forall|k: int| from <= k < find_from(s, x, from) ==> s[k] != x,
    decreases s.len() - from,
{
    if from < s.len() && s[from as int] != x {
        lemma_find_from_bounds(s, x, from + 1);
    }
}

/// The position of the first `c` in `s` at or after `from`, or `s.len()`.
pub fn find_char_from(s: &[char], c: char, from: usize) -> (i: usize)
    requires
        from <= s.len(),
    ensures
        i == find_from(s@, c, from as nat),
{
    let mut i = from;
    while i < s.len() && s[i] != c
        invariant
            from <= i <= s.len(),
            find_from(s@, c, from as nat) == find_from(s@, c, i as nat),
        decreases s.len() - i,
    {
        i = i + 1;
    }
    i
}

/// The second field of `s` split at `sep` (see [`second_field`]).
pub fn second_field_of(s: &[char], sep: char) -> (r: Option<Vec<char>>)
    ensures
        match r {
            Some(f) => second_field(s@, sep) == Some(f@),
            None => second_field(s@, sep) is None,
        },
{
    let i = find_char_from(s, sep, 0);
    proof {
        lemma_find_from_bounds(s@, sep, 0);
    }
    if i == s.len() {
        None
    } else {
        proof {
            lemma_find_from_bounds(s@, sep, (i + 1) as nat);
        }
        let j = find_char_from(s, sep, i + 1);
        Some(slice_range(s, i + 1, j))
    }
}

/// The last `n` characters of `s`, or all of it when it is shorter.
pub fn last_chars_of(s: &[char], n: usize) -> (r: Vec<char>)
    ensures
        r@ == last_chars(s@, n as nat),
{
    if s.len() <= n {
        let r = slice_range(s, 0, s.len());
        assert(s@.subrange(0, s@.len() as int) =~= s@);
        r
    } else {
        let r = slice_range(s, s.len() - n, s.len());
        assert(s@.subrange((s.len() - n) as int, s@.len() as int) =~= s@.skip(s.len() - n));
        r
    }
}

/// What `String::from_utf8_lossy` gives for `bytes`: the decoded text with
/// each invalid sequence replaced by U+FFFD.
pub uninterp spec fn utf8_lossy(bytes: Seq<u8>) -> Seq<char>;

/// `String::from_utf8_lossy` from std. Its result is named [`utf8_lossy`];
/// its documentation states that valid UTF-8 comes back decoded unchanged,
/// which is the second clause. How invalid sequences are replaced is not
/// stated beyond the name.
#[verifier::external_body]
pub(crate) fn decode_utf8_lossy(bytes: &[u8]) -> (s: String)
    ensures
        s@ == utf8_lossy(bytes@),
        vstd::utf8::valid_utf8(bytes@) ==> s@ == vstd::utf8::decode_utf8(bytes@),
{
    String::from_utf8_lossy(bytes).into_owned()
}

} // verus!

verus! {

/// The position of the first byte `b` in `s` at or after `from`, or `s.len()`.
pub fn find_byte_from(s: &[u8], b: u8, from: usize) -> (i: usize)
    requires
        from <= s.len(),
    ensures
        i == find_from(s@, b, from as nat),
{
    let mut i = from;
    while i < s.len() && s[i] != b
        invariant
            from <= i <= s.len(),
            find_from(s@, b, from as nat) == find_from(s@, b, i as nat),
        decreases s.len() - i,
    {
        i = i + 1;
    }
    i
}

/// `std::str::from_utf8`, with the text copied out: it succeeds exactly on
/// valid UTF-8, and then yields the decoded characters, as its documentation
/// states.
#[verifier::external_body]
pub(crate) fn utf8_text(bytes: &[u8]) -> (r: Option<String>)
    ensures
        r is Some <==> vstd::utf8::valid_utf8(bytes@),
        r is Some ==> r->Some_0@ == vstd::utf8::decode_utf8(bytes@),
{
    match std::str::from_utf8(bytes) {
        Ok(s) => Some(s.to_owned()),
        Err(_) => None,
    }
}

} // verus!
