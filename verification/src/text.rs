//! Character and string helpers shared by the decoder and the parser.
//!
//! Everything here is stated over `Seq<char>` views. Whitespace means the
//! characters that Unicode marks with the `White_Space` property, the set the
//! standard library's trimming goes by.

use vstd::prelude::*;
use vstd::utf8::decode_utf8;
use vstd::utf8::valid_utf8;

verus! {

/// Whether `c` carries the Unicode `White_Space` property.
pub open spec fn spec_is_space(c: char) -> bool {
    c == '\u{0009}' || c == '\u{000A}' || c == '\u{000B}' || c == '\u{000C}' || c == '\u{000D}'
        || c == '\u{0020}' || c == '\u{0085}' || c == '\u{00A0}' || c == '\u{1680}' || c
        == '\u{2000}' || c == '\u{2001}' || c == '\u{2002}' || c == '\u{2003}' || c == '\u{2004}'
        || c == '\u{2005}' || c == '\u{2006}' || c == '\u{2007}' || c == '\u{2008}' || c
        == '\u{2009}' || c == '\u{200A}' || c == '\u{2028}' || c == '\u{2029}' || c == '\u{202F}'
        || c == '\u{205F}' || c == '\u{3000}'
}

/// Whether `c` carries the Unicode `White_Space` property.
pub fn is_space(c: char) -> (r: bool)
    ensures
        r == spec_is_space(c),
{
    match c {
        '\u{0009}' | '\u{000A}' | '\u{000B}' | '\u{000C}' | '\u{000D}' | '\u{0020}' | '\u{0085}'
            | '\u{00A0}' | '\u{1680}' | '\u{2000}' | '\u{2001}' | '\u{2002}' | '\u{2003}'
            | '\u{2004}' | '\u{2005}' | '\u{2006}' | '\u{2007}' | '\u{2008}' | '\u{2009}'
            | '\u{200A}' | '\u{2028}' | '\u{2029}' | '\u{202F}' | '\u{205F}' | '\u{3000}' => true,
        _ => false,
    }
}

/// `s` without its leading whitespace.
pub open spec fn spec_trim_start(s: Seq<char>) -> Seq<char>
    decreases s.len(),
{
    if s.len() == 0 {
        s
    } else if spec_is_space(s[0]) {
        spec_trim_start(s.drop_first())
    } else {
        s
    }
}

/// `s` without its trailing whitespace.
pub open spec fn spec_trim_end(s: Seq<char>) -> Seq<char>
    decreases s.len(),
{
    if s.len() == 0 {
        s
    } else if spec_is_space(s.last()) {
        spec_trim_end(s.drop_last())
    } else {
        s
    }
}

/// `s` without leading and trailing whitespace.
pub open spec fn spec_trim(s: Seq<char>) -> Seq<char> {
    spec_trim_end(spec_trim_start(s))
}

/// Trimming from the front keeps any suffix that starts with a non-space.
proof fn lemma_trim_start_at(s: Seq<char>, i: int)
    requires
        0 <= i <= s.len(),
        forall|j: int| 0 <= j < i ==> spec_is_space(s[j]),
        i < s.len() ==> !spec_is_space(s[i]),
    ensures
        spec_trim_start(s) =~= s.subrange(i, s.len() as int),
    decreases i,
{
    if i == 0 {
        if s.len() > 0 && spec_is_space(s[0]) {
        } else {
            assert(spec_trim_start(s) == s);
        }
    } else {
        assert(spec_is_space(s[0]));
        lemma_trim_start_at(s.drop_first(), i - 1);
        assert(s.drop_first().subrange(i - 1, s.drop_first().len() as int) =~= s.subrange(
            i,
            s.len() as int,
        ));
    }
}

/// Trimming from the back keeps any prefix that ends with a non-space.
proof fn lemma_trim_end_at(s: Seq<char>, i: int)
    requires
        0 <= i <= s.len(),
        forall|j: int| i <= j < s.len() ==> spec_is_space(s[j]),
        i > 0 ==> !spec_is_space(s[i - 1]),
    ensures
        spec_trim_end(s) =~= s.subrange(0, i),
    decreases s.len() - i,
{
    if i == s.len() {
        if s.len() > 0 && spec_is_space(s.last()) {
        } else {
            assert(spec_trim_end(s) == s);
        }
    } else {
        assert(spec_is_space(s.last()));
        lemma_trim_end_at(s.drop_last(), i);
        assert(s.drop_last().subrange(0, i) =~= s.subrange(0, i));
    }
}

/// The bounds of `s@` with surrounding whitespace dropped: the trimmed text
/// is `s@.subrange(r.0, r.1)`.
pub fn trim_bounds(s: &str) -> (r: (usize, usize))
    ensures
        r.0 <= r.1 <= s@.len(),
        s@.subrange(r.0 as int, r.1 as int) == spec_trim(s@),
{
    let n = s.unicode_len();
    let mut lo: usize = 0;
    while lo < n && is_space(s.get_char(lo))
        invariant
            lo <= n == s@.len(),
            forall|j: int| 0 <= j < lo ==> spec_is_space(s@[j]),
        decreases n - lo,
    {
        lo = lo + 1;
    }
    let mut hi: usize = n;
    while hi > lo && is_space(s.get_char(hi - 1))
        invariant
            lo <= hi <= n == s@.len(),
            forall|j: int| 0 <= j < lo ==> spec_is_space(s@[j]),
            forall|j: int| hi <= j < n ==> spec_is_space(s@[j]),
        decreases hi,
    {
        hi = hi - 1;
    }
    proof {
        lemma_trim_start_at(s@, lo as int);
        let t = s@.subrange(lo as int, n as int);
        if hi > lo {
            lemma_trim_end_at(t, hi - lo);
        } else {
            assert(forall|j: int| lo <= j < n ==> spec_is_space(s@[j]));
            lemma_trim_end_at(t, 0);
        }
        assert(t.subrange(0, hi - lo) =~= s@.subrange(lo as int, hi as int));
    }
    (lo, hi)
}

/// The start of the text of `s@.skip(from)` once leading whitespace is
/// dropped: the trimmed text is `s@.subrange(r, s@.len())`.
pub fn trim_start_bounds(s: &str, from: usize) -> (r: usize)
    requires
        from <= s@.len(),
    ensures
        from <= r <= s@.len(),
        s@.subrange(r as int, s@.len() as int) == spec_trim_start(s@.skip(from as int)),
{
    let n = s.unicode_len();
    let mut lo: usize = from;
    while lo < n && is_space(s.get_char(lo))
        invariant
            from <= lo <= n == s@.len(),
            forall|j: int| from <= j < lo ==> spec_is_space(s@[j]),
        decreases n - lo,
    {
        lo = lo + 1;
    }
    proof {
        let t = s@.skip(from as int);
        assert forall|j: int| 0 <= j < lo - from implies spec_is_space(t[j]) by {
            assert(t[j] == s@[from + j]);
        }
        if lo < n {
            assert(t[lo - from] == s@[lo as int]);
        }
        lemma_trim_start_at(t, lo - from);
        assert(t.subrange(lo - from, t.len() as int) =~= s@.subrange(lo as int, s@.len() as int));
    }
    lo
}

/// `s` with surrounding whitespace dropped.
pub fn trim(s: &str) -> (r: String)
    ensures
        r@ == spec_trim(s@),
{
    let (lo, hi) = trim_bounds(s);
    String::from_str(s.substring_char(lo, hi))
}

/// The first position of `t` in `s` at or after `from`, if any.
pub fn find_char(s: &str, from: usize, t: char) -> (r: Option<usize>)
    requires
        from <= s@.len(),
    ensures
        match r {
            Some(i) => from <= i < s@.len() && s@[i as int] == t && forall|j: int|
                from <= j < i ==> s@[j] != t,
            None => forall|j: int| from <= j < s@.len() ==> s@[j] != t,
        },
{
    let n = s.unicode_len();
    let mut i = from;
    while i < n
        invariant
            from <= i <= n == s@.len(),
            forall|j: int| from <= j < i ==> s@[j] != t,
        decreases n - i,
    {
        if s.get_char(i) == t {
            return Some(i);
        }
        i = i + 1;
    }
    None
}

/// The first whitespace position in `s` at or after `from`, if any.
pub fn find_space(s: &str, from: usize) -> (r: Option<usize>)
    requires
        from <= s@.len(),
    ensures
        match r {
            Some(i) => from <= i < s@.len() && spec_is_space(s@[i as int]) && forall|j: int|
                from <= j < i ==> !spec_is_space(s@[j]),
            None => forall|j: int| from <= j < s@.len() ==> !spec_is_space(s@[j]),
        },
{
    let n = s.unicode_len();
    let mut i = from;
    while i < n
        invariant
            from <= i <= n == s@.len(),
            forall|j: int| from <= j < i ==> !spec_is_space(s@[j]),
        decreases n - i,
    {
        if is_space(s.get_char(i)) {
            return Some(i);
        }
        i = i + 1;
    }
    None
}

/// Whether `a` and `b` hold the same characters.
pub fn str_eq(a: &str, b: &str) -> (r: bool)
    ensures
        r == (a@ == b@),
{
    let n = a.unicode_len();
    if n != b.unicode_len() {
        return false;
    }
    let mut i: usize = 0;
    while i < n
        invariant
            i <= n,
            n == a@.len() == b@.len(),
            forall|j: int| 0 <= j < i ==> a@[j] == b@[j],
        decreases n - i,
    {
        if a.get_char(i) != b.get_char(i) {
            return false;
        }
        i = i + 1;
    }
    proof {
        assert(a@ =~= b@);
    }
    true
}

/// Turns bytes into the text they encode, if they are valid UTF-8.
///
/// Relies on `String::from_utf8`: it succeeds exactly on valid UTF-8 input
/// and returns the string those bytes encode.
#[verifier::external_body]
pub(crate) fn bytes_to_string(v: Vec<u8>) -> (r: Option<String>)
    ensures
        r is Some <==> valid_utf8(v@),
        r is Some ==> r->0@ == decode_utf8(v@),
{
    String::from_utf8(v).ok()
}

} // verus!
