//! Character-level text helpers used by the caption buffer.
//!
//! Text is handled as sequences of `char`, so every length and limit here
//! counts characters.

use vstd::prelude::*;

verus! {

/// The characters with the Unicode White_Space property, which is exactly
/// the set that `char::is_whitespace` accepts.
pub open spec fn is_ws(c: char) -> bool {
    let u = c as u32;
    ||| 0x09 <= u <= 0x0D
    ||| u == 0x20
    ||| u == 0x85
    ||| u == 0xA0
    ||| u == 0x1680
    ||| 0x2000 <= u <= 0x200A
    ||| u == 0x2028
    ||| u == 0x2029
    ||| u == 0x202F
    ||| u == 0x205F
    ||| u == 0x3000
}

/// Whether `s` begins with a whitespace character.
pub open spec fn starts_with_ws(s: Seq<char>) -> bool {
    s.len() > 0 && is_ws(s[0])
}

/// `s` without its leading whitespace.
pub open spec fn trim_start(s: Seq<char>) -> Seq<char>
    decreases s.len(),
{
    if s.len() > 0 && is_ws(s[0]) {
        trim_start(s.drop_first())
    } else {
        s
    }
}

/// `s` without its trailing whitespace.
pub open spec fn trim_end(s: Seq<char>) -> Seq<char>
    decreases s.len(),
{
    if s.len() > 0 && is_ws(s.last()) {
        trim_end(s.drop_last())
    } else {
        s
    }
}

/// `s` without leading and trailing whitespace.
pub open spec fn trim(s: Seq<char>) -> Seq<char> {
    trim_end(trim_start(s))
}

/// Reads `s` left to right and returns the words completed so far together
/// with the word still being read. A word is a maximal run of
/// non-whitespace characters.
pub open spec fn scan_words(s: Seq<char>) -> (Seq<Seq<char>>, Seq<char>)
    decreases s.len(),
{
    if s.len() == 0 {
        (Seq::empty(), Seq::empty())
    } else {
        let (done, cur) = scan_words(s.drop_last());
        if is_ws(s.last()) {
            if cur.len() > 0 {
                (done.push(cur), Seq::empty())
            } else {
                (done, cur)
            }
        } else {
            (done, cur.push(s.last()))
        }
    }
}

/// The words of `s`, in order: its maximal runs of non-whitespace characters.
pub open spec fn split_words(s: Seq<char>) -> Seq<Seq<char>> {
    let (done, cur) = scan_words(s);
    if cur.len() > 0 {
        done.push(cur)
    } else {
        done
    }
}

/// Index of the last ASCII space in `s`, or -1 when it has none.
pub open spec fn last_space(s: Seq<char>) -> int
    decreases s.len(),
{
    if s.len() == 0 {
        -1
    } else if s.last() == ' ' {
        s.len() - 1
    } else {
        last_space(s.drop_last())
    }
}

/// What `str::to_lowercase` makes of a text.
pub uninterp spec fn lower_of(s: Seq<char>) -> Seq<char>;

/// Relies on `str::to_lowercase`: its result depends on the characters alone.
#[verifier::external_body]
pub(crate) fn lowercase(s: &str) -> (r: String)
    ensures
        r@ == lower_of(s@),
{
    s.to_lowercase()
}

/// Relies on `str::chars`: it yields the characters of the text in order.
#[verifier::external_body]
pub(crate) fn chars_of(s: &str) -> (r: Vec<char>)
    ensures
        r@ == s@,
{
    s.chars().collect()
}

/// Relies on `String: FromIterator<char>`: the string holds the characters in order.
#[verifier::external_body]
pub(crate) fn string_of(v: &Vec<char>) -> (r: String)
    ensures
        r@ == v@,
{
    v.iter().collect()
}

/// Tests a character for the Unicode White_Space property.
pub fn is_whitespace(c: char) -> (r: bool)
    ensures
        r == is_ws(c),
{
    let u = c as u32;
    (0x09 <= u && u <= 0x0D) || u == 0x20 || u == 0x85 || u == 0xA0 || u == 0x1680 || (0x2000
        <= u && u <= 0x200A) || u == 0x2028 || u == 0x2029 || u == 0x202F || u == 0x205F || u
        == 0x3000
}

/// Copies `s[lo..hi]`.
pub fn copy_range(s: &Vec<char>, lo: usize, hi: usize) -> (r: Vec<char>)
    requires
        lo <= hi <= s@.len(),
    ensures
        r@ == s@.subrange(lo as int, hi as int),
{
    let mut r: Vec<char> = Vec::new();
    let mut i: usize = lo;
    while i < hi
        invariant
            lo <= i <= hi <= s@.len(),
            r@ == s@.subrange(lo as int, i as int),
        decreases hi - i,
    {
        r.push(s[i]);
        assert(s@.subrange(lo as int, i + 1) =~= s@.subrange(lo as int, i as int).push(s@[i as int]));
        i = i + 1;
    }
    r
}

/// Appends `b` to `a`.
pub fn append_chars(a: &mut Vec<char>, b: &Vec<char>)
    ensures
        final(a)@ == old(a)@ + b@,
{
    let mut i: usize = 0;
    while i < b.len()
        invariant
            i <= b@.len(),
            a@ == old(a)@ + b@.subrange(0, i as int),
        decreases b@.len() - i,
    {
        a.push(b[i]);
        assert(b@.subrange(0, i + 1) =~= b@.subrange(0, i as int).push(b@[i as int]));
        i = i + 1;
    }
    assert(b@.subrange(0, b@.len() as int) =~= b@);
}

/// The concatenation `a + b` as a new vector.
pub fn concat_chars(a: &Vec<char>, b: &Vec<char>) -> (r: Vec<char>)
    ensures
        r@ == a@ + b@,
{
    let mut r = copy_range(a, 0, a.len());
    assert(a@.subrange(0, a@.len() as int) =~= a@);
    append_chars(&mut r, b);
    r
}

/// Index of the first non-whitespace character at or after `from`.
pub fn skip_whitespace(s: &Vec<char>, from: usize) -> (r: usize)
    requires
        from <= s@.len(),
    ensures
        from <= r <= s@.len(),
        s@.subrange(r as int, s@.len() as int) == trim_start(
            s@.subrange(from as int, s@.len() as int),
        ),
{
    let n = s.len();
    let mut i: usize = from;
    while i < n && is_whitespace(s[i])
        invariant
            from <= i <= n == s@.len(),
            trim_start(s@.subrange(i as int, n as int)) == trim_start(
                s@.subrange(from as int, n as int),
            ),
        decreases n - i,
    {
        assert(s@.subrange(i as int, n as int).drop_first() =~= s@.subrange(i + 1, n as int));
        i = i + 1;
    }
    proof {
        r_trim_start_fixed(s@.subrange(i as int, n as int));
    }
    i
}

/// A sequence that does not start with whitespace is its own `trim_start`.
proof fn r_trim_start_fixed(s: Seq<char>)
    requires
        !starts_with_ws(s),
    ensures
        trim_start(s) == s,
{
}

/// Length of `s[..hi]` once its trailing whitespace is dropped.
pub fn end_without_whitespace(s: &Vec<char>, hi: usize) -> (r: usize)
    requires
        hi <= s@.len(),
    ensures
        r <= hi,
        s@.subrange(0, r as int) == trim_end(s@.subrange(0, hi as int)),
{
    let mut j: usize = hi;
    while j > 0 && is_whitespace(s[j - 1])
        invariant
            j <= hi <= s@.len(),
            trim_end(s@.subrange(0, j as int)) == trim_end(s@.subrange(0, hi as int)),
        decreases j,
    {
        assert(s@.subrange(0, j as int).drop_last() =~= s@.subrange(0, j - 1));
        j = j - 1;
    }
    j
}

/// `s` without leading and trailing whitespace.
pub fn trimmed(s: &Vec<char>) -> (r: Vec<char>)
    ensures
        r@ == trim(s@),
{
    let lo = skip_whitespace(s, 0);
    assert(s@.subrange(0, s@.len() as int) =~= s@);
    let rest = copy_range(s, lo, s.len());
    let hi = end_without_whitespace(&rest, rest.len());
    assert(rest@.subrange(0, rest@.len() as int) =~= rest@);
    copy_range(&rest, 0, hi)
}

/// Index of the last ASCII space in `s`, if it has one.
pub fn find_last_space(s: &Vec<char>) -> (r: Option<usize>)
    ensures
        r matches Some(p) ==> p < s@.len() && last_space(s@) == p,
        r is None ==> last_space(s@) == -1,
{
    let mut j: usize = s.len();
    assert(s@.subrange(0, j as int) =~= s@);
    while j > 0
        invariant
            j <= s@.len(),
            last_space(s@) == last_space(s@.subrange(0, j as int)),
        decreases j,
    {
        assert(s@.subrange(0, j as int).drop_last() =~= s@.subrange(0, j - 1));
        if s[j - 1] == ' ' {
            return Some(j - 1);
        }
        j = j - 1;
    }
    None
}

/// Tells whether two character sequences are equal.
pub fn same_chars(a: &Vec<char>, b: &Vec<char>) -> (r: bool)
    ensures
        r == (a@ == b@),
{
    if a.len() != b.len() {
        return false;
    }
    let mut i: usize = 0;
    while i < a.len()
        invariant
            a@.len() == b@.len(),
            i <= a@.len(),
            forall|j: int| 0 <= j < i ==> a@[j] == b@[j],
        decreases a@.len() - i,
    {
        if a[i] != b[i] {
            return false;
        }
        i = i + 1;
    }
    assert(a@ =~= b@);
    true
}

/// Whether `s` ends with `suffix`.
pub open spec fn ends_with(s: Seq<char>, suffix: Seq<char>) -> bool {
    s.len() >= suffix.len() && s.subrange(s.len() - suffix.len(), s.len() as int) == suffix
}

/// Tells whether `s` ends with `suffix`.
pub fn ends_with_chars(s: &Vec<char>, suffix: &Vec<char>) -> (r: bool)
    ensures
        r == ends_with(s@, suffix@),
{
    if s.len() < suffix.len() {
        return false;
    }
    let off = s.len() - suffix.len();
    let tail = copy_range(s, off, s.len());
    same_chars(&tail, suffix)
}

} // verus!
