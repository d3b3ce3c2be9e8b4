//! Character-level text helpers: substring search, character filtering,
//! trimming and runs of a character class, all over the `Seq<char>` view.
use vstd::prelude::*;
use vstd::string::StringSliceAdditionalSpecFns;
use vstd::utf8::{decode_utf8, is_char_boundary};

verus! {

broadcast use vstd::string::group_string_axioms;

// ───────────────────────────── substring search ─────────────────────────────

/// `p` occurs in `s` starting at position `i`.
pub open spec fn occurs_at(s: Seq<char>, p: Seq<char>, i: int) -> bool {
    0 <= i && i + p.len() <= s.len() && s.subrange(i, i + p.len()) == p
}

/// `p` occurs somewhere in `s` (the empty pattern occurs everywhere).
pub open spec fn has_substr(s: Seq<char>, p: Seq<char>) -> bool {
    exists|i: int| occurs_at(s, p, i)
}

/// `i` is the leftmost position at which `p` occurs in `s`.
pub open spec fn is_first_occurrence(s: Seq<char>, p: Seq<char>, i: int) -> bool {
    occurs_at(s, p, i) && forall|j: int| 0 <= j < i ==> !occurs_at(s, p, j)
}

/// The leftmost position of `p` in `s`, if `p` occurs in `s`.
pub open spec fn first_occurrence(s: Seq<char>, p: Seq<char>) -> Option<int> {
    if has_substr(s, p) {
        Some(choose|i: int| is_first_occurrence(s, p, i))
    } else {
        None
    }
}

/// A leftmost occurrence is the one that `first_occurrence` names.
pub proof fn lemma_first_occurrence_unique(s: Seq<char>, p: Seq<char>, i: int)
    requires
        is_first_occurrence(s, p, i),
    ensures
        first_occurrence(s, p) == Some(i),
{
    assert(has_substr(s, p));
    let k = choose|k: int| is_first_occurrence(s, p, k);
    assert(is_first_occurrence(s, p, k));
    if k < i {
        assert(!occurs_at(s, p, k));
    } else if i < k {
        assert(!occurs_at(s, p, i));
    }
}

fn matches_at(s: &[char], p: &[char], i: usize) -> (r: bool)
    requires
        i + p@.len() <= s@.len(),
    ensures
        r == occurs_at(s@, p@, i as int),
{
    let mut k: usize = 0;
    while k < p.len()
        invariant
            k <= p@.len(),
            i + p@.len() <= s@.len(),
            s@.len() == s.len(),
            p@.len() == p.len(),
            forall|j: int| 0 <= j < k ==> s@[i + j] == p@[j],
        decreases p@.len() - k,
    {
        if s[i + k] != p[k] {
            assert(s@.subrange(i as int, i + p@.len())[k as int] != p@[k as int]);
            return false;
        }
        k = k + 1;
    }
    assert(s@.subrange(i as int, i + p@.len()) =~= p@);
    true
}

/// Leftmost position of `p` in `s`.
pub fn find_seq(s: &[char], p: &[char]) -> (r: Option<usize>)
    ensures
        r matches Some(i) ==> is_first_occurrence(s@, p@, i as int),
        r is None <==> !has_substr(s@, p@),
        r is Some ==> first_occurrence(s@, p@) == Some(r->0 as int),
        r is None ==> first_occurrence(s@, p@) is None,
{
    if p.len() > s.len() {
        assert forall|j: int| !occurs_at(s@, p@, j) by {}
        return None;
    }
    let last = s.len() - p.len();
    let mut i: usize = 0;
    loop
        invariant
            i <= last,
            last == s@.len() - p@.len(),
            forall|j: int| 0 <= j < i ==> !occurs_at(s@, p@, j),
        decreases last - i,
    {
        if matches_at(s, p, i) {
            proof {
                lemma_first_occurrence_unique(s@, p@, i as int);
            }
            return Some(i);
        }
        if i == last {
            assert forall|j: int| !occurs_at(s@, p@, j) by {
                if 0 <= j <= i {
                }
            }
            return None;
        }
        i = i + 1;
    }
}

/// Whether `p` occurs in `s`.
pub fn contains_seq(s: &[char], p: &[char]) -> (r: bool)
    ensures
        r == has_substr(s@, p@),
{
    find_seq(s, p).is_some()
}

/// Whether two character sequences are equal.
pub fn chars_equal(a: &[char], b: &[char]) -> (r: bool)
    ensures
        r == (a@ == b@),
{
    if a.len() != b.len() {
        return false;
    }
    let mut i: usize = 0;
    while i < a.len()
        invariant
            i <= a@.len(),
            a@.len() == b@.len(),
            forall|j: int| 0 <= j < i ==> a@[j] == b@[j],
        decreases a@.len() - i,
    {
        if a[i] != b[i] {
            return false;
        }
        i = i + 1;
    }
    assert(a@ =~= b@);
    true
}

/// Whether two strings hold the same characters.
pub fn str_equals(a: &str, b: &str) -> (r: bool)
    ensures
        r == (a@ == b@),
{
    let av = chars_of(a);
    let bv = chars_of(b);
    chars_equal(av.as_slice(), bv.as_slice())
}

/// The text of an optional `String`, or the empty text.
pub open spec fn text_or_empty(o: Option<String>) -> Seq<char> {
    match o {
        Some(s) => s@,
        None => Seq::empty(),
    }
}

/// Whether the pattern `p` occurs in the text `s`.
pub fn str_contains(s: &[char], p: &str) -> (r: bool)
    ensures
        r == has_substr(s@, p@),
{
    let pv = chars_of(p);
    contains_seq(s, pv.as_slice())
}

// ───────────────────────────── conversions ─────────────────────────────

/// The text of an optional `String`.
pub open spec fn opt_view(o: Option<String>) -> Option<Seq<char>> {
    match o {
        Some(s) => Some(s@),
        None => None,
    }
}

/// The characters of `s`, in order.
pub fn chars_of(s: &str) -> (v: Vec<char>)
    ensures
        v@ == s@,
{
    let mut v: Vec<char> = Vec::new();
    for c in it: s.chars()
        invariant
            it.seq() == s@,
            v@ == it.seq().take(it.index() as int),
    {
        v.push(c);
    }
    v
}

/// Calls std's `String::push`. Trusted: the text gains `c` at its end.
#[verifier::external_body]
fn push_char(s: &mut String, c: char)
    ensures
        final(s)@ == old(s)@.push(c),
{
    s.push(c);
}

/// A `String` holding exactly the characters of `v`.
pub fn string_of(v: &[char]) -> (r: String)
    ensures
        r@ == v@,
{
    let mut r = String::new();
    let mut i: usize = 0;
    while i < v.len()
        invariant
            i <= v@.len(),
            r@ == v@.take(i as int),
        decreases v@.len() - i,
    {
        push_char(&mut r, v[i]);
        assert(v@.take(i + 1) =~= v@.take(i as int).push(v@[i as int]));
        i = i + 1;
    }
    assert(v@.take(v@.len() as int) =~= v@);
    r
}

/// What std's `str::to_lowercase` returns for a text: the Unicode
/// lowercase mapping of every character, concatenated.
pub uninterp spec fn lowercase(text: Seq<char>) -> Seq<char>;

/// Every character of `s` is ASCII.
pub open spec fn is_ascii_text(s: Seq<char>) -> bool {
    forall|i: int| 0 <= i < s.len() ==> (#[trigger] s[i] as u32) < 128
}

/// `c` with an ASCII capital letter turned into its small letter.
pub open spec fn ascii_lower_char(c: char) -> char {
    if 65 <= (c as u32) && (c as u32) <= 90 {
        ((c as u32) + 32) as char
    } else {
        c
    }
}

/// `s` with every ASCII capital letter turned into its small letter.
pub open spec fn ascii_lowercase(s: Seq<char>) -> Seq<char> {
    Seq::new(s.len(), |i: int| ascii_lower_char(s[i]))
}

/// Calls std's `str::to_lowercase`. Trusted: its result is `lowercase`
/// of the argument, a function of the argument alone; on ASCII text the
/// Unicode mapping turns 'A'..='Z' into 'a'..='z' and keeps every other
/// character, one for one. What it gives for other characters is left to
/// the name.
#[verifier::external_body]
pub(crate) fn to_lowercase(s: &str) -> (r: String)
    ensures
        r@ == lowercase(s@),
        is_ascii_text(s@) ==> r@ == ascii_lowercase(s@),
{
    s.to_lowercase()
}

// ───────────────────────────── filtering ─────────────────────────────

/// `s` with every occurrence of `c` removed.
pub open spec fn without_char(s: Seq<char>, c: char) -> Seq<char>
    decreases s.len(),
{
    if s.len() == 0 {
        Seq::empty()
    } else {
        let rest = without_char(s.drop_last(), c);
        if s.last() == c {
            rest
        } else {
            rest.push(s.last())
        }
    }
}

/// Removing a character twice is removing it once.
pub proof fn lemma_without_char_idempotent(s: Seq<char>, c: char)
    ensures
        without_char(without_char(s, c), c) == without_char(s, c),
    decreases s.len(),
{
    if s.len() > 0 {
        let rest = without_char(s.drop_last(), c);
        lemma_without_char_idempotent(s.drop_last(), c);
        if s.last() != c {
            let t = rest.push(s.last());
            assert(t.drop_last() =~= rest);
            assert(t.last() == s.last());
        }
    }
}

/// `s` with every occurrence of `c` removed (as `str::replace(c, "")`).
pub fn remove_char(s: &[char], c: char) -> (r: Vec<char>)
    ensures
        r@ == without_char(s@, c),
{
    let mut r: Vec<char> = Vec::new();
    let mut i: usize = 0;
    while i < s.len()
        invariant
            i <= s@.len(),
            r@ == without_char(s@.take(i as int), c),
        decreases s@.len() - i,
    {
        assert(s@.take(i + 1).drop_last() =~= s@.take(i as int));
        if s[i] != c {
            r.push(s[i]);
        }
        i = i + 1;
    }
    assert(s@.take(s@.len() as int) =~= s@);
    r
}

// ───────────────────────────── character classes ─────────────────────────────

/// Character classes that the question parsers scan for.
#[derive(Clone, Copy, Debug, PartialEq, Eq, Structural)]
pub enum CharClass {
    /// ASCII digits and the decimal point.
    Decimal,
    /// ASCII digits and `+` (as in "50+ bps").
    DigitOrPlus,
    /// ASCII digits only.
    Digit,
    /// Unicode `White_Space` characters (std's `char::is_whitespace`).
    Whitespace,
}

/// Unicode `White_Space` property, the set that std's `char::is_whitespace` tests.
pub open spec fn is_unicode_whitespace(c: char) -> bool {
    ||| '\u{9}' <= c <= '\u{d}'
    ||| c == ' '
    ||| c == '\u{85}'
    ||| c == '\u{a0}'
    ||| c == '\u{1680}'
    ||| '\u{2000}' <= c <= '\u{200a}'
    ||| c == '\u{2028}'
    ||| c == '\u{2029}'
    ||| c == '\u{202f}'
    ||| c == '\u{205f}'
    ||| c == '\u{3000}'
}

pub open spec fn is_ascii_digit(c: char) -> bool {
    '0' <= c <= '9'
}

pub open spec fn in_class(k: CharClass, c: char) -> bool {
    match k {
        CharClass::Decimal => is_ascii_digit(c) || c == '.',
        CharClass::DigitOrPlus => is_ascii_digit(c) || c == '+',
        CharClass::Digit => is_ascii_digit(c),
        CharClass::Whitespace => is_unicode_whitespace(c),
    }
}

/// Whether `c` belongs to class `k`.
pub fn char_in_class(k: CharClass, c: char) -> (r: bool)
    ensures
        r == in_class(k, c),
{
    let digit = '0' <= c && c <= '9';
    match k {
        CharClass::Decimal => digit || c == '.',
        CharClass::DigitOrPlus => digit || c == '+',
        CharClass::Digit => digit,
        CharClass::Whitespace => {
            ('\u{9}' <= c && c <= '\u{d}') || c == ' ' || c == '\u{85}' || c == '\u{a0}' || c
                == '\u{1680}' || ('\u{2000}' <= c && c <= '\u{200a}') || c == '\u{2028}' || c
                == '\u{2029}' || c == '\u{202f}' || c == '\u{205f}' || c == '\u{3000}'
        },
    }
}

/// End of the run of class-`k` characters of `s` that starts at `i`.
pub open spec fn run_end(s: Seq<char>, k: CharClass, i: int) -> int
    decreases s.len() - i,
{
    if 0 <= i < s.len() && in_class(k, s[i]) {
        run_end(s, k, i + 1)
    } else {
        i
    }
}

/// Start of the run of class-`k` characters of `s` that ends at `e`.
pub open spec fn run_start(s: Seq<char>, k: CharClass, e: int) -> int
    decreases e,
{
    if 0 < e <= s.len() && in_class(k, s[e - 1]) {
        run_start(s, k, e - 1)
    } else {
        e
    }
}

/// Longest prefix of `s` made of class-`k` characters (`take_while`).
pub open spec fn prefix_in_class(s: Seq<char>, k: CharClass) -> Seq<char> {
    s.take(run_end(s, k, 0))
}

/// Longest suffix of `s` made of class-`k` characters.
pub open spec fn suffix_in_class(s: Seq<char>, k: CharClass) -> Seq<char> {
    s.skip(run_start(s, k, s.len() as int))
}

/// `s` without leading and trailing whitespace (`str::trim`).
pub open spec fn trim(s: Seq<char>) -> Seq<char> {
    let t = s.take(run_start(s, CharClass::Whitespace, s.len() as int));
    t.skip(run_end(t, CharClass::Whitespace, 0))
}

/// End of the class-`k` run of `s` that starts at `i`.
pub fn scan_run_end(s: &[char], k: CharClass, i: usize) -> (r: usize)
    requires
        i <= s@.len(),
    ensures
        r == run_end(s@, k, i as int),
        i <= r <= s@.len(),
{
    let mut j = i;
    while j < s.len() && char_in_class(k, s[j])
        invariant
            i <= j <= s@.len(),
            run_end(s@, k, i as int) == run_end(s@, k, j as int),
        decreases s@.len() - j,
    {
        j = j + 1;
    }
    j
}

/// Start of the class-`k` run of `s` that ends at `e`.
pub fn scan_run_start(s: &[char], k: CharClass, e: usize) -> (r: usize)
    requires
        e <= s@.len(),
    ensures
        r == run_start(s@, k, e as int),
        r <= e,
{
    let mut j = e;
    while j > 0 && char_in_class(k, s[j - 1])
        invariant
            j <= e <= s@.len(),
            run_start(s@, k, e as int) == run_start(s@, k, j as int),
        decreases j,
    {
        j = j - 1;
    }
    j
}

/// Characters `s[from..to]`.
pub fn slice_chars(s: &[char], from: usize, to: usize) -> (r: Vec<char>)
    requires
        from <= to <= s@.len(),
    ensures
        r@ == s@.subrange(from as int, to as int),
{
    let mut r: Vec<char> = Vec::new();
    let mut i = from;
    while i < to
        invariant
            from <= i <= to <= s@.len(),
            r@ == s@.subrange(from as int, i as int),
        decreases to - i,
    {
        r.push(s[i]);
        assert(s@.subrange(from as int, i + 1) =~= s@.subrange(from as int, i as int).push(
            s@[i as int],
        ));
        i = i + 1;
    }
    r
}

/// `s` without leading and trailing whitespace.
pub fn trim_chars(s: &[char]) -> (r: Vec<char>)
    ensures
        r@ == trim(s@),
{
    let e = scan_run_start(s, CharClass::Whitespace, s.len());
    let t = slice_chars(s, 0, e);
    assert(t@ =~= s@.take(e as int));
    let b = scan_run_end(t.as_slice(), CharClass::Whitespace, 0);
    let r = slice_chars(t.as_slice(), b, t.len());
    assert(r@ =~= t@.skip(b as int));
    r
}

/// Keeps the class-`k` characters of `s`, in order.
pub open spec fn keep_class(s: Seq<char>, k: CharClass) -> Seq<char>
    decreases s.len(),
{
    if s.len() == 0 {
        Seq::empty()
    } else {
        let rest = keep_class(s.drop_last(), k);
        if in_class(k, s.last()) {
            rest.push(s.last())
        } else {
            rest
        }
    }
}

/// The class-`k` characters of `s`, in order (`filter`).
pub fn filter_class(s: &[char], k: CharClass) -> (r: Vec<char>)
    ensures
        r@ == keep_class(s@, k),
{
    let mut r: Vec<char> = Vec::new();
    let mut i: usize = 0;
    while i < s.len()
        invariant
            i <= s@.len(),
            r@ == keep_class(s@.take(i as int), k),
        decreases s@.len() - i,
    {
        assert(s@.take(i + 1).drop_last() =~= s@.take(i as int));
        if char_in_class(k, s[i]) {
            r.push(s[i]);
        }
        i = i + 1;
    }
    assert(s@.take(s@.len() as int) =~= s@);
    r
}

// ───────────────────────────── truncation ─────────────────────────────

/// Text of `s` cut to at most `max` bytes of UTF-8, with an ellipsis
/// appended when something was cut.
pub open spec fn truncated(s: Seq<char>, bytes: Seq<u8>, max: usize) -> Seq<char> {
    if bytes.len() <= max {
        s
    } else {
        decode_utf8(bytes.subrange(0, max as int)).push('\u{2026}')
    }
}

/// Shortens `s` to its first `max` bytes followed by "…", or returns it
/// whole when it is at most `max` bytes long. The cut must fall on a
/// character boundary.
pub fn truncate_str(s: &str, max: usize) -> (r: String)
    requires
        s.spec_bytes().len() <= usize::MAX,
        s.spec_bytes().len() <= max || is_char_boundary(s.spec_bytes(), max as int),
    ensures
        r@ == truncated(s@, s.spec_bytes(), max),
{
    if s.len() <= max {
        let v = chars_of(s);
        return string_of(v.as_slice());
    }
    let (head, _) = s.split_at(max);
    proof {
        vstd::utf8::encode_utf8_decode_utf8(head@);
        assert(head.spec_bytes() == vstd::utf8::encode_utf8(head@));
    }
    let v = chars_of(head);
    let mut r = string_of(v.as_slice());
    push_char(&mut r, '\u{2026}');
    r
}

} // verus!
