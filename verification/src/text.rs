//! Character and string helpers used by the completion engine and the
//! renderer: Unicode whitespace, prefix/substring tests over `&str`, and
//! decimal rendering of counters.

use vstd::prelude::*;

verus! {

/// The Unicode `White_Space` property, written out code point by code point.
/// This is the set that `str::trim`/`split_whitespace` go by.
pub open spec fn is_space_char(c: char) -> bool {
    ||| c == ' '
    ||| ('\u{09}' <= c && c <= '\u{0D}')
    ||| c == '\u{85}'
    ||| c == '\u{A0}'
    ||| c == '\u{1680}'
    ||| ('\u{2000}' <= c && c <= '\u{200A}')
    ||| c == '\u{2028}'
    ||| c == '\u{2029}'
    ||| c == '\u{202F}'
    ||| c == '\u{205F}'
    ||| c == '\u{3000}'
}

/// Executable test for [`is_space_char`].
pub fn is_space(c: char) -> (r: bool)
    ensures
        r == is_space_char(c),
{
    c == ' ' || ('\u{09}' <= c && c <= '\u{0D}') || c == '\u{85}' || c == '\u{A0}'
        || c == '\u{1680}' || ('\u{2000}' <= c && c <= '\u{200A}') || c == '\u{2028}'
        || c == '\u{2029}' || c == '\u{202F}' || c == '\u{205F}' || c == '\u{3000}'
}

/// The sequence with its leading whitespace removed.
pub open spec fn trim_start_spec(s: Seq<char>) -> Seq<char>
    decreases s.len(),
{
    if s.len() > 0 && is_space_char(s[0]) {
        trim_start_spec(s.drop_first())
    } else {
        s
    }
}

/// The maximal whitespace-free suffix of `s`.
pub open spec fn tail_run_spec(s: Seq<char>) -> Seq<char>
    decreases s.len(),
{
    if s.len() == 0 || is_space_char(s.last()) {
        Seq::empty()
    } else {
        tail_run_spec(s.drop_last()).push(s.last())
    }
}

/// The last whitespace-delimited token of `s` (empty if `s` holds no
/// non-whitespace character), as `split_whitespace().last()` returns it.
pub open spec fn last_token_spec(s: Seq<char>) -> Seq<char>
    decreases s.len(),
{
    if s.len() == 0 {
        Seq::empty()
    } else if is_space_char(s.last()) {
        last_token_spec(s.drop_last())
    } else {
        tail_run_spec(s)
    }
}

/// Whether `s` consists of whitespace alone (in particular, is empty).
pub open spec fn all_space(s: Seq<char>) -> bool {
    forall|i: int| 0 <= i < s.len() ==> is_space_char(#[trigger] s[i])
}

/// Whether `s` trims to the empty string.
pub fn is_blank(s: &str) -> (r: bool)
    ensures
        r == all_space(s@),
{
    let len = s.unicode_len();
    let mut i: usize = 0;
    while i < len
        invariant
            0 <= i <= len,
            len == s@.len(),
            forall|j: int| 0 <= j < i ==> is_space_char(#[trigger] s@[j]),
        decreases len - i,
    {
        if !is_space(s.get_char(i)) {
            return false;
        }
        i += 1;
    }
    true
}

/// Whether `needle` occurs contiguously inside `s`.
pub open spec fn contains_seq(s: Seq<char>, needle: Seq<char>) -> bool {
    exists|i: int|
        0 <= i && i + needle.len() <= s.len() && #[trigger] s.subrange(i, i + needle.len())
            == needle
}

/// Character-for-character equality of two string slices.
pub fn str_eq(a: &str, b: &str) -> (r: bool)
    ensures
        r == (a@ == b@),
{
    let alen = a.unicode_len();
    let blen = b.unicode_len();
    if alen != blen {
        assert(a@ != b@) by {
            assert(a@.len() != b@.len());
        }
        return false;
    }
    let mut i: usize = 0;
    while i < alen
        invariant
            0 <= i <= alen,
            alen == a@.len(),
            alen == b@.len(),
            forall|j: int| 0 <= j < i ==> a@[j] == b@[j],
        decreases alen - i,
    {
        if a.get_char(i) != b.get_char(i) {
            return false;
        }
        i += 1;
    }
    proof {
        assert(a@ =~= b@);
    }
    true
}

/// Whether `s` starts with `p`.
pub fn str_starts_with(s: &str, p: &str) -> (r: bool)
    ensures
        r == p@.is_prefix_of(s@),
{
    let slen = s.unicode_len();
    let plen = p.unicode_len();
    if plen > slen {
        return false;
    }
    let mut i: usize = 0;
    while i < plen
        invariant
            0 <= i <= plen,
            plen == p@.len(),
            slen == s@.len(),
            plen <= slen,
            forall|j: int| 0 <= j < i ==> s@[j] == p@[j],
        decreases plen - i,
    {
        if s.get_char(i) != p.get_char(i) {
            assert(!p@.is_prefix_of(s@)) by {
                assert(s@.subrange(0, p@.len() as int)[i as int] == s@[i as int]);
            }
            return false;
        }
        i += 1;
    }
    proof {
        assert(p@ =~= s@.subrange(0, p@.len() as int));
    }
    true
}

/// Whether `s` contains `needle` as a contiguous run of characters.
pub fn str_contains(s: &str, needle: &str) -> (r: bool)
    ensures
        r == contains_seq(s@, needle@),
{
    let slen = s.unicode_len();
    let nlen = needle.unicode_len();
    if nlen > slen {
        assert(!contains_seq(s@, needle@));
        return false;
    }
    if nlen == 0 {
        proof {
            assert(s@.subrange(0, 0 + needle@.len() as int) =~= needle@);
        }
        return true;
    }
    let mut i: usize = 0;
    while i <= slen - nlen
        invariant
            0 <= i,
            i <= slen - nlen + 1,
            1 <= nlen <= slen,
            slen == s@.len(),
            nlen == needle@.len(),
            forall|k: int|
                0 <= k < i ==> #[trigger] s@.subrange(k, k + needle@.len()) != needle@,
        decreases slen + 1 - i,
    {
        let mut j: usize = 0;
        let mut matched = true;
        while j < nlen && matched
            invariant
                0 <= j <= nlen,
                0 <= i,
                i + nlen <= slen,
                slen == s@.len(),
                nlen == needle@.len(),
                matched ==> forall|m: int| 0 <= m < j ==> s@[i + m] == needle@[m],
                !matched ==> s@.subrange(i as int, i + needle@.len()) != needle@,
            decreases nlen - j, (if matched { 1int } else { 0int }),
        {
            if s.get_char(i + j) != needle.get_char(j) {
                assert(s@.subrange(i as int, i + needle@.len())[j as int] == s@[i + j]);
                matched = false;
            } else {
                j += 1;
            }
        }
        if matched {
            proof {
                assert forall|m: int| 0 <= m < needle@.len() implies s@.subrange(
                    i as int,
                    i + needle@.len(),
                )[m] == needle@[m] by {
                    assert(s@[i + m] == needle@[m]);
                }
                assert(s@.subrange(i as int, i + needle@.len()) =~= needle@);
            }
            return true;
        }
        assert(s@.subrange(i as int, i + needle@.len()) != needle@);
        i += 1;
    }
    assert(!contains_seq(s@, needle@));
    false
}

proof fn lemma_trim_start_skip(s: Seq<char>, i: int)
    requires
        0 <= i <= s.len(),
        forall|j: int| 0 <= j < i ==> is_space_char(s[j]),
    ensures
        trim_start_spec(s) == trim_start_spec(s.subrange(i, s.len() as int)),
    decreases i,
{
    if i > 0 {
        assert(s.drop_first() =~= s.subrange(1, s.len() as int));
        lemma_trim_start_skip(s.drop_first(), i - 1);
        assert(s.drop_first().subrange(i - 1, s.drop_first().len() as int) =~= s.subrange(
            i,
            s.len() as int,
        ));
    } else {
        assert(s.subrange(0, s.len() as int) =~= s);
    }
}

/// The slice with its leading whitespace removed, as `str::trim_start`
/// returns it.
pub fn trim_start_str(s: &str) -> (r: &str)
    ensures
        r@ == trim_start_spec(s@),
{
    let len = s.unicode_len();
    let mut i: usize = 0;
    while i < len && is_space(s.get_char(i))
        invariant
            0 <= i <= len,
            len == s@.len(),
            forall|j: int| 0 <= j < i ==> is_space_char(s@[j]),
        decreases len - i,
    {
        i += 1;
    }
    proof {
        lemma_trim_start_skip(s@, i as int);
        let rest = s@.subrange(i as int, s@.len() as int);
        if rest.len() > 0 {
            assert(rest[0] == s@[i as int]);
            assert(!is_space_char(rest[0]));
        }
    }
    s.substring_char(i, len)
}

proof fn lemma_last_token_trim_end(s: Seq<char>, e: int)
    requires
        0 <= e <= s.len(),
        forall|j: int| e <= j < s.len() ==> is_space_char(s[j]),
    ensures
        last_token_spec(s) == last_token_spec(s.subrange(0, e)),
    decreases s.len() - e,
{
    if e < s.len() {
        assert(is_space_char(s.last()));
        assert(s.drop_last() =~= s.subrange(0, s.len() - 1));
        lemma_last_token_trim_end(s.subrange(0, s.len() - 1), e);
        assert(s.subrange(0, s.len() - 1).subrange(0, e) =~= s.subrange(0, e));
    } else {
        assert(s.subrange(0, e) =~= s);
    }
}

proof fn lemma_tail_run_slice(t: Seq<char>, b: int)
    requires
        0 <= b <= t.len(),
        forall|j: int| b <= j < t.len() ==> !is_space_char(t[j]),
        b > 0 ==> is_space_char(t[b - 1]),
    ensures
        tail_run_spec(t) == t.subrange(b, t.len() as int),
    decreases t.len(),
{
    if t.len() == 0 {
        assert(t.subrange(0, 0) =~= Seq::<char>::empty());
    } else if b == t.len() {
        if b > 0 {
            assert(is_space_char(t.last()));
        }
        assert(t.subrange(b, t.len() as int) =~= Seq::<char>::empty());
    } else {
        assert(!is_space_char(t.last()));
        assert(t.drop_last() =~= t.subrange(0, t.len() - 1));
        lemma_tail_run_slice(t.subrange(0, t.len() - 1), b);
        assert(t.subrange(0, t.len() - 1).subrange(b, t.len() - 1) =~= t.subrange(
            b,
            t.len() - 1,
        ));
        assert(t.subrange(b, t.len() - 1).push(t.last()) =~= t.subrange(b, t.len() as int));
    }
}

/// The last whitespace-delimited token of `s`, or the empty slice when `s`
/// holds no non-whitespace character.
pub fn last_token_str(s: &str) -> (r: &str)
    ensures
        r@ == last_token_spec(s@),
{
    let len = s.unicode_len();
    let mut e: usize = len;
    while e > 0 && is_space(s.get_char(e - 1))
        invariant
            0 <= e <= len,
            len == s@.len(),
            forall|j: int| e <= j < len ==> is_space_char(s@[j]),
        decreases e,
    {
        e -= 1;
    }
    let mut b: usize = e;
    while b > 0 && !is_space(s.get_char(b - 1))
        invariant
            0 <= b <= e <= len,
            len == s@.len(),
            forall|j: int| b <= j < e ==> !is_space_char(s@[j]),
        decreases b,
    {
        b -= 1;
    }
    proof {
        lemma_last_token_trim_end(s@, e as int);
        let t = s@.subrange(0, e as int);
        if t.len() > 0 {
            assert(!is_space_char(t.last()));
            assert(forall|j: int| b <= j < e ==> t[j] == s@[j]);
            if b > 0 {
                assert(t[b - 1] == s@[b - 1]);
            }
            lemma_tail_run_slice(t, b as int);
            assert(t.subrange(b as int, e as int) =~= s@.subrange(b as int, e as int));
        } else {
            assert(s@.subrange(b as int, e as int) =~= Seq::<char>::empty());
        }
    }
    s.substring_char(b, e)
}

/// The character `'0' + d` for a decimal digit `d`.
pub open spec fn digit_char(d: nat) -> char {
    if d == 0 {
        '0'
    } else if d == 1 {
        '1'
    } else if d == 2 {
        '2'
    } else if d == 3 {
        '3'
    } else if d == 4 {
        '4'
    } else if d == 5 {
        '5'
    } else if d == 6 {
        '6'
    } else if d == 7 {
        '7'
    } else if d == 8 {
        '8'
    } else {
        '9'
    }
}

/// The usual decimal rendering of `n`, most significant digit first.
pub open spec fn decimal_spec(n: nat) -> Seq<char>
    decreases n,
{
    if n < 10 {
        seq![digit_char(n)]
    } else {
        decimal_spec(n / 10).push(digit_char(n % 10))
    }
}

fn digit_str(d: usize) -> (r: &'static str)
    requires
        d < 10,
    ensures
        r@ == seq![digit_char(d as nat)],
{
    proof {
        reveal_strlit("0");
        reveal_strlit("1");
        reveal_strlit("2");
        reveal_strlit("3");
        reveal_strlit("4");
        reveal_strlit("5");
        reveal_strlit("6");
        reveal_strlit("7");
        reveal_strlit("8");
        reveal_strlit("9");
    }
    let r = if d == 0 {
        "0"
    } else if d == 1 {
        "1"
    } else if d == 2 {
        "2"
    } else if d == 3 {
        "3"
    } else if d == 4 {
        "4"
    } else if d == 5 {
        "5"
    } else if d == 6 {
        "6"
    } else if d == 7 {
        "7"
    } else if d == 8 {
        "8"
    } else {
        "9"
    };
    proof {
        assert(r@ =~= seq![digit_char(d as nat)]);
    }
    r
}

/// Renders `n` in decimal.
pub fn usize_to_string(n: usize) -> (r: String)
    ensures
        r@ == decimal_spec(n as nat),
    decreases n,
{
    if n < 10 {
        String::from_str(digit_str(n))
    } else {
        let mut r = usize_to_string(n / 10);
        r.append(digit_str(n % 10));
        proof {
            assert(decimal_spec((n / 10) as nat).push(digit_char((n % 10) as nat))
                =~= decimal_spec((n / 10) as nat) + seq![digit_char((n % 10) as nat)]);
        }
        r
    }
}

/// Pushing onto a vector appends its element's deep view.
pub proof fn lemma_vec_deep_view_push<T: DeepView>(a: Vec<T>, b: Vec<T>, x: T)
    requires
        b@ == a@.push(x),
    ensures
        b.deep_view() == a.deep_view().push(x.deep_view()),
{
    assert forall|j: int| 0 <= j < b@.len() implies b.deep_view()[j] == a.deep_view().push(
        x.deep_view(),
    )[j] by {
        assert(b.deep_view()[j] == b@[j].deep_view());
        if j < a@.len() {
            assert(a.deep_view()[j] == a@[j].deep_view());
        }
    }
    assert(b.deep_view() =~= a.deep_view().push(x.deep_view()));
}

/// Concatenating two vectors concatenates their deep views.
pub proof fn lemma_vec_deep_view_concat<T: DeepView>(a: Vec<T>, b: Vec<T>, c: Vec<T>)
    requires
        c@ == a@ + b@,
    ensures
        c.deep_view() == a.deep_view() + b.deep_view(),
{
    assert forall|j: int| 0 <= j < c@.len() implies c.deep_view()[j] == (a.deep_view()
        + b.deep_view())[j] by {
        assert(c.deep_view()[j] == c@[j].deep_view());
        if j < a@.len() {
            assert(c@[j] == a@[j]);
            assert(a.deep_view()[j] == a@[j].deep_view());
        } else {
            assert(c@[j] == b@[j - a@.len()]);
            assert(b.deep_view()[j - a@.len()] == b@[j - a@.len()].deep_view());
        }
    }
    assert(c.deep_view() =~= a.deep_view() + b.deep_view());
}

/// Relies on `String::push`: appends one character at the end.
#[verifier::external_body]
pub fn push_char(s: &mut String, c: char)
    ensures
        final(s)@ == old(s)@.push(c),
{
    s.push(c)
}

} // verus!
