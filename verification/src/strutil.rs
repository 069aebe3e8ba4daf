//! Small verified string helpers: equality, whitespace trimming,
//! comma-splitting and decimal parsing, as needed by the index-file logic.

use vstd::prelude::*;

verus! {

/// Decimal digit test.
pub open spec fn is_dec_digit(c: char) -> bool {
    '0' <= c && c <= '9'
}

/// Numeric value of a sequence of decimal digits, most significant first.
pub open spec fn digits_val(s: Seq<char>) -> int
    decreases s.len(),
{
    if s.len() == 0 {
        0
    } else {
        digits_val(s.drop_last()) * 10 + (s.last() as int - '0' as int)
    }
}

/// All characters are decimal digits.
pub open spec fn all_digits(s: Seq<char>) -> bool {
    forall|i: int| 0 <= i < s.len() ==> is_dec_digit(#[trigger] s[i])
}

/// What `str::parse::<u16>` accepts: an optional leading `+`, then at least
/// one digit, with a value that fits in `u16`.
pub open spec fn spec_parse_u16(s: Seq<char>) -> Option<u16> {
    let t = if s.len() >= 1 && s[0] == '+' {
        s.subrange(1, s.len() as int)
    } else {
        s
    };
    if t.len() > 0 && all_digits(t) && digits_val(t) <= u16::MAX {
        Some(digits_val(t) as u16)
    } else {
        None
    }
}

proof fn lemma_digits_val_step(s: Seq<char>, i: int)
    requires
        0 <= i < s.len(),
    ensures
        digits_val(s.subrange(0, i + 1)) == digits_val(s.subrange(0, i)) * 10 + (s[i] as int
            - '0' as int),
{
    let pre = s.subrange(0, i + 1);
    assert(pre.drop_last() =~= s.subrange(0, i));
    assert(pre.last() == s[i]);
}

proof fn lemma_digits_val_prefix_mono(s: Seq<char>, i: int, j: int)
    requires
        0 <= i <= j <= s.len(),
        all_digits(s),
    ensures
        0 <= digits_val(s.subrange(0, i)) <= digits_val(s.subrange(0, j)),
    decreases j + i,
{
    if i > 0 {
        lemma_digits_val_prefix_mono(s, i - 1, i - 1);
        lemma_digits_val_step(s, i - 1);
    }
    if i < j {
        lemma_digits_val_prefix_mono(s, i, j - 1);
        lemma_digits_val_step(s, j - 1);
    }
}

/// String equality on the character level.
pub fn str_eq(a: &str, b: &str) -> (r: bool)
    ensures
        r == (a@ == b@),
{
    let an: usize = a.unicode_len();
    let bn: usize = b.unicode_len();
    if an != bn {
        assert(a@ != b@);
        return false;
    }
    let mut i: usize = 0;
    while i < an
        invariant
            an == a@.len(),
            an == b@.len(),
            0 <= i <= an,
            forall|k: int| 0 <= k < i ==> a@[k] == b@[k],
        decreases an - i,
    {
        if a.get_char(i) != b.get_char(i) {
            assert(a@ != b@);
            return false;
        }
        i = i + 1;
    }
    assert(a@ =~= b@);
    true
}

/// Parses a `u16` the way `str::parse::<u16>` does, yielding `None` where it
/// would yield an error.
pub fn parse_u16(s: &str) -> (r: Option<u16>)
    ensures
        r == spec_parse_u16(s@),
{
    let n: usize = s.unicode_len();
    let mut start: usize = 0;
    if n >= 1 && s.get_char(0) == '+' {
        start = 1;
    }
    let ghost t = if s@.len() >= 1 && s@[0] == '+' {
        s@.subrange(1, s@.len() as int)
    } else {
        s@
    };
    assert(t =~= s@.subrange(start as int, n as int));
    if start == n {
        return None;
    }
    let mut acc: u32 = 0;
    let mut i: usize = start;
    while i < n
        invariant
            n == s@.len(),
            start <= i <= n,
            start < n,
            t == s@.subrange(start as int, n as int),
            t == (if s@.len() >= 1 && s@[0] == '+' {
                s@.subrange(1, s@.len() as int)
            } else {
                s@
            }),
            all_digits(t.subrange(0, i - start)),
            acc == digits_val(t.subrange(0, i - start)),
            0 <= acc <= 65535,
        decreases n - i,
    {
        let c = s.get_char(i);
        if !('0' <= c && c <= '9') {
            assert(!is_dec_digit(t[i - start]));
            return None;
        }
        let d: u32 = (c as u32) - 48;
        proof {
            lemma_digits_val_step(t, i - start);
        }
        let next: u32 = acc * 10 + d;
        if next > 65535 {
            proof {
                if all_digits(t) {
                    lemma_digits_val_prefix_mono(t, i - start + 1, t.len() as int);
                    assert(t.subrange(0, t.len() as int) =~= t);
                }
            }
            return None;
        }
        acc = next;
        assert(t.subrange(0, i + 1 - start).drop_last() =~= t.subrange(0, i - start));
        i = i + 1;
    }
    assert(t.subrange(0, n - start) =~= t);
    Some(acc as u16)
}

/// The characters with the Unicode `White_Space` property, which is what
/// `str::trim` removes at either end.
pub open spec fn spec_space(c: char) -> bool {
    c == ' ' || c == '\t' || c == '\n' || c == '\r' || c == '\u{0B}' || c == '\u{0C}' || c
        == '\u{85}' || c == '\u{A0}' || c == '\u{1680}' || ('\u{2000}' <= c && c <= '\u{200A}') || c
        == '\u{2028}' || c == '\u{2029}' || c == '\u{202F}' || c == '\u{205F}' || c == '\u{3000}'
}

fn space(c: char) -> (r: bool)
    ensures
        r == spec_space(c),
{
    c == ' ' || c == '\t' || c == '\n' || c == '\r' || c == '\u{0B}' || c == '\u{0C}' || c
        == '\u{85}' || c == '\u{A0}' || c == '\u{1680}' || ('\u{2000}' <= c && c <= '\u{200A}') || c
        == '\u{2028}' || c == '\u{2029}' || c == '\u{202F}' || c == '\u{205F}' || c == '\u{3000}'
}

/// A string with its leading and trailing white space removed.
pub open spec fn spec_trim(s: Seq<char>) -> Seq<char>
    decreases s.len(),
{
    if s.len() > 0 && spec_space(s.first()) {
        spec_trim(s.drop_first())
    } else if s.len() > 0 && spec_space(s.last()) {
        spec_trim(s.drop_last())
    } else {
        s
    }
}

proof fn lemma_trim_window(s: Seq<char>, lo: int, hi: int)
    requires
        0 <= lo <= hi <= s.len(),
        forall|k: int| 0 <= k < lo ==> spec_space(#[trigger] s[k]),
        forall|k: int| hi <= k < s.len() ==> spec_space(#[trigger] s[k]),
        lo == hi || (!spec_space(s[lo]) && !spec_space(s[hi - 1])),
    ensures
        spec_trim(s) == s.subrange(lo, hi),
    decreases s.len(),
{
    if s.len() == 0 {
        assert(s.subrange(lo, hi) =~= s);
    } else if spec_space(s.first()) {
        let s2 = s.drop_first();
        if lo == hi && hi == 0 {
            lemma_trim_window(s2, 0, 0);
            assert(s.subrange(0, 0) =~= s2.subrange(0, 0));
        } else {
            assert(lo > 0);
            lemma_trim_window(s2, lo - 1, hi - 1);
            assert(s.subrange(lo, hi) =~= s2.subrange(lo - 1, hi - 1));
        }
    } else if spec_space(s.last()) {
        let s2 = s.drop_last();
        assert(hi < s.len());
        lemma_trim_window(s2, lo, hi);
        assert(s.subrange(lo, hi) =~= s2.subrange(lo, hi));
    } else {
        assert(lo == 0 && hi == s.len());
        assert(s.subrange(0, s.len() as int) =~= s);
    }
}

/// Trims white space from both ends, as `str::trim` does.
pub fn trim_str(s: &str) -> (r: String)
    ensures
        r@ == spec_trim(s@),
{
    let n: usize = s.unicode_len();
    let mut lo: usize = 0;
    while lo < n && space(s.get_char(lo))
        invariant
            n == s@.len(),
            0 <= lo <= n,
            forall|k: int| 0 <= k < lo ==> spec_space(#[trigger] s@[k]),
        decreases n - lo,
    {
        lo = lo + 1;
    }
    let mut hi: usize = n;
    while hi > lo && space(s.get_char(hi - 1))
        invariant
            n == s@.len(),
            lo <= hi <= n,
            forall|k: int| hi <= k < n ==> spec_space(#[trigger] s@[k]),
        decreases hi,
    {
        hi = hi - 1;
    }
    proof {
        lemma_trim_window(s@, lo as int, hi as int);
    }
    let part = s.substring_char(lo, hi);
    part.to_owned()
}

/// Index of the first comma, or the length where there is none.
pub open spec fn first_comma(s: Seq<char>) -> int
    decreases s.len(),
{
    if s.len() == 0 {
        0
    } else if s.first() == ',' {
        0
    } else {
        1 + first_comma(s.drop_first())
    }
}

proof fn lemma_first_comma_at(s: Seq<char>, i: int)
    requires
        0 <= i <= s.len(),
        forall|k: int| 0 <= k < i ==> s[k] != ',',
        i < s.len() ==> s[i] == ',',
    ensures
        first_comma(s) == if i < s.len() {
            i
        } else {
            s.len() as int
        },
    decreases s.len(),
{
    if s.len() > 0 && s.first() != ',' {
        lemma_first_comma_at(s.drop_first(), i - 1);
    }
}

/// The comma-separated parts of a string, each part trimmed — the parent
/// list format of the `Inherits` key.
pub open spec fn spec_split_trim(s: Seq<char>) -> Seq<Seq<char>>
    decreases s.len(),
{
    let i = first_comma(s);
    if 0 <= i < s.len() {
        seq![spec_trim(s.subrange(0, i))] + spec_split_trim(s.subrange(i + 1, s.len() as int))
    } else {
        seq![spec_trim(s)]
    }
}

/// The views of a vector of strings.
pub open spec fn strs_view(v: Seq<String>) -> Seq<Seq<char>> {
    Seq::new(v.len(), |i: int| v[i]@)
}

/// Splits on commas and trims each part, as the `Inherits` key asks.
pub fn split_trim_commas(s: &str) -> (r: Vec<String>)
    ensures
        strs_view(r@) == spec_split_trim(s@),
    decreases s@.len(),
{
    let n: usize = s.unicode_len();
    let mut i: usize = 0;
    while i < n && s.get_char(i) != ','
        invariant
            n == s@.len(),
            0 <= i <= n,
            forall|k: int| 0 <= k < i ==> s@[k] != ',',
        decreases n - i,
    {
        i = i + 1;
    }
    proof {
        lemma_first_comma_at(s@, i as int);
    }
    if i < n {
        let head = s.substring_char(0, i);
        let tail = s.substring_char(i + 1, n);
        let mut r: Vec<String> = Vec::new();
        r.push(trim_str(head));
        let mut rest = split_trim_commas(tail);
        r.append(&mut rest);
        proof {
            assert(strs_view(r@) =~= seq![spec_trim(s@.subrange(0, i as int))] + spec_split_trim(
                s@.subrange(i + 1, n as int),
            ));
        }
        r
    } else {
        let mut r: Vec<String> = Vec::new();
        r.push(trim_str(s));
        proof {
            assert(strs_view(r@) =~= seq![spec_trim(s@)]);
        }
        r
    }
}

/// Whether one of the strings in `v` has the characters of `s`.
pub open spec fn spec_contains_str(v: Seq<String>, s: Seq<char>) -> bool {
    exists|i: int| 0 <= i < v.len() && v[i]@ == s
}

/// Membership of a string in a vector is membership of its view in the
/// vector's views.
pub proof fn lemma_contains_str_view(v: Seq<String>, s: Seq<char>)
    ensures
        spec_contains_str(v, s) == strs_view(v).contains(s),
{
    if spec_contains_str(v, s) {
        let i = choose|i: int| 0 <= i < v.len() && v[i]@ == s;
        assert(strs_view(v)[i] == s);
    }
    if strs_view(v).contains(s) {
        let i = choose|i: int| 0 <= i < strs_view(v).len() && strs_view(v)[i] == s;
        assert(v[i]@ == s);
    }
}

pub fn contains_str(v: &Vec<String>, s: &str) -> (r: bool)
    ensures
        r == spec_contains_str(v@, s@),
{
    let n: usize = v.len();
    let mut i: usize = 0;
    while i < n
        invariant
            n == v@.len(),
            0 <= i <= n,
            forall|k: int| 0 <= k < i ==> v@[k]@ != s@,
        decreases n - i,
    {
        if str_eq(v[i].as_str(), s) {
            return true;
        }
        i = i + 1;
    }
    false
}

/// `a` with `"/" + b` appended: the path of an entry inside a directory.
pub open spec fn spec_path_join(a: Seq<char>, b: Seq<char>) -> Seq<char> {
    a + seq!['/'] + b
}

pub fn path_join(a: &str, b: &str) -> (r: String)
    ensures
        r@ == spec_path_join(a@, b@),
{
    let mut r = a.to_owned();
    r.append("/");
    r.append(b);
    proof {
        reveal_strlit("/");
        assert(r@ =~= a@ + seq!['/'] + b@);
    }
    r
}

} // verus!
