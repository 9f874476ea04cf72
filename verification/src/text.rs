//! Character-level text utilities: decimal digits, whitespace trimming and
//! line-break collapsing, shared by the date parsers and the field dispatcher.

use vstd::prelude::*;

verus! {

/// An ASCII decimal digit, `'0'` through `'9'`.
pub open spec fn is_dec_digit(c: char) -> bool {
    0x30 <= c as u32 && c as u32 <= 0x39
}

/// The numeric value of a decimal digit.
pub open spec fn digit_val(c: char) -> int {
    c as u32 - 0x30
}

/// The characters with the Unicode `White_Space` property, the set that
/// `str::trim` strips; it holds the ideographic space U+3000 common on the
/// pages this library reads.
pub open spec fn is_space_char(c: char) -> bool {
    let u = c as u32;
    (0x09 <= u && u <= 0x0D) || u == 0x20 || u == 0x85 || u == 0xA0 || u == 0x1680
        || (0x2000 <= u && u <= 0x200A) || u == 0x2028 || u == 0x2029 || u == 0x202F
        || u == 0x205F || u == 0x3000
}

/// `s` with its leading whitespace removed.
pub open spec fn trim_front(s: Seq<char>) -> Seq<char>
    decreases s.len(),
{
    if s.len() > 0 && is_space_char(s[0]) {
        trim_front(s.drop_first())
    } else {
        s
    }
}

/// `s` with its trailing whitespace removed.
pub open spec fn trim_back(s: Seq<char>) -> Seq<char>
    decreases s.len(),
{
    if s.len() > 0 && is_space_char(s.last()) {
        trim_back(s.drop_last())
    } else {
        s
    }
}

/// `s` with leading and trailing whitespace removed, as `str::trim` leaves it.
pub open spec fn trim_spec(s: Seq<char>) -> Seq<char> {
    trim_back(trim_front(s))
}

/// Executable decimal-digit test.
pub fn dec_digit(c: char) -> (b: bool)
    ensures
        b == is_dec_digit(c),
{
    let u = c as u32;
    0x30 <= u && u <= 0x39
}

/// Executable whitespace test.
pub fn space_char(c: char) -> (b: bool)
    ensures
        b == is_space_char(c),
{
    let u = c as u32;
    (0x09 <= u && u <= 0x0D) || u == 0x20 || u == 0x85 || u == 0xA0 || u == 0x1680
        || (0x2000 <= u && u <= 0x200A) || u == 0x2028 || u == 0x2029 || u == 0x202F
        || u == 0x205F || u == 0x3000
}

/// The characters of `s`, one per sequence position.
pub fn chars_vec(s: &str) -> (v: Vec<char>)
    ensures
        v@ == s@,
{
    let n = s.unicode_len();
    let mut v: Vec<char> = Vec::new();
    let mut i: usize = 0;
    while i < n
        invariant
            n == s@.len(),
            i <= n,
            v@ == s@.take(i as int),
        decreases n - i,
    {
        let c = s.get_char(i);
        v.push(c);
        proof {
            assert(v@ =~= s@.take(i + 1 as int));
        }
        i = i + 1;
    }
    proof {
        assert(v@ =~= s@);
    }
    v
}

/// Character-wise string equality.
pub fn str_eq(a: &str, b: &str) -> (r: bool)
    ensures
        r == (a@ == b@),
{
    let n = a.unicode_len();
    let m = b.unicode_len();
    if n != m {
        proof {
            if a@ == b@ {
                assert(a@.len() == b@.len());
            }
        }
        return false;
    }
    let mut i: usize = 0;
    while i < n
        invariant
            n == a@.len(),
            n == b@.len(),
            i <= n,
            forall|k: int| 0 <= k < i ==> a@[k] == b@[k],
        decreases n - i,
    {
        if a.get_char(i) != b.get_char(i) {
            return false;
        }
        i = i + 1;
    }
    proof {
        assert(a@ =~= b@);
    }
    true
}

/// Relies on std's `String::push`: appends exactly the one character to
/// the end of the string.
#[verifier::external_body]
fn push_char(s: &mut String, c: char)
    ensures
        final(s)@ == old(s)@.push(c),
{
    s.push(c);
}

/// The characters of `v`, as an owned string.
pub fn chars_string(v: &Vec<char>) -> (r: String)
    ensures
        r@ == v@,
{
    let mut r = String::new();
    let mut i: usize = 0;
    while i < v.len()
        invariant
            i <= v@.len(),
            r@ == v@.take(i as int),
        decreases v@.len() - i,
    {
        push_char(&mut r, v[i]);
        proof {
            assert(r@ =~= v@.take(i + 1 as int));
        }
        i = i + 1;
    }
    proof {
        assert(r@ =~= v@);
    }
    r
}

proof fn lemma_trim_front_is_skip(s: Seq<char>, i: int)
    requires
        0 <= i <= s.len(),
        forall|k: int| 0 <= k < i ==> is_space_char(s[k]),
        i == s.len() || !is_space_char(s[i]),
    ensures
        trim_front(s) == s.skip(i),
    decreases i,
{
    if i == 0 {
        assert(s.skip(0) =~= s);
    } else {
        lemma_trim_front_is_skip(s.drop_first(), i - 1);
        assert(s.drop_first().skip(i - 1) =~= s.skip(i));
    }
}

proof fn lemma_trim_back_is_take(s: Seq<char>, j: int)
    requires
        0 <= j <= s.len(),
        forall|k: int| j <= k < s.len() ==> is_space_char(s[k]),
        j == 0 || !is_space_char(s[j - 1]),
    ensures
        trim_back(s) == s.take(j),
    decreases s.len() - j,
{
    if j == s.len() {
        if s.len() > 0 && is_space_char(s.last()) {
            lemma_trim_back_is_take(s.drop_last(), j - 1);
            assert(s.drop_last().take(j - 1) =~= s.take(j - 1));
            assert(s.take(j) =~= s);
        } else {
            assert(s.take(j) =~= s);
        }
    } else {
        lemma_trim_back_is_take(s.drop_last(), j);
        assert(s.drop_last().take(j) =~= s.take(j));
    }
}

/// The characters of `v` with leading and trailing whitespace removed.
pub fn trim_chars(v: &Vec<char>) -> (r: Vec<char>)
    ensures
        r@ == trim_spec(v@),
{
    let n = v.len();
    let mut i: usize = 0;
    while i < n && space_char(v[i])
        invariant
            n == v@.len(),
            i <= n,
            forall|k: int| 0 <= k < i ==> is_space_char(v@[k]),
        decreases n - i,
    {
        i = i + 1;
    }
    proof {
        lemma_trim_front_is_skip(v@, i as int);
    }
    let mut j: usize = n;
    while j > i && space_char(v[j - 1])
        invariant
            n == v@.len(),
            i <= j <= n,
            forall|k: int| 0 <= k < i ==> is_space_char(v@[k]),
            i == n || !is_space_char(v@[i as int]),
            forall|k: int| j <= k < n ==> is_space_char(v@[k]),
        decreases j,
    {
        j = j - 1;
    }
    proof {
        let f = v@.skip(i as int);
        lemma_trim_back_is_take(f, j - i);
        assert(f.take(j - i) =~= v@.subrange(i as int, j as int));
    }
    let mut r: Vec<char> = Vec::new();
    let mut k: usize = i;
    while k < j
        invariant
            i <= k <= j <= n,
            n == v@.len(),
            r@ == v@.subrange(i as int, k as int),
        decreases j - k,
    {
        r.push(v[k]);
        proof {
            assert(r@ =~= v@.subrange(i as int, k + 1 as int));
        }
        k = k + 1;
    }
    r
}

/// Index of the first occurrence of `c` in `s`, or `-1` when `c` is absent.
pub open spec fn find_char(s: Seq<char>, c: char) -> int
    decreases s.len(),
{
    if s.len() == 0 {
        -1
    } else if s[0] == c {
        0
    } else {
        let r = find_char(s.drop_first(), c);
        if r < 0 {
            -1
        } else {
            r + 1
        }
    }
}

proof fn lemma_find_char_at(s: Seq<char>, c: char, i: int)
    requires
        0 <= i <= s.len(),
        forall|k: int| 0 <= k < i ==> s[k] != c,
        i == s.len() || s[i] == c,
    ensures
        find_char(s, c) == if i == s.len() {
            -1
        } else {
            i
        },
    decreases i,
{
    if s.len() == 0 {
    } else if i == 0 {
    } else {
        lemma_find_char_at(s.drop_first(), c, i - 1);
    }
}

/// `s` with every line trimmed and the line breaks removed: the
/// concatenation of the trimmed `'\n'`-separated pieces of `s`.
pub open spec fn collapse_lines(s: Seq<char>) -> Seq<char>
    decreases s.len(),
{
    let i = find_char(s, '\n');
    if 0 <= i < s.len() {
        trim_spec(s.take(i)) + collapse_lines(s.skip(i + 1))
    } else {
        trim_spec(s)
    }
}

proof fn lemma_collapse_lines_step(pre: Seq<char>, rest: Seq<char>)
    requires
        forall|k: int| 0 <= k < pre.len() ==> pre[k] != '\n',
    ensures
        collapse_lines(pre + seq!['\n'] + rest) == trim_spec(pre) + collapse_lines(rest),
{
    let s = pre + seq!['\n'] + rest;
    assert(forall|k: int| 0 <= k < pre.len() ==> s[k] != '\n');
    assert(s[pre.len() as int] == '\n');
    lemma_find_char_at(s, '\n', pre.len() as int);
    assert(s.take(pre.len() as int) =~= pre);
    assert(s.skip(pre.len() as int + 1) =~= rest);
}

proof fn lemma_collapse_lines_whole(s: Seq<char>)
    requires
        forall|k: int| 0 <= k < s.len() ==> s[k] != '\n',
    ensures
        collapse_lines(s) == trim_spec(s),
{
    lemma_find_char_at(s, '\n', s.len() as int);
}

/// The characters of `v` with each line trimmed and the breaks dropped,
/// as `s.lines().map(str::trim).collect::<String>()` leaves a string
/// (a trailing `'\r'` on a line is whitespace, so trimming covers it).
pub fn collapse_line_breaks(v: &Vec<char>) -> (r: Vec<char>)
    ensures
        r@ == collapse_lines(v@),
{
    let n = v.len();
    let mut out: Vec<char> = Vec::new();
    let mut cur: Vec<char> = Vec::new();
    let mut k: usize = 0;
    proof {
        assert(cur@ + v@.skip(0) =~= v@);
        assert(out@ + collapse_lines(v@) =~= collapse_lines(v@));
    }
    while k < n
        invariant
            n == v@.len(),
            k <= n,
            forall|t: int| 0 <= t < cur@.len() ==> cur@[t] != '\n',
            collapse_lines(v@) == out@ + collapse_lines(cur@ + v@.skip(k as int)),
        decreases n - k,
    {
        let c = v[k];
        if c == '\n' {
            proof {
                assert(cur@ + v@.skip(k as int) =~= cur@ + seq!['\n'] + v@.skip(k + 1));
                lemma_collapse_lines_step(cur@, v@.skip(k + 1));
            }
            let ghost old_out = out@;
            let ghost old_cur = cur@;
            let mut piece = trim_chars(&cur);
            out.append(&mut piece);
            cur = Vec::new();
            proof {
                assert(cur@ + v@.skip(k + 1) =~= v@.skip(k + 1));
                assert(out@ + collapse_lines(v@.skip(k + 1)) =~= old_out + (trim_spec(old_cur)
                    + collapse_lines(v@.skip(k + 1))));
            }
        } else {
            let ghost old_cur = cur@;
            proof {
                assert(old_cur + v@.skip(k as int) =~= (old_cur + seq![v@[k as int]]) + v@.skip(
                    k + 1,
                ));
            }
            cur.push(c);
            proof {
                assert(cur@ =~= old_cur + seq![v@[k as int]]);
            }
        }
        k = k + 1;
    }
    proof {
        assert(cur@ + v@.skip(n as int) =~= cur@);
        lemma_collapse_lines_whole(cur@);
    }
    let mut piece = trim_chars(&cur);
    out.append(&mut piece);
    proof {
        assert(out@ =~= collapse_lines(v@));
    }
    out
}

/// The number a string of decimal digits denotes, most significant first.
pub open spec fn dec_val(s: Seq<char>) -> int
    decreases s.len(),
{
    if s.len() == 0 {
        0
    } else {
        dec_val(s.drop_last()) * 10 + digit_val(s.last())
    }
}

pub proof fn lemma_dec_val_nonneg(s: Seq<char>)
    requires
        forall|k: int| 0 <= k < s.len() ==> is_dec_digit(s[k]),
    ensures
        dec_val(s) >= 0,
    decreases s.len(),
{
    if s.len() > 0 {
        lemma_dec_val_nonneg(s.drop_last());
    }
}

/// Powers of ten.
pub open spec fn pow10(n: nat) -> int
    decreases n,
{
    if n == 0 {
        1
    } else {
        10 * pow10((n - 1) as nat)
    }
}

/// A digit string of length `n` denotes a value below `10^n`.
pub proof fn lemma_dec_val_bound(s: Seq<char>)
    requires
        forall|k: int| 0 <= k < s.len() ==> is_dec_digit(s[k]),
    ensures
        0 <= dec_val(s) < pow10(s.len()),
    decreases s.len(),
{
    if s.len() > 0 {
        let d = s.drop_last();
        assert(forall|k: int| 0 <= k < d.len() ==> #[trigger] is_dec_digit(d[k]));
        lemma_dec_val_bound(d);
        assert(is_dec_digit(s.last()));
        assert(pow10(s.len()) == 10 * pow10(d.len()));
    }
}

/// A digit string of at most four characters denotes at most 9999.
pub proof fn lemma_dec_val_bound4(s: Seq<char>)
    requires
        forall|k: int| 0 <= k < s.len() ==> is_dec_digit(s[k]),
        s.len() <= 4,
    ensures
        0 <= dec_val(s) <= 9999,
{
    lemma_dec_val_bound(s);
    assert(pow10(0) == 1);
    assert(pow10(1) == 10);
    assert(pow10(2) == 100);
    assert(pow10(3) == 1000);
    assert(pow10(4) == 10000);
}

proof fn lemma_dec_val_prefix_le(s: Seq<char>, i: int)
    requires
        forall|k: int| 0 <= k < s.len() ==> is_dec_digit(s[k]),
        0 <= i <= s.len(),
    ensures
        dec_val(s.take(i)) <= dec_val(s),
    decreases s.len() - i,
{
    if i == s.len() {
        assert(s.take(i) =~= s);
    } else {
        lemma_dec_val_prefix_le(s, i + 1);
        let t = s.take(i + 1);
        assert(t.drop_last() =~= s.take(i));
        lemma_dec_val_nonneg(s.take(i));
    }
}

/// The value of the digit characters `v[a..b]`, or `None` when the group is
/// empty, not all digits, or too large for `usize`.
pub open spec fn group_val(s: Seq<char>, a: int, b: int) -> Option<int> {
    let g = s.subrange(a, b);
    if a < b && (forall|k: int| a <= k < b ==> is_dec_digit(s[k])) && dec_val(g) <= usize::MAX {
        Some(dec_val(g))
    } else {
        None
    }
}

/// Parses the digit group `v[a..b]` as a decimal number, watching for
/// `usize` overflow.
pub fn parse_digit_group(v: &Vec<char>, a: usize, b: usize) -> (r: Option<usize>)
    requires
        a <= b <= v@.len(),
    ensures
        r matches Some(n) ==> group_val(v@, a as int, b as int) == Some(n as int),
        r is None ==> group_val(v@, a as int, b as int) is None,
{
    if a == b {
        return None;
    }
    let ghost g = v@.subrange(a as int, b as int);
    let mut acc: usize = 0;
    let mut i: usize = a;
    while i < b
        invariant
            a <= i <= b <= v@.len(),
            g == v@.subrange(a as int, b as int),
            forall|k: int| a <= k < i ==> is_dec_digit(v@[k]),
            acc as int == dec_val(g.take(i - a)),
        decreases b - i,
    {
        let c = v[i];
        if !dec_digit(c) {
            return None;
        }
        let d = (c as u32 - 0x30) as usize;
        proof {
            assert(g.take(i - a + 1).drop_last() =~= g.take(i - a));
            assert(g.take(i - a + 1).last() == v@[i as int]);
        }
        if acc > (usize::MAX - d) / 10 {
            proof {
                if forall|k: int| a <= k < b ==> is_dec_digit(#[trigger] v@[k]) {
                    assert(forall|k: int| 0 <= k < g.len() ==> is_dec_digit(#[trigger] g[k]));
                    assert(acc * 10 + d > usize::MAX) by (nonlinear_arith)
                        requires
                            acc > (usize::MAX - d) / 10,
                            0 <= d <= 9,
                            acc >= 0,
                    ;
                    assert(dec_val(g.take(i - a + 1)) == acc * 10 + d);
                    lemma_dec_val_prefix_le(g, i - a + 1);
                    assert(dec_val(g) > usize::MAX);
                }
            }
            return None;
        }
        proof {
            assert(acc * 10 + d <= usize::MAX) by (nonlinear_arith)
                requires
                    acc <= (usize::MAX - d) / 10,
                    0 <= d <= 9,
                    acc >= 0,
            ;
        }
        acc = acc * 10 + d;
        i = i + 1;
    }
    proof {
        assert(g.take(b - a) =~= g);
    }
    Some(acc)
}

/// The decimal digit character for a value below ten.
pub open spec fn digit_char(d: int) -> char {
    (0x30 + d) as u8 as char
}

/// The decimal notation of `n`, most significant digit first, no leading
/// zeros (a single `'0'` for zero).
pub open spec fn dec_str(n: int) -> Seq<char>
    decreases n,
{
    if n < 10 {
        seq![digit_char(n)]
    } else {
        dec_str(n / 10).push(digit_char(n % 10))
    }
}

/// Appends the decimal notation of `n` to `out`.
pub fn push_dec(out: &mut Vec<char>, n: usize)
    ensures
        final(out)@ == old(out)@ + dec_str(n as int),
    decreases n,
{
    if n < 10 {
        let c = (0x30 + n as u8) as char;
        out.push(c);
        proof {
            assert(out@ =~= old(out)@ + dec_str(n as int));
        }
    } else {
        push_dec(out, n / 10);
        let c = (0x30 + (n % 10) as u8) as char;
        out.push(c);
        proof {
            assert(out@ =~= old(out)@ + dec_str(n as int));
        }
    }
}

/// Appends the decimal notation of `n` to a string.
pub fn append_dec(s: &mut String, n: usize)
    ensures
        final(s)@ == old(s)@ + dec_str(n as int),
{
    let mut digits: Vec<char> = Vec::new();
    push_dec(&mut digits, n);
    let d = chars_string(&digits);
    s.append(d.as_str());
}

} // verus!
