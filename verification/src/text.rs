//! Character-level helpers on strings: comparison, decimal rendering and
//! the small slicing operations the applet needs, each stated over the
//! strings' character sequences.

use vstd::prelude::*;
use vstd::string::StrSliceExecFns;
use vstd::string::StringExecFns;

verus! {

/// The character that writes the decimal digit `d`.
pub open spec fn digit_char(d: nat) -> char {
    if d == 0 {
        '0'
    } else if d == 1 {
        '1'
    } else if d == 2 {
        '2'
    } else if d == 3 {
        '3'
    } else if d == 4 {
        '4'
    } else if d == 5 {
        '5'
    } else if d == 6 {
        '6'
    } else if d == 7 {
        '7'
    } else if d == 8 {
        '8'
    } else {
        '9'
    }
}

/// The decimal representation of `n`, without leading zeros.
pub open spec fn decimal(n: nat) -> Seq<char>
    decreases n,
{
    if n < 10 {
        seq![digit_char(n)]
    } else {
        decimal(n / 10) + seq![digit_char(n % 10)]
    }
}

/// `c` is one of the digits `0` to `9`.
pub open spec fn is_digit(c: char) -> bool {
    48 <= (c as int) <= 57
}

/// The number that the digit string `s` writes in decimal.
pub open spec fn digits_value(s: Seq<char>) -> nat
    decreases s.len(),
{
    if s.len() == 0 {
        0
    } else {
        digits_value(s.drop_last()) * 10 + ((s.last() as int) - 48) as nat
    }
}

/// Lexicographic order on character sequences, comparing characters by
/// their scalar values; a proper prefix comes first.
pub open spec fn lex_le(a: Seq<char>, b: Seq<char>) -> bool
    decreases a.len(),
{
    if a.len() == 0 {
        true
    } else if b.len() == 0 {
        false
    } else if a[0] != b[0] {
        (a[0] as int) < (b[0] as int)
    } else {
        lex_le(a.drop_first(), b.drop_first())
    }
}

/// `s` without the run of `/` characters at its end.
pub open spec fn trim_trailing_slashes(s: Seq<char>) -> Seq<char>
    decreases s.len(),
{
    if s.len() > 0 && s.last() == '/' {
        trim_trailing_slashes(s.drop_last())
    } else {
        s
    }
}

/// The part of `s` after its last `/`; all of `s` when it holds none.
pub open spec fn after_last_slash(s: Seq<char>) -> Seq<char>
    decreases s.len(),
{
    if s.len() == 0 {
        s
    } else if s.last() == '/' {
        Seq::empty()
    } else {
        after_last_slash(s.drop_last()).push(s.last())
    }
}

proof fn lemma_digit_char(d: nat)
    requires
        d < 10,
    ensures
        (digit_char(d) as int) == 48 + d,
{
}

/// The decimal writing of `n` is a non-empty string of digits, without a
/// leading zero unless `n` is zero, that reads back as `n`.
pub proof fn lemma_decimal_reads_back(n: nat)
    ensures
        decimal(n).len() > 0,
        forall|i: int| 0 <= i < decimal(n).len() ==> is_digit(#[trigger] decimal(n)[i]),
        digits_value(decimal(n)) == n,
        decimal(n)[0] == '0' ==> n == 0,
    decreases n,
{
    if n < 10 {
        lemma_digit_char(n);
        let d = decimal(n);
        assert(d.drop_last() =~= Seq::<char>::empty());
        assert(digits_value(d.drop_last()) == 0);
        assert(digits_value(d) == digits_value(d.drop_last()) * 10 + ((d.last() as int) - 48) as nat);
    } else {
        lemma_decimal_reads_back(n / 10);
        lemma_digit_char(n % 10);
        let a = decimal(n / 10);
        let d = decimal(n);
        assert(d =~= a.push(digit_char(n % 10)));
        assert(d.drop_last() =~= a);
        assert(digits_value(d) == digits_value(a) * 10 + ((d.last() as int) - 48) as nat);
        assert((n / 10) * 10 + n % 10 == n);
        assert forall|i: int| 0 <= i < d.len() implies is_digit(#[trigger] d[i]) by {
            if i < a.len() {
                assert(d[i] == a[i]);
            }
        }
        assert(d[0] == a[0]);
    }
}

/// Any two sequences are ordered one way or the other.
pub proof fn lemma_lex_le_total(a: Seq<char>, b: Seq<char>)
    ensures
        lex_le(a, b) || lex_le(b, a),
    decreases a.len(),
{
    if a.len() > 0 && b.len() > 0 && a[0] == b[0] {
        lemma_lex_le_total(a.drop_first(), b.drop_first());
    }
}

/// The lexicographic order is transitive.
pub proof fn lemma_lex_le_transitive(a: Seq<char>, b: Seq<char>, c: Seq<char>)
    requires
        lex_le(a, b),
        lex_le(b, c),
    ensures
        lex_le(a, c),
    decreases a.len(),
{
    if a.len() > 0 && b.len() > 0 && c.len() > 0 && a[0] == b[0] && b[0] == c[0] {
        lemma_lex_le_transitive(a.drop_first(), b.drop_first(), c.drop_first());
    }
}

/// Trimming leaves no `/` at the end, and trimming again changes nothing;
/// so a path appended to a trimmed base follows it with exactly the
/// path's own slashes.
pub proof fn lemma_trim_trailing_slashes(s: Seq<char>)
    ensures
        trim_trailing_slashes(s).len() == 0 || trim_trailing_slashes(s).last() != '/',
        trim_trailing_slashes(trim_trailing_slashes(s)) == trim_trailing_slashes(s),
        trim_trailing_slashes(s).len() <= s.len(),
        trim_trailing_slashes(s) == s.take(trim_trailing_slashes(s).len() as int),
        forall|i: int|
            trim_trailing_slashes(s).len() <= i < s.len() ==> #[trigger] s[i] == '/',
    decreases s.len(),
{
    if s.len() > 0 && s.last() == '/' {
        lemma_trim_trailing_slashes(s.drop_last());
        let t = trim_trailing_slashes(s.drop_last());
        assert(s.drop_last().take(t.len() as int) =~= s.take(t.len() as int));
        assert forall|i: int| t.len() <= i < s.len() implies #[trigger] s[i] == '/' by {
            if i < s.len() - 1 {
                assert(s.drop_last()[i] == s[i]);
            }
        }
    } else {
        assert(s.take(s.len() as int) =~= s);
    }
}

/// The order is decided at the first position where the sequences differ,
/// by the characters' scalar values; when one is a prefix of the other,
/// the shorter comes first.
pub proof fn lemma_lex_le_decided(a: Seq<char>, b: Seq<char>, k: int)
    requires
        0 <= k <= a.len(),
        k <= b.len(),
        a.take(k) == b.take(k),
    ensures
        k == a.len() ==> lex_le(a, b),
        k < a.len() && k == b.len() ==> !lex_le(a, b),
        k < a.len() && k < b.len() && (a[k] as int) < (b[k] as int) ==> lex_le(a, b) && !lex_le(
            b,
            a,
        ),
    decreases k,
{
    if k > 0 {
        assert(a[0] == a.take(k)[0]);
        assert(b[0] == b.take(k)[0]);
        assert(a.drop_first().take(k - 1) =~= a.take(k).drop_first());
        assert(b.drop_first().take(k - 1) =~= b.take(k).drop_first());
        lemma_lex_le_decided(a.drop_first(), b.drop_first(), k - 1);
        if k < a.len() {
            assert(a.drop_first()[k - 1] == a[k]);
        }
        if k < b.len() {
            assert(b.drop_first()[k - 1] == b[k]);
        }
    }
}

/// The part after the last `/` is a suffix of `s` holding no `/`, and it is
/// either all of `s` or comes right after a `/`.
pub proof fn lemma_after_last_slash(s: Seq<char>)
    ensures
        after_last_slash(s).len() <= s.len(),
        after_last_slash(s) == s.skip(s.len() - after_last_slash(s).len()),
        forall|i: int|
            0 <= i < after_last_slash(s).len() ==> #[trigger] after_last_slash(s)[i] != '/',
        after_last_slash(s).len() == s.len() || s[s.len() - after_last_slash(s).len() - 1] == '/',
    decreases s.len(),
{
    if s.len() > 0 && s.last() != '/' {
        let r = s.drop_last();
        lemma_after_last_slash(r);
        let t = after_last_slash(r);
        assert(r.skip(r.len() - t.len()).push(s.last()) =~= s.skip(s.len() - t.len() - 1));
        assert forall|i: int| 0 <= i < t.len() + 1 implies #[trigger] t.push(s.last())[i] != '/' by {
            if i < t.len() {
                assert(t.push(s.last())[i] == t[i]);
            }
        }
        if t.len() < r.len() {
            assert(s[s.len() - t.len() - 2] == r[r.len() - t.len() - 1]);
        }
    } else if s.len() > 0 {
        assert(s.skip(s.len() as int) =~= Seq::<char>::empty());
    } else {
        assert(s.skip(0) =~= s);
    }
}

/// The one-character string that writes the digit `d`.
fn digit_str(d: u64) -> (r: &'static str)
    requires
        d < 10,
    ensures
        r@ == seq![digit_char(d as nat)],
{
    proof {
        reveal_strlit("0");
        reveal_strlit("1");
        reveal_strlit("2");
        reveal_strlit("3");
        reveal_strlit("4");
        reveal_strlit("5");
        reveal_strlit("6");
        reveal_strlit("7");
        reveal_strlit("8");
        reveal_strlit("9");
    }
    let r = if d == 0 {
        "0"
    } else if d == 1 {
        "1"
    } else if d == 2 {
        "2"
    } else if d == 3 {
        "3"
    } else if d == 4 {
        "4"
    } else if d == 5 {
        "5"
    } else if d == 6 {
        "6"
    } else if d == 7 {
        "7"
    } else if d == 8 {
        "8"
    } else {
        "9"
    };
    assert(r@ =~= seq![digit_char(d as nat)]);
    r
}

/// Renders `n` in decimal, as `format!("{}", n)` does.
pub fn decimal_string(n: u64) -> (s: String)
    ensures
        s@ == decimal(n as nat),
        s@.len() > 0,
        forall|i: int| 0 <= i < s@.len() ==> is_digit(#[trigger] s@[i]),
        digits_value(s@) == n,
        s@[0] == '0' ==> n == 0,
    decreases n,
{
    proof {
        lemma_decimal_reads_back(n as nat);
    }
    if n < 10 {
        String::from_str(digit_str(n))
    } else {
        let mut s = decimal_string(n / 10);
        s.append(digit_str(n % 10));
        s
    }
}

/// Whether two strings hold the same characters.
pub fn str_eq(a: &str, b: &str) -> (r: bool)
    ensures
        r == (a@ == b@),
{
    let la = a.unicode_len();
    let lb = b.unicode_len();
    if la != lb {
        return false;
    }
    let mut i: usize = 0;
    while i < la
        invariant
            la == a@.len(),
            lb == b@.len(),
            la == lb,
            i <= la,
            forall|j: int| 0 <= j < i ==> a@[j] == b@[j],
        decreases la - i,
    {
        let ca = a.get_char(i);
        let cb = b.get_char(i);
        if ca != cb {
            return false;
        }
        i = i + 1;
    }
    assert(a@ =~= b@);
    true
}

/// Whether `a` comes no later than `b` in lexicographic order.
pub fn str_le(a: &str, b: &str) -> (r: bool)
    ensures
        r == lex_le(a@, b@),
{
    let la = a.unicode_len();
    let lb = b.unicode_len();
    let mut i: usize = 0;
    assert(a@.skip(0) =~= a@);
    assert(b@.skip(0) =~= b@);
    while i < la && i < lb
        invariant
            la == a@.len(),
            lb == b@.len(),
            i <= la,
            i <= lb,
            lex_le(a@, b@) == lex_le(a@.skip(i as int), b@.skip(i as int)),
        decreases la - i,
    {
        let ca = a.get_char(i);
        let cb = b.get_char(i);
        let ghost sa = a@.skip(i as int);
        let ghost sb = b@.skip(i as int);
        assert(sa[0] == ca);
        assert(sb[0] == cb);
        if ca != cb {
            return (ca as u32) < (cb as u32);
        }
        assert(sa.drop_first() =~= a@.skip(i + 1));
        assert(sb.drop_first() =~= b@.skip(i + 1));
        i = i + 1;
    }
    i == la
}

/// Copies `s` without the `/` characters at its end.
pub fn trim_end_slashes(s: &str) -> (r: String)
    ensures
        r@ == trim_trailing_slashes(s@),
{
    let len = s.unicode_len();
    let mut j: usize = len;
    assert(s@.take(len as int) =~= s@);
    while j > 0 && s.get_char(j - 1) == '/'
        invariant
            len == s@.len(),
            j <= len,
            trim_trailing_slashes(s@) == trim_trailing_slashes(s@.take(j as int)),
        decreases j,
    {
        assert(s@.take(j as int).drop_last() =~= s@.take(j - 1));
        j = j - 1;
    }
    let t = s.substring_char(0, j);
    assert(t@ =~= s@.take(j as int));
    String::from_str(t)
}

/// Copies the part of `s` after its last `/`, or all of `s` when it has none;
/// the first piece that `s.rsplit('/')` yields.
pub fn last_path_segment(s: &str) -> (r: String)
    ensures
        r@ == after_last_slash(s@),
{
    let len = s.unicode_len();
    let mut j: usize = len;
    assert(s@.take(len as int) =~= s@);
    assert(s@.skip(len as int) =~= Seq::<char>::empty());
    assert(after_last_slash(s@) =~= after_last_slash(s@.take(len as int)) + s@.skip(len as int));
    while j > 0 && s.get_char(j - 1) != '/'
        invariant
            len == s@.len(),
            j <= len,
            after_last_slash(s@) == after_last_slash(s@.take(j as int)) + s@.skip(j as int),
        decreases j,
    {
        let ghost pre = s@.take(j as int);
        assert(pre.drop_last() =~= s@.take(j - 1));
        assert(pre.last() == s@[j - 1]);
        assert(after_last_slash(pre) == after_last_slash(s@.take(j - 1)).push(s@[j - 1]));
        assert(after_last_slash(s@.take(j - 1)).push(s@[j - 1]) + s@.skip(j as int)
            =~= after_last_slash(s@.take(j - 1)) + s@.skip(j - 1));
        j = j - 1;
    }
    if j > 0 {
        assert(s@.take(j as int).last() == s@[j - 1]);
        assert(after_last_slash(s@.take(j as int)) =~= Seq::<char>::empty());
    } else {
        assert(s@.take(0) =~= Seq::<char>::empty());
    }
    let t = s.substring_char(j, len);
    assert(t@ =~= s@.skip(j as int));
    assert(after_last_slash(s@) =~= t@);
    String::from_str(t)
}

} // verus!
