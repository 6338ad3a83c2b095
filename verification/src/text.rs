//! Character-level helpers shared by the parsers and formatters.
use vstd::prelude::*;

verus! {

/// `String::push` appends one character.
pub assume_specification[ String::push ](s: &mut String, ch: char)
    ensures
        final(s)@ == old(s)@.push(ch),
;

/// `String::push_str` appends a string slice.
pub assume_specification[ String::push_str ](s: &mut String, string: &str)
    ensures
        final(s)@ == old(s)@ + string@,
;

/// Each line followed by a newline, all concatenated.
pub open spec fn join_nl(ls: Seq<Seq<char>>) -> Seq<char>
    decreases ls.len(),
{
    if ls.len() == 0 {
        Seq::empty()
    } else {
        join_nl(ls.drop_last()) + ls.last().push('\n')
    }
}

/// `ls.join("\n") + "\n"`: the lines of a file written back.
pub open spec fn file_text(ls: Seq<Seq<char>>) -> Seq<char> {
    if ls.len() == 0 {
        seq!['\n']
    } else {
        join_nl(ls)
    }
}

/// Write lines back as file text, each line followed by a newline (a lone
/// newline when there are no lines).
pub fn join_lines(ls: &Vec<String>) -> (s: String)
    ensures
        s@ == file_text(ls.deep_view()),
{
    let mut s = String::new();
    let mut i: usize = 0;
    while i < ls.len()
        invariant
            i <= ls.len(),
            s@ == join_nl(ls.deep_view().take(i as int)),
        decreases ls.len() - i,
    {
        s.push_str(ls[i].as_str());
        s.push('\n');
        assert(ls.deep_view().take(i + 1).drop_last() =~= ls.deep_view().take(i as int));
        i = i + 1;
    }
    assert(ls.deep_view().take(ls.len() as int) =~= ls.deep_view());
    if ls.len() == 0 {
        s.push('\n');
        assert(s@ =~= seq!['\n']);
    }
    s
}

/// `s` without its trailing `'\n'` characters (`trim_end_matches('\n')`).
pub open spec fn trim_nl(s: Seq<char>) -> Seq<char>
    decreases s.len(),
{
    if s.len() > 0 && s.last() == '\n' {
        trim_nl(s.drop_last())
    } else {
        s
    }
}

/// Remove the trailing newlines of `s`.
pub fn trim_newlines(s: &str) -> (t: String)
    ensures
        t@ == trim_nl(s@),
{
    let v = chars_of(s);
    let mut e = v.len();
    assert(v@.take(v.len() as int) =~= v@);
    while e > 0 && v[e - 1] == '\n'
        invariant
            e <= v.len(),
            trim_nl(v@) == trim_nl(v@.take(e as int)),
        decreases e,
    {
        assert(v@.take(e as int).drop_last() =~= v@.take(e - 1));
        e = e - 1;
    }
    assert(v@.take(v.len() as int) =~= v@);
    assert(v@.take(e as int) =~= v@.subrange(0, e as int));
    string_of(&v, 0, e)
}

/// The decimal digit for `d` (0 to 9).
pub open spec fn digit_char(d: int) -> char {
    (48 + d) as char
}

/// Decimal digits of `n`, most significant first.
pub open spec fn dec_digits(n: nat) -> Seq<char>
    decreases n,
{
    if n < 10 {
        seq![digit_char(n as int)]
    } else {
        dec_digits(n / 10).push(digit_char((n % 10) as int))
    }
}

/// `k` zeros (none when `k` is not positive).
pub open spec fn zeros(k: int) -> Seq<char> {
    Seq::new(if k > 0 { k as nat } else { 0 }, |_i: int| '0')
}

/// `n` in decimal, zero-padded to at least `w` characters, sign included
/// (what `format!("{:0w$}", n)` writes).
pub open spec fn padded(n: int, w: int) -> Seq<char> {
    if n < 0 {
        seq!['-'] + zeros(w - 1 - dec_digits((-n) as nat).len()) + dec_digits((-n) as nat)
    } else {
        zeros(w - dec_digits(n as nat).len()) + dec_digits(n as nat)
    }
}

fn digit(d: u64) -> (c: char)
    requires
        d < 10,
    ensures
        c == digit_char(d as int),
{
    let b: u8 = 48u8 + (d as u8);
    b as char
}

/// The decimal digits of `mag`.
fn decimal_digits(mag: u128) -> (ds: Vec<char>)
    ensures
        ds@ == dec_digits(mag as nat),
{
    let ghost orig = mag as nat;
    let mut m = mag;
    let mut ds: Vec<char> = Vec::new();
    while m >= 10
        invariant
            dec_digits(orig) == dec_digits(m as nat) + ds@,
        decreases m,
    {
        let ghost prev = ds@;
        ds.insert(0, digit((m % 10) as u64));
        assert(dec_digits(m as nat) == dec_digits((m / 10) as nat).push(digit_char((m % 10) as int)));
        assert(dec_digits(m as nat) + prev =~= dec_digits((m / 10) as nat) + ds@);
        m = m / 10;
    }
    ds.insert(0, digit(m as u64));
    assert(dec_digits(orig) =~= ds@);
    ds
}

/// Append `n` in decimal.
pub fn push_decimal(s: &mut String, n: u64)
    ensures
        final(s)@ == old(s)@ + dec_digits(n as nat),
{
    push_decimal_wide(s, n as u128);
}

/// Append `n` in decimal.
pub fn push_decimal_wide(s: &mut String, n: u128)
    ensures
        final(s)@ == old(s)@ + dec_digits(n as nat),
{
    let ds = decimal_digits(n);
    let ghost start = s@;
    let mut i: usize = 0;
    while i < ds.len()
        invariant
            i <= ds.len(),
            s@ == start + ds@.take(i as int),
        decreases ds.len() - i,
    {
        s.push(ds[i]);
        assert(ds@.take(i + 1) =~= ds@.take(i as int).push(ds@[i as int]));
        i = i + 1;
    }
    assert(ds@.take(ds.len() as int) =~= ds@);
}

/// `a` followed by `b`.
pub fn concat2(a: &str, b: &str) -> (s: String)
    ensures
        s@ == a@ + b@,
{
    let mut s = String::new();
    s.push_str(a);
    s.push_str(b);
    assert(s@ =~= a@ + b@);
    s
}

/// `a`, `b` and `c` one after another.
pub fn concat3(a: &str, b: &str, c: &str) -> (s: String)
    ensures
        s@ == a@ + b@ + c@,
{
    let mut s = String::new();
    s.push_str(a);
    s.push_str(b);
    s.push_str(c);
    assert(s@ =~= a@ + b@ + c@);
    s
}

/// Append `n` in decimal, zero-padded to at least `width` characters.
pub fn push_padded(s: &mut String, n: i64, width: usize)
    ensures
        final(s)@ == old(s)@ + padded(n as int, width as int),
{
    let neg = n < 0;
    let mag: u64 = if neg {
        (-(n as i128)) as u64
    } else {
        n as u64
    };
    let ghost orig = mag as nat;
    let ds = decimal_digits(mag as u128);
    let sign: usize = if neg {
        1
    } else {
        0
    };
    let pad: usize = if width > sign && width - sign > ds.len() {
        width - sign - ds.len()
    } else {
        0
    };
    if neg {
        s.push('-');
    }
    let ghost start = s@;
    let mut k: usize = 0;
    while k < pad
        invariant
            k <= pad,
            s@ == start + zeros(k as int),
        decreases pad - k,
    {
        s.push('0');
        assert(zeros(k + 1) =~= zeros(k as int).push('0'));
        k = k + 1;
    }
    let mut i: usize = 0;
    let ghost mid = s@;
    while i < ds.len()
        invariant
            i <= ds.len(),
            s@ == mid + ds@.take(i as int),
        decreases ds.len() - i,
    {
        s.push(ds[i]);
        assert(ds@.take(i + 1) =~= ds@.take(i as int).push(ds@[i as int]));
        i = i + 1;
    }
    assert(ds@.take(ds.len() as int) =~= ds@);
    proof {
        if neg {
            assert((-(n as int)) as nat == orig);
            assert(zeros(pad as int) =~= zeros(width - 1 - dec_digits(orig).len()));
            assert(s@ =~= old(s)@ + padded(n as int, width as int));
        } else {
            assert(n as nat == orig);
            assert(zeros(pad as int) =~= zeros(width - dec_digits(orig).len()));
            assert(s@ =~= old(s)@ + padded(n as int, width as int));
        }
    }
}

/// The characters of `s`, in order.
pub fn chars_of(s: &str) -> (v: Vec<char>)
    ensures
        v@ == s@,
{
    let mut v: Vec<char> = Vec::new();
    for c in it: s.chars()
        invariant
            v@ == it.seq().take(it.index() as int),
    {
        v.push(c);
    }
    v
}

/// What `str::to_lowercase` gives for a string: every character replaced
/// by its lowercase mapping.
pub uninterp spec fn lowercase(s: Seq<char>) -> Seq<char>;

/// `str::to_lowercase`. Its result is named, not stated: the Unicode case
/// mapping is a table of its own.
#[verifier::external_body]
pub(crate) fn to_lower(s: &str) -> (r: String)
    ensures
        r@ == lowercase(s@),
{
    s.to_lowercase()
}

/// The maximal runs of non-whitespace characters of `s`: finished runs and
/// the run still being read.
pub open spec fn words_acc(s: Seq<char>) -> (Seq<Seq<char>>, Seq<char>)
    decreases s.len(),
{
    if s.len() == 0 {
        (Seq::empty(), Seq::empty())
    } else {
        let (done, cur) = words_acc(s.drop_last());
        if is_ws(s.last()) {
            if cur.len() > 0 {
                (done.push(cur), Seq::empty())
            } else {
                (done, Seq::empty())
            }
        } else {
            (done, cur.push(s.last()))
        }
    }
}

/// `str::split_whitespace`: the words of `s`.
pub open spec fn words(s: Seq<char>) -> Seq<Seq<char>> {
    if words_acc(s).1.len() > 0 {
        words_acc(s).0.push(words_acc(s).1)
    } else {
        words_acc(s).0
    }
}

/// Whether `n` occurs in `h`.
pub open spec fn has_sub(h: Seq<char>, n: Seq<char>) -> bool {
    exists|i: int| 0 <= i && i + n.len() <= h.len() && #[trigger] h.subrange(i, i + n.len()) == n
}

/// The words of `s`.
pub fn split_words(s: &str) -> (ws: Vec<Vec<char>>)
    ensures
        ws@.map_values(|w: Vec<char>| w@) == words(s@),
{
    let v = chars_of(s);
    let mut ws: Vec<Vec<char>> = Vec::new();
    let mut cur: Vec<char> = Vec::new();
    let mut i: usize = 0;
    while i < v.len()
        invariant
            i <= v.len(),
            v@ == s@,
            ws@.map_values(|w: Vec<char>| w@) == words_acc(v@.take(i as int)).0,
            cur@ == words_acc(v@.take(i as int)).1,
        decreases v.len() - i,
    {
        assert(v@.take(i + 1).drop_last() =~= v@.take(i as int));
        if is_whitespace(v[i]) {
            if cur.len() > 0 {
                let ghost before = ws@.map_values(|w: Vec<char>| w@);
                let ghost cw = cur@;
                let mut fresh: Vec<char> = Vec::new();
                std::mem::swap(&mut fresh, &mut cur);
                ws.push(fresh);
                assert(ws@.map_values(|w: Vec<char>| w@) =~= before.push(cw));
            }
            assert(cur@ =~= Seq::<char>::empty());
        } else {
            cur.push(v[i]);
        }
        i = i + 1;
    }
    assert(v@.take(v.len() as int) =~= v@);
    if cur.len() > 0 {
        let ghost before = ws@.map_values(|w: Vec<char>| w@);
        let ghost cw = cur@;
        ws.push(cur);
        assert(ws@.map_values(|w: Vec<char>| w@) =~= before.push(cw));
    }
    ws
}

/// Whether `n` occurs in `h`.
pub fn contains_sub(h: &Vec<char>, n: &Vec<char>) -> (b: bool)
    ensures
        b == has_sub(h@, n@),
{
    if n.len() > h.len() {
        return false;
    }
    let mut i: usize = 0;
    while i <= h.len() - n.len()
        invariant
            n.len() <= h.len(),
            i <= h.len() - n.len() + 1,
            forall|k: int| 0 <= k < i ==> #[trigger] h@.subrange(k, k + n.len()) != n@,
        decreases h.len() - i,
    {
        let mut j: usize = 0;
        while j < n.len() && h[i + j] == n[j]
            invariant
                j <= n.len(),
                i + n.len() <= h.len(),
                forall|q: int| 0 <= q < j ==> h@[i + q] == n@[q],
            decreases n.len() - j,
        {
            j = j + 1;
        }
        if j == n.len() {
            assert(h@.subrange(i as int, i + n.len()) =~= n@);
            return true;
        }
        assert(h@.subrange(i as int, i + n.len())[j as int] != n@[j as int]);
        i = i + 1;
    }
    assert forall|k: int| 0 <= k && k + n.len() <= h.len() implies #[trigger] h@.subrange(k, k + n.len()) != n@ by {
        assert(k < i);
    }
    false
}

proof fn lemma_drop_spaces_then_trim(s: Seq<char>)
    ensures
        trim_start_ws(drop_leading(s, ' ')) == trim_start_ws(s),
    decreases s.len(),
{
    if s.len() > 0 && s[0] == ' ' {
        lemma_drop_spaces_then_trim(s.drop_first());
    }
}

/// `s` without leading and trailing white space (`str::trim`).
pub fn trim_text(s: &str) -> (t: String)
    ensures
        t@ == trim_ws(s@),
{
    let v = chars_of(s);
    proof {
        lemma_drop_spaces_then_trim(v@);
    }
    trim_marker_name(&v, ' ')
}

/// What `str::to_uppercase` gives for a string.
pub uninterp spec fn uppercase(s: Seq<char>) -> Seq<char>;

/// `str::to_uppercase`. Its result is named, not stated: the Unicode case
/// mapping is a table of its own.
#[verifier::external_body]
pub(crate) fn to_upper(s: &str) -> (r: String)
    ensures
        r@ == uppercase(s@),
{
    s.to_uppercase()
}

/// The strings joined, `sep` between each two.
pub open spec fn join_sep(ls: Seq<Seq<char>>, sep: Seq<char>) -> Seq<char>
    decreases ls.len(),
{
    if ls.len() == 0 {
        Seq::empty()
    } else if ls.len() == 1 {
        ls[0]
    } else {
        join_sep(ls.drop_last(), sep) + sep + ls.last()
    }
}

/// Join strings with `sep` between each two.
pub fn join_strings(ls: &Vec<String>, sep: &str) -> (s: String)
    ensures
        s@ == join_sep(ls.deep_view(), sep@),
{
    let mut s = String::new();
    if ls.len() == 0 {
        assert(ls.deep_view() =~= Seq::<Seq<char>>::empty());
        return s;
    }
    s.push_str(ls[0].as_str());
    assert(ls.deep_view().take(1) =~= seq![ls.deep_view()[0]]);
    let mut i: usize = 1;
    while i < ls.len()
        invariant
            1 <= i <= ls.len(),
            s@ == join_sep(ls.deep_view().take(i as int), sep@),
        decreases ls.len() - i,
    {
        s.push_str(sep);
        s.push_str(ls[i].as_str());
        assert(ls.deep_view().take(i + 1).drop_last() =~= ls.deep_view().take(i as int));
        assert(s@ =~= join_sep(ls.deep_view().take(i as int), sep@) + sep@ + ls.deep_view()[i as int]);
        i = i + 1;
    }
    assert(ls.deep_view().take(ls.len() as int) =~= ls.deep_view());
    s
}

/// Whether `s` starts with `p`.
pub fn starts_with(s: &str, p: &str) -> (b: bool)
    ensures
        b == (p@.len() <= s@.len() && s@.take(p@.len() as int) == p@),
{
    let x = chars_of(s);
    let y = chars_of(p);
    if y.len() > x.len() {
        return false;
    }
    let mut i: usize = 0;
    while i < y.len()
        invariant
            i <= y.len() <= x.len(),
            x@ == s@,
            y@ == p@,
            forall|j: int| 0 <= j < i ==> x@[j] == y@[j],
        decreases y.len() - i,
    {
        if x[i] != y[i] {
            assert(s@.take(p@.len() as int)[i as int] != p@[i as int]);
            return false;
        }
        i = i + 1;
    }
    assert(s@.take(p@.len() as int) =~= p@);
    true
}

/// Whether two strings hold the same characters.
pub fn str_eq(a: &str, b: &str) -> (r: bool)
    ensures
        r == (a@ == b@),
{
    let x = chars_of(a);
    let y = chars_of(b);
    if x.len() != y.len() {
        return false;
    }
    let mut i: usize = 0;
    while i < x.len()
        invariant
            i <= x.len() == y.len(),
            x@ == a@,
            y@ == b@,
            forall|j: int| 0 <= j < i ==> x@[j] == y@[j],
        decreases x.len() - i,
    {
        if x[i] != y[i] {
            return false;
        }
        i = i + 1;
    }
    assert(x@ =~= y@);
    true
}

/// A string holding the characters `v[from..to]`.
pub fn string_of(v: &Vec<char>, from: usize, to: usize) -> (s: String)
    requires
        from <= to <= v.len(),
    ensures
        s@ == v@.subrange(from as int, to as int),
{
    let mut s = String::new();
    let mut i = from;
    while i < to
        invariant
            from <= i <= to <= v.len(),
            s@ == v@.subrange(from as int, i as int),
        decreases to - i,
    {
        s.push(v[i]);
        i = i + 1;
    }
    s
}

} // verus!

verus! {

/// Unicode `White_Space` characters, the set that `char::is_whitespace` tests.
pub open spec fn is_ws(c: char) -> bool {
    ||| ('\u{9}' <= c && c <= '\u{d}')
    ||| c == ' '
    ||| c == '\u{85}'
    ||| c == '\u{a0}'
    ||| c == '\u{1680}'
    ||| ('\u{2000}' <= c && c <= '\u{200a}')
    ||| c == '\u{2028}'
    ||| c == '\u{2029}'
    ||| c == '\u{202f}'
    ||| c == '\u{205f}'
    ||| c == '\u{3000}'
}

/// Whether `c` is Unicode white space.
pub fn is_whitespace(c: char) -> (b: bool)
    ensures
        b == is_ws(c),
{
    ('\u{9}' <= c && c <= '\u{d}') || c == ' ' || c == '\u{85}' || c == '\u{a0}' || c == '\u{1680}'
        || ('\u{2000}' <= c && c <= '\u{200a}') || c == '\u{2028}' || c == '\u{2029}'
        || c == '\u{202f}' || c == '\u{205f}' || c == '\u{3000}'
}

/// `s` without its leading characters equal to `c`.
pub open spec fn drop_leading(s: Seq<char>, c: char) -> Seq<char>
    decreases s.len(),
{
    if s.len() > 0 && s[0] == c {
        drop_leading(s.drop_first(), c)
    } else {
        s
    }
}

/// `s` without leading white space.
pub open spec fn trim_start_ws(s: Seq<char>) -> Seq<char>
    decreases s.len(),
{
    if s.len() > 0 && is_ws(s[0]) {
        trim_start_ws(s.drop_first())
    } else {
        s
    }
}

/// `s` without trailing white space.
pub open spec fn trim_end_ws(s: Seq<char>) -> Seq<char>
    decreases s.len(),
{
    if s.len() > 0 && is_ws(s.last()) {
        trim_end_ws(s.drop_last())
    } else {
        s
    }
}

/// `s` without leading and trailing white space, as `str::trim` gives it.
pub open spec fn trim_ws(s: Seq<char>) -> Seq<char> {
    trim_end_ws(trim_start_ws(s))
}

/// `s` without a final `'\r'`, if it has one.
pub open spec fn strip_cr(s: Seq<char>) -> Seq<char> {
    if s.len() > 0 && s.last() == '\r' {
        s.drop_last()
    } else {
        s
    }
}

/// Lines completed so far and the line in progress, reading `s` from the left.
pub open spec fn lines_acc(s: Seq<char>) -> (Seq<Seq<char>>, Seq<char>)
    decreases s.len(),
{
    if s.len() == 0 {
        (Seq::empty(), Seq::empty())
    } else {
        let (done, cur) = lines_acc(s.drop_last());
        if s.last() == '\n' {
            (done.push(strip_cr(cur)), Seq::empty())
        } else {
            (done, cur.push(s.last()))
        }
    }
}

/// The lines of `s` as `str::lines` yields them: split at `'\n'`, a `'\r'`
/// before the `'\n'` removed, and no empty last line after a final newline.
pub open spec fn lines_of(s: Seq<char>) -> Seq<Seq<char>> {
    let (done, cur) = lines_acc(s);
    if cur.len() == 0 {
        done
    } else {
        done.push(cur)
    }
}

proof fn lemma_drop_leading_skip(s: Seq<char>, c: char, i: int)
    requires
        0 <= i <= s.len(),
        forall|k: int| 0 <= k < i ==> s[k] == c,
    ensures
        drop_leading(s, c) == drop_leading(s.skip(i), c),
    decreases i,
{
    if i > 0 {
        assert(s.skip(1) == s.drop_first());
        lemma_drop_leading_skip(s.drop_first(), c, i - 1);
        assert(s.drop_first().skip(i - 1) == s.skip(i));
    } else {
        assert(s.skip(0) == s);
    }
}

proof fn lemma_trim_start_skip(s: Seq<char>, i: int)
    requires
        0 <= i <= s.len(),
        forall|k: int| 0 <= k < i ==> is_ws(s[k]),
    ensures
        trim_start_ws(s) == trim_start_ws(s.skip(i)),
    decreases i,
{
    if i > 0 {
        lemma_trim_start_skip(s.drop_first(), i - 1);
        assert(s.drop_first().skip(i - 1) == s.skip(i));
    } else {
        assert(s.skip(0) == s);
    }
}

proof fn lemma_trim_end_take(s: Seq<char>, j: int)
    requires
        0 <= j <= s.len(),
        forall|k: int| j <= k < s.len() ==> is_ws(s[k]),
    ensures
        trim_end_ws(s) == trim_end_ws(s.take(j)),
    decreases s.len() - j,
{
    if j < s.len() {
        lemma_trim_end_take(s.drop_last(), j);
        assert(s.drop_last().take(j) == s.take(j));
    } else {
        assert(s.take(j) == s);
    }
}

/// The characters of `v` after its leading `c` characters, with white space
/// trimmed from both ends: `trim_start_matches(c).trim()`.
pub fn trim_marker_name(v: &Vec<char>, c: char) -> (s: String)
    ensures
        s@ == trim_ws(drop_leading(v@, c)),
{
    let n = v.len();
    let mut a: usize = 0;
    while a < n && v[a] == c
        invariant
            a <= n == v.len(),
            forall|k: int| 0 <= k < a ==> v@[k] == c,
        decreases n - a,
    {
        a = a + 1;
    }
    proof {
        lemma_drop_leading_skip(v@, c, a as int);
    }
    let ghost rest = v@.skip(a as int);
    assert(drop_leading(rest, c) == rest);
    let mut b: usize = a;
    while b < n && is_whitespace(v[b])
        invariant
            a <= b <= n == v.len(),
            forall|k: int| a <= k < b ==> is_ws(v@[k]),
        decreases n - b,
    {
        b = b + 1;
    }
    proof {
        lemma_trim_start_skip(rest, b - a);
        assert(rest.skip(b - a) == v@.skip(b as int));
    }
    let ghost mid = v@.skip(b as int);
    assert(trim_start_ws(mid) == mid);
    let mut e: usize = n;
    while e > b && is_whitespace(v[e - 1])
        invariant
            b <= e <= n == v.len(),
            forall|k: int| e <= k < n ==> is_ws(v@[k]),
        decreases e,
    {
        e = e - 1;
    }
    proof {
        lemma_trim_end_take(mid, e - b);
        assert(mid.take(e - b) == v@.subrange(b as int, e as int));
        let t = v@.subrange(b as int, e as int);
        assert(trim_end_ws(t) == t);
    }
    string_of(v, b, e)
}

/// The lines of `s`, each as its characters.
pub fn split_lines(s: &str) -> (ls: Vec<Vec<char>>)
    ensures
        ls.deep_view() == lines_of(s@),
{
    let v = chars_of(s);
    let n = v.len();
    let mut done: Vec<Vec<char>> = Vec::new();
    let mut cur: Vec<char> = Vec::new();
    let mut i: usize = 0;
    while i < n
        invariant
            i <= n == v.len(),
            v@ == s@,
            (done.deep_view(), cur@) == lines_acc(v@.take(i as int)),
        decreases n - i,
    {
        let c = v[i];
        proof {
            assert(v@.take(i + 1).drop_last() == v@.take(i as int));
        }
        if c == '\n' {
            let ghost old_cur = cur@;
            if cur.len() > 0 && cur[cur.len() - 1] == '\r' {
                cur.pop();
            }
            assert(cur@ == strip_cr(old_cur));
            let ghost old_done = done.deep_view();
            let ghost pushed = cur.deep_view();
            assert(pushed =~= cur@);
            done.push(cur);
            assert(done.deep_view() =~= old_done.push(pushed));
            cur = Vec::new();
        } else {
            cur.push(c);
        }
        i = i + 1;
    }
    assert(v@.take(n as int) == v@);
    if cur.len() > 0 {
        let ghost old_done = done.deep_view();
        let ghost pushed = cur.deep_view();
        assert(pushed =~= cur@);
        done.push(cur);
        assert(done.deep_view() =~= old_done.push(pushed));
    }
    done
}

} // verus!
