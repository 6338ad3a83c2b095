//! Commit log entries, blame lines, stashes and branches, and the time stamp
//! format of the log.
use vstd::prelude::*;
use vstd::arithmetic::div_mod::{lemma_fundamental_div_mod, lemma_fundamental_div_mod_converse};

use crate::diff::{compute_diff, diff_acc, diff_hunks, line_diff, DiffLine, DiffLineKind, Hunk, RowModel};
use crate::syntax::{extension_of, file_extension};
use crate::text::{digit_char, dec_digits, zeros, chars_of, padded, push_padded, string_of};

verus! {

/// One commit of the log.
#[derive(Debug, Clone)]
pub struct LogEntry {
    pub hash: String,
    pub author: String,
    pub date: String,
    pub message: String,
    pub refs: Vec<String>,
}

/// The commit and author that last touched one line of a file.
#[derive(Debug, Clone)]
pub struct BlameLine {
    pub hash: String,
    pub author: String,
}

/// A run of consecutive lines that blame attributes to one commit.
#[derive(Debug, Clone)]
pub struct BlameHunk {
    pub hash: String,
    pub author: String,
    pub lines: usize,
}

/// One stash of the stash list.
#[derive(Debug, Clone)]
pub struct StashEntry {
    pub index: usize,
    pub message: String,
}

/// One local or remote branch.
#[derive(Debug, Clone)]
pub struct BranchEntry {
    pub name: String,
    pub is_current: bool,
    pub is_remote: bool,
}

/// The first seven characters of a commit id.
pub fn short_hash(hex: &str) -> (s: String)
    requires
        hex@.len() >= 7,
    ensures
        s@ == hex@.take(7),
{
    let v = chars_of(hex);
    let s = string_of(&v, 0, 7);
    assert(v@.subrange(0, 7) =~= hex@.take(7));
    s
}

/// `o`'s text, or `default` when there is none.
pub open spec fn text_or(o: Option<String>, default: Seq<char>) -> Seq<char> {
    match o {
        Some(s) => s@,
        None => default,
    }
}

impl LogEntry {
    /// A log entry from what git reports of a commit: its id, author name,
    /// time (seconds since the epoch), summary line and ref names.
    pub fn from_commit(
        id: &str,
        author: Option<String>,
        time: i64,
        summary: Option<String>,
        refs: Vec<String>,
    ) -> (e: LogEntry)
        requires
            id@.len() >= 7,
        ensures
            e.hash@ == id@.take(7),
            e.author@ == text_or(author, seq!['u', 'n', 'k', 'n', 'o', 'w', 'n']),
            e.date@ == timestamp_text(time as int),
            e.message@ == text_or(summary, Seq::empty()),
            e.refs@ == refs@,
    {
        let author = match author {
            Some(a) => a,
            None => {
                proof {
                    reveal_strlit("unknown");
                }
                String::from_str("unknown")
            },
        };
        let message = match summary {
            Some(m) => m,
            None => String::new(),
        };
        LogEntry { hash: short_hash(id), author, date: format_timestamp(time), message, refs }
    }
}

/// The names of the refs that point at commit `id`, in the order given.
pub open spec fn refs_at(pairs: Seq<(String, String)>, id: Seq<char>) -> Seq<Seq<char>>
    decreases pairs.len(),
{
    if pairs.len() == 0 {
        Seq::empty()
    } else {
        refs_at(pairs.drop_last(), id) + if pairs.last().0@ == id {
            seq![pairs.last().1@]
        } else {
            Seq::empty()
        }
    }
}

/// The names of the refs whose target is commit `id`; `pairs` holds
/// (commit id, ref name) for every ref.
pub fn refs_for(pairs: &Vec<(String, String)>, id: &String) -> (names: Vec<String>)
    ensures
        names.deep_view() == refs_at(pairs@, id@),
{
    let mut names: Vec<String> = Vec::new();
    let mut i: usize = 0;
    while i < pairs.len()
        invariant
            i <= pairs.len(),
            names.deep_view() == refs_at(pairs@.take(i as int), id@),
        decreases pairs.len() - i,
    {
        assert(pairs@.take(i + 1).drop_last() =~= pairs@.take(i as int));
        if pairs[i].0 == *id {
            let ghost before = names.deep_view();
            names.push(pairs[i].1.clone());
            assert(names.deep_view() =~= before.push(pairs@[i as int].1@));
        }
        i = i + 1;
    }
    assert(pairs@.take(pairs.len() as int) =~= pairs@);
    names
}

/// Blame lines from blame hunks: each hunk's commit and author, repeated
/// once per line of the hunk.
pub open spec fn blame_lines(hunks: Seq<BlameHunk>) -> Seq<(Seq<char>, Seq<char>)>
    decreases hunks.len(),
{
    if hunks.len() == 0 {
        Seq::empty()
    } else {
        let h = hunks.last();
        blame_lines(hunks.drop_last()) + Seq::new(h.lines as nat, |_i: int| (h.hash@, h.author@))
    }
}

pub open spec fn blame_models(ls: Seq<BlameLine>) -> Seq<(Seq<char>, Seq<char>)> {
    ls.map_values(|b: BlameLine| (b.hash@, b.author@))
}

/// One blame line per line of the file.
pub fn expand_blame(hunks: &Vec<BlameHunk>) -> (lines: Vec<BlameLine>)
    ensures
        blame_models(lines@) == blame_lines(hunks@),
{
    let mut lines: Vec<BlameLine> = Vec::new();
    let mut i: usize = 0;
    while i < hunks.len()
        invariant
            i <= hunks.len(),
            blame_models(lines@) == blame_lines(hunks@.take(i as int)),
        decreases hunks.len() - i,
    {
        assert(hunks@.take(i + 1).drop_last() =~= hunks@.take(i as int));
        let h = &hunks[i];
        let ghost start = blame_models(lines@);
        let mut k: usize = 0;
        while k < h.lines
            invariant
                k <= h.lines,
                blame_models(lines@) == start + Seq::new(k as nat, |_i: int| (h.hash@, h.author@)),
            decreases h.lines - k,
        {
            let ghost before = blame_models(lines@);
            let hash = h.hash.clone();
            let author = h.author.clone();
            lines.push(BlameLine { hash, author });
            assert(blame_models(lines@) =~= before.push((h.hash@, h.author@)));
            assert(Seq::new((k + 1) as nat, |_i: int| (h.hash@, h.author@)) =~= Seq::new(
                k as nat,
                |_i: int| (h.hash@, h.author@),
            ).push((h.hash@, h.author@)));
            k = k + 1;
        }
        i = i + 1;
    }
    assert(hunks@.take(hunks.len() as int) =~= hunks@);
    lines
}

/// The branch to check out for a list entry: a remote branch `origin/x/y`
/// becomes `x/y` (everything after the first `'/'`, empty without one).
pub open spec fn checkout_name(name: Seq<char>, is_remote: bool) -> Seq<char> {
    if !is_remote {
        name
    } else if exists|k: int| 0 <= k < name.len() && name[k] == '/' {
        let k = choose|k: int|
            0 <= k < name.len() && name[k] == '/' && forall|j: int| 0 <= j < k ==> name[j] != '/';
        name.skip(k + 1)
    } else {
        Seq::empty()
    }
}

impl BranchEntry {
    /// The name to check out for this entry.
    pub fn checkout_target(&self) -> (s: String)
        ensures
            s@ == checkout_name(self.name@, self.is_remote),
    {
        if !self.is_remote {
            return self.name.clone();
        }
        let v = chars_of(self.name.as_str());
        let mut k: usize = 0;
        while k < v.len() && v[k] != '/'
            invariant
                k <= v.len(),
                v@ == self.name@,
                forall|j: int| 0 <= j < k ==> v@[j] != '/',
            decreases v.len() - k,
        {
            k = k + 1;
        }
        if k == v.len() {
            return String::new();
        }
        proof {
            let c = choose|c: int|
                0 <= c < v@.len() && v@[c] == '/' && forall|j: int| 0 <= j < c ==> v@[j] != '/';
            assert(c == k) by {
                if c < k {
                    assert(v@[c] != '/');
                }
                if c > k {
                    assert(v@[k as int] != '/');
                }
            }
            assert(v@.subrange(k + 1, v.len() as int) =~= v@.skip(k + 1));
        }
        string_of(&v, k + 1, v.len())
    }
}

/// Index of the current branch in the list, or 0.
pub fn current_branch_index(entries: &Vec<BranchEntry>) -> (i: usize)
    ensures
        (exists|k: int| 0 <= k < entries.len() && entries[k].is_current) ==> (i < entries.len()
            && entries[i as int].is_current && forall|k: int|
            0 <= k < i ==> !entries[k].is_current),
        !(exists|k: int| 0 <= k < entries.len() && entries[k].is_current) ==> i == 0,
{
    let mut i: usize = 0;
    while i < entries.len()
        invariant
            i <= entries.len(),
            forall|k: int| 0 <= k < i ==> !entries[k].is_current,
        decreases entries.len() - i,
    {
        if entries[i].is_current {
            return i;
        }
        i = i + 1;
    }
    0
}

/// Quotient of `a / b` rounded toward zero (Rust's integer division).
pub open spec fn tdiv(a: int, b: int) -> int {
    if a >= 0 {
        a / b
    } else {
        -((-a) / b)
    }
}

/// Remainder of `a / b` with the sign of `a` (Rust's `%`).
pub open spec fn trem(a: int, b: int) -> int {
    a - b * tdiv(a, b)
}

fn trunc_divmod(a: i64, b: i64) -> (r: (i64, i64))
    requires
        b > 0,
    ensures
        r.0 == tdiv(a as int, b as int),
        r.1 == trem(a as int, b as int),
{
    let na: i128 = a as i128;
    let nb: i128 = b as i128;
    if na >= 0 {
        let q = na / nb;
        let r = na % nb;
        assert(r == na - nb * q) by (nonlinear_arith)
            requires
                na >= 0,
                nb > 0,
                q == na / nb,
                r == na % nb,
        ;
        assert(0 <= q <= na) by (nonlinear_arith)
            requires
                na >= 0,
                nb > 0,
                q == na / nb,
        ;
        (q as i64, r as i64)
    } else {
        let m = -na;
        let q = m / nb;
        let r = m % nb;
        assert(r == m - nb * q && 0 <= r < nb && 0 <= q <= m) by (nonlinear_arith)
            requires
                m > 0,
                nb > 0,
                q == m / nb,
                r == m % nb,
        ;
        assert(na - nb * (-q) == -r) by (nonlinear_arith)
            requires
                r == m - nb * q,
                m == -na,
        ;
        ((-q) as i64, (-r) as i64)
    }
}

/// Whether `y` is a leap year of the Gregorian calendar.
pub open spec fn leap(y: int) -> bool {
    (y % 4 == 0 && y % 100 != 0) || y % 400 == 0
}

pub open spec fn days_in_year(y: int) -> int {
    if leap(y) {
        366
    } else {
        365
    }
}

/// Whole years from 1970 on: the year reached and the days left in it.
pub open spec fn year_walk(y: int, rem: int) -> (int, int)
    decreases rem,
{
    if rem < days_in_year(y) {
        (y, rem)
    } else {
        year_walk(y + 1, rem - days_in_year(y))
    }
}

pub open spec fn month_len(y: int, m: int) -> int {
    if m == 1 {
        if leap(y) {
            29
        } else {
            28
        }
    } else if m == 3 || m == 5 || m == 8 || m == 10 {
        30
    } else {
        31
    }
}

/// Whole months of year `y` from month `m` (0-based): the month reached and
/// the days left in it.
pub open spec fn month_walk(y: int, m: int, rem: int) -> (int, int)
    decreases 12 - m,
{
    if m >= 12 || rem < month_len(y, m) {
        (m, rem)
    } else {
        month_walk(y, m + 1, rem - month_len(y, m))
    }
}

/// The UTC calendar time `secs` seconds after the Unix epoch: year, month
/// (1 to 12), day of the month (from 1), hour and minute, counting whole
/// Gregorian years from 1970 and then whole months.
pub open spec fn clock(secs: int) -> (int, int, int, int, int) {
    let days = tdiv(secs, 86400);
    let tod = trem(secs, 86400);
    let (y, r) = year_walk(1970, days);
    let (m, d) = month_walk(y, 0, r);
    (y, m + 1, d + 1, tdiv(tod, 3600), tdiv(trem(tod, 3600), 60))
}

/// `YYYY-MM-DD HH:MM` (UTC) for seconds since the Unix epoch, each field
/// zero-padded as `{:04}` and `{:02}` pad it.
pub open spec fn timestamp_text(secs: int) -> Seq<char> {
    let c = clock(secs);
    padded(c.0, 4) + seq!['-'] + padded(c.1, 2) + seq!['-'] + padded(c.2, 2) + seq![' '] + padded(c.3, 2)
        + seq![':'] + padded(c.4, 2)
}

/// Days in the months of year `y` from month `m` (0-based) to the end.
pub open spec fn days_left(y: int, m: int) -> int
    decreases 12 - m,
{
    if m >= 12 {
        0
    } else {
        month_len(y, m) + days_left(y, m + 1)
    }
}

proof fn lemma_year_walk(y: int, r1: int, r2: int)
    requires
        0 <= r1 <= r2,
    ensures
        year_walk(y, r1).0 >= y,
        0 <= year_walk(y, r1).1 < days_in_year(year_walk(y, r1).0),
        r1 < r2 ==> year_walk(y, r1).0 < year_walk(y, r2).0 || (year_walk(y, r1).0 == year_walk(y, r2).0
            && year_walk(y, r1).1 < year_walk(y, r2).1),
    decreases r2,
{
    let n = days_in_year(y);
    if r2 >= n {
        if r1 >= n {
            lemma_year_walk(y + 1, r1 - n, r2 - n);
        } else {
            lemma_year_walk(y + 1, r2 - n, r2 - n);
        }
    }
}

proof fn lemma_month_walk(y: int, m: int, r1: int, r2: int)
    requires
        0 <= m <= 12,
        0 <= r1 <= r2 < days_left(y, m),
    ensures
        m <= month_walk(y, m, r1).0 < 12,
        0 <= month_walk(y, m, r1).1 < month_len(y, month_walk(y, m, r1).0),
        r1 < r2 ==> month_walk(y, m, r1).0 < month_walk(y, m, r2).0 || (month_walk(y, m, r1).0 == month_walk(
            y,
            m,
            r2,
        ).0 && month_walk(y, m, r1).1 < month_walk(y, m, r2).1),
    decreases 12 - m,
{
    let n = month_len(y, m);
    if m < 12 && r2 >= n {
        if r1 >= n {
            lemma_month_walk(y, m + 1, r1 - n, r2 - n);
        } else {
            lemma_month_walk(y, m + 1, r2 - n, r2 - n);
        }
    }
}

proof fn lemma_year_is_its_months(y: int)
    ensures
        days_left(y, 0) == days_in_year(y),
{
    reveal_with_fuel(days_left, 13);
}

/// Law: from the epoch on, the calendar time is a real one: the year is
/// 1970 or later (and 9999 or earlier up to second `253402300799`), the month 1 to 12, the day within the month (29 days in
/// February of a leap year), the hour below 24 and the minute below 60.
pub proof fn law_clock_is_gregorian(secs: int)
    requires
        secs >= 0,
    ensures
        clock(secs).0 >= 1970,
        secs < 253402300800 ==> clock(secs).0 <= 9999,
        1 <= clock(secs).1 <= 12,
        1 <= clock(secs).2 <= month_len(clock(secs).0, clock(secs).1 - 1),
        0 <= clock(secs).3 < 24,
        0 <= clock(secs).4 < 60,
{
    if secs < 253402300800 {
        lemma_year_9999(secs);
    }
    let days = secs / 86400;
    lemma_fundamental_div_mod(secs, 86400);
    lemma_year_walk(1970, days, days);
    let (y, r) = year_walk(1970, days);
    lemma_year_is_its_months(y);
    lemma_month_walk(y, 0, r, r);
    let tod = secs % 86400;
    lemma_fundamental_div_mod(tod, 3600);
    lemma_fundamental_div_mod(tod % 3600, 60);
    assert(tod / 3600 < 24) by (nonlinear_arith)
        requires
            tod == 3600 * (tod / 3600) + tod % 3600,
            0 <= tod % 3600,
            tod < 86400,
    ;
}

/// Whether calendar time `a` is no later than `b`.
pub open spec fn clock_le(a: (int, int, int, int, int), b: (int, int, int, int, int)) -> bool {
    a.0 < b.0 || (a.0 == b.0 && (a.1 < b.1 || (a.1 == b.1 && (a.2 < b.2 || (a.2 == b.2 && (a.3 < b.3 || (a.3
        == b.3 && a.4 <= b.4)))))))
}

/// Law: from the epoch on, a later time never shows an earlier calendar
/// time.
pub proof fn law_clock_is_monotone(a: int, b: int)
    requires
        0 <= a <= b,
    ensures
        clock_le(clock(a), clock(b)),
{
    let da = a / 86400;
    let db = b / 86400;
    lemma_fundamental_div_mod(a, 86400);
    lemma_fundamental_div_mod(b, 86400);
    assert(da <= db) by (nonlinear_arith)
        requires
            a == 86400 * da + a % 86400,
            b == 86400 * db + b % 86400,
            0 <= a % 86400 < 86400,
            0 <= b % 86400 < 86400,
            a <= b,
    ;
    lemma_year_walk(1970, da, db);
    let (ya, ra) = year_walk(1970, da);
    let (yb, rb) = year_walk(1970, db);
    lemma_year_walk(1970, db, db);
    if da < db {
        if ya == yb {
            lemma_year_is_its_months(ya);
            lemma_month_walk(ya, 0, ra, rb);
        }
    } else {
        let ta = a % 86400;
        let tb = b % 86400;
        assert(ta <= tb);
        lemma_fundamental_div_mod(ta, 3600);
        lemma_fundamental_div_mod(tb, 3600);
        lemma_fundamental_div_mod(ta % 3600, 60);
        lemma_fundamental_div_mod(tb % 3600, 60);
        assert(ta / 3600 <= tb / 3600) by (nonlinear_arith)
            requires
                ta == 3600 * (ta / 3600) + ta % 3600,
                tb == 3600 * (tb / 3600) + tb % 3600,
                0 <= ta % 3600 < 3600,
                0 <= tb % 3600 < 3600,
                ta <= tb,
        ;
        if ta / 3600 == tb / 3600 {
            assert((ta % 3600) / 60 <= (tb % 3600) / 60) by (nonlinear_arith)
                requires
                    ta % 3600 == 60 * ((ta % 3600) / 60) + (ta % 3600) % 60,
                    tb % 3600 == 60 * ((tb % 3600) / 60) + (tb % 3600) % 60,
                    0 <= (ta % 3600) % 60 < 60,
                    0 <= (tb % 3600) % 60 < 60,
                    ta % 3600 <= tb % 3600,
            ;
        }
    }
}

/// Law: the seconds within a minute do not show. A time at or after the
/// epoch and the start of its minute give the same text.
pub proof fn law_timestamp_ignores_seconds(secs: int)
    requires
        secs >= 0,
    ensures
        timestamp_text(secs - secs % 60) == timestamp_text(secs),
{
    let r = secs % 60;
    let b = secs - r;
    let d = secs / 86400;
    let t = secs % 86400;
    lemma_fundamental_div_mod(secs, 86400);
    lemma_fundamental_div_mod(t, 60);
    lemma_fundamental_div_mod_converse(secs, 60, 1440 * d + t / 60, t % 60);
    lemma_fundamental_div_mod_converse(b, 86400, d, t - r);
    let h = t / 3600;
    let u = t % 3600;
    lemma_fundamental_div_mod(t, 3600);
    lemma_fundamental_div_mod(u, 60);
    lemma_fundamental_div_mod_converse(t, 60, 60 * h + u / 60, u % 60);
    lemma_fundamental_div_mod_converse(t - r, 3600, h, u - r);
    lemma_fundamental_div_mod_converse(u - r, 60, u / 60, 0);
    assert(tdiv(b, 86400) == tdiv(secs, 86400));
    assert(trem(b, 86400) == t - r);
    assert(trem(secs, 86400) == t);
    assert(tdiv(t - r, 3600) == tdiv(t, 3600));
    assert(tdiv(trem(t - r, 3600), 60) == tdiv(trem(t, 3600), 60));
}

/// `10` to the power `w`.
pub open spec fn pow10(w: nat) -> int
    decreases w,
{
    if w == 0 {
        1
    } else {
        10 * pow10((w - 1) as nat)
    }
}

/// The last `w` decimal digits of `n`, most significant first.
pub open spec fn fixed_digits(n: int, w: nat) -> Seq<char>
    decreases w,
{
    if w == 0 {
        Seq::empty()
    } else {
        fixed_digits(n / 10, (w - 1) as nat).push(digit_char(n % 10))
    }
}

/// Whether text `x` comes before `y`: at the first place where they
/// differ, `x` has the smaller character.
pub open spec fn text_lt(x: Seq<char>, y: Seq<char>) -> bool {
    exists|i: int| 0 <= i < x.len() && i < y.len() && x.take(i) == y.take(i) && (x[i] as int) < (y[i] as int)
}

/// Whether text `x` is `y` or comes before it.
pub open spec fn text_le(x: Seq<char>, y: Seq<char>) -> bool {
    x == y || text_lt(x, y)
}

proof fn lemma_fixed_len(n: int, w: nat)
    ensures
        fixed_digits(n, w).len() == w,
    decreases w,
{
    if w > 0 {
        lemma_fixed_len(n / 10, (w - 1) as nat);
    }
}

proof fn lemma_fixed_zero(k: nat)
    ensures
        fixed_digits(0, k) == zeros(k as int),
    decreases k,
{
    if k > 0 {
        lemma_fixed_zero((k - 1) as nat);
        assert(fixed_digits(0, k) =~= zeros(k as int));
    } else {
        assert(zeros(0) =~= Seq::<char>::empty());
    }
}

proof fn lemma_padded_fixed(n: int, w: nat)
    requires
        0 <= n < pow10(w),
        w >= 1,
    ensures
        padded(n, w as int) == fixed_digits(n, w),
    decreases w,
{
    if n < 10 {
        lemma_fixed_zero((w - 1) as nat);
        assert(padded(n, w as int) =~= fixed_digits(n, w));
    } else {
        assert(w >= 2) by {
            if w == 1 {
                assert(pow10(1) == 10);
            }
        }
        assert(n / 10 < pow10((w - 1) as nat));
        lemma_padded_fixed(n / 10, (w - 1) as nat);
        let dd = dec_digits((n / 10) as nat);
        assert(dec_digits(n as nat) == dd.push(digit_char(n % 10)));
        assert(zeros(w - dec_digits(n as nat).len()) =~= zeros((w - 1) - dd.len()));
        assert(padded(n, w as int) =~= padded(n / 10, (w - 1) as int).push(digit_char(n % 10)));
    }
}

proof fn lemma_lt_then(x1: Seq<char>, y1: Seq<char>, x2: Seq<char>, y2: Seq<char>)
    requires
        x1.len() == y1.len(),
        text_lt(x1, y1),
    ensures
        text_lt(x1 + x2, y1 + y2),
{
    let i = choose|i: int| 0 <= i < x1.len() && i < y1.len() && x1.take(i) == y1.take(i) && (x1[i] as int) < (
    y1[i] as int);
    assert((x1 + x2).take(i) =~= x1.take(i));
    assert((y1 + y2).take(i) =~= y1.take(i));
    assert((x1 + x2)[i] == x1[i]);
    assert((y1 + y2)[i] == y1[i]);
}

proof fn lemma_same_then(x1: Seq<char>, x2: Seq<char>, y2: Seq<char>)
    requires
        text_le(x2, y2),
    ensures
        text_le(x1 + x2, x1 + y2),
{
    if x2 != y2 {
        let i = choose|i: int| 0 <= i < x2.len() && i < y2.len() && x2.take(i) == y2.take(i) && (x2[i] as int) < (
        y2[i] as int);
        let j = x1.len() + i;
        assert((x1 + x2).take(j) =~= x1 + x2.take(i));
        assert((x1 + y2).take(j) =~= x1 + y2.take(i));
        assert((x1 + x2)[j] == x2[i]);
        assert((x1 + y2)[j] == y2[i]);
    }
}

proof fn lemma_fixed_order(a: int, b: int, w: nat)
    requires
        0 <= a < b < pow10(w),
    ensures
        text_lt(fixed_digits(a, w), fixed_digits(b, w)),
    decreases w,
{
    if w == 0 {
        assert(false);
    } else {
        let v = (w - 1) as nat;
        lemma_fixed_len(a / 10, v);
        lemma_fixed_len(b / 10, v);
        let fa = fixed_digits(a / 10, v);
        let fb = fixed_digits(b / 10, v);
        if a / 10 < b / 10 {
            lemma_fixed_order(a / 10, b / 10, v);
            lemma_lt_then(fa, fb, seq![digit_char(a % 10)], seq![digit_char(b % 10)]);
            assert(fixed_digits(a, w) =~= fa + seq![digit_char(a % 10)]);
            assert(fixed_digits(b, w) =~= fb + seq![digit_char(b % 10)]);
        } else {
            assert(a / 10 == b / 10);
            assert(fixed_digits(a, w).take(v as int) =~= fa);
            assert(fixed_digits(b, w).take(v as int) =~= fb);
            assert(fixed_digits(a, w)[v as int] == digit_char(a % 10));
            assert(fixed_digits(b, w)[v as int] == digit_char(b % 10));
        }
    }
}

/// A calendar time as its text, each field at its fixed width.
pub open spec fn clock_text(c: (int, int, int, int, int)) -> Seq<char> {
    fixed_digits(c.0, 4) + (seq!['-'] + (fixed_digits(c.1, 2) + (seq!['-'] + (fixed_digits(c.2, 2) + (seq![' ']
        + (fixed_digits(c.3, 2) + (seq![':'] + fixed_digits(c.4, 2))))))))
}

/// Whether every field of a calendar time fits its width.
pub open spec fn clock_fits(c: (int, int, int, int, int)) -> bool {
    &&& 0 <= c.0 < 10000
    &&& 0 <= c.1 < 100
    &&& 0 <= c.2 < 100
    &&& 0 <= c.3 < 100
    &&& 0 <= c.4 < 100
}

proof fn lemma_clock_text(secs: int)
    requires
        clock_fits(clock(secs)),
    ensures
        timestamp_text(secs) == clock_text(clock(secs)),
{
    let c = clock(secs);
    assert(pow10(2) == 100 && pow10(4) == 10000) by {
        reveal_with_fuel(pow10, 5);
    }
    lemma_padded_fixed(c.0, 4);
    lemma_padded_fixed(c.1, 2);
    lemma_padded_fixed(c.2, 2);
    lemma_padded_fixed(c.3, 2);
    lemma_padded_fixed(c.4, 2);
    assert(timestamp_text(secs) =~= clock_text(c));
}

proof fn lemma_field_then(a: int, b: int, w: nat, x: Seq<char>, y: Seq<char>)
    requires
        0 <= a <= b < pow10(w),
        a == b ==> text_le(x, y),
    ensures
        a < b ==> text_lt(fixed_digits(a, w) + x, fixed_digits(b, w) + y),
        text_le(fixed_digits(a, w) + x, fixed_digits(b, w) + y),
{
    lemma_fixed_len(a, w);
    lemma_fixed_len(b, w);
    if a < b {
        lemma_fixed_order(a, b, w);
        lemma_lt_then(fixed_digits(a, w), fixed_digits(b, w), x, y);
    } else {
        lemma_same_then(fixed_digits(a, w), x, y);
    }
}

/// Days in the years from `y` up to, not including, `z`.
pub open spec fn days_between(y: int, z: int) -> int
    decreases z - y,
{
    if y >= z {
        0
    } else {
        days_in_year(y) + days_between(y + 1, z)
    }
}

proof fn lemma_year_before(y: int, z: int, r: int)
    requires
        0 <= r < days_between(y, z),
    ensures
        year_walk(y, r).0 < z,
    decreases r,
{
    if r >= days_in_year(y) {
        assert(y < z);
        lemma_year_before(y + 1, z, r - days_in_year(y));
    }
}

/// Leap years in `0..x`.
spec fn leaps_before(x: int) -> int {
    (x + 3) / 4 - (x + 99) / 100 + (x + 399) / 400
}

proof fn lemma_leaps_step(x: int)
    requires
        x >= 0,
    ensures
        leaps_before(x + 1) == leaps_before(x) + if leap(x) {
            1int
        } else {
            0int
        },
{
    lemma_fundamental_div_mod(x, 4);
    lemma_fundamental_div_mod(x, 100);
    lemma_fundamental_div_mod(x, 400);
    lemma_fundamental_div_mod(x + 3, 4);
    lemma_fundamental_div_mod(x + 4, 4);
    lemma_fundamental_div_mod(x + 99, 100);
    lemma_fundamental_div_mod(x + 100, 100);
    lemma_fundamental_div_mod(x + 399, 400);
    lemma_fundamental_div_mod(x + 400, 400);
}

proof fn lemma_days_closed(y: int, z: int)
    requires
        0 <= y <= z,
    ensures
        days_between(y, z) == 365 * (z - y) + leaps_before(z) - leaps_before(y),
    decreases z - y,
{
    if y < z {
        lemma_days_closed(y + 1, z);
        lemma_leaps_step(y);
    }
}

/// The last second of the year 9999 is `253402300799`.
proof fn lemma_year_9999(secs: int)
    requires
        0 <= secs < 253402300800,
    ensures
        clock(secs).0 <= 9999,
{
    lemma_days_closed(1970, 10000);
    assert(leaps_before(10000) == 2425 && leaps_before(1970) == 478);
    lemma_fundamental_div_mod(secs, 86400);
    assert(secs / 86400 < 2932897);
    lemma_year_before(1970, 10000, secs / 86400);
}

/// Law: from the epoch until the year 9999 ends (second `253402300799`), a
/// later time never gives an earlier text: the texts sort as the times do.
pub proof fn law_timestamp_text_is_monotone(a: int, b: int)
    requires
        0 <= a <= b < 253402300800,
    ensures
        text_le(timestamp_text(a), timestamp_text(b)),
{
    lemma_year_9999(b);
    law_clock_is_gregorian(a);
    law_clock_is_gregorian(b);
    law_clock_is_monotone(a, b);
    let ca = clock(a);
    let cb = clock(b);
    assert(month_len(ca.0, ca.1 - 1) <= 31 && month_len(cb.0, cb.1 - 1) <= 31);
    lemma_clock_text(a);
    lemma_clock_text(b);
    assert(pow10(2) == 100 && pow10(4) == 10000) by {
        reveal_with_fuel(pow10, 5);
    }
    let ta = seq![':'] + fixed_digits(ca.4, 2);
    let tb = seq![':'] + fixed_digits(cb.4, 2);
    let ha = seq![' '] + (fixed_digits(ca.3, 2) + ta);
    let hb = seq![' '] + (fixed_digits(cb.3, 2) + tb);
    let da = seq!['-'] + (fixed_digits(ca.2, 2) + ha);
    let db = seq!['-'] + (fixed_digits(cb.2, 2) + hb);
    let ma = seq!['-'] + (fixed_digits(ca.1, 2) + da);
    let mb = seq!['-'] + (fixed_digits(cb.1, 2) + db);
    if ca.0 == cb.0 {
        if ca.1 == cb.1 {
            if ca.2 == cb.2 {
                if ca.3 == cb.3 {
                    lemma_field_then(ca.4, cb.4, 2, Seq::<char>::empty(), Seq::<char>::empty());
                    assert(fixed_digits(ca.4, 2) + Seq::<char>::empty() =~= fixed_digits(ca.4, 2));
                    assert(fixed_digits(cb.4, 2) + Seq::<char>::empty() =~= fixed_digits(cb.4, 2));
                    lemma_same_then(seq![':'], fixed_digits(ca.4, 2), fixed_digits(cb.4, 2));
                }
                lemma_field_then(ca.3, cb.3, 2, ta, tb);
                lemma_same_then(seq![' '], fixed_digits(ca.3, 2) + ta, fixed_digits(cb.3, 2) + tb);
            }
            lemma_field_then(ca.2, cb.2, 2, ha, hb);
            lemma_same_then(seq!['-'], fixed_digits(ca.2, 2) + ha, fixed_digits(cb.2, 2) + hb);
        }
        lemma_field_then(ca.1, cb.1, 2, da, db);
        lemma_same_then(seq!['-'], fixed_digits(ca.1, 2) + da, fixed_digits(cb.1, 2) + db);
    }
    lemma_field_then(ca.0, cb.0, 4, ma, mb);
}

/// Whether `y` is a leap year.
pub fn is_leap(y: i64) -> (b: bool)
    ensures
        b == leap(y as int),
{
    (y % 4 == 0 && y % 100 != 0) || y % 400 == 0
}

/// Format a commit time without a date library: `YYYY-MM-DD HH:MM`, UTC.
pub fn format_timestamp(secs: i64) -> (s: String)
    ensures
        s@ == timestamp_text(secs as int),
{
    let (days, time_of_day) = trunc_divmod(secs, 86400);
    let (hours, hour_rem) = trunc_divmod(time_of_day, 3600);
    let (minutes, _) = trunc_divmod(hour_rem, 60);
    let mut y: i64 = 1970;
    let mut remaining: i64 = days;
    loop
        invariant
            1970 <= y,
            y - 1970 <= days - remaining,
            days == tdiv(secs as int, 86400),
            days <= i64::MAX / 86400 + 1,
            -(i64::MAX / 86400 + 1) <= days,
            -(i64::MAX / 86400 + 1) <= remaining <= days,
            year_walk(y as int, remaining as int) == year_walk(1970, days as int),
        ensures
            year_walk(1970, days as int) == (y as int, remaining as int),
            -(i64::MAX / 86400 + 1) <= remaining < 367,
        decreases remaining,
    {
        let days_in_year: i64 = if is_leap(y) {
            366
        } else {
            365
        };
        if remaining < days_in_year {
            break ;
        }
        remaining = remaining - days_in_year;
        y = y + 1;
    }
    let month_days: [i64; 12] = if is_leap(y) {
        [31, 29, 31, 30, 31, 30, 31, 31, 30, 31, 30, 31]
    } else {
        [31, 28, 31, 30, 31, 30, 31, 31, 30, 31, 30, 31]
    };
    let mut m: i64 = 0;
    let mut i: usize = 0;
    while i < 12
        invariant
            i <= 12,
            m == i,
            forall|k: int| 0 <= k < 12 ==> month_days@[k] == month_len(y as int, k),
            month_walk(y as int, m as int, remaining as int) == month_walk(
                y as int,
                0,
                year_walk(1970, days as int).1,
            ),
            -(i64::MAX / 86400 + 1) <= remaining < 367,
        ensures
            month_walk(y as int, 0, year_walk(1970, days as int).1) == (m as int, remaining as int),
            -(i64::MAX / 86400 + 1) <= remaining < 367,
            0 <= m <= 12,
        decreases 12 - i,
    {
        let days_in_month = month_days[i];
        if remaining < days_in_month {
            break ;
        }
        remaining = remaining - days_in_month;
        m = m + 1;
        i = i + 1;
    }
    let mut s = String::new();
    push_padded(&mut s, y, 4);
    s.push('-');
    push_padded(&mut s, m + 1, 2);
    s.push('-');
    push_padded(&mut s, remaining + 1, 2);
    s.push(' ');
    push_padded(&mut s, hours, 2);
    s.push(':');
    push_padded(&mut s, minutes, 2);
    assert(s@ =~= timestamp_text(secs as int));
    s
}

/// One file changed by a commit, with its text before and after.
pub struct CommitFile {
    pub path: String,
    pub old_content: String,
    pub new_content: String,
}

/// Result of computing a commit's side-by-side diff.
pub struct CommitDiffResult {
    pub left_lines: Vec<DiffLine>,
    pub right_lines: Vec<DiffLine>,
    pub hunks: Vec<Hunk>,
    /// File extension for each display line (for syntax highlighting).
    pub file_extensions: Vec<Option<String>>,
}

/// The header row of a file: `── path ──`.
pub open spec fn file_header(path: Seq<char>) -> Seq<char> {
    seq!['\u{2500}', '\u{2500}', ' '] + path + seq![' ', '\u{2500}', '\u{2500}']
}

pub open spec fn plain_row(text: Seq<char>) -> RowModel {
    (text, DiffLineKind::Equal, None)
}

/// A commit's side by side: left rows, right rows, hunks, row extensions.
pub type CommitModel = (Seq<RowModel>, Seq<RowModel>, Seq<(int, int)>, Seq<Option<Seq<char>>>);

/// The rows of a commit diff: for each file a header row and the rows of its
/// line diff, files separated by an empty row; hunks moved to their rows;
/// each file row tagged with the file's extension.
pub open spec fn commit_model(files: Seq<CommitFile>) -> CommitModel
    decreases files.len(),
{
    if files.len() == 0 {
        (Seq::empty(), Seq::empty(), Seq::empty(), Seq::empty())
    } else {
        let (l, r, h, x) = commit_model(files.drop_last());
        let f = files.last();
        let sep: Seq<RowModel> = if files.len() > 1 {
            seq![plain_row(Seq::empty())]
        } else {
            Seq::empty()
        };
        let sep_x: Seq<Option<Seq<char>>> = if files.len() > 1 {
            seq![None]
        } else {
            Seq::empty()
        };
        let cs = line_diff(f.old_content@, f.new_content@);
        let rows_l = diff_acc(cs).0;
        let rows_r = diff_acc(cs).1;
        let offset = l.len() + sep.len() + 1;
        (
            l + sep + seq![plain_row(file_header(f.path@))] + rows_l,
            r + sep + seq![plain_row(file_header(f.path@))] + rows_r,
            h + shifted(diff_hunks(cs), offset as int),
            x + sep_x + seq![None] + Seq::new(rows_l.len(), |_i: int| extension_of(f.path@)),
        )
    }
}

pub open spec fn ext_models(xs: Seq<Option<String>>) -> Seq<Option<Seq<char>>> {
    xs.map_values(
        |x: Option<String>|
            match x {
                Some(s) => Some(s@),
                None => None,
            },
    )
}

impl CommitDiffResult {
    pub open spec fn model(&self) -> CommitModel {
        (
            self.left_lines@.map_values(|d: DiffLine| d.model()),
            self.right_lines@.map_values(|d: DiffLine| d.model()),
            self.hunks@.map_values(|h: Hunk| h.model()),
            ext_models(self.file_extensions@),
        )
    }
}

fn plain_line(content: String) -> (d: DiffLine)
    ensures
        d.model() == plain_row(content@),
{
    DiffLine { content, kind: DiffLineKind::Equal, hunk_index: None }
}

fn header_text(path: &String) -> (s: String)
    ensures
        s@ == file_header(path@),
{
    let mut s = String::new();
    s.push('\u{2500}');
    s.push('\u{2500}');
    s.push(' ');
    s.push_str(path.as_str());
    s.push(' ');
    s.push('\u{2500}');
    s.push('\u{2500}');
    assert(s@ =~= file_header(path@));
    s
}

fn ext_of(path: &String) -> (x: Option<String>)
    ensures
        match x {
            Some(s) => extension_of(path@) == Some(s@),
            None => extension_of(path@) is None,
        },
{
    match file_extension(path.as_str()) {
        Some(e) => Some(String::from_str(e)),
        None => None,
    }
}

/// `n` copies of a file's extension, one per display row.
fn repeat_ext(ext: &Option<String>, n: usize) -> (xs: Vec<Option<String>>)
    ensures
        ext_models(xs@) == Seq::new(
            n as nat,
            |_i: int|
                match ext {
                    Some(s) => Some(s@),
                    None => None::<Seq<char>>,
                },
        ),
{
    let ghost xm = match ext {
        Some(s) => Some(s@),
        None => None::<Seq<char>>,
    };
    let mut xs: Vec<Option<String>> = Vec::new();
    let mut k: usize = 0;
    while k < n
        invariant
            k <= n,
            ext_models(xs@) == Seq::new(k as nat, |_i: int| xm),
            xm == match ext {
                Some(s) => Some(s@),
                None => None::<Seq<char>>,
            },
        decreases n - k,
    {
        let ghost bx = ext_models(xs@);
        let e = match ext {
            Some(s) => Some(s.clone()),
            None => None,
        };
        xs.push(e);
        assert(ext_models(xs@) =~= bx.push(xm));
        assert(Seq::new((k + 1) as nat, |_i: int| xm) =~= Seq::new(k as nat, |_i: int| xm).push(xm));
        k = k + 1;
    }
    xs
}

pub open spec fn shifted(hs: Seq<(int, int)>, offset: int) -> Seq<(int, int)> {
    hs.map_values(|hk: (int, int)| (hk.0 + offset, hk.1 + offset))
}

/// The hunks moved down by `offset` rows.
fn shift_hunks(hs: &Vec<Hunk>, offset: usize, limit: usize) -> (out: Vec<Hunk>)
    requires
        forall|q: int| 0 <= q < hs.len() ==> (#[trigger] hs[q]).display_end + offset <= limit,
        forall|q: int| 0 <= q < hs.len() ==> (#[trigger] hs[q]).display_start <= hs[q].display_end,
    ensures
        out@.map_values(|h: Hunk| h.model()) == shifted(hs@.map_values(|h: Hunk| h.model()), offset as int),
{
    let ghost fh = hs@.map_values(|h: Hunk| h.model());
    let mut out: Vec<Hunk> = Vec::new();
    let mut j: usize = 0;
    while j < hs.len()
        invariant
            j <= hs.len(),
            fh == hs@.map_values(|h: Hunk| h.model()),
            forall|q: int| 0 <= q < hs.len() ==> (#[trigger] hs[q]).display_end + offset <= limit,
            forall|q: int| 0 <= q < hs.len() ==> (#[trigger] hs[q]).display_start <= hs[q].display_end,
            out@.map_values(|h: Hunk| h.model()) == shifted(fh.take(j as int), offset as int),
        decreases hs.len() - j,
    {
        let h = hs[j];
        let ghost bh = out@.map_values(|h: Hunk| h.model());
        out.push(
            Hunk {
                display_start: h.display_start + offset,
                display_end: h.display_end + offset,
            },
        );
        assert(out@.map_values(|h: Hunk| h.model()) =~= bh.push(
            (h.display_start + offset, h.display_end + offset),
        ));
        assert(shifted(fh.take(j + 1), offset as int) =~= shifted(fh.take(j as int), offset as int).push(
            (fh[j as int].0 + offset, fh[j as int].1 + offset),
        ));
        j = j + 1;
    }
    assert(fh.take(hs.len() as int) =~= fh);
    out
}

/// The side-by-side diff of a commit's files, one after another.
pub fn build_commit_diff(files: &Vec<CommitFile>) -> (res: CommitDiffResult)
    ensures
        res.model() == commit_model(files@),
{
    let mut res = CommitDiffResult {
        left_lines: Vec::new(),
        right_lines: Vec::new(),
        hunks: Vec::new(),
        file_extensions: Vec::new(),
    };
    proof {
        assert(res.model() =~= commit_model(files@.take(0)));
    }
    let mut di: usize = 0;
    while di < files.len()
        invariant
            di <= files.len(),
            res.model() == commit_model(files@.take(di as int)),
        decreases files.len() - di,
    {
        assert(files@.take(di + 1).drop_last() =~= files@.take(di as int));
        let f = &files[di];
        let ghost prev = res.model();
        if di > 0 {
            res.left_lines.push(plain_line(String::new()));
            res.right_lines.push(plain_line(String::new()));
            res.file_extensions.push(None);
        }
        let ghost with_sep = res.model();
        res.left_lines.push(plain_line(header_text(&f.path)));
        res.right_lines.push(plain_line(header_text(&f.path)));
        res.file_extensions.push(None);
        let ghost with_header = res.model();
        let file_offset = res.left_lines.len();
        let (file_left, file_right, file_hunks) = compute_diff(
            f.old_content.as_str(),
            f.new_content.as_str(),
        );
        let ghost rows_l = file_left@.map_values(|d: DiffLine| d.model());
        let ghost rows_r = file_right@.map_values(|d: DiffLine| d.model());
        let ext = ext_of(&f.path);
        let xs = repeat_ext(&ext, file_left.len());
        let mut fl = file_left;
        let mut fr = file_right;
        res.left_lines.append(&mut fl);
        res.right_lines.append(&mut fr);
        let mut moved = shift_hunks(&file_hunks, file_offset, res.left_lines.len());
        let mut xs = xs;
        let ghost xs_model = ext_models(xs@);
        let ghost before_x = res.file_extensions@;
        res.hunks.append(&mut moved);
        res.file_extensions.append(&mut xs);
        assert(ext_models(res.file_extensions@) =~= ext_models(before_x) + xs_model);
        assert(xs_model =~= Seq::new(rows_l.len(), |_i: int| extension_of(f.path@)));
        assert(res.left_lines@.map_values(|d: DiffLine| d.model()) =~= with_header.0 + rows_l);
        assert(res.right_lines@.map_values(|d: DiffLine| d.model()) =~= with_header.1 + rows_r);
        proof {
            let fs = files@.take(di + 1);
            assert(fs.last() == *f);
            let cs = line_diff(f.old_content@, f.new_content@);
            let sep: Seq<RowModel> = if fs.len() > 1 {
                seq![plain_row(Seq::empty())]
            } else {
                Seq::empty()
            };
            let sep_x: Seq<Option<Seq<char>>> = if fs.len() > 1 {
                seq![None]
            } else {
                Seq::empty()
            };
            assert(with_header.0 =~= prev.0 + sep + seq![plain_row(file_header(f.path@))]);
            assert(with_header.1 =~= prev.1 + sep + seq![plain_row(file_header(f.path@))]);
            assert(with_header.2 =~= prev.2);
            assert(with_header.3 =~= prev.3 + sep_x + seq![None]);
            assert(rows_l == diff_acc(cs).0);
            assert(rows_r == diff_acc(cs).1);
            assert(res.model().0 == with_header.0 + rows_l);
            assert(res.model().1 == with_header.1 + rows_r);
            assert(res.model().2 =~= prev.2 + shifted(diff_hunks(cs), file_offset as int));
            assert(res.model().3 =~= prev.3 + sep_x + seq![None] + Seq::new(
                rows_l.len(),
                |_i: int| extension_of(f.path@),
            ));
            assert(res.model() =~= commit_model(fs));
        }
        di = di + 1;
    }
    assert(files@.take(files.len() as int) =~= files@);
    res
}

} // verus!
