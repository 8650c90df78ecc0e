//! Text operations on strings, each specified over the string's characters.

use vstd::prelude::*;

verus! {

/// The character views of a sequence of strings.
pub open spec fn views_of(v: Seq<String>) -> Seq<Seq<char>> {
    v.map_values(|s: String| s@)
}

/// Whether two strings hold the same characters.
pub fn same_text(a: &str, b: &str) -> (r: bool)
    ensures
        r == (a@ == b@),
{
    let n = a.unicode_len();
    if n != b.unicode_len() {
        return false;
    }
    let mut i: usize = 0;
    while i < n
        invariant
            n == a@.len(),
            n == b@.len(),
            i <= n,
            forall|j: int| 0 <= j < i ==> a@[j] == b@[j],
        decreases n - i,
    {
        if a.get_char(i) != b.get_char(i) {
            return false;
        }
        i = i + 1;
    }
    assert(a@ =~= b@);
    true
}

/// A copy of a string slice.
pub fn owned(s: &str) -> (r: String)
    ensures
        r@ == s@,
{
    String::from_str(s)
}

// ---------------------------------------------------------------- whitespace

/// The characters with the Unicode `White_Space` property, which is what
/// `char::is_whitespace` tests.
pub open spec fn is_white_space(c: char) -> bool {
    ||| ('\u{9}' <= c && c <= '\u{d}')
    ||| c == ' '
    ||| c == '\u{85}'
    ||| c == '\u{a0}'
    ||| c == '\u{1680}'
    ||| ('\u{2000}' <= c && c <= '\u{200a}')
    ||| c == '\u{2028}'
    ||| c == '\u{2029}'
    ||| c == '\u{202f}'
    ||| c == '\u{205f}'
    ||| c == '\u{3000}'
}

/// Whether a character is white space.
pub fn white_space(c: char) -> (r: bool)
    ensures
        r == is_white_space(c),
{
    ('\u{9}' <= c && c <= '\u{d}') || c == ' ' || c == '\u{85}' || c == '\u{a0}' || c
        == '\u{1680}' || ('\u{2000}' <= c && c <= '\u{200a}') || c == '\u{2028}' || c
        == '\u{2029}' || c == '\u{202f}' || c == '\u{205f}' || c == '\u{3000}'
}

/// The sequence without its leading white space.
pub open spec fn trim_start(s: Seq<char>) -> Seq<char>
    decreases s.len(),
{
    if s.len() > 0 && is_white_space(s[0]) {
        trim_start(s.drop_first())
    } else {
        s
    }
}

/// The sequence without its trailing white space.
pub open spec fn trim_end(s: Seq<char>) -> Seq<char>
    decreases s.len(),
{
    if s.len() > 0 && is_white_space(s.last()) {
        trim_end(s.drop_last())
    } else {
        s
    }
}

/// The sequence without leading and trailing white space, as `str::trim`.
pub open spec fn trimmed(s: Seq<char>) -> Seq<char> {
    trim_end(trim_start(s))
}

/// A copy of the string without leading and trailing white space.
pub fn trim(s: &str) -> (r: String)
    ensures
        r@ == trimmed(s@),
{
    let n = s.unicode_len();
    let mut a: usize = 0;
    assert(s@.subrange(0, n as int) =~= s@);
    while a < n && white_space(s.get_char(a))
        invariant
            n == s@.len(),
            a <= n,
            trim_start(s@) == trim_start(s@.subrange(a as int, n as int)),
        decreases n - a,
    {
        assert(s@.subrange(a as int, n as int).drop_first() =~= s@.subrange(a + 1, n as int));
        a = a + 1;
    }
    assert(trim_start(s@.subrange(a as int, n as int)) == s@.subrange(a as int, n as int));
    let mut b: usize = n;
    while b > a && white_space(s.get_char(b - 1))
        invariant
            n == s@.len(),
            a <= b <= n,
            trim_end(s@.subrange(a as int, n as int)) == trim_end(s@.subrange(a as int, b as int)),
        decreases b,
    {
        assert(s@.subrange(a as int, b as int).drop_last() =~= s@.subrange(a as int, b - 1));
        b = b - 1;
    }
    assert(trim_end(s@.subrange(a as int, b as int)) == s@.subrange(a as int, b as int));
    owned(s.substring_char(a, b))
}

// --------------------------------------------------------------------- lines

/// The line `cur` without one trailing carriage return.
pub open spec fn without_cr(cur: Seq<char>) -> Seq<char> {
    if cur.len() > 0 && cur.last() == '\r' {
        cur.drop_last()
    } else {
        cur
    }
}

/// The lines of `s`, where `cur` holds the characters of the current line
/// read so far: a line ends at a line feed, which is dropped together with a
/// carriage return right before it; a last line without a line feed is kept
/// as it is when it is not empty.
pub open spec fn lines_after(s: Seq<char>, cur: Seq<char>) -> Seq<Seq<char>>
    decreases s.len(),
{
    if s.len() == 0 {
        if cur.len() == 0 {
            seq![]
        } else {
            seq![cur]
        }
    } else if s[0] == '\n' {
        seq![without_cr(cur)] + lines_after(s.drop_first(), seq![])
    } else {
        lines_after(s.drop_first(), cur.push(s[0]))
    }
}

/// The lines of a text, as `str::lines` yields them.
pub open spec fn lines_of(s: Seq<char>) -> Seq<Seq<char>> {
    lines_after(s, seq![])
}

/// The lines of a text, each as a string of its own.
pub fn split_lines(s: &str) -> (r: Vec<String>)
    ensures
        views_of(r@) == lines_of(s@),
{
    let n = s.unicode_len();
    let mut out: Vec<String> = Vec::new();
    let mut start: usize = 0;
    let mut i: usize = 0;
    assert(s@.subrange(0, 0) =~= Seq::<char>::empty());
    assert(s@.skip(0) =~= s@);
    while i < n
        invariant
            n == s@.len(),
            start <= i <= n,
            lines_of(s@) == views_of(out@) + lines_after(s@.skip(i as int), s@.subrange(
                start as int,
                i as int,
            )),
        decreases n - i,
    {
        let c = s.get_char(i);
        let ghost rest = s@.skip(i as int);
        assert(rest[0] == c);
        assert(rest.drop_first() =~= s@.skip(i + 1));
        if c == '\n' {
            let ghost cur = s@.subrange(start as int, i as int);
            let end: usize = if i > start && s.get_char(i - 1) == '\r' {
                i - 1
            } else {
                i
            };
            assert(s@.subrange(start as int, end as int) =~= without_cr(cur));
            let line = owned(s.substring_char(start, end));
            let ghost before = views_of(out@);
            out.push(line);
            assert(views_of(out@) =~= before.push(line@));
            assert(s@.subrange(i + 1, i + 1) =~= Seq::<char>::empty());
            assert(views_of(out@) + lines_after(s@.skip(i + 1), seq![]) =~= before + (seq![
                without_cr(cur),
            ] + lines_after(s@.skip(i + 1), seq![])));
            start = i + 1;
        } else {
            assert(s@.subrange(start as int, i as int).push(c) =~= s@.subrange(
                start as int,
                i + 1,
            ));
        }
        i = i + 1;
    }
    assert(s@.skip(n as int) =~= Seq::<char>::empty());
    if start < n {
        let ghost before = views_of(out@);
        let line = owned(s.substring_char(start, n));
        out.push(line);
        assert(views_of(out@) =~= before.push(line@));
    } else {
        assert(views_of(out@) + Seq::<Seq<char>>::empty() =~= views_of(out@));
    }
    out
}

// ------------------------------------------------------------- replacement

/// Whether `pat` occurs in `s` at position `i`.
pub open spec fn occurs_at(s: Seq<char>, pat: Seq<char>, i: int) -> bool {
    0 <= i && i + pat.len() <= s.len() && s.subrange(i, i + pat.len()) == pat
}

/// `s` with every occurrence of the non-empty `pat` removed, the occurrences
/// taken from left to right without overlap, as `s.replace(pat, "")` does.
pub open spec fn remove_all(s: Seq<char>, pat: Seq<char>) -> Seq<char>
    decreases s.len(),
{
    if s.len() == 0 {
        s
    } else if pat.len() > 0 && occurs_at(s, pat, 0) {
        remove_all(s.skip(pat.len() as int), pat)
    } else {
        seq![s[0]] + remove_all(s.drop_first(), pat)
    }
}

fn occurs_at_exec(s: &str, n: usize, pat: &str, m: usize, i: usize) -> (r: bool)
    requires
        n == s@.len(),
        m == pat@.len(),
        i <= n,
    ensures
        r == occurs_at(s@, pat@, i as int),
{
    if m > n - i {
        return false;
    }
    let mut j: usize = 0;
    while j < m
        invariant
            n == s@.len(),
            m == pat@.len(),
            i + m <= n,
            j <= m,
            forall|k: int| 0 <= k < j ==> s@[i + k] == pat@[k],
        decreases m - j,
    {
        if s.get_char(i + j) != pat.get_char(j) {
            assert(s@.subrange(i as int, i + m)[j as int] != pat@[j as int]);
            return false;
        }
        j = j + 1;
    }
    assert(s@.subrange(i as int, i + m) =~= pat@);
    true
}

/// A copy of `s` with every occurrence of the non-empty `pat` removed.
pub(crate) fn remove_occurrences(s: &str, pat: &str) -> (r: String)
    requires
        pat@.len() > 0,
    ensures
        r@ == remove_all(s@, pat@),
{
    let n = s.unicode_len();
    let m = pat.unicode_len();
    let mut out = String::new();
    let mut start: usize = 0;
    let mut i: usize = 0;
    assert(s@.skip(0) =~= s@);
    assert(s@.subrange(0, 0) =~= Seq::<char>::empty());
    while i < n
        invariant
            n == s@.len(),
            m == pat@.len(),
            m > 0,
            start <= i <= n,
            remove_all(s@, pat@) == out@ + s@.subrange(start as int, i as int) + remove_all(
                s@.skip(i as int),
                pat@,
            ),
        decreases n - i,
    {
        let ghost rest = s@.skip(i as int);
        if occurs_at_exec(s, n, pat, m, i) {
            assert(rest.subrange(0, m as int) =~= s@.subrange(i as int, i + m));
            assert(rest.skip(m as int) =~= s@.skip(i + m));
            out.append(s.substring_char(start, i));
            i = i + m;
            start = i;
            assert(s@.subrange(start as int, start as int) =~= Seq::<char>::empty());
            assert(remove_all(s@, pat@) =~= out@ + s@.subrange(start as int, i as int)
                + remove_all(s@.skip(i as int), pat@));
        } else {
            assert(!occurs_at(rest, pat@, 0)) by {
                if occurs_at(rest, pat@, 0) {
                    assert(rest.subrange(0, m as int) =~= s@.subrange(i as int, i + m));
                }
            }
            assert(rest.drop_first() =~= s@.skip(i + 1));
            assert(s@.subrange(start as int, i as int) + seq![rest[0]] =~= s@.subrange(
                start as int,
                i + 1,
            ));
            i = i + 1;
            assert(remove_all(s@, pat@) =~= out@ + s@.subrange(start as int, i as int)
                + remove_all(s@.skip(i as int), pat@));
        }
    }
    assert(s@.skip(n as int) =~= Seq::<char>::empty());
    out.append(s.substring_char(start, n));
    assert(remove_all(s@, pat@) =~= out@);
    out
}

// ------------------------------------------------------------- path pieces

/// What follows the last `/` of `s`, or all of `s` when it holds none.
pub open spec fn after_last_slash(s: Seq<char>) -> Seq<char>
    decreases s.len(),
{
    if s.len() == 0 {
        s
    } else if s.last() == '/' {
        seq![]
    } else {
        after_last_slash(s.drop_last()).push(s.last())
    }
}

/// What follows the last `/` of `s`.
pub(crate) fn last_slash_piece(s: &str) -> (r: String)
    ensures
        r@ == after_last_slash(s@),
{
    let n = s.unicode_len();
    let mut k: usize = n;
    assert(s@.subrange(0, n as int) =~= s@);
    assert(s@.subrange(n as int, n as int) =~= Seq::<char>::empty());
    while k > 0 && s.get_char(k - 1) != '/'
        invariant
            n == s@.len(),
            k <= n,
            after_last_slash(s@) == after_last_slash(s@.subrange(0, k as int)) + s@.subrange(
                k as int,
                n as int,
            ),
        decreases k,
    {
        let ghost pre = s@.subrange(0, k as int);
        assert(pre.drop_last() =~= s@.subrange(0, k - 1));
        assert(seq![pre.last()] + s@.subrange(k as int, n as int) =~= s@.subrange(k - 1, n as int));
        assert(after_last_slash(pre) == after_last_slash(s@.subrange(0, k - 1)).push(pre.last()));
        assert(after_last_slash(s@.subrange(0, k - 1)).push(pre.last()) + s@.subrange(
            k as int,
            n as int,
        ) =~= after_last_slash(s@.subrange(0, k - 1)) + s@.subrange(k - 1, n as int));
        k = k - 1;
    }
    assert(after_last_slash(s@.subrange(0, k as int)) =~= Seq::<char>::empty());
    assert(after_last_slash(s@) =~= s@.subrange(k as int, n as int));
    owned(s.substring_char(k, n))
}

// ---------------------------------------------------------------- numbers

/// The decimal digit for `d`, below ten.
pub open spec fn digit_char(d: int) -> char {
    if d == 0 {
        '0'
    } else if d == 1 {
        '1'
    } else if d == 2 {
        '2'
    } else if d == 3 {
        '3'
    } else if d == 4 {
        '4'
    } else if d == 5 {
        '5'
    } else if d == 6 {
        '6'
    } else if d == 7 {
        '7'
    } else if d == 8 {
        '8'
    } else {
        '9'
    }
}

/// The decimal numeral of `n`, without leading zeros, as `{}` writes it.
pub open spec fn decimal(n: nat) -> Seq<char>
    decreases n,
{
    if n < 10 {
        seq![digit_char(n as int)]
    } else {
        decimal(n / 10).push(digit_char((n % 10) as int))
    }
}

fn digit_text(d: u64) -> (r: &'static str)
    requires
        d < 10,
    ensures
        r@ == seq![digit_char(d as int)],
{
    proof {
        reveal_strlit("0");
        reveal_strlit("1");
        reveal_strlit("2");
        reveal_strlit("3");
        reveal_strlit("4");
        reveal_strlit("5");
        reveal_strlit("6");
        reveal_strlit("7");
        reveal_strlit("8");
        reveal_strlit("9");
    }
    if d == 0 {
        "0"
    } else if d == 1 {
        "1"
    } else if d == 2 {
        "2"
    } else if d == 3 {
        "3"
    } else if d == 4 {
        "4"
    } else if d == 5 {
        "5"
    } else if d == 6 {
        "6"
    } else if d == 7 {
        "7"
    } else if d == 8 {
        "8"
    } else {
        "9"
    }
}

/// The decimal numeral of `n`.
pub fn decimal_text(n: u64) -> (r: String)
    ensures
        r@ == decimal(n as nat),
    decreases n,
{
    if n < 10 {
        owned(digit_text(n))
    } else {
        let mut s = decimal_text(n / 10);
        s.append(digit_text(n % 10));
        s
    }
}

// ---------------------------------------------------------------- padding

/// `count` copies of the character `c`.
pub open spec fn repeat_char(c: char, count: nat) -> Seq<char> {
    Seq::new(count, |i: int| c)
}

fn repeated(unit: &str, count: usize) -> (r: String)
    requires
        unit@.len() == 1,
    ensures
        r@ == repeat_char(unit@[0], count as nat),
{
    let mut out = String::new();
    let mut i: usize = 0;
    while i < count
        invariant
            unit@.len() == 1,
            i <= count,
            out@ == repeat_char(unit@[0], i as nat),
        decreases count - i,
    {
        out.append(unit);
        i = i + 1;
        assert(out@ =~= repeat_char(unit@[0], i as nat));
    }
    out
}

/// `count` spaces.
pub fn spaces(count: usize) -> (r: String)
    ensures
        r@ == repeat_char(' ', count as nat),
{
    proof {
        reveal_strlit(" ");
    }
    repeated(" ", count)
}

/// `count` dashes.
pub fn dashes(count: usize) -> (r: String)
    ensures
        r@ == repeat_char('-', count as nat),
{
    proof {
        reveal_strlit("-");
    }
    repeated("-", count)
}

/// `s` centred in a field of `width` characters, as `{:^width$}` writes it:
/// of the padding, the smaller half goes to the left.
pub open spec fn centered(s: Seq<char>, width: nat) -> Seq<char> {
    if s.len() >= width {
        s
    } else {
        let pad = (width - s.len()) as nat;
        repeat_char(' ', pad / 2) + s + repeat_char(' ', (pad - pad / 2) as nat)
    }
}

/// `s` aligned left in a field of `width` characters, as `{:<width$}` writes it.
pub open spec fn left_aligned(s: Seq<char>, width: nat) -> Seq<char> {
    if s.len() >= width {
        s
    } else {
        s + repeat_char(' ', (width - s.len()) as nat)
    }
}

/// `s` centred in a field of `width` characters.
pub fn center(s: &str, width: usize) -> (r: String)
    ensures
        r@ == centered(s@, width as nat),
{
    let n = s.unicode_len();
    if n >= width {
        owned(s)
    } else {
        let pad = width - n;
        let mut out = spaces(pad / 2);
        out.append(s);
        let right = spaces(pad - pad / 2);
        out.append(right.as_str());
        out
    }
}

/// `s` aligned left in a field of `width` characters.
pub fn align_left(s: &str, width: usize) -> (r: String)
    ensures
        r@ == left_aligned(s@, width as nat),
{
    let n = s.unicode_len();
    let mut out = owned(s);
    if n < width {
        let right = spaces(width - n);
        out.append(right.as_str());
    }
    out
}

// -------------------------------------------------------------------- laws

/// No line that `lines_after` yields holds a line feed, where the line read
/// so far holds none.
proof fn lines_after_hold_no_feed(s: Seq<char>, cur: Seq<char>)
    requires
        !cur.contains('\n'),
    ensures
        forall|i: int| 0 <= i < lines_after(s, cur).len() ==> !(#[trigger] lines_after(s, cur)[i]).contains('\n'),
    decreases s.len(),
{
    if s.len() == 0 {
        if cur.len() > 0 {
            assert(lines_after(s, cur) =~= seq![cur]);
        }
    } else if s[0] == '\n' {
        lines_after_hold_no_feed(s.drop_first(), seq![]);
        assert(!without_cr(cur).contains('\n')) by {
            if without_cr(cur).contains('\n') {
                let k = choose|k: int| 0 <= k < without_cr(cur).len() && without_cr(cur)[k] == '\n';
                assert(cur[k] == '\n');
            }
        }
        let rest = lines_after(s.drop_first(), seq![]);
        assert(lines_after(s, cur) == seq![without_cr(cur)] + rest);
        assert forall|i: int| 0 <= i < lines_after(s, cur).len() implies !(#[trigger] lines_after(s, cur)[i]).contains('\n') by {
            if i > 0 {
                assert(lines_after(s, cur)[i] == rest[i - 1]);
            } else {
                assert(lines_after(s, cur)[i] == without_cr(cur));
            }
        }
    } else {
        assert(!cur.push(s[0]).contains('\n')) by {
            if cur.push(s[0]).contains('\n') {
                let k = choose|k: int| 0 <= k < cur.push(s[0]).len() && cur.push(s[0])[k] == '\n';
                if k < cur.len() {
                    assert(cur[k] == '\n');
                }
            }
        }
        lines_after_hold_no_feed(s.drop_first(), cur.push(s[0]));
        assert(lines_after(s, cur) == lines_after(s.drop_first(), cur.push(s[0])));
    }
}

/// Every line of a text is free of line feeds.
pub proof fn lines_hold_no_line_feed(s: Seq<char>)
    ensures
        forall|i: int| 0 <= i < lines_of(s).len() ==> !(#[trigger] lines_of(s)[i]).contains('\n'),
{
    lines_after_hold_no_feed(s, seq![]);
}

/// The number that a numeral of decimal digits stands for.
pub open spec fn numeral_value(s: Seq<char>) -> int
    decreases s.len(),
{
    if s.len() == 0 {
        0
    } else {
        numeral_value(s.drop_last()) * 10 + (s.last() as int - '0' as int)
    }
}

proof fn digit_char_value(k: int)
    requires
        0 <= k < 10,
    ensures
        digit_char(k) as int - '0' as int == k,
        '0' <= digit_char(k) <= '9',
{
}

/// A decimal numeral stands for the number it was written for, and holds
/// only the digits `0` to `9`.
pub proof fn decimal_reads_back(n: nat)
    ensures
        numeral_value(decimal(n)) == n,
        forall|i: int| 0 <= i < decimal(n).len() ==> '0' <= #[trigger] decimal(n)[i] <= '9',
    decreases n,
{
    digit_char_value((n % 10) as int);
    assert(numeral_value(Seq::<char>::empty()) == 0);
    if n >= 10 {
        decimal_reads_back(n / 10);
        let d = decimal(n / 10);
        assert(decimal(n).drop_last() =~= d);
        assert((n / 10) * 10 + n % 10 == n) by (nonlinear_arith);
        assert forall|i: int| 0 <= i < decimal(n).len() implies '0' <= #[trigger] decimal(n)[i] <= '9' by {
            if i < d.len() {
                assert(decimal(n)[i] == d[i]);
            }
        }
    } else {
        assert(decimal(n).drop_last() =~= Seq::<char>::empty());
    }
}

/// A text centred in a field is as wide as the field where it fits, and is
/// left as it is otherwise; its padding on the left is at most that on the
/// right, and at most one less.
pub proof fn centering_fills_the_field(s: Seq<char>, width: nat)
    ensures
        s.len() <= width ==> centered(s, width).len() == width,
        s.len() >= width ==> centered(s, width) == s,
        s.len() <= width ==> centered(s, width).subrange(
            ((width - s.len()) / 2) as int,
            ((width - s.len()) / 2 + s.len()) as int,
        ) == s,
{
    if s.len() < width {
        let pad = (width - s.len()) as nat;
        let r = centered(s, width);
        assert(r.subrange((pad / 2) as int, (pad / 2 + s.len()) as int) =~= s);
    } else if s.len() == width {
        assert(centered(s, width).subrange(0, s.len() as int) =~= s);
    }
}

proof fn trim_start_is_suffix(s: Seq<char>)
    ensures
        trim_start(s).len() <= s.len(),
        trim_start(s) == s.skip(s.len() - trim_start(s).len()),
        trim_start(s).len() > 0 ==> !is_white_space(trim_start(s)[0]),
        forall|i: int| 0 <= i < s.len() - trim_start(s).len() ==> is_white_space(#[trigger] s[i]),
    decreases s.len(),
{
    if s.len() > 0 && is_white_space(s[0]) {
        trim_start_is_suffix(s.drop_first());
        let t = trim_start(s.drop_first());
        assert(s.drop_first().skip(s.drop_first().len() - t.len()) =~= s.skip(s.len() - t.len()));
        assert forall|i: int| 0 <= i < s.len() - t.len() implies is_white_space(#[trigger] s[i]) by {
            if i > 0 {
                assert(s[i] == s.drop_first()[i - 1]);
            }
        }
    } else {
        assert(s.skip(0) =~= s);
    }
}

proof fn trim_end_is_prefix(s: Seq<char>)
    ensures
        trim_end(s).len() <= s.len(),
        trim_end(s) == s.take(trim_end(s).len() as int),
        trim_end(s).len() > 0 ==> !is_white_space(trim_end(s).last()),
        forall|i: int| trim_end(s).len() <= i < s.len() ==> is_white_space(#[trigger] s[i]),
    decreases s.len(),
{
    if s.len() > 0 && is_white_space(s.last()) {
        trim_end_is_prefix(s.drop_last());
        let t = trim_end(s.drop_last());
        assert(s.drop_last().take(t.len() as int) =~= s.take(t.len() as int));
        assert forall|i: int| t.len() <= i < s.len() implies is_white_space(#[trigger] s[i]) by {
            if i < s.len() - 1 {
                assert(s[i] == s.drop_last()[i]);
            }
        }
    } else {
        assert(s.take(s.len() as int) =~= s);
    }
}

/// A trimmed text neither starts nor ends with white space, and trimming it
/// again leaves it as it is.
pub proof fn trimmed_has_no_outer_white_space(s: Seq<char>)
    ensures
        trimmed(s).len() > 0 ==> !is_white_space(trimmed(s)[0]) && !is_white_space(
            trimmed(s).last(),
        ),
        trimmed(trimmed(s)) == trimmed(s),
{
    let a = trim_start(s);
    trim_start_is_suffix(s);
    trim_end_is_prefix(a);
    let t = trim_end(a);
    if t.len() > 0 {
        assert(t[0] == a[0]);
    }
    trim_start_is_suffix(t);
    if t.len() > 0 {
        assert(trim_start(t) == t);
    } else {
        assert(trim_start(t) == t);
    }
    trim_end_is_prefix(t);
    assert(trim_end(t) == t);
}

/// A decimal numeral of a number other than zero does not start with `0`,
/// and no numeral is empty.
pub proof fn decimal_has_no_leading_zero(n: nat)
    ensures
        decimal(n).len() > 0,
        n >= 1 ==> decimal(n)[0] != '0',
    decreases n,
{
    if n >= 10 {
        decimal_has_no_leading_zero(n / 10);
        assert(decimal(n)[0] == decimal(n / 10)[0]);
    }
}

/// A numeral as `{}` writes it: digits only, at least one, and no leading
/// zero unless it is `0` itself.
pub open spec fn is_plain_numeral(s: Seq<char>) -> bool {
    &&& s.len() > 0
    &&& forall|i: int| 0 <= i < s.len() ==> '0' <= #[trigger] s[i] <= '9'
    &&& (s.len() == 1 || s[0] != '0')
}

/// Every decimal numeral is a plain numeral.
pub proof fn decimal_is_plain(n: nat)
    ensures
        is_plain_numeral(decimal(n)),
        numeral_value(decimal(n)) == n,
{
    decimal_reads_back(n);
    decimal_has_no_leading_zero(n);
    if n == 0 {
        assert(decimal(n).len() == 1);
    }
}

/// What follows the last `/` holds no `/`, and the text is what comes
/// before it, ending in `/` or empty, followed by it.
pub proof fn last_slash_piece_splits_the_text(s: Seq<char>)
    ensures
        !after_last_slash(s).contains('/'),
        after_last_slash(s).len() <= s.len(),
        s == s.take(s.len() - after_last_slash(s).len()) + after_last_slash(s),
        after_last_slash(s).len() < s.len() ==> s[s.len() - after_last_slash(s).len() - 1] == '/',
    decreases s.len(),
{
    if s.len() == 0 {
    } else if s.last() == '/' {
        assert(s.take(s.len() as int) =~= s);
        assert(s.take(s.len() as int) + Seq::<char>::empty() =~= s);
    } else {
        let p = s.drop_last();
        last_slash_piece_splits_the_text(p);
        let t = after_last_slash(p);
        assert(after_last_slash(s) == t.push(s.last()));
        assert(!t.push(s.last()).contains('/')) by {
            if t.push(s.last()).contains('/') {
                let k = choose|k: int| 0 <= k < t.push(s.last()).len() && t.push(s.last())[k] == '/';
                if k < t.len() {
                    assert(t[k] == '/');
                }
            }
        }
        assert(s.take(s.len() - t.len() - 1) =~= p.take(p.len() - t.len()));
        let pre = p.take(p.len() - t.len());
        assert(s =~= p.push(s.last()));
        assert((pre + t).push(s.last()) =~= pre + t.push(s.last()));
        assert(s =~= pre + t.push(s.last()));
    }
}

/// `count` copies of a character are `count` characters, each that one.
pub proof fn repeat_char_is_uniform(c: char, count: nat)
    ensures
        repeat_char(c, count).len() == count,
        forall|i: int| 0 <= i < count ==> #[trigger] repeat_char(c, count)[i] == c,
{
}

/// A text aligned left in a field starts with the text, is as wide as the
/// field where the text fits and as the text otherwise, and is spaces after
/// the text.
pub proof fn left_alignment_pads_with_spaces(s: Seq<char>, width: nat)
    ensures
        left_aligned(s, width).len() == if s.len() >= width { s.len() } else { width },
        left_aligned(s, width).take(s.len() as int) == s,
        forall|i: int| s.len() <= i < left_aligned(s, width).len() ==> #[trigger] left_aligned(s, width)[i] == ' ',
{
    assert(left_aligned(s, width).take(s.len() as int) =~= s);
}

/// A centred text is spaces around the text: all that stands before and
/// after the text is spaces.
pub proof fn centering_pads_with_spaces(s: Seq<char>, width: nat)
    ensures
        s.len() < width ==> forall|i: int|
            0 <= i < centered(s, width).len() && !((width - s.len()) / 2 <= i < (width - s.len()) / 2 + s.len())
                ==> #[trigger] centered(s, width)[i] == ' ',
{
}

/// Trimming takes away white space at the ends and nothing else: the
/// trimmed text stands in the text at some position, with only white space
/// before and after it.
pub proof fn trim_takes_only_outer_white_space(s: Seq<char>)
    ensures
        exists|k: int|
            0 <= k && k + trimmed(s).len() <= s.len() && #[trigger] s.subrange(k, k + trimmed(s).len())
                == trimmed(s) && (forall|i: int| 0 <= i < k ==> is_white_space(#[trigger] s[i])) && (
            forall|i: int| k + trimmed(s).len() <= i < s.len() ==> is_white_space(#[trigger] s[i])),
{
    let a = trim_start(s);
    trim_start_is_suffix(s);
    trim_end_is_prefix(a);
    let t = trim_end(a);
    let k = s.len() - a.len();
    assert(s.subrange(k, k + t.len()) =~= t);
    assert(a =~= s.skip(k));
    assert forall|i: int| k + t.len() <= i < s.len() implies is_white_space(#[trigger] s[i]) by {
        assert(s[i] == a[i - k]);
        assert(is_white_space(a[i - k]));
    }
    assert(trimmed(s) == t);
    assert(0 <= k && k + trimmed(s).len() <= s.len() && s.subrange(k, k + trimmed(s).len())
        == trimmed(s) && (forall|i: int| 0 <= i < k ==> is_white_space(#[trigger] s[i])) && (
    forall|i: int| k + trimmed(s).len() <= i < s.len() ==> is_white_space(#[trigger] s[i])));
}

proof fn occurs_later(s: Seq<char>, pat: Seq<char>, i: int)
    requires
        s.len() > 0,
        occurs_at(s.drop_first(), pat, i),
    ensures
        occurs_at(s, pat, i + 1),
{
    assert(s.subrange(i + 1, i + 1 + pat.len()) =~= s.drop_first().subrange(i, i + pat.len()));
}

proof fn occurs_earlier(s: Seq<char>, pat: Seq<char>, i: int)
    requires
        s.len() > 0,
        i >= 1,
        occurs_at(s, pat, i),
    ensures
        occurs_at(s.drop_first(), pat, i - 1),
{
    assert(s.subrange(i, i + pat.len()) =~= s.drop_first().subrange(i - 1, i - 1 + pat.len()));
}

/// Removing a pattern never lengthens the text; it shortens it by at least
/// the pattern where the pattern occurs, and leaves it as it is where the
/// pattern does not occur.
pub proof fn removal_takes_out_occurrences(s: Seq<char>, pat: Seq<char>)
    requires
        pat.len() > 0,
    ensures
        remove_all(s, pat).len() <= s.len(),
        (exists|i: int| occurs_at(s, pat, i)) ==> remove_all(s, pat).len() + pat.len() <= s.len(),
        !(exists|i: int| occurs_at(s, pat, i)) ==> remove_all(s, pat) == s,
    decreases s.len(),
{
    if s.len() == 0 {
        if exists|i: int| occurs_at(s, pat, i) {
            let i = choose|i: int| occurs_at(s, pat, i);
            assert(false);
        }
    } else if occurs_at(s, pat, 0) {
        let rest = s.skip(pat.len() as int);
        removal_takes_out_occurrences(rest, pat);
    } else {
        let rest = s.drop_first();
        removal_takes_out_occurrences(rest, pat);
        if exists|i: int| occurs_at(s, pat, i) {
            let i = choose|i: int| occurs_at(s, pat, i);
            assert(i != 0);
            occurs_earlier(s, pat, i);
        } else {
            if exists|i: int| occurs_at(rest, pat, i) {
                let i = choose|i: int| occurs_at(rest, pat, i);
                occurs_later(s, pat, i);
            }
            assert(seq![s[0]] + rest =~= s);
        }
    }
}

/// The lines written back one after another, each ended by a line feed.
pub open spec fn joined_lines(ls: Seq<Seq<char>>) -> Seq<char>
    decreases ls.len(),
{
    if ls.len() == 0 {
        seq![]
    } else {
        ls[0] + seq!['\n'] + joined_lines(ls.drop_first())
    }
}

/// A text with a line feed added at its end where it is not empty and does
/// not end with one.
pub open spec fn line_closed(t: Seq<char>) -> Seq<char> {
    if t.len() > 0 && t.last() != '\n' {
        t.push('\n')
    } else {
        t
    }
}

/// Whether no character of `s` is `c`.
pub open spec fn lacks(s: Seq<char>, c: char) -> bool {
    forall|i: int| 0 <= i < s.len() ==> s[i] != c
}

proof fn lines_after_join_back(s: Seq<char>, cur: Seq<char>)
    requires
        lacks(s, '\r'),
        lacks(cur, '\r'),
        lacks(cur, '\n'),
    ensures
        joined_lines(lines_after(s, cur)) == line_closed(cur + s),
    decreases s.len(),
{
    if s.len() == 0 {
        assert(cur + s =~= cur);
        if cur.len() > 0 {
            let ls = lines_after(s, cur);
            assert(ls =~= seq![cur]);
            assert(ls.drop_first() =~= Seq::<Seq<char>>::empty());
            assert(joined_lines(ls.drop_first()) =~= Seq::<char>::empty());
            assert(ls[0] == cur);
            assert(cur.last() != '\n');
            assert(joined_lines(ls) =~= cur.push('\n'));
        } else {
            assert(lines_after(s, cur) =~= Seq::<Seq<char>>::empty());
        }
    } else if s[0] == '\n' {
        let rest = s.drop_first();
        lines_after_join_back(rest, seq![]);
        assert(without_cr(cur) == cur);
        let ls = lines_after(s, cur);
        let tail = lines_after(rest, seq![]);
        assert(ls == seq![cur] + tail);
        assert(ls.drop_first() =~= tail);
        assert(seq![] + rest =~= rest);
        assert(cur + s =~= cur + seq!['\n'] + rest);
        if rest.len() == 0 {
            assert(joined_lines(ls) =~= line_closed(cur + s));
        } else {
            assert((cur + s).last() == rest.last());
            assert(joined_lines(ls) =~= line_closed(cur + s));
        }
    } else {
        let rest = s.drop_first();
        let c2 = cur.push(s[0]);
        assert(lacks(c2, '\r') && lacks(c2, '\n')) by {
            assert forall|i: int| 0 <= i < c2.len() implies c2[i] != '\r' && c2[i] != '\n' by {
                if i < cur.len() {
                    assert(c2[i] == cur[i]);
                }
            }
        }
        assert(lacks(rest, '\r')) by {
            assert forall|i: int| 0 <= i < rest.len() implies rest[i] != '\r' by {
                assert(rest[i] == s[i + 1]);
            }
        }
        lines_after_join_back(rest, c2);
        assert(c2 + rest =~= cur + s);
    }
}

/// The lines of a text without carriage returns, each written back with a
/// line feed after it, give the text again, with a line feed added at its
/// end where it had none.
pub proof fn lines_join_back(s: Seq<char>)
    requires
        !s.contains('\r'),
    ensures
        joined_lines(lines_of(s)) == line_closed(s),
{
    assert(lacks(s, '\r')) by {
        assert forall|i: int| 0 <= i < s.len() implies s[i] != '\r' by {
            if s[i] == '\r' {
                assert(s.contains('\r'));
            }
        }
    }
    lines_after_join_back(s, seq![]);
    assert(Seq::<char>::empty() + s =~= s);
}

/// The text with a carriage return put before each line feed.
pub open spec fn with_crlf(s: Seq<char>) -> Seq<char>
    decreases s.len(),
{
    if s.len() == 0 {
        s
    } else if s[0] == '\n' {
        seq!['\r', '\n'] + with_crlf(s.drop_first())
    } else {
        seq![s[0]] + with_crlf(s.drop_first())
    }
}

proof fn crlf_lines_after(s: Seq<char>, cur: Seq<char>)
    requires
        lacks(s, '\r'),
        lacks(cur, '\r'),
    ensures
        lines_after(with_crlf(s), cur) == lines_after(s, cur),
    decreases s.len(),
{
    if s.len() > 0 {
        let rest = s.drop_first();
        assert(lacks(rest, '\r')) by {
            assert forall|i: int| 0 <= i < rest.len() implies rest[i] != '\r' by {
                assert(rest[i] == s[i + 1]);
            }
        }
        let t = with_crlf(s);
        if s[0] == '\n' {
            crlf_lines_after(rest, seq![]);
            assert(t.drop_first() =~= seq!['\n'] + with_crlf(rest));
            assert((seq!['\n'] + with_crlf(rest)).drop_first() =~= with_crlf(rest));
            assert(without_cr(cur.push('\r')) =~= cur);
            assert(cur.len() == 0 || cur.last() != '\r');
            assert(without_cr(cur) == cur);
            let t2 = t.drop_first();
            assert(t[0] == '\r');
            assert(lines_after(t, cur) == lines_after(t2, cur.push('\r')));
            assert(t2[0] == '\n');
            assert(lines_after(t2, cur.push('\r')) == seq![without_cr(cur.push('\r'))]
                + lines_after(t2.drop_first(), seq![]));
            assert(lines_after(s, cur) == seq![without_cr(cur)] + lines_after(rest, seq![]));
        } else {
            let c2 = cur.push(s[0]);
            assert(lacks(c2, '\r')) by {
                assert forall|i: int| 0 <= i < c2.len() implies c2[i] != '\r' by {
                    if i < cur.len() {
                        assert(c2[i] == cur[i]);
                    }
                }
            }
            crlf_lines_after(rest, c2);
            assert(t.drop_first() =~= with_crlf(rest));
            assert(t[0] == s[0]);
            assert(lines_after(t, cur) == lines_after(t.drop_first(), c2));
        }
    }
}

/// Line ends written as a carriage return and a line feed give the same
/// lines as line feeds alone.
pub proof fn crlf_gives_the_same_lines(s: Seq<char>)
    requires
        !s.contains('\r'),
    ensures
        lines_of(with_crlf(s)) == lines_of(s),
{
    assert(lacks(s, '\r')) by {
        assert forall|i: int| 0 <= i < s.len() implies s[i] != '\r' by {
            if s[i] == '\r' {
                assert(s.contains('\r'));
            }
        }
    }
    crlf_lines_after(s, seq![]);
}

} // verus!
