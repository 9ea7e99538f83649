//! Character-level helpers: Unicode white space, blank and trimmed text,
//! prefix stripping, decimal parsing and query-string lookups.

use vstd::prelude::*;

verus! {

/// The Unicode `White_Space` property (PropList.txt), which both
/// `char::is_whitespace` and `str::trim` go by.
pub open spec fn is_white_space(c: char) -> bool {
    let u = c as u32;
    ||| 0x09 <= u <= 0x0d
    ||| u == 0x20
    ||| u == 0x85
    ||| u == 0xa0
    ||| u == 0x1680
    ||| 0x2000 <= u <= 0x200a
    ||| u == 0x2028
    ||| u == 0x2029
    ||| u == 0x202f
    ||| u == 0x205f
    ||| u == 0x3000
}

/// Whether `c` has the Unicode `White_Space` property.
pub fn is_whitespace(c: char) -> (r: bool)
    ensures
        r == is_white_space(c),
{
    let u = c as u32;
    (0x09 <= u && u <= 0x0d) || u == 0x20 || u == 0x85 || u == 0xa0 || u == 0x1680 || (0x2000
        <= u && u <= 0x200a) || u == 0x2028 || u == 0x2029 || u == 0x202f || u == 0x205f || u
        == 0x3000
}

/// Text that is empty once white space is trimmed from both ends.
pub open spec fn is_blank(s: Seq<char>) -> bool {
    forall|i: int| 0 <= i < s.len() ==> is_white_space(#[trigger] s[i])
}

/// The characters of `s`, one per element.
pub fn chars_of(s: &str) -> (v: Vec<char>)
    ensures
        v@ == s@,
{
    let mut v: Vec<char> = Vec::new();
    for c in it: s.chars()
        invariant
            v@ == it.seq().take(it.index() as int),
            it.seq() == s@,
    {
        v.push(c);
    }
    v
}


/// Whether `s` is empty once white space is trimmed from both ends
/// (what `s.trim().is_empty()` tells).
pub fn is_blank_str(s: &str) -> (r: bool)
    ensures
        r == is_blank(s@),
{
    let v = chars_of(s);
    let n = v.len();
    let mut i: usize = 0;
    while i < n
        invariant
            n == v@.len(),
            v@ == s@,
            i <= n,
            forall|j: int| 0 <= j < i ==> is_white_space(#[trigger] s@[j]),
        decreases n - i,
    {
        if !is_whitespace(v[i]) {
            return false;
        }
        i += 1;
    }
    true
}

/// `s` with its leading white space removed.
pub open spec fn trim_start(s: Seq<char>) -> Seq<char>
    decreases s.len(),
{
    if s.len() > 0 && is_white_space(s[0]) {
        trim_start(s.drop_first())
    } else {
        s
    }
}

/// `s` with its trailing white space removed.
pub open spec fn trim_end(s: Seq<char>) -> Seq<char>
    decreases s.len(),
{
    if s.len() > 0 && is_white_space(s.last()) {
        trim_end(s.drop_last())
    } else {
        s
    }
}

/// `s` with white space removed from both ends, as `str::trim` gives it.
pub open spec fn trimmed(s: Seq<char>) -> Seq<char> {
    trim_end(trim_start(s))
}

/// A copy of `s` with the white space at both ends removed.
pub fn trim(s: &str) -> (r: String)
    ensures
        r@ == trimmed(s@),
{
    let v = chars_of(s);
    let n = v.len();
    let mut a: usize = 0;
    assert(s@.skip(0) =~= s@);
    while a < n && is_whitespace(v[a])
        invariant
            n == v@.len(),
            v@ == s@,
            a <= n,
            trim_start(s@) == trim_start(s@.skip(a as int)),
        decreases n - a,
    {
        assert(s@.skip(a as int).drop_first() =~= s@.skip(a + 1));
        a += 1;
    }
    assert(trim_start(s@) == s@.subrange(a as int, n as int)) by {
        assert(s@.skip(a as int) =~= s@.subrange(a as int, n as int));
    }
    let mut b: usize = n;
    while b > a && is_whitespace(v[b - 1])
        invariant
            n == v@.len(),
            v@ == s@,
            a <= b <= n,
            trim_end(s@.subrange(a as int, n as int)) == trim_end(s@.subrange(a as int, b as int)),
        decreases b,
    {
        assert(s@.subrange(a as int, b as int).drop_last() =~= s@.subrange(a as int, b - 1));
        b -= 1;
    }
    let t = s.substring_char(a, b);
    t.to_owned()
}

proof fn lemma_trim_start_shape(s: Seq<char>)
    ensures
        exists|a: int|
            0 <= a <= s.len() && trim_start(s) == s.skip(a) && (forall|i: int|
                0 <= i < a ==> is_white_space(#[trigger] s[i])) && (a < s.len() ==> !is_white_space(
                s[a],
            )),
    decreases s.len(),
{
    if s.len() > 0 && is_white_space(s[0]) {
        lemma_trim_start_shape(s.drop_first());
        let a = choose|a: int|
            0 <= a <= s.drop_first().len() && trim_start(s.drop_first()) == s.drop_first().skip(a)
                && (forall|i: int| 0 <= i < a ==> is_white_space(#[trigger] s.drop_first()[i])) && (a
                < s.drop_first().len() ==> !is_white_space(s.drop_first()[a]));
        assert(s.drop_first().skip(a) =~= s.skip(a + 1));
        assert forall|i: int| 0 <= i < a + 1 implies is_white_space(#[trigger] s[i]) by {
            if i > 0 {
                assert(s[i] == s.drop_first()[i - 1]);
            }
        }
        assert(a + 1 < s.len() ==> s[a + 1] == s.drop_first()[a]);
    } else {
        assert(s.skip(0) =~= s);
    }
}

proof fn lemma_trim_end_shape(s: Seq<char>)
    ensures
        exists|b: int|
            0 <= b <= s.len() && trim_end(s) == s.take(b) && (forall|i: int|
                b <= i < s.len() ==> is_white_space(#[trigger] s[i])) && (b > 0 ==> !is_white_space(
                s[b - 1],
            )),
    decreases s.len(),
{
    if s.len() > 0 && is_white_space(s.last()) {
        lemma_trim_end_shape(s.drop_last());
        let b = choose|b: int|
            0 <= b <= s.drop_last().len() && trim_end(s.drop_last()) == s.drop_last().take(b) && (
            forall|i: int| b <= i < s.drop_last().len() ==> is_white_space(
                #[trigger] s.drop_last()[i],
            )) && (b > 0 ==> !is_white_space(s.drop_last()[b - 1]));
        assert(s.drop_last().take(b) =~= s.take(b));
        assert forall|i: int| b <= i < s.len() implies is_white_space(#[trigger] s[i]) by {
            if i < s.len() - 1 {
                assert(s[i] == s.drop_last()[i]);
            }
        }
        assert(b > 0 ==> s[b - 1] == s.drop_last()[b - 1]);
    } else {
        assert(s.take(s.len() as int) =~= s);
    }
}

/// Trimming removes white space from both ends and nothing else: the
/// result is a stretch of `s` with only white space before and after it,
/// which neither starts nor ends with white space; it is empty exactly
/// when `s` is blank.
pub proof fn law_trimmed_shape(s: Seq<char>)
    ensures
        exists|a: int, b: int|
            0 <= a <= b <= s.len() && trimmed(s) == s.subrange(a, b) && (forall|i: int|
                0 <= i < a ==> is_white_space(#[trigger] s[i])) && (forall|i: int|
                b <= i < s.len() ==> is_white_space(#[trigger] s[i])),
        trimmed(s).len() > 0 ==> !is_white_space(trimmed(s)[0]) && !is_white_space(
            trimmed(s).last(),
        ),
        trimmed(s).len() == 0 <==> is_blank(s),
{
    lemma_trim_start_shape(s);
    let a = choose|a: int|
        0 <= a <= s.len() && trim_start(s) == s.skip(a) && (forall|i: int|
            0 <= i < a ==> is_white_space(#[trigger] s[i])) && (a < s.len() ==> !is_white_space(
            s[a],
        ));
    let u = s.skip(a);
    lemma_trim_end_shape(u);
    let b = choose|b: int|
        0 <= b <= u.len() && trim_end(u) == u.take(b) && (forall|i: int|
            b <= i < u.len() ==> is_white_space(#[trigger] u[i])) && (b > 0 ==> !is_white_space(
            u[b - 1],
        ));
    assert(trimmed(s) == s.subrange(a, a + b)) by {
        assert(u.take(b) =~= s.subrange(a, a + b));
    }
    assert forall|i: int| a + b <= i < s.len() implies is_white_space(#[trigger] s[i]) by {
        assert(s[i] == u[i - a]);
    }
    if trimmed(s).len() > 0 {
        assert(trimmed(s)[0] == s[a]);
        assert(trimmed(s).last() == u[b - 1]);
    }
    if trimmed(s).len() == 0 {
        assert(b == 0);
        if a < s.len() {
            assert(u[0] == s[a]);
            assert(is_white_space(u[0]));
        }
        assert forall|i: int| 0 <= i < s.len() implies is_white_space(#[trigger] s[i]) by {
            if i >= a {
                assert(s[i] == u[i - a]);
            }
        }
    } else {
        assert(!is_white_space(s[a]));
    }
}

/// `Some` of what follows `prefix` in `s` when `s` starts with it, as
/// `str::strip_prefix` gives it.
pub open spec fn stripped(s: Seq<char>, prefix: Seq<char>) -> Option<Seq<char>> {
    if prefix.is_prefix_of(s) {
        Some(s.skip(prefix.len() as int))
    } else {
        None
    }
}

/// Stripping a prefix takes off exactly that prefix: what is left, put
/// after the prefix, gives `s` back; and `s` is refused only when it does
/// not begin with the prefix.
pub proof fn law_stripped_takes_off_the_prefix(s: Seq<char>, prefix: Seq<char>, rest: Seq<char>)
    ensures
        stripped(s, prefix) matches Some(t) ==> prefix + t == s,
        prefix + rest == s ==> stripped(s, prefix) == Some(rest),
{
    if stripped(s, prefix) is Some {
        assert(prefix + s.skip(prefix.len() as int) =~= s);
    }
    if prefix + rest == s {
        assert(s.subrange(0, prefix.len() as int) =~= prefix);
        assert(s.skip(prefix.len() as int) =~= rest);
    }
}

/// Whether `v[lo..]` starts with `prefix`.
fn starts_with_at(v: &Vec<char>, lo: usize, hi: usize, prefix: &Vec<char>) -> (r: bool)
    requires
        lo <= hi <= v@.len(),
    ensures
        r == prefix@.is_prefix_of(v@.subrange(lo as int, hi as int)),
{
    let n = prefix.len();
    if n > hi - lo {
        return false;
    }
    let mut i: usize = 0;
    while i < n
        invariant
            n == prefix@.len(),
            lo <= hi <= v@.len(),
            n <= hi - lo,
            i <= n,
            forall|j: int| 0 <= j < i ==> prefix@[j] == #[trigger] v@[lo + j],
        decreases n - i,
    {
        if prefix[i] != v[lo + i] {
            assert(v@.subrange(lo as int, hi as int)[i as int] == v@[lo + i]);
            return false;
        }
        i += 1;
    }
    assert forall|j: int| 0 <= j < prefix@.len() implies prefix@[j] == v@.subrange(
        lo as int,
        hi as int,
    )[j] by {
        assert(prefix@[j] == v@[lo + j]);
    }
    true
}

/// What follows `prefix` in `s`, when `s` starts with it.
pub fn strip_prefix<'a>(s: &'a str, prefix: &str) -> (r: Option<&'a str>)
    ensures
        r is Some <==> stripped(s@, prefix@) is Some,
        r matches Some(t) ==> t@ == stripped(s@, prefix@)->0,
{
    let v = chars_of(s);
    let p = chars_of(prefix);
    let n = v.len();
    assert(v@.subrange(0, n as int) =~= s@);
    if starts_with_at(&v, 0, n, &p) {
        let t = s.substring_char(p.len(), n);
        assert(s@.subrange(p@.len() as int, n as int) =~= s@.skip(p@.len() as int));
        Some(t)
    } else {
        None
    }
}

/// Whether every character of `d` is an ASCII decimal digit.
pub open spec fn all_digits(d: Seq<char>) -> bool {
    forall|i: int| 0 <= i < d.len() ==> '0' <= #[trigger] d[i] <= '9'
}

/// The number that the decimal digits `d` write.
pub open spec fn digits_value(d: Seq<char>) -> nat
    decreases d.len(),
{
    if d.len() == 0 {
        0
    } else {
        digits_value(d.drop_last()) * 10 + ((d.last() as u32) - ('0' as u32)) as nat
    }
}

/// What `str::parse::<u64>` gives for `s`: an optional `+` sign, then one or
/// more ASCII digits whose value fits in a `u64`; anything else is refused.
pub open spec fn parsed_u64(s: Seq<char>) -> Option<u64> {
    let d = if s.len() > 0 && s[0] == '+' {
        s.drop_first()
    } else {
        s
    };
    if d.len() > 0 && all_digits(d) && digits_value(d) <= u64::MAX {
        Some(digits_value(d) as u64)
    } else {
        None
    }
}

proof fn lemma_digits_value_monotonic(d: Seq<char>, i: int, j: int)
    requires
        0 <= i <= j <= d.len(),
        all_digits(d),
    ensures
        digits_value(d.take(i)) <= digits_value(d.take(j)),
    decreases j - i,
{
    if i < j {
        lemma_digits_value_monotonic(d, i, j - 1);
        assert(d.take(j).drop_last() =~= d.take(j - 1));
        assert('0' <= d[j - 1] <= '9');
    }
}

/// Whether `v[lo..hi]` holds ASCII digits only.
fn all_digits_in(v: &Vec<char>, lo: usize, hi: usize) -> (r: bool)
    requires
        lo <= hi <= v@.len(),
    ensures
        r == all_digits(v@.subrange(lo as int, hi as int)),
{
    let ghost d = v@.subrange(lo as int, hi as int);
    let mut i: usize = lo;
    while i < hi
        invariant
            lo <= i <= hi <= v@.len(),
            d == v@.subrange(lo as int, hi as int),
            forall|j: int| 0 <= j < i - lo ==> '0' <= #[trigger] d[j] <= '9',
        decreases hi - i,
    {
        let c = v[i];
        assert(d[i - lo] == c);
        if c < '0' || c > '9' {
            return false;
        }
        i += 1;
    }
    true
}

/// The value of the decimal digits `v[lo..hi]`, when it fits in a `u64`.
fn digits_number(v: &Vec<char>, lo: usize, hi: usize) -> (r: Option<u64>)
    requires
        lo <= hi <= v@.len(),
        all_digits(v@.subrange(lo as int, hi as int)),
    ensures
        r == (if digits_value(v@.subrange(lo as int, hi as int)) <= u64::MAX {
            Some(digits_value(v@.subrange(lo as int, hi as int)) as u64)
        } else {
            None
        }),
{
    let ghost d = v@.subrange(lo as int, hi as int);
    let mut acc: u64 = 0;
    let mut i: usize = lo;
    assert(d.take(0) =~= Seq::<char>::empty());
    while i < hi
        invariant
            lo <= i <= hi <= v@.len(),
            d == v@.subrange(lo as int, hi as int),
            all_digits(d),
            acc == digits_value(d.take(i - lo)),
        decreases hi - i,
    {
        let c = v[i];
        assert(d[i - lo] == c);
        let digit = (c as u32 - '0' as u32) as u64;
        assert(d.take(i - lo + 1).drop_last() =~= d.take(i - lo));
        assert(d.take(i - lo + 1).last() == c);
        let next = match acc.checked_mul(10) {
            Some(m) => m.checked_add(digit),
            None => None,
        };
        match next {
            Some(x) => {
                acc = x;
            },
            None => {
                proof {
                    lemma_digits_value_monotonic(d, i - lo + 1, d.len() as int);
                    assert(d.take(d.len() as int) =~= d);
                }
                return None;
            },
        }
        i += 1;
    }
    assert(d.take(hi - lo) =~= d);
    Some(acc)
}

/// The `u64` that `v[lo..hi]` writes in decimal, as `str::parse::<u64>`
/// reads it.
pub fn parse_u64_chars(v: &Vec<char>, lo: usize, hi: usize) -> (r: Option<u64>)
    requires
        lo <= hi <= v@.len(),
    ensures
        r == parsed_u64(v@.subrange(lo as int, hi as int)),
{
    let ghost s = v@.subrange(lo as int, hi as int);
    let mut start = lo;
    if lo < hi && v[lo] == '+' {
        start = lo + 1;
    }
    let ghost d = v@.subrange(start as int, hi as int);
    assert(d =~= (if s.len() > 0 && s[0] == '+' {
        s.drop_first()
    } else {
        s
    }));
    if start == hi {
        assert(d.len() == 0);
        return None;
    }
    if !all_digits_in(v, start, hi) {
        return None;
    }
    digits_number(v, start, hi)
}

/// The `u64` that `s` writes in decimal, as `str::parse::<u64>` reads it.
pub fn parse_u64(s: &str) -> (r: Option<u64>)
    ensures
        r == parsed_u64(s@),
{
    let v = chars_of(s);
    assert(v@.subrange(0, v@.len() as int) =~= s@);
    parse_u64_chars(&v, 0, v.len())
}


/// The pieces of `s` between `&` separators, as `str::split('&')` yields
/// them (there is always at least one, maybe empty).
pub open spec fn split_amp(s: Seq<char>) -> Seq<Seq<char>>
    decreases s.len(),
{
    if s.len() == 0 {
        seq![Seq::<char>::empty()]
    } else {
        let r = split_amp(s.drop_last());
        if s.last() == '&' {
            r.push(Seq::<char>::empty())
        } else {
            r.update(r.len() - 1, r.last().push(s.last()))
        }
    }
}

/// The number that a `key=value` piece of a query gives for `key` (with
/// the `=` in `key`).
pub open spec fn param_value(piece: Seq<char>, key: Seq<char>) -> Option<u64> {
    match stripped(piece, key) {
        Some(rest) => parsed_u64(rest),
        None => None,
    }
}

/// The value of the first piece that gives one for `key`.
pub open spec fn first_param(pieces: Seq<Seq<char>>, key: Seq<char>) -> Option<u64>
    decreases pieces.len(),
{
    if pieces.len() == 0 {
        None
    } else {
        match param_value(pieces[0], key) {
            Some(x) => Some(x),
            None => first_param(pieces.drop_first(), key),
        }
    }
}

/// What `query.split('&').find_map(|p| p.strip_prefix(key).and_then(|v|
/// v.parse::<u64>().ok()))` gives.
pub open spec fn query_param(query: Seq<char>, key: Seq<char>) -> Option<u64> {
    first_param(split_amp(query), key)
}

proof fn lemma_split_amp_nonempty(s: Seq<char>)
    ensures
        split_amp(s).len() >= 1,
    decreases s.len(),
{
    if s.len() > 0 {
        lemma_split_amp_nonempty(s.drop_last());
    }
}

proof fn lemma_split_amp_no_separator(t: Seq<char>)
    requires
        forall|i: int| 0 <= i < t.len() ==> #[trigger] t[i] != '&',
    ensures
        split_amp(t) == seq![t],
    decreases t.len(),
{
    if t.len() > 0 {
        lemma_split_amp_no_separator(t.drop_last());
        assert(t.drop_last().push(t.last()) =~= t);
        assert(split_amp(t) =~= seq![t]);
    } else {
        assert(t =~= Seq::<char>::empty());
    }
}

proof fn lemma_split_amp_join(a: Seq<char>, b: Seq<char>)
    ensures
        split_amp(a + seq!['&'] + b) == split_amp(a) + split_amp(b),
    decreases b.len(),
{
    let s = a + seq!['&'] + b;
    lemma_split_amp_nonempty(a);
    if b.len() == 0 {
        assert(s.drop_last() =~= a);
        assert(split_amp(s) =~= split_amp(a) + split_amp(b));
    } else {
        lemma_split_amp_join(a, b.drop_last());
        lemma_split_amp_nonempty(b.drop_last());
        assert(s.drop_last() =~= a + seq!['&'] + b.drop_last());
        assert(s.last() == b.last());
        assert(split_amp(s) =~= split_amp(a) + split_amp(b));
    }
}

/// The pieces joined back together with `&` between them.
pub open spec fn join_amp(pieces: Seq<Seq<char>>) -> Seq<char>
    decreases pieces.len(),
{
    if pieces.len() == 0 {
        Seq::empty()
    } else if pieces.len() == 1 {
        pieces[0]
    } else {
        join_amp(pieces.drop_last()) + seq!['&'] + pieces.last()
    }
}

/// Splitting at `&` cuts `s` at every `&` and nowhere else: no piece holds
/// an `&`, and joining the pieces with `&` gives `s` back.
pub proof fn law_split_amp_cuts_at_separators(s: Seq<char>)
    ensures
        split_amp(s).len() >= 1,
        join_amp(split_amp(s)) == s,
        forall|k: int, i: int|
            0 <= k < split_amp(s).len() && 0 <= i < split_amp(s)[k].len() ==> #[trigger] split_amp(
                s,
            )[k][i] != '&',
    decreases s.len(),
{
    lemma_split_amp_nonempty(s);
    if s.len() > 0 {
        let d = s.drop_last();
        law_split_amp_cuts_at_separators(d);
        let r = split_amp(d);
        let t = split_amp(s);
        if s.last() == '&' {
            assert(t.drop_last() =~= r);
            assert(join_amp(t) =~= s);
            assert forall|k: int, i: int| 0 <= k < t.len() && 0 <= i < t[k].len() implies #[trigger] t[k][i]
                != '&' by {
                assert(k < r.len());
                assert(t[k] == r[k]);
            }
        } else {
            let last = r.last().push(s.last());
            assert(t == r.update(r.len() - 1, last));
            if r.len() == 1 {
                assert(join_amp(r) == r[0]);
                assert(join_amp(t) =~= s);
            } else {
                assert(t.drop_last() =~= r.drop_last());
                assert(t.last() == last);
                assert(join_amp(r) == join_amp(r.drop_last()) + seq!['&'] + r.last());
                assert(join_amp(t) == join_amp(t.drop_last()) + seq!['&'] + t.last());
                assert(s =~= d.push(s.last()));
                assert(join_amp(t) =~= s);
            }
            assert forall|k: int, i: int| 0 <= k < t.len() && 0 <= i < t[k].len() implies #[trigger] t[k][i]
                != '&' by {
                if k < r.len() - 1 {
                    assert(t[k] == r[k]);
                } else if i < r.last().len() {
                    assert(t[k][i] == r[r.len() - 1][i]);
                }
            }
        }
    }
}

/// The first piece that gives a value decides: `first_param` is `Some(v)`
/// exactly when some piece gives `v` and no piece before it gives one.
pub proof fn law_first_param_is_first(pieces: Seq<Seq<char>>, key: Seq<char>, v: u64)
    ensures
        first_param(pieces, key) == Some(v) <==> exists|i: int|
            0 <= i < pieces.len() && param_value(#[trigger] pieces[i], key) == Some(v) && forall|j: int|
                0 <= j < i ==> param_value(#[trigger] pieces[j], key) is None,
    decreases pieces.len(),
{
    if pieces.len() > 0 {
        let rest = pieces.drop_first();
        law_first_param_is_first(rest, key, v);
        if param_value(pieces[0], key) is Some {
            if first_param(pieces, key) == Some(v) {
                assert(forall|j: int| 0 <= j < 0 ==> param_value(#[trigger] pieces[j], key) is None);
            } else {
                if exists|i: int|
                    0 <= i < pieces.len() && param_value(#[trigger] pieces[i], key) == Some(v)
                        && forall|j: int| 0 <= j < i ==> param_value(#[trigger] pieces[j], key) is None {
                    let i = choose|i: int|
                        0 <= i < pieces.len() && param_value(#[trigger] pieces[i], key) == Some(v)
                            && forall|j: int|
                            0 <= j < i ==> param_value(#[trigger] pieces[j], key) is None;
                    if i > 0 {
                        assert(param_value(pieces[0], key) is None);
                    }
                }
            }
        } else {
            if first_param(pieces, key) == Some(v) {
                let i = choose|i: int|
                    0 <= i < rest.len() && param_value(#[trigger] rest[i], key) == Some(v) && forall|
                        j: int,
                    | 0 <= j < i ==> param_value(#[trigger] rest[j], key) is None;
                assert(rest[i] == pieces[i + 1]);
                assert forall|j: int| 0 <= j < i + 1 implies param_value(#[trigger] pieces[j], key)
                    is None by {
                    if j > 0 {
                        assert(pieces[j] == rest[j - 1]);
                    }
                }
            }
            if exists|i: int|
                0 <= i < pieces.len() && param_value(#[trigger] pieces[i], key) == Some(v) && forall|
                    j: int,
                | 0 <= j < i ==> param_value(#[trigger] pieces[j], key) is None {
                let i = choose|i: int|
                    0 <= i < pieces.len() && param_value(#[trigger] pieces[i], key) == Some(v)
                        && forall|j: int| 0 <= j < i ==> param_value(#[trigger] pieces[j], key) is None;
                assert(i > 0);
                assert(rest[i - 1] == pieces[i]);
                assert forall|j: int| 0 <= j < i - 1 implies param_value(#[trigger] rest[j], key)
                    is None by {
                    assert(rest[j] == pieces[j + 1]);
                }
            }
        }
    }
}

/// The value that `query` gives for `key` (`key` with its `=`): the first
/// `&`-separated piece that starts with `key` and goes on with a decimal
/// `u64` gives it.
pub fn query_param_u64(query: &str, key: &str) -> (r: Option<u64>)
    ensures
        r == query_param(query@, key@),
{
    let v = chars_of(query);
    let k = chars_of(key);
    let n = v.len();
    let mut st: usize = 0;
    assert(v@.skip(0) =~= v@);
    loop
        invariant
            v@ == query@,
            k@ == key@,
            n == v@.len(),
            st <= n,
            query_param(query@, key@) == first_param(split_amp(v@.skip(st as int)), key@),
        decreases n - st,
    {
        let mut e: usize = st;
        while e < n && v[e] != '&'
            invariant
                n == v@.len(),
                st <= e <= n,
                forall|j: int| st <= j < e ==> #[trigger] v@[j] != '&',
            decreases n - e,
        {
            e += 1;
        }
        let ghost piece = v@.subrange(st as int, e as int);
        let value = if starts_with_at(&v, st, e, &k) {
            assert(piece.skip(k@.len() as int) =~= v@.subrange(st + k@.len(), e as int));
            parse_u64_chars(&v, st + k.len(), e)
        } else {
            None
        };
        proof {
            assert(value == param_value(piece, key@));
            assert forall|i: int| 0 <= i < piece.len() implies #[trigger] piece[i] != '&' by {
                assert(piece[i] == v@[st + i]);
            }
            lemma_split_amp_no_separator(piece);
            let rest = v@.skip(st as int);
            if e < n {
                assert(rest =~= piece + seq!['&'] + v@.skip(e + 1));
                lemma_split_amp_join(piece, v@.skip(e + 1));
                assert((seq![piece] + split_amp(v@.skip(e + 1))).drop_first() =~= split_amp(
                    v@.skip(e + 1),
                ));
            } else {
                assert(rest =~= piece);
                assert(seq![piece].drop_first() =~= Seq::<Seq<char>>::empty());
                assert(seq![piece][0] == piece);
                assert(first_param(Seq::<Seq<char>>::empty(), key@) is None);
            }
        }
        if value.is_some() {
            return value;
        }
        if e == n {
            return None;
        }
        st = e + 1;
    }
}

} // verus!
