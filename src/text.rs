use vstd::prelude::*;

verus! {

/// The lowercase form of a text, as Unicode defines it.
pub uninterp spec fn lower_of(s: Seq<char>) -> Seq<char>;

/// Relies on `str::to_lowercase`: the result depends on the characters alone.
#[verifier::external_body]
pub(crate) fn lowercase(s: &str) -> (r: String)
    ensures
        r@ == lower_of(s@),
{
    s.to_lowercase()
}

/// Whether `s` holds exactly the characters of `w`.
pub fn same_text(s: &str, w: &str) -> (r: bool)
    ensures
        r == (s@ == w@),
{
    let a = s.to_owned();
    let b = w.to_owned();
    a.eq(&b)
}

/// Relies on `str::chars`: the characters of the text, in order.
#[verifier::external_body]
pub(crate) fn chars_of(s: &str) -> (r: Vec<char>)
    ensures
        r@ == s@,
{
    s.chars().collect()
}

/// Relies on `String: FromIterator<char>`: the text made of the characters of
/// `v` from `lo` up to `hi`.
#[verifier::external_body]
pub(crate) fn string_of_range(v: &Vec<char>, lo: usize, hi: usize) -> (r: String)
    requires
        lo <= hi <= v@.len(),
    ensures
        r@ == v@.subrange(lo as int, hi as int),
{
    v[lo..hi].iter().collect()
}

/// Unicode's White_Space property, which `char::is_whitespace` reports.
pub open spec fn is_space(c: char) -> bool {
    let u = c as u32;
    (0x09 <= u <= 0x0d) || u == 0x20 || u == 0x85 || u == 0xa0 || u == 0x1680 || (0x2000 <= u
        <= 0x200a) || u == 0x2028 || u == 0x2029 || u == 0x202f || u == 0x205f || u == 0x3000
}

pub fn is_space_char(c: char) -> (r: bool)
    ensures
        r == is_space(c),
{
    let u = c as u32;
    (0x09 <= u && u <= 0x0d) || u == 0x20 || u == 0x85 || u == 0xa0 || u == 0x1680 || (0x2000
        <= u && u <= 0x200a) || u == 0x2028 || u == 0x2029 || u == 0x202f || u == 0x205f || u
        == 0x3000
}

/// The text without its leading white space.
pub open spec fn trim_start(s: Seq<char>) -> Seq<char>
    decreases s.len(),
{
    if s.len() > 0 && is_space(s[0]) {
        trim_start(s.drop_first())
    } else {
        s
    }
}

/// The text without its trailing white space.
pub open spec fn trim_end(s: Seq<char>) -> Seq<char>
    decreases s.len(),
{
    if s.len() > 0 && is_space(s.last()) {
        trim_end(s.drop_last())
    } else {
        s
    }
}

/// The text without white space at either end.
pub open spec fn trim(s: Seq<char>) -> Seq<char> {
    trim_end(trim_start(s))
}

/// The bounds of `v[lo..hi]` once white space is taken from both ends.
pub fn trim_range(v: &Vec<char>, lo: usize, hi: usize) -> (r: (usize, usize))
    requires
        lo <= hi <= v@.len(),
    ensures
        lo <= r.0 <= r.1 <= hi,
        v@.subrange(r.0 as int, r.1 as int) == trim(v@.subrange(lo as int, hi as int)),
{
    let mut a = lo;
    while a < hi && is_space_char(v[a])
        invariant
            lo <= a <= hi <= v@.len(),
            trim_start(v@.subrange(lo as int, hi as int)) == trim_start(
                v@.subrange(a as int, hi as int),
            ),
        decreases hi - a,
    {
        assert(v@.subrange(a as int, hi as int).drop_first() =~= v@.subrange(
            a + 1,
            hi as int,
        ));
        a = a + 1;
    }
    let mut b = hi;
    while b > a && is_space_char(v[b - 1])
        invariant
            lo <= a <= b <= hi <= v@.len(),
            trim(v@.subrange(lo as int, hi as int)) == trim_end(v@.subrange(a as int, b as int)),
        decreases b - a,
    {
        assert(v@.subrange(a as int, b as int).drop_last() =~= v@.subrange(
            a as int,
            b - 1,
        ));
        b = b - 1;
    }
    (a, b)
}

/// The first place at or after `i` where `p` occurs in `s`, or -1.
pub open spec fn find_from(s: Seq<char>, p: Seq<char>, i: int) -> int
    decreases s.len() + 1 - i,
{
    if i < 0 || i + p.len() > s.len() {
        -1
    } else if s.subrange(i, i + p.len()) == p {
        i
    } else {
        find_from(s, p, i + 1)
    }
}

/// Each character of `s` as a text of its own.
pub open spec fn singletons(s: Seq<char>) -> Seq<Seq<char>> {
    s.map_values(|c: char| seq![c])
}

/// The pieces of `s` between the occurrences of `p`, taken left to right
/// without overlap. An empty `p` occurs before and after every character.
pub open spec fn split_on(s: Seq<char>, p: Seq<char>) -> Seq<Seq<char>>
    decreases s.len(),
{
    if p.len() == 0 {
        seq![Seq::<char>::empty()] + singletons(s) + seq![Seq::<char>::empty()]
    } else {
        let k = find_from(s, p, 0);
        if 0 <= k && k + p.len() <= s.len() {
            seq![s.subrange(0, k)] + split_on(s.subrange(k + p.len(), s.len() as int), p)
        } else {
            seq![s]
        }
    }
}

/// The texts that a list of bounds marks out in `v`.
pub open spec fn pieces(v: Seq<char>, rs: Seq<(usize, usize)>) -> Seq<Seq<char>> {
    rs.map_values(|r: (usize, usize)| v.subrange(r.0 as int, r.1 as int))
}

pub open spec fn ranges_within(rs: Seq<(usize, usize)>, lo: int, hi: int) -> bool {
    forall|k: int| 0 <= k < rs.len() ==> lo <= (#[trigger] rs[k]).0 <= rs[k].1 <= hi
}

/// Whether `p` occurs in `v` at `i`.
fn occurs_at(v: &Vec<char>, i: usize, p: &Vec<char>) -> (r: bool)
    requires
        i + p@.len() <= v@.len(),
    ensures
        r == (v@.subrange(i as int, i + p@.len()) == p@),
{
    let n = v.len();
    let mut j: usize = 0;
    while j < p.len()
        invariant
            n == v@.len(),
            i + p@.len() <= v@.len(),
            j <= p@.len(),
            forall|k: int| 0 <= k < j ==> v@[i + k] == p@[k],
        decreases p@.len() - j,
    {
        if v[i + j] != p[j] {
            assert(v@.subrange(i as int, i + p@.len())[j as int] != p@[j as int]);
            return false;
        }
        j = j + 1;
    }
    assert(v@.subrange(i as int, i + p@.len()) =~= p@);
    true
}

/// The bounds in `v` of the pieces of `v[lo..hi]` between occurrences of `p`.
pub fn split_range(v: &Vec<char>, lo: usize, hi: usize, p: &Vec<char>) -> (r: Vec<(usize, usize)>)
    requires
        lo <= hi <= v@.len(),
    ensures
        ranges_within(r@, lo as int, hi as int),
        pieces(v@, r@) == split_on(v@.subrange(lo as int, hi as int), p@),
{
    let ghost t = v@.subrange(lo as int, hi as int);
    let mut acc: Vec<(usize, usize)> = Vec::new();
    if p.len() == 0 {
        acc.push((lo, lo));
        assert(v@.subrange(lo as int, lo as int) =~= Seq::<char>::empty());
        assert(pieces(v@, acc@) =~= seq![Seq::<char>::empty()]);
        assert(singletons(t.subrange(0, 0)) =~= Seq::<Seq<char>>::empty());
        let mut j = lo;
        while j < hi
            invariant
                lo <= j <= hi <= v@.len(),
                t == v@.subrange(lo as int, hi as int),
                ranges_within(acc@, lo as int, hi as int),
                pieces(v@, acc@) == seq![Seq::<char>::empty()] + singletons(t.subrange(0, j - lo)),
            decreases hi - j,
        {
            let ghost before = pieces(v@, acc@);
            acc.push((j, j + 1));
            assert(pieces(v@, acc@) =~= before.push(v@.subrange(j as int, j + 1)));
            assert(v@.subrange(j as int, j + 1) =~= seq![v@[j as int]]);
            assert(singletons(t.subrange(0, j + 1 - lo)) =~= singletons(t.subrange(0, j - lo)).push(
                seq![v@[j as int]],
            ));
            assert(pieces(v@, acc@) =~= seq![Seq::<char>::empty()] + singletons(
                t.subrange(0, j + 1 - lo),
            ));
            j = j + 1;
        }
        let ghost before = pieces(v@, acc@);
        acc.push((hi, hi));
        assert(v@.subrange(hi as int, hi as int) =~= Seq::<char>::empty());
        assert(t.subrange(0, hi - lo) =~= t);
        assert(pieces(v@, acc@) =~= before.push(Seq::<char>::empty()));
        assert(pieces(v@, acc@) =~= seq![Seq::<char>::empty()] + singletons(t) + seq![
            Seq::<char>::empty(),
        ]);
        return acc;
    }
    let plen = p.len();
    let mut start = lo;
    let mut i = lo;
    loop
        invariant
            lo <= start <= i <= hi <= v@.len(),
            plen == p@.len(),
            plen > 0,
            t == v@.subrange(lo as int, hi as int),
            ranges_within(acc@, lo as int, hi as int),
            pieces(v@, acc@) + split_on(v@.subrange(start as int, hi as int), p@) == split_on(
                t,
                p@,
            ),
            find_from(v@.subrange(start as int, hi as int), p@, 0) == find_from(
                v@.subrange(start as int, hi as int),
                p@,
                i - start,
            ),
        decreases hi + 1 - i,
    {
        let ghost u = v@.subrange(start as int, hi as int);
        if plen > hi - i {
            assert(find_from(u, p@, i - start) == -1);
            acc.push((start, hi));
            assert(pieces(v@, acc@) =~= pieces(v@, acc@.drop_last()).push(u));
            assert(split_on(u, p@) == seq![u]);
            assert(pieces(v@, acc@) =~= pieces(v@, acc@.drop_last()) + split_on(u, p@));
            return acc;
        }
        assert(u.subrange(i - start, i - start + plen) =~= v@.subrange(i as int, i + plen));
        if occurs_at(v, i, p) {
            let ghost k = i - start;
            assert(find_from(u, p@, k) == k);
            assert(u.subrange(0, k) =~= v@.subrange(start as int, i as int));
            assert(u.subrange(k + plen, u.len() as int) =~= v@.subrange(i + plen, hi as int));
            let ghost before = pieces(v@, acc@);
            acc.push((start, i));
            assert(pieces(v@, acc@) =~= before.push(v@.subrange(start as int, i as int)));
            assert(split_on(u, p@) == seq![v@.subrange(start as int, i as int)] + split_on(
                v@.subrange(i + plen, hi as int),
                p@,
            ));
            assert(pieces(v@, acc@) + split_on(v@.subrange(i + plen, hi as int), p@) =~= before
                + split_on(u, p@));
            start = i + plen;
            i = start;
        } else {
            i = i + 1;
        }
    }
}

/// The character of a decimal digit.
pub open spec fn digit_of(d: int) -> char {
    if d == 0 {
        '0'
    } else if d == 1 {
        '1'
    } else if d == 2 {
        '2'
    } else if d == 3 {
        '3'
    } else if d == 4 {
        '4'
    } else if d == 5 {
        '5'
    } else if d == 6 {
        '6'
    } else if d == 7 {
        '7'
    } else if d == 8 {
        '8'
    } else {
        '9'
    }
}

fn digit_char(d: u128) -> (r: char)
    requires
        d < 10,
    ensures
        r == digit_of(d as int),
{
    if d == 0 {
        '0'
    } else if d == 1 {
        '1'
    } else if d == 2 {
        '2'
    } else if d == 3 {
        '3'
    } else if d == 4 {
        '4'
    } else if d == 5 {
        '5'
    } else if d == 6 {
        '6'
    } else if d == 7 {
        '7'
    } else if d == 8 {
        '8'
    } else {
        '9'
    }
}

/// The decimal form of `n`, without leading zeros.
pub open spec fn decimal(n: nat) -> Seq<char>
    decreases n,
{
    if n < 10 {
        seq![digit_of(n as int)]
    } else {
        decimal(n / 10).push(digit_of((n % 10) as int))
    }
}

fn push_decimal(n: u128, out: &mut Vec<char>)
    ensures
        final(out)@ == old(out)@ + decimal(n as nat),
    decreases n,
{
    if n >= 10 {
        push_decimal(n / 10, out);
    }
    out.push(digit_char(n % 10));
}

/// The decimal form of `n`.
pub fn decimal_string(n: u128) -> (r: String)
    ensures
        r@ == decimal(n as nat),
{
    let mut v: Vec<char> = Vec::new();
    push_decimal(n, &mut v);
    assert(v@ =~= decimal(n as nat));
    string_of_range(&v, 0, v.len())
}

pub open spec fn is_digit(c: char) -> bool {
    '0' <= c <= '9'
}

/// The number that a run of decimal digits writes.
pub open spec fn digits_value(d: Seq<char>) -> int
    decreases d.len(),
{
    if d.len() == 0 {
        0
    } else {
        digits_value(d.drop_last()) * 10 + ((d.last() as u32) as int - 48)
    }
}

/// The digits of an unsigned number, after an optional `+`.
pub open spec fn unsigned_digits(s: Seq<char>) -> Seq<char> {
    if s.len() > 0 && s[0] == '+' {
        s.drop_first()
    } else {
        s
    }
}

/// The `u16` that a text writes in decimal, as `u16::from_str` reads it: an
/// optional `+`, then one digit or more, with a value that fits.
pub open spec fn u16_of(s: Seq<char>) -> Option<u16> {
    let d = unsigned_digits(s);
    if d.len() > 0 && (forall|i: int| 0 <= i < d.len() ==> is_digit(#[trigger] d[i]))
        && digits_value(d) <= 65535 {
        Some(digits_value(d) as u16)
    } else {
        None
    }
}

/// Reads `v[lo..hi]` as a `u16`.
pub fn parse_u16_range(v: &Vec<char>, lo: usize, hi: usize) -> (r: Option<u16>)
    requires
        lo <= hi <= v@.len(),
    ensures
        r == u16_of(v@.subrange(lo as int, hi as int)),
{
    let ghost s = v@.subrange(lo as int, hi as int);
    let start = if lo < hi && v[lo] == '+' {
        lo + 1
    } else {
        lo
    };
    let ghost d = v@.subrange(start as int, hi as int);
    assert(unsigned_digits(s) =~= d);
    if start == hi {
        return None;
    }
    let mut acc: u32 = 0;
    let mut over = false;
    let mut j = start;
    while j < hi
        invariant
            lo <= start <= j <= hi <= v@.len(),
            d == v@.subrange(start as int, hi as int),
            s == v@.subrange(lo as int, hi as int),
            unsigned_digits(s) == d,
            forall|i: int| start <= i < j ==> is_digit(#[trigger] v@[i]),
            !over ==> acc as int == digits_value(v@.subrange(start as int, j as int)) && acc
                <= 65535,
            over ==> digits_value(v@.subrange(start as int, j as int)) > 65535,
        decreases hi - j,
    {
        let c = v[j];
        if !('0' <= c && c <= '9') {
            assert(!is_digit(d[j - start]));
            return None;
        }
        assert(v@.subrange(start as int, j + 1).drop_last() =~= v@.subrange(
            start as int,
            j as int,
        ));
        let dig = (c as u32) - 48;
        if !over {
            let next = acc * 10 + dig;
            if next > 65535 {
                over = true;
            } else {
                acc = next;
            }
        }
        j = j + 1;
    }
    assert forall|i: int| 0 <= i < d.len() implies is_digit(#[trigger] d[i]) by {
        assert(d[i] == v@[start + i]);
    }
    assert(v@.subrange(start as int, hi as int) =~= d);
    if over {
        None
    } else {
        Some(acc as u16)
    }
}

/// Whether `s` ends with `suffix`.
pub open spec fn ends_with(s: Seq<char>, suffix: Seq<char>) -> bool {
    suffix.len() <= s.len() && s.subrange(s.len() - suffix.len(), s.len() as int) == suffix
}

pub fn ends_with_text(s: &str, suffix: &str) -> (r: bool)
    ensures
        r == ends_with(s@, suffix@),
{
    let v = chars_of(s);
    let w = chars_of(suffix);
    if w.len() > v.len() {
        return false;
    }
    let n = v.len();
    let off = n - w.len();
    let mut j: usize = 0;
    while j < w.len()
        invariant
            v@ == s@,
            w@ == suffix@,
            n == v@.len(),
            off + w@.len() == v@.len(),
            j <= w@.len(),
            forall|k: int| 0 <= k < j ==> v@[off + k] == w@[k],
        decreases w@.len() - j,
    {
        if v[off + j] != w[j] {
            assert(v@.subrange(off as int, v@.len() as int)[j as int] != w@[j as int]);
            return false;
        }
        j = j + 1;
    }
    assert(v@.subrange(off as int, v@.len() as int) =~= w@);
    true
}

} // verus!
