use vstd::prelude::*;
use vstd::string::StrSliceExecFns;

verus! {

// ----- characters of a string, string from characters -----

/// The characters of `s`, one by one.
pub fn chars_of(s: &str) -> (out: Vec<char>)
    ensures
        out@ == s@,
{
    let n = s.unicode_len();
    let mut out: Vec<char> = Vec::new();
    for i in 0..n
        invariant
            n == s@.len(),
            out@.len() == i,
            forall|j: int| 0 <= j < i ==> out@[j] == s@[j],
    {
        out.push(s.get_char(i));
    }
    proof {
        assert(out@ =~= s@);
    }
    out
}

/// A string holding exactly the given characters.
pub fn string_from_chars(cs: &Vec<char>) -> (out: String)
    ensures
        out@ == cs@,
{
    let mut out = String::new();
    let n = cs.len();
    for i in 0..n
        invariant
            n == cs@.len(),
            out@ == cs@.take(i as int),
    {
        out.push(cs[i]);
        proof {
            assert(cs@.take(i as int + 1) =~= cs@.take(i as int).push(cs@[i as int]));
        }
    }
    proof {
        assert(cs@.take(n as int) =~= cs@);
    }
    out
}

// ----- whitespace trimming -----

pub open spec fn spec_is_ws(c: char) -> bool {
    c == ' ' || c == '\t' || c == '\n' || c == '\r'
}

fn is_ws(c: char) -> (b: bool)
    ensures
        b == spec_is_ws(c),
{
    c == ' ' || c == '\t' || c == '\n' || c == '\r'
}

pub open spec fn spec_trim_start(s: Seq<char>) -> Seq<char>
    decreases s.len(),
{
    if s.len() > 0 && spec_is_ws(s[0]) {
        spec_trim_start(s.drop_first())
    } else {
        s
    }
}

pub open spec fn spec_trim_end(s: Seq<char>) -> Seq<char>
    decreases s.len(),
{
    if s.len() > 0 && spec_is_ws(s.last()) {
        spec_trim_end(s.drop_last())
    } else {
        s
    }
}

/// The string with leading and trailing whitespace removed.
pub open spec fn spec_trim(s: Seq<char>) -> Seq<char> {
    spec_trim_end(spec_trim_start(s))
}

proof fn lemma_trim_start_skip(s: Seq<char>, i: int)
    requires
        0 <= i <= s.len(),
        forall|j: int| 0 <= j < i ==> spec_is_ws(s[j]),
    ensures
        spec_trim_start(s) == spec_trim_start(s.skip(i)),
    decreases i,
{
    if i > 0 {
        assert(s.drop_first() =~= s.skip(1));
        assert(forall|j: int| 0 <= j < i - 1 ==> spec_is_ws(s.skip(1)[j]));
        lemma_trim_start_skip(s.skip(1), i - 1);
        assert(s.skip(1).skip(i - 1) =~= s.skip(i));
    } else {
        assert(s.skip(0) =~= s);
    }
}

proof fn lemma_trim_end_take(s: Seq<char>, h: int)
    requires
        0 <= h <= s.len(),
        forall|j: int| h <= j < s.len() ==> spec_is_ws(s[j]),
    ensures
        spec_trim_end(s) == spec_trim_end(s.take(h)),
    decreases s.len() - h,
{
    if h < s.len() {
        assert(spec_is_ws(s.last()));
        assert(s.drop_last() =~= s.take(s.len() - 1));
        lemma_trim_end_take(s.take(s.len() - 1), h);
        assert(s.take(s.len() - 1).take(h) =~= s.take(h));
    } else {
        assert(s.take(h) =~= s);
    }
}

/// The characters with surrounding whitespace removed.
pub fn trim_chars(cs: &Vec<char>) -> (out: Vec<char>)
    ensures
        out@ == spec_trim(cs@),
{
    let n = cs.len();
    let mut lo: usize = 0;
    while lo < n && is_ws(cs[lo])
        invariant
            n == cs@.len(),
            lo <= n,
            forall|j: int| 0 <= j < lo ==> spec_is_ws(cs@[j]),
        decreases n - lo,
    {
        lo += 1;
    }
    let mut hi: usize = n;
    while hi > lo && is_ws(cs[hi - 1])
        invariant
            n == cs@.len(),
            lo <= hi <= n,
            forall|j: int| hi <= j < n ==> spec_is_ws(cs@[j]),
        decreases hi,
    {
        hi -= 1;
    }
    let mut out: Vec<char> = Vec::new();
    let mut i = lo;
    while i < hi
        invariant
            n == cs@.len(),
            lo <= i <= hi <= n,
            out@ == cs@.subrange(lo as int, i as int),
        decreases hi - i,
    {
        out.push(cs[i]);
        proof {
            assert(cs@.subrange(lo as int, i as int + 1) =~= cs@.subrange(
                lo as int,
                i as int,
            ).push(cs@[i as int]));
        }
        i += 1;
    }
    proof {
        let s = cs@;
        lemma_trim_start_skip(s, lo as int);
        let t = s.skip(lo as int);
        assert(spec_trim_start(t) == t);
        lemma_trim_end_take(t, hi as int - lo as int);
        assert(forall|j: int|
            hi - lo <= j < t.len() ==> spec_is_ws(t[j]));
        let u = t.take(hi as int - lo as int);
        assert(spec_trim_end(u) == u);
        assert(u =~= s.subrange(lo as int, hi as int));
        assert(out@ =~= spec_trim(cs@));
    }
    out
}

// ----- splitting on a separator -----

/// The index of the first occurrence of `sep`, or the length if absent.
pub open spec fn spec_first_sep(s: Seq<char>, sep: char) -> int
    decreases s.len(),
{
    if s.len() == 0 {
        0
    } else if s[0] == sep {
        0
    } else {
        1 + spec_first_sep(s.drop_first(), sep)
    }
}

pub proof fn lemma_first_sep_at(s: Seq<char>, sep: char, i: int)
    requires
        0 <= i <= s.len(),
        forall|j: int| 0 <= j < i ==> s[j] != sep,
        i < s.len() ==> s[i] == sep,
    ensures
        spec_first_sep(s, sep) == i,
    decreases i,
{
    if i > 0 {
        assert(forall|j: int| 0 <= j < i - 1 ==> s.drop_first()[j] != sep);
        assert(i - 1 < s.drop_first().len() ==> s.drop_first()[i - 1] == sep);
        lemma_first_sep_at(s.drop_first(), sep, i - 1);
    }
}

/// The segments of `s` delimited by `sep`; always at least one segment.
pub open spec fn spec_split(s: Seq<char>, sep: char) -> Seq<Seq<char>>
    decreases s.len(),
{
    let i = spec_first_sep(s, sep);
    if 0 <= i < s.len() {
        seq![s.take(i)] + spec_split(s.skip(i + 1), sep)
    } else {
        seq![s]
    }
}

/// The views of a vector of character vectors.
pub open spec fn views_of(s: Seq<Vec<char>>) -> Seq<Seq<char>> {
    s.map_values(|v: Vec<char>| v@)
}

/// Splits the characters at every occurrence of `sep`.
pub fn split_chars(cs: &Vec<char>, sep: char) -> (out: Vec<Vec<char>>)
    ensures
        views_of(out@) == spec_split(cs@, sep),
        out@.len() >= 1,
{
    let n = cs.len();
    let mut out: Vec<Vec<char>> = Vec::new();
    let mut start: usize = 0;
    let mut i: usize = 0;
    proof {
        assert(views_of(out@) =~= Seq::<Seq<char>>::empty());
        assert(cs@.skip(0) =~= cs@);
        assert(spec_split(cs@, sep) =~= views_of(out@) + spec_split(cs@.skip(0), sep));
    }
    while i < n
        invariant
            n == cs@.len(),
            start <= i <= n,
            spec_split(cs@, sep) == views_of(out@) + spec_split(cs@.skip(start as int), sep),
            forall|j: int| start <= j < i ==> cs@[j] != sep,
        decreases n - i,
    {
        if cs[i] == sep {
            let mut seg: Vec<char> = Vec::new();
            let mut j = start;
            while j < i
                invariant
                    n == cs@.len(),
                    start <= j <= i <= n,
                    seg@ == cs@.subrange(start as int, j as int),
                decreases i - j,
            {
                seg.push(cs[j]);
                proof {
                    assert(cs@.subrange(start as int, j as int + 1) =~= cs@.subrange(
                        start as int,
                        j as int,
                    ).push(cs@[j as int]));
                }
                j += 1;
            }
            proof {
                let t = cs@.skip(start as int);
                assert(forall|j2: int| 0 <= j2 < i - start ==> t[j2] != sep);
                assert(t[i - start] == sep);
                lemma_first_sep_at(t, sep, i as int - start as int);
                assert(t.take(i as int - start as int) =~= cs@.subrange(start as int, i as int));
                assert(t.skip(i as int - start as int + 1) =~= cs@.skip(i as int + 1));
                assert(views_of(out@.push(seg)) =~= views_of(out@) + seq![seg@]);
                assert(views_of(out@) + (seq![seg@] + spec_split(cs@.skip(i as int + 1), sep))
                    =~= (views_of(out@) + seq![seg@]) + spec_split(cs@.skip(i as int + 1), sep));
            }
            out.push(seg);
            start = i + 1;
        }
        i += 1;
    }
    let mut seg: Vec<char> = Vec::new();
    let mut j = start;
    while j < n
        invariant
            n == cs@.len(),
            start <= j <= n,
            seg@ == cs@.subrange(start as int, j as int),
        decreases n - j,
    {
        seg.push(cs[j]);
        proof {
            assert(cs@.subrange(start as int, j as int + 1) =~= cs@.subrange(
                start as int,
                j as int,
            ).push(cs@[j as int]));
        }
        j += 1;
    }
    proof {
        let t = cs@.skip(start as int);
        assert(forall|j2: int| 0 <= j2 < t.len() ==> t[j2] != sep);
        lemma_first_sep_at(t, sep, t.len() as int);
        assert(spec_split(t, sep) == seq![t]);
        assert(t =~= cs@.subrange(start as int, n as int));
        assert(views_of(out@.push(seg)) =~= views_of(out@) + seq![seg@]);
    }
    out.push(seg);
    proof {
        assert(views_of(out@) =~= spec_split(cs@, sep));
    }
    out
}

// ----- integer parsing -----

pub open spec fn spec_is_digit(c: char) -> bool {
    48 <= c as u32 <= 57
}

pub open spec fn spec_digit_val(c: char) -> int {
    c as u32 - 48
}

/// The numeric value of a digit string, most significant digit first.
pub open spec fn spec_digits_val(s: Seq<char>) -> int
    decreases s.len(),
{
    if s.len() == 0 {
        0
    } else {
        spec_digits_val(s.drop_last()) * 10 + spec_digit_val(s.last())
    }
}

pub open spec fn spec_all_digits(s: Seq<char>) -> bool {
    s.len() > 0 && forall|j: int| 0 <= j < s.len() ==> spec_is_digit(s[j])
}

/// What parsing a signed 32-bit integer yields: an optional sign, then one
/// or more decimal digits, with the value within the type's range.
pub open spec fn spec_parse_i32(s: Seq<char>) -> Option<int> {
    let sign: int = if s.len() > 0 && s[0] == '-' {
        -1
    } else {
        1
    };
    let ds: Seq<char> = if s.len() > 0 && (s[0] == '+' || s[0] == '-') {
        s.drop_first()
    } else {
        s
    };
    if !spec_all_digits(ds) {
        None
    } else {
        let v = sign * spec_digits_val(ds);
        if -0x8000_0000 <= v <= 0x7FFF_FFFF {
            Some(v)
        } else {
            None
        }
    }
}

proof fn lemma_digits_val_nonneg(s: Seq<char>)
    requires
        forall|j: int| 0 <= j < s.len() ==> spec_is_digit(s[j]),
    ensures
        spec_digits_val(s) >= 0,
    decreases s.len(),
{
    if s.len() > 0 {
        lemma_digits_val_nonneg(s.drop_last());
    }
}

/// Parses the characters as a 32-bit signed integer, exactly as the model
/// `spec_parse_i32` describes.
pub fn parse_i32_chars(cs: &Vec<char>) -> (r: Option<i32>)
    ensures
        match r {
            Some(v) => spec_parse_i32(cs@) == Some(v as int),
            None => spec_parse_i32(cs@) is None,
        },
{
    let n = cs.len();
    let mut idx: usize = 0;
    let mut neg: bool = false;
    if n > 0 && (cs[0] == '+' || cs[0] == '-') {
        neg = cs[0] == '-';
        idx = 1;
    }
    let ghost ds: Seq<char> = if idx == 1 {
        cs@.drop_first()
    } else {
        cs@
    };
    proof {
        assert(ds =~= cs@.subrange(idx as int, n as int));
    }
    if idx >= n {
        proof {
            assert(!spec_all_digits(ds));
        }
        return None;
    }
    let mut acc: u64 = 0;
    let mut over: bool = false;
    let mut i = idx;
    while i < n
        invariant
            n == cs@.len(),
            idx <= i <= n,
            idx <= 1,
            idx < n,
            (idx == 1) == (n > 0 && (cs@[0] == '+' || cs@[0] == '-')),
            neg == (n > 0 && cs@[0] == '-'),
            ds == cs@.subrange(idx as int, n as int),
            forall|j: int| idx <= j < i ==> spec_is_digit(cs@[j]),
            !over ==> acc as int == spec_digits_val(cs@.subrange(idx as int, i as int)) && acc
                <= 0x8000_0000,
            over ==> spec_digits_val(cs@.subrange(idx as int, i as int)) > 0x8000_0000,
        decreases n - i,
    {
        let c = cs[i];
        let u = c as u32;
        if u < 48 || u > 57 {
            proof {
                assert(!spec_is_digit(cs@[i as int]));
                assert(ds[i - idx] == cs@[i as int]);
                assert(!spec_all_digits(ds));
            }
            return None;
        }
        proof {
            assert(cs@.subrange(idx as int, i as int + 1).drop_last() =~= cs@.subrange(
                idx as int,
                i as int,
            ));
            assert(cs@.subrange(idx as int, i as int + 1).last() == cs@[i as int]);
        }
        let d = (u - 48) as u64;
        if !over {
            acc = acc * 10 + d;
            if acc > 0x8000_0000 {
                over = true;
            }
        } else {
            proof {
                let prev = spec_digits_val(cs@.subrange(idx as int, i as int));
                assert(spec_digits_val(cs@.subrange(idx as int, i as int + 1)) == prev * 10
                    + spec_digit_val(cs@[i as int]));
                assert(prev * 10 > 0x8000_0000 * 10) by (nonlinear_arith)
                    requires
                        prev > 0x8000_0000,
                ;
            }
        }
        i += 1;
    }
    proof {
        let s = cs@;
        let sign: int = if s.len() > 0 && s[0] == '-' {
            -1
        } else {
            1
        };
        let sds: Seq<char> = if s.len() > 0 && (s[0] == '+' || s[0] == '-') {
            s.drop_first()
        } else {
            s
        };
        assert(sds =~= cs@.subrange(idx as int, n as int));
        assert(sds == ds);
        assert(spec_all_digits(ds));
        lemma_digits_val_nonneg(ds);
        assert(sign == if neg {
            -1int
        } else {
            1int
        });
        assert(spec_parse_i32(s) == {
            let v = sign * spec_digits_val(ds);
            if -0x8000_0000 <= v <= 0x7FFF_FFFF {
                Some(v)
            } else {
                None
            }
        });
    }
    if over {
        proof {
            assert(spec_digits_val(ds) > 0x8000_0000);
        }
        return None;
    }
    if neg {
        let v64: i64 = -(acc as i64);
        proof {
            assert(-1 * spec_digits_val(ds) == v64 as int);
        }
        Some(v64 as i32)
    } else {
        if acc > 0x7FFF_FFFF {
            return None;
        }
        proof {
            assert(1 * spec_digits_val(ds) == acc as int);
        }
        Some(acc as i32)
    }
}

// ----- decimal rendering -----

pub open spec fn spec_digit_char(d: int) -> char {
    if d == 0 {
        '0'
    } else if d == 1 {
        '1'
    } else if d == 2 {
        '2'
    } else if d == 3 {
        '3'
    } else if d == 4 {
        '4'
    } else if d == 5 {
        '5'
    } else if d == 6 {
        '6'
    } else if d == 7 {
        '7'
    } else if d == 8 {
        '8'
    } else {
        '9'
    }
}

/// The decimal rendering of a nonnegative integer.
pub open spec fn spec_dec_nat(n: int) -> Seq<char>
    decreases n,
{
    if n < 10 {
        seq![spec_digit_char(n)]
    } else {
        spec_dec_nat(n / 10).push(spec_digit_char(n % 10))
    }
}

/// The decimal rendering of a signed integer.
pub open spec fn spec_dec_i64(v: int) -> Seq<char> {
    if v < 0 {
        seq!['-'] + spec_dec_nat(-v)
    } else {
        spec_dec_nat(v)
    }
}

fn digit_char_of(d: u64) -> (c: char)
    requires
        d < 10,
    ensures
        c == spec_digit_char(d as int),
{
    if d == 0 {
        '0'
    } else if d == 1 {
        '1'
    } else if d == 2 {
        '2'
    } else if d == 3 {
        '3'
    } else if d == 4 {
        '4'
    } else if d == 5 {
        '5'
    } else if d == 6 {
        '6'
    } else if d == 7 {
        '7'
    } else if d == 8 {
        '8'
    } else {
        '9'
    }
}

/// Appends the decimal rendering of `n`.
pub fn push_dec_u64(out: &mut String, n: u64)
    ensures
        final(out)@ == old(out)@ + spec_dec_nat(n as int),
    decreases n,
{
    if n >= 10 {
        push_dec_u64(out, n / 10);
        let c = digit_char_of(n % 10);
        out.push(c);
        proof {
            assert(old(out)@ + spec_dec_nat(n as int / 10).push(spec_digit_char(n as int % 10))
                =~= (old(out)@ + spec_dec_nat(n as int / 10)).push(
                spec_digit_char(n as int % 10),
            ));
        }
    } else {
        let c = digit_char_of(n);
        out.push(c);
        proof {
            assert(old(out)@ + seq![spec_digit_char(n as int)] =~= old(out)@.push(
                spec_digit_char(n as int),
            ));
        }
    }
}

/// Appends the decimal rendering of `v`, sign included.
pub fn push_dec_i64(out: &mut String, v: i64)
    ensures
        final(out)@ == old(out)@ + spec_dec_i64(v as int),
{
    if v < 0 {
        out.push('-');
        let u: u64 = (-(v as i128)) as u64;
        push_dec_u64(out, u);
        proof {
            assert(old(out)@.push('-') + spec_dec_nat(u as int) =~= old(out)@ + (seq!['-']
                + spec_dec_nat(-(v as int))));
        }
    } else {
        push_dec_u64(out, v as u64);
    }
}

} // verus!
