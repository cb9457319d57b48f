//! Splitting and number-reading primitives for the parsers: splitting on a
//! character, on a separator string and on whitespace runs, line splitting,
//! substring search, and reading decimal integers.

use vstd::prelude::*;
use vstd::string::{StrSliceExecFns, StringExecFns};

use crate::text::{push_char, spec_is_ws, views_of};

verus! {

/// Split on every occurrence of one character, keeping empty segments, as
/// `str::split` does: the empty string yields one empty segment.
pub open spec fn spec_split_char(s: Seq<char>, sep: char) -> Seq<Seq<char>>
    decreases s.len(),
{
    if s.len() == 0 {
        seq![Seq::<char>::empty()]
    } else {
        let rest = spec_split_char(s.drop_last(), sep);
        if s.last() == sep {
            rest.push(Seq::<char>::empty())
        } else {
            rest.update(rest.len() - 1, rest.last().push(s.last()))
        }
    }
}

pub proof fn lemma_split_char_len(s: Seq<char>, sep: char)
    ensures
        spec_split_char(s, sep).len() >= 1,
    decreases s.len(),
{
    if s.len() > 0 {
        lemma_split_char_len(s.drop_last(), sep);
    }
}

/// Splits on every occurrence of `sep`, keeping empty segments.
pub fn split_char(s: &str, sep: char) -> (r: Vec<String>)
    ensures
        views_of(r@) == spec_split_char(s@, sep),
{
    let n = s.unicode_len();
    let mut done: Vec<String> = Vec::new();
    let mut cur = String::new();
    let mut i: usize = 0;
    proof {
        assert(s@.take(0) =~= Seq::<char>::empty());
        assert(views_of(done@).push(cur@) =~= spec_split_char(s@.take(0), sep));
    }
    while i < n
        invariant
            n == s@.len(),
            i <= n,
            spec_split_char(s@.take(i as int), sep) == views_of(done@).push(cur@),
        decreases n - i,
    {
        let c = s.get_char(i);
        proof {
            assert(s@.take(i + 1 as int).drop_last() =~= s@.take(i as int));
            assert(s@.take(i + 1 as int).last() == s@[i as int]);
        }
        if c == sep {
            done.push(cur);
            cur = String::new();
            proof {
                assert(spec_split_char(s@.take(i + 1 as int), sep) =~= views_of(done@).push(
                    cur@,
                ));
            }
        } else {
            push_char(&mut cur, c);
            proof {
                assert(spec_split_char(s@.take(i + 1 as int), sep) =~= views_of(done@).push(
                    cur@,
                ));
            }
        }
        i += 1;
    }
    done.push(cur);
    proof {
        assert(s@.take(n as int) =~= s@);
        assert(views_of(done@) =~= spec_split_char(s@, sep));
    }
    done
}

/// One line with a single trailing carriage return removed.
pub open spec fn spec_strip_cr(s: Seq<char>) -> Seq<char> {
    if s.len() > 0 && s.last() == '\r' {
        s.drop_last()
    } else {
        s
    }
}

fn strip_cr(s: String) -> (r: String)
    ensures
        r@ == spec_strip_cr(s@),
{
    let n = s.as_str().unicode_len();
    if n > 0 && s.as_str().get_char(n - 1) == '\r' {
        let r = s.as_str().substring_char(0, n - 1).to_owned();
        proof {
            assert(r@ =~= s@.drop_last());
        }
        r
    } else {
        s
    }
}

/// The lines of a string, as `str::lines` has them: split on newlines, no
/// segment after a trailing newline, one trailing carriage return stripped
/// from each line.
pub open spec fn spec_lines(s: Seq<char>) -> Seq<Seq<char>> {
    let parts = spec_split_char(s, '\n');
    let kept = if parts.last() == Seq::<char>::empty() {
        parts.drop_last()
    } else {
        parts
    };
    kept.map_values(|t: Seq<char>| spec_strip_cr(t))
}

/// Splits a string into its lines.
pub fn lines_of(s: &str) -> (r: Vec<String>)
    ensures
        views_of(r@) == spec_lines(s@),
{
    let mut parts = split_char(s, '\n');
    proof {
        lemma_split_char_len(s@, '\n');
    }
    let ghost all = views_of(parts@);
    let plen = parts.len();
    if parts[plen - 1].as_str().unicode_len() == 0 {
        proof {
            assert(all.last() =~= Seq::<char>::empty());
        }
        parts.pop();
        proof {
            assert(views_of(parts@) =~= all.drop_last());
        }
    } else {
        proof {
            assert(all.last() != Seq::<char>::empty()) by {
                assert(all.last().len() > 0);
            };
        }
    }
    let ghost kept = views_of(parts@);
    let n = parts.len();
    let mut out: Vec<String> = Vec::new();
    let mut i: usize = 0;
    while i < n
        invariant
            n == parts@.len(),
            kept == views_of(parts@),
            i <= n,
            out@.len() == i,
            forall|j: int| 0 <= j < i ==> out@[j]@ == spec_strip_cr(kept[j]),
        decreases n - i,
    {
        let piece = strip_cr(parts[i].clone());
        out.push(piece);
        i += 1;
    }
    proof {
        assert(views_of(out@) =~= spec_lines(s@));
    }
    out
}

/// `sub` occurs in `s` at position `i`.
pub open spec fn spec_has_sub_at(s: Seq<char>, sub: Seq<char>, i: int) -> bool {
    0 <= i && i + sub.len() <= s.len() && s.subrange(i, i + sub.len()) == sub
}

/// `sub` occurs somewhere in `s`.
pub open spec fn spec_contains_sub(s: Seq<char>, sub: Seq<char>) -> bool {
    exists|i: int| spec_has_sub_at(s, sub, i)
}

/// The position of the leftmost occurrence of `sub` in `s`, if any.
pub open spec fn spec_first_sub(s: Seq<char>, sub: Seq<char>) -> Option<int>
    decreases s.len(),
{
    if sub.len() <= s.len() && s.take(sub.len() as int) == sub {
        Some(0)
    } else if s.len() == 0 {
        None
    } else {
        match spec_first_sub(s.drop_first(), sub) {
            None => None,
            Some(i) => Some(i + 1),
        }
    }
}

pub proof fn lemma_first_sub_props(s: Seq<char>, sub: Seq<char>)
    ensures
        match spec_first_sub(s, sub) {
            Some(i) => spec_has_sub_at(s, sub, i) && (forall|j: int|
                0 <= j < i ==> !spec_has_sub_at(s, sub, j)),
            None => forall|j: int| !spec_has_sub_at(s, sub, j),
        },
    decreases s.len(),
{
    let m = sub.len() as int;
    if m <= s.len() && s.take(m) == sub {
        assert(s.take(m) =~= s.subrange(0, m));
        assert(spec_has_sub_at(s, sub, 0));
    } else if s.len() == 0 {
        assert forall|j: int| !spec_has_sub_at(s, sub, j) by {
            if spec_has_sub_at(s, sub, j) {
                assert(j == 0 && m == 0);
                assert(s.subrange(0, 0) =~= s.take(0));
            }
        }
    } else {
        let t = s.drop_first();
        lemma_first_sub_props(t, sub);
        assert forall|j: int| 1 <= j && spec_has_sub_at(s, sub, j) implies spec_has_sub_at(
            t,
            sub,
            j - 1,
        ) by {
            assert(t.subrange(j - 1, j - 1 + m) =~= s.subrange(j, j + m));
        };
        assert forall|j: int| 0 <= j && spec_has_sub_at(t, sub, j) implies spec_has_sub_at(
            s,
            sub,
            j + 1,
        ) by {
            assert(s.subrange(j + 1, j + 1 + m) =~= t.subrange(j, j + m));
        };
        assert(!spec_has_sub_at(s, sub, 0)) by {
            if spec_has_sub_at(s, sub, 0) {
                assert(s.subrange(0, m) =~= s.take(m));
            }
        };
        match spec_first_sub(t, sub) {
            None => {
                assert forall|j: int| !spec_has_sub_at(s, sub, j) by {
                    if spec_has_sub_at(s, sub, j) {
                        assert(j >= 1);
                    }
                }
            }
            Some(i) => {
                assert(spec_has_sub_at(s, sub, i + 1));
                assert forall|j: int| 0 <= j < i + 1 implies !spec_has_sub_at(s, sub, j) by {
                    if j >= 1 && spec_has_sub_at(s, sub, j) {
                        assert(spec_has_sub_at(t, sub, j - 1));
                    }
                }
            }
        }
    }
}

/// Finds the leftmost occurrence of `sub` in `s`.
pub fn find_sub(s: &str, sub: &str) -> (r: Option<usize>)
    ensures
        r matches Some(i) ==> spec_first_sub(s@, sub@) == Some(i as int),
        r is None ==> spec_first_sub(s@, sub@) is None,
{
    let n = s.unicode_len();
    let m = sub.unicode_len();
    proof {
        lemma_first_sub_props(s@, sub@);
    }
    if m > n {
        proof {
            match spec_first_sub(s@, sub@) {
                Some(i) => {
                    assert(spec_has_sub_at(s@, sub@, i));
                }
                None => {}
            }
        }
        return None;
    }
    if m == 0 {
        proof {
            assert(s@.take(0) =~= sub@);
        }
        return Some(0);
    }
    let mut i: usize = 0;
    while i <= n - m
        invariant
            n == s@.len(),
            m == sub@.len(),
            0 < m <= n,
            i <= n - m + 1,
            forall|j: int| 0 <= j < i ==> !spec_has_sub_at(s@, sub@, j),
        decreases n - i,
    {
        if match_at(s, sub, i) {
            proof {
                lemma_first_sub_props(s@, sub@);
                match spec_first_sub(s@, sub@) {
                    Some(f) => {
                        assert(!(f < i));
                        assert(!(f > i)) by {
                            if f > i {
                                assert(!spec_has_sub_at(s@, sub@, i as int));
                            }
                        };
                    }
                    None => {
                        assert(false);
                    }
                }
            }
            return Some(i);
        }
        i += 1;
    }
    proof {
        assert forall|j: int| !spec_has_sub_at(s@, sub@, j) by {
            if spec_has_sub_at(s@, sub@, j) {
                assert(0 <= j <= n - m);
            }
        }
        match spec_first_sub(s@, sub@) {
            Some(f) => {
                assert(spec_has_sub_at(s@, sub@, f));
            }
            None => {}
        }
    }
    None
}

fn match_at(s: &str, sub: &str, i: usize) -> (r: bool)
    requires
        i + sub@.len() <= s@.len(),
    ensures
        r == spec_has_sub_at(s@, sub@, i as int),
{
    let n = s.unicode_len();
    let m = sub.unicode_len();
    let mut k: usize = 0;
    while k < m
        invariant
            n == s@.len(),
            m == sub@.len(),
            i + m <= n,
            k <= m,
            forall|t: int| 0 <= t < k ==> s@[i + t] == sub@[t],
        decreases m - k,
    {
        if s.get_char(i + k) != sub.get_char(k) {
            proof {
                assert(s@[i + k as int] != sub@[k as int]);
                if spec_has_sub_at(s@, sub@, i as int) {
                    assert(s@.subrange(i as int, i + m as int)[k as int] == s@[i + k as int]);
                }
            }
            return false;
        }
        k += 1;
    }
    proof {
        assert(s@.subrange(i as int, i + m as int) =~= sub@);
    }
    true
}

/// Whether `sub` occurs in `s`.
pub fn contains_sub(s: &str, sub: &str) -> (r: bool)
    ensures
        r == spec_contains_sub(s@, sub@),
{
    let found = find_sub(s, sub);
    proof {
        lemma_first_sub_props(s@, sub@);
        match spec_first_sub(s@, sub@) {
            Some(i) => {
                assert(spec_has_sub_at(s@, sub@, i));
            }
            None => {
                if spec_contains_sub(s@, sub@) {
                    let w = choose|w: int| spec_has_sub_at(s@, sub@, w);
                    assert(!spec_has_sub_at(s@, sub@, w));
                }
            }
        }
    }
    match found {
        Some(_) => true,
        None => false,
    }
}

/// Split on every occurrence of the separator string, leftmost first,
/// keeping empty segments.
pub open spec fn spec_split_str(s: Seq<char>, sep: Seq<char>) -> Seq<Seq<char>>
    decreases s.len(),
    when sep.len() > 0
    via spec_split_str_dec
{
    match spec_first_sub(s, sep) {
        None => seq![s],
        Some(i) => seq![s.take(i)] + spec_split_str(s.skip(i + sep.len()), sep),
    }
}

#[via_fn]
proof fn spec_split_str_dec(s: Seq<char>, sep: Seq<char>) {
    lemma_first_sub_props(s, sep);
}

/// Splits on every occurrence of the separator string.
pub fn split_str(s: &str, sep: &str) -> (r: Vec<String>)
    requires
        sep@.len() > 0,
    ensures
        views_of(r@) == spec_split_str(s@, sep@),
    decreases s@.len(),
{
    proof {
        lemma_first_sub_props(s@, sep@);
    }
    match find_sub(s, sep) {
        None => {
            let mut v: Vec<String> = Vec::new();
            v.push(s.to_owned());
            proof {
                assert(views_of(v@) =~= spec_split_str(s@, sep@));
            }
            v
        }
        Some(i) => {
            let head = s.substring_char(0, i).to_owned();
            let m = sep.unicode_len();
            let n = s.unicode_len();
            let tail = s.substring_char(i + m, n);
            proof {
                assert(tail@ =~= s@.skip(i + m as int));
                assert(head@ =~= s@.take(i as int));
            }
            let mut rest = split_str(tail, sep);
            rest.insert(0, head);
            proof {
                assert(views_of(rest@) =~= spec_split_str(s@, sep@));
            }
            rest
        }
    }
}

/// Whether `s` begins with `p`.
pub open spec fn spec_starts_with(s: Seq<char>, p: Seq<char>) -> bool {
    p.len() <= s.len() && s.take(p.len() as int) == p
}

/// Tests whether `s` begins with `p`.
pub fn starts_with(s: &str, p: &str) -> (r: bool)
    ensures
        r == spec_starts_with(s@, p@),
{
    let n = s.unicode_len();
    let m = p.unicode_len();
    if m > n {
        return false;
    }
    let r = match_at(s, p, 0);
    proof {
        assert(s@.subrange(0, m as int) =~= s@.take(m as int));
    }
    r
}

/// The rest of `s` after the prefix `p`, when `s` begins with it.
pub fn strip_prefix_of(s: &str, p: &str) -> (r: Option<String>)
    ensures
        r matches Some(t) ==> spec_starts_with(s@, p@) && t@ == s@.skip(p@.len() as int),
        r is None ==> !spec_starts_with(s@, p@),
{
    let n = s.unicode_len();
    let m = p.unicode_len();
    if starts_with(s, p) {
        let t = s.substring_char(m, n).to_owned();
        proof {
            assert(t@ =~= s@.skip(m as int));
        }
        Some(t)
    } else {
        None
    }
}

/// An ASCII decimal digit.
pub open spec fn spec_is_digit(c: char) -> bool {
    48 <= c as u32 <= 57
}

/// The value of one decimal digit character.
pub open spec fn spec_digit_val(c: char) -> int {
    c as u32 - 48
}

/// The value of a decimal digit string, most significant digit first.
pub open spec fn spec_dec_val(s: Seq<char>) -> int
    decreases s.len(),
{
    if s.len() == 0 {
        0
    } else {
        spec_dec_val(s.drop_last()) * 10 + spec_digit_val(s.last())
    }
}

pub proof fn lemma_dec_val_bounds(s: Seq<char>)
    requires
        forall|i: int| 0 <= i < s.len() ==> spec_is_digit(s[i]),
    ensures
        spec_dec_val(s) >= 0,
        forall|i: int| 0 <= i <= s.len() ==> spec_dec_val(#[trigger] s.take(i)) <= spec_dec_val(
            s,
        ),
    decreases s.len(),
{
    if s.len() == 0 {
        assert forall|i: int| 0 <= i <= s.len() implies spec_dec_val(#[trigger] s.take(i))
            <= spec_dec_val(s) by {
            assert(s.take(i) =~= s);
        }
    } else {
        let d = s.drop_last();
        lemma_dec_val_bounds(d);
        assert(spec_is_digit(s.last()));
        assert(spec_dec_val(s) >= spec_dec_val(d));
        assert forall|i: int| 0 <= i <= s.len() implies spec_dec_val(#[trigger] s.take(i))
            <= spec_dec_val(s) by {
            if i == s.len() {
                assert(s.take(i) =~= s);
            } else {
                assert(s.take(i) =~= d.take(i));
                assert(spec_dec_val(d.take(i)) <= spec_dec_val(d));
            }
        }
    }
}

fn parse_mag(s: &str, from: usize, bound: u64) -> (r: Option<u64>)
    requires
        from <= s@.len(),
    ensures
        r matches Some(v) ==> ({
            let d = s@.skip(from as int);
            d.len() > 0 && (forall|i: int| 0 <= i < d.len() ==> spec_is_digit(d[i]))
                && spec_dec_val(d) <= bound && v == spec_dec_val(d)
        }),
        r is None ==> ({
            let d = s@.skip(from as int);
            !(d.len() > 0 && (forall|i: int| 0 <= i < d.len() ==> spec_is_digit(d[i]))
                && spec_dec_val(d) <= bound)
        }),
{
    let n = s.unicode_len();
    if from == n {
        proof {
            assert(s@.skip(from as int).len() == 0);
        }
        return None;
    }
    let ghost d = s@.skip(from as int);
    let mut acc: u64 = 0;
    let mut i: usize = from;
    proof {
        assert(d.take(0) =~= Seq::<char>::empty());
    }
    while i < n
        invariant
            n == s@.len(),
            from <= i <= n,
            from < n,
            d == s@.skip(from as int),
            forall|j: int| 0 <= j < i - from ==> spec_is_digit(d[j]),
            acc == spec_dec_val(d.take(i - from)),
            acc <= bound,
        decreases n - i,
    {
        let c = s.get_char(i);
        let u = c as u32;
        proof {
            assert(d[i - from] == s@[i as int]);
        }
        if u < 48 || u > 57 {
            proof {
                assert(!spec_is_digit(d[i - from]));
            }
            return None;
        }
        let dv = (u - 48) as u64;
        proof {
            assert(d.take(i - from + 1).drop_last() =~= d.take(i - from));
            assert(d.take(i - from + 1).last() == d[i - from]);
            assert(spec_dec_val(d.take(i - from + 1)) == acc * 10 + dv);
            assert(bound == 10 * (bound / 10) + bound % 10);
        }
        if acc > bound / 10 || (acc == bound / 10 && dv > bound % 10) {
            proof {
                assert(acc * 10 + dv > bound);
                if d.len() > 0 && (forall|j: int| 0 <= j < d.len() ==> spec_is_digit(d[j])) {
                    lemma_dec_val_bounds(d);
                    assert(spec_dec_val(d.take(i - from + 1)) <= spec_dec_val(d));
                    assert(spec_dec_val(d) > bound);
                }
            }
            return None;
        }
        proof {
            assert(acc * 10 + dv <= bound);
        }
        acc = acc * 10 + dv;
        i += 1;
    }
    proof {
        assert(d.take(n - from) =~= d);
    }
    Some(acc)
}

/// What `str::parse` to a 32-bit signed integer yields, with a failed parse
/// read as zero: an optional sign followed by decimal digits, rejected when
/// out of range or malformed.
pub open spec fn spec_parse_int_or_zero(s: Seq<char>) -> int {
    if s.len() > 0 && s[0] == '-' {
        let m = s.drop_first();
        if m.len() > 0 && (forall|i: int| 0 <= i < m.len() ==> spec_is_digit(m[i])) {
            -spec_dec_val(m)
        } else {
            0
        }
    } else if s.len() > 0 && s[0] == '+' {
        let m = s.drop_first();
        if m.len() > 0 && (forall|i: int| 0 <= i < m.len() ==> spec_is_digit(m[i])) {
            spec_dec_val(m)
        } else {
            0
        }
    } else if s.len() > 0 && (forall|i: int| 0 <= i < s.len() ==> spec_is_digit(s[i])) {
        spec_dec_val(s)
    } else {
        0
    }
}

/// The signed value when it fits a 32-bit integer, else zero.
pub open spec fn spec_parse_i32_or_zero(s: Seq<char>) -> int {
    let v = spec_parse_int_or_zero(s);
    if -0x8000_0000 <= v <= 0x7fff_ffff {
        v
    } else {
        0
    }
}

/// The signed value when it fits a 64-bit integer, else zero.
pub open spec fn spec_parse_i64_or_zero(s: Seq<char>) -> int {
    let v = spec_parse_int_or_zero(s);
    if -0x8000_0000_0000_0000 <= v <= 0x7fff_ffff_ffff_ffff {
        v
    } else {
        0
    }
}

/// Reads a decimal 32-bit integer, zero on any failure.
pub fn parse_i32_or_zero(s: &str) -> (r: i32)
    ensures
        r as int == spec_parse_i32_or_zero(s@),
{
    let n = s.unicode_len();
    if n == 0 {
        return 0;
    }
    let c0 = s.get_char(0);
    proof {
        assert(s@.skip(1) =~= s@.drop_first());
    }
    if c0 == '-' {
        match parse_mag(s, 1, 0x8000_0000u64) {
            Some(v) => {
                if v == 0x8000_0000u64 {
                    i32::MIN
                } else {
                    -(v as i32)
                }
            }
            None => 0,
        }
    } else if c0 == '+' {
        match parse_mag(s, 1, 0x7fff_ffffu64) {
            Some(v) => v as i32,
            None => 0,
        }
    } else {
        proof {
            assert(s@.skip(0) =~= s@);
        }
        match parse_mag(s, 0, 0x7fff_ffffu64) {
            Some(v) => v as i32,
            None => 0,
        }
    }
}

/// Reads a decimal 64-bit integer, zero on any failure.
pub fn parse_i64_or_zero(s: &str) -> (r: i64)
    ensures
        r as int == spec_parse_i64_or_zero(s@),
{
    let n = s.unicode_len();
    if n == 0 {
        return 0;
    }
    let c0 = s.get_char(0);
    proof {
        assert(s@.skip(1) =~= s@.drop_first());
    }
    if c0 == '-' {
        match parse_mag(s, 1, 0x8000_0000_0000_0000u64) {
            Some(v) => {
                if v == 0x8000_0000_0000_0000u64 {
                    i64::MIN
                } else {
                    -(v as i64)
                }
            }
            None => 0,
        }
    } else if c0 == '+' {
        match parse_mag(s, 1, 0x7fff_ffff_ffff_ffffu64) {
            Some(v) => v as i64,
            None => 0,
        }
    } else {
        proof {
            assert(s@.skip(0) =~= s@);
        }
        match parse_mag(s, 0, 0x7fff_ffff_ffff_ffffu64) {
            Some(v) => v as i64,
            None => 0,
        }
    }
}

/// Split on runs of ASCII whitespace, as `str::split_whitespace` does:
/// no empty segments, leading and trailing whitespace ignored.
pub open spec fn spec_split_ws(s: Seq<char>) -> Seq<Seq<char>>
    decreases s.len(),
{
    if s.len() == 0 {
        Seq::<Seq<char>>::empty()
    } else {
        let rest = spec_split_ws(s.drop_last());
        let c = s.last();
        if spec_is_ws(c) {
            rest
        } else if s.len() == 1 || spec_is_ws(s[s.len() - 2]) {
            rest.push(seq![c])
        } else {
            rest.update(rest.len() - 1, rest.last().push(c))
        }
    }
}

/// Splits on runs of whitespace.
pub fn split_ws(s: &str) -> (r: Vec<String>)
    ensures
        views_of(r@) == spec_split_ws(s@),
{
    let n = s.unicode_len();
    let mut done: Vec<String> = Vec::new();
    let mut cur = String::new();
    let mut i: usize = 0;
    proof {
        assert(s@.take(0) =~= Seq::<char>::empty());
        assert(views_of(done@) =~= Seq::<Seq<char>>::empty());
    }
    while i < n
        invariant
            n == s@.len(),
            i <= n,
            cur@.len() > 0 ==> i > 0 && !spec_is_ws(s@[i - 1]),
            cur@.len() == 0 ==> i == 0 || spec_is_ws(s@[i - 1]),
            spec_split_ws(s@.take(i as int)) == (if cur@.len() == 0 {
                views_of(done@)
            } else {
                views_of(done@).push(cur@)
            }),
        decreases n - i,
    {
        let c = s.get_char(i);
        proof {
            assert(s@.take(i + 1 as int).drop_last() =~= s@.take(i as int));
            assert(s@.take(i + 1 as int).last() == s@[i as int]);
        }
        if crate::text::is_ws(c) {
            if cur.as_str().unicode_len() > 0 {
                done.push(cur);
                cur = String::new();
            }
            proof {
                assert(spec_split_ws(s@.take(i + 1 as int)) =~~= views_of(done@));
            }
        } else {
            push_char(&mut cur, c);
            proof {
                assert(spec_split_ws(s@.take(i + 1 as int)) =~~= views_of(done@).push(cur@));
            }
        }
        i += 1;
    }
    if cur.as_str().unicode_len() > 0 {
        done.push(cur);
    }
    proof {
        assert(s@.take(n as int) =~= s@);
        assert(views_of(done@) =~= spec_split_ws(s@));
    }
    done
}

} // verus!
