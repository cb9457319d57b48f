//! Worktree bookkeeping: parsing the porcelain worktree listing, the sorted
//! branch listing, task-name slugs, branch and path naming, and the exact
//! command lines run on a remote host. The git and secure-shell subprocesses
//! themselves run outside this crate.

use vstd::prelude::*;
use vstd::string::{StrSliceExecFns, StringExecFns};

use crate::scan::{lines_of, spec_lines, starts_with, strip_prefix_of, spec_starts_with};
use crate::text::{push_char, spec_trim, str_eq, trim, views_of};

verus! {

/// One worktree of a repository: its path and the branch checked out in it.
pub struct WorktreeInfo {
    pub path: String,
    pub branch: String,
}

/// The mathematical value of one worktree entry.
#[verifier::ext_equal]
pub ghost struct WorktreeInfoView {
    pub path: Seq<char>,
    pub branch: Seq<char>,
}

impl View for WorktreeInfo {
    type V = WorktreeInfoView;

    open spec fn view(&self) -> WorktreeInfoView {
        WorktreeInfoView { path: self.path@, branch: self.branch@ }
    }
}

/// The views of a sequence of worktree entries.
pub open spec fn worktree_views(v: Seq<WorktreeInfo>) -> Seq<WorktreeInfoView> {
    v.map_values(|w: WorktreeInfo| w@)
}

pub open spec fn branch_or_detached(b: Option<Seq<char>>) -> Seq<char> {
    match b {
        Some(x) => x,
        None => "detached"@,
    }
}

/// What the porcelain worktree listing parses to, read line by line: a
/// `worktree ` line opens an entry (flushing the previous one), a `branch `
/// line names its branch with any `refs/heads/` prefix dropped, a
/// `detached` line marks it detached, and the last entry is flushed at the
/// end. An entry with no branch line is reported as detached.
pub open spec fn spec_worktrees(
    lines: Seq<Seq<char>>,
    i: int,
    cur_path: Option<Seq<char>>,
    cur_branch: Option<Seq<char>>,
) -> Seq<WorktreeInfoView>
    decreases lines.len() - i,
{
    if i < 0 || i >= lines.len() {
        match cur_path {
            Some(p) => seq![
                WorktreeInfoView { path: p, branch: branch_or_detached(cur_branch) },
            ],
            None => Seq::<WorktreeInfoView>::empty(),
        }
    } else {
        let line = lines[i];
        if spec_starts_with(line, "worktree "@) {
            let flushed = match cur_path {
                Some(p) => seq![
                    WorktreeInfoView { path: p, branch: branch_or_detached(cur_branch) },
                ],
                None => Seq::<WorktreeInfoView>::empty(),
            };
            flushed + spec_worktrees(
                lines,
                i + 1,
                Some(spec_trim(line.skip("worktree "@.len() as int))),
                None,
            )
        } else if spec_starts_with(line, "branch "@) {
            let b0 = spec_trim(line.skip("branch "@.len() as int));
            let b = if spec_starts_with(b0, "refs/heads/"@) {
                b0.skip("refs/heads/"@.len() as int)
            } else {
                b0
            };
            spec_worktrees(lines, i + 1, cur_path, Some(b))
        } else if spec_starts_with(line, "detached"@) {
            spec_worktrees(lines, i + 1, cur_path, Some("detached"@))
        } else {
            spec_worktrees(lines, i + 1, cur_path, cur_branch)
        }
    }
}

fn flush_entry(path: String, branch: &Option<String>) -> (r: WorktreeInfo)
    ensures
        r@ == (WorktreeInfoView {
            path: path@,
            branch: branch_or_detached(crate::cmdline::opt_view(*branch)),
        }),
{
    let b = match branch {
        Some(x) => x.clone(),
        None => "detached".to_owned(),
    };
    WorktreeInfo { path, branch: b }
}

/// Parses the porcelain worktree listing.
pub fn parse_worktree_list(text: &str) -> (r: Vec<WorktreeInfo>)
    ensures
        worktree_views(r@) == spec_worktrees(spec_lines(text@), 0, None, None),
{
    let lines = lines_of(text);
    let ghost lv = spec_lines(text@);
    let n = lines.len();
    let mut out: Vec<WorktreeInfo> = Vec::new();
    let mut cur_path: Option<String> = None;
    let mut cur_branch: Option<String> = None;
    let mut i: usize = 0;
    while i < n
        invariant
            n == lines@.len(),
            lv == views_of(lines@),
            i <= n,
            spec_worktrees(lv, 0, None, None) == worktree_views(out@) + spec_worktrees(
                lv,
                i as int,
                crate::cmdline::opt_view(cur_path),
                crate::cmdline::opt_view(cur_branch),
            ),
        decreases n - i,
    {
        let line = lines[i].as_str();
        if let Some(rest) = strip_prefix_of(line, "worktree ") {
            match cur_path {
                Some(p) => {
                    let entry = flush_entry(p, &cur_branch);
                    out.push(entry);
                }
                None => {}
            }
            cur_path = Some(trim(rest.as_str()));
            cur_branch = None;
            proof {
                assert(spec_worktrees(lv, 0, None, None) =~= worktree_views(out@)
                    + spec_worktrees(
                    lv,
                    i + 1 as int,
                    crate::cmdline::opt_view(cur_path),
                    crate::cmdline::opt_view(cur_branch),
                ));
            }
        } else if let Some(rest) = strip_prefix_of(line, "branch ") {
            let b0 = trim(rest.as_str());
            let b = match strip_prefix_of(b0.as_str(), "refs/heads/") {
                Some(stripped) => stripped,
                None => b0,
            };
            cur_branch = Some(b);
        } else if starts_with(line, "detached") {
            cur_branch = Some("detached".to_owned());
        }
        i += 1;
    }
    match cur_path {
        Some(p) => {
            let entry = flush_entry(p, &cur_branch);
            out.push(entry);
        }
        None => {}
    }
    proof {
        assert(worktree_views(out@) =~= spec_worktrees(lv, 0, None, None));
    }
    out
}

/// Lexicographic order on character sequences, by code point: the order the
/// branch listing is sorted in.
pub open spec fn spec_lex_le(a: Seq<char>, b: Seq<char>) -> bool
    decreases a.len(),
{
    if a.len() == 0 {
        true
    } else if b.len() == 0 {
        false
    } else if (a[0] as u32) < (b[0] as u32) {
        true
    } else if (a[0] as u32) > (b[0] as u32) {
        false
    } else {
        spec_lex_le(a.drop_first(), b.drop_first())
    }
}

pub proof fn lemma_lex_le_total(a: Seq<char>, b: Seq<char>)
    ensures
        spec_lex_le(a, b) || spec_lex_le(b, a),
    decreases a.len(),
{
    if a.len() > 0 && b.len() > 0 && a[0] as u32 == b[0] as u32 {
        lemma_lex_le_total(a.drop_first(), b.drop_first());
    }
}

pub proof fn lemma_lex_le_trans(a: Seq<char>, b: Seq<char>, c: Seq<char>)
    requires
        spec_lex_le(a, b),
        spec_lex_le(b, c),
    ensures
        spec_lex_le(a, c),
    decreases a.len(),
{
    if a.len() > 0 && b.len() > 0 && c.len() > 0 && a[0] as u32 == b[0] as u32 && b[0] as u32
        == c[0] as u32 {
        lemma_lex_le_trans(a.drop_first(), b.drop_first(), c.drop_first());
    }
}

/// Compares two strings in lexicographic code-point order.
pub fn str_lex_le(a: &str, b: &str) -> (r: bool)
    ensures
        r == spec_lex_le(a@, b@),
{
    let an = a.unicode_len();
    let bn = b.unicode_len();
    let mut i: usize = 0;
    proof {
        assert(a@.skip(0) =~= a@);
        assert(b@.skip(0) =~= b@);
    }
    while i < an && i < bn
        invariant
            an == a@.len(),
            bn == b@.len(),
            i <= an,
            i <= bn,
            spec_lex_le(a@, b@) == spec_lex_le(a@.skip(i as int), b@.skip(i as int)),
        decreases an - i,
    {
        let ca = a.get_char(i);
        let cb = b.get_char(i);
        proof {
            assert(a@.skip(i as int)[0] == a@[i as int]);
            assert(b@.skip(i as int)[0] == b@[i as int]);
            assert(a@.skip(i as int).drop_first() =~= a@.skip(i + 1 as int));
            assert(b@.skip(i as int).drop_first() =~= b@.skip(i + 1 as int));
        }
        if (ca as u32) < (cb as u32) {
            return true;
        }
        if (ca as u32) > (cb as u32) {
            return false;
        }
        i += 1;
    }
    proof {
        assert(i >= an || i >= bn);
        if i >= an {
            assert(a@.skip(i as int).len() == 0);
        } else {
            assert(a@.skip(i as int).len() > 0);
            assert(b@.skip(i as int).len() == 0);
        }
    }
    i >= an
}

/// A sequence sorted in lexicographic order.
pub open spec fn spec_lex_sorted(v: Seq<Seq<char>>) -> bool {
    forall|p: int, q: int| 0 <= p < q < v.len() ==> spec_lex_le(v[p], v[q])
}

/// Sorts strings lexicographically; the result is a sorted rearrangement of
/// the input.
pub fn sort_strings(v: Vec<String>) -> (r: Vec<String>)
    ensures
        spec_lex_sorted(views_of(r@)),
        views_of(r@).to_multiset() == views_of(v@).to_multiset(),
{
    let n = v.len();
    let ghost vv = views_of(v@);
    let mut out: Vec<String> = Vec::new();
    let mut i: usize = 0;
    proof {
        assert(vv.take(0) =~= Seq::<Seq<char>>::empty());
        assert(views_of(out@) =~= Seq::<Seq<char>>::empty());
        assert(views_of(out@).to_multiset() =~= vv.take(0).to_multiset());
    }
    while i < n
        invariant
            n == v@.len(),
            vv == views_of(v@),
            i <= n,
            spec_lex_sorted(views_of(out@)),
            views_of(out@).to_multiset() == vv.take(i as int).to_multiset(),
        decreases n - i,
    {
        let x = v[i].clone();
        let ghost xv = x@;
        let olen = out.len();
        let mut j: usize = 0;
        while j < olen && str_lex_le(out[j].as_str(), x.as_str())
            invariant
                olen == out@.len(),
                j <= olen,
                forall|p: int| 0 <= p < j ==> spec_lex_le(#[trigger] out@[p]@, xv),
                xv == x@,
            decreases olen - j,
        {
            j += 1;
        }
        let ghost out0 = views_of(out@);
        out.insert(j, x);
        proof {
            let outv = views_of(out@);
            assert(out0.insert(j as int, xv) =~= outv);
            assert forall|p: int, q: int| 0 <= p < q < outv.len() implies spec_lex_le(
                outv[p],
                outv[q],
            ) by {
                if q < j {
                } else if p < j && q == j {
                    assert(outv[q] == xv);
                    assert(outv[p] == out0[p]);
                } else if p < j && q > j {
                    assert(outv[q] == out0[q - 1]);
                } else if p == j {
                    assert(outv[p] == xv);
                    assert(outv[q] == out0[q - 1]);
                    assert(j < out0.len());
                    assert(!spec_lex_le(out0[j as int], xv));
                    lemma_lex_le_total(out0[j as int], xv);
                    assert(spec_lex_le(xv, out0[j as int]));
                    if q - 1 > j {
                        lemma_lex_le_trans(xv, out0[j as int], out0[q - 1]);
                    }
                } else {
                    assert(outv[p] == out0[p - 1]);
                    assert(outv[q] == out0[q - 1]);
                }
            };
            assert(vv.take(i + 1 as int).drop_last() =~= vv.take(i as int));
            assert(vv.take(i + 1 as int) =~= vv.take(i as int).push(xv));
            vv.take(i as int).to_multiset_ensures();
            assert(vv.take(i + 1 as int).to_multiset() =~= vv.take(
                i as int,
            ).to_multiset().insert(xv));
            let pre = out0.take(j as int);
            let post = out0.skip(j as int);
            assert(out0.insert(j as int, xv) =~= pre.push(xv) + post);
            assert(out0 =~= pre + post);
            vstd::seq_lib::lemma_multiset_commutative(pre.push(xv), post);
            vstd::seq_lib::lemma_multiset_commutative(pre, post);
            pre.to_multiset_ensures();
            assert(pre.push(xv).to_multiset() =~= pre.to_multiset().insert(xv));
            assert(outv.to_multiset() =~= out0.to_multiset().insert(xv));
        }
        i += 1;
    }
    proof {
        assert(vv.take(n as int) =~= vv);
    }
    out
}

/// The cleaned branch names of a `for-each-ref` listing: each line trimmed,
/// empty lines dropped.
pub open spec fn spec_branch_of_line(line: Seq<char>) -> Option<Seq<char>> {
    let t = spec_trim(line);
    if t.len() > 0 {
        Some(t)
    } else {
        None
    }
}

/// Parses the branch listing: trimmed non-empty lines, sorted
/// lexicographically.
pub fn parse_branch_list(text: &str) -> (r: Vec<String>)
    ensures
        spec_lex_sorted(views_of(r@)),
        views_of(r@).to_multiset() == spec_lines(text@).filter_map(
            |l: Seq<char>| spec_branch_of_line(l),
        ).to_multiset(),
{
    let lines = lines_of(text);
    let ghost lv = spec_lines(text@);
    let ghost f = |l: Seq<char>| spec_branch_of_line(l);
    let n = lines.len();
    let mut cleaned: Vec<String> = Vec::new();
    proof {
        assert(lv.take(0) =~= Seq::<Seq<char>>::empty());
        assert(views_of(cleaned@) =~= lv.take(0).filter_map(f));
    }
    let mut i: usize = 0;
    while i < n
        invariant
            n == lines@.len(),
            lv == views_of(lines@),
            i <= n,
            views_of(cleaned@) == lv.take(i as int).filter_map(f),
            f == (|l: Seq<char>| spec_branch_of_line(l)),
        decreases n - i,
    {
        let t = trim(lines[i].as_str());
        proof {
            lv.lemma_filter_map_take_succ(f, i as int);
        }
        if t.as_str().unicode_len() > 0 {
            cleaned.push(t);
            proof {
                assert(views_of(cleaned@) =~= lv.take(i + 1 as int).filter_map(f));
            }
        } else {
            proof {
                assert(views_of(cleaned@) =~= lv.take(i + 1 as int).filter_map(f));
            }
        }
        i += 1;
    }
    proof {
        assert(lv.take(n as int) =~= lv);
    }
    sort_strings(cleaned)
}

/// ASCII uppercase mapped to lowercase; every other character unchanged.
pub open spec fn spec_lower(c: char) -> char {
    if 65 <= c as u32 <= 90 {
        ((c as u32 + 32) as u8) as char
    } else {
        c
    }
}

fn lower_char(c: char) -> (r: char)
    ensures
        r == spec_lower(c),
{
    if c >= 'A' && c <= 'Z' {
        ((c as u8) + 32) as char
    } else {
        c
    }
}

/// A lowercase ASCII letter or digit: what a slug keeps.
pub open spec fn spec_is_slug_char(c: char) -> bool {
    (48 <= c as u32 <= 57) || (97 <= c as u32 <= 122)
}

fn is_slug_char(c: char) -> (r: bool)
    ensures
        r == spec_is_slug_char(c),
{
    let u = c as u32;
    (48 <= u && u <= 57) || (97 <= u && u <= 122)
}

/// The raw slug of a name: each character lowercased, runs of anything else
/// collapsed to single dashes, with no leading dash.
pub open spec fn spec_slug_core(s: Seq<char>) -> Seq<char>
    decreases s.len(),
{
    if s.len() == 0 {
        Seq::<char>::empty()
    } else {
        let pre = spec_slug_core(s.drop_last());
        let lower = spec_lower(s.last());
        if spec_is_slug_char(lower) {
            pre.push(lower)
        } else if pre.len() > 0 && pre.last() != '-' {
            pre.push('-')
        } else {
            pre
        }
    }
}

/// A task name turned into a branch-safe slug: lowercased alphanumeric runs
/// joined by single dashes, dashes trimmed from both ends, and `task` when
/// nothing remains.
pub open spec fn spec_slugify(s: Seq<char>) -> Seq<char> {
    let t = crate::text::spec_trim_end_by(
        crate::text::spec_trim_start_by(spec_slug_core(s), |x: char| x == '-'),
        |x: char| x == '-',
    );
    if t.len() == 0 {
        "task"@
    } else {
        t
    }
}

/// Slugs a task name for use in branch and directory names.
pub fn slugify_task_name(name: &str) -> (r: String)
    ensures
        r@ == spec_slugify(name@),
{
    let n = name.unicode_len();
    let mut slug = String::new();
    let mut prev_dash = false;
    let mut i: usize = 0;
    proof {
        assert(name@.take(0) =~= Seq::<char>::empty());
        assert(slug@ =~= spec_slug_core(name@.take(0)));
    }
    while i < n
        invariant
            n == name@.len(),
            i <= n,
            slug@ == spec_slug_core(name@.take(i as int)),
            prev_dash == (slug@.len() > 0 && slug@.last() == '-'),
        decreases n - i,
    {
        let c = name.get_char(i);
        proof {
            assert(name@.take(i + 1 as int).drop_last() =~= name@.take(i as int));
            assert(name@.take(i + 1 as int).last() == name@[i as int]);
        }
        let lower = lower_char(c);
        if is_slug_char(lower) {
            push_char(&mut slug, lower);
            prev_dash = false;
        } else if !prev_dash && slug.as_str().unicode_len() > 0 {
            push_char(&mut slug, '-');
            prev_dash = true;
        }
        i += 1;
    }
    proof {
        assert(name@.take(n as int) =~= name@);
    }
    let trimmed = crate::text::trim_char_both(slug.as_str(), '-');
    if trimmed.as_str().unicode_len() == 0 {
        "task".to_owned()
    } else {
        trimmed
    }
}

/// Relies on `SystemTime::now` and `Duration::as_nanos`: the nanoseconds
/// since the epoch, a fresh value on each call.
#[verifier::external_body]
fn current_nanos() -> u128 {
    std::time::SystemTime::now().duration_since(std::time::UNIX_EPOCH).unwrap_or_default()
        .as_nanos()
}

/// Relies on `DefaultHasher`: hashes the seed and the nanoseconds into one
/// 64-bit value. The result is not stable across library releases, so
/// nothing further is assumed of it.
#[verifier::external_body]
fn hash_seed_nanos(seed: &str, nanos: u128) -> u64 {
    let mut hasher = std::collections::hash_map::DefaultHasher::new();
    std::hash::Hash::hash(seed, &mut hasher);
    std::hash::Hash::hash(&nanos, &mut hasher);
    std::hash::Hasher::finish(&hasher)
}

/// The character of one lowercase hexadecimal digit.
pub open spec fn spec_hex_digit(d: u64) -> char {
    if d == 0 {
        '0'
    } else if d == 1 {
        '1'
    } else if d == 2 {
        '2'
    } else if d == 3 {
        '3'
    } else if d == 4 {
        '4'
    } else if d == 5 {
        '5'
    } else if d == 6 {
        '6'
    } else if d == 7 {
        '7'
    } else if d == 8 {
        '8'
    } else if d == 9 {
        '9'
    } else if d == 10 {
        'a'
    } else if d == 11 {
        'b'
    } else if d == 12 {
        'c'
    } else if d == 13 {
        'd'
    } else if d == 14 {
        'e'
    } else {
        'f'
    }
}

fn hex_digit_char(d: u64) -> (c: char)
    requires
        d < 16,
    ensures
        c == spec_hex_digit(d),
{
    if d == 0 {
        '0'
    } else if d == 1 {
        '1'
    } else if d == 2 {
        '2'
    } else if d == 3 {
        '3'
    } else if d == 4 {
        '4'
    } else if d == 5 {
        '5'
    } else if d == 6 {
        '6'
    } else if d == 7 {
        '7'
    } else if d == 8 {
        '8'
    } else if d == 9 {
        '9'
    } else if d == 10 {
        'a'
    } else if d == 11 {
        'b'
    } else if d == 12 {
        'c'
    } else if d == 13 {
        'd'
    } else if d == 14 {
        'e'
    } else {
        'f'
    }
}

/// The low twelve bits of a hash as three lowercase hexadecimal digits,
/// most significant first.
pub open spec fn spec_hex3(h: u64) -> Seq<char> {
    seq![
        spec_hex_digit((h >> 8) & 0xf),
        spec_hex_digit((h >> 4) & 0xf),
        spec_hex_digit(h & 0xf),
    ]
}

fn format_hex3(h: u64) -> (r: String)
    ensures
        r@ == spec_hex3(h),
{
    proof {
        assert((h >> 8) & 0xf < 16 && (h >> 4) & 0xf < 16 && h & 0xf < 16) by (bit_vector);
    }
    let mut r = String::new();
    push_char(&mut r, hex_digit_char((h >> 8) & 0xf));
    push_char(&mut r, hex_digit_char((h >> 4) & 0xf));
    push_char(&mut r, hex_digit_char(h & 0xf));
    proof {
        assert(r@ =~= spec_hex3(h));
    }
    r
}

/// A lowercase hexadecimal digit character.
pub open spec fn spec_is_hex_char(c: char) -> bool {
    (48 <= c as u32 <= 57) || (97 <= c as u32 <= 102)
}

proof fn lemma_hex_digit_is_hex_char(d: u64)
    requires
        d < 16,
    ensures
        spec_is_hex_char(spec_hex_digit(d)),
{
}

/// A fresh three-character lowercase hexadecimal suffix, drawn from the
/// seed, the current time and the process's hasher. Different calls may
/// differ; every result is three lowercase hexadecimal digits.
pub fn generate_suffix(seed: &str) -> (r: String)
    ensures
        r@.len() == 3,
        forall|i: int| 0 <= i < 3 ==> spec_is_hex_char(r@[i]),
{
    let nanos = current_nanos();
    let h = hash_seed_nanos(seed, nanos);
    let r = format_hex3(h);
    proof {
        assert((h >> 8) & 0xf < 16 && (h >> 4) & 0xf < 16 && h & 0xf < 16) by (bit_vector);
        lemma_hex_digit_is_hex_char((h >> 8) & 0xf);
        lemma_hex_digit_is_hex_char((h >> 4) & 0xf);
        lemma_hex_digit_is_hex_char(h & 0xf);
    }
    r
}

/// The seed one naming attempt hashes: `<task>-<attempt>`.
pub fn attempt_seed(task_name: &str, attempt: u64) -> (r: String)
    ensures
        r@ == task_name@ + "-"@ + crate::text::spec_udec(attempt as nat),
{
    let mut r = task_name.to_owned();
    r.append("-");
    r.append(crate::text::u64_to_dec(attempt).as_str());
    r
}

/// The branch a worktree is created on: `aterm/<slug>-<suffix>`.
pub fn worktree_branch_name(slug: &str, suffix: &str) -> (r: String)
    ensures
        r@ == "aterm/"@ + slug@ + "-"@ + suffix@,
{
    let mut r = "aterm/".to_owned();
    r.append(slug);
    r.append("-");
    r.append(suffix);
    r
}

/// The directory name of a worktree: `<slug>-<suffix>`.
pub fn worktree_dir_name(slug: &str, suffix: &str) -> (r: String)
    ensures
        r@ == slug@ + "-"@ + suffix@,
{
    let mut r = slug.to_owned();
    r.append("-");
    r.append(suffix);
    r
}

/// The index of the last occurrence of one character, if any.
pub open spec fn spec_last_index_of(s: Seq<char>, c: char) -> Option<int>
    decreases s.len(),
{
    if s.len() == 0 {
        None
    } else if s.last() == c {
        Some(s.len() - 1)
    } else {
        spec_last_index_of(s.drop_last(), c)
    }
}

fn last_index_of(s: &str, c: char) -> (r: Option<usize>)
    ensures
        (match r {
            Some(i) => Some(i as int),
            None => None,
        }) == spec_last_index_of(s@, c),
        r matches Some(i) ==> i < s@.len(),
{
    let n = s.unicode_len();
    let mut j: usize = n;
    proof {
        assert(s@.take(n as int) =~= s@);
    }
    while j > 0
        invariant
            n == s@.len(),
            j <= n,
            spec_last_index_of(s@, c) == spec_last_index_of(s@.take(j as int), c),
        decreases j,
    {
        proof {
            assert(s@.take(j as int).last() == s@[j - 1]);
            assert(s@.take(j as int).drop_last() =~= s@.take(j - 1 as int));
        }
        if s.get_char(j - 1) == c {
            return Some(j - 1);
        }
        j -= 1;
    }
    proof {
        assert(s@.take(0) =~= Seq::<char>::empty());
    }
    None
}

/// A path without its trailing slashes.
pub open spec fn spec_path_trimmed(path: Seq<char>) -> Seq<char> {
    crate::text::spec_trim_end_by(path, |x: char| x == '/')
}

/// The last segment of a path: the project's name.
pub open spec fn spec_project_name(path: Seq<char>) -> Seq<char> {
    let t = spec_path_trimmed(path);
    match spec_last_index_of(t, '/') {
        Some(i) => t.skip(i + 1),
        None => t,
    }
}

/// The parent directory of a path, when it has one.
pub open spec fn spec_parent_dir(path: Seq<char>) -> Option<Seq<char>> {
    let t = spec_path_trimmed(path);
    match spec_last_index_of(t, '/') {
        Some(i) => Some(t.take(i)),
        None => None,
    }
}

/// The project name of a path: its last segment, trailing slashes ignored.
pub fn project_name_of(path: &str) -> (r: String)
    ensures
        r@ == spec_project_name(path@),
{
    let t = crate::text::trim_end_char(path, '/');
    let n = t.as_str().unicode_len();
    match last_index_of(t.as_str(), '/') {
        Some(i) => {
            let r = t.as_str().substring_char(i + 1, n).to_owned();
            proof {
                assert(r@ =~= t@.skip(i + 1 as int));
            }
            r
        }
        None => t,
    }
}

/// The parent directory of a path, trailing slashes ignored; `None` for a
/// path with no slash.
pub fn parent_dir_of(path: &str) -> (r: Option<String>)
    ensures
        (match r {
            Some(p) => Some(p@),
            None => None,
        }) == spec_parent_dir(path@),
{
    let t = crate::text::trim_end_char(path, '/');
    match last_index_of(t.as_str(), '/') {
        Some(i) => {
            let p = t.as_str().substring_char(0, i).to_owned();
            proof {
                assert(p@ =~= t@.take(i as int));
            }
            Some(p)
        }
        None => None,
    }
}

/// The directory worktrees of a project live under:
/// `<parent>/worktrees/<project>`.
pub fn worktrees_root_of(parent: &str, project: &str) -> (r: String)
    ensures
        r@ == parent@ + "/worktrees/"@ + project@,
{
    let mut r = parent.to_owned();
    r.append("/worktrees/");
    r.append(project);
    r
}

/// One worktree's path under the worktrees root: `<root>/<dir>`.
pub fn path_under(root: &str, dir: &str) -> (r: String)
    ensures
        r@ == root@ + "/"@ + dir@,
{
    let mut r = root.to_owned();
    r.append("/");
    r.append(dir);
    r
}

/// Whether a subprocess report, trimmed, reads exactly as expected.
pub fn output_matches(output: &str, expected: &str) -> (r: bool)
    ensures
        r == (spec_trim(output@) == expected@),
{
    let t = trim(output);
    str_eq(t.as_str(), expected)
}

/// The branch a report names, or `HEAD` when it is empty after trimming.
pub fn branch_or_head(output: &str) -> (r: String)
    ensures
        r@ == (if spec_trim(output@).len() == 0 {
            "HEAD"@
        } else {
            spec_trim(output@)
        }),
{
    let t = trim(output);
    if t.as_str().unicode_len() == 0 {
        "HEAD".to_owned()
    } else {
        t
    }
}

/// The caller's base reference, trimmed, when it names one.
pub fn base_ref_of(base: &Option<String>) -> (r: Option<String>)
    ensures
        (match r {
            Some(b) => Some(b@),
            None => None,
        }) == (match crate::cmdline::opt_view(*base) {
            Some(b) => if spec_trim(b).len() > 0 {
                Some(spec_trim(b))
            } else {
                None
            },
            None => None,
        }),
{
    match base {
        Some(b) => {
            let t = trim(b.as_str());
            if t.as_str().unicode_len() > 0 {
                Some(t)
            } else {
                None
            }
        }
        None => None,
    }
}

/// Whether a file of the project directory is carried over into a fresh
/// worktree: the direnv file, the compose override, and every `.env` file.
pub fn should_preserve_file(name: &str) -> (r: bool)
    ensures
        r == (name@ == ".envrc"@ || name@ == "docker-compose.override.yml"@
            || spec_starts_with(name@, ".env"@)),
{
    str_eq(name, ".envrc") || str_eq(name, "docker-compose.override.yml") || starts_with(
        name,
        ".env",
    )
}

/// The remote command that tests whether the path is inside a git
/// repository.
pub fn remote_check_repo_cmd(path: &str) -> (r: String)
    ensures
        r@ == "cd '"@ + path@ + "' && git rev-parse --is-inside-work-tree"@,
{
    let mut r = "cd '".to_owned();
    r.append(path);
    r.append("' && git rev-parse --is-inside-work-tree");
    r
}

/// The remote command that reports the current branch.
pub fn remote_branch_cmd(path: &str) -> (r: String)
    ensures
        r@ == "cd '"@ + path@ + "' && git branch --show-current"@,
{
    let mut r = "cd '".to_owned();
    r.append(path);
    r.append("' && git branch --show-current");
    r
}

/// The remote command that creates the worktrees root directory.
pub fn remote_mkdir_cmd(root: &str) -> (r: String)
    ensures
        r@ == "mkdir -p '"@ + root@ + "'"@,
{
    let mut r = "mkdir -p '".to_owned();
    r.append(root);
    r.append("'");
    r
}

/// The remote command that reports whether a directory exists.
pub fn remote_exists_cmd(path: &str) -> (r: String)
    ensures
        r@ == "test -d '"@ + path@ + "' && echo exists || echo not"@,
{
    let mut r = "test -d '".to_owned();
    r.append(path);
    r.append("' && echo exists || echo not");
    r
}

/// The remote command that reports whether a branch exists.
pub fn remote_branch_check_cmd(path: &str, branch: &str) -> (r: String)
    ensures
        r@ == "cd '"@ + path@ + "' && git show-ref --verify --quiet refs/heads/"@ + branch@
            + " && echo exists || echo not"@,
{
    let mut r = "cd '".to_owned();
    r.append(path);
    r.append("' && git show-ref --verify --quiet refs/heads/");
    r.append(branch);
    r.append(" && echo exists || echo not");
    r
}

/// The remote command that creates the worktree on its new branch.
pub fn remote_create_cmd(path: &str, branch: &str, worktree_path: &str, base_ref: &str) -> (r:
    String)
    ensures
        r@ == "cd '"@ + path@ + "' && git worktree add -b '"@ + branch@ + "' '"@
            + worktree_path@ + "' '"@ + base_ref@ + "'"@,
{
    let mut r = "cd '".to_owned();
    r.append(path);
    r.append("' && git worktree add -b '");
    r.append(branch);
    r.append("' '");
    r.append(worktree_path);
    r.append("' '");
    r.append(base_ref);
    r.append("'");
    r
}

/// The remote command that copies the preserved files into the worktree.
pub fn remote_copy_cmd(path: &str, worktree_path: &str) -> (r: String)
    ensures
        r@ == "cd '"@ + path@
            + "' && for f in .env* .envrc docker-compose.override.yml; do [ -f \"$f\" ] && cp \"$f\" '"@
            + worktree_path@ + "/' 2>/dev/null; done; true"@,
{
    let mut r = "cd '".to_owned();
    r.append(path);
    r.append("' && for f in .env* .envrc docker-compose.override.yml; do [ -f \"$f\" ] && cp \"$f\" '");
    r.append(worktree_path);
    r.append("/' 2>/dev/null; done; true");
    r
}

/// The remote command that reports the git common directory of a worktree.
pub fn remote_common_dir_cmd(worktree_path: &str) -> (r: String)
    ensures
        r@ == "cd '"@ + worktree_path@ + "' && git rev-parse --git-common-dir"@,
{
    let mut r = "cd '".to_owned();
    r.append(worktree_path);
    r.append("' && git rev-parse --git-common-dir");
    r
}

/// The git directory a worktree removal must address: the common directory
/// itself when absolute, else resolved under the worktree path.
pub fn resolve_git_dir(worktree_path: &str, common_dir_raw: &str) -> (r: String)
    ensures
        r@ == ({
            let t = spec_trim(common_dir_raw@);
            if t.len() > 0 && t[0] == '/' {
                t
            } else {
                worktree_path@ + "/"@ + t
            }
        }),
{
    let t = trim(common_dir_raw);
    let n = t.as_str().unicode_len();
    if n > 0 && t.as_str().get_char(0) == '/' {
        t
    } else {
        let mut r = worktree_path.to_owned();
        r.append("/");
        r.append(t.as_str());
        r
    }
}

/// The remote command that removes a worktree through its git directory.
pub fn remote_remove_cmd(git_dir: &str, worktree_path: &str) -> (r: String)
    ensures
        r@ == "git --git-dir='"@ + git_dir@ + "' worktree remove --force '"@ + worktree_path@
            + "'"@,
{
    let mut r = "git --git-dir='".to_owned();
    r.append(git_dir);
    r.append("' worktree remove --force '");
    r.append(worktree_path);
    r.append("'");
    r
}

} // verus!
