//! Directory-listing logic: which entries the browser shows, which dotfiles
//! matter, which directories the project explorer skips, relative paths, and
//! the display order (directories first, then by case-folded name). The
//! filesystem walk itself happens outside this crate.

use vstd::prelude::*;
use vstd::string::{StrSliceExecFns, StringExecFns};

use crate::scan::{spec_starts_with, starts_with};
use crate::text::str_eq;
use crate::worktree::{lemma_lex_le_total, lemma_lex_le_trans, spec_lex_le, str_lex_le};

verus! {

/// One entry of the directory browser.
pub struct DirEntry {
    pub name: String,
    pub path: String,
    pub is_dir: bool,
    pub is_git_repo: bool,
}

/// The mathematical value of one browser entry.
#[verifier::ext_equal]
pub ghost struct DirEntryView {
    pub name: Seq<char>,
    pub path: Seq<char>,
    pub is_dir: bool,
    pub is_git_repo: bool,
}

impl View for DirEntry {
    type V = DirEntryView;

    open spec fn view(&self) -> DirEntryView {
        DirEntryView {
            name: self.name@,
            path: self.path@,
            is_dir: self.is_dir,
            is_git_repo: self.is_git_repo,
        }
    }
}

/// The views of a sequence of browser entries.
pub open spec fn dir_entry_views(v: Seq<DirEntry>) -> Seq<DirEntryView> {
    v.map_values(|e: DirEntry| e@)
}

/// One entry of the project file explorer, with its path relative to the
/// project root.
pub struct ProjectFileEntry {
    pub name: String,
    pub path: String,
    pub is_dir: bool,
}

/// The mathematical value of one explorer entry.
#[verifier::ext_equal]
pub ghost struct ProjectFileEntryView {
    pub name: Seq<char>,
    pub path: Seq<char>,
    pub is_dir: bool,
}

impl View for ProjectFileEntry {
    type V = ProjectFileEntryView;

    open spec fn view(&self) -> ProjectFileEntryView {
        ProjectFileEntryView { name: self.name@, path: self.path@, is_dir: self.is_dir }
    }
}

/// The views of a sequence of explorer entries.
pub open spec fn project_entry_views(v: Seq<ProjectFileEntry>) -> Seq<ProjectFileEntryView> {
    v.map_values(|e: ProjectFileEntry| e@)
}

/// One type-definition file served to the editor, under its virtual path.
pub struct TypeDefinition {
    pub path: String,
    pub content: String,
}

/// A dotfile worth showing in the project explorer.
pub open spec fn spec_important_dotfile(name: Seq<char>) -> bool {
    name == ".env"@ || name == ".env.local"@ || name == ".env.development"@ || name
        == ".env.production"@ || name == ".gitignore"@ || name == ".npmrc"@ || name == ".nvmrc"@
        || name == ".prettierrc"@ || name == ".prettierrc.json"@ || name == ".prettierrc.js"@
        || name == ".eslintrc"@ || name == ".eslintrc.json"@ || name == ".eslintrc.js"@ || name
        == ".editorconfig"@ || name == ".dockerignore"@
}

/// Whether a dotfile is important enough to show.
pub fn is_important_dotfile(name: &str) -> (r: bool)
    ensures
        r == spec_important_dotfile(name@),
{
    str_eq(name, ".env") || str_eq(name, ".env.local") || str_eq(name, ".env.development")
        || str_eq(name, ".env.production") || str_eq(name, ".gitignore") || str_eq(
        name,
        ".npmrc",
    ) || str_eq(name, ".nvmrc") || str_eq(name, ".prettierrc") || str_eq(
        name,
        ".prettierrc.json",
    ) || str_eq(name, ".prettierrc.js") || str_eq(name, ".eslintrc") || str_eq(
        name,
        ".eslintrc.json",
    ) || str_eq(name, ".eslintrc.js") || str_eq(name, ".editorconfig") || str_eq(
        name,
        ".dockerignore",
    )
}

/// A directory the project explorer always filters out: build outputs,
/// package caches and virtual environments.
pub open spec fn spec_ignored_dir(name: Seq<char>) -> bool {
    name == "node_modules"@ || name == ".git"@ || name == "dist"@ || name == "build"@ || name
        == ".next"@ || name == ".nuxt"@ || name == ".turbo"@ || name == ".vercel"@ || name
        == "target"@ || name == "__pycache__"@ || name == ".pytest_cache"@ || name
        == ".mypy_cache"@ || name == "venv"@ || name == ".venv"@ || name == "env"@ || name
        == ".tox"@ || name == "coverage"@ || name == ".coverage"@ || name == ".nyc_output"@
        || name == ".cache"@ || name == ".parcel-cache"@ || name == ".svelte-kit"@ || name
        == ".output"@
}

/// Whether the project explorer skips a directory of this name.
pub fn is_ignored_dir(name: &str) -> (r: bool)
    ensures
        r == spec_ignored_dir(name@),
{
    str_eq(name, "node_modules") || str_eq(name, ".git") || str_eq(name, "dist") || str_eq(
        name,
        "build",
    ) || str_eq(name, ".next") || str_eq(name, ".nuxt") || str_eq(name, ".turbo") || str_eq(
        name,
        ".vercel",
    ) || str_eq(name, "target") || str_eq(name, "__pycache__") || str_eq(name, ".pytest_cache")
        || str_eq(name, ".mypy_cache") || str_eq(name, "venv") || str_eq(name, ".venv")
        || str_eq(name, "env") || str_eq(name, ".tox") || str_eq(name, "coverage") || str_eq(
        name,
        ".coverage",
    ) || str_eq(name, ".nyc_output") || str_eq(name, ".cache") || str_eq(name, ".parcel-cache")
        || str_eq(name, ".svelte-kit") || str_eq(name, ".output")
}

/// Whether the directory browser shows an entry: hidden names are skipped,
/// except the parent-directory entry.
pub fn dir_entry_visible(name: &str) -> (r: bool)
    ensures
        r == !(spec_starts_with(name@, "."@) && name@ != ".."@),
{
    !(starts_with(name, ".") && !str_eq(name, ".."))
}

/// Whether the project explorer shows an entry: hidden names only when
/// important, ignored directories never.
pub fn project_entry_visible(name: &str, is_dir: bool) -> (r: bool)
    ensures
        r == (!(spec_starts_with(name@, "."@) && !spec_important_dotfile(name@)) && !(is_dir
            && spec_ignored_dir(name@))),
{
    if starts_with(name, ".") && !is_important_dotfile(name) {
        return false;
    }
    if is_dir && is_ignored_dir(name) {
        return false;
    }
    true
}

/// The explorer path of an entry: under the relative path when one is
/// given, else the bare name.
pub fn project_rel_path(relative_path: &Option<String>, name: &str) -> (r: String)
    ensures
        r@ == (match crate::cmdline::opt_view(*relative_path) {
            Some(rel) => if rel.len() > 0 {
                rel + "/"@ + name@
            } else {
                name@
            },
            None => name@,
        }),
{
    match relative_path {
        Some(rel) => {
            if rel.as_str().unicode_len() > 0 {
                let mut r = rel.clone();
                r.append("/");
                r.append(name);
                r
            } else {
                name.to_owned()
            }
        }
        None => name.to_owned(),
    }
}

/// Whether `s` ends with `p`.
pub open spec fn spec_ends_with(s: Seq<char>, p: Seq<char>) -> bool {
    p.len() <= s.len() && s.skip(s.len() - p.len()) == p
}

/// Whether a file carries type definitions, by its `.d.ts` ending.
pub fn is_dts_file(name: &str) -> (r: bool)
    ensures
        r == spec_ends_with(name@, ".d.ts"@),
{
    let n = name.unicode_len();
    proof {
        reveal_strlit(".d.ts");
    }
    if n < 5 {
        return false;
    }
    let tail = name.substring_char(n - 5, n);
    proof {
        assert(tail@ =~= name@.skip(name@.len() - 5));
    }
    str_eq(tail, ".d.ts")
}

/// The virtual path a type-definition file is served under:
/// `node_modules/<base>/<name>`.
pub fn dts_virtual_path(base: &str, name: &str) -> (r: String)
    ensures
        r@ == "node_modules/"@ + base@ + "/"@ + name@,
{
    let mut r = "node_modules/".to_owned();
    r.append(base);
    r.append("/");
    r.append(name);
    r
}

/// What `str::to_lowercase` maps a string to; the result depends on the
/// characters alone.
pub uninterp spec fn lower_of(s: Seq<char>) -> Seq<char>;

/// Relies on `str::to_lowercase`: the case-folded name entries are ordered
/// by.
#[verifier::external_body]
fn to_lowercase(s: &str) -> (r: String)
    ensures
        r@ == lower_of(s@),
{
    s.to_lowercase()
}

/// The display order of the directory browser and the project explorer:
/// directories before files, and within each kind the case-folded names in
/// lexicographic order.
pub open spec fn spec_listing_le(
    a_is_dir: bool,
    a_name: Seq<char>,
    b_is_dir: bool,
    b_name: Seq<char>,
) -> bool {
    if a_is_dir != b_is_dir {
        a_is_dir
    } else {
        spec_lex_le(lower_of(a_name), lower_of(b_name))
    }
}

pub proof fn lemma_listing_le_total(a_d: bool, a_n: Seq<char>, b_d: bool, b_n: Seq<char>)
    ensures
        spec_listing_le(a_d, a_n, b_d, b_n) || spec_listing_le(b_d, b_n, a_d, a_n),
{
    if a_d == b_d {
        lemma_lex_le_total(lower_of(a_n), lower_of(b_n));
    }
}

pub proof fn lemma_listing_le_trans(
    a_d: bool,
    a_n: Seq<char>,
    b_d: bool,
    b_n: Seq<char>,
    c_d: bool,
    c_n: Seq<char>,
)
    requires
        spec_listing_le(a_d, a_n, b_d, b_n),
        spec_listing_le(b_d, b_n, c_d, c_n),
    ensures
        spec_listing_le(a_d, a_n, c_d, c_n),
{
    if a_d == b_d && b_d == c_d {
        lemma_lex_le_trans(lower_of(a_n), lower_of(b_n), lower_of(c_n));
    }
}

fn listing_le(a_is_dir: bool, a_name: &str, b_is_dir: bool, b_name: &str) -> (r: bool)
    ensures
        r == spec_listing_le(a_is_dir, a_name@, b_is_dir, b_name@),
{
    if a_is_dir != b_is_dir {
        a_is_dir
    } else {
        let la = to_lowercase(a_name);
        let lb = to_lowercase(b_name);
        str_lex_le(la.as_str(), lb.as_str())
    }
}

/// A browser listing in display order.
pub open spec fn spec_dir_entries_sorted(v: Seq<DirEntryView>) -> bool {
    forall|p: int, q: int|
        0 <= p < q < v.len() ==> spec_listing_le(v[p].is_dir, v[p].name, v[q].is_dir, v[q].name)
}

/// Sorts browser entries into display order; the result is a sorted
/// rearrangement of the input.
pub fn sort_dir_entries(v: Vec<DirEntry>) -> (r: Vec<DirEntry>)
    ensures
        spec_dir_entries_sorted(dir_entry_views(r@)),
        dir_entry_views(r@).to_multiset() == dir_entry_views(v@).to_multiset(),
{
    let n = v.len();
    let ghost vv = dir_entry_views(v@);
    let mut out: Vec<DirEntry> = Vec::new();
    let mut i: usize = 0;
    proof {
        assert(vv.take(0) =~= Seq::<DirEntryView>::empty());
        assert(dir_entry_views(out@) =~= Seq::<DirEntryView>::empty());
        assert(dir_entry_views(out@).to_multiset() =~= vv.take(0).to_multiset());
    }
    while i < n
        invariant
            n == v@.len(),
            vv == dir_entry_views(v@),
            i <= n,
            spec_dir_entries_sorted(dir_entry_views(out@)),
            dir_entry_views(out@).to_multiset() == vv.take(i as int).to_multiset(),
        decreases n - i,
    {
        let x = DirEntry {
            name: v[i].name.clone(),
            path: v[i].path.clone(),
            is_dir: v[i].is_dir,
            is_git_repo: v[i].is_git_repo,
        };
        let ghost xv = x@;
        proof {
            assert(xv == vv[i as int]);
        }
        let olen = out.len();
        let mut j: usize = 0;
        while j < olen && listing_le(out[j].is_dir, out[j].name.as_str(), x.is_dir, x.name.as_str())
            invariant
                olen == out@.len(),
                j <= olen,
                forall|p: int| 0 <= p < j ==> spec_listing_le(
                    #[trigger] out@[p]@.is_dir,
                    out@[p]@.name,
                    xv.is_dir,
                    xv.name,
                ),
                xv == x@,
            decreases olen - j,
        {
            j += 1;
        }
        let ghost out0 = dir_entry_views(out@);
        out.insert(j, x);
        proof {
            let outv = dir_entry_views(out@);
            assert(out0.insert(j as int, xv) =~= outv);
            assert forall|p: int, q: int| 0 <= p < q < outv.len() implies spec_listing_le(
                outv[p].is_dir,
                outv[p].name,
                outv[q].is_dir,
                outv[q].name,
            ) by {
                if q < j {
                } else if p < j && q == j {
                    assert(outv[q] == xv);
                    assert(outv[p] == out0[p]);
                } else if p < j && q > j {
                    assert(outv[q] == out0[q - 1]);
                } else if p == j {
                    assert(outv[p] == xv);
                    assert(outv[q] == out0[q - 1]);
                    assert(j < out0.len());
                    assert(!spec_listing_le(out0[j as int].is_dir, out0[j as int].name, xv.is_dir, xv.name));
                    lemma_listing_le_total(out0[j as int].is_dir, out0[j as int].name, xv.is_dir, xv.name);
                    if q - 1 > j {
                        lemma_listing_le_trans(
                            xv.is_dir,
                            xv.name,
                            out0[j as int].is_dir,
                            out0[j as int].name,
                            out0[q - 1].is_dir,
                            out0[q - 1].name,
                        );
                    }
                } else {
                    assert(outv[p] == out0[p - 1]);
                    assert(outv[q] == out0[q - 1]);
                }
            };
            assert(vv.take(i + 1 as int).drop_last() =~= vv.take(i as int));
            assert(vv.take(i + 1 as int) =~= vv.take(i as int).push(xv));
            vv.take(i as int).to_multiset_ensures();
            assert(vv.take(i + 1 as int).to_multiset() =~= vv.take(
                i as int,
            ).to_multiset().insert(xv));
            let pre = out0.take(j as int);
            let post = out0.skip(j as int);
            assert(out0.insert(j as int, xv) =~= pre.push(xv) + post);
            assert(out0 =~= pre + post);
            vstd::seq_lib::lemma_multiset_commutative(pre.push(xv), post);
            vstd::seq_lib::lemma_multiset_commutative(pre, post);
            pre.to_multiset_ensures();
            assert(pre.push(xv).to_multiset() =~= pre.to_multiset().insert(xv));
            assert(outv.to_multiset() =~= out0.to_multiset().insert(xv));
        }
        i += 1;
    }
    proof {
        assert(vv.take(n as int) =~= vv);
    }
    out
}

/// An explorer listing in display order.
pub open spec fn spec_project_entries_sorted(v: Seq<ProjectFileEntryView>) -> bool {
    forall|p: int, q: int|
        0 <= p < q < v.len() ==> spec_listing_le(v[p].is_dir, v[p].name, v[q].is_dir, v[q].name)
}

/// Sorts explorer entries into display order; the result is a sorted
/// rearrangement of the input.
pub fn sort_project_entries(v: Vec<ProjectFileEntry>) -> (r: Vec<ProjectFileEntry>)
    ensures
        spec_project_entries_sorted(project_entry_views(r@)),
        project_entry_views(r@).to_multiset() == project_entry_views(v@).to_multiset(),
{
    let n = v.len();
    let ghost vv = project_entry_views(v@);
    let mut out: Vec<ProjectFileEntry> = Vec::new();
    let mut i: usize = 0;
    proof {
        assert(vv.take(0) =~= Seq::<ProjectFileEntryView>::empty());
        assert(project_entry_views(out@) =~= Seq::<ProjectFileEntryView>::empty());
        assert(project_entry_views(out@).to_multiset() =~= vv.take(0).to_multiset());
    }
    while i < n
        invariant
            n == v@.len(),
            vv == project_entry_views(v@),
            i <= n,
            spec_project_entries_sorted(project_entry_views(out@)),
            project_entry_views(out@).to_multiset() == vv.take(i as int).to_multiset(),
        decreases n - i,
    {
        let x = ProjectFileEntry {
            name: v[i].name.clone(),
            path: v[i].path.clone(),
            is_dir: v[i].is_dir,
        };
        let ghost xv = x@;
        proof {
            assert(xv == vv[i as int]);
        }
        let olen = out.len();
        let mut j: usize = 0;
        while j < olen && listing_le(out[j].is_dir, out[j].name.as_str(), x.is_dir, x.name.as_str())
            invariant
                olen == out@.len(),
                j <= olen,
                forall|p: int| 0 <= p < j ==> spec_listing_le(
                    #[trigger] out@[p]@.is_dir,
                    out@[p]@.name,
                    xv.is_dir,
                    xv.name,
                ),
                xv == x@,
            decreases olen - j,
        {
            j += 1;
        }
        let ghost out0 = project_entry_views(out@);
        out.insert(j, x);
        proof {
            let outv = project_entry_views(out@);
            assert(out0.insert(j as int, xv) =~= outv);
            assert forall|p: int, q: int| 0 <= p < q < outv.len() implies spec_listing_le(
                outv[p].is_dir,
                outv[p].name,
                outv[q].is_dir,
                outv[q].name,
            ) by {
                if q < j {
                } else if p < j && q == j {
                    assert(outv[q] == xv);
                    assert(outv[p] == out0[p]);
                } else if p < j && q > j {
                    assert(outv[q] == out0[q - 1]);
                } else if p == j {
                    assert(outv[p] == xv);
                    assert(outv[q] == out0[q - 1]);
                    assert(j < out0.len());
                    assert(!spec_listing_le(out0[j as int].is_dir, out0[j as int].name, xv.is_dir, xv.name));
                    lemma_listing_le_total(out0[j as int].is_dir, out0[j as int].name, xv.is_dir, xv.name);
                    if q - 1 > j {
                        lemma_listing_le_trans(
                            xv.is_dir,
                            xv.name,
                            out0[j as int].is_dir,
                            out0[j as int].name,
                            out0[q - 1].is_dir,
                            out0[q - 1].name,
                        );
                    }
                } else {
                    assert(outv[p] == out0[p - 1]);
                    assert(outv[q] == out0[q - 1]);
                }
            };
            assert(vv.take(i + 1 as int).drop_last() =~= vv.take(i as int));
            assert(vv.take(i + 1 as int) =~= vv.take(i as int).push(xv));
            vv.take(i as int).to_multiset_ensures();
            assert(vv.take(i + 1 as int).to_multiset() =~= vv.take(
                i as int,
            ).to_multiset().insert(xv));
            let pre = out0.take(j as int);
            let post = out0.skip(j as int);
            assert(out0.insert(j as int, xv) =~= pre.push(xv) + post);
            assert(out0 =~= pre + post);
            vstd::seq_lib::lemma_multiset_commutative(pre.push(xv), post);
            vstd::seq_lib::lemma_multiset_commutative(pre, post);
            pre.to_multiset_ensures();
            assert(pre.push(xv).to_multiset() =~= pre.to_multiset().insert(xv));
            assert(outv.to_multiset() =~= out0.to_multiset().insert(xv));
        }
        i += 1;
    }
    proof {
        assert(vv.take(n as int) =~= vv);
    }
    out
}

} // verus!
