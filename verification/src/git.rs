//! Parsing of git porcelain output: the short status, the rev-list
//! ahead/behind counts, the commit log, per-commit file stats, and relative
//! timestamps. The git subprocess itself runs outside this crate; these
//! functions turn its exact textual output into values.

use vstd::prelude::*;
use vstd::string::{StrSliceExecFns, StringExecFns};

use crate::cmdline::opt_view;
use crate::scan::{
    contains_sub, lines_of, spec_contains_sub, spec_first_sub, spec_lines, spec_parse_i32_or_zero,
    spec_parse_i64_or_zero, spec_split_str, spec_split_ws, lemma_first_sub_props, parse_i32_or_zero,
    parse_i64_or_zero, split_str, split_ws,
};
use crate::text::{push_char, spec_trim, spec_udec, str_eq, trim, u64_to_dec, views_of};

verus! {

/// One changed file in the working tree, as the status report shows it.
pub struct GitFile {
    pub path: String,
    pub status: String,
    pub staged: bool,
    pub old_path: Option<String>,
}

/// The mathematical value of one changed file.
#[verifier::ext_equal]
pub ghost struct GitFileView {
    pub path: Seq<char>,
    pub status: Seq<char>,
    pub staged: bool,
    pub old_path: Option<Seq<char>>,
}

impl View for GitFile {
    type V = GitFileView;

    open spec fn view(&self) -> GitFileView {
        GitFileView {
            path: self.path@,
            status: self.status@,
            staged: self.staged,
            old_path: opt_view(self.old_path),
        }
    }
}

/// The parsed status of a repository.
pub struct GitStatus {
    pub branch: String,
    pub ahead: i32,
    pub behind: i32,
    pub staged: Vec<GitFile>,
    pub unstaged: Vec<GitFile>,
    pub untracked: Vec<GitFile>,
}

/// The mathematical value of a parsed status.
#[verifier::ext_equal]
pub ghost struct GitStatusView {
    pub branch: Seq<char>,
    pub ahead: int,
    pub behind: int,
    pub staged: Seq<GitFileView>,
    pub unstaged: Seq<GitFileView>,
    pub untracked: Seq<GitFileView>,
}

/// The views of a sequence of file entries.
pub open spec fn file_views(v: Seq<GitFile>) -> Seq<GitFileView> {
    v.map_values(|f: GitFile| f@)
}

impl View for GitStatus {
    type V = GitStatusView;

    open spec fn view(&self) -> GitStatusView {
        GitStatusView {
            branch: self.branch@,
            ahead: self.ahead as int,
            behind: self.behind as int,
            staged: file_views(self.staged@),
            unstaged: file_views(self.unstaged@),
            untracked: file_views(self.untracked@),
        }
    }
}

/// The long name of a one-letter status code.
pub open spec fn spec_status_code(code: Seq<char>) -> Seq<char> {
    if code == "M"@ {
        "modified"@
    } else if code == "A"@ {
        "added"@
    } else if code == "D"@ {
        "deleted"@
    } else if code == "R"@ {
        "renamed"@
    } else if code == "C"@ {
        "copied"@
    } else if code == "U"@ {
        "unmerged"@
    } else if code == "?"@ {
        "untracked"@
    } else {
        "unknown"@
    }
}

/// Maps a one-letter status code to its long name.
pub fn parse_status_code(code: &str) -> (r: &str)
    ensures
        r@ == spec_status_code(code@),
{
    if str_eq(code, "M") {
        "modified"
    } else if str_eq(code, "A") {
        "added"
    } else if str_eq(code, "D") {
        "deleted"
    } else if str_eq(code, "R") {
        "renamed"
    } else if str_eq(code, "C") {
        "copied"
    } else if str_eq(code, "U") {
        "unmerged"
    } else if str_eq(code, "?") {
        "untracked"
    } else {
        "unknown"
    }
}

fn status_code_of_char(c: char) -> (r: String)
    ensures
        r@ == spec_status_code(seq![c]),
{
    let mut s = String::new();
    push_char(&mut s, c);
    proof {
        assert(s@ =~= seq![c]);
    }
    parse_status_code(s.as_str()).to_owned()
}

/// A number of seconds rendered as a coarse relative time, for example
/// `5m ago` or `3d ago`; anything under a minute is `just now`.
pub open spec fn spec_relative_time(s: int) -> Seq<char> {
    if s < 60 {
        "just now"@
    } else if s < 3600 {
        spec_udec((s / 60) as nat) + "m ago"@
    } else if s < 86400 {
        spec_udec((s / 3600) as nat) + "h ago"@
    } else if s < 604800 {
        spec_udec((s / 86400) as nat) + "d ago"@
    } else if s < 2592000 {
        spec_udec((s / 604800) as nat) + "w ago"@
    } else {
        spec_udec((s / 2592000) as nat) + "mo ago"@
    }
}

fn relative_time_wide(s: i128) -> (r: String)
    requires
        s <= 0xffff_ffff_ffff_ffff,
    ensures
        r@ == spec_relative_time(s as int),
{
    if s < 60 {
        "just now".to_owned()
    } else {
        let u = s as u64;
        if u < 3600 {
            let mut r = u64_to_dec(u / 60);
            r.append("m ago");
            r
        } else if u < 86400 {
            let mut r = u64_to_dec(u / 3600);
            r.append("h ago");
            r
        } else if u < 604800 {
            let mut r = u64_to_dec(u / 86400);
            r.append("d ago");
            r
        } else if u < 2592000 {
            let mut r = u64_to_dec(u / 604800);
            r.append("w ago");
            r
        } else {
            let mut r = u64_to_dec(u / 2592000);
            r.append("mo ago");
            r
        }
    }
}

/// Renders an age in seconds as a coarse relative time.
pub fn parse_relative_time(seconds_ago: i64) -> (r: String)
    ensures
        r@ == spec_relative_time(seconds_ago as int),
{
    relative_time_wide(seconds_ago as i128)
}

/// A rename entry `old -> new` split into the new path and the old one.
pub open spec fn spec_rename_paths(fp: Seq<char>) -> (Seq<char>, Option<Seq<char>>) {
    if spec_contains_sub(fp, " -> "@) {
        let parts = spec_split_str(fp, " -> "@);
        (parts[1], Some(parts[0]))
    } else {
        (fp, None)
    }
}

pub proof fn lemma_split_str_len(s: Seq<char>, sep: Seq<char>)
    requires
        sep.len() > 0,
    ensures
        spec_split_str(s, sep).len() >= 1,
        spec_first_sub(s, sep) is Some ==> spec_split_str(s, sep).len() >= 2,
    decreases s.len(),
{
    lemma_first_sub_props(s, sep);
    match spec_first_sub(s, sep) {
        None => {}
        Some(i) => {
            lemma_split_str_len(s.skip(i + sep.len()), sep);
        }
    }
}

fn rename_paths(fp: &str) -> (r: (String, Option<String>))
    ensures
        r.0@ == spec_rename_paths(fp@).0,
        opt_view(r.1) == spec_rename_paths(fp@).1,
{
    proof {
        reveal_strlit(" -> ");
        lemma_first_sub_props(fp@, " -> "@);
        lemma_split_str_len(fp@, " -> "@);
    }
    if contains_sub(fp, " -> ") {
        proof {
            match spec_first_sub(fp@, " -> "@) {
                Some(_) => {}
                None => {
                    let w = choose|w: int| crate::scan::spec_has_sub_at(fp@, " -> "@, w);
                    assert(!crate::scan::spec_has_sub_at(fp@, " -> "@, w));
                }
            }
        }
        let parts = split_str(fp, " -> ");
        (parts[1].clone(), Some(parts[0].clone()))
    } else {
        (fp.to_owned(), None)
    }
}

/// The staged entry a status line yields, if any.
pub open spec fn spec_staged_of_line(line: Seq<char>) -> Option<GitFileView> {
    if line.len() < 3 {
        None
    } else {
        let (path, old) = spec_rename_paths(line.skip(3));
        if line[0] == '?' {
            None
        } else if line[0] != ' ' {
            Some(
                GitFileView {
                    path,
                    status: spec_status_code(seq![line[0]]),
                    staged: true,
                    old_path: old,
                },
            )
        } else {
            None
        }
    }
}

/// The unstaged entry a status line yields, if any.
pub open spec fn spec_unstaged_of_line(line: Seq<char>) -> Option<GitFileView> {
    if line.len() < 3 {
        None
    } else {
        let (path, old) = spec_rename_paths(line.skip(3));
        if line[0] == '?' {
            None
        } else if line[1] != ' ' {
            Some(
                GitFileView {
                    path,
                    status: spec_status_code(seq![line[1]]),
                    staged: false,
                    old_path: old,
                },
            )
        } else {
            None
        }
    }
}

/// The untracked entry a status line yields, if any.
pub open spec fn spec_untracked_of_line(line: Seq<char>) -> Option<GitFileView> {
    if line.len() < 3 {
        None
    } else {
        let (path, _) = spec_rename_paths(line.skip(3));
        if line[0] == '?' {
            Some(GitFileView { path, status: "untracked"@, staged: false, old_path: None })
        } else {
            None
        }
    }
}

spec fn opt_file_view(o: Option<GitFile>) -> Option<GitFileView> {
    match o {
        None => None,
        Some(f) => Some(f@),
    }
}

fn parse_status_line(line: &str) -> (r: (Option<GitFile>, Option<GitFile>, Option<GitFile>))
    ensures
        opt_file_view(r.0) == spec_staged_of_line(line@),
        opt_file_view(r.1) == spec_unstaged_of_line(line@),
        opt_file_view(r.2) == spec_untracked_of_line(line@),
{
    let n = line.unicode_len();
    if n < 3 {
        return (None, None, None);
    }
    let ix = line.get_char(0);
    let wt = line.get_char(1);
    let fp = line.substring_char(3, n);
    proof {
        assert(fp@ =~= line@.skip(3));
    }
    let (path, old) = rename_paths(fp);
    if ix == '?' {
        let entry = GitFile {
            path,
            status: "untracked".to_owned(),
            staged: false,
            old_path: None,
        };
        return (None, None, Some(entry));
    }
    let staged_e = if ix != ' ' {
        let old2 = match &old {
            Some(s) => Some(s.clone()),
            None => None,
        };
        Some(
            GitFile {
                path: path.clone(),
                status: status_code_of_char(ix),
                staged: true,
                old_path: old2,
            },
        )
    } else {
        None
    };
    let unstaged_e = if wt != ' ' {
        Some(GitFile { path, status: status_code_of_char(wt), staged: false, old_path: old })
    } else {
        None
    };
    (staged_e, unstaged_e, None)
}

/// The `(ahead, behind)` counts of a rev-list `--left-right --count` report:
/// zero when the command failed or its output is not two numbers.
pub open spec fn spec_ahead_behind(counts: Option<Seq<char>>) -> (int, int) {
    match counts {
        None => (0, 0),
        Some(c) => {
            let parts = spec_split_ws(c);
            if parts.len() == 2 {
                (spec_parse_i32_or_zero(parts[1]), spec_parse_i32_or_zero(parts[0]))
            } else {
                (0, 0)
            }
        }
    }
}

/// What a whole status report parses to.
pub open spec fn spec_git_status(
    branch_raw: Seq<char>,
    counts: Option<Seq<char>>,
    text: Seq<char>,
) -> GitStatusView {
    GitStatusView {
        branch: spec_trim(branch_raw),
        ahead: spec_ahead_behind(counts).0,
        behind: spec_ahead_behind(counts).1,
        staged: spec_lines(text).filter_map(|l: Seq<char>| spec_staged_of_line(l)),
        unstaged: spec_lines(text).filter_map(|l: Seq<char>| spec_unstaged_of_line(l)),
        untracked: spec_lines(text).filter_map(|l: Seq<char>| spec_untracked_of_line(l)),
    }
}

/// Parses a repository status from the raw branch-name output, the optional
/// ahead/behind counts, and the porcelain status text.
pub fn parse_git_status(
    branch_raw: &str,
    revlist_counts: &Option<String>,
    status_text: &str,
) -> (r: GitStatus)
    ensures
        r@ == spec_git_status(branch_raw@, opt_view(*revlist_counts), status_text@),
{
    let branch = trim(branch_raw);
    let (ahead, behind) = match revlist_counts {
        None => (0i32, 0i32),
        Some(c) => {
            let parts = split_ws(c.as_str());
            if parts.len() == 2 {
                (parse_i32_or_zero(parts[1].as_str()), parse_i32_or_zero(parts[0].as_str()))
            } else {
                (0i32, 0i32)
            }
        }
    };
    let lines = lines_of(status_text);
    let ghost lv = spec_lines(status_text@);
    let ghost fs = |l: Seq<char>| spec_staged_of_line(l);
    let ghost fu = |l: Seq<char>| spec_unstaged_of_line(l);
    let ghost ft = |l: Seq<char>| spec_untracked_of_line(l);
    let mut staged: Vec<GitFile> = Vec::new();
    let mut unstaged: Vec<GitFile> = Vec::new();
    let mut untracked: Vec<GitFile> = Vec::new();
    let n = lines.len();
    proof {
        assert(lv.take(0) =~= Seq::<Seq<char>>::empty());
        assert(file_views(staged@) =~= lv.take(0).filter_map(fs));
        assert(file_views(unstaged@) =~= lv.take(0).filter_map(fu));
        assert(file_views(untracked@) =~= lv.take(0).filter_map(ft));
    }
    let mut i: usize = 0;
    while i < n
        invariant
            n == lines@.len(),
            lv == views_of(lines@),
            i <= n,
            file_views(staged@) == lv.take(i as int).filter_map(fs),
            file_views(unstaged@) == lv.take(i as int).filter_map(fu),
            file_views(untracked@) == lv.take(i as int).filter_map(ft),
            fs == (|l: Seq<char>| spec_staged_of_line(l)),
            fu == (|l: Seq<char>| spec_unstaged_of_line(l)),
            ft == (|l: Seq<char>| spec_untracked_of_line(l)),
        decreases n - i,
    {
        let (se, ue, te) = parse_status_line(lines[i].as_str());
        proof {
            lv.lemma_filter_map_take_succ(fs, i as int);
            lv.lemma_filter_map_take_succ(fu, i as int);
            lv.lemma_filter_map_take_succ(ft, i as int);
        }
        let ghost staged0 = file_views(staged@);
        let ghost unstaged0 = file_views(unstaged@);
        let ghost untracked0 = file_views(untracked@);
        match se {
            Some(f) => {
                staged.push(f);
                proof {
                    assert(file_views(staged@) =~= lv.take(i + 1 as int).filter_map(fs));
                }
            }
            None => {
                proof {
                    assert(file_views(staged@) =~= lv.take(i + 1 as int).filter_map(fs));
                }
            }
        }
        match ue {
            Some(f) => {
                unstaged.push(f);
                proof {
                    assert(file_views(unstaged@) =~= lv.take(i + 1 as int).filter_map(fu));
                }
            }
            None => {
                proof {
                    assert(file_views(unstaged@) =~= lv.take(i + 1 as int).filter_map(fu));
                }
            }
        }
        match te {
            Some(f) => {
                untracked.push(f);
                proof {
                    assert(file_views(untracked@) =~= lv.take(i + 1 as int).filter_map(ft));
                }
            }
            None => {
                proof {
                    assert(file_views(untracked@) =~= lv.take(i + 1 as int).filter_map(ft));
                }
            }
        }
        i += 1;
    }
    let r = GitStatus { branch, ahead, behind, staged, unstaged, untracked };
    proof {
        assert(lv.take(n as int) =~= lv);
        assert(r@ =~~= spec_git_status(branch_raw@, opt_view(*revlist_counts), status_text@));
    }
    r
}

/// One commit of the history listing.
pub struct CommitSummary {
    pub hash: String,
    pub short_hash: String,
    pub subject: String,
    pub author: String,
    pub timestamp: i64,
    pub relative_time: String,
    pub files_changed: i32,
    pub additions: i32,
    pub deletions: i32,
}

/// The mathematical value of one commit summary.
#[verifier::ext_equal]
pub ghost struct CommitSummaryView {
    pub hash: Seq<char>,
    pub short_hash: Seq<char>,
    pub subject: Seq<char>,
    pub author: Seq<char>,
    pub timestamp: int,
    pub relative_time: Seq<char>,
    pub files_changed: int,
    pub additions: int,
    pub deletions: int,
}

impl View for CommitSummary {
    type V = CommitSummaryView;

    open spec fn view(&self) -> CommitSummaryView {
        CommitSummaryView {
            hash: self.hash@,
            short_hash: self.short_hash@,
            subject: self.subject@,
            author: self.author@,
            timestamp: self.timestamp as int,
            relative_time: self.relative_time@,
            files_changed: self.files_changed as int,
            additions: self.additions as int,
            deletions: self.deletions as int,
        }
    }
}

/// The views of a sequence of commit summaries.
pub open spec fn commit_views(v: Seq<CommitSummary>) -> Seq<CommitSummaryView> {
    v.map_values(|c: CommitSummary| c@)
}

/// The commit a log line of the form `hash|short|subject|author|timestamp`
/// yields, if any; its stat counters start at zero.
pub open spec fn spec_commit_of_line(line: Seq<char>, now: int) -> Option<CommitSummaryView> {
    let parts = crate::scan::spec_split_char(line, '|');
    if parts.len() >= 5 {
        let ts = spec_parse_i64_or_zero(parts[4]);
        Some(
            CommitSummaryView {
                hash: parts[0],
                short_hash: parts[1],
                subject: parts[2],
                author: parts[3],
                timestamp: ts,
                relative_time: spec_relative_time(now - ts),
                files_changed: 0,
                additions: 0,
                deletions: 0,
            },
        )
    } else {
        None
    }
}

spec fn opt_commit_view(o: Option<CommitSummary>) -> Option<CommitSummaryView> {
    match o {
        None => None,
        Some(c) => Some(c@),
    }
}

fn commit_of_line(line: &str, now: i64) -> (r: Option<CommitSummary>)
    requires
        now >= 0,
    ensures
        opt_commit_view(r) == spec_commit_of_line(line@, now as int),
{
    let parts = crate::scan::split_char(line, '|');
    if parts.len() >= 5 {
        let ts = parse_i64_or_zero(parts[4].as_str());
        let age = (now as i128) - (ts as i128);
        let c = CommitSummary {
            hash: parts[0].clone(),
            short_hash: parts[1].clone(),
            subject: parts[2].clone(),
            author: parts[3].clone(),
            timestamp: ts,
            relative_time: relative_time_wide(age),
            files_changed: 0,
            additions: 0,
            deletions: 0,
        };
        Some(c)
    } else {
        None
    }
}

/// Parses the commit log into summaries, rendering each commit's age
/// against the given current time.
pub fn parse_commit_log(log_text: &str, now_secs: i64) -> (r: Vec<CommitSummary>)
    requires
        now_secs >= 0,
    ensures
        commit_views(r@) == spec_lines(log_text@).filter_map(
            |l: Seq<char>| spec_commit_of_line(l, now_secs as int),
        ),
{
    let lines = lines_of(log_text);
    let ghost lv = spec_lines(log_text@);
    let ghost f = |l: Seq<char>| spec_commit_of_line(l, now_secs as int);
    let mut out: Vec<CommitSummary> = Vec::new();
    let n = lines.len();
    proof {
        assert(lv.take(0) =~= Seq::<Seq<char>>::empty());
        assert(commit_views(out@) =~= lv.take(0).filter_map(f));
    }
    let mut i: usize = 0;
    while i < n
        invariant
            now_secs >= 0,
            n == lines@.len(),
            lv == views_of(lines@),
            i <= n,
            commit_views(out@) == lv.take(i as int).filter_map(f),
            f == (|l: Seq<char>| spec_commit_of_line(l, now_secs as int)),
        decreases n - i,
    {
        let e = commit_of_line(lines[i].as_str(), now_secs);
        proof {
            lv.lemma_filter_map_take_succ(f, i as int);
        }
        match e {
            Some(c) => {
                out.push(c);
                proof {
                    assert(commit_views(out@) =~= lv.take(i + 1 as int).filter_map(f));
                }
            }
            None => {
                proof {
                    assert(commit_views(out@) =~= lv.take(i + 1 as int).filter_map(f));
                }
            }
        }
        i += 1;
    }
    proof {
        assert(lv.take(n as int) =~= lv);
    }
    out
}

pub open spec fn spec_stat_fields(parts: Seq<Seq<char>>, i: int, acc: (int, int, int)) -> (int, int, int)
    decreases parts.len() - i,
{
    if i < 0 || i >= parts.len() {
        acc
    } else {
        let p = parts[i];
        let acc2 = if p == "file"@ || p == "files"@ {
            if i > 0 {
                (spec_parse_i32_or_zero(parts[i - 1]), acc.1, acc.2)
            } else {
                acc
            }
        } else if spec_contains_sub(p, "insertion"@) {
            if i > 0 {
                (acc.0, spec_parse_i32_or_zero(parts[i - 1]), acc.2)
            } else {
                acc
            }
        } else if spec_contains_sub(p, "deletion"@) {
            if i > 0 {
                (acc.0, acc.1, spec_parse_i32_or_zero(parts[i - 1]))
            } else {
                acc
            }
        } else {
            acc
        };
        spec_stat_fields(parts, i + 1, acc2)
    }
}

pub open spec fn spec_first_changed(lines: Seq<Seq<char>>, i: int) -> Option<Seq<char>>
    decreases lines.len() - i,
{
    if i < 0 || i >= lines.len() {
        None
    } else if spec_contains_sub(lines[i], "changed"@) {
        Some(lines[i])
    } else {
        spec_first_changed(lines, i + 1)
    }
}

/// The `(files changed, insertions, deletions)` counters of a `--stat`
/// report: read from the first line that mentions `changed`, each counter
/// taken from the word before its label; zero where absent.
pub open spec fn spec_stat_summary(text: Seq<char>) -> (int, int, int) {
    match spec_first_changed(spec_lines(text), 0) {
        None => (0, 0, 0),
        Some(l) => spec_stat_fields(spec_split_ws(l), 0, (0, 0, 0)),
    }
}

/// Reads the stat counters of one commit's `--stat` report.
pub fn parse_stat_summary(stat_text: &str) -> (r: (i32, i32, i32))
    ensures
        (r.0 as int, r.1 as int, r.2 as int) == spec_stat_summary(stat_text@),
{
    let lines = lines_of(stat_text);
    let ghost lv = spec_lines(stat_text@);
    let n = lines.len();
    let mut i: usize = 0;
    while i < n
        invariant
            n == lines@.len(),
            lv == views_of(lines@),
            lv == spec_lines(stat_text@),
            i <= n,
            spec_first_changed(lv, 0) == spec_first_changed(lv, i as int),
        decreases n - i,
    {
        if contains_sub(lines[i].as_str(), "changed") {
            let parts = split_ws(lines[i].as_str());
            let ghost pv = spec_split_ws(lv[i as int]);
            let m = parts.len();
            let mut files: i32 = 0;
            let mut adds: i32 = 0;
            let mut dels: i32 = 0;
            let mut j: usize = 0;
            while j < m
                invariant
                    m == parts@.len(),
                    pv == views_of(parts@),
                    j <= m,
                    spec_stat_fields(pv, 0, (0, 0, 0)) == spec_stat_fields(
                        pv,
                        j as int,
                        (files as int, adds as int, dels as int),
                    ),
                decreases m - j,
            {
                let p = parts[j].as_str();
                if str_eq(p, "file") || str_eq(p, "files") {
                    if j > 0 {
                        files = parse_i32_or_zero(parts[j - 1].as_str());
                    }
                } else if contains_sub(p, "insertion") {
                    if j > 0 {
                        adds = parse_i32_or_zero(parts[j - 1].as_str());
                    }
                } else if contains_sub(p, "deletion") {
                    if j > 0 {
                        dels = parse_i32_or_zero(parts[j - 1].as_str());
                    }
                }
                j += 1;
            }
            return (files, adds, dels);
        }
        i += 1;
    }
    (0, 0, 0)
}

/// Fills one commit summary's stat counters from its `--stat` report,
/// leaving every other field as it was.
pub fn apply_commit_stats(c: &mut CommitSummary, stat_text: &str)
    ensures
        final(c)@ == (CommitSummaryView {
            files_changed: spec_stat_summary(stat_text@).0,
            additions: spec_stat_summary(stat_text@).1,
            deletions: spec_stat_summary(stat_text@).2,
            ..old(c)@
        }),
{
    let (files, adds, dels) = parse_stat_summary(stat_text);
    c.files_changed = files;
    c.additions = adds;
    c.deletions = dels;
}

/// One file of a commit, with its change kind and line counts.
pub struct CommitFile {
    pub path: String,
    pub status: String,
    pub additions: i32,
    pub deletions: i32,
}

/// The mathematical value of one commit file entry.
#[verifier::ext_equal]
pub ghost struct CommitFileView {
    pub path: Seq<char>,
    pub status: Seq<char>,
    pub additions: int,
    pub deletions: int,
}

impl View for CommitFile {
    type V = CommitFileView;

    open spec fn view(&self) -> CommitFileView {
        CommitFileView {
            path: self.path@,
            status: self.status@,
            additions: self.additions as int,
            deletions: self.deletions as int,
        }
    }
}

/// The views of a sequence of commit file entries.
pub open spec fn commit_file_views(v: Seq<CommitFile>) -> Seq<CommitFileView> {
    v.map_values(|f: CommitFile| f@)
}

struct NumstatEntry {
    path: String,
    additions: i32,
    deletions: i32,
}

spec fn ns_view(e: NumstatEntry) -> (Seq<char>, (int, int)) {
    (e.path@, (e.additions as int, e.deletions as int))
}

spec fn ns_views(v: Seq<NumstatEntry>) -> Seq<(Seq<char>, (int, int))> {
    v.map_values(|e: NumstatEntry| ns_view(e))
}

/// The numstat entry a line of the form `adds\tdels\tpath` yields, if any.
pub open spec fn spec_numstat_of_line(line: Seq<char>) -> Option<(Seq<char>, (int, int))> {
    let parts = crate::scan::spec_split_char(line, '\t');
    if parts.len() == 3 {
        Some(
            (
                parts[2],
                (spec_parse_i32_or_zero(parts[0]), spec_parse_i32_or_zero(parts[1])),
            ),
        )
    } else {
        None
    }
}

/// The line counts recorded for a path, by its last numstat entry; zero
/// when none mentions it.
pub open spec fn spec_lookup_last(
    entries: Seq<(Seq<char>, (int, int))>,
    path: Seq<char>,
) -> (int, int)
    decreases entries.len(),
{
    if entries.len() == 0 {
        (0, 0)
    } else if entries.last().0 == path {
        entries.last().1
    } else {
        spec_lookup_last(entries.drop_last(), path)
    }
}

fn numstat_of_line(line: &str) -> (r: Option<NumstatEntry>)
    ensures
        (match r {
            Some(e) => Some(ns_view(e)),
            None => None,
        }) == spec_numstat_of_line(line@),
{
    let parts = crate::scan::split_char(line, '\t');
    if parts.len() == 3 {
        Some(
            NumstatEntry {
                path: parts[2].clone(),
                additions: parse_i32_or_zero(parts[0].as_str()),
                deletions: parse_i32_or_zero(parts[1].as_str()),
            },
        )
    } else {
        None
    }
}

fn lookup_last(ns: &Vec<NumstatEntry>, path: &str) -> (r: (i32, i32))
    ensures
        (r.0 as int, r.1 as int) == spec_lookup_last(ns_views(ns@), path@),
{
    let ghost nv = ns_views(ns@);
    let mut j: usize = ns.len();
    proof {
        assert(nv.take(j as int) =~= nv);
    }
    while j > 0
        invariant
            nv == ns_views(ns@),
            j <= ns@.len(),
            spec_lookup_last(nv, path@) == spec_lookup_last(nv.take(j as int), path@),
        decreases j,
    {
        if str_eq(ns[j - 1].path.as_str(), path) {
            proof {
                assert(nv.take(j as int).last() == ns_view(ns@[j - 1]));
            }
            return (ns[j - 1].additions, ns[j - 1].deletions);
        }
        proof {
            assert(nv.take(j as int).last() == ns_view(ns@[j - 1]));
            assert(nv.take(j as int).drop_last() =~= nv.take(j - 1 as int));
        }
        j -= 1;
    }
    proof {
        assert(nv.take(0) =~= Seq::<(Seq<char>, (int, int))>::empty());
    }
    (0, 0)
}

/// The long name of a name-status change code.
pub open spec fn spec_name_status(code: Seq<char>) -> Seq<char> {
    if code == "A"@ {
        "added"@
    } else if code == "M"@ {
        "modified"@
    } else if code == "D"@ {
        "deleted"@
    } else if code == "R"@ {
        "renamed"@
    } else {
        "modified"@
    }
}

fn name_status_of(code: &str) -> (r: String)
    ensures
        r@ == spec_name_status(code@),
{
    if str_eq(code, "A") {
        "added".to_owned()
    } else if str_eq(code, "M") {
        "modified".to_owned()
    } else if str_eq(code, "D") {
        "deleted".to_owned()
    } else if str_eq(code, "R") {
        "renamed".to_owned()
    } else {
        "modified".to_owned()
    }
}

/// The commit file entry a name-status line yields, if any: a one-letter
/// code, then the path (the new path for a rename), with its line counts
/// looked up in the numstat entries.
pub open spec fn spec_commit_file_of_line(
    line: Seq<char>,
    ns: Seq<(Seq<char>, (int, int))>,
) -> Option<CommitFileView> {
    let parts = crate::scan::spec_split_char(line, '\t');
    if parts.len() >= 2 && parts[0].len() == 1 {
        let path = if parts.len() == 3 {
            parts[2]
        } else {
            parts[1]
        };
        let ad = spec_lookup_last(ns, path);
        Some(
            CommitFileView {
                path,
                status: spec_name_status(parts[0]),
                additions: ad.0,
                deletions: ad.1,
            },
        )
    } else {
        None
    }
}

fn commit_file_of_line(line: &str, ns: &Vec<NumstatEntry>) -> (r: Option<CommitFile>)
    ensures
        (match r {
            Some(f) => Some(f@),
            None => None,
        }) == spec_commit_file_of_line(line@, ns_views(ns@)),
{
    let parts = crate::scan::split_char(line, '\t');
    if parts.len() >= 2 && parts[0].as_str().unicode_len() == 1 {
        let path = if parts.len() == 3 {
            parts[2].clone()
        } else {
            parts[1].clone()
        };
        let (adds, dels) = lookup_last(ns, path.as_str());
        Some(
            CommitFile {
                path,
                status: name_status_of(parts[0].as_str()),
                additions: adds,
                deletions: dels,
            },
        )
    } else {
        None
    }
}

/// What a combined `--numstat --name-status` report parses to: the
/// name-status lines, each joined with its numstat line counts.
pub open spec fn spec_commit_files(text: Seq<char>) -> Seq<CommitFileView> {
    let lv = spec_lines(text);
    let ns = lv.filter_map(|l: Seq<char>| spec_numstat_of_line(l));
    lv.filter_map(|l: Seq<char>| spec_commit_file_of_line(l, ns))
}

/// Parses the files of one commit from its `--numstat --name-status`
/// report.
pub fn parse_commit_files(text: &str) -> (r: Vec<CommitFile>)
    ensures
        commit_file_views(r@) == spec_commit_files(text@),
{
    let lines = lines_of(text);
    let ghost lv = spec_lines(text@);
    let ghost fns = |l: Seq<char>| spec_numstat_of_line(l);
    let n = lines.len();
    let mut ns: Vec<NumstatEntry> = Vec::new();
    proof {
        assert(lv.take(0) =~= Seq::<Seq<char>>::empty());
        assert(ns_views(ns@) =~= lv.take(0).filter_map(fns));
    }
    let mut i: usize = 0;
    while i < n
        invariant
            n == lines@.len(),
            lv == views_of(lines@),
            i <= n,
            ns_views(ns@) == lv.take(i as int).filter_map(fns),
            fns == (|l: Seq<char>| spec_numstat_of_line(l)),
        decreases n - i,
    {
        let e = numstat_of_line(lines[i].as_str());
        proof {
            lv.lemma_filter_map_take_succ(fns, i as int);
        }
        match e {
            Some(entry) => {
                ns.push(entry);
                proof {
                    assert(ns_views(ns@) =~= lv.take(i + 1 as int).filter_map(fns));
                }
            }
            None => {
                proof {
                    assert(ns_views(ns@) =~= lv.take(i + 1 as int).filter_map(fns));
                }
            }
        }
        i += 1;
    }
    proof {
        assert(lv.take(n as int) =~= lv);
    }
    let ghost nsv = ns_views(ns@);
    let ghost ff = |l: Seq<char>| spec_commit_file_of_line(l, nsv);
    let mut out: Vec<CommitFile> = Vec::new();
    proof {
        assert(commit_file_views(out@) =~= lv.take(0).filter_map(ff));
    }
    let mut i2: usize = 0;
    while i2 < n
        invariant
            n == lines@.len(),
            lv == views_of(lines@),
            i2 <= n,
            nsv == ns_views(ns@),
            commit_file_views(out@) == lv.take(i2 as int).filter_map(ff),
            ff == (|l: Seq<char>| spec_commit_file_of_line(l, nsv)),
        decreases n - i2,
    {
        let e = commit_file_of_line(lines[i2].as_str(), &ns);
        proof {
            lv.lemma_filter_map_take_succ(ff, i2 as int);
        }
        match e {
            Some(f) => {
                out.push(f);
                proof {
                    assert(commit_file_views(out@) =~= lv.take(i2 + 1 as int).filter_map(ff));
                }
            }
            None => {
                proof {
                    assert(commit_file_views(out@) =~= lv.take(i2 + 1 as int).filter_map(ff));
                }
            }
        }
        i2 += 1;
    }
    proof {
        assert(lv.take(n as int) =~= lv);
    }
    out
}

/// The remote a report names, trimmed; `None` when it is empty.
pub fn remote_or_none(output: &str) -> (r: Option<String>)
    ensures
        (match r {
            Some(s) => Some(s@),
            None => None,
        }) == (if spec_trim(output@).len() == 0 {
            Option::<Seq<char>>::None
        } else {
            Some(spec_trim(output@))
        }),
{
    let t = trim(output);
    if t.as_str().unicode_len() == 0 {
        None
    } else {
        Some(t)
    }
}

/// The editor program a preference names: `code` for the two names that
/// mean it, `cursor` for cursor, and none for the system default.
pub fn editor_program(editor: &Option<String>) -> (r: Option<&str>)
    ensures
        (match r {
            Some(p) => Some(p@),
            None => None,
        }) == (match crate::cmdline::opt_view(*editor) {
            Some(e) => if e == "vscode"@ || e == "code"@ {
                Some("code"@)
            } else if e == "cursor"@ {
                Some("cursor"@)
            } else {
                Option::<Seq<char>>::None
            },
            None => Option::<Seq<char>>::None,
        }),
{
    match editor {
        Some(e) => {
            if str_eq(e.as_str(), "vscode") || str_eq(e.as_str(), "code") {
                Some("code")
            } else if str_eq(e.as_str(), "cursor") {
                Some("cursor")
            } else {
                None
            }
        }
        None => None,
    }
}

/// The pseudo-diff body of a file that has no recorded diff: each line of
/// its content prefixed with `+`, the lines joined by newlines.
pub open spec fn spec_plus_joined(ls: Seq<Seq<char>>) -> Seq<char>
    decreases ls.len(),
{
    if ls.len() == 0 {
        Seq::<char>::empty()
    } else if ls.len() == 1 {
        "+"@ + ls[0]
    } else {
        spec_plus_joined(ls.drop_last()) + "\n"@ + "+"@ + ls.last()
    }
}

/// The pseudo-diff shown for an untracked file: a header naming it, then
/// its content with every line marked as added.
pub fn format_new_file_diff(file: &str, content: &str) -> (r: String)
    ensures
        r@ == "New file: "@ + file@ + "\n\n"@ + spec_plus_joined(spec_lines(content@)),
{
    let lines = lines_of(content);
    let ghost lv = spec_lines(content@);
    let n = lines.len();
    let mut body = String::new();
    let mut i: usize = 0;
    proof {
        assert(lv.take(0) =~= Seq::<Seq<char>>::empty());
        assert(body@ =~= spec_plus_joined(lv.take(0)));
    }
    while i < n
        invariant
            n == lines@.len(),
            lv == views_of(lines@),
            i <= n,
            body@ == spec_plus_joined(lv.take(i as int)),
        decreases n - i,
    {
        proof {
            assert(lv.take(i + 1 as int).drop_last() =~= lv.take(i as int));
            assert(lv.take(i + 1 as int).last() == lv[i as int]);
        }
        if i > 0 {
            body.append("\n");
        }
        body.append("+");
        body.append(lines[i].as_str());
        i += 1;
    }
    proof {
        assert(lv.take(n as int) =~= lv);
    }
    let mut r = "New file: ".to_owned();
    r.append(file);
    r.append("\n\n");
    r.append(body.as_str());
    r
}

} // verus!
