//! Detached-window bookkeeping: the label a window is registered under, the
//! page address it opens, and reading a label back into its parts. Creating
//! and closing the windows themselves happens outside this crate.

use vstd::prelude::*;
use vstd::string::{StrSliceExecFns, StringExecFns};

use crate::scan::{find_sub, lemma_first_sub_props, spec_first_sub, spec_has_sub_at};
use crate::text::str_eq;

verus! {

/// One detached window: its label and the kind and id encoded in it.
pub struct WindowInfo {
    pub label: String,
    pub window_type: String,
    pub id: String,
}

/// The mathematical value of one window entry.
#[verifier::ext_equal]
pub ghost struct WindowInfoView {
    pub label: Seq<char>,
    pub window_type: Seq<char>,
    pub id: Seq<char>,
}

impl View for WindowInfo {
    type V = WindowInfoView;

    open spec fn view(&self) -> WindowInfoView {
        WindowInfoView { label: self.label@, window_type: self.window_type@, id: self.id@ }
    }
}

/// The label a detached window is registered under: `<kind>-<id>`.
pub fn window_label(window_type: &str, id: &str) -> (r: String)
    ensures
        r@ == window_type@ + "-"@ + id@,
{
    let mut r = window_type.to_owned();
    r.append("-");
    r.append(id);
    r
}

/// The page address a detached window opens.
pub fn window_url(window_type: &str, id: &str) -> (r: String)
    ensures
        r@ == "index.html?mode="@ + window_type@ + "&id="@ + id@,
{
    let mut r = "index.html?mode=".to_owned();
    r.append(window_type);
    r.append("&id=");
    r.append(id);
    r
}

/// The window entry a label reads back to, if any: the main window and
/// labels without a dash yield nothing; otherwise the label splits at its
/// first dash into the kind and the id.
pub open spec fn spec_window_of_label(label: Seq<char>) -> Option<WindowInfoView> {
    if label == "main"@ {
        None
    } else {
        match spec_first_sub(label, "-"@) {
            Some(i) => Some(
                WindowInfoView {
                    label,
                    window_type: label.take(i),
                    id: label.skip(i + "-"@.len()),
                },
            ),
            None => None,
        }
    }
}

/// Reads a window label back into its parts.
pub fn parse_window_label(label: &str) -> (r: Option<WindowInfo>)
    ensures
        (match r {
            Some(w) => Some(w@),
            None => None,
        }) == spec_window_of_label(label@),
{
    if str_eq(label, "main") {
        return None;
    }
    proof {
        lemma_first_sub_props(label@, "-"@);
    }
    match find_sub(label, "-") {
        Some(i) => {
            proof {
                assert(spec_has_sub_at(label@, "-"@, i as int));
            }
            let n = label.unicode_len();
            let m = "-".unicode_len();
            let wt = label.substring_char(0, i).to_owned();
            let id = label.substring_char(i + m, n).to_owned();
            proof {
                assert(wt@ =~= label@.take(i as int));
                assert(id@ =~= label@.skip(i + m as int));
            }
            Some(WindowInfo { label: label.to_owned(), window_type: wt, id })
        }
        None => None,
    }
}

} // verus!
