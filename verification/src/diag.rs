//! What a lint reports.

use vstd::prelude::*;

verus! {

/// A finding: what is wrong, and what to do about it.
pub struct RustLintsPolicyDiag {
    pub message: String,
    pub help: String,
}

/// What a [`RustLintsPolicyDiag`] says.
pub struct DiagView {
    pub message: Seq<char>,
    pub help: Seq<char>,
}

impl View for RustLintsPolicyDiag {
    type V = DiagView;

    open spec fn view(&self) -> DiagView {
        DiagView { message: self.message@, help: self.help@ }
    }
}

/// What an optional finding says.
pub open spec fn diag_option(d: Option<RustLintsPolicyDiag>) -> Option<DiagView> {
    match d {
        Some(diag) => Some(diag@),
        None => None,
    }
}

/// What a list of findings says.
pub open spec fn diag_views(v: Seq<RustLintsPolicyDiag>) -> Seq<DiagView> {
    v.map_values(|d: RustLintsPolicyDiag| d@)
}

/// The list of at most one finding.
pub open spec fn as_list(d: Option<DiagView>) -> Seq<DiagView> {
    match d {
        Some(diag) => seq![diag],
        None => Seq::empty(),
    }
}

/// A finding with these two texts.
pub fn finding(message: &str, help: &str) -> (r: RustLintsPolicyDiag)
    ensures
        r@ == (DiagView { message: message@, help: help@ }),
{
    RustLintsPolicyDiag { message: message.to_owned(), help: help.to_owned() }
}

/// Appends a finding, if there is one.
pub fn push_finding(list: &mut Vec<RustLintsPolicyDiag>, d: Option<RustLintsPolicyDiag>)
    ensures
        diag_views(final(list)@) == diag_views(old(list)@) + as_list(diag_option(d)),
{
    let ghost before = list@;
    if let Some(diag) = d {
        list.push(diag);
        proof {
            assert(diag_views(list@) =~= diag_views(before) + seq![diag@]);
        }
    } else {
        proof {
            assert(diag_views(list@) =~= diag_views(before) + Seq::<DiagView>::empty());
        }
    }
}

} // verus!
