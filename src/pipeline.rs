//! What to download for each input unit: the owner and links of one page,
//! the plans of a batch of pages taken one by one, and the links of a list
//! file taken line by line.
use vstd::prelude::*;
use crate::extract::{
    derive_owner_id, extract_video_urls, link_pattern, regex_compiles, title_handle, video_links,
    ExtractError,
};

verus! {

/// The downloads owed for one page: its owner, and the owner's links in
/// document order, duplicates kept.
#[derive(Clone, Debug)]
pub struct PagePlan {
    pub owner: String,
    pub urls: Vec<String>,
}

/// `r` is what planning the page with text `page` gives: the owner the
/// title names and that owner's links; `OwnerNotFound` exactly when the title
/// names no owner; `PatternRejected` exactly when it does and the regex engine
/// refuses the link pattern built for that owner.
pub open spec fn plan_of(page: Seq<char>, r: Result<PagePlan, ExtractError>) -> bool {
    match r {
        Ok(p) => title_handle(page) == Some(p.owner@) && regex_compiles(link_pattern(p.owner@))
            && p.urls.deep_view() == video_links(page, p.owner@),
        Err(ExtractError::OwnerNotFound) => title_handle(page) is None,
        Err(ExtractError::PatternRejected) => title_handle(page) matches Some(o) && !regex_compiles(
            link_pattern(o),
        ),
    }
}

/// Owner and video links of one page; a page whose title names no owner is
/// refused as a whole.
pub fn plan_page(page: &str) -> (r: Result<PagePlan, ExtractError>)
    ensures
        plan_of(page@, r),
{
    match derive_owner_id(page) {
        Err(e) => Err(e),
        Ok(owner) => match extract_video_urls(page, owner.as_str()) {
            Ok(urls) => Ok(PagePlan { owner, urls }),
            Err(e) => Err(e),
        },
    }
}

/// Plans each page of a batch on its own: a page that cannot be planned
/// leaves the plans of the other pages as they would be alone.
pub fn plan_pages(pages: &Vec<String>) -> (r: Vec<Result<PagePlan, ExtractError>>)
    ensures
        r.len() == pages.len(),
        forall|i: int| 0 <= i < pages.len() ==> plan_of(#[trigger] pages[i]@, r[i]),
{
    let mut r: Vec<Result<PagePlan, ExtractError>> = Vec::new();
    let mut i: usize = 0;
    while i < pages.len()
        invariant
            i <= pages.len(),
            r.len() == i,
            forall|k: int| 0 <= k < i ==> plan_of(#[trigger] pages[k]@, r[k]),
        decreases pages.len() - i,
    {
        let p = plan_page(pages[i].as_str());
        r.push(p);
        i = i + 1;
    }
    r
}

/// `line` without one trailing carriage return.
pub open spec fn strip_cr(line: Seq<char>) -> Seq<char> {
    if line.len() > 0 && line.last() == '\r' {
        line.drop_last()
    } else {
        line
    }
}

/// Position of the first newline at or after `p`, or the length of `s`.
pub open spec fn newline_from(s: Seq<char>, p: int) -> int
    decreases s.len() - p,
{
    if p < 0 || p >= s.len() {
        s.len() as int
    } else if s[p] == '\n' {
        p
    } else {
        newline_from(s, p + 1)
    }
}

proof fn lemma_newline_from_bounds(s: Seq<char>, p: int)
    requires
        0 <= p <= s.len(),
    ensures
        p <= newline_from(s, p) <= s.len(),
    decreases s.len() - p,
{
    if p < s.len() && s[p] != '\n' {
        lemma_newline_from_bounds(s, p + 1);
    }
}

/// The lines of `s` from position `p`: split at each `\n`, a `\r` right
/// before it dropped, no empty line after a final `\n`.
pub open spec fn lines_from(s: Seq<char>, p: int) -> Seq<Seq<char>>
    decreases s.len() - p via lines_from_decreases
{
    if p < 0 || p >= s.len() {
        seq![]
    } else {
        let n = newline_from(s, p);
        if n < s.len() {
            seq![strip_cr(s.subrange(p, n))] + lines_from(s, n + 1)
        } else {
            seq![s.subrange(p, s.len() as int)]
        }
    }
}

#[via_fn]
proof fn lines_from_decreases(s: Seq<char>, p: int) {
    if 0 <= p < s.len() {
        lemma_newline_from_bounds(s, p);
    }
}

/// The lines of `s`.
pub open spec fn lines_of(s: Seq<char>) -> Seq<Seq<char>> {
    lines_from(s, 0)
}

/// Relies on str::lines: lines end at `\n` or `\r\n`, which they do not
/// include, and the last line ending is optional.
#[verifier::external_body]
fn text_lines(text: &str) -> (r: Vec<String>)
    ensures
        r.deep_view() == lines_of(text@),
{
    text.lines().map(|l| l.to_string()).collect()
}

/// The links of a list file, one per line, taken verbatim in file order.
pub fn list_file_urls(text: &str) -> (r: Vec<String>)
    ensures
        r.deep_view() == lines_of(text@),
{
    text_lines(text)
}

} // verus!
