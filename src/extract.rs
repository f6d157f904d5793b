//! Finding the owner handle in a saved page's title, and the owner's video
//! links in the page text. Both searches run through the `regex` crate; the
//! contracts below state, over plain sequences of characters, what its
//! leftmost-first search returns for the two patterns used here.
use vstd::prelude::*;

verus! {

/// Pattern of the title that carries the owner handle: `<title>`, any text
/// (newlines included), ` (@handle)` with a handle of word characters and
/// dots, any text, `</title>`.
pub const TITLE_PATTERN: &'static str = "(?s)<title>.*? \\(@([\\w.]+)\\).*?</title>";

/// Start of every video link, before the owner handle.
pub const URL_HEAD: &'static str = "https://www.tiktok.com/@";

/// Part of every video link between the owner handle and the video number.
pub const URL_MIDDLE: &'static str = "/video/";

/// Pattern of the video number that ends a link: one or more decimal digits.
pub const DIGIT_RUN: &'static str = "\\d+";

/// Why no result could be extracted from a page.
#[derive(Clone, Copy, Debug, PartialEq, Eq, Structural)]
pub enum ExtractError {
    /// The page holds no title that names an owner.
    OwnerNotFound,
    /// The search pattern built for the owner was refused by the regex engine.
    PatternRejected,
}

/// `w` occurs in `s` at position `p`.
pub open spec fn occurs_at(s: Seq<char>, p: int, w: Seq<char>) -> bool {
    0 <= p && p + w.len() <= s.len() && s.subrange(p, p + w.len()) == w
}

/// Whether a character beyond ASCII belongs to the regex class `\w`
/// (Unicode word characters).
pub uninterp spec fn unicode_word(c: char) -> bool;

/// Whether a character beyond ASCII belongs to the regex class `\d`
/// (Unicode decimal digits).
pub uninterp spec fn unicode_digit(c: char) -> bool;

/// Whether `regex::Regex::new` accepts the pattern `p`.
pub uninterp spec fn regex_compiles(p: Seq<char>) -> bool;

/// A character of the regex class `\d`: within ASCII, exactly `0` to `9`.
pub open spec fn is_digit_char(c: char) -> bool {
    ('0' <= c && c <= '9') || ('\u{7f}' < c && unicode_digit(c))
}

/// A character of the regex class `\w`: within ASCII, exactly the letters,
/// the digits and `_`.
pub open spec fn is_word_char(c: char) -> bool {
    ('0' <= c && c <= '9') || ('A' <= c && c <= 'Z') || ('a' <= c && c <= 'z') || c == '_' || (
    '\u{7f}' < c && unicode_word(c))
}

/// A character that may stand in an owner handle: a word character or a dot.
pub open spec fn is_handle_char(c: char) -> bool {
    is_word_char(c) || c == '.'
}

/// Length of the run of handle characters that starts at `p`.
pub open spec fn handle_run_len(s: Seq<char>, p: int) -> nat
    decreases s.len() - p,
{
    if 0 <= p < s.len() && is_handle_char(s[p]) {
        1 + handle_run_len(s, p + 1)
    } else {
        0
    }
}

/// Length of the run of decimal digits that starts at `p`.
pub open spec fn digit_run_len(s: Seq<char>, p: int) -> nat
    decreases s.len() - p,
{
    if 0 <= p < s.len() && is_digit_char(s[p]) {
        1 + digit_run_len(s, p + 1)
    } else {
        0
    }
}

pub open spec fn title_open() -> Seq<char> {
    seq!['<', 't', 'i', 't', 'l', 'e', '>']
}

pub open spec fn handle_open() -> Seq<char> {
    seq![' ', '(', '@']
}

pub open spec fn title_close() -> Seq<char> {
    seq!['<', '/', 't', 'i', 't', 'l', 'e', '>']
}

/// End of the handle whose ` (@` marker starts at `j`.
pub open spec fn handle_end(s: Seq<char>, j: int) -> int {
    j + 3 + handle_run_len(s, j + 3)
}

/// The title pattern matches `s` with `<title>` at `i` and the ` (@` marker
/// at `j`: the handle is a nonempty run of handle characters closed by `)`,
/// and some `</title>` follows.
pub open spec fn title_match(s: Seq<char>, i: int, j: int) -> bool {
    let h = handle_end(s, j);
    &&& occurs_at(s, i, title_open())
    &&& i + 7 <= j
    &&& occurs_at(s, j, handle_open())
    &&& h > j + 3
    &&& h < s.len()
    &&& s[h] == ')'
    &&& exists|e: int| h + 1 <= e && #[trigger] occurs_at(s, e, title_close())
}

/// The match that a leftmost-first search picks: the leftmost `<title>`,
/// then, by the lazy gap before the marker, the first marker after it.
pub open spec fn first_title_match(s: Seq<char>, i: int, j: int) -> bool {
    &&& title_match(s, i, j)
    &&& forall|i2: int, j2: int| #[trigger] title_match(s, i2, j2) ==> i < i2 || (i == i2 && j <= j2)
}

/// The owner handle named by the page's title, if the title pattern matches.
pub open spec fn title_handle(s: Seq<char>) -> Option<Seq<char>> {
    if exists|i: int, j: int| first_title_match(s, i, j) {
        let (i, j) = choose|i: int, j: int| first_title_match(s, i, j);
        Some(s.subrange(j + 3, handle_end(s, j)))
    } else {
        None
    }
}

/// Each character of `s`, with a backslash before each regex meta character.
pub open spec fn escaped(s: Seq<char>) -> Seq<char>
    decreases s.len(),
{
    if s.len() == 0 {
        seq![]
    } else {
        let c = s.last();
        let piece = if is_meta_char(c) {
            seq!['\\', c]
        } else {
            seq![c]
        };
        escaped(s.drop_last()) + piece
    }
}

pub open spec fn is_meta_char(c: char) -> bool {
    c == '\\' || c == '.' || c == '+' || c == '*' || c == '?' || c == '(' || c == ')' || c == '|'
        || c == '[' || c == ']' || c == '{' || c == '}' || c == '^' || c == '$' || c == '#' || c
        == '&' || c == '-' || c == '~'
}

/// A link made of the literal `l` and at least one decimal digit starts at `p`.
pub open spec fn link_at(s: Seq<char>, p: int, l: Seq<char>) -> bool {
    occurs_at(s, p, l) && digit_run_len(s, p + l.len()) > 0
}

/// The non-overlapping occurrences, left to right from position `p`, of the
/// literal `l` followed by the longest run of decimal digits (at least one).
pub open spec fn links_from(s: Seq<char>, l: Seq<char>, p: int) -> Seq<Seq<char>>
    decreases s.len() - p via links_from_decreases
{
    if p < 0 || p >= s.len() {
        seq![]
    } else if link_at(s, p, l) {
        let e = p + l.len() + digit_run_len(s, p + l.len());
        seq![s.subrange(p, e)] + links_from(s, l, e)
    } else {
        links_from(s, l, p + 1)
    }
}

/// A run of digits starting inside `s` ends inside `s`.
proof fn lemma_digit_run_bound(s: Seq<char>, p: int)
    requires
        0 <= p,
    ensures
        p < s.len() ==> p + digit_run_len(s, p) <= s.len(),
        digit_run_len(s, p) > 0 ==> p < s.len() && is_digit_char(s[p]),
    decreases s.len() - p,
{
    if 0 <= p < s.len() && is_digit_char(s[p]) {
        lemma_digit_run_bound(s, p + 1);
    }
}

#[via_fn]
proof fn links_from_decreases(s: Seq<char>, l: Seq<char>, p: int) {
    if 0 <= p < s.len() && link_at(s, p, l) {
        lemma_digit_run_bound(s, p + l.len());
    }
}

/// The literal that starts each video link of `owner`.
pub open spec fn link_prefix(owner: Seq<char>) -> Seq<char> {
    URL_HEAD@ + owner + URL_MIDDLE@
}

/// The search pattern for the video links of `owner`.
pub open spec fn link_pattern(owner: Seq<char>) -> Seq<char> {
    escaped(link_prefix(owner)) + DIGIT_RUN@
}

/// The video links of `owner` in page text `s`, in document order.
pub open spec fn video_links(s: Seq<char>, owner: Seq<char>) -> Seq<Seq<char>> {
    links_from(s, link_prefix(owner), 0)
}

/// Relies on regex::escape: every meta character gets a backslash before
/// it, every other character is copied.
#[verifier::external_body]
fn regex_escape(text: &str) -> (r: String)
    ensures
        r@ == escaped(text@),
{
    regex::escape(text)
}

/// Relies on regex::Regex::new and regex::Regex::captures: the title pattern
/// compiles, and the first capture group of its leftmost-first match is the
/// handle, made of `\w` characters and dots.
#[verifier::external_body]
fn first_capture(pattern: &str, hay: &str) -> (r: Option<String>)
    requires
        pattern@ == TITLE_PATTERN@,
    ensures
        r is None <==> title_handle(hay@) is None,
        r matches Some(h) ==> title_handle(hay@) == Some(h@),
        r matches Some(h) ==> forall|k: int|
            0 <= k < h@.len() ==> h@[k] == '.' || h@[k] == '_' || ('0' <= h@[k] && h@[k] <= '9') || (
            'A' <= h@[k] && h@[k] <= 'Z') || ('a' <= h@[k] && h@[k] <= 'z') || ('\u{7f}' < h@[k]
                && unicode_word(#[trigger] h@[k])),
{
    let re = regex::Regex::new(pattern).unwrap();
    re.captures(hay).and_then(|c| c.get(1)).map(|m| m.as_str().to_string())
}

/// Relies on regex::Regex::new and regex::Regex::find_iter: `new` succeeds
/// exactly on the patterns it accepts (it refuses a pattern only for its
/// syntax or for its compiled size, a function of the pattern alone); the
/// matches of an escaped literal followed by `\d+` are the non-overlapping
/// leftmost-first occurrences, left to right, each ending in a digit.
#[verifier::external_body]
fn find_all(pattern: &str, hay: &str) -> (r: Option<Vec<String>>)
    ensures
        r is Some <==> regex_compiles(pattern@),
        r matches Some(v) ==> forall|l: Seq<char>|
            pattern@ == #[trigger] escaped(l) + DIGIT_RUN@ ==> v.deep_view() == links_from(hay@, l, 0)
                && forall|k: int|
                0 <= k < v.len() ==> v[k]@.len() > 0 && (('0' <= v[k]@.last() && v[k]@.last() <= '9')
                    || ('\u{7f}' < v[k]@.last() && unicode_digit(#[trigger] v[k]@.last()))),
{
    match regex::Regex::new(pattern) {
        Ok(re) => Some(re.find_iter(hay).map(|m| m.as_str().to_string()).collect()),
        Err(_) => None,
    }
}

/// The owner handle named in the page's title: the capture of the leftmost
/// match of `<title>… (@handle)…</title>`.
pub fn derive_owner_id(page: &str) -> (r: Result<String, ExtractError>)
    ensures
        r matches Ok(h) ==> title_handle(page@) == Some(h@),
        r is Err <==> title_handle(page@) is None,
        r is Err ==> r == Err::<String, ExtractError>(ExtractError::OwnerNotFound),
{
    match first_capture(TITLE_PATTERN, page) {
        Some(h) => Ok(h),
        None => Err(ExtractError::OwnerNotFound),
    }
}

/// The links `https://www.tiktok.com/@{owner}/video/{digits}` in the page,
/// left to right and without overlap, with `owner` matched literally.
pub fn extract_video_urls(page: &str, owner: &str) -> (r: Result<Vec<String>, ExtractError>)
    ensures
        r is Ok <==> regex_compiles(link_pattern(owner@)),
        r matches Ok(v) ==> v.deep_view() == video_links(page@, owner@),
        r is Err ==> r == Err::<Vec<String>, ExtractError>(ExtractError::PatternRejected),
{
    let mut literal = String::from_str(URL_HEAD);
    literal.append(owner);
    literal.append(URL_MIDDLE);
    let mut pattern = regex_escape(literal.as_str());
    pattern.append(DIGIT_RUN);
    assert(pattern@ == link_pattern(owner@));
    match find_all(pattern.as_str(), page) {
        Some(v) => Ok(v),
        None => Err(ExtractError::PatternRejected),
    }
}

/// `u` is a link made of the literal `l` followed by one or more ASCII digits.
pub open spec fn is_link_of(u: Seq<char>, l: Seq<char>) -> bool {
    &&& u.len() > l.len()
    &&& u.subrange(0, l.len() as int) == l
    &&& forall|k: int| l.len() <= k < u.len() ==> is_digit_char(#[trigger] u[k])
}

proof fn lemma_digit_run_digits(s: Seq<char>, p: int)
    requires
        0 <= p,
    ensures
        forall|k: int| p <= k < p + digit_run_len(s, p) ==> is_digit_char(#[trigger] s[k]),
    decreases s.len() - p,
{
    if 0 <= p < s.len() && is_digit_char(s[p]) {
        lemma_digit_run_digits(s, p + 1);
    }
}

proof fn lemma_handle_run_exact(s: Seq<char>, p: int, n: int)
    requires
        0 <= p,
        0 <= n,
        p + n < s.len(),
        forall|k: int| p <= k < p + n ==> is_handle_char(#[trigger] s[k]),
        !is_handle_char(s[p + n]),
    ensures
        handle_run_len(s, p) == n,
    decreases n,
{
    if n > 0 {
        lemma_handle_run_exact(s, p + 1, n - 1);
    }
}

proof fn lemma_links_from_shape(s: Seq<char>, l: Seq<char>, p: int)
    requires
        0 <= p,
    ensures
        forall|k: int| 0 <= k < links_from(s, l, p).len() ==> is_link_of(#[trigger] links_from(s, l, p)[k], l),
    decreases s.len() - p,
{
    if p >= s.len() {
    } else if link_at(s, p, l) {
        let q = p + l.len();
        let e = q + digit_run_len(s, q);
        lemma_digit_run_bound(s, q);
        lemma_digit_run_digits(s, q);
        lemma_links_from_shape(s, l, e);
        let u = s.subrange(p, e);
        assert(u.subrange(0, l.len() as int) =~= s.subrange(p, q));
        assert forall|k: int| l.len() <= k < u.len() implies is_digit_char(#[trigger] u[k]) by {
            assert(u[k] == s[p + k]);
        }
        assert(is_link_of(u, l));
        let rest = links_from(s, l, e);
        assert(links_from(s, l, p) == seq![u] + rest);
        assert forall|k: int| 0 <= k < links_from(s, l, p).len() implies is_link_of(
            #[trigger] links_from(s, l, p)[k],
            l,
        ) by {
            if k == 0 {
                assert(links_from(s, l, p)[0] == u);
            } else {
                assert(links_from(s, l, p)[k] == rest[k - 1]);
            }
        }
    } else {
        lemma_links_from_shape(s, l, p + 1);
        assert(links_from(s, l, p) == links_from(s, l, p + 1));
    }
}

/// Every link found for `owner` is the literal text
/// `https://www.tiktok.com/@{owner}/video/` followed by a video number of one
/// or more ASCII digits: characters of the handle (a dot included) match
/// only themselves, so links of other owners are never returned.
pub proof fn lemma_links_belong_to_owner(s: Seq<char>, owner: Seq<char>)
    ensures
        forall|k: int| 0 <= k < video_links(s, owner).len() ==> is_link_of(
            #[trigger] video_links(s, owner)[k],
            link_prefix(owner),
        ),
{
    lemma_links_from_shape(s, link_prefix(owner), 0);
}

/// A page in which the title pattern matches nowhere names no owner, so
/// `derive_owner_id` fails with `OwnerNotFound` on it.
pub proof fn lemma_no_title_no_owner(s: Seq<char>)
    requires
        forall|i: int, j: int| !title_match(s, i, j),
    ensures
        title_handle(s) is None,
{
}

/// `w` occurs nowhere in `s` from `a` before `b`, where the text from `a`
/// to `b` holds no `w`, `w` occurs at `b`, and the first character of `w`
/// does not recur in it.
proof fn lemma_first_occurrence(s: Seq<char>, a: int, b: int, pre: Seq<char>, w: Seq<char>)
    requires
        0 <= a <= b,
        s.subrange(a, b) == pre,
        occurs_at(s, b, w),
        w.len() > 0,
        forall|k: int| !#[trigger] occurs_at(pre, k, w),
        forall|d: int| 1 <= d < w.len() ==> #[trigger] w[d] != w[0],
    ensures
        forall|k: int| a <= k < b ==> !#[trigger] occurs_at(s, k, w),
{
    assert(s.subrange(b, b + w.len())[0] == s[b]);
    assert forall|k: int| a <= k < b implies !#[trigger] occurs_at(s, k, w) by {
        if occurs_at(s, k, w) {
            if k + w.len() <= b {
                assert(pre.subrange(k - a, k - a + w.len()) =~= s.subrange(k, k + w.len()));
                assert(occurs_at(pre, k - a, w));
            } else {
                assert(s.subrange(k, k + w.len())[b - k] == s[b]);
            }
        }
    }
}

proof fn lemma_title_at(s: Seq<char>, i0: int, j0: int, n: int, e0: int)
    requires
        0 <= i0,
        i0 + 7 <= j0,
        0 < n,
        j0 + 3 + n < e0,
        forall|k: int| 0 <= k < i0 ==> !#[trigger] occurs_at(s, k, title_open()),
        occurs_at(s, i0, title_open()),
        forall|k: int| i0 + 7 <= k < j0 ==> !#[trigger] occurs_at(s, k, handle_open()),
        occurs_at(s, j0, handle_open()),
        forall|k: int| j0 + 3 <= k < j0 + 3 + n ==> is_handle_char(#[trigger] s[k]),
        s[j0 + 3 + n] == ')',
        occurs_at(s, e0, title_close()),
    ensures
        title_handle(s) == Some(s.subrange(j0 + 3, j0 + 3 + n)),
{
    lemma_handle_run_exact(s, j0 + 3, n);
    assert(title_match(s, i0, j0));
    assert forall|i2: int, j2: int| #[trigger] title_match(s, i2, j2) implies i0 < i2 || (i0 == i2
        && j0 <= j2) by {
    }
    assert(first_title_match(s, i0, j0));
    let (i, j) = choose|i: int, j: int| first_title_match(s, i, j);
    assert(title_match(s, i0, j0));
    assert(title_match(s, i, j));
    assert(i == i0 && j == j0);
}

/// The page `w<title>x (@h)y</title>z` names the owner `h`, where `w` holds
/// no `<title>`, `x` holds no ` (@`, and `h` is a nonempty run of word
/// characters and dots; `x`, `y` and `z` may hold newlines.
pub proof fn lemma_title_names_owner(
    w: Seq<char>,
    x: Seq<char>,
    h: Seq<char>,
    y: Seq<char>,
    z: Seq<char>,
)
    requires
        forall|k: int| !#[trigger] occurs_at(w, k, title_open()),
        forall|k: int| !#[trigger] occurs_at(x, k, handle_open()),
        h.len() > 0,
        forall|k: int| 0 <= k < h.len() ==> is_handle_char(#[trigger] h[k]),
    ensures
        title_handle(
            w + title_open() + x + handle_open() + h + seq![')'] + y + title_close() + z,
        ) == Some(h),
{
    let s = w + title_open() + x + handle_open() + h + seq![')'] + y + title_close() + z;
    let i0 = w.len() as int;
    let j0 = i0 + 7 + x.len();
    let hs = j0 + 3;
    let he = hs + h.len();
    let e0 = he + 1 + y.len();
    assert(s.subrange(0, i0) =~= w);
    assert(s.subrange(i0, i0 + 7) =~= title_open());
    assert(s.subrange(i0 + 7, j0) =~= x);
    assert(s.subrange(j0, j0 + 3) =~= handle_open());
    assert(s.subrange(hs, he) =~= h);
    assert(s.subrange(he, he + 1) =~= seq![')']);
    assert(s.subrange(e0, e0 + 8) =~= title_close());
    assert(s.subrange(i0, i0 + 7)[0] == s[i0]);
    assert(s.subrange(j0, j0 + 3)[0] == s[j0]);
    assert(title_open()[1] != '<' && title_open()[2] != '<' && title_open()[3] != '<'
        && title_open()[4] != '<' && title_open()[5] != '<' && title_open()[6] != '<');
    assert(handle_open()[1] != ' ' && handle_open()[2] != ' ');
    lemma_first_occurrence(s, 0, i0, w, title_open());
    lemma_first_occurrence(s, i0 + 7, j0, x, handle_open());
    assert forall|k: int| hs <= k < he implies is_handle_char(#[trigger] s[k]) by {
        assert(s.subrange(hs, he)[k - hs] == s[k]);
    }
    assert(s.subrange(he, he + 1)[0] == s[he]);
    lemma_title_at(s, i0, j0, h.len() as int, e0);
}

proof fn lemma_no_literal_no_links(s: Seq<char>, l: Seq<char>, p: int)
    requires
        forall|k: int| !#[trigger] occurs_at(s, k, l),
    ensures
        links_from(s, l, p) == Seq::<Seq<char>>::empty(),
    decreases s.len() - p,
{
    if 0 <= p < s.len() {
        assert(!occurs_at(s, p, l));
        lemma_no_literal_no_links(s, l, p + 1);
    }
}

/// The handle is matched literally: a link of another handle `w` of the same
/// length (such as `jane.doe` with its dot replaced by a letter), followed by
/// decimal digits, gives no link for `owner`.
pub proof fn lemma_owner_is_literal(owner: Seq<char>, w: Seq<char>, d: Seq<char>)
    requires
        w.len() == owner.len(),
        w != owner,
        forall|k: int| 0 <= k < d.len() ==> is_digit_char(#[trigger] d[k]),
    ensures
        video_links(link_prefix(w) + d, owner) == Seq::<Seq<char>>::empty(),
{
    reveal_strlit("https://www.tiktok.com/@");
    reveal_strlit("/video/");
    let s = link_prefix(w) + d;
    let l = link_prefix(owner);
    let m = l.len() as int;
    let n = URL_HEAD@.len() as int;
    assert(l[m - 1] == '/');
    assert forall|k: int| !#[trigger] occurs_at(s, k, l) by {
        if occurs_at(s, k, l) {
            if k == 0 {
                assert(s.subrange(0, m) =~= link_prefix(w));
                assert(w =~= link_prefix(w).subrange(n, n + w.len() as int));
                assert(owner =~= l.subrange(n, n + owner.len() as int));
            } else {
                assert(s.subrange(k, k + m)[m - 1] == s[k + m - 1]);
                assert(s[k + m - 1] == d[k - 1]);
            }
        }
    }
    lemma_no_literal_no_links(s, l, 0);
}

/// `h` is made of handle characters.
pub open spec fn is_handle(h: Seq<char>) -> bool {
    forall|k: int| 0 <= k < h.len() ==> is_handle_char(#[trigger] h[k])
}

/// `d` is a video number: one or more decimal digits.
pub open spec fn is_video_number(d: Seq<char>) -> bool {
    d.len() > 0 && forall|k: int| 0 <= k < d.len() ==> is_digit_char(#[trigger] d[k])
}

/// The link of owner `o` to video `d`, followed by a space.
pub open spec fn link_unit(o: Seq<char>, d: Seq<char>) -> Seq<char> {
    link_prefix(o) + d + seq![' ']
}

/// A page made of the links `(owner, video number)` of `items`, in order,
/// each followed by a space.
pub open spec fn link_page(items: Seq<(Seq<char>, Seq<char>)>) -> Seq<char>
    decreases items.len(),
{
    if items.len() == 0 {
        seq![]
    } else {
        link_unit(items[0].0, items[0].1) + link_page(items.drop_first())
    }
}

/// The links of `items` that belong to `owner`, in order.
pub open spec fn owner_links(items: Seq<(Seq<char>, Seq<char>)>, owner: Seq<char>) -> Seq<
    Seq<char>,
>
    decreases items.len(),
{
    if items.len() == 0 {
        seq![]
    } else {
        let head = if items[0].0 == owner {
            seq![link_prefix(owner) + items[0].1]
        } else {
            seq![]
        };
        head + owner_links(items.drop_first(), owner)
    }
}

proof fn lemma_digit_run_exact(s: Seq<char>, p: int, n: int)
    requires
        0 <= p,
        0 <= n,
        p + n < s.len(),
        forall|k: int| p <= k < p + n ==> is_digit_char(#[trigger] s[k]),
        !is_digit_char(s[p + n]),
    ensures
        digit_run_len(s, p) == n,
    decreases n,
{
    if n > 0 {
        lemma_digit_run_exact(s, p + 1, n - 1);
    }
}

proof fn lemma_digit_run_shift(pre: Seq<char>, t: Seq<char>, q: int)
    requires
        0 <= q,
    ensures
        digit_run_len(pre + t, pre.len() + q) == digit_run_len(t, q),
    decreases t.len() - q,
{
    if q < t.len() {
        assert((pre + t)[pre.len() + q] == t[q]);
        lemma_digit_run_shift(pre, t, q + 1);
    }
}

proof fn lemma_links_shift(pre: Seq<char>, t: Seq<char>, l: Seq<char>, p: int)
    requires
        0 <= p,
    ensures
        links_from(pre + t, l, pre.len() + p) == links_from(t, l, p),
    decreases t.len() - p,
{
    let s = pre + t;
    let q = pre.len() + p;
    if p < t.len() {
        if p + l.len() <= t.len() {
            assert(s.subrange(q, q + l.len()) =~= t.subrange(p, p + l.len()));
        }
        assert(occurs_at(s, q, l) == occurs_at(t, p, l));
        lemma_digit_run_shift(pre, t, p + l.len());
        if link_at(t, p, l) {
            lemma_digit_run_bound(t, p + l.len());
            let e = p + l.len() + digit_run_len(t, p + l.len());
            assert(s.subrange(q, pre.len() + e) =~= t.subrange(p, e));
            lemma_links_shift(pre, t, l, e);
        } else {
            lemma_links_shift(pre, t, l, p + 1);
        }
    }
}

proof fn lemma_links_skip(s: Seq<char>, l: Seq<char>, a: int, b: int)
    requires
        0 <= a <= b <= s.len(),
        forall|k: int| a <= k < b ==> !#[trigger] occurs_at(s, k, l),
    ensures
        links_from(s, l, a) == links_from(s, l, b),
    decreases b - a,
{
    if a < b {
        assert(!occurs_at(s, a, l));
        lemma_links_skip(s, l, a + 1, b);
    }
}

proof fn lemma_unit_links(o: Seq<char>, d: Seq<char>, rest: Seq<char>, owner: Seq<char>)
    requires
        is_handle(o),
        is_handle(owner),
        is_video_number(d),
    ensures
        links_from(link_unit(o, d) + rest, link_prefix(owner), 0) == (if o == owner {
            seq![link_prefix(owner) + d]
        } else {
            seq![]
        }) + links_from(rest, link_prefix(owner), 0),
{
    reveal_strlit("https://www.tiktok.com/@");
    reveal_strlit("/video/");
    let u = link_unit(o, d);
    let s = u + rest;
    let l = link_prefix(owner);
    let m = l.len() as int;
    let n = URL_HEAD@.len() as int;
    let a = n + o.len();
    let b = a + 7;
    let c = b + d.len();
    assert(u.len() == c + 1);
    assert forall|i: int| 0 <= i < u.len() implies #[trigger] s[i] == u[i] by {}
    assert forall|i: int| 0 <= i < n implies #[trigger] u[i] == URL_HEAD@[i] by {}
    assert forall|i: int| n <= i < a implies #[trigger] u[i] == o[i - n] by {}
    assert forall|i: int| a <= i < b implies #[trigger] u[i] == URL_MIDDLE@[i - a] by {}
    assert forall|i: int| b <= i < c implies #[trigger] u[i] == d[i - b] by {}
    assert(u[c] == ' ');
    lemma_links_shift(u, rest, l, 0);
    if o == owner {
        assert(m == b);
        assert(s.subrange(0, m) =~= l);
        lemma_digit_run_exact(s, b, d.len() as int);
        assert(link_at(s, 0, l));
        assert(s.subrange(0, c) =~= l + d);
        if occurs_at(s, c, l) {
            assert(s.subrange(c, c + m)[0] == s[c]);
        }
        assert(links_from(s, l, c) == links_from(s, l, c + 1));
        assert(links_from(s, l, 0) == seq![l + d] + links_from(s, l, c));
    } else {
        assert forall|k: int| 0 <= k < u.len() implies !#[trigger] occurs_at(s, k, l) by {
            if occurs_at(s, k, l) {
                assert(s.subrange(k, k + m)[0] == s[k]);
                assert(s.subrange(k, k + m)[5] == s[k + 5]);
                if k == 0 {
                    if o.len() == owner.len() {
                        assert(s.subrange(0, m) =~= link_prefix(o));
                        assert(o =~= link_prefix(o).subrange(n, a));
                        assert(owner =~= l.subrange(n, a));
                    } else if o.len() < owner.len() {
                        assert(s.subrange(0, m)[a] == s[a]);
                        assert(l[a] == owner[o.len() as int]);
                    } else {
                        let i = n + owner.len();
                        assert(s.subrange(0, m)[i] == s[i]);
                        assert(s[i] == o[owner.len() as int]);
                    }
                } else if k + 5 < u.len() {
                    assert(s[k + 5] == ':');
                } else {
                    assert(s[k] == 'h');
                }
            }
        }
        lemma_links_skip(s, l, 0, u.len() as int);
        assert(links_from(s, l, 0) == links_from(rest, l, 0));
        assert(seq![] + links_from(rest, l, 0) =~= links_from(rest, l, 0));
    }
}

/// On a page of links of several owners (such as `alice` and `bob`
/// interleaved), each followed by a space, the links found for `owner` are
/// exactly that owner's links, in document order.
pub proof fn lemma_interleaved_owners(items: Seq<(Seq<char>, Seq<char>)>, owner: Seq<char>)
    requires
        is_handle(owner),
        forall|i: int|
            0 <= i < items.len() ==> is_handle(#[trigger] items[i].0) && is_video_number(
                items[i].1,
            ),
    ensures
        video_links(link_page(items), owner) == owner_links(items, owner),
    decreases items.len(),
{
    if items.len() > 0 {
        let rest = items.drop_first();
        assert forall|i: int| 0 <= i < rest.len() implies is_handle(#[trigger] rest[i].0)
            && is_video_number(rest[i].1) by {
            assert(rest[i] == items[i + 1]);
        }
        assert(is_handle(items[0].0) && is_video_number(items[0].1));
        lemma_interleaved_owners(rest, owner);
        lemma_unit_links(items[0].0, items[0].1, link_page(rest), owner);
    }
}

} // verus!
