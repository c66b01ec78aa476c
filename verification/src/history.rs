//! History-menu rendering: each visited page becomes one line holding the
//! title cut and padded to a fixed field width, two spaces, then the URL.
//! The URL is recovered from a chosen line as the suffix from the first
//! occurrence of `http`.

use vstd::prelude::*;

verus! {

use crate::text::{
    contains_at, find_sub, spec_pad, spec_starts_with, spec_truncate, truncate_pad,
};
use vstd::string::{StrSliceExecFns, StringExecFns};

/// The title field width of a history-menu line, in characters.
pub const TITLE_WIDTH: usize = 40;

/// One rendered history line: the title truncated and padded to the field
/// width, two spaces, then the URL.
pub open spec fn spec_history_line(title: Seq<char>, url: Seq<char>) -> Seq<char> {
    spec_pad(spec_truncate(title, TITLE_WIDTH as int), TITLE_WIDTH as int) + seq![' ', ' '] + url
}

/// Render one history row as a menu line.
pub fn format_history_line(title: &str, url: &str) -> (r: String)
    ensures
        r@ == spec_history_line(title@, url@),
{
    let mut out = truncate_pad(title, TITLE_WIDTH);
    proof {
        reveal_strlit("  ");
        assert("  "@ =~= seq![' ', ' ']);
    }
    out.append("  ");
    out.append(url);
    out
}

/// Render the history rows in order, one line per row.
pub fn format_history_rows(rows: &Vec<(String, String)>) -> (r: Vec<String>)
    ensures
        r.len() == rows.len(),
        forall|i: int|
            0 <= i < rows.len() ==> r.deep_view()[i] == spec_history_line(
                #[trigger] rows@[i].0@,
                rows@[i].1@,
            ),
{
    let mut r: Vec<String> = Vec::new();
    let mut i: usize = 0;
    while i < rows.len()
        invariant
            0 <= i <= rows.len(),
            r.len() == i,
            forall|k: int|
                0 <= k < i ==> r.deep_view()[k] == spec_history_line(
                    #[trigger] rows@[k].0@,
                    rows@[k].1@,
                ),
        decreases rows.len() - i,
    {
        let row = &rows[i];
        let line = format_history_line(row.0.as_str(), row.1.as_str());
        r.push(line);
        i += 1;
    }
    r
}

/// The suffix of `line` from the first occurrence of `http`, or `None`
/// when `http` occurs nowhere in it.
pub fn extract_url(line: &str) -> (r: Option<String>)
    ensures
        match r {
            Some(url) => exists|i: int|
                {
                    &&& #[trigger] contains_at(line@, "http"@, i)
                    &&& forall|j: int| 0 <= j < i ==> !contains_at(line@, "http"@, j)
                    &&& url@ == line@.subrange(i, line@.len() as int)
                },
            None => forall|j: int| !contains_at(line@, "http"@, j),
        },
{
    match find_sub(line, "http") {
        Some(i) => {
            let len = line.unicode_len();
            assert(i + 4 <= len) by {
                reveal_strlit("http");
            }
            let url = line.substring_char(i, len).to_owned();
            assert(contains_at(line@, "http"@, i as int));
            Some(url)
        },
        None => None,
    }
}

/// The menu prompt for the history view: the profile's display name
/// followed by `History`.
pub fn history_prompt(display_name: &str) -> (r: String)
    ensures
        r@ == display_name@ + " History"@,
{
    let mut out = display_name.to_owned();
    out.append(" History");
    out
}

/// Where the history database is copied before querying: one fixed path,
/// not namespaced per profile or per process, so concurrent invocations
/// race on it — an accepted limitation of the design.
pub fn history_copy_path() -> (r: &'static str)
    ensures
        r@ == "/tmp/brave_history_rofi"@,
{
    "/tmp/brave_history_rofi"
}

/// The one query this system makes against the copied browser-history
/// database; its table and column names are the schema contract with the
/// browser's own storage format.
pub fn history_query() -> (r: &'static str)
    ensures
        r@
            == "SELECT title, url FROM urls WHERE title IS NOT NULL AND title != '' ORDER BY last_visit_time DESC LIMIT 100000"@,
{
    "SELECT title, url FROM urls WHERE title IS NOT NULL AND title != '' ORDER BY last_visit_time DESC LIMIT 100000"
}

/// Reversing the rendering recovers the URL: in a rendered line whose
/// padded title field holds no occurrence of `http` and whose URL begins
/// with `http`, the first occurrence of `http` is exactly where the URL
/// starts, and the suffix from there is the URL itself.
pub proof fn lemma_history_line_url_roundtrip(title: Seq<char>, url: Seq<char>)
    requires
        spec_starts_with(url, "http"@),
        forall|i: int|
            !contains_at(spec_pad(spec_truncate(title, TITLE_WIDTH as int), TITLE_WIDTH as int), "http"@, i),
    ensures
        ({
            let line = spec_history_line(title, url);
            let p = spec_pad(spec_truncate(title, TITLE_WIDTH as int), TITLE_WIDTH as int).len()
                + 2;
            &&& contains_at(line, "http"@, p as int)
            &&& forall|j: int| 0 <= j < p ==> !contains_at(line, "http"@, j)
            &&& line.subrange(p as int, line.len() as int) == url
        }),
{
    reveal_strlit("http");
    let pad = spec_pad(spec_truncate(title, TITLE_WIDTH as int), TITLE_WIDTH as int);
    let pre = pad + seq![' ', ' '];
    let line = spec_history_line(title, url);
    let p = pre.len() as int;
    assert("http"@.len() == 4);
    assert(url.len() >= 4);
    assert(line.subrange(p, p + 4) =~= url.subrange(0, 4));
    assert(contains_at(line, "http"@, p));
    assert forall|j: int| 0 <= j < p implies !contains_at(line, "http"@, j) by {
        if contains_at(line, "http"@, j) {
            if j + 4 <= pad.len() {
                assert(line.subrange(j, j + 4) =~= pad.subrange(j, j + 4));
                assert(contains_at(pad, "http"@, j));
            } else if j <= pad.len() {
                let k = pad.len() as int;
                assert(line[k] == ' ');
                assert(line.subrange(j, j + 4)[k - j] == line[k]);
                assert("http"@[k - j] != ' ');
            } else {
                assert(j == pad.len() + 1);
                assert(line[j] == ' ');
                assert(line.subrange(j, j + 4)[0] == line[j]);
                assert("http"@[0] != ' ');
            }
        }
    }
    assert(line.subrange(p, line.len() as int) =~= url);
}

} // verus!
