//! Selection dispatch: the grammar of a main-menu selection, the numeric
//! index parse used for tab activation and batch closing, and the exact
//! confirmation demanded before closing every tab.

use vstd::prelude::*;

verus! {

use crate::tabs::{Tab, TabView, views_of_tabs};
use crate::text::{spec_starts_with, starts_with_str, str_eq};
use vstd::string::StrSliceExecFns;

/// A decimal digit.
pub open spec fn spec_is_digit(c: char) -> bool {
    '0' <= c && c <= '9'
}

/// The value of a decimal digit.
pub open spec fn spec_digit_val(c: char) -> nat {
    (c as u32 - 48) as nat
}

/// The value of a string of decimal digits, most significant first.
pub open spec fn spec_digits_val(s: Seq<char>) -> nat
    decreases s.len(),
{
    if s.len() == 0 {
        0
    } else {
        spec_digits_val(s.drop_last()) * 10 + spec_digit_val(s.last())
    }
}

/// The position of the first `.` in `s`, or the length of `s` when it
/// holds none.
pub open spec fn spec_first_dot(s: Seq<char>) -> int
    decreases s.len(),
{
    if s.len() == 0 {
        0
    } else if s[0] == '.' {
        0
    } else {
        1 + spec_first_dot(s.drop_first())
    }
}

proof fn lemma_first_dot_found(s: Seq<char>, i: int)
    requires
        0 <= i < s.len(),
        s[i] == '.',
        forall|j: int| 0 <= j < i ==> s[j] != '.',
    ensures
        spec_first_dot(s) == i,
    decreases i,
{
    if i > 0 {
        lemma_first_dot_found(s.drop_first(), i - 1);
    }
}

proof fn lemma_first_dot_none(s: Seq<char>)
    requires
        forall|j: int| 0 <= j < s.len() ==> s[j] != '.',
    ensures
        spec_first_dot(s) == s.len(),
    decreases s.len(),
{
    if s.len() > 0 {
        lemma_first_dot_none(s.drop_first());
    }
}

/// The position of the first `.` in `line`, or its length when it holds
/// none.
pub fn first_dot(line: &str) -> (d: usize)
    ensures
        d == spec_first_dot(line@),
        d <= line@.len(),
{
    let n = line.unicode_len();
    let mut i: usize = 0;
    while i < n
        invariant
            0 <= i <= n,
            n == line@.len(),
            forall|j: int| 0 <= j < i ==> line@[j] != '.',
        decreases n - i,
    {
        if line.get_char(i) == '.' {
            proof {
                lemma_first_dot_found(line@, i as int);
            }
            return i;
        }
        i += 1;
    }
    proof {
        lemma_first_dot_none(line@);
    }
    n
}

/// What parsing a token as an unsigned decimal number yields: its value,
/// when the token is non-empty, all digits, and in range.
pub open spec fn spec_parse_usize(s: Seq<char>) -> Option<usize> {
    if s.len() > 0 && (forall|i: int| 0 <= i < s.len() ==> spec_is_digit(#[trigger] s[i]))
        && spec_digits_val(s) <= usize::MAX {
        Some(spec_digits_val(s) as usize)
    } else {
        None
    }
}

/// A longer digit prefix never has a smaller value.
proof fn lemma_digits_val_mono(s: Seq<char>, i: int)
    requires
        0 <= i <= s.len(),
    ensures
        spec_digits_val(s) >= spec_digits_val(s.take(i)),
    decreases s.len() - i,
{
    if i < s.len() {
        assert(s.take(i + 1).drop_last() =~= s.take(i));
        assert(spec_digits_val(s.take(i + 1)) >= spec_digits_val(s.take(i)));
        lemma_digits_val_mono(s, i + 1);
        assert(s.take(s.len() as int) =~= s);
    } else {
        assert(s.take(i) =~= s);
    }
}

/// Parse a token as an unsigned decimal number.
pub fn parse_usize(tok: &str) -> (r: Option<usize>)
    ensures
        r == spec_parse_usize(tok@),
{
    let n = tok.unicode_len();
    if n == 0 {
        return None;
    }
    let mut acc: usize = 0;
    let mut i: usize = 0;
    proof {
        assert(tok@.take(0) =~= Seq::<char>::empty());
    }
    while i < n
        invariant
            0 <= i <= n,
            n == tok@.len(),
            forall|j: int| 0 <= j < i ==> spec_is_digit(#[trigger] tok@[j]),
            acc == spec_digits_val(tok@.take(i as int)),
        decreases n - i,
    {
        let c = tok.get_char(i);
        if !(c >= '0' && c <= '9') {
            return None;
        }
        let d: usize = (c as u32 as usize) - 48;
        proof {
            assert(d == spec_digit_val(c));
            assert(tok@.take(i + 1).drop_last() =~= tok@.take(i as int));
            assert(tok@.take(i + 1).last() == tok@[i as int]);
        }
        let next = match acc.checked_mul(10) {
            Some(x) => x.checked_add(d),
            None => None,
        };
        match next {
            Some(v) => {
                acc = v;
            },
            None => {
                proof {
                    assert(spec_digits_val(tok@.take(i + 1)) > usize::MAX);
                    lemma_digits_val_mono(tok@, i + 1);
                    assert(tok@.take(n as int) =~= tok@);
                }
                return None;
            },
        }
        i += 1;
    }
    proof {
        assert(tok@.take(n as int) =~= tok@);
    }
    Some(acc)
}

/// The zero-based tab index a menu line denotes: the decimal number
/// before the line's first `.`, made zero-based with floor-at-zero
/// subtraction; `None` when that token does not parse.
pub open spec fn spec_sel_index(line: Seq<char>) -> Option<usize> {
    match spec_parse_usize(line.subrange(0, spec_first_dot(line))) {
        Some(n) => Some(if n >= 1 {
            (n - 1) as usize
        } else {
            0
        }),
        None => None,
    }
}

/// Parse a menu line's leading number into a zero-based tab index.
pub fn parse_selection_index(line: &str) -> (r: Option<usize>)
    ensures
        r == spec_sel_index(line@),
{
    let d = first_dot(line);
    let tok = line.substring_char(0, d);
    match parse_usize(tok) {
        Some(n) => Some(if n >= 1 {
            n - 1
        } else {
            0
        }),
        None => None,
    }
}

/// A decimal rendering holds only digits, and parsing it back yields the
/// number it renders.
pub proof fn lemma_dec_digits(n: nat)
    ensures
        forall|i: int|
            0 <= i < crate::text::spec_dec(n).len() ==> spec_is_digit(
                #[trigger] crate::text::spec_dec(n)[i],
            ),
        spec_digits_val(crate::text::spec_dec(n)) == n,
        crate::text::spec_dec(n).len() >= 1,
    decreases n,
{
    let d = crate::text::spec_dec(n);
    if n < 10 {
        assert(d == seq![crate::text::spec_digit_char(n as int)]);
        assert(d.drop_last() =~= Seq::<char>::empty());
        assert(spec_is_digit(crate::text::spec_digit_char(n as int)));
        assert(spec_digit_val(crate::text::spec_digit_char(n as int)) == n);
        assert(spec_digits_val(d.drop_last()) == 0);
        assert(d.last() == crate::text::spec_digit_char(n as int));
        assert(spec_digits_val(d) == spec_digits_val(d.drop_last()) * 10 + spec_digit_val(
            d.last(),
        ));
        assert(spec_digits_val(d) == n);
    } else {
        lemma_dec_digits(n / 10);
        let head = crate::text::spec_dec(n / 10);
        let last = crate::text::spec_digit_char((n % 10) as int);
        assert(d == head.push(last));
        assert(d.drop_last() =~= head);
        assert(d.last() == last);
        assert(spec_is_digit(last));
        assert(spec_digit_val(last) == n % 10);
        assert(spec_digits_val(d) == (n / 10) * 10 + n % 10);
        assert(n == (n / 10) * 10 + n % 10) by (nonlinear_arith);
    }
}

/// A rendered tab line resolves back to the tab it numbers: parsing the
/// line built for one-based index `index1` yields the zero-based index
/// `index1 - 1`, whatever the title and URL hold.
pub proof fn lemma_tab_line_resolves(index1: usize, t: TabView)
    requires
        index1 >= 1,
    ensures
        spec_sel_index(crate::menu::spec_tab_line(index1 as int, t)) == Some(
            (index1 - 1) as usize,
        ),
{
    reveal_strlit(". ");
    let dec = crate::text::spec_dec(index1 as nat);
    let line = crate::menu::spec_tab_line(index1 as int, t);
    lemma_dec_digits(index1 as nat);
    assert(". "@[0] == '.');
    assert(line[dec.len() as int] == '.');
    assert forall|j: int| 0 <= j < dec.len() implies line[j] != '.' by {
        assert(line[j] == dec[j]);
        assert(spec_is_digit(dec[j]));
    }
    lemma_first_dot_found(line, dec.len() as int);
    assert(line.subrange(0, dec.len() as int) =~= dec);
    assert(spec_parse_usize(dec) == Some(index1));
}

/// The action a main-menu selection denotes.
#[derive(Clone, Copy, PartialEq, Eq, Structural, Debug)]
pub enum Action {
    /// Run a regular search.
    SearchRegular,
    /// Open the bookmark launcher, normal or private, as a detached task.
    Bookmarks { incognito: bool },
    /// Open the history browser as a detached task.
    History,
    /// Run a private search.
    SearchIncognito,
    /// Open a blank new tab, then focus the browser window.
    NewTab,
    /// Offer the numbered tab lines for multi-selection and close the
    /// chosen tabs.
    CloseTabMenu,
    /// Ask for confirmation, then close every live tab.
    CloseAllMenu,
    /// Terminate at once.
    Exit,
    /// Activate the tab at this zero-based snapshot index, ignoring an
    /// out-of-range index.
    ActivateTab { index: usize },
    /// A numeric-looking selection whose leading token does not parse;
    /// the invocation fails.
    ParseError,
    /// Anything else, the empty (cancelled) selection included: no action.
    NoAction,
}

/// The dispatch grammar: which action each selection denotes, in the
/// match order of the controller.
pub open spec fn spec_classify(sel: Seq<char>) -> Action {
    if spec_starts_with(sel, "Search ("@) {
        Action::SearchRegular
    } else if sel == "- Bookmarks"@ {
        Action::Bookmarks { incognito: false }
    } else if sel == "- Bookmarks incognito"@ {
        Action::Bookmarks { incognito: true }
    } else if sel == "- History"@ {
        Action::History
    } else if sel == "- Search in incognito"@ {
        Action::SearchIncognito
    } else if sel == "- New Tab"@ {
        Action::NewTab
    } else if sel == "- Close Tab"@ {
        Action::CloseTabMenu
    } else if sel == "- Close ALL Tabs"@ {
        Action::CloseAllMenu
    } else if sel == "- Exit"@ {
        Action::Exit
    } else if sel.len() > 0 && spec_is_digit(sel[0]) {
        match spec_sel_index(sel) {
            Some(i) => Action::ActivateTab { index: i },
            None => Action::ParseError,
        }
    } else {
        Action::NoAction
    }
}

/// Classify a main-menu selection.
pub fn classify_selection(sel: &str) -> (r: Action)
    ensures
        r == spec_classify(sel@),
{
    if starts_with_str(sel, "Search (") {
        Action::SearchRegular
    } else if str_eq(sel, "- Bookmarks") {
        Action::Bookmarks { incognito: false }
    } else if str_eq(sel, "- Bookmarks incognito") {
        Action::Bookmarks { incognito: true }
    } else if str_eq(sel, "- History") {
        Action::History
    } else if str_eq(sel, "- Search in incognito") {
        Action::SearchIncognito
    } else if str_eq(sel, "- New Tab") {
        Action::NewTab
    } else if str_eq(sel, "- Close Tab") {
        Action::CloseTabMenu
    } else if str_eq(sel, "- Close ALL Tabs") {
        Action::CloseAllMenu
    } else if str_eq(sel, "- Exit") {
        Action::Exit
    } else if sel.unicode_len() > 0 {
        let c = sel.get_char(0);
        if c >= '0' && c <= '9' {
            match parse_selection_index(sel) {
                Some(i) => Action::ActivateTab { index: i },
                None => Action::ParseError,
            }
        } else {
            Action::NoAction
        }
    } else {
        Action::NoAction
    }
}

/// Selecting a rendered tab line always dispatches to the activation of
/// exactly the tab it numbers, whatever its title and URL hold.
pub proof fn lemma_menu_tab_line_dispatch(index1: usize, t: TabView)
    requires
        index1 >= 1,
    ensures
        spec_classify(crate::menu::spec_tab_line(index1 as int, t)) == (Action::ActivateTab {
            index: (index1 - 1) as usize,
        }),
{
    reveal_strlit("Search (");
    reveal_strlit("- Bookmarks");
    reveal_strlit("- Bookmarks incognito");
    reveal_strlit("- History");
    reveal_strlit("- Search in incognito");
    reveal_strlit("- New Tab");
    reveal_strlit("- Close Tab");
    reveal_strlit("- Close ALL Tabs");
    reveal_strlit("- Exit");
    let line = crate::menu::spec_tab_line(index1 as int, t);
    let dec = crate::text::spec_dec(index1 as nat);
    lemma_dec_digits(index1 as nat);
    assert(line[0] == dec[0]);
    assert(spec_is_digit(line[0]));
    assert(!spec_starts_with(line, "Search ("@)) by {
        if spec_starts_with(line, "Search ("@) {
            assert(line.subrange(0, 8)[0] == line[0]);
            assert("Search ("@[0] == 'S');
        }
    }
    assert(line != "- Bookmarks"@ && line != "- Bookmarks incognito"@ && line != "- History"@
        && line != "- Search in incognito"@ && line != "- New Tab"@ && line != "- Close Tab"@
        && line != "- Close ALL Tabs"@ && line != "- Exit"@) by {
        assert(line[0] != '-');
    }
    lemma_tab_line_resolves(index1, t);
}

/// Closing every tab demands the exact confirmation text `YES`; anything
/// else performs no close at all.
pub fn close_all_confirmed(answer: &str) -> (r: bool)
    ensures
        r == (answer@ == "YES"@),
{
    str_eq(answer, "YES")
}

/// The target ids a batch of chosen close-tab lines resolves to: each
/// line's leading index looked up in the snapshot, unparseable lines and
/// out-of-range indices silently dropped. Each line contributes
/// independently of every other, so no single failing close changes
/// which commands the rest receive.
pub open spec fn spec_close_ids(lines: Seq<Seq<char>>, tabs: Seq<TabView>) -> Seq<Seq<char>>
    decreases lines.len(),
{
    if lines.len() == 0 {
        Seq::empty()
    } else {
        spec_close_ids(lines.drop_last(), tabs) + match spec_sel_index(lines.last()) {
            Some(i) => if i < tabs.len() {
                seq![tabs[i as int].target_id]
            } else {
                Seq::empty()
            },
            None => Seq::empty(),
        }
    }
}

/// The close-tab picker resolves its own lines faithfully: choosing all
/// of the offered numbered lines closes exactly the snapshot's tabs, in
/// snapshot order.
pub proof fn lemma_close_options_resolve(tabs: Seq<TabView>)
    requires
        tabs.len() <= usize::MAX,
    ensures
        spec_close_ids(
            Seq::new(tabs.len(), |i: int| crate::menu::spec_tab_line(i + 1, tabs[i])),
            tabs,
        ) == tabs.map_values(|t: TabView| t.target_id),
{
    let lines = Seq::new(tabs.len(), |i: int| crate::menu::spec_tab_line(i + 1, tabs[i]));
    lemma_close_options_resolve_prefix(tabs, lines, tabs.len() as int);
    assert(lines.take(tabs.len() as int) =~= lines);
    assert(tabs.map_values(|t: TabView| t.target_id).take(tabs.len() as int) =~= tabs.map_values(
        |t: TabView| t.target_id,
    ));
}

proof fn lemma_close_options_resolve_prefix(tabs: Seq<TabView>, lines: Seq<Seq<char>>, m: int)
    requires
        tabs.len() <= usize::MAX,
        lines == Seq::new(tabs.len(), |i: int| crate::menu::spec_tab_line(i + 1, tabs[i])),
        0 <= m <= tabs.len(),
    ensures
        spec_close_ids(lines.take(m), tabs) == tabs.map_values(|t: TabView| t.target_id).take(m),
    decreases m,
{
    let ids = tabs.map_values(|t: TabView| t.target_id);
    if m == 0 {
        assert(lines.take(0) =~= Seq::<Seq<char>>::empty());
        assert(spec_close_ids(lines.take(0), tabs) =~= ids.take(0));
    } else {
        lemma_close_options_resolve_prefix(tabs, lines, m - 1);
        assert(lines.take(m).drop_last() =~= lines.take(m - 1));
        assert(lines.take(m).last() == lines[m - 1]);
        assert(lines[m - 1] == crate::menu::spec_tab_line(m, tabs[m - 1]));
        lemma_tab_line_resolves(m as usize, tabs[m - 1]);
        assert(spec_sel_index(lines.take(m).last()) == Some((m - 1) as usize));
        assert(spec_close_ids(lines.take(m), tabs) =~= ids.take(m));
    }
}

/// Resolve the chosen close-tab lines to the target ids to close, in
/// order.
pub fn close_batch(chosen: &Vec<String>, tabs: &Vec<Tab>) -> (r: Vec<String>)
    ensures
        r.deep_view() == spec_close_ids(chosen.deep_view(), views_of_tabs(tabs@)),
{
    broadcast use Seq::lemma_take_succ_push, Seq::lemma_take_len;

    let ghost tv = views_of_tabs(tabs@);
    let mut r: Vec<String> = Vec::new();
    let mut i: usize = 0;
    proof {
        assert(chosen.deep_view().take(0) =~= Seq::<Seq<char>>::empty());
        assert(r.deep_view() =~= Seq::<Seq<char>>::empty());
    }
    while i < chosen.len()
        invariant
            0 <= i <= chosen.len(),
            tv == views_of_tabs(tabs@),
            tv.len() == tabs.len(),
            forall|k: int| 0 <= k < tabs.len() ==> tv[k] == #[trigger] tabs@[k]@,
            chosen.deep_view().len() == chosen.len(),
            forall|k: int|
                0 <= k < chosen.len() ==> chosen.deep_view()[k] == #[trigger] chosen@[k]@,
            r.deep_view() == spec_close_ids(chosen.deep_view().take(i as int), tv),
        decreases chosen.len() - i,
    {
        broadcast use Seq::lemma_take_succ_push;

        let line = &chosen[i];
        let ghost prev = r.deep_view();
        match parse_selection_index(line.as_str()) {
            Some(idx) => {
                if idx < tabs.len() {
                    r.push(tabs[idx].target_id.clone());
                    proof {
                        assert(r.deep_view() =~= prev.push(tv[idx as int].target_id));
                    }
                }
            },
            None => {},
        }
        proof {
            let cv = chosen.deep_view();
            assert(line@ == cv[i as int]);
            assert(cv.take(i + 1).drop_last() =~= cv.take(i as int));
            assert(cv.take(i + 1).last() == cv[i as int]);
            assert(r.deep_view() =~= spec_close_ids(cv.take(i + 1), tv));
        }
        i += 1;
    }
    proof {
        assert(chosen.deep_view().take(chosen.len() as int) =~= chosen.deep_view());
    }
    r
}

} // verus!
