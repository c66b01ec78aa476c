//! The main menu: a count header, a search entry, one numbered line per
//! tab of the snapshot, and the fixed action entries, in their exact
//! order; plus the numbered lines offered by the close-tab picker.

use vstd::prelude::*;

verus! {

use crate::config::BrowserConfig;
use crate::tabs::{Tab, TabView, views_of_tabs};
use crate::text::{spec_dec, usize_to_string};
use vstd::string::StringExecFns;

/// One numbered tab line: the one-based index, a dot, the title, a dash,
/// the URL.
pub open spec fn spec_tab_line(index1: int, t: TabView) -> Seq<char> {
    spec_dec(index1 as nat) + ". "@ + t.title + " - "@ + t.url
}

/// The numbered tab lines in snapshot order, one per tab, each ending in
/// a newline.
pub open spec fn spec_tab_lines(tabs: Seq<TabView>) -> Seq<char>
    decreases tabs.len(),
{
    if tabs.len() == 0 {
        Seq::empty()
    } else {
        spec_tab_lines(tabs.drop_last()) + spec_tab_line(tabs.len() as int, tabs.last()) + "\n"@
    }
}

/// The whole main menu for a snapshot and a profile display name.
pub open spec fn spec_menu(tabs: Seq<TabView>, name: Seq<char>) -> Seq<char> {
    "Tabs: "@ + spec_dec(tabs.len()) + "\n"@ + "────\n"@ + "Search ("@ + name + ")\n"@ + "────\n"@
        + spec_tab_lines(tabs) + "────\n"@ + "- Bookmarks\n"@ + "- Bookmarks incognito\n"@
        + "- New Tab\n"@ + "- Close Tab\n"@ + "- Close ALL Tabs\n"@ + "- Search in incognito\n"@
        + "- History\n"@ + "- Exit\n"@
}

/// Render one numbered tab line.
pub fn tab_line(index1: usize, tab: &Tab) -> (r: String)
    ensures
        r@ == spec_tab_line(index1 as int, tab@),
{
    let mut out = usize_to_string(index1);
    out.append(". ");
    out.append(tab.title.as_str());
    out.append(" - ");
    out.append(tab.url.as_str());
    proof {
        assert(out@ =~= spec_tab_line(index1 as int, tab@));
    }
    out
}

/// The numbered lines offered by the close-tab picker, one per tab of the
/// snapshot, in order.
pub fn close_tab_options(tabs: &Vec<Tab>) -> (r: Vec<String>)
    ensures
        r.len() == tabs.len(),
        forall|i: int|
            0 <= i < tabs.len() ==> r.deep_view()[i] == spec_tab_line(
                i + 1,
                #[trigger] tabs@[i]@,
            ),
{
    let mut r: Vec<String> = Vec::new();
    let mut i: usize = 0;
    while i < tabs.len()
        invariant
            0 <= i <= tabs.len(),
            r.len() == i,
            forall|k: int|
                0 <= k < i ==> r.deep_view()[k] == spec_tab_line(k + 1, #[trigger] tabs@[k]@),
        decreases tabs.len() - i,
    {
        let line = tab_line(i + 1, &tabs[i]);
        r.push(line);
        i += 1;
    }
    r
}

/// Render the whole main menu for the tab snapshot and the profile.
pub fn build_menu(tabs: &Vec<Tab>, config: &BrowserConfig) -> (r: String)
    ensures
        r@ == spec_menu(views_of_tabs(tabs@), config.name@),
{
    broadcast use Seq::lemma_take_succ_push, Seq::lemma_take_len;

    let ghost tv = views_of_tabs(tabs@);
    let mut out = "Tabs: ".to_owned();
    out.append(usize_to_string(tabs.len()).as_str());
    out.append("\n");
    out.append("────\n");
    out.append("Search (");
    out.append(config.name.as_str());
    out.append(")\n");
    out.append("────\n");
    let ghost header = "Tabs: "@ + spec_dec(tv.len()) + "\n"@ + "────\n"@ + "Search ("@
        + config.name@ + ")\n"@ + "────\n"@;
    proof {
        assert(tv.len() == tabs.len());
        assert(out@ =~= header);
        assert(tv.take(0) =~= Seq::<TabView>::empty());
    }
    let mut i: usize = 0;
    while i < tabs.len()
        invariant
            0 <= i <= tabs.len(),
            tv == views_of_tabs(tabs@),
            tv.len() == tabs.len(),
            forall|k: int| 0 <= k < tabs.len() ==> tv[k] == #[trigger] tabs@[k]@,
            out@ == header + spec_tab_lines(tv.take(i as int)),
        decreases tabs.len() - i,
    {
        broadcast use Seq::lemma_take_succ_push;

        let line = tab_line(i + 1, &tabs[i]);
        out.append(line.as_str());
        out.append("\n");
        proof {
            assert(tv.take(i + 1).drop_last() =~= tv.take(i as int));
            assert(tv.take(i + 1).last() == tv[i as int]);
            assert(tv.take(i + 1).len() == i + 1);
            assert(out@ =~= header + spec_tab_lines(tv.take(i + 1)));
        }
        i += 1;
    }
    proof {
        assert(tv.take(tabs.len() as int) =~= tv);
    }
    out.append("────\n");
    out.append("- Bookmarks\n");
    out.append("- Bookmarks incognito\n");
    out.append("- New Tab\n");
    out.append("- Close Tab\n");
    out.append("- Close ALL Tabs\n");
    out.append("- Search in incognito\n");
    out.append("- History\n");
    out.append("- Exit\n");
    proof {
        assert(out@ =~= spec_menu(tv, config.name@));
    }
    out
}

/// The prompt of the main menu: the display name followed by `Tabs`.
pub fn menu_prompt(display_name: &str) -> (r: String)
    ensures
        r@ == display_name@ + " Tabs"@,
{
    let mut out = display_name.to_owned();
    out.append(" Tabs");
    out
}

} // verus!
