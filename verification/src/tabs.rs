//! The tab snapshot: raw target records as the remote-debugging protocol
//! reports them, and the filter that keeps exactly the ordinary pages,
//! with the documented defaults for absent titles and URLs.

use vstd::prelude::*;

verus! {

use crate::text::{spec_starts_with, starts_with_str, str_eq};

/// One open tab of the snapshot.
#[derive(Debug, Clone)]
pub struct Tab {
    pub target_id: String,
    pub title: String,
    pub url: String,
}

/// The mathematical value of a tab: its three fields as character
/// sequences.
pub struct TabView {
    pub target_id: Seq<char>,
    pub title: Seq<char>,
    pub url: Seq<char>,
}

impl View for Tab {
    type V = TabView;

    open spec fn view(&self) -> TabView {
        TabView { target_id: self.target_id@, title: self.title@, url: self.url@ }
    }
}

/// One entry of a target-listing response, before filtering: its string
/// fields, each absent when the response does not carry it.
#[derive(Debug, Clone)]
pub struct RawTarget {
    pub kind: Option<String>,
    pub target_id: Option<String>,
    pub title: Option<String>,
    pub url: Option<String>,
}

/// The mathematical value of a raw target record.
pub struct RawTargetView {
    pub kind: Option<Seq<char>>,
    pub target_id: Option<Seq<char>>,
    pub title: Option<Seq<char>>,
    pub url: Option<Seq<char>>,
}

impl View for RawTarget {
    type V = RawTargetView;

    open spec fn view(&self) -> RawTargetView {
        RawTargetView {
            kind: match self.kind {
                Some(ref s) => Some(s@),
                None => None,
            },
            target_id: match self.target_id {
                Some(ref s) => Some(s@),
                None => None,
            },
            title: match self.title {
                Some(ref s) => Some(s@),
                None => None,
            },
            url: match self.url {
                Some(ref s) => Some(s@),
                None => None,
            },
        }
    }
}

/// A target's URL, defaulting to empty when absent.
pub open spec fn spec_raw_url(t: RawTargetView) -> Seq<char> {
    match t.url {
        Some(u) => u,
        None => Seq::empty(),
    }
}

/// A raw target becomes a tab when it is a page, its URL is not an
/// extension page, and it carries a target id.
pub open spec fn spec_qualifies(t: RawTargetView) -> bool {
    &&& t.kind == Some("page"@)
    &&& !spec_starts_with(spec_raw_url(t), "chrome-extension://"@)
    &&& t.target_id is Some
}

/// The tab a qualifying raw target becomes: its id, its title defaulting
/// to `Untitled`, its URL defaulting to empty.
pub open spec fn spec_to_tab(t: RawTargetView) -> TabView {
    TabView {
        target_id: t.target_id->0,
        title: match t.title {
            Some(s) => s,
            None => "Untitled"@,
        },
        url: spec_raw_url(t),
    }
}

/// The views of a list of tabs.
pub open spec fn views_of_tabs(s: Seq<Tab>) -> Seq<TabView> {
    s.map_values(|t: Tab| t@)
}

/// The views of a list of raw targets.
pub open spec fn views_of_raw(s: Seq<RawTarget>) -> Seq<RawTargetView> {
    s.map_values(|t: RawTarget| t@)
}

/// The tabs a target listing yields: the qualifying entries, in order,
/// each with its defaults applied.
pub open spec fn spec_tabs_of(ts: Seq<RawTargetView>) -> Seq<TabView> {
    ts.filter(|t: RawTargetView| spec_qualifies(t)).map_values(|t: RawTargetView| spec_to_tab(t))
}

/// Appending a raw target appends its tab exactly when it qualifies.
proof fn lemma_tabs_of_push(s: Seq<RawTargetView>, t: RawTargetView)
    ensures
        spec_tabs_of(s.push(t)) == if spec_qualifies(t) {
            spec_tabs_of(s).push(spec_to_tab(t))
        } else {
            spec_tabs_of(s)
        },
{
    broadcast use Seq::lemma_filter_push;

    let pred = |x: RawTargetView| spec_qualifies(x);
    let f = |x: RawTargetView| spec_to_tab(x);
    if spec_qualifies(t) {
        assert(s.push(t).filter(pred).map_values(f) =~= s.filter(pred).map_values(f).push(f(t)));
    }
}

/// Keep exactly the qualifying page targets, in response order, each as a
/// tab with the documented defaults.
pub fn filter_targets(targets: &Vec<RawTarget>) -> (r: Vec<Tab>)
    ensures
        views_of_tabs(r@) == spec_tabs_of(views_of_raw(targets@)),
{
    broadcast use Seq::lemma_take_succ_push, Seq::lemma_take_len;

    let mut r: Vec<Tab> = Vec::new();
    let mut i: usize = 0;
    proof {
        assert(views_of_raw(targets@).take(0) =~= Seq::<RawTargetView>::empty());
        assert(views_of_tabs(r@) =~= Seq::<TabView>::empty());
        assert(spec_tabs_of(Seq::<RawTargetView>::empty()) =~= Seq::<TabView>::empty()) by {
            reveal(Seq::filter);
        }
    }
    while i < targets.len()
        invariant
            0 <= i <= targets.len(),
            views_of_raw(targets@).len() == targets.len(),
            forall|k: int|
                0 <= k < targets.len() ==> views_of_raw(targets@)[k] == #[trigger] targets@[k]@,
            views_of_tabs(r@) == spec_tabs_of(views_of_raw(targets@).take(i as int)),
        decreases targets.len() - i,
    {
        broadcast use Seq::lemma_take_succ_push;

        let t = &targets[i];
        let is_page = match &t.kind {
            Some(k) => str_eq(k.as_str(), "page"),
            None => false,
        };
        let is_extension = match &t.url {
            Some(u) => starts_with_str(u.as_str(), "chrome-extension://"),
            None => {
                proof {
                    reveal_strlit("chrome-extension://");
                }
                false
            },
        };
        let ghost prev = views_of_tabs(r@);
        match &t.target_id {
            Some(id) if is_page && !is_extension => {
                let title = match &t.title {
                    Some(s) => s.clone(),
                    None => "Untitled".to_owned(),
                };
                let url = match &t.url {
                    Some(s) => s.clone(),
                    None => String::new(),
                };
                let tab = Tab { target_id: id.clone(), title, url };
                proof {
                    assert(tab@.target_id == t@.target_id->0);
                }
                r.push(tab);
                proof {
                    assert(views_of_tabs(r@) =~= prev.push(spec_to_tab(t@)));
                }
            },
            _ => {
                proof {
                    assert(!spec_qualifies(t@));
                }
            },
        }
        proof {
            assert(t@ == targets@[i as int]@);
            assert(views_of_raw(targets@).take(i + 1) == views_of_raw(targets@).take(
                i as int,
            ).push(t@));
            lemma_tabs_of_push(views_of_raw(targets@).take(i as int), t@);
        }
        i += 1;
    }
    proof {
        assert(views_of_raw(targets@).take(targets.len() as int) == views_of_raw(targets@));
    }
    r
}

} // verus!
