//! The sticker picker: one tab per sticker pack that the engine lists, with
//! the stickers that can be sent from it.

use vstd::prelude::*;
use crate::events::opt_view;
use crate::i18n::{current_wf, t, translate, I18n};
use crate::text::{append_str, chars_of, decimal, str_eq, to_owned_string, u64_to_string};

verus! {

/// A sticker as the engine lists it.
pub struct StickerItem {
    pub sticker_id: String,
    pub package_id: String,
    pub version: Option<String>,
    pub image_path: Option<String>,
}

/// A sticker pack as the engine lists it.
pub struct StickerPack {
    pub id: String,
    pub name: Option<String>,
    pub recent: bool,
    pub icon_path: Option<String>,
    pub stickers: Vec<StickerItem>,
}

/// A tab of the picker.
pub struct StickerTab {
    /// The name of the tab's page.
    pub page_name: String,
    /// The tooltip and heading of the tab.
    pub title: String,
    /// The recently used stickers, shown with a clock icon.
    pub recent: bool,
    /// The pack's icon, for packs other than the recent one.
    pub icon_path: Option<String>,
    /// The stickers that can be sent.
    pub stickers: Vec<StickerItem>,
    /// Whether the pictures load at once; the others wait until their tab is
    /// opened.
    pub load_now: bool,
}

/// A sticker as values: ids, version, and a picture path that is not empty.
pub open spec fn item_view(it: StickerItem) -> (Seq<char>, Seq<char>, Option<Seq<char>>, Option<Seq<char>>) {
    (it.sticker_id@, it.package_id@, opt_view(it.version), non_empty(opt_view(it.image_path)))
}

pub open spec fn non_empty(p: Option<Seq<char>>) -> Option<Seq<char>> {
    match p {
        Some(s) => if s.len() > 0 { Some(s) } else { None },
        None => None,
    }
}

pub open spec fn items_view(s: Seq<StickerItem>) -> Seq<(Seq<char>, Seq<char>, Option<Seq<char>>, Option<Seq<char>>)> {
    s.map_values(|it: StickerItem| item_view(it))
}

/// The stickers of a pack that can be sent: both ids present.
pub open spec fn sendable(s: Seq<StickerItem>) -> Seq<(Seq<char>, Seq<char>, Option<Seq<char>>, Option<Seq<char>>)>
    decreases s.len(),
{
    if s.len() == 0 {
        Seq::empty()
    } else {
        let rest = sendable(s.drop_last());
        let it = s.last();
        if it.sticker_id@.len() > 0 && it.package_id@.len() > 0 {
            rest.push(item_view(it))
        } else {
            rest
        }
    }
}

/// The recent pack: so flagged, or with the id `__recent__`.
pub open spec fn is_recent(p: StickerPack) -> bool {
    p.recent || p.id@ == "__recent__"@
}

/// The tab's title: "Recent" in the current language for the recent pack,
/// else the pack's name (`Stickers` when it has none).
pub open spec fn tab_title(cur: Option<I18n>, p: StickerPack) -> Seq<char> {
    if is_recent(p) {
        translate(cur, "stickers_recent"@)
    } else {
        match p.name {
            Some(n) => n@,
            None => "Stickers"@,
        }
    }
}

/// The tab for pack number `i`.
pub open spec fn tab_matches(cur: Option<I18n>, p: StickerPack, i: int, tab: StickerTab) -> bool {
    &&& tab.page_name@ == "pack-"@ + decimal(i as nat)
    &&& tab.title@ == tab_title(cur, p)
    &&& tab.recent == is_recent(p)
    &&& opt_view(tab.icon_path) == (if is_recent(p) { None } else { non_empty(opt_view(p.icon_path)) })
    &&& items_view(tab.stickers@) == sendable(p.stickers@)
    &&& tab.load_now == (i == 0)
}

fn non_empty_path(p: &Option<String>) -> (r: Option<String>)
    ensures
        opt_view(r) == non_empty(opt_view(*p)),
{
    match p {
        Some(s) => if chars_of(s.as_str()).len() > 0 {
            Some(s.clone())
        } else {
            None
        },
        None => None,
    }
}

fn sendable_stickers(items: Vec<StickerItem>) -> (out: Vec<StickerItem>)
    ensures
        items_view(out@) == sendable(items@),
{
    let ghost orig = items@;
    let mut rest = items;
    let mut out: Vec<StickerItem> = Vec::new();
    let n = rest.len();
    let mut i: usize = 0;
    assert(orig.take(0) =~= Seq::<StickerItem>::empty());
    assert(items_view(out@) =~= Seq::empty());
    while i < n
        invariant
            n == orig.len(),
            i <= n,
            rest@ == orig.skip(i as int),
            items_view(out@) == sendable(orig.take(i as int)),
        decreases n - i,
    {
        let it = rest.remove(0);
        assert(it == orig[i as int]);
        assert(rest@ =~= orig.skip(i + 1));
        assert(orig.take(i + 1).drop_last() =~= orig.take(i as int));
        assert(orig.take(i + 1).last() == it);
        if chars_of(it.sticker_id.as_str()).len() > 0 && chars_of(it.package_id.as_str()).len() > 0 {
            let image_path = non_empty_path(&it.image_path);
            let kept = StickerItem { sticker_id: it.sticker_id, package_id: it.package_id, version: it.version, image_path };
            let ghost before = out@;
            let ghost kv = item_view(kept);
            out.push(kept);
            assert(items_view(out@) =~= items_view(before).push(kv));
        }
        i = i + 1;
    }
    assert(orig.take(n as int) =~= orig);
    out
}

/// The tab for one pack, number `i` in the engine's list.
pub fn sticker_tab(cur: &Option<I18n>, pack: StickerPack, i: usize) -> (tab: StickerTab)
    requires
        current_wf(*cur),
    ensures
        tab_matches(*cur, pack, i as int, tab),
{
    let ghost p = pack;
    let recent = pack.recent || str_eq(pack.id.as_str(), "__recent__");
    let title = if recent {
        t(cur, "stickers_recent")
    } else {
        match &pack.name {
            Some(n) => n.clone(),
            None => to_owned_string("Stickers"),
        }
    };
    let icon_path = if recent {
        None
    } else {
        non_empty_path(&pack.icon_path)
    };
    let mut page_name = to_owned_string("pack-");
    let num = u64_to_string(i as u64);
    append_str(&mut page_name, num.as_str());
    let stickers = sendable_stickers(pack.stickers);
    StickerTab { page_name, title, recent, icon_path, stickers, load_now: i == 0 }
}

/// The picker's tabs, one per pack in the engine's order. An empty list shows
/// the "no stickers" page instead.
pub fn sticker_tabs(cur: &Option<I18n>, packs: Vec<StickerPack>) -> (tabs: Vec<StickerTab>)
    requires
        current_wf(*cur),
    ensures
        tabs@.len() == packs@.len(),
        forall|i: int| 0 <= i < packs@.len() ==> tab_matches(*cur, packs@[i], i, #[trigger] tabs@[i]),
{
    let ghost orig = packs@;
    let mut rest = packs;
    let mut tabs: Vec<StickerTab> = Vec::new();
    let n = rest.len();
    let mut i: usize = 0;
    while i < n
        invariant
            current_wf(*cur),
            n == orig.len(),
            i <= n,
            rest@ == orig.skip(i as int),
            tabs@.len() == i,
            forall|k: int| 0 <= k < i ==> tab_matches(*cur, orig[k], k, #[trigger] tabs@[k]),
        decreases n - i,
    {
        let p = rest.remove(0);
        assert(p == orig[i as int]);
        assert(rest@ =~= orig.skip(i + 1));
        let tab = sticker_tab(cur, p, i);
        tabs.push(tab);
        i = i + 1;
    }
    tabs
}

} // verus!
