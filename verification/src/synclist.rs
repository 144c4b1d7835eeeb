use vstd::prelude::*;
use crate::scrape::strings_view;

verus! {

/// One manga followed by the sync list: its page and whether it is kept in sync.
#[derive(Debug, Clone)]
pub struct SyncItem {
    pub sync: bool,
    pub url: String,
}

/// The plain view of a [`SyncItem`].
pub struct SyncItemView {
    pub sync: bool,
    pub url: Seq<char>,
}

impl View for SyncItem {
    type V = SyncItemView;

    open spec fn view(&self) -> SyncItemView {
        SyncItemView { sync: self.sync, url: self.url@ }
    }
}

/// The list of followed manga and the time of the last sync, in milliseconds since
/// the Unix epoch.
#[derive(Debug, Clone)]
pub struct Synclist {
    pub lastsync: u128,
    pub synclist: Vec<SyncItem>,
}

/// The views of a list of sync items.
pub open spec fn items_view(v: Seq<SyncItem>) -> Seq<SyncItemView> {
    v.map_values(|i: SyncItem| i@)
}

/// The pages of the items that are kept in sync, in list order.
pub open spec fn sync_urls(items: Seq<SyncItemView>) -> Seq<Seq<char>>
    decreases items.len(),
{
    if items.len() == 0 {
        seq![]
    } else if items.last().sync {
        sync_urls(items.drop_last()).push(items.last().url)
    } else {
        sync_urls(items.drop_last())
    }
}

impl Synclist {
    /// The pages of the manga to sync: those of the items marked for sync, in list
    /// order.
    pub fn urls_to_sync(&self) -> (res: Vec<String>)
        ensures
            strings_view(res@) == sync_urls(items_view(self.synclist@)),
    {
        let ghost all = items_view(self.synclist@);
        let mut res: Vec<String> = Vec::new();
        for i in 0..self.synclist.len()
            invariant
                all == items_view(self.synclist@),
                strings_view(res@) == sync_urls(all.take(i as int)),
        {
            let item = &self.synclist[i];
            assert(all.take(i + 1).drop_last() == all.take(i as int));
            assert(all.take(i + 1).last() == item@);
            if item.sync {
                let ghost before = res@;
                let url = item.url.clone();
                res.push(url);
                assert(strings_view(res@) == strings_view(before).push(item.url@));
            }
        }
        assert(all.take(self.synclist.len() as int) == all);
        res
    }

    /// Records that a sync ended at `now_millis`; the followed items stay as they are.
    pub fn record_sync(&mut self, now_millis: u128)
        ensures
            final(self).lastsync == now_millis,
            final(self).synclist@ == old(self).synclist@,
    {
        self.lastsync = now_millis;
    }
}

} // verus!
