use vstd::prelude::*;
use vstd::string::*;
use crate::scrape::{document_matches, select_document, strings_view, Document, Scraped, ScrapedView};
use crate::text::{decimal, decimal_string, ends_with, has_suffix, replace, replace_all, trim, trimmed};

verus! {

broadcast use vstd::string::group_string_axioms;

/// A chapter of a manga: where its reader page is, its name, the image addresses of
/// its pages once they have been scanned, whether its archive has been written, and
/// the volume it belongs to, if any.
#[derive(Debug, Clone)]
pub struct ChapterRef {
    pub url: String,
    pub name: String,
    pub downloaded: bool,
    pub pages: Vec<String>,
    pub volume_part: bool,
    pub volume_name: String,
}

/// The plain view of a [`ChapterRef`].
#[verifier::ext_equal]
pub struct ChapterView {
    pub url: Seq<char>,
    pub name: Seq<char>,
    pub downloaded: bool,
    pub pages: Seq<Seq<char>>,
    pub volume_part: bool,
    pub volume_name: Seq<char>,
}

impl View for ChapterRef {
    type V = ChapterView;

    open spec fn view(&self) -> ChapterView {
        ChapterView {
            url: self.url@,
            name: self.name@,
            downloaded: self.downloaded,
            pages: strings_view(self.pages@),
            volume_part: self.volume_part,
            volume_name: self.volume_name@,
        }
    }
}

/// The views of a list of chapters.
pub open spec fn chapters_view(v: Seq<ChapterRef>) -> Seq<ChapterView> {
    v.map_values(|c: ChapterRef| c@)
}

/// The address of the page that shows every image of the chapter at `url`: `url`
/// itself when it already asks for the list style, else `url` without its
/// `?style=page` parts and with `?style=list` after it.
pub open spec fn list_url_of(url: Seq<char>) -> Seq<char> {
    if has_suffix(url, "?style=list"@) {
        url
    } else {
        replace_all(url, "?style=page"@, ""@) + "?style=list"@
    }
}

/// Every element carries the attribute that was asked for.
pub open spec fn all_have_attr(els: Seq<ScrapedView>) -> bool {
    forall|i: int| 0 <= i < els.len() ==> (#[trigger] els[i]).attr is Some
}

/// The attribute value of each element, in order.
pub open spec fn attr_values(els: Seq<ScrapedView>) -> Seq<Seq<char>> {
    els.map_values(|e: ScrapedView| e.attr->0)
}

/// The attribute values of the elements, or `None` where one of them lacks it.
pub open spec fn sources_of(els: Seq<ScrapedView>) -> Option<Seq<Seq<char>>> {
    if all_have_attr(els) {
        Some(attr_values(els))
    } else {
        None
    }
}

/// The image addresses of the pages listed in `document`: the `src` of every
/// `.page-image` element, or `None` where an element has no `src`.
pub open spec fn page_sources(document: Seq<char>) -> Option<Seq<Seq<char>>> {
    match document_matches(document, ".page-image"@, "src"@) {
        Some(els) => sources_of(els),
        None => None,
    }
}

/// `c` once its archive is written: marked downloaded, every other field kept.
pub open spec fn after_download(c: ChapterView) -> ChapterView {
    ChapterView { downloaded: true, ..c }
}

/// `c` with the page addresses `pages`, every other field kept.
pub open spec fn with_pages(c: ChapterView, pages: Seq<Seq<char>>) -> ChapterView {
    ChapterView { pages: pages, ..c }
}

/// What downloading `c` for the manga `title` writes: nothing when it is already
/// downloaded, else the archive path and, for each page `i`, the entry name `i.jpg`
/// with the page's address.
pub open spec fn plan_of(title: Seq<char>, c: ChapterView) -> Option<(Seq<char>, Seq<(Seq<char>, Seq<char>)>)> {
    if c.downloaded {
        None
    } else {
        Some(
            (
                archive_path_of(title, c),
                Seq::new(c.pages.len(), |i: int| (page_entry_of(i as nat), c.pages[i])),
            ),
        )
    }
}

/// The view of a download plan.
pub open spec fn plan_view(p: Option<DownloadPlan>) -> Option<(Seq<char>, Seq<(Seq<char>, Seq<char>)>)> {
    match p {
        Some(plan) => Some(
            (plan.path@, plan.entries@.map_values(|e: ArchiveEntry| (e.name@, e.url@))),
        ),
        None => None,
    }
}

/// The views of an optional list of strings.
pub open spec fn opt_strings_view(o: Option<Vec<String>>) -> Option<Seq<Seq<char>>> {
    match o {
        Some(v) => Some(strings_view(v@)),
        None => None,
    }
}

/// Where the archive of a chapter of the manga `title` is written: the trimmed title,
/// the trimmed volume name when the chapter belongs to a volume, and the trimmed
/// chapter name, separated by spaces, under `/manga/download/`, with `.zip` after it.
pub open spec fn archive_path_of(title: Seq<char>, c: ChapterView) -> Seq<char> {
    if c.volume_part {
        "/manga/download/"@ + trimmed(title) + " "@ + trimmed(c.volume_name) + " "@ + trimmed(
            c.name,
        ) + ".zip"@
    } else {
        "/manga/download/"@ + trimmed(title) + " "@ + trimmed(c.name) + ".zip"@
    }
}

/// The name of the archive entry that holds page `i`.
pub open spec fn page_entry_of(i: nat) -> Seq<char> {
    decimal(i) + ".jpg"@
}

/// The attribute value of each element that carries it.
pub fn attribute_values(els: &Vec<Scraped>) -> (res: Vec<String>)
    requires
        all_have_attr(els@.map_values(|e: Scraped| e@)),
    ensures
        strings_view(res@) == attr_values(els@.map_values(|e: Scraped| e@)),
{
    let ghost view = els@.map_values(|e: Scraped| e@);
    let mut res: Vec<String> = Vec::new();
    for i in 0..els.len()
        invariant
            view == els@.map_values(|e: Scraped| e@),
            all_have_attr(view),
            strings_view(res@) == attr_values(view).take(i as int),
    {
        assert(view[i as int].attr is Some);
        let a = els[i].attr.as_ref().unwrap().clone();
        res.push(a);
        assert(strings_view(res@) == attr_values(view).take(i as int).push(a@));
        assert(attr_values(view).take(i + 1) == attr_values(view).take(i as int).push(a@));
    }
    assert(attr_values(view).take(els.len() as int) == attr_values(view));
    res
}

/// One file of a chapter's archive: its name in the archive and the address of the
/// image it holds.
#[derive(Debug, Clone)]
pub struct ArchiveEntry {
    pub name: String,
    pub url: String,
}

/// What downloading a chapter writes: the archive's path and its entries, in page order.
#[derive(Debug, Clone)]
pub struct DownloadPlan {
    pub path: String,
    pub entries: Vec<ArchiveEntry>,
}

impl ChapterRef {
    /// The address of the page that lists every image of this chapter.
    pub fn list_url(&self) -> (res: String)
        ensures
            res@ == list_url_of(self.url@),
    {
        if ends_with(self.url.as_str(), "?style=list") {
            self.url.clone()
        } else {
            proof {
                reveal_strlit("?style=page");
            }
            let url = replace(self.url.as_str(), "?style=page", "");
            url.concat("?style=list")
        }
    }

    /// The attribute values of the elements, or `None` where one of them lacks it.
    pub fn sources_from(els: &Vec<Scraped>) -> (res: Option<Vec<String>>)
        ensures
            opt_strings_view(res) == sources_of(els@.map_values(|e: Scraped| e@)),
    {
        let ghost view = els@.map_values(|e: Scraped| e@);
        let mut k: usize = 0;
        while k < els.len()
            invariant
                view == els@.map_values(|e: Scraped| e@),
                k <= els.len(),
                forall|m: int| 0 <= m < k ==> (#[trigger] view[m]).attr is Some,
            decreases els.len() - k,
        {
            if els[k].attr.is_none() {
                assert(view[k as int].attr is None);
                assert(!all_have_attr(view));
                return None;
            }
            k = k + 1;
        }
        Some(attribute_values(els))
    }

    /// The image addresses of the pages that the list page `document` shows, or `None`
    /// where one of its page images has no `src`.
    pub fn scan_pages(document: &Document) -> (res: Option<Vec<String>>)
        ensures
            opt_strings_view(res) == page_sources(document@),
    {
        match select_document(document, ".page-image", "src") {
            None => None,
            Some(els) => ChapterRef::sources_from(&els),
        }
    }

    /// Records the page addresses of this chapter; every other field is kept.
    pub fn set_pages(&mut self, pages: Vec<String>)
        ensures
            final(self)@ == with_pages(old(self)@, strings_view(pages@)),
    {
        self.pages = pages;
    }

    /// Records that this chapter's archive has been written; every other field is kept.
    pub fn mark_downloaded(&mut self)
        ensures
            final(self)@ == after_download(old(self)@),
    {
        self.downloaded = true;
    }

    /// Where this chapter's archive is written for the manga `title`.
    pub fn archive_path(&self, title: &str) -> (res: String)
        ensures
            res@ == archive_path_of(title@, self@),
    {
        let mut path = String::from_str("/manga/download/");
        path.append(trim(title).as_str());
        path.append(" ");
        if self.volume_part {
            path.append(trim(self.volume_name.as_str()).as_str());
            path.append(" ");
        }
        path.append(trim(self.name.as_str()).as_str());
        path.append(".zip");
        path
    }

    /// The name of the archive entry that holds page `i`.
    pub fn page_entry_name(i: usize) -> (res: String)
        ensures
            res@ == page_entry_of(i as nat),
    {
        decimal_string(i).concat(".jpg")
    }

    /// The address to fetch for this chapter's page list, or `None` when its pages are
    /// already known and nothing needs fetching.
    pub fn pages_request(&self) -> (res: Option<String>)
        ensures
            match res {
                Some(u) => self.pages.len() == 0 && u@ == list_url_of(self.url@),
                None => self.pages.len() > 0,
            },
    {
        if self.pages.len() > 0 {
            None
        } else {
            Some(self.list_url())
        }
    }

    /// What downloading this chapter of the manga `title` writes, or `None` when the
    /// chapter is already downloaded: the archive path, and for each page `i` an entry
    /// named `i.jpg` holding the image at the page's address.
    pub fn download_plan(&self, title: &str) -> (res: Option<DownloadPlan>)
        ensures
            plan_view(res) == plan_of(title@, self@),
    {
        if self.downloaded {
            return None;
        }
        let path = self.archive_path(title);
        let mut entries: Vec<ArchiveEntry> = Vec::new();
        for i in 0..self.pages.len()
            invariant
                entries.len() == i,
                forall|k: int|
                    0 <= k < i ==> {
                        &&& (#[trigger] entries@[k]).name@ == page_entry_of(k as nat)
                        &&& entries@[k].url@ == self.pages@[k]@
                    },
        {
            let name = ChapterRef::page_entry_name(i);
            let url = self.pages[i].clone();
            entries.push(ArchiveEntry { name, url });
        }
        let plan = DownloadPlan { path, entries };
        assert(plan.entries@.map_values(|e: ArchiveEntry| (e.name@, e.url@)) =~= Seq::new(
            self@.pages.len(),
            |i: int| (page_entry_of(i as nat), self@.pages[i]),
        ));
        Some(plan)
    }
}

} // verus!
