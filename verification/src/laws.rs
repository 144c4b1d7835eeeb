use vstd::prelude::*;
use crate::chapter::{
    after_download, archive_path_of, list_url_of, page_entry_of, page_sources, plan_of, sources_of,
    ChapterView,
};
use crate::manga::{
    chapters_of, cover_of, entry_chapter, flatten, generics_of, manga_of_page, merged, page_chapters,
    page_readable, plot_of, step_into, title_of, volume_chapters, volume_entry, volumes_of,
    read_fields, first_text, first_attr, chapter_entry, listed_chapter,
};
use crate::manga::GenericsView;
use crate::scrape::{document_matches, nested_matches, ScrapedView};
use crate::synclist::{sync_urls, SyncItemView};
use crate::text::{
    decimal, digit_char, has_prefix, has_suffix, is_white_space, replace_all, trim_end, trim_start, trimmed,
};
use crate::volume::VolumeView;

verus! {

/// The list-style address of a chapter ends with `?style=list`, and asking for the
/// list-style address of it again gives the same address.
pub proof fn lemma_list_url_idempotent(url: Seq<char>)
    ensures
        has_suffix(list_url_of(url), "?style=list"@),
        list_url_of(list_url_of(url)) == list_url_of(url),
{
    let l = list_url_of(url);
    if !has_suffix(url, "?style=list"@) {
        let p = "?style=list"@;
        assert(l.skip(l.len() - p.len()) == p);
    }
}

/// Merging keeps every saved chapter, in place and unchanged, and takes the rest from
/// the refreshed list, so the result is as long as the refreshed list.
pub proof fn lemma_merge_keeps_saved(saved: Seq<ChapterView>, fresh: Seq<ChapterView>)
    requires
        saved.len() <= fresh.len(),
    ensures
        merged(saved, fresh).len() == fresh.len(),
        merged(saved, fresh).take(saved.len() as int) == saved,
        forall|i: int| saved.len() <= i < fresh.len() ==> #[trigger] merged(saved, fresh)[i] == fresh[i],
{
    assert(merged(saved, fresh).take(saved.len() as int) == saved);
}

/// Merging the refreshed list into chapters that were themselves merged from it changes
/// nothing: a second sync against an unchanged page keeps the chapters as they are.
pub proof fn lemma_merge_stable(saved: Seq<ChapterView>, fresh: Seq<ChapterView>)
    requires
        saved.len() <= fresh.len(),
    ensures
        merged(merged(saved, fresh), fresh) == merged(saved, fresh),
{
    let m = merged(saved, fresh);
    assert(fresh.skip(m.len() as int) =~= seq![]);
    assert(m + fresh.skip(m.len() as int) =~= m);
}

/// Refreshing a manga from its page keeps the chapters of its saved state in front,
/// as they were saved, and lists as many chapters as the page does.
pub proof fn lemma_refresh_keeps_saved(url: Seq<char>, document: Seq<char>, saved: Seq<ChapterView>)
    ensures
        manga_of_page(url, document, saved) matches Some(m) ==> {
            &&& m.chapters.take(saved.len() as int) == saved
            &&& exists|fresh: Seq<ChapterView>|
                fresh.len() == m.chapters.len() && m.chapters == #[trigger] merged(saved, fresh)
        },
{
    if let Some(m) = manga_of_page(url, document, saved) {
        lemma_merge_keeps_saved(saved, page_chapters(document)->0);
    }
}

/// Every chapter that comes from a volume is marked as belonging to a volume, and its
/// volume name is the name of one of the volumes.
pub proof fn lemma_flatten_marks_volumes(vols: Seq<VolumeView>)
    ensures
        forall|i: int|
            0 <= i < flatten(vols).len() ==> {
                &&& (#[trigger] flatten(vols)[i]).volume_part
                &&& exists|j: int| 0 <= j < vols.len() && flatten(vols)[i].volume_name == vols[j].name
            },
    decreases vols.len(),
{
    if vols.len() > 0 {
        let init = vols.drop_last();
        lemma_flatten_marks_volumes(init);
        let last = vols.last();
        assert forall|i: int| 0 <= i < flatten(vols).len() implies {
            &&& (#[trigger] flatten(vols)[i]).volume_part
            &&& exists|j: int| 0 <= j < vols.len() && flatten(vols)[i].volume_name == vols[j].name
        } by {
            let n = flatten(init).len();
            if i < n {
                assert(flatten(vols)[i] == flatten(init)[i]);
                let j = choose|j: int| 0 <= j < init.len() && flatten(init)[i].volume_name == init[j].name;
                assert(vols[j] == init[j]);
            } else {
                assert(flatten(vols)[i] == volume_chapters(last)[i - n]);
                assert(vols[vols.len() - 1] == last);
            }
        }
    }
}

/// A chapter read from a manga page has no pages yet, is not downloaded and belongs to
/// no volume.
pub proof fn lemma_listed_chapters_fresh(document: Seq<char>, scope: Seq<(Seq<char>, nat)>)
    ensures
        chapters_of(document, scope) matches Some(cs) ==> forall|i: int|
            0 <= i < cs.len() ==> {
                &&& !(#[trigger] cs[i]).downloaded
                &&& cs[i].pages.len() == 0
                &&& !cs[i].volume_part
            },
{
}

/// Once a chapter's archive is written it is not written again: the chapter as marked
/// after a download has nothing to download for any title, marking it again changes
/// nothing, and marking keeps everything but the flag.
pub proof fn lemma_second_download_does_nothing(c: ChapterView, title: Seq<char>)
    ensures
        plan_of(title, after_download(c)) is None,
        after_download(after_download(c)) == after_download(c),
        after_download(c).url == c.url && after_download(c).name == c.name
            && after_download(c).pages == c.pages && after_download(c).volume_part == c.volume_part
            && after_download(c).volume_name == c.volume_name,
{
}

/// No two pages of a chapter share an archive entry name.
pub proof fn lemma_page_entries_distinct(i: nat, j: nat)
    requires
        i != j,
    ensures
        page_entry_of(i) != page_entry_of(j),
{
    if page_entry_of(i) == page_entry_of(j) {
        let a = page_entry_of(i);
        assert(a.take(decimal(i).len() as int) == decimal(i));
        lemma_decimal_len_ordered(i, j);
        assert(page_entry_of(j).take(decimal(j).len() as int) == decimal(j));
        lemma_decimal_injective(i, j);
    }
}

proof fn lemma_decimal_nonempty(n: nat)
    ensures
        decimal(n).len() >= 1,
    decreases n,
{
    if n >= 10 {
        lemma_decimal_nonempty(n / 10);
    }
}

proof fn lemma_decimal_len_ordered(i: nat, j: nat)
    requires
        page_entry_of(i) == page_entry_of(j),
    ensures
        decimal(i).len() == decimal(j).len(),
{
    assert(page_entry_of(i).len() == decimal(i).len() + ".jpg"@.len());
    assert(page_entry_of(j).len() == decimal(j).len() + ".jpg"@.len());
}

proof fn lemma_decimal_injective(i: nat, j: nat)
    requires
        decimal(i) == decimal(j),
    ensures
        i == j,
    decreases i,
{
    let a = decimal(i);
    assert(a.last() == digit_char(i % 10)) by {
        if i >= 10 {
            assert(decimal(i) == decimal(i / 10) + seq![digit_char(i % 10)]);
        }
    }
    assert(a.last() == digit_char(j % 10)) by {
        if j >= 10 {
            assert(decimal(j) == decimal(j / 10) + seq![digit_char(j % 10)]);
        }
    }
    assert(i % 10 == j % 10);
    if i < 10 && j < 10 {
    } else if i >= 10 && j >= 10 {
        lemma_decimal_nonempty(i / 10);
        lemma_decimal_nonempty(j / 10);
        assert(decimal(i / 10) == a.drop_last());
        assert(decimal(j / 10) == a.drop_last());
        lemma_decimal_injective(i / 10, j / 10);
    } else if i >= 10 {
        lemma_decimal_nonempty(i / 10);
    } else {
        lemma_decimal_nonempty(j / 10);
    }
}

/// When no followed manga is marked for sync there is nothing to sync.
pub proof fn lemma_sync_none_marked(items: Seq<SyncItemView>)
    requires
        forall|i: int| 0 <= i < items.len() ==> !(#[trigger] items[i]).sync,
    ensures
        sync_urls(items).len() == 0,
    decreases items.len(),
{
    if items.len() > 0 {
        lemma_sync_none_marked(items.drop_last());
    }
}

/// When every followed manga is marked for sync, every one of them is synced, in list
/// order.
pub proof fn lemma_sync_all_marked(items: Seq<SyncItemView>)
    requires
        forall|i: int| 0 <= i < items.len() ==> (#[trigger] items[i]).sync,
    ensures
        sync_urls(items) == items.map_values(|i: SyncItemView| i.url),
    decreases items.len(),
{
    if items.len() > 0 {
        lemma_sync_all_marked(items.drop_last());
        assert(items.map_values(|i: SyncItemView| i.url) == items.drop_last().map_values(
            |i: SyncItemView| i.url,
        ).push(items.last().url));
    }
}

/// A manga read from a page takes its address, title, cover, plot and descriptive
/// fields from the page alone, whatever chapters were saved: two reads of the same page
/// with different saved chapters differ at most in their chapters, and the page is read
/// whenever it is readable and lists enough chapters.
pub proof fn lemma_page_fields_ignore_saved(
    url: Seq<char>,
    document: Seq<char>,
    saved: Seq<ChapterView>,
    other: Seq<ChapterView>,
)
    ensures
        manga_of_page(url, document, saved) is Some <==> page_readable(document, saved.len()),
        manga_of_page(url, document, saved) matches Some(m) ==> {
            &&& m.url == url
            &&& Some(m.title) == title_of(document)
            &&& Some(m.cover_url) == cover_of(document)
            &&& Some(m.plot) == plot_of(document)
            &&& Some(m.generics) == generics_of(document)
        },
        manga_of_page(url, document, saved) matches Some(m1) ==> manga_of_page(url, document, other) matches Some(m2) ==> {
            &&& m1.title == m2.title
            &&& m1.cover_url == m2.cover_url
            &&& m1.plot == m2.plot
            &&& m1.generics == m2.generics
        },
{
}

/// The chapters listed directly inside an element come out oldest first: one chapter
/// for each `.chapter` element, the last listed first, each read from its own element.
pub proof fn lemma_chapters_reverse_listing(document: Seq<char>, scope: Seq<(Seq<char>, nat)>)
    ensures
        chapters_of(document, scope) matches Some(cs) ==> {
            &&& nested_matches(document, scope, ".chapter"@, ""@) is Some
            &&& cs.len() == nested_matches(document, scope, ".chapter"@, ""@)->0.len()
            &&& forall|i: int|
                0 <= i < cs.len() ==> #[trigger] cs[i] == entry_chapter(
                    document,
                    step_into(scope, ".chapter"@, cs.len() - 1 - i),
                )
        },
{
}

/// Downloading a chapter writes nothing when it is already downloaded; otherwise it
/// writes its archive at the chapter's archive path, with exactly one entry per page,
/// entry `i` named `i.jpg` and holding page `i`.
pub proof fn lemma_plan_one_entry_per_page(title: Seq<char>, c: ChapterView)
    ensures
        plan_of(title, c) is None <==> c.downloaded,
        plan_of(title, c) matches Some(plan) ==> {
            &&& plan.0 == archive_path_of(title, c)
            &&& plan.1.len() == c.pages.len()
            &&& forall|i: int|
                0 <= i < plan.1.len() ==> #[trigger] plan.1[i] == (page_entry_of(i as nat), c.pages[i])
        },
{
}

/// Reading page addresses from page images gives one address per image, in order, each
/// the image's attribute, and succeeds exactly when every image has the attribute.
pub proof fn lemma_sources_one_per_image(els: Seq<ScrapedView>)
    ensures
        sources_of(els) is Some <==> forall|i: int| 0 <= i < els.len() ==> (#[trigger] els[i]).attr is Some,
        sources_of(els) matches Some(ps) ==> {
            &&& ps.len() == els.len()
            &&& forall|i: int| 0 <= i < ps.len() ==> #[trigger] ps[i] == els[i].attr->0
        },
{
}

/// The pages of a chapter list page are the `src` of its `.page-image` elements, one
/// per element, in order.
pub proof fn lemma_page_sources_one_per_image(document: Seq<char>)
    ensures
        page_sources(document) matches Some(ps) ==> {
            &&& document_matches(document, ".page-image"@, "src"@) is Some
            &&& ps.len() == document_matches(document, ".page-image"@, "src"@)->0.len()
            &&& forall|i: int|
                0 <= i < ps.len() ==> #[trigger] ps[i] == document_matches(document, ".page-image"@, "src"@)->0[i].attr->0
        },
{
    if let Some(els) = document_matches(document, ".page-image"@, "src"@) {
        lemma_sources_one_per_image(els);
    }
}

/// The pages to sync are exactly those of the items marked for sync, in list order.
pub proof fn lemma_sync_urls_are_marked_items(items: Seq<SyncItemView>)
    ensures
        sync_urls(items) == items.filter(|i: SyncItemView| i.sync).map_values(|i: SyncItemView| i.url),
    decreases items.len(),
{
    reveal(Seq::filter);
    if items.len() > 0 {
        let init = items.drop_last();
        lemma_sync_urls_are_marked_items(init);
        let p = |i: SyncItemView| i.sync;
        assert(items.filter(p) == if p(items.last()) {
            init.filter(p).push(items.last())
        } else {
            init.filter(p)
        });
        if items.last().sync {
            assert(init.filter(p).push(items.last()).map_values(|i: SyncItemView| i.url)
                == init.filter(p).map_values(|i: SyncItemView| i.url).push(items.last().url));
        }
    } else {
        assert(items.filter(|i: SyncItemView| i.sync) =~= seq![]);
    }
}

/// Some item marked for sync has the page `u`.
pub open spec fn marked_item_has(items: Seq<SyncItemView>, u: Seq<char>) -> bool {
    exists|j: int| 0 <= j < items.len() && items[j].sync && items[j].url == u
}

/// Every page chosen for sync belongs to an item marked for sync, and every item marked
/// for sync is chosen.
#[verifier::spinoff_prover]
pub proof fn lemma_sync_urls_membership(items: Seq<SyncItemView>)
    ensures
        forall|k: int| 0 <= k < sync_urls(items).len() ==> marked_item_has(items, #[trigger] sync_urls(items)[k]),
        forall|j: int| 0 <= j < items.len() && (#[trigger] items[j]).sync ==> sync_urls(items).contains(items[j].url),
    decreases items.len(),
{
    if items.len() > 0 {
        let init = items.drop_last();
        lemma_sync_urls_membership(init);
        assert forall|k: int| 0 <= k < sync_urls(items).len() implies marked_item_has(
            items,
            #[trigger] sync_urls(items)[k],
        ) by {
            if k < sync_urls(init).len() {
                assert(sync_urls(items)[k] == sync_urls(init)[k]);
                assert(marked_item_has(init, sync_urls(init)[k]));
                let j = choose|j: int| 0 <= j < init.len() && init[j].sync && init[j].url == sync_urls(init)[k];
                assert(items[j] == init[j]);
            } else {
                assert(items[items.len() - 1] == items.last());
            }
        }
        assert forall|j: int| 0 <= j < items.len() && (#[trigger] items[j]).sync implies sync_urls(items).contains(items[j].url) by {
            if j < init.len() {
                assert(items[j] == init[j]);
                let k = choose|k: int| 0 <= k < sync_urls(init).len() && sync_urls(init)[k] == init[j].url;
                assert(sync_urls(items)[k] == sync_urls(init)[k]);
            } else {
                assert(sync_urls(items).last() == items[j].url);
            }
        }
    }
}

/// Each chapter read from a `.chapter` element is named by the first text of its first
/// `span.d-inline-block`, with `Capitolo ` written `c`, and found at the `href` of its
/// first `a.chap`; it has no pages, is not downloaded and belongs to no volume.
pub proof fn lemma_entry_chapter_fields(document: Seq<char>, path: Seq<(Seq<char>, nat)>)
    ensures
        chapter_entry(document, path) is Some ==> {
            let c = entry_chapter(document, path);
            &&& c.name == replace_all(
                first_text(nested_matches(document, path, "span.d-inline-block"@, ""@))->0,
                "Capitolo "@,
                "c"@,
            )
            &&& Some(c.url) == first_attr(nested_matches(document, path, "a.chap"@, "href"@))
            &&& !c.downloaded && c.pages.len() == 0 && !c.volume_part && c.volume_name.len() == 0
        },
{
}

/// The volumes of a chapter list come out oldest first: one volume for each
/// `.volume-element`, the last listed first, each read from its own element, named by
/// the first text of its `.volume-name` with `Volume ` written `vol` and holding the
/// chapters listed inside it.
pub proof fn lemma_volumes_reverse_listing(document: Seq<char>, scope: Seq<(Seq<char>, nat)>)
    ensures
        volumes_of(document, scope) matches Some(vs) ==> {
            &&& nested_matches(document, scope, ".volume-element"@, ""@) is Some
            &&& vs.len() == nested_matches(document, scope, ".volume-element"@, ""@)->0.len()
            &&& forall|i: int|
                0 <= i < vs.len() ==> {
                    let path = step_into(scope, ".volume-element"@, vs.len() - 1 - i);
                    &&& Some(#[trigger] vs[i].chapters) == chapters_of(document, path)
                    &&& vs[i].name == replace_all(
                        first_text(nested_matches(document, path, ".volume-name"@, ""@))->0,
                        "Volume "@,
                        "vol"@,
                    )
                }
        },
{
    if let Some(vs) = volumes_of(document, scope) {
        assert forall|i: int| 0 <= i < vs.len() implies {
            let path = step_into(scope, ".volume-element"@, vs.len() - 1 - i);
            &&& Some(#[trigger] vs[i].chapters) == chapters_of(document, path)
            &&& vs[i].name == replace_all(
                first_text(nested_matches(document, path, ".volume-name"@, ""@))->0,
                "Volume "@,
                "vol"@,
            )
        } by {
            let n = vs.len();
            let path = step_into(scope, ".volume-element"@, n - 1 - i);
            assert(volume_entry(document, path) is Some);
        }
    }
}

/// The chapters of a page are those of its volumes, volume after volume, each marked
/// with its volume's name and otherwise as listed; only when the volumes hold no
/// chapter are the chapters listed directly inside the list taken instead.
pub proof fn lemma_page_chapters_from_volumes(document: Seq<char>)
    ensures
        page_chapters(document) matches Some(cs) ==> {
            let vols = volumes_of(document, crate::manga::wrapper_path())->0;
            let by_volume = vols.map_values(
                |v: VolumeView| v.chapters.map_values(|c: ChapterView| ChapterView { volume_part: true, volume_name: v.name, ..c }),
            ).flatten();
            &&& volumes_of(document, crate::manga::wrapper_path()) is Some
            &&& by_volume.len() > 0 ==> cs == by_volume
            &&& by_volume.len() == 0 ==> Some(cs) == chapters_of(document, crate::manga::wrapper_path())
        },
{
    if let Some(vols) = volumes_of(document, crate::manga::wrapper_path()) {
        lemma_flatten_concatenates(vols);
    }
}

/// Flattening volumes concatenates, volume after volume, each volume's chapters marked
/// with that volume's name, every other field kept.
pub proof fn lemma_flatten_concatenates(vols: Seq<VolumeView>)
    ensures
        flatten(vols) == vols.map_values(
            |v: VolumeView| v.chapters.map_values(|c: ChapterView| ChapterView { volume_part: true, volume_name: v.name, ..c }),
        ).flatten(),
    decreases vols.len(),
{
    let f = |v: VolumeView| v.chapters.map_values(|c: ChapterView| ChapterView { volume_part: true, volume_name: v.name, ..c });
    if vols.len() == 0 {
        assert(vols.map_values(f) =~= seq![]);
    } else {
        let init = vols.drop_last();
        lemma_flatten_concatenates(init);
        assert(vols.map_values(f) == init.map_values(f).push(f(vols.last())));
        init.map_values(f).lemma_flatten_push(f(vols.last()));
        assert(volume_chapters(vols.last()) =~= f(vols.last()));
    }
}

/// The heading tests of the descriptive fields, in the order in which a heading is tried.
pub open spec fn genres_heading(h: Seq<char>) -> bool {
    has_prefix(h, "Generi"@)
}

/// A heading that gives the authors.
pub open spec fn authors_heading(h: Seq<char>) -> bool {
    !genres_heading(h) && (has_prefix(h, "Autore"@) || has_prefix(h, "Autori"@))
}

/// A heading that gives the artists.
pub open spec fn artists_heading(h: Seq<char>) -> bool {
    !genres_heading(h) && !(has_prefix(h, "Autore"@) || has_prefix(h, "Autori"@)) && (has_prefix(
        h,
        "Artista"@,
    ) || has_prefix(h, "Artisti"@))
}

/// A heading that gives the year.
pub open spec fn year_heading(h: Seq<char>) -> bool {
    !genres_heading(h) && !(has_prefix(h, "Autore"@) || has_prefix(h, "Autori"@)) && !(has_prefix(
        h,
        "Artista"@,
    ) || has_prefix(h, "Artisti"@)) && has_prefix(h, "Anno di uscita"@)
}

/// The genres are the texts after the heading of the last field headed `Generi`, and
/// empty when no field has that heading.
#[verifier::spinoff_prover]
pub proof fn lemma_genres_from_last_heading(fields: Seq<Seq<Seq<char>>>)
    ensures
        forall|i: int|
            0 <= i < fields.len() && genres_heading(fields[i][0]) && (forall|j: int|
                i < j < fields.len() ==> !genres_heading(#[trigger] fields[j][0]))
                ==> read_fields(fields).genres == (#[trigger] fields[i]).drop_first(),
        (forall|j: int| 0 <= j < fields.len() ==> !genres_heading(#[trigger] fields[j][0]))
            ==> read_fields(fields).genres.len() == 0,
    decreases fields.len(),
{
    if fields.len() > 0 {
        let init = fields.drop_last();
        lemma_genres_from_last_heading(init);
        let n = fields.len() - 1;
        let last = fields[n];
        assert(fields.last() == last);
        assert(fields.drop_last() == init);
        assert forall|j: int| 0 <= j < init.len() implies #[trigger] init[j] == fields[j] by {}
        if genres_heading(last[0]) {
            assert(read_fields(fields).genres == last.drop_first());
        } else {
            assert(read_fields(fields).genres == read_fields(init).genres);
        }
        assert forall|i: int|
            0 <= i < fields.len() && genres_heading(fields[i][0]) && (forall|j: int|
                i < j < fields.len() ==> !genres_heading(#[trigger] fields[j][0]))
                implies read_fields(fields).genres == fields[i].drop_first() by {
            if i < n {
                assert(!genres_heading(fields[n][0]));
                assert forall|j: int| i < j < init.len() implies !genres_heading(#[trigger] init[j][0]) by {
                    assert(init[j] == fields[j]);
                    assert(!genres_heading(fields[j][0]));
                }
                assert(init[i] == fields[i]);
            }
        }
        if forall|j: int| 0 <= j < fields.len() ==> !genres_heading(#[trigger] fields[j][0]) {
            assert(!genres_heading(fields[n][0]));
            assert forall|j: int| 0 <= j < init.len() implies !genres_heading(#[trigger] init[j][0]) by {
                assert(init[j] == fields[j]);
                assert(!genres_heading(fields[j][0]));
            }
        }
    }
}

/// The authors are the texts after the heading of the last field headed `Autore` or
/// `Autori`, and empty when no field has such a heading.
#[verifier::spinoff_prover]
pub proof fn lemma_authors_from_last_heading(fields: Seq<Seq<Seq<char>>>)
    ensures
        forall|i: int|
            0 <= i < fields.len() && authors_heading(fields[i][0]) && (forall|j: int|
                i < j < fields.len() ==> !authors_heading(#[trigger] fields[j][0]))
                ==> read_fields(fields).authors == (#[trigger] fields[i]).drop_first(),
        (forall|j: int| 0 <= j < fields.len() ==> !authors_heading(#[trigger] fields[j][0]))
            ==> read_fields(fields).authors.len() == 0,
    decreases fields.len(),
{
    if fields.len() > 0 {
        let init = fields.drop_last();
        lemma_authors_from_last_heading(init);
        let n = fields.len() - 1;
        let last = fields[n];
        assert(fields.last() == last);
        assert(fields.drop_last() == init);
        assert forall|j: int| 0 <= j < init.len() implies #[trigger] init[j] == fields[j] by {}
        if authors_heading(last[0]) {
            assert(read_fields(fields).authors == last.drop_first());
        } else {
            assert(read_fields(fields).authors == read_fields(init).authors);
        }
        assert forall|i: int|
            0 <= i < fields.len() && authors_heading(fields[i][0]) && (forall|j: int|
                i < j < fields.len() ==> !authors_heading(#[trigger] fields[j][0]))
                implies read_fields(fields).authors == fields[i].drop_first() by {
            if i < n {
                assert(!authors_heading(fields[n][0]));
                assert forall|j: int| i < j < init.len() implies !authors_heading(#[trigger] init[j][0]) by {
                    assert(init[j] == fields[j]);
                    assert(!authors_heading(fields[j][0]));
                }
                assert(init[i] == fields[i]);
            }
        }
        if forall|j: int| 0 <= j < fields.len() ==> !authors_heading(#[trigger] fields[j][0]) {
            assert(!authors_heading(fields[n][0]));
            assert forall|j: int| 0 <= j < init.len() implies !authors_heading(#[trigger] init[j][0]) by {
                assert(init[j] == fields[j]);
                assert(!authors_heading(fields[j][0]));
            }
        }
    }
}

/// The artists are the texts after the heading of the last field headed `Artista` or
/// `Artisti`, and empty when no field has such a heading.
#[verifier::spinoff_prover]
pub proof fn lemma_artists_from_last_heading(fields: Seq<Seq<Seq<char>>>)
    ensures
        forall|i: int|
            0 <= i < fields.len() && artists_heading(fields[i][0]) && (forall|j: int|
                i < j < fields.len() ==> !artists_heading(#[trigger] fields[j][0]))
                ==> read_fields(fields).artists == (#[trigger] fields[i]).drop_first(),
        (forall|j: int| 0 <= j < fields.len() ==> !artists_heading(#[trigger] fields[j][0]))
            ==> read_fields(fields).artists.len() == 0,
    decreases fields.len(),
{
    if fields.len() > 0 {
        let init = fields.drop_last();
        lemma_artists_from_last_heading(init);
        let n = fields.len() - 1;
        let last = fields[n];
        assert(fields.last() == last);
        assert(fields.drop_last() == init);
        assert forall|j: int| 0 <= j < init.len() implies #[trigger] init[j] == fields[j] by {}
        if artists_heading(last[0]) {
            assert(read_fields(fields).artists == last.drop_first());
        } else {
            assert(read_fields(fields).artists == read_fields(init).artists);
        }
        assert forall|i: int|
            0 <= i < fields.len() && artists_heading(fields[i][0]) && (forall|j: int|
                i < j < fields.len() ==> !artists_heading(#[trigger] fields[j][0]))
                implies read_fields(fields).artists == fields[i].drop_first() by {
            if i < n {
                assert(!artists_heading(fields[n][0]));
                assert forall|j: int| i < j < init.len() implies !artists_heading(#[trigger] init[j][0]) by {
                    assert(init[j] == fields[j]);
                    assert(!artists_heading(fields[j][0]));
                }
                assert(init[i] == fields[i]);
            }
        }
        if forall|j: int| 0 <= j < fields.len() ==> !artists_heading(#[trigger] fields[j][0]) {
            assert(!artists_heading(fields[n][0]));
            assert forall|j: int| 0 <= j < init.len() implies !artists_heading(#[trigger] init[j][0]) by {
                assert(init[j] == fields[j]);
                assert(!artists_heading(fields[j][0]));
            }
        }
    }
}

/// The year is the text right after the heading of the last field headed
/// `Anno di uscita`, and empty when no field has that heading.
#[verifier::spinoff_prover]
pub proof fn lemma_year_from_last_heading(fields: Seq<Seq<Seq<char>>>)
    ensures
        forall|i: int|
            0 <= i < fields.len() && year_heading(fields[i][0]) && (forall|j: int|
                i < j < fields.len() ==> !year_heading(#[trigger] fields[j][0]))
                ==> read_fields(fields).year_start == (#[trigger] fields[i])[1],
        (forall|j: int| 0 <= j < fields.len() ==> !year_heading(#[trigger] fields[j][0]))
            ==> read_fields(fields).year_start.len() == 0,
    decreases fields.len(),
{
    if fields.len() > 0 {
        let init = fields.drop_last();
        lemma_year_from_last_heading(init);
        let n = fields.len() - 1;
        let last = fields[n];
        assert(fields.last() == last);
        assert(fields.drop_last() == init);
        assert forall|j: int| 0 <= j < init.len() implies #[trigger] init[j] == fields[j] by {}
        if year_heading(last[0]) {
            assert(read_fields(fields).year_start == last[1]);
        } else {
            assert(read_fields(fields).year_start == read_fields(init).year_start);
        }
        assert forall|i: int|
            0 <= i < fields.len() && year_heading(fields[i][0]) && (forall|j: int|
                i < j < fields.len() ==> !year_heading(#[trigger] fields[j][0]))
                implies read_fields(fields).year_start == fields[i][1] by {
            if i < n {
                assert(!year_heading(fields[n][0]));
                assert forall|j: int| i < j < init.len() implies !year_heading(#[trigger] init[j][0]) by {
                    assert(init[j] == fields[j]);
                    assert(!year_heading(fields[j][0]));
                }
                assert(init[i] == fields[i]);
            }
        }
        if forall|j: int| 0 <= j < fields.len() ==> !year_heading(#[trigger] fields[j][0]) {
            assert(!year_heading(fields[n][0]));
            assert forall|j: int| 0 <= j < init.len() implies !year_heading(#[trigger] init[j][0]) by {
                assert(init[j] == fields[j]);
                assert(!year_heading(fields[j][0]));
            }
        }
    }
}

/// Replacing a text that does not occur leaves the text as it is.
pub proof fn lemma_replace_absent(s: Seq<char>, pat: Seq<char>, rep: Seq<char>)
    requires
        forall|k: int| 0 <= k <= s.len() ==> !has_prefix(#[trigger] s.skip(k), pat),
    ensures
        replace_all(s, pat, rep) == s,
    decreases s.len(),
{
    if s.len() > 0 && pat.len() > 0 {
        let t = s.drop_first();
        assert forall|k: int| 0 <= k <= t.len() implies !has_prefix(#[trigger] t.skip(k), pat) by {
            assert(t.skip(k) == s.skip(k + 1));
        }
        assert(s.skip(0) == s);
        lemma_replace_absent(t, pat, rep);
        assert(seq![s[0]] + t == s);
    }
}

/// The list-style address of a chapter already in the list style is the address
/// itself, and that of an address with no `?style=page` in it is the address followed
/// by `?style=list`.
pub proof fn lemma_list_url_cases(url: Seq<char>)
    ensures
        has_suffix(url, "?style=list"@) ==> list_url_of(url) == url,
        !has_suffix(url, "?style=list"@) && (forall|k: int|
            0 <= k <= url.len() ==> !has_prefix(#[trigger] url.skip(k), "?style=page"@))
            ==> list_url_of(url) == url + "?style=list"@,
{
    if !has_suffix(url, "?style=list"@) && (forall|k: int|
        0 <= k <= url.len() ==> !has_prefix(#[trigger] url.skip(k), "?style=page"@)) {
        lemma_replace_absent(url, "?style=page"@, ""@);
    }
}

/// The numeric value of a string of decimal digits.
pub open spec fn digits_value(s: Seq<char>) -> int
    decreases s.len(),
{
    if s.len() == 0 {
        0
    } else {
        digits_value(s.drop_last()) * 10 + ((s.last() as u32) - 48)
    }
}

/// The decimal form of a number is made of digits, starts with a digit other than zero
/// unless the number is zero, and reads back as the number.
pub proof fn lemma_decimal_reads_back(n: nat)
    ensures
        digits_value(decimal(n)) == n,
        decimal(n).len() > 0,
        forall|k: int| 0 <= k < decimal(n).len() ==> '0' <= #[trigger] decimal(n)[k] <= '9',
        n > 0 ==> decimal(n)[0] != '0',
    decreases n,
{
    lemma_digit_code(n % 10);
    if n < 10 {
        assert(decimal(n) == seq![digit_char(n)]);
        assert(decimal(n).drop_last() =~= seq![]);
        assert(digits_value(decimal(n)) == digits_value(decimal(n).drop_last()) * 10 + ((
        decimal(n).last() as u32) - 48));
    }
    if n >= 10 {
        lemma_decimal_reads_back(n / 10);
        let d = decimal(n);
        assert(d.drop_last() == decimal(n / 10));
        assert(d.last() == digit_char(n % 10));
        assert forall|k: int| 0 <= k < d.len() implies '0' <= #[trigger] d[k] <= '9' by {
            if k < d.len() - 1 {
                assert(d[k] == decimal(n / 10)[k]);
            }
        }
        assert(d[0] == decimal(n / 10)[0]);
        assert(digits_value(d) == digits_value(d.drop_last()) * 10 + ((d.last() as u32) - 48));
        assert((n / 10) * 10 + n % 10 == n);
    }
}

proof fn lemma_digit_code(d: nat)
    requires
        d < 10,
    ensures
        (digit_char(d) as u32) == d + 48,
        '0' <= digit_char(d) <= '9',
{
}

/// Trimming keeps a contiguous part of the text: everything before and after it is white
/// space, and when it is not empty it starts and ends with characters that are not.
pub proof fn lemma_trim_keeps_middle(s: Seq<char>)
    ensures
        exists|a: int, b: int|
            {
                &&& 0 <= a <= b <= s.len()
                &&& trimmed(s) == s.subrange(a, b)
                &&& forall|k: int| 0 <= k < a ==> is_white_space(#[trigger] s[k])
                &&& forall|k: int| b <= k < s.len() ==> is_white_space(#[trigger] s[k])
                &&& a < b ==> !is_white_space(s[a]) && !is_white_space(s[b - 1])
            },
{
    let a = lemma_trim_start_index(s);
    let t = s.skip(a);
    let m = lemma_trim_end_index(t);
    let b = a + m;
    assert(trimmed(s) == s.subrange(a, b)) by {
        assert(t.take(m) == s.subrange(a, b));
    }
    assert forall|k: int| b <= k < s.len() implies is_white_space(#[trigger] s[k]) by {
        assert(s[k] == t[k - a]);
    }
    if a < b {
        assert(s[b - 1] == t[m - 1]);
    }
}

proof fn lemma_trim_start_index(s: Seq<char>) -> (a: int)
    ensures
        0 <= a <= s.len(),
        trim_start(s) == s.skip(a),
        forall|k: int| 0 <= k < a ==> is_white_space(#[trigger] s[k]),
        a == s.len() || !is_white_space(s[a]),
    decreases s.len(),
{
    if s.len() > 0 && is_white_space(s[0]) {
        let t = s.drop_first();
        let a0 = lemma_trim_start_index(t);
        assert(t.skip(a0) == s.skip(a0 + 1));
        assert forall|k: int| 0 <= k < a0 + 1 implies is_white_space(#[trigger] s[k]) by {
            if k > 0 {
                assert(s[k] == t[k - 1]);
            }
        }
        a0 + 1
    } else {
        assert(s.skip(0) == s);
        0
    }
}

proof fn lemma_trim_end_index(s: Seq<char>) -> (b: int)
    ensures
        0 <= b <= s.len(),
        trim_end(s) == s.take(b),
        forall|k: int| b <= k < s.len() ==> is_white_space(#[trigger] s[k]),
        b == 0 || !is_white_space(s[b - 1]),
    decreases s.len(),
{
    if s.len() > 0 && is_white_space(s.last()) {
        let t = s.drop_last();
        let b0 = lemma_trim_end_index(t);
        assert(t.take(b0) == s.take(b0));
        assert forall|k: int| b0 <= k < s.len() implies is_white_space(#[trigger] s[k]) by {
            if k < s.len() - 1 {
                assert(s[k] == t[k]);
            }
        }
        if b0 > 0 {
            assert(s[b0 - 1] == t[b0 - 1]);
        }
        b0
    } else {
        assert(s.take(s.len() as int) == s);
        s.len() as int
    }
}

} // verus!
