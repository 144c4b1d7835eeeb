use manga_sync::chapter::ChapterRef;
use manga_sync::scrape::{Document, Step};
use manga_sync::manga::{Manga, MangaGenerics};
use manga_sync::synclist::{SyncItem, Synclist};
use manga_sync::text::{decimal_string, ends_with, replace, starts_with, trim};
use manga_sync::volume::Volume;

const PAGE_HEAD: &str = "<html><head><title>t</title></head><body>\
<div class=\"single-comic\"><img src=\"https://cdn.example/cover.jpg\"></div>\
<div class=\"info\"><h1 class=\"name bigger\">One Piece</h1>\
<div class=\"meta-data row\">\
<div class=\"col-12\"><span>Generi: </span><a>Azione</a><a>Avventura</a></div>\
<div class=\"col-12\"><span>Autore: </span><a>Eiichiro Oda</a></div>\
<div class=\"col-12\"><span>Artista: </span><a>E. Oda</a></div>\
<div class=\"col-12\"><span>Anno di uscita: </span><a>1997</a></div>\
</div></div>\
<div id=\"noidungm\">A pirate story.</div>\
<div class=\"chapters-wrapper\">";

const WRAPPER_INNER: &str = "\
<div class=\"volume-element\"><p class=\"volume-name\">Volume 02</p>\
<div class=\"chapter\"><a class=\"chap\" href=\"https://x.example/ch3\"><span class=\"d-inline-block\">Capitolo 03</span></a></div>\
<div class=\"chapter\"><a class=\"chap\" href=\"https://x.example/ch2\"><span class=\"d-inline-block\">Capitolo 02</span></a></div>\
</div>\
<div class=\"volume-element\"><p class=\"volume-name\">Volume 01</p>\
<div class=\"chapter\"><a class=\"chap\" href=\"https://x.example/ch1\"><span class=\"d-inline-block\">Capitolo 01</span></a></div>\
</div>\
";

fn page() -> String {
    format!("{}{}</div></body></html>", PAGE_HEAD, WRAPPER_INNER)
}

const LOOSE_PAGE: &str = "<html><body>\
<div class=\"single-comic\"><img src=\"c.png\"></div>\
<div class=\"info\"><h1 class=\"name bigger\">Solo</h1>\
<div class=\"meta-data\"><div class=\"col-12\"><span>Generi: </span><a>Drama</a></div></div></div>\
<div id=\"noidungm\">Plot.</div>\
<div class=\"chapters-wrapper\">\
<div class=\"chapter\"><a class=\"chap\" href=\"u2\"><span class=\"d-inline-block\">Capitolo 2</span></a></div>\
<div class=\"chapter\"><a class=\"chap\" href=\"u1\"><span class=\"d-inline-block\">Capitolo 1</span></a></div>\
</div></body></html>";

fn doc(html: &str) -> Document {
    Document::parse(html)
}

fn wrapper_scope() -> Vec<Step> {
    vec![Step { selector: ".chapters-wrapper".to_string(), index: 0 }]
}

fn chapter(name: &str, url: &str) -> ChapterRef {
    ChapterRef {
        url: url.to_string(),
        name: name.to_string(),
        downloaded: false,
        pages: Vec::new(),
        volume_part: false,
        volume_name: String::new(),
    }
}

#[test]
fn new_empty_is_empty() {
    let m = Manga::new_empty();
    assert!(m.url.is_empty() && m.title.is_empty() && m.cover_url.is_empty() && m.plot.is_empty());
    assert!(m.chapters.is_empty());
    let g = MangaGenerics::new_empty();
    assert!(g.genres.is_empty() && g.authors.is_empty() && g.artists.is_empty() && g.year_start.is_empty());
}

#[test]
fn trim_removes_unicode_white_space() {
    assert_eq!(trim("  a b \t\n"), "a b");
    assert_eq!(trim("\u{3000}\u{a0}x\u{2029}"), "x");
    assert_eq!(trim(" \u{85} "), "");
    assert_eq!(trim("x\u{200b}"), "x\u{200b}");
    for s in ["", "abc", "  lead", "trail  ", "\u{1680}mid dle\u{205f}"] {
        assert_eq!(trim(s), s.trim());
    }
}

#[test]
fn replace_matches_std() {
    assert_eq!(replace("Capitolo 12", "Capitolo ", "c"), "c12");
    assert_eq!(replace("aaaa", "aa", "b"), "bb");
    assert_eq!(replace("aaa", "aa", "b"), "ba");
    assert_eq!(replace("x?style=page?style=page", "?style=page", ""), "x");
    for (s, p, r) in [("abcabc", "bc", "X"), ("", "a", "b"), ("Volume 3 Volume", "Volume ", "vol")] {
        assert_eq!(replace(s, p, r), s.replace(p, r));
    }
}

#[test]
fn prefix_and_suffix_tests() {
    assert!(starts_with("Generi: x", "Generi"));
    assert!(!starts_with("Gen", "Generi"));
    assert!(ends_with("u?style=list", "?style=list"));
    assert!(!ends_with("list", "?style=list"));
    assert!(starts_with("any", ""));
}

#[test]
fn decimal_matches_display() {
    for n in [0usize, 7, 9, 10, 42, 100, 1234567890, usize::MAX] {
        assert_eq!(decimal_string(n), n.to_string());
    }
}

#[test]
fn state_path_lowercases_then_trims() {
    assert_eq!(Manga::state_path("  One PIECE "), "/manga/state/one piece.json");
    assert_eq!(Manga::state_path("ÀB\u{3000}"), "/manga/state/àb.json");
    assert_eq!(Manga::state_path("x"), "/manga/state/x.json");
}

#[test]
fn list_url_forms() {
    let mut c = chapter("c1", "https://x.example/read/1?style=page");
    assert_eq!(c.list_url(), "https://x.example/read/1?style=list");
    c.url = "https://x.example/read/1".to_string();
    assert_eq!(c.list_url(), "https://x.example/read/1?style=list");
    c.url = "https://x.example/read/1?style=list".to_string();
    assert_eq!(c.list_url(), "https://x.example/read/1?style=list");
}

#[test]
fn list_url_is_idempotent() {
    for u in ["a", "a?style=page", "a?style=list", "?style=page?style=list", ""] {
        let c = chapter("n", u);
        let once = c.list_url();
        let again = chapter("n", &once).list_url();
        assert_eq!(once, again);
        assert!(once.ends_with("?style=list"));
    }
}

#[test]
fn pages_request_only_when_pages_unknown() {
    let mut c = chapter("c1", "https://x.example/1");
    assert_eq!(c.pages_request(), Some("https://x.example/1?style=list".to_string()));
    c.pages = vec!["p".to_string()];
    assert_eq!(c.pages_request(), None);
}

#[test]
fn scan_pages_reads_sources() {
    let html = "<html><body><img class=\"page-image\" src=\"https://cdn/1.jpg\"><div><img class=\"page-image\" src=\"https://cdn/2.jpg\"></div><img src=\"no.jpg\"></body></html>";
    assert_eq!(
        ChapterRef::scan_pages(&doc(html)),
        Some(vec!["https://cdn/1.jpg".to_string(), "https://cdn/2.jpg".to_string()])
    );
    assert_eq!(ChapterRef::scan_pages(&doc("<p>nothing</p>")), Some(Vec::new()));
    assert_eq!(ChapterRef::scan_pages(&doc("<img class=\"page-image\">")), None);
}

#[test]
fn archive_path_with_and_without_volume() {
    let mut c = chapter(" c05 ", "u");
    assert_eq!(c.archive_path(" One Piece "), "/manga/download/One Piece c05.zip");
    c.volume_part = true;
    c.volume_name = "vol01 ".to_string();
    assert_eq!(c.archive_path("One Piece"), "/manga/download/One Piece vol01 c05.zip");
}

#[test]
fn page_entry_names() {
    assert_eq!(ChapterRef::page_entry_name(0), "0.jpg");
    assert_eq!(ChapterRef::page_entry_name(12), "12.jpg");
}

#[test]
fn download_plan_lists_pages_in_order() {
    let mut c = chapter("c1", "u");
    c.pages = vec!["p0".to_string(), "p1".to_string(), "p2".to_string()];
    let plan = c.download_plan("T").unwrap();
    assert_eq!(plan.path, "/manga/download/T c1.zip");
    let names: Vec<&str> = plan.entries.iter().map(|e| e.name.as_str()).collect();
    let urls: Vec<&str> = plan.entries.iter().map(|e| e.url.as_str()).collect();
    assert_eq!(names, vec!["0.jpg", "1.jpg", "2.jpg"]);
    assert_eq!(urls, vec!["p0", "p1", "p2"]);
    c.downloaded = true;
    assert!(c.download_plan("T").is_none());
}

#[test]
fn page_entry_names_are_distinct() {
    let names: Vec<String> = (0..200).map(ChapterRef::page_entry_name).collect();
    for i in 0..names.len() {
        for j in 0..names.len() {
            if i != j {
                assert_ne!(names[i], names[j]);
            }
        }
    }
}

#[test]
fn page_fields() {
    let d = doc(&page());
    assert_eq!(Manga::scan_title(&d), Some("One Piece".to_string()));
    assert_eq!(Manga::get_title(&d), "One Piece");
    assert_eq!(Manga::scan_cover_url(&d), Some("https://cdn.example/cover.jpg".to_string()));
    assert_eq!(Manga::get_cover_url(&d), "https://cdn.example/cover.jpg");
    assert_eq!(Manga::scan_plot(&d), Some("A pirate story.".to_string()));
    assert_eq!(Manga::get_plot(&d), "A pirate story.");
    assert_eq!(Manga::scan_title(&doc("<p>no title</p>")), None);
    assert_eq!(Manga::scan_cover_url(&doc("<div class=\"single-comic\"><img></div>")), None);
}

#[test]
fn generics_from_fields() {
    let meta = "<div class=\"col-12\"><span>Generi: </span><a>Azione</a><a>Avventura</a></div>\
<div class=\"col-12\"><span>Autori: </span><a>A</a><a>B</a></div>\
<div class=\"col-12\"><span>Artisti: </span><a>C</a></div>\
<div class=\"col-12\"><span>Anno di uscita: </span><a>1997</a></div>\
<div class=\"col-12\"><span>Stato: </span><a>In corso</a></div>";
    let d = doc(&format!("<div class=\"meta-data\">{}</div>", meta));
    let g = Manga::scan_generics(&d).unwrap();
    assert_eq!(Manga::get_generics(&d).year_start, "1997");
    assert_eq!(g.genres, vec!["Azione".to_string(), "Avventura".to_string()]);
    assert_eq!(g.authors, vec!["A".to_string(), "B".to_string()]);
    assert_eq!(g.artists, vec!["C".to_string()]);
    assert_eq!(g.year_start, "1997");
    assert!(Manga::scan_generics(&doc("<div class=\"meta-data\"><div class=\"col-12\"><span>Anno di uscita</span></div></div>")).is_none());
    assert!(Manga::scan_generics(&doc("<div class=\"meta-data\"><div class=\"col-12\"></div></div>")).is_none());
    assert!(Manga::scan_generics(&doc("<div class=\"col-12\"><span>Generi</span></div>")).is_none());
}

#[test]
fn later_field_replaces_earlier() {
    let fields = vec![
        vec!["Generi".to_string(), "a".to_string()],
        vec!["Generi".to_string(), "b".to_string(), "c".to_string()],
    ];
    let g = Manga::read_generics(&fields);
    assert_eq!(g.genres, vec!["b".to_string(), "c".to_string()]);
}

#[test]
fn chapters_are_reversed_and_renamed() {
    let scope = "<div class=\"chapter\"><a class=\"chap\" href=\"u2\"><span class=\"d-inline-block\">Capitolo 2</span></a></div>\
<div class=\"chapter\"><a class=\"chap\" href=\"u1\"><span class=\"d-inline-block\">Capitolo 1</span></a></div>";
    let d = doc(&format!("<div class=\"chapters-wrapper\">{}</div>", scope));
    let cs = Manga::scan_chapters(&d, &wrapper_scope()).unwrap();
    assert_eq!(Manga::get_chapters(&d, &wrapper_scope()).len(), 2);
    assert_eq!(cs.len(), 2);
    assert_eq!((cs[0].name.as_str(), cs[0].url.as_str()), ("c1", "u1"));
    assert_eq!((cs[1].name.as_str(), cs[1].url.as_str()), ("c2", "u2"));
    for c in &cs {
        assert!(!c.downloaded && c.pages.is_empty() && !c.volume_part && c.volume_name.is_empty());
    }
    let bad = doc("<div class=\"chapters-wrapper\"><div class=\"chapter\"><span class=\"d-inline-block\">x</span></div></div>");
    assert!(Manga::scan_chapters(&bad, &wrapper_scope()).is_none());
    assert!(Manga::scan_chapters(&doc("<p></p>"), &wrapper_scope()).is_none());
}

#[test]
fn volumes_and_flattening() {
    let d = doc(&page());
    let vols = Manga::scan_volumes(&d, &wrapper_scope()).unwrap();
    assert_eq!(Manga::get_volumes(&d, &wrapper_scope()).len(), 2);
    let names: Vec<&str> = vols.iter().map(|v| v.name.as_str()).collect();
    assert_eq!(names, vec!["vol01", "vol02"]);
    let flat = Manga::flatten_volumes(vols);
    let got: Vec<(&str, &str, bool)> = flat
        .iter()
        .map(|c| (c.name.as_str(), c.volume_name.as_str(), c.volume_part))
        .collect();
    assert_eq!(got, vec![("c01", "vol01", true), ("c02", "vol02", true), ("c03", "vol02", true)]);
}

#[test]
fn flatten_keeps_chapter_state() {
    let mut c = chapter("c9", "u9");
    c.downloaded = true;
    c.pages = vec!["p".to_string()];
    let flat = Manga::flatten_volumes(vec![
        Volume { name: "v1".to_string(), chapters: vec![] },
        Volume { name: "v2".to_string(), chapters: vec![c] },
    ]);
    assert_eq!(flat.len(), 1);
    assert!(flat[0].downloaded && flat[0].pages == vec!["p".to_string()]);
    assert_eq!(flat[0].volume_name, "v2");
}

#[test]
fn merge_keeps_saved_prefix() {
    let mut saved = vec![chapter("a", "1"), chapter("b", "2")];
    saved[0].downloaded = true;
    let fresh = vec![chapter("A", "1"), chapter("B", "2"), chapter("C", "3")];
    let merged = Manga::merge_chapters(saved, fresh);
    let names: Vec<&str> = merged.iter().map(|c| c.name.as_str()).collect();
    assert_eq!(names, vec!["a", "b", "C"]);
    assert!(merged[0].downloaded);
    assert_eq!(Manga::merge_chapters(vec![], vec![chapter("x", "y")]).len(), 1);
}

#[test]
fn new_from_page_with_volumes() {
    let m = Manga::try_new_from_page("https://x.example/manga/1".to_string(), &doc(&page()), vec![]).unwrap();
    assert_eq!(m.url, "https://x.example/manga/1");
    assert_eq!(m.title, "One Piece");
    assert_eq!(m.cover_url, "https://cdn.example/cover.jpg");
    assert_eq!(m.plot, "A pirate story.");
    assert_eq!(m.generics.genres, vec!["Azione".to_string(), "Avventura".to_string()]);
    assert_eq!(m.generics.authors, vec!["Eiichiro Oda".to_string()]);
    assert_eq!(m.generics.artists, vec!["E. Oda".to_string()]);
    assert_eq!(m.generics.year_start, "1997");
    let names: Vec<&str> = m.chapters.iter().map(|c| c.name.as_str()).collect();
    assert_eq!(names, vec!["c01", "c02", "c03"]);
    assert!(m.chapters.iter().all(|c| c.volume_part));
}

#[test]
fn new_from_page_without_volumes_and_with_saved_state() {
    let mut old = chapter("c1", "u1");
    old.downloaded = true;
    old.pages = vec!["p".to_string()];
    let m = Manga::new_from_page("url".to_string(), &doc(LOOSE_PAGE), vec![old]);
    assert_eq!(m.title, "Solo");
    assert_eq!(m.chapters.len(), 2);
    assert!(m.chapters[0].downloaded);
    assert_eq!(m.chapters[0].pages, vec!["p".to_string()]);
    assert_eq!(m.chapters[1].name, "c2");
    assert!(!m.chapters[1].volume_part);
}

#[test]
fn new_from_page_refuses_more_saved_than_listed() {
    let saved = vec![chapter("a", "1"), chapter("b", "2"), chapter("c", "3")];
    assert!(!Manga::page_readable(&doc(LOOSE_PAGE), 3));
    assert!(Manga::page_readable(&doc(LOOSE_PAGE), 2));
    assert!(Manga::try_new_from_page("url".to_string(), &doc(LOOSE_PAGE), saved).is_none());
    assert!(Manga::try_new_from_page("url".to_string(), &doc("<p>not a manga</p>"), vec![]).is_none());
}

#[test]
fn synclist_selection_and_record() {
    let mut list = Synclist {
        lastsync: 5,
        synclist: vec![
            SyncItem { sync: true, url: "a".to_string() },
            SyncItem { sync: false, url: "b".to_string() },
            SyncItem { sync: true, url: "c".to_string() },
        ],
    };
    assert_eq!(list.urls_to_sync(), vec!["a".to_string(), "c".to_string()]);
    list.record_sync(1_700_000_000_000);
    assert_eq!(list.lastsync, 1_700_000_000_000);
    assert_eq!(list.synclist.len(), 3);
}

#[test]
fn synclist_none_or_all_marked() {
    let none = Synclist { lastsync: 0, synclist: vec![SyncItem { sync: false, url: "a".to_string() }] };
    assert!(none.urls_to_sync().is_empty());
    let all = Synclist {
        lastsync: 0,
        synclist: vec![SyncItem { sync: true, url: "x".to_string() }, SyncItem { sync: true, url: "y".to_string() }],
    };
    assert_eq!(all.urls_to_sync(), vec!["x".to_string(), "y".to_string()]);
}

#[test]
fn merging_twice_changes_nothing() {
    let mut saved = vec![chapter("a", "1")];
    saved[0].downloaded = true;
    let fresh = vec![chapter("A", "1"), chapter("B", "2")];
    let once = Manga::merge_chapters(saved, fresh.clone());
    let twice = Manga::merge_chapters(once.clone(), fresh);
    let a: Vec<(&str, bool)> = once.iter().map(|c| (c.name.as_str(), c.downloaded)).collect();
    let b: Vec<(&str, bool)> = twice.iter().map(|c| (c.name.as_str(), c.downloaded)).collect();
    assert_eq!(a, b);
    assert_eq!(a, vec![("a", true), ("B", false)]);
}

#[test]
fn chapters_in_table_rows_are_found() {
    let d = doc("<html><body><table class=\"chapters-wrapper\">\
<tr class=\"chapter\"><td><a class=\"chap\" href=\"u2\"><span class=\"d-inline-block\">Capitolo 2</span></a></td></tr>\
<tr class=\"chapter\"><td><a class=\"chap\" href=\"u1\"><span class=\"d-inline-block\">Capitolo 1</span></a></td></tr>\
</table></body></html>");
    let cs = Manga::get_page_chapters(&d);
    let got: Vec<(&str, &str)> = cs.iter().map(|c| (c.name.as_str(), c.url.as_str())).collect();
    assert_eq!(got, vec![("c1", "u1"), ("c2", "u2")]);
}

#[test]
fn marking_downloaded_keeps_the_rest() {
    let mut c = chapter(" c1 ", "u");
    c.volume_part = true;
    c.volume_name = " vol1 ".to_string();
    c.pages = vec!["p0".to_string()];
    c.mark_downloaded();
    assert!(c.downloaded);
    assert_eq!((c.name.as_str(), c.url.as_str(), c.volume_name.as_str()), (" c1 ", "u", " vol1 "));
    assert!(c.volume_part && c.pages == vec!["p0".to_string()]);
    assert!(c.download_plan(" Naruto ").is_none());
    assert!(c.download_plan("other").is_none());
    c.mark_downloaded();
    assert!(c.downloaded);
}

#[test]
fn empty_chapter_plan_and_marking() {
    let mut c = chapter(" c1 ", "u");
    c.volume_part = true;
    c.volume_name = " vol1 ".to_string();
    let plan = c.download_plan(" Naruto ").unwrap();
    assert_eq!(plan.path, "/manga/download/Naruto vol1 c1.zip");
    assert!(plan.entries.is_empty());
    c.mark_downloaded();
    assert!(c.downloaded && c.pages.is_empty());
}

#[test]
fn setting_pages_keeps_the_rest() {
    let mut c = chapter("c1", "u");
    c.downloaded = true;
    c.set_pages(vec!["a".to_string(), "b".to_string()]);
    assert_eq!(c.pages, vec!["a".to_string(), "b".to_string()]);
    assert!(c.downloaded && c.name == "c1" && c.url == "u");
    assert!(c.pages_request().is_none());
}
