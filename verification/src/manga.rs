use vstd::prelude::*;
use vstd::string::*;
use crate::chapter::{chapters_view, ChapterRef, ChapterView};
use crate::scrape::{
    document_matches, matches_view, nested_matches, opt_string_view, path_to, select_document,
    select_nested, steps_view, strings_view, Document, Scraped, ScrapedView, Step,
};
use crate::text::{has_prefix, lowercased, replace, replace_all, starts_with, to_lowercase, trim, trimmed};
use crate::volume::{volumes_view, Volume, VolumeView};

verus! {

broadcast use vstd::string::group_string_axioms;

/// The descriptive fields of a manga: genres, authors, artists and the year it began.
#[derive(Debug, Clone)]
pub struct MangaGenerics {
    pub genres: Vec<String>,
    pub authors: Vec<String>,
    pub artists: Vec<String>,
    pub year_start: String,
}

/// The plain view of [`MangaGenerics`].
#[verifier::ext_equal]
pub struct GenericsView {
    pub genres: Seq<Seq<char>>,
    pub authors: Seq<Seq<char>>,
    pub artists: Seq<Seq<char>>,
    pub year_start: Seq<char>,
}

impl View for MangaGenerics {
    type V = GenericsView;

    open spec fn view(&self) -> GenericsView {
        GenericsView {
            genres: strings_view(self.genres@),
            authors: strings_view(self.authors@),
            artists: strings_view(self.artists@),
            year_start: self.year_start@,
        }
    }
}

/// A manga: its page, title, cover image, plot, descriptive fields and chapters.
#[derive(Debug, Clone)]
pub struct Manga {
    pub url: String,
    pub title: String,
    pub cover_url: String,
    pub plot: String,
    pub generics: MangaGenerics,
    pub chapters: Vec<ChapterRef>,
}

/// The plain view of a [`Manga`].
#[verifier::ext_equal]
pub struct MangaView {
    pub url: Seq<char>,
    pub title: Seq<char>,
    pub cover_url: Seq<char>,
    pub plot: Seq<char>,
    pub generics: GenericsView,
    pub chapters: Seq<ChapterView>,
}

impl View for Manga {
    type V = MangaView;

    open spec fn view(&self) -> MangaView {
        MangaView {
            url: self.url@,
            title: self.title@,
            cover_url: self.cover_url@,
            plot: self.plot@,
            generics: self.generics@,
            chapters: chapters_view(self.chapters@),
        }
    }
}

/// Descriptive fields with nothing in them.
pub open spec fn empty_generics() -> GenericsView {
    GenericsView { genres: seq![], authors: seq![], artists: seq![], year_start: seq![] }
}

/// The file that holds the saved state of the manga `title`: its title lowercased and
/// then trimmed, under `/manga/state/`, with `.json` after it.
pub open spec fn state_path_of(title: Seq<char>) -> Seq<char> {
    "/manga/state/"@ + trimmed(lowercased(title)) + ".json"@
}

/// The first text node of the first match, if there is one.
pub open spec fn first_text(m: Option<Seq<ScrapedView>>) -> Option<Seq<char>> {
    match m {
        Some(els) => if els.len() > 0 && els[0].texts.len() > 0 {
            Some(els[0].texts[0])
        } else {
            None
        },
        None => None,
    }
}

/// The attribute of the first match, if there is a match and it has the attribute.
pub open spec fn first_attr(m: Option<Seq<ScrapedView>>) -> Option<Seq<char>> {
    match m {
        Some(els) => if els.len() > 0 {
            els[0].attr
        } else {
            None
        },
        None => None,
    }
}

/// The title that the manga page `document` shows.
pub open spec fn title_of(document: Seq<char>) -> Option<Seq<char>> {
    first_text(document_matches(document, ".info .name.bigger"@, ""@))
}

/// The cover image address that the manga page `document` shows.
pub open spec fn cover_of(document: Seq<char>) -> Option<Seq<char>> {
    first_attr(document_matches(document, ".single-comic img"@, "src"@))
}

/// The plot that the manga page `document` shows.
pub open spec fn plot_of(document: Seq<char>) -> Option<Seq<char>> {
    first_text(document_matches(document, "#noidungm"@, ""@))
}

/// Whether a descriptive field whose first text is `head` is read as the year.
pub open spec fn names_year(head: Seq<char>) -> bool {
    &&& !has_prefix(head, "Generi"@)
    &&& !(has_prefix(head, "Autore"@) || has_prefix(head, "Autori"@))
    &&& !(has_prefix(head, "Artista"@) || has_prefix(head, "Artisti"@))
    &&& has_prefix(head, "Anno di uscita"@)
}

/// A descriptive field has the texts that are read from it: a heading, and a value
/// after the heading when the field gives the year.
pub open spec fn field_readable(texts: Seq<Seq<char>>) -> bool {
    texts.len() > 0 && (names_year(texts[0]) ==> texts.len() > 1)
}

/// `g` after the descriptive field with the texts `texts` is read: the heading selects
/// which part the texts after it replace.
pub open spec fn read_field(g: GenericsView, texts: Seq<Seq<char>>) -> GenericsView {
    let head = texts[0];
    if has_prefix(head, "Generi"@) {
        GenericsView { genres: texts.drop_first(), ..g }
    } else if has_prefix(head, "Autore"@) || has_prefix(head, "Autori"@) {
        GenericsView { authors: texts.drop_first(), ..g }
    } else if has_prefix(head, "Artista"@) || has_prefix(head, "Artisti"@) {
        GenericsView { artists: texts.drop_first(), ..g }
    } else if has_prefix(head, "Anno di uscita"@) {
        GenericsView { year_start: texts[1], ..g }
    } else {
        g
    }
}

/// The descriptive fields read from the fields with the texts `fields`, in order, from
/// empty ones.
pub open spec fn read_fields(fields: Seq<Seq<Seq<char>>>) -> GenericsView
    decreases fields.len(),
{
    if fields.len() == 0 {
        empty_generics()
    } else {
        read_field(read_fields(fields.drop_last()), fields.last())
    }
}

/// The texts of each element, in order.
pub open spec fn texts_of(els: Seq<ScrapedView>) -> Seq<Seq<Seq<char>>> {
    els.map_values(|e: ScrapedView| e.texts)
}

/// The path to the element that holds the descriptive fields: the first `.meta-data`.
pub open spec fn meta_path() -> Seq<(Seq<char>, nat)> {
    seq![(".meta-data"@, 0nat)]
}

/// The path to the element that holds the chapter list: the first `.chapters-wrapper`.
pub open spec fn wrapper_path() -> Seq<(Seq<char>, nat)> {
    seq![(".chapters-wrapper"@, 0nat)]
}

/// The descriptive fields of the manga page `document`: the `.col-12` elements inside
/// its first `.meta-data`, read in order; `None` where there is no `.meta-data` or a
/// field lacks a text that is read.
pub open spec fn generics_of(document: Seq<char>) -> Option<GenericsView> {
    match nested_matches(document, meta_path(), ".col-12"@, ""@) {
        Some(els) => if forall|i: int| 0 <= i < els.len() ==> field_readable(#[trigger] els[i].texts) {
            Some(read_fields(texts_of(els)))
        } else {
            None
        },
        None => None,
    }
}

/// The first text of the first match, if there is one.
pub fn first_text_of(found: &Option<Vec<Scraped>>) -> (res: Option<String>)
    ensures
        opt_string_view(res) == first_text(matches_view(*found)),
{
    match found {
        Some(els) => {
            if els.len() > 0 && els[0].texts.len() > 0 {
                assert(els@.map_values(|e: Scraped| e@)[0] == els@[0]@);
                Some(els[0].texts[0].clone())
            } else {
                None
            }
        },
        None => None,
    }
}

/// The attribute of the first match, if there is a match and it has the attribute.
pub fn first_attr_of(found: &Option<Vec<Scraped>>) -> (res: Option<String>)
    ensures
        opt_string_view(res) == first_attr(matches_view(*found)),
{
    match found {
        Some(els) => {
            if els.len() > 0 {
                assert(els@.map_values(|e: Scraped| e@)[0] == els@[0]@);
                match &els[0].attr {
                    Some(a) => Some(a.clone()),
                    None => None,
                }
            } else {
                None
            }
        },
        None => None,
    }
}
fn clone_strings(v: &Vec<String>, from: usize) -> (res: Vec<String>)
    requires
        from <= v.len(),
    ensures
        strings_view(res@) == strings_view(v@).skip(from as int),
{
    let mut res: Vec<String> = Vec::new();
    let mut i = from;
    while i < v.len()
        invariant
            from <= i <= v.len(),
            strings_view(res@) == strings_view(v@).subrange(from as int, i as int),
        decreases v.len() - i,
    {
        res.push(v[i].clone());
        assert(strings_view(v@).subrange(from as int, i + 1) == strings_view(v@).subrange(
            from as int,
            i as int,
        ).push(v@[i as int]@));
        i = i + 1;
    }
    res
}

impl MangaGenerics {
    /// Descriptive fields with nothing in them.
    pub fn new_empty() -> (res: MangaGenerics)
        ensures
            res@ == empty_generics(),
    {
        MangaGenerics {
            genres: Vec::new(),
            authors: Vec::new(),
            artists: Vec::new(),
            year_start: String::new(),
        }
    }
}

impl Manga {
    /// A manga with every field empty.
    pub fn new_empty() -> (res: Manga)
        ensures
            res@ == (MangaView {
                url: seq![],
                title: seq![],
                cover_url: seq![],
                plot: seq![],
                generics: empty_generics(),
                chapters: seq![],
            }),
    {
        Manga {
            title: String::new(),
            cover_url: String::new(),
            url: String::new(),
            plot: String::new(),
            chapters: Vec::new(),
            generics: MangaGenerics::new_empty(),
        }
    }

    /// The file that holds the saved state of the manga `title`.
    pub fn state_path(title: &str) -> (res: String)
        ensures
            res@ == state_path_of(title@),
    {
        let lower = to_lowercase(title);
        let mut path = String::from_str("/manga/state/");
        path.append(trim(lower.as_str()).as_str());
        path.append(".json");
        path
    }

    /// The title that the manga page `document` shows, or `None` where it has none.
    pub fn scan_title(document: &Document) -> (res: Option<String>)
        ensures
            opt_string_view(res) == title_of(document@),
    {
        first_text_of(&select_document(document, ".info .name.bigger", ""))
    }

    /// The title that the manga page `document` shows.
    pub fn get_title(document: &Document) -> (res: String)
        requires
            title_of(document@) is Some,
        ensures
            Some(res@) == title_of(document@),
    {
        match Manga::scan_title(document) {
            Some(t) => t,
            None => String::new(),
        }
    }

    /// The cover image address that the manga page `document` shows, or `None`.
    pub fn scan_cover_url(document: &Document) -> (res: Option<String>)
        ensures
            opt_string_view(res) == cover_of(document@),
    {
        first_attr_of(&select_document(document, ".single-comic img", "src"))
    }

    /// The cover image address that the manga page `document` shows.
    pub fn get_cover_url(document: &Document) -> (res: String)
        requires
            cover_of(document@) is Some,
        ensures
            Some(res@) == cover_of(document@),
    {
        match Manga::scan_cover_url(document) {
            Some(c) => c,
            None => String::new(),
        }
    }

    /// The plot that the manga page `document` shows, or `None`.
    pub fn scan_plot(document: &Document) -> (res: Option<String>)
        ensures
            opt_string_view(res) == plot_of(document@),
    {
        first_text_of(&select_document(document, "#noidungm", ""))
    }

    /// The plot that the manga page `document` shows.
    pub fn get_plot(document: &Document) -> (res: String)
        requires
            plot_of(document@) is Some,
        ensures
            Some(res@) == plot_of(document@),
    {
        match Manga::scan_plot(document) {
            Some(p) => p,
            None => String::new(),
        }
    }

    /// The descriptive fields read from fields with the texts `fields`, in order: a
    /// field headed `Generi` gives the genres, `Autore` or `Autori` the authors,
    /// `Artista` or `Artisti` the artists, and `Anno di uscita` the year, each from the
    /// texts after the heading; a later field of the same kind replaces an earlier one.
    pub fn read_generics(fields: &Vec<Vec<String>>) -> (res: MangaGenerics)
        requires
            forall|i: int| 0 <= i < fields.len() ==> field_readable(strings_view(#[trigger] fields@[i]@)),
        ensures
            res@ == read_fields(fields@.map_values(|f: Vec<String>| strings_view(f@))),
    {
        let ghost all = fields@.map_values(|f: Vec<String>| strings_view(f@));
        let mut g = MangaGenerics::new_empty();
        for i in 0..fields.len()
            invariant
                all == fields@.map_values(|f: Vec<String>| strings_view(f@)),
                forall|k: int| 0 <= k < fields.len() ==> field_readable(strings_view(#[trigger] fields@[k]@)),
                g@ == read_fields(all.take(i as int)),
        {
            let field = &fields[i];
            let ghost texts = strings_view(field@);
            assert(field_readable(strings_view(fields@[i as int]@)));
            assert(all.take(i + 1).drop_last() == all.take(i as int));
            assert(all.take(i + 1).last() == texts);
            proof {
                reveal_strlit("Generi");
                reveal_strlit("Autore");
                reveal_strlit("Autori");
                reveal_strlit("Artista");
                reveal_strlit("Artisti");
                reveal_strlit("Anno di uscita");
            }
            let head = field[0].as_str();
            assert(head@ == texts[0]);
            if starts_with(head, "Generi") {
                g.genres = clone_strings(field, 1);
            } else if starts_with(head, "Autore") || starts_with(head, "Autori") {
                g.authors = clone_strings(field, 1);
            } else if starts_with(head, "Artista") || starts_with(head, "Artisti") {
                g.artists = clone_strings(field, 1);
            } else if starts_with(head, "Anno di uscita") {
                g.year_start = field[1].clone();
            }
            assert(strings_view(field@).skip(1) == texts.drop_first());
        }
        assert(all.take(fields.len() as int) == all);
        g
    }

    /// The descriptive fields of the manga page `document`, or `None` where it has no
    /// `.meta-data` element or a `.col-12` field inside it lacks a text that is read.
    pub fn scan_generics(document: &Document) -> (res: Option<MangaGenerics>)
        ensures
            match res {
                Some(g) => generics_of(document@) == Some(g@),
                None => generics_of(document@) is None,
            },
    {
        let mut meta: Vec<Step> = Vec::new();
        meta.push(Step { selector: String::from_str(".meta-data"), index: 0 });
        assert(steps_view(meta@) =~= meta_path());
        let found = select_nested(document, &meta, ".col-12", "");
        match found {
            None => None,
            Some(els) => {
                let ghost view = els@.map_values(|e: Scraped| e@);
                let mut fields: Vec<Vec<String>> = Vec::new();
                for i in 0..els.len()
                    invariant
                        view == els@.map_values(|e: Scraped| e@),
                        nested_matches(document@, meta_path(), ".col-12"@, ""@) == Some(view),
                        fields.len() == i,
                        forall|k: int| 0 <= k < i ==> strings_view(#[trigger] fields@[k]@) == view[k].texts,
                        forall|k: int| 0 <= k < i ==> field_readable(#[trigger] view[k].texts),
                {
                    assert(view[i as int] == els@[i as int]@);
                    let texts = clone_strings(&els[i].texts, 0);
                    assert(strings_view(els@[i as int].texts@).skip(0) == view[i as int].texts);
                    let readable = texts.len() > 0 && (!names_year_exec(texts[0].as_str())
                        || texts.len() > 1);
                    if !readable {
                        assert(!field_readable(view[i as int].texts));
                        return None;
                    }
                    fields.push(texts);
                }
                let g = Manga::read_generics(&fields);
                assert(fields@.map_values(|f: Vec<String>| strings_view(f@)) == texts_of(view));
                Some(g)
            },
        }
    }

    /// The descriptive fields of the manga page `document`.
    pub fn get_generics(document: &Document) -> (res: MangaGenerics)
        requires
            generics_of(document@) is Some,
        ensures
            Some(res@) == generics_of(document@),
    {
        match Manga::scan_generics(document) {
            Some(g) => g,
            None => MangaGenerics::new_empty(),
        }
    }
}

fn names_year_exec(head: &str) -> (res: bool)
    ensures
        res == names_year(head@),
{
    !starts_with(head, "Generi") && !(starts_with(head, "Autore") || starts_with(head, "Autori"))
        && !(starts_with(head, "Artista") || starts_with(head, "Artisti")) && starts_with(
        head,
        "Anno di uscita",
    )
}

/// A chapter as a manga page lists it, before anything is known of its pages: its
/// name with `Capitolo ` written as `c`, and its address.
pub open spec fn listed_chapter(name: Seq<char>, url: Seq<char>) -> ChapterView {
    ChapterView {
        url: url,
        name: replace_all(name, "Capitolo "@, "c"@),
        downloaded: false,
        pages: seq![],
        volume_part: false,
        volume_name: seq![],
    }
}

/// The name and address of the `.chapter` element that `path` reaches in `document`:
/// the first text of its first `span.d-inline-block` and the `href` of its first
/// `a.chap`.
pub open spec fn chapter_entry(document: Seq<char>, path: Seq<(Seq<char>, nat)>) -> Option<(Seq<char>, Seq<char>)> {
    match (
        first_text(nested_matches(document, path, "span.d-inline-block"@, ""@)),
        first_attr(nested_matches(document, path, "a.chap"@, "href"@)),
    ) {
        (Some(name), Some(url)) => Some((name, url)),
        _ => None,
    }
}

/// The chapter that the `.chapter` element at `path` lists, once its entry is readable.
pub open spec fn entry_chapter(document: Seq<char>, path: Seq<(Seq<char>, nat)>) -> ChapterView {
    let entry = chapter_entry(document, path)->0;
    listed_chapter(entry.0, entry.1)
}

/// The path to the match number `i` of `selector` inside the element at `scope`.
pub open spec fn step_into(scope: Seq<(Seq<char>, nat)>, selector: Seq<char>, i: int) -> Seq<(Seq<char>, nat)> {
    scope.push((selector, i as nat))
}

/// The chapters listed by the `.chapter` elements inside the element that `scope`
/// reaches in `document`, last listed first; `None` where that element is missing or
/// one of them lacks its name or address.
pub open spec fn chapters_of(document: Seq<char>, scope: Seq<(Seq<char>, nat)>) -> Option<Seq<ChapterView>> {
    match nested_matches(document, scope, ".chapter"@, ""@) {
        Some(els) => if forall|i: int|
            0 <= i < els.len() ==> (#[trigger] chapter_entry(document, step_into(scope, ".chapter"@, i))) is Some {
            Some(
                Seq::new(els.len(), |i: int| entry_chapter(document, step_into(scope, ".chapter"@, i))).reverse(),
            )
        } else {
            None
        },
        None => None,
    }
}

/// The volume that the `.volume-element` element at `path` lists: the first text of
/// its first `.volume-name`, with `Volume ` written as `vol`, and its chapters.
pub open spec fn volume_entry(document: Seq<char>, path: Seq<(Seq<char>, nat)>) -> Option<VolumeView> {
    match (
        first_text(nested_matches(document, path, ".volume-name"@, ""@)),
        chapters_of(document, path),
    ) {
        (Some(name), Some(chapters)) => Some(
            VolumeView { name: replace_all(name, "Volume "@, "vol"@), chapters: chapters },
        ),
        _ => None,
    }
}

/// The volumes listed by the `.volume-element` elements inside the element that
/// `scope` reaches in `document`, last listed first; `None` where that element is
/// missing or one of them is not readable.
pub open spec fn volumes_of(document: Seq<char>, scope: Seq<(Seq<char>, nat)>) -> Option<Seq<VolumeView>> {
    match nested_matches(document, scope, ".volume-element"@, ""@) {
        Some(els) => if forall|i: int|
            0 <= i < els.len() ==> (#[trigger] volume_entry(document, step_into(scope, ".volume-element"@, i))) is Some {
            Some(
                Seq::new(
                    els.len(),
                    |i: int| volume_entry(document, step_into(scope, ".volume-element"@, i))->0,
                ).reverse(),
            )
        } else {
            None
        },
        None => None,
    }
}

/// `c` marked as a chapter of the volume named `volume`.
pub open spec fn in_volume(c: ChapterView, volume: Seq<char>) -> ChapterView {
    ChapterView { volume_part: true, volume_name: volume, ..c }
}

/// The chapters of the volume `v`, each marked as belonging to it.
pub open spec fn volume_chapters(v: VolumeView) -> Seq<ChapterView> {
    v.chapters.map_values(|c: ChapterView| in_volume(c, v.name))
}

/// The chapters of all the volumes, volume after volume.
pub open spec fn flatten(vols: Seq<VolumeView>) -> Seq<ChapterView>
    decreases vols.len(),
{
    if vols.len() == 0 {
        seq![]
    } else {
        flatten(vols.drop_last()) + volume_chapters(vols.last())
    }
}

/// The chapters kept after a refresh: the saved ones, then the refreshed ones that come
/// after as many chapters as were saved.
pub open spec fn merged(saved: Seq<ChapterView>, fresh: Seq<ChapterView>) -> Seq<ChapterView> {
    saved + fresh.skip(saved.len() as int)
}

/// The chapters that the manga page `document` lists inside its first
/// `.chapters-wrapper`: those of its volumes, or, when they have none, the chapters
/// listed directly inside it.
pub open spec fn page_chapters(document: Seq<char>) -> Option<Seq<ChapterView>> {
    match volumes_of(document, wrapper_path()) {
        Some(vols) => if flatten(vols).len() == 0 {
            chapters_of(document, wrapper_path())
        } else {
            Some(flatten(vols))
        },
        None => None,
    }
}

/// The page `document` has every part that is read, and lists at least `saved`
/// chapters.
pub open spec fn page_readable(document: Seq<char>, saved: nat) -> bool {
    &&& title_of(document) is Some
    &&& cover_of(document) is Some
    &&& plot_of(document) is Some
    &&& generics_of(document) is Some
    &&& page_chapters(document) is Some
    &&& saved <= page_chapters(document)->0.len()
}

/// The manga that the page `document` at `url` describes, with the chapters `saved`
/// from its saved state kept in front: `None` where the page lacks a part that is read,
/// or where more chapters were saved than the page lists.
pub open spec fn manga_of_page(url: Seq<char>, document: Seq<char>, saved: Seq<ChapterView>) -> Option<MangaView> {
    if page_readable(document, saved.len()) {
        Some(MangaView {
            url: url,
            title: title_of(document)->0,
            cover_url: cover_of(document)->0,
            plot: plot_of(document)->0,
            generics: generics_of(document)->0,
            chapters: merged(saved, page_chapters(document)->0),
        })
    } else {
        None
    }
}

/// `v` in reverse order.
fn reversed<T>(v: Vec<T>) -> (res: Vec<T>)
    ensures
        res@ == v@.reverse(),
{
    let mut v = v;
    let ghost orig = v@;
    let mut res: Vec<T> = Vec::new();
    while v.len() > 0
        invariant
            v@.len() <= orig.len(),
            v@ == orig.take(v@.len() as int),
            res@ == orig.skip(v@.len() as int).reverse(),
        decreases v.len(),
    {
        let ghost n = v@.len();
        let x = v.pop().unwrap();
        assert(orig.skip(n - 1) == seq![orig[n - 1]] + orig.skip(n as int));
        assert(orig.skip(n - 1).reverse() == orig.skip(n as int).reverse().push(orig[n - 1]));
        assert(orig.take(n - 1) == orig.take(n as int).drop_last());
        res.push(x);
    }
    assert(orig.skip(0) == orig);
    res
}

impl Manga {
    /// The chapter named `name` at `url`, as a manga page lists it.
    pub fn listed_chapter(name: &str, url: String) -> (res: ChapterRef)
        ensures
            res@ == listed_chapter(name@, url@),
    {
        proof {
            reveal_strlit("Capitolo ");
        }
        ChapterRef {
            name: replace(name, "Capitolo ", "c"),
            url: url,
            pages: Vec::new(),
            downloaded: false,
            volume_name: String::new(),
            volume_part: false,
        }
    }

    /// The chapter that the `.chapter` element at `path` in `document` lists, or `None`
    /// where it lacks its name or address.
    pub fn chapter_of_entry(document: &Document, path: &Vec<Step>) -> (res: Option<ChapterRef>)
        requires
            path.len() > 0,
        ensures
            match res {
                Some(c) => chapter_entry(document@, steps_view(path@)) is Some && c@ == entry_chapter(
                    document@,
                    steps_view(path@),
                ),
                None => chapter_entry(document@, steps_view(path@)) is None,
            },
    {
        let name = first_text_of(&select_nested(document, path, "span.d-inline-block", ""));
        let url = first_attr_of(&select_nested(document, path, "a.chap", "href"));
        match (name, url) {
            (Some(name), Some(url)) => Some(Manga::listed_chapter(name.as_str(), url)),
            _ => None,
        }
    }

    /// The chapters listed by the `.chapter` elements inside the element that `scope`
    /// reaches in `document`, last listed first, or `None` where that element is missing
    /// or one of them lacks its name or address.
    pub fn scan_chapters(document: &Document, scope: &Vec<Step>) -> (res: Option<Vec<ChapterRef>>)
        requires
            scope.len() > 0,
        ensures
            match res {
                Some(cs) => chapters_of(document@, steps_view(scope@)) == Some(chapters_view(cs@)),
                None => chapters_of(document@, steps_view(scope@)) is None,
            },
    {
        let ghost sv = steps_view(scope@);
        let found = select_nested(document, scope, ".chapter", "");
        match found {
            None => None,
            Some(els) => {
                let mut chapters: Vec<ChapterRef> = Vec::new();
                for i in 0..els.len()
                    invariant
                        sv == steps_view(scope@),
                        nested_matches(document@, sv, ".chapter"@, ""@) == Some(
                            els@.map_values(|e: Scraped| e@),
                        ),
                        chapters.len() == i,
                        forall|k: int|
                            0 <= k < i ==> (#[trigger] chapter_entry(document@, step_into(sv, ".chapter"@, k))) is Some,
                        forall|k: int|
                            0 <= k < i ==> (#[trigger] chapters@[k])@ == entry_chapter(
                                document@,
                                step_into(sv, ".chapter"@, k),
                            ),
                {
                    let path = path_to(scope, ".chapter", i);
                    assert(steps_view(path@) == step_into(sv, ".chapter"@, i as int));
                    match Manga::chapter_of_entry(document, &path) {
                        None => {
                            return None;
                        },
                        Some(c) => {
                            chapters.push(c);
                        },
                    }
                }
                let ghost n = els@.len();
                assert(chapters_view(chapters@) =~= Seq::new(
                    n,
                    |i: int| entry_chapter(document@, step_into(sv, ".chapter"@, i)),
                ));
                let res = reversed(chapters);
                assert(chapters_view(res@) == chapters_view(chapters@).reverse());
                Some(res)
            },
        }
    }

    /// The chapters listed by the `.chapter` elements inside the element that `scope`
    /// reaches in `document`, last listed first.
    pub fn get_chapters(document: &Document, scope: &Vec<Step>) -> (res: Vec<ChapterRef>)
        requires
            scope.len() > 0,
            chapters_of(document@, steps_view(scope@)) is Some,
        ensures
            Some(chapters_view(res@)) == chapters_of(document@, steps_view(scope@)),
    {
        match Manga::scan_chapters(document, scope) {
            Some(cs) => cs,
            None => Vec::new(),
        }
    }

    /// The volume that the `.volume-element` element at `path` in `document` lists, or
    /// `None` where it lacks its name or one of its chapters is not readable.
    pub fn volume_of_entry(document: &Document, path: &Vec<Step>) -> (res: Option<Volume>)
        requires
            path.len() > 0,
        ensures
            match res {
                Some(vol) => volume_entry(document@, steps_view(path@)) == Some(vol@),
                None => volume_entry(document@, steps_view(path@)) is None,
            },
    {
        let name = first_text_of(&select_nested(document, path, ".volume-name", ""));
        match name {
            None => None,
            Some(name) => match Manga::scan_chapters(document, path) {
                None => None,
                Some(chapters) => {
                    proof {
                        reveal_strlit("Volume ");
                    }
                    Some(Volume { name: replace(name.as_str(), "Volume ", "vol"), chapters: chapters })
                },
            },
        }
    }

    /// The volumes listed by the `.volume-element` elements inside the element that
    /// `scope` reaches in `document`, last listed first, or `None` where that element is
    /// missing or one of them is not readable.
    pub fn scan_volumes(document: &Document, scope: &Vec<Step>) -> (res: Option<Vec<Volume>>)
        requires
            scope.len() > 0,
        ensures
            match res {
                Some(vs) => volumes_of(document@, steps_view(scope@)) == Some(volumes_view(vs@)),
                None => volumes_of(document@, steps_view(scope@)) is None,
            },
    {
        let ghost sv = steps_view(scope@);
        let found = select_nested(document, scope, ".volume-element", "");
        match found {
            None => None,
            Some(els) => {
                let mut volumes: Vec<Volume> = Vec::new();
                for i in 0..els.len()
                    invariant
                        sv == steps_view(scope@),
                        nested_matches(document@, sv, ".volume-element"@, ""@) == Some(
                            els@.map_values(|e: Scraped| e@),
                        ),
                        volumes.len() == i,
                        forall|k: int|
                            0 <= k < i ==> (#[trigger] volume_entry(document@, step_into(sv, ".volume-element"@, k))) is Some,
                        forall|k: int|
                            0 <= k < i ==> Some((#[trigger] volumes@[k])@) == volume_entry(
                                document@,
                                step_into(sv, ".volume-element"@, k),
                            ),
                {
                    let path = path_to(scope, ".volume-element", i);
                    assert(steps_view(path@) == step_into(sv, ".volume-element"@, i as int));
                    match Manga::volume_of_entry(document, &path) {
                        None => {
                            return None;
                        },
                        Some(vol) => {
                            volumes.push(vol);
                        },
                    }
                }
                let ghost n = els@.len();
                assert(volumes_view(volumes@) =~= Seq::new(
                    n,
                    |i: int| volume_entry(document@, step_into(sv, ".volume-element"@, i))->0,
                ));
                let res = reversed(volumes);
                assert(volumes_view(res@) == volumes_view(volumes@).reverse());
                Some(res)
            },
        }
    }

    /// The volumes listed by the `.volume-element` elements inside the element that
    /// `scope` reaches in `document`, last listed first.
    pub fn get_volumes(document: &Document, scope: &Vec<Step>) -> (res: Vec<Volume>)
        requires
            scope.len() > 0,
            volumes_of(document@, steps_view(scope@)) is Some,
        ensures
            Some(volumes_view(res@)) == volumes_of(document@, steps_view(scope@)),
    {
        match Manga::scan_volumes(document, scope) {
            Some(vs) => vs,
            None => Vec::new(),
        }
    }

    /// The chapters of all the volumes, volume after volume, each marked as belonging
    /// to its volume.
    pub fn flatten_volumes(volumes: Vec<Volume>) -> (res: Vec<ChapterRef>)
        ensures
            chapters_view(res@) == flatten(volumes_view(volumes@)),
    {
        let ghost all = volumes_view(volumes@);
        let mut chapters: Vec<ChapterRef> = Vec::new();
        let mut rest = reversed(volumes);
        let ghost n: int = all.len() as int;
        while rest.len() > 0
            invariant
                rest@.len() <= n,
                n == all.len(),
                volumes_view(rest@) == all.skip(n - rest@.len()).reverse(),
                chapters_view(chapters@) == flatten(all.take(n - rest@.len())),
            decreases rest.len(),
        {
            let ghost r = rest@.len();
            let vol = rest.pop().unwrap();
            let ghost done = n - r;
            assert(vol@ == all[done]) by {
                assert(volumes_view(rest@.push(vol)) == all.skip(done).reverse());
                assert(all.skip(done).reverse()[r - 1] == all.skip(done)[0]);
            }
            assert(volumes_view(rest@) == all.skip(done + 1).reverse()) by {
                assert(volumes_view(rest@.push(vol)) == volumes_view(rest@).push(vol@));
                assert(all.skip(done) == seq![all[done]] + all.skip(done + 1));
                assert(all.skip(done).reverse() == all.skip(done + 1).reverse().push(all[done]));
                assert(volumes_view(rest@.push(vol)).drop_last() == volumes_view(rest@));
                assert(all.skip(done + 1).reverse().push(all[done]).drop_last() == all.skip(
                    done + 1,
                ).reverse());
            }
            let ghost before = chapters_view(chapters@);
            let name = vol.name;
            let mut list = reversed(vol.chapters);
            let ghost cs = chapters_view(vol.chapters@);
            let ghost m: int = cs.len() as int;
            while list.len() > 0
                invariant
                    list@.len() <= m,
                    m == cs.len(),
                    chapters_view(list@) == cs.skip(m - list@.len()).reverse(),
                    chapters_view(chapters@) == before + cs.take(m - list@.len()).map_values(
                        |c: ChapterView| in_volume(c, name@),
                    ),
                decreases list.len(),
            {
                let ghost l = list@.len();
                let c = list.pop().unwrap();
                let ghost k = m - l;
                assert(c@ == cs[k]) by {
                    assert(chapters_view(list@.push(c)) == cs.skip(k).reverse());
                    assert(cs.skip(k).reverse()[l - 1] == cs.skip(k)[0]);
                }
                assert(chapters_view(list@) == cs.skip(k + 1).reverse()) by {
                    assert(chapters_view(list@.push(c)) == chapters_view(list@).push(c@));
                    assert(cs.skip(k) == seq![cs[k]] + cs.skip(k + 1));
                    assert(cs.skip(k).reverse() == cs.skip(k + 1).reverse().push(cs[k]));
                    assert(chapters_view(list@.push(c)).drop_last() == chapters_view(list@));
                    assert(cs.skip(k + 1).reverse().push(cs[k]).drop_last() == cs.skip(
                        k + 1,
                    ).reverse());
                }
                let ghost prev = chapters@;
                chapters.push(ChapterRef {
                    name: c.name,
                    url: c.url,
                    pages: c.pages,
                    downloaded: c.downloaded,
                    volume_part: true,
                    volume_name: name.clone(),
                });
                assert(chapters_view(chapters@) == chapters_view(prev).push(in_volume(c@, name@)));
                assert(cs.take(k + 1).map_values(|c: ChapterView| in_volume(c, name@))
                    == cs.take(k).map_values(|c: ChapterView| in_volume(c, name@)).push(
                    in_volume(cs[k], name@),
                ));
            }
            assert(cs.take(m) == cs);
            assert(all.take(done + 1).drop_last() == all.take(done));
            assert(all.take(done + 1).last() == all[done]);
        }
        assert(all.take(n) == all);
        chapters
    }

    /// The saved chapters, then the refreshed ones that come after as many chapters as
    /// were saved.
    pub fn merge_chapters(saved: Vec<ChapterRef>, fresh: Vec<ChapterRef>) -> (res: Vec<ChapterRef>)
        requires
            saved.len() <= fresh.len(),
        ensures
            chapters_view(res@) == merged(chapters_view(saved@), chapters_view(fresh@)),
    {
        let mut kept = saved;
        let mut fresh = fresh;
        let ghost f = fresh@;
        let mut tail = fresh.split_off(kept.len());
        let ghost k = kept@;
        kept.append(&mut tail);
        assert(kept@ == k + f.skip(k.len() as int));
        assert(chapters_view(k + f.skip(k.len() as int)) == chapters_view(k) + chapters_view(f).skip(
            k.len() as int,
        ));
        kept
    }

    /// The chapters that the manga page `document` lists inside its first
    /// `.chapters-wrapper`, or `None` where that list is missing or not readable.
    pub fn scan_page_chapters(document: &Document) -> (res: Option<Vec<ChapterRef>>)
        ensures
            match res {
                Some(cs) => page_chapters(document@) == Some(chapters_view(cs@)),
                None => page_chapters(document@) is None,
            },
    {
        let mut scope: Vec<Step> = Vec::new();
        scope.push(Step { selector: String::from_str(".chapters-wrapper"), index: 0 });
        assert(steps_view(scope@) =~= wrapper_path());
        match Manga::scan_volumes(document, &scope) {
            None => None,
            Some(volumes) => {
                let chapters = Manga::flatten_volumes(volumes);
                if chapters.len() == 0 {
                    Manga::scan_chapters(document, &scope)
                } else {
                    Some(chapters)
                }
            },
        }
    }

    /// The chapters that the manga page `document` lists inside its first
    /// `.chapters-wrapper`: those of its volumes, or, when they have none, the chapters
    /// listed directly inside it.
    pub fn get_page_chapters(document: &Document) -> (res: Vec<ChapterRef>)
        requires
            page_chapters(document@) is Some,
        ensures
            Some(chapters_view(res@)) == page_chapters(document@),
    {
        let mut scope: Vec<Step> = Vec::new();
        scope.push(Step { selector: String::from_str(".chapters-wrapper"), index: 0 });
        assert(steps_view(scope@) =~= wrapper_path());
        let volumes = Manga::get_volumes(document, &scope);
        let chapters = Manga::flatten_volumes(volumes);
        if chapters.len() == 0 {
            Manga::get_chapters(document, &scope)
        } else {
            chapters
        }
    }

    /// Whether the page `document` has every part that is read and lists at least
    /// `saved` chapters.
    pub fn page_readable(document: &Document, saved: usize) -> (res: bool)
        ensures
            res == page_readable(document@, saved as nat),
    {
        Manga::scan_title(document).is_some() && Manga::scan_cover_url(document).is_some()
            && Manga::scan_plot(document).is_some() && Manga::scan_generics(document).is_some()
            && match Manga::scan_page_chapters(document) {
            Some(cs) => saved <= cs.len(),
            None => false,
        }
    }

    /// The manga that the page `document` at `url` describes, with the chapters
    /// `saved_chapters` from its saved state kept in front of the chapters the page
    /// adds.
    pub fn new_from_page(url: String, document: &Document, saved_chapters: Vec<ChapterRef>) -> (res: Manga)
        requires
            page_readable(document@, saved_chapters.len() as nat),
        ensures
            manga_of_page(url@, document@, chapters_view(saved_chapters@)) == Some(res@),
    {
        let title = Manga::get_title(document);
        let cover_url = Manga::get_cover_url(document);
        let plot = Manga::get_plot(document);
        let generics = Manga::get_generics(document);
        let fresh = Manga::get_page_chapters(document);
        let chapters = Manga::merge_chapters(saved_chapters, fresh);
        Manga { title, cover_url, generics, url, plot, chapters }
    }

    /// The manga that the page `document` at `url` describes, with the chapters
    /// `saved_chapters` kept in front, or `None` where the page lacks a part that is
    /// read or lists fewer chapters than were saved.
    pub fn try_new_from_page(url: String, document: &Document, saved_chapters: Vec<ChapterRef>) -> (res: Option<Manga>)
        ensures
            match res {
                Some(m) => manga_of_page(url@, document@, chapters_view(saved_chapters@)) == Some(m@),
                None => manga_of_page(url@, document@, chapters_view(saved_chapters@)) is None,
            },
    {
        if Manga::page_readable(document, saved_chapters.len()) {
            Some(Manga::new_from_page(url, document, saved_chapters))
        } else {
            None
        }
    }
}

} // verus!
