//! The local library page: the comics found in the download folder, how a
//! folder becomes an entry, their order by name, and what the page shows.
use vstd::prelude::*;

use crate::scan::ascii_lower;
use crate::text::{chars_of, concat_str, decimal_digits, path_tail, truncate_path, u64_to_string};

verus! {

/// A comic found in the download folder.
pub struct LocalComicEntry {
    pub name: String,
    pub path: String,
    pub cover_path: Option<String>,
    pub chapter_count: u32,
}

/// The state of the local library page.
pub struct LocalReadState {
    pub entries: Vec<LocalComicEntry>,
    pub is_scanning: bool,
    pub error: Option<String>,
}

// ==================== image files ====================

/// The extensions of image files, in lower case.
pub open spec fn image_extension(e: Seq<char>) -> bool {
    ||| e == "jpg"@
    ||| e == "jpeg"@
    ||| e == "png"@
    ||| e == "gif"@
    ||| e == "bmp"@
    ||| e == "webp"@
}

/// Whether a file extension is that of an image, in any letter case. (Only
/// ASCII letters can lower-case to the letters of these extensions in one
/// character, so ASCII case folding decides it.)
pub fn is_image_extension(ext: &str) -> (r: bool)
    ensures
        r == image_extension(ext@.map_values(|c: char| ascii_lower(c))),
{
    let cs = chars_of(ext);
    let mut low: Vec<char> = Vec::new();
    let mut i: usize = 0;
    while i < cs.len()
        invariant
            i <= cs@.len(),
            cs@ == ext@,
            low@ == cs@.take(i as int).map_values(|c: char| ascii_lower(c)),
        decreases cs.len() - i,
    {
        low.push(crate::scan::to_lower(cs[i]));
        proof {
            assert(cs@.take(i + 1).map_values(|c: char| ascii_lower(c)) =~= cs@.take(
                i as int,
            ).map_values(|c: char| ascii_lower(c)).push(ascii_lower(cs@[i as int])));
        }
        i = i + 1;
    }
    proof {
        assert(cs@.take(cs@.len() as int) =~= cs@);
    }
    let s = crate::text::string_of(low.as_slice(), 0, low.len());
    proof {
        assert(low@.subrange(0, low@.len() as int) =~= low@);
    }
    let t = s.as_str();
    crate::text::str_eq(t, "jpg") || crate::text::str_eq(t, "jpeg") || crate::text::str_eq(t, "png")
        || crate::text::str_eq(t, "gif") || crate::text::str_eq(t, "bmp") || crate::text::str_eq(
        t,
        "webp",
    )
}

// ==================== folders ====================

/// The entry a comic folder becomes: its sub-folders are its chapters and
/// the first image found in one of them is the cover; a folder without
/// sub-folders but with an image of its own counts as one chapter with that
/// cover; a folder with no chapter is kept only when it holds anything.
pub open spec fn folder_entry(
    sub_dirs: u32,
    sub_dir_cover: Option<Seq<char>>,
    root_image: Option<Seq<char>>,
    has_content: bool,
) -> Option<(u32, Option<Seq<char>>)> {
    let (count, cover) = if sub_dirs == 0 && root_image is Some {
        (1u32, root_image)
    } else {
        (sub_dirs, sub_dir_cover)
    };
    if count > 0 || has_content {
        Some((count, cover))
    } else {
        None
    }
}

/// A folder with chapter sub-folders counts them as its chapters and takes
/// the first image found in them as its cover, whatever it holds itself; a
/// folder without sub-folders but with an image of its own is one chapter
/// with that image as cover; an entry exists exactly when the folder has a
/// chapter, an image or any content.
pub proof fn lemma_folder_entry_cover(
    sub_dirs: u32,
    sub_dir_cover: Option<Seq<char>>,
    root_image: Option<Seq<char>>,
    has_content: bool,
)
    ensures
        sub_dirs > 0 ==> folder_entry(sub_dirs, sub_dir_cover, root_image, has_content) == Some(
            (sub_dirs, sub_dir_cover),
        ),
        sub_dirs == 0 && root_image is Some ==> folder_entry(
            sub_dirs,
            sub_dir_cover,
            root_image,
            has_content,
        ) == Some((1u32, root_image)),
        folder_entry(sub_dirs, sub_dir_cover, root_image, has_content) is Some <==> (sub_dirs > 0
            || root_image is Some || has_content),
        folder_entry(sub_dirs, sub_dir_cover, root_image, has_content) matches Some((n, c)) ==> (n
            == 0 ==> c == sub_dir_cover),
{
}

/// The characters of an optional string.
pub open spec fn opt_chars(o: Option<String>) -> Option<Seq<char>> {
    match o {
        Some(s) => Some(s@),
        None => None,
    }
}

/// The entry for a comic folder named `name` at `path`, given what was
/// found inside it (see `folder_entry`).
pub fn local_entry(
    name: String,
    path: String,
    sub_dirs: u32,
    sub_dir_cover: Option<String>,
    root_image: Option<String>,
    has_content: bool,
) -> (r: Option<LocalComicEntry>)
    ensures
        match folder_entry(sub_dirs, opt_chars(sub_dir_cover), opt_chars(root_image), has_content) {
            Some((count, cover)) => r matches Some(e) && e.name == name && e.path == path
                && e.chapter_count == count && opt_chars(e.cover_path) == cover,
            None => r is None,
        },
{
    let (count, cover) = if sub_dirs == 0 && root_image.is_some() {
        (1u32, root_image)
    } else {
        (sub_dirs, sub_dir_cover)
    };
    if count > 0 || has_content {
        Some(LocalComicEntry { name, path, cover_path: cover, chapter_count: count })
    } else {
        None
    }
}

/// The name of a folder, or "unknown" when it has none that reads as text.
pub fn folder_name_or_unknown(name: Option<String>) -> (r: String)
    ensures
        r@ == match name {
            Some(n) => n@,
            None => "未知"@,
        },
{
    match name {
        Some(n) => n,
        None => String::from_str("未知"),
    }
}

// ==================== order by name ====================

/// `a` comes before `b` or equals it, comparing characters in turn (the
/// order of `str`, whose bytes compare as their characters do).
pub open spec fn name_le(a: Seq<char>, b: Seq<char>) -> bool
    decreases a.len(),
{
    if a.len() == 0 {
        true
    } else if b.len() == 0 {
        false
    } else if a[0] != b[0] {
        a[0] < b[0]
    } else {
        name_le(a.drop_first(), b.drop_first())
    }
}

proof fn lemma_name_le_total(a: Seq<char>, b: Seq<char>)
    ensures
        name_le(a, b) || name_le(b, a),
    decreases a.len(),
{
    if a.len() > 0 && b.len() > 0 && a[0] == b[0] {
        lemma_name_le_total(a.drop_first(), b.drop_first());
    }
}

proof fn lemma_name_le_trans(a: Seq<char>, b: Seq<char>, c: Seq<char>)
    requires
        name_le(a, b),
        name_le(b, c),
    ensures
        name_le(a, c),
    decreases a.len(),
{
    if a.len() > 0 && b.len() > 0 && c.len() > 0 && a[0] == b[0] && b[0] == c[0] {
        lemma_name_le_trans(a.drop_first(), b.drop_first(), c.drop_first());
    }
}

fn name_le_exec(a: &[char], b: &[char]) -> (r: bool)
    ensures
        r == name_le(a@, b@),
{
    let mut i: usize = 0;
    proof {
        assert(a@.skip(0) =~= a@);
        assert(b@.skip(0) =~= b@);
    }
    while i < a.len() && i < b.len() && a[i] == b[i]
        invariant
            i <= a@.len(),
            i <= b@.len(),
            name_le(a@, b@) == name_le(a@.skip(i as int), b@.skip(i as int)),
        decreases a.len() - i,
    {
        proof {
            assert(a@.skip(i as int).drop_first() =~= a@.skip(i + 1));
            assert(b@.skip(i as int).drop_first() =~= b@.skip(i + 1));
        }
        i = i + 1;
    }
    if i == a.len() {
        return true;
    }
    if i == b.len() {
        return false;
    }
    a[i] < b[i]
}

/// A file of a folder, given by its path and its extension, is an image.
pub open spec fn is_image_file(f: (Seq<char>, Seq<char>)) -> bool {
    image_extension(f.1.map_values(|c: char| ascii_lower(c)))
}

/// The files of a folder as (path, extension) pairs of plain values.
pub open spec fn files_view(files: Seq<(String, String)>) -> Seq<(Seq<char>, Seq<char>)> {
    files.map_values(|f: (String, String)| (f.0@, f.1@))
}

/// The cover of a folder: of its files, given as (path, extension), the
/// image whose path comes first. Gives its index, or `None` when the folder
/// holds no image.
pub fn first_image(files: &Vec<(String, String)>) -> (r: Option<usize>)
    ensures
        match r {
            Some(i) => {
                &&& i < files@.len()
                &&& is_image_file(files_view(files@)[i as int])
                &&& forall|j: int|
                    0 <= j < files@.len() && is_image_file(#[trigger] files_view(files@)[j])
                        ==> name_le(files@[i as int].0@, files@[j].0@)
            },
            None => forall|j: int|
                0 <= j < files@.len() ==> !is_image_file(#[trigger] files_view(files@)[j]),
        },
{
    let mut best: Option<usize> = None;
    let mut best_chars: Vec<char> = Vec::new();
    let mut i: usize = 0;
    while i < files.len()
        invariant
            i <= files@.len(),
            match best {
                Some(b) => {
                    &&& b < i
                    &&& best_chars@ == files@[b as int].0@
                    &&& is_image_file(files_view(files@)[b as int])
                    &&& forall|j: int|
                        0 <= j < i && is_image_file(#[trigger] files_view(files@)[j]) ==> name_le(
                            files@[b as int].0@,
                            files@[j].0@,
                        )
                },
                None => forall|j: int|
                    0 <= j < i ==> !is_image_file(#[trigger] files_view(files@)[j]),
            },
        decreases files.len() - i,
    {
        let image = is_image_extension(files[i].1.as_str());
        proof {
            assert(files_view(files@)[i as int] == (files@[i as int].0@, files@[i as int].1@));
        }
        if image {
            let cs = chars_of(files[i].0.as_str());
            match best {
                None => {
                    best = Some(i);
                    best_chars = cs;
                },
                Some(b) => {
                    let le = name_le_exec(best_chars.as_slice(), cs.as_slice());
                    if !le {
                        proof {
                            lemma_name_le_total(files@[b as int].0@, files@[i as int].0@);
                            assert forall|j: int|
                                0 <= j < i + 1 && is_image_file(
                                    #[trigger] files_view(files@)[j],
                                ) implies name_le(files@[i as int].0@, files@[j].0@) by {
                                if j < i {
                                    lemma_name_le_trans(
                                        files@[i as int].0@,
                                        files@[b as int].0@,
                                        files@[j].0@,
                                    );
                                } else {
                                    lemma_name_le_refl(files@[i as int].0@);
                                }
                            }
                        }
                        best = Some(i);
                        best_chars = cs;
                    }
                },
            }
        }
        proof {
            if image && best == Some(i) {
                lemma_name_le_refl(files@[i as int].0@);
            }
        }
        i = i + 1;
    }
    best
}

proof fn lemma_name_le_refl(a: Seq<char>)
    ensures
        name_le(a, a),
    decreases a.len(),
{
    if a.len() > 0 {
        lemma_name_le_refl(a.drop_first());
    }
}

/// `s` with `e` put after the last entry whose name is not after `e`'s (one
/// step of a stable sort by name).
pub open spec fn insert_by_name(s: Seq<LocalComicEntry>, e: LocalComicEntry) -> Seq<LocalComicEntry>
    decreases s.len(),
{
    if s.len() == 0 {
        seq![e]
    } else if name_le(s.last().name@, e.name@) {
        s.push(e)
    } else {
        insert_by_name(s.drop_last(), e).push(s.last())
    }
}

/// The entries sorted by name, entries of equal name keeping their order
/// (what a stable sort by name gives).
pub open spec fn sorted_by_name(s: Seq<LocalComicEntry>) -> Seq<LocalComicEntry>
    decreases s.len(),
{
    if s.len() == 0 {
        s
    } else {
        insert_by_name(sorted_by_name(s.drop_last()), s.last())
    }
}

/// Names never go back along `s`.
pub open spec fn is_sorted_by_name(s: Seq<LocalComicEntry>) -> bool {
    forall|i: int, j: int| 0 <= i < j < s.len() ==> name_le(s[i].name@, s[j].name@)
}

proof fn lemma_insert_by_name_at(s: Seq<LocalComicEntry>, e: LocalComicEntry, p: int)
    requires
        0 <= p <= s.len(),
        forall|j: int| p <= j < s.len() ==> !name_le(#[trigger] s[j].name@, e.name@),
        p == 0 || name_le(s[p - 1].name@, e.name@),
    ensures
        insert_by_name(s, e) == s.insert(p, e),
    decreases s.len(),
{
    if s.len() == 0 {
        assert(s.insert(p, e) =~= seq![e]);
    } else if p == s.len() {
        assert(s.insert(p, e) =~= s.push(e));
    } else {
        assert(!name_le(s[s.len() - 1].name@, e.name@));
        lemma_insert_by_name_at(s.drop_last(), e, p);
        assert(s.drop_last().insert(p, e).push(s.last()) =~= s.insert(p, e));
    }
}

proof fn lemma_insert_by_name_sorted(s: Seq<LocalComicEntry>, e: LocalComicEntry)
    requires
        is_sorted_by_name(s),
    ensures
        is_sorted_by_name(insert_by_name(s, e)),
        insert_by_name(s, e).len() == s.len() + 1,
        forall|k: int| 0 <= k < insert_by_name(s, e).len() ==> (#[trigger] insert_by_name(s, e)[k]
            == e || s.contains(insert_by_name(s, e)[k])),
    decreases s.len(),
{
    if s.len() == 0 {
    } else if name_le(s.last().name@, e.name@) {
        let r = s.push(e);
        assert forall|k: int| 0 <= k < r.len() implies (#[trigger] r[k] == e || s.contains(r[k])) by {
            if k < s.len() {
                assert(r[k] == s[k]);
            }
        }
        assert forall|i: int, j: int| 0 <= i < j < r.len() implies name_le(r[i].name@, r[j].name@) by {
            if j == s.len() {
                if i < s.len() - 1 {
                    lemma_name_le_trans(s[i].name@, s[s.len() - 1].name@, e.name@);
                }
            } else {
                assert(r[i] == s[i] && r[j] == s[j]);
            }
        }
    } else {
        let t = s.drop_last();
        assert(is_sorted_by_name(t)) by {
            assert forall|i: int, j: int| 0 <= i < j < t.len() implies name_le(t[i].name@, t[j].name@) by {
                assert(t[i] == s[i] && t[j] == s[j]);
            }
        }
        lemma_insert_by_name_sorted(t, e);
        let u = insert_by_name(t, e);
        let r = u.push(s.last());
        lemma_name_le_total(s.last().name@, e.name@);
        assert forall|k: int| 0 <= k < r.len() implies (#[trigger] r[k] == e || s.contains(r[k])) by {
            if k < u.len() {
                assert(r[k] == u[k]);
                if u[k] != e {
                    let w = choose|w: int| 0 <= w < t.len() && t[w] == u[k];
                    assert(s[w] == u[k]);
                }
            } else {
                assert(s[s.len() - 1] == r[k]);
            }
        }
        assert forall|i: int, j: int| 0 <= i < j < r.len() implies name_le(r[i].name@, r[j].name@) by {
            if j == r.len() - 1 {
                assert(r[i] == u[i]);
                if u[i] == e {
                } else {
                    let w = choose|w: int| 0 <= w < t.len() && t[w] == u[i];
                    assert(s[w] == t[w]);
                }
            } else {
                assert(r[i] == u[i] && r[j] == u[j]);
            }
        }
    }
}

/// The scanned comics come out ordered by name, all of them.
pub proof fn lemma_sorted_by_name_is_sorted(s: Seq<LocalComicEntry>)
    ensures
        is_sorted_by_name(sorted_by_name(s)),
        sorted_by_name(s).len() == s.len(),
    decreases s.len(),
{
    if s.len() > 0 {
        lemma_sorted_by_name_is_sorted(s.drop_last());
        lemma_insert_by_name_sorted(sorted_by_name(s.drop_last()), s.last());
    }
}

/// Sorts the entries by name, keeping entries of equal name in order.
pub fn sort_by_name(entries: Vec<LocalComicEntry>) -> (r: Vec<LocalComicEntry>)
    ensures
        r@ == sorted_by_name(entries@),
{
    let mut input = entries;
    let ghost all = input@;
    let total = input.len();
    let mut r: Vec<LocalComicEntry> = Vec::new();
    let mut taken: usize = 0;
    while input.len() > 0
        invariant
            taken + input@.len() == all.len(),
            all.len() == total,
            input@ == all.subrange(taken as int, all.len() as int),
            r@ == sorted_by_name(all.subrange(0, taken as int)),
        decreases input@.len(),
    {
        let e = input.remove(0);
        let en = chars_of(e.name.as_str());
        let mut p = r.len();
        while p > 0 && !name_le_exec(chars_of(r[p - 1].name.as_str()).as_slice(), en.as_slice())
            invariant
                p <= r@.len(),
                en@ == e.name@,
                forall|j: int| p <= j < r@.len() ==> !name_le(#[trigger] r@[j].name@, e.name@),
            decreases p,
        {
            p = p - 1;
        }
        proof {
            lemma_insert_by_name_at(r@, e, p as int);
            let next = all.subrange(0, taken + 1);
            assert(next.drop_last() =~= all.subrange(0, taken as int));
            assert(next.last() == e);
        }
        r.insert(p, e);
        taken = taken + 1;
        proof {
            assert(input@ =~= all.subrange(taken as int, all.len() as int));
        }
    }
    proof {
        assert(all.subrange(0, taken as int) =~= all);
    }
    r
}

// ==================== the page ====================

/// What a refresh of the page does.
pub enum LocalView {
    /// The scan failed: its message is shown.
    ShowError(String),
    /// Nothing to change.
    Keep,
    /// No comic: the hint is shown.
    ShowEmptyHint,
    /// The comic cards are made.
    ShowCards,
}

impl LocalReadState {
    /// An empty page.
    pub fn new() -> (s: Self)
        ensures
            s.entries@.len() == 0,
            !s.is_scanning,
            s.error is None,
    {
        LocalReadState { entries: Vec::new(), is_scanning: false, error: None }
    }

    /// The scan button: a scan starts unless one runs, clearing the list and
    /// the error; says whether it started.
    pub fn handle_scan_local_comics(&mut self) -> (started: bool)
        ensures
            started == !old(self).is_scanning,
            started ==> final(self).is_scanning && final(self).error is None
                && final(self).entries@.len() == 0,
            !started ==> final(self).entries@ == old(self).entries@ && final(self).error
                == old(self).error && final(self).is_scanning,
    {
        if self.is_scanning {
            return false;
        }
        self.is_scanning = true;
        self.error = None;
        self.entries.clear();
        true
    }

    /// A scan finished.
    pub fn handle_scan_completed(&mut self, entries: Vec<LocalComicEntry>)
        ensures
            !final(self).is_scanning,
            final(self).entries@ == entries@,
            final(self).error is None,
    {
        self.is_scanning = false;
        self.entries = entries;
        self.error = None;
    }

    /// A scan failed.
    pub fn handle_scan_failed(&mut self, error: String)
        ensures
            !final(self).is_scanning,
            final(self).error == Some(error),
            final(self).entries@ == old(self).entries@,
    {
        self.is_scanning = false;
        self.error = Some(error);
    }

    /// What a refresh does, given whether cards, the empty hint and the
    /// loading indicator are on the page.
    pub fn refresh_local_read_ui(&self, has_cards: bool, has_empty_hint: bool, has_loading: bool) -> (r: LocalView)
        ensures
            match self.error {
                Some(e) => r matches LocalView::ShowError(m) && m@ == "扫描失败: "@ + e@,
                None => if self.is_scanning {
                    r is Keep
                } else if self.entries@.len() == 0 {
                    if !has_cards && !has_empty_hint && !has_loading {
                        r is ShowEmptyHint
                    } else {
                        r is Keep
                    }
                } else if has_cards {
                    r is Keep
                } else {
                    r is ShowCards
                },
            },
    {
        match &self.error {
            Some(e) => LocalView::ShowError(concat_str("扫描失败: ", e.as_str())),
            None => if self.is_scanning {
                LocalView::Keep
            } else if self.entries.len() == 0 {
                if !has_cards && !has_empty_hint && !has_loading {
                    LocalView::ShowEmptyHint
                } else {
                    LocalView::Keep
                }
            } else if has_cards {
                LocalView::Keep
            } else {
                LocalView::ShowCards
            },
        }
    }
}

/// The chapter count line of a card.
pub fn chapter_label(count: u32) -> (r: String)
    ensures
        r@ == decimal_digits(count as nat) + " 个章节"@,
{
    concat_str(u64_to_string(count as u64).as_str(), " 个章节")
}

/// The path line of a card: at most 50 characters, keeping the end.
pub fn card_path_text(path: &str) -> (r: String)
    ensures
        r@ == path_tail(path@, 50),
{
    truncate_path(path, 50)
}

} // verus!
