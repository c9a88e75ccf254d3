//! Path rules and responses of the static file server.
use vstd::prelude::*;

use crate::text::{append_chars, append_str, chars_of, path_debug, path_debug_text, push_char};

verus! {

/// The pieces of `s` between slashes, empty ones included.
pub open spec fn path_pieces(s: Seq<char>) -> Seq<Seq<char>>
    decreases s.len(),
{
    if s.len() == 0 {
        seq![Seq::<char>::empty()]
    } else {
        let p = path_pieces(s.drop_last());
        if s.last() == '/' {
            p.push(Seq::<char>::empty())
        } else {
            p.update(p.len() - 1, p.last().push(s.last()))
        }
    }
}

proof fn lemma_path_pieces_len(s: Seq<char>)
    ensures
        path_pieces(s).len() >= 1,
    decreases s.len(),
{
    if s.len() > 0 {
        lemma_path_pieces_len(s.drop_last());
    }
}

/// Whether a piece names a directory entry: not empty and not `.`.
pub open spec fn is_named_piece(p: Seq<char>) -> bool {
    p.len() > 0 && p != seq!['.']
}

/// The named pieces of `pieces`, in order.
pub open spec fn named_pieces(pieces: Seq<Seq<char>>) -> Seq<Seq<char>>
    decreases pieces.len(),
{
    if pieces.len() == 0 {
        pieces
    } else {
        let rest = named_pieces(pieces.drop_last());
        if is_named_piece(pieces.last()) {
            rest.push(pieces.last())
        } else {
            rest
        }
    }
}

/// The components of a path as `std::path::Path::components` yields them
/// on Unix: the root (written `/`) for an absolute path, a leading `.` of a
/// relative path, then every piece that is neither empty nor `.`.
pub open spec fn path_components(s: Seq<char>) -> Seq<Seq<char>> {
    let pieces = path_pieces(s);
    if s.len() > 0 && s[0] == '/' {
        seq![seq!['/']] + named_pieces(pieces)
    } else if pieces[0] == seq!['.'] {
        seq![seq!['.']] + named_pieces(pieces)
    } else {
        named_pieces(pieces)
    }
}

/// Whether `path` starts with `base` as `Path::starts_with` decides it:
/// the components of `base` begin the components of `path`.
pub open spec fn path_starts_with(path: Seq<char>, base: Seq<char>) -> bool {
    let b = path_components(base);
    let p = path_components(path);
    b.len() <= p.len() && p.take(b.len() as int) == b
}

/// The texts of a list of character vectors.
pub open spec fn char_rows(v: Seq<Vec<char>>) -> Seq<Seq<char>> {
    v.map_values(|x: Vec<char>| x@)
}

fn chars_equal(a: &Vec<char>, b: &Vec<char>) -> (r: bool)
    ensures
        r == (a@ == b@),
{
    if a.len() != b.len() {
        return false;
    }
    let n = a.len();
    let mut i: usize = 0;
    while i < n
        invariant
            n == a@.len(),
            n == b@.len(),
            i <= n,
            forall|j: int| 0 <= j < i ==> a@[j] == b@[j],
        decreases n - i,
    {
        if a[i] != b[i] {
            return false;
        }
        i = i + 1;
    }
    assert(a@ =~= b@);
    true
}

fn pieces_of(s: &Vec<char>) -> (pieces: Vec<Vec<char>>)
    ensures
        char_rows(pieces@) == path_pieces(s@),
{
    let mut done: Vec<Vec<char>> = Vec::new();
    let mut cur: Vec<char> = Vec::new();
    let n = s.len();
    let mut i: usize = 0;
    while i < n
        invariant
            n == s@.len(),
            i <= n,
            char_rows(done@).push(cur@) == path_pieces(s@.take(i as int)),
        decreases n - i,
    {
        let ghost before = char_rows(done@).push(cur@);
        assert(s@.take(i + 1).drop_last() =~= s@.take(i as int));
        if s[i] == '/' {
            done.push(cur);
            cur = Vec::new();
            assert(char_rows(done@).push(cur@) =~= before.push(Seq::<char>::empty()));
        } else {
            cur.push(s[i]);
            assert(char_rows(done@).push(cur@) =~= before.update(
                before.len() - 1,
                before.last().push(s@[i as int]),
            ));
        }
        i = i + 1;
    }
    assert(s@.take(n as int) =~= s@);
    done.push(cur);
    done
}

fn is_named(p: &Vec<char>) -> (r: bool)
    ensures
        r == is_named_piece(p@),
{
    let dot = p.len() == 1 && p[0] == '.';
    proof {
        if p@.len() == 1 && p@[0] == '.' {
            assert(p@ =~= seq!['.']);
        }
    }
    p.len() > 0 && !dot
}

/// The components of `s`, as [`path_components`] describes them.
fn components_of(s: &str) -> (c: Vec<Vec<char>>)
    ensures
        char_rows(c@) == path_components(s@),
{
    let chars = chars_of(s);
    let pieces = pieces_of(&chars);
    proof {
        lemma_path_pieces_len(s@);
    }
    let mut c: Vec<Vec<char>> = Vec::new();
    if chars.len() > 0 && chars[0] == '/' {
        let mut root: Vec<char> = Vec::new();
        root.push('/');
        assert(root@ =~= seq!['/']);
        c.push(root);
        assert(char_rows(c@) =~= seq![seq!['/']]);
    } else if pieces[0].len() == 1 && pieces[0][0] == '.' {
        assert(pieces@[0]@ =~= seq!['.']);
        let mut dot: Vec<char> = Vec::new();
        dot.push('.');
        assert(dot@ =~= seq!['.']);
        c.push(dot);
        assert(char_rows(c@) =~= seq![seq!['.']]);
    } else {
        assert(char_rows(c@) =~= Seq::<Seq<char>>::empty());
        assert(pieces@[0]@ != seq!['.']) by {
            if pieces@[0]@ == seq!['.'] {
                assert(pieces@[0]@.len() == 1);
            }
        }
    }
    let ghost head = char_rows(c@);
    let n = pieces.len();
    let mut i: usize = 0;
    while i < n
        invariant
            n == pieces@.len(),
            i <= n,
            char_rows(pieces@) == path_pieces(s@),
            char_rows(c@) == head + named_pieces(char_rows(pieces@).take(i as int)),
        decreases n - i,
    {
        assert(char_rows(pieces@).take(i + 1).drop_last() =~= char_rows(pieces@).take(i as int));
        if is_named(&pieces[i]) {
            let piece = pieces[i].clone();
            assert(piece@ =~= pieces@[i as int]@);
            let ghost rows_before = char_rows(c@);
            c.push(piece);
            assert(char_rows(c@) =~= rows_before.push(piece@));
            let ghost t1 = char_rows(pieces@).take(i + 1);
            assert(t1.last() == pieces@[i as int]@);
            assert(named_pieces(t1) == named_pieces(t1.drop_last()).push(t1.last()));
            assert(char_rows(c@) =~= head + named_pieces(char_rows(pieces@).take(i + 1)));
        } else {
            let ghost t1 = char_rows(pieces@).take(i + 1);
            assert(t1.last() == pieces@[i as int]@);
            assert(named_pieces(t1) == named_pieces(t1.drop_last()));
        }
        i = i + 1;
    }
    assert(char_rows(pieces@).take(n as int) =~= char_rows(pieces@));
    c
}

/// Whether `path` starts with `base`, component by component.
pub fn starts_with_path(path: &str, base: &str) -> (r: bool)
    ensures
        r == path_starts_with(path@, base@),
{
    let p = components_of(path);
    let b = components_of(base);
    if b.len() > p.len() {
        return false;
    }
    let n = b.len();
    let mut i: usize = 0;
    while i < n
        invariant
            n == b@.len(),
            n <= p@.len(),
            char_rows(p@) == path_components(path@),
            char_rows(b@) == path_components(base@),
            i <= n,
            forall|j: int| 0 <= j < i ==> p@[j]@ == b@[j]@,
        decreases n - i,
    {
        if !chars_equal(&p[i], &b[i]) {
            assert(char_rows(p@).take(n as int)[i as int] != char_rows(b@)[i as int]);
            return false;
        }
        i = i + 1;
    }
    assert(char_rows(p@).take(n as int) =~= char_rows(b@));
    true
}

/// `s` without the leading characters equal to `c`.
pub open spec fn strip_start(s: Seq<char>, c: char) -> Seq<char>
    decreases s.len(),
{
    if s.len() > 0 && s[0] == c {
        strip_start(s.drop_first(), c)
    } else {
        s
    }
}

/// `s` without the trailing characters equal to `c`.
pub open spec fn strip_end(s: Seq<char>, c: char) -> Seq<char>
    decreases s.len(),
{
    if s.len() > 0 && s.last() == c {
        strip_end(s.drop_last(), c)
    } else {
        s
    }
}

/// `s` without leading `c` characters (`str::trim_start_matches`).
fn strip_start_of(s: &Vec<char>, c: char) -> (t: Vec<char>)
    ensures
        t@ == strip_start(s@, c),
{
    let n = s.len();
    let mut i: usize = 0;
    assert(s@.subrange(0, n as int) =~= s@);
    while i < n && s[i] == c
        invariant
            n == s@.len(),
            i <= n,
            strip_start(s@, c) == strip_start(s@.subrange(i as int, n as int), c),
        decreases n - i,
    {
        assert(s@.subrange(i as int, n as int).drop_first() =~= s@.subrange(i + 1, n as int));
        i = i + 1;
    }
    let mut t: Vec<char> = Vec::new();
    let mut k: usize = i;
    while k < n
        invariant
            n == s@.len(),
            i <= k <= n,
            t@ == s@.subrange(i as int, k as int),
        decreases n - k,
    {
        t.push(s[k]);
        assert(s@.subrange(i as int, k as int).push(s@[k as int]) =~= s@.subrange(i as int, k + 1));
        k = k + 1;
    }
    t
}

/// `s` without trailing `c` characters (`str::trim_end_matches`).
fn strip_end_of(s: &Vec<char>, c: char) -> (t: Vec<char>)
    ensures
        t@ == strip_end(s@, c),
{
    let n = s.len();
    let mut j: usize = n;
    assert(s@.subrange(0, n as int) =~= s@);
    while j > 0 && s[j - 1] == c
        invariant
            n == s@.len(),
            j <= n,
            strip_end(s@, c) == strip_end(s@.subrange(0, j as int), c),
        decreases j,
    {
        assert(s@.subrange(0, j as int).drop_last() =~= s@.subrange(0, j - 1));
        j = j - 1;
    }
    let mut t: Vec<char> = Vec::new();
    let mut k: usize = 0;
    while k < j
        invariant
            n == s@.len(),
            k <= j <= n,
            t@ == s@.subrange(0, k as int),
        decreases j - k,
    {
        t.push(s[k]);
        assert(s@.subrange(0, k as int).push(s@[k as int]) =~= s@.subrange(0, k + 1));
        k = k + 1;
    }
    t
}

/// `rel` appended to `root` as `PathBuf::push` appends a relative path:
/// with a `/` between them unless `root` is empty or already ends in one.
pub open spec fn join_path(root: Seq<char>, rel: Seq<char>) -> Seq<char> {
    if root.len() == 0 || root.last() == '/' {
        root + rel
    } else {
        root.push('/') + rel
    }
}

/// Why the server could not start.
#[derive(Debug, PartialEq, Eq)]
pub enum ServeError {
    /// The root directory could not be resolved: its path as given, and the
    /// reason the file system gave.
    UnresolvedRoot { path: String, cause: String },
}

impl ServeError {
    /// The text shown for this error.
    pub fn message(&self) -> (m: String)
        ensures
            m@ == (match *self {
                ServeError::UnresolvedRoot { path, .. } => "Cannot resolve root path: "@
                    + path_debug_text(path@),
            }),
    {
        match self {
            ServeError::UnresolvedRoot { path, .. } => {
                let mut m = String::from_str("Cannot resolve root path: ");
                append_str(&mut m, path_debug(path.as_str()).as_str());
                m
            },
        }
    }

    /// The underlying reason, shown below the message.
    pub fn cause(&self) -> (c: String)
        ensures
            c@ == (match *self {
                ServeError::UnresolvedRoot { cause, .. } => cause@,
            }),
    {
        match self {
            ServeError::UnresolvedRoot { cause, .. } => cause.clone(),
        }
    }
}

/// The directory the server serves, as a canonical path.
#[derive(Debug, PartialEq, Eq)]
pub struct HttpServeState {
    /// Canonical path of the served directory.
    pub root: String,
}

impl HttpServeState {
    /// The state for serving `path`, given what canonicalizing it gave: the
    /// canonical path, or the reason it failed.
    pub fn new(path: &str, canonical: Result<String, String>) -> (res: Result<HttpServeState, ServeError>)
        ensures
            canonical matches Err(e) ==> (res matches Err(ServeError::UnresolvedRoot { path: p, cause: c })
                && p@ == path@ && c@ == e@),
            canonical matches Ok(c) ==> (res matches Ok(state) && state.root@ == c@),
    {
        match canonical {
            Ok(root) => Ok(HttpServeState { root }),
            Err(cause) => Err(ServeError::UnresolvedRoot { path: String::from_str(path), cause }),
        }
    }

    /// The path a request for `rel` resolves to before canonicalization:
    /// leading slashes dropped, then joined to the root; `None` for a path
    /// holding a NUL character.
    pub fn join_request(&self, rel: &str) -> (res: Option<String>)
        ensures
            res is None <==> strip_start(rel@, '/').contains('\0'),
            res matches Some(p) ==> p@ == join_path(self.root@, strip_start(rel@, '/')),
    {
        let chars = chars_of(rel);
        let stripped = strip_start_of(&chars, '/');
        let n = stripped.len();
        let mut i: usize = 0;
        while i < n
            invariant
                n == stripped@.len(),
                stripped@ == strip_start(rel@, '/'),
                i <= n,
                forall|j: int| 0 <= j < i ==> stripped@[j] != '\0',
            decreases n - i,
        {
            if stripped[i] == '\0' {
                assert(stripped@[i as int] == '\0');
                return None;
            }
            i = i + 1;
        }
        let mut joined = self.root.clone();
        let root_chars = chars_of(self.root.as_str());
        if root_chars.len() > 0 && root_chars[root_chars.len() - 1] != '/' {
            push_char(&mut joined, '/');
        }
        append_chars(&mut joined, stripped.as_slice());
        Some(joined)
    }

    /// Accepts a canonicalized request path only if it lies under the root;
    /// `None` also where canonicalization failed (a missing file).
    pub fn safe_join(&self, canonical: Option<String>) -> (res: Option<String>)
        ensures
            res is Some <==> (canonical matches Some(c) && path_starts_with(c@, self.root@)),
            res matches Some(p) ==> (canonical matches Some(c) && p@ == c@),
    {
        match canonical {
            Some(c) => {
                if starts_with_path(c.as_str(), self.root.as_str()) {
                    Some(c)
                } else {
                    None
                }
            },
            None => None,
        }
    }
}

/// One entry of a directory being listed.
#[derive(Debug, PartialEq, Eq)]
pub struct DirEntryInfo {
    /// The entry's file name.
    pub name: String,
    /// Whether the entry is a directory.
    pub is_dir: bool,
}

/// The names and kinds of a list of entries.
pub open spec fn entry_views(entries: Seq<DirEntryInfo>) -> Seq<(Seq<char>, bool)> {
    entries.map_values(|e: DirEntryInfo| (e.name@, e.is_dir))
}

/// What follows an entry's name in a listing: `/` for a directory.
pub open spec fn entry_suffix(is_dir: bool) -> Seq<char> {
    if is_dir {
        "/"@
    } else {
        Seq::<char>::empty()
    }
}

/// Trimming `c` from the end keeps a prefix of `s` in place and drops only
/// a run of `c` behind it: `s` is the result followed by `c`s, and the
/// result does not end in `c`.
pub proof fn lemma_strip_end_shape(s: Seq<char>, c: char)
    ensures
        strip_end(s, c).len() <= s.len(),
        strip_end(s, c) == s.take(strip_end(s, c).len() as int),
        forall|i: int| strip_end(s, c).len() <= i < s.len() ==> s[i] == c,
        strip_end(s, c).len() > 0 ==> strip_end(s, c).last() != c,
    decreases s.len(),
{
    if s.len() > 0 && s.last() == c {
        lemma_strip_end_shape(s.drop_last(), c);
        let t = strip_end(s.drop_last(), c);
        assert(s.drop_last().take(t.len() as int) =~= s.take(t.len() as int));
        assert forall|i: int| t.len() <= i < s.len() implies s[i] == c by {
            if i < s.len() - 1 {
                assert(s.drop_last()[i] == s[i]);
            }
        }
    } else {
        assert(s.take(s.len() as int) =~= s);
    }
}

/// Trimming `c` from the start keeps a suffix of `s` in place and drops
/// only a run of `c` in front of it: `s` is `c`s followed by the result, and
/// the result does not start with `c`.
pub proof fn lemma_strip_start_shape(s: Seq<char>, c: char)
    ensures
        strip_start(s, c).len() <= s.len(),
        strip_start(s, c) == s.skip(s.len() - strip_start(s, c).len()),
        forall|i: int| 0 <= i < s.len() - strip_start(s, c).len() ==> s[i] == c,
        strip_start(s, c).len() > 0 ==> strip_start(s, c)[0] != c,
    decreases s.len(),
{
    if s.len() > 0 && s[0] == c {
        lemma_strip_start_shape(s.drop_first(), c);
        let t = strip_start(s.drop_first(), c);
        assert(s.drop_first().skip(s.len() - 1 - t.len()) =~= s.skip(s.len() - t.len()));
        assert forall|i: int| 0 <= i < s.len() - t.len() implies s[i] == c by {
            if i > 0 {
                assert(s.drop_first()[i - 1] == s[i]);
            }
        }
    } else {
        assert(s.skip(0) =~= s);
    }
}

/// The link to an entry names the requested directory with its inner
/// slashes kept: for a directory path that neither starts nor ends with
/// `/`, the link is `/`, the path, `/`, the name, and `/` for a directory.
pub proof fn lemma_listing_href_keeps_path(rel: Seq<char>, name: Seq<char>, is_dir: bool)
    requires
        rel.len() > 0 ==> rel[0] != '/' && rel.last() != '/',
    ensures
        listing_href(rel, name, is_dir) == "/"@ + rel + "/"@ + name + (if is_dir {
            "/"@
        } else {
            Seq::<char>::empty()
        }),
{
    lemma_strip_start_shape(rel, '/');
    lemma_strip_end_shape(rel, '/');
    let a = strip_start(rel, '/');
    if a.len() < rel.len() {
        assert(rel[0] == '/');
    }
    assert(rel.skip(0) =~= rel);
    lemma_strip_end_shape(a, '/');
    let b = strip_end(a, '/');
    if b.len() < a.len() {
        assert(a[a.len() - 1] == '/');
    }
    assert(a.take(a.len() as int) =~= a);
}

/// The link to an entry of the directory requested as `rel`.
pub open spec fn listing_href(rel: Seq<char>, name: Seq<char>, is_dir: bool) -> Seq<char> {
    "/"@ + strip_end(strip_start(rel, '/'), '/') + "/"@ + name + entry_suffix(is_dir)
}

/// The list item for one entry.
pub open spec fn listing_row(rel: Seq<char>, name: Seq<char>, is_dir: bool) -> Seq<char> {
    "<li><a href=\""@ + listing_href(rel, name, is_dir) + "\">"@ + name + entry_suffix(is_dir)
        + "</a></li>\n"@
}

/// The list items for all entries, in order.
pub open spec fn listing_rows(rel: Seq<char>, entries: Seq<(Seq<char>, bool)>) -> Seq<char>
    decreases entries.len(),
{
    if entries.len() == 0 {
        Seq::<char>::empty()
    } else {
        listing_rows(rel, entries.drop_last()) + listing_row(
            rel,
            entries.last().0,
            entries.last().1,
        )
    }
}

/// The HTML page listing the directory requested as `rel`.
pub open spec fn listing_page(rel: Seq<char>, entries: Seq<(Seq<char>, bool)>) -> Seq<char> {
    "<!DOCTYPE html><html><head><meta charset=\"utf-8\"><title>Index of /"@ + rel
        + "</title><style>body{font-family:monospace;padding:2rem}a{display:block;padding:.2rem 0}</style></head><body><h2>Index of /"@
        + rel + "</h2><ul>"@ + listing_rows(rel, entries) + "</ul></body></html>"@
}

/// The HTML page that lists `entries` of the directory requested as `rel`.
pub fn directory_listing_html(rel: &str, entries: &Vec<DirEntryInfo>) -> (page: String)
    ensures
        page@ == listing_page(rel@, entry_views(entries@)),
{
    let rel_chars = chars_of(rel);
    let inner = strip_end_of(&strip_start_of(&rel_chars, '/'), '/');
    let mut rows = String::new();
    let n = entries.len();
    let mut i: usize = 0;
    while i < n
        invariant
            n == entries@.len(),
            i <= n,
            inner@ == strip_end(strip_start(rel@, '/'), '/'),
            rows@ == listing_rows(rel@, entry_views(entries@).take(i as int)),
        decreases n - i,
    {
        let entry = &entries[i];
        let suffix = if entry.is_dir {
            "/"
        } else {
            ""
        };
        proof {
            reveal_strlit("");
            assert(suffix@ == entry_suffix(entry.is_dir));
        }
        append_str(&mut rows, "<li><a href=\"");
        append_str(&mut rows, "/");
        append_chars(&mut rows, inner.as_slice());
        append_str(&mut rows, "/");
        append_str(&mut rows, entry.name.as_str());
        append_str(&mut rows, suffix);
        append_str(&mut rows, "\">");
        append_str(&mut rows, entry.name.as_str());
        append_str(&mut rows, suffix);
        append_str(&mut rows, "</a></li>\n");
        proof {
            let t = entry_views(entries@).take(i + 1);
            assert(t.drop_last() =~= entry_views(entries@).take(i as int));
            assert(t.last() == (entry.name@, entry.is_dir));
            assert(rows@ =~= listing_rows(rel@, t));
        }
        i = i + 1;
    }
    assert(entry_views(entries@).take(n as int) =~= entry_views(entries@));
    let mut page = String::from_str("<!DOCTYPE html><html><head><meta charset=\"utf-8\"><title>Index of /");
    append_str(&mut page, rel);
    append_str(&mut page, "</title><style>body{font-family:monospace;padding:2rem}a{display:block;padding:.2rem 0}</style></head><body><h2>Index of /");
    append_str(&mut page, rel);
    append_str(&mut page, "</h2><ul>");
    append_str(&mut page, rows.as_str());
    append_str(&mut page, "</ul></body></html>");
    assert(page@ =~= listing_page(rel@, entry_views(entries@)));
    page
}

/// The media type that `mime_guess` gives a path (from its extension), or
/// `application/octet-stream` where it knows none.
pub uninterp spec fn mime_type_of(path: Seq<char>) -> Seq<char>;

/// Guesses the media type of `path` with `mime_guess::from_path(..)
/// .first_or_octet_stream()`; the result is named by [`mime_type_of`].
#[verifier::external_body]
fn guess_mime(path: &str) -> (mime: String)
    ensures
        mime@ == mime_type_of(path@),
{
    mime_guess::from_path(path).first_or_octet_stream().to_string()
}

/// What opening a served path told.
#[derive(Debug, PartialEq, Eq)]
pub struct FileFacts {
    /// Whether the path is a directory.
    pub is_dir: bool,
    /// The file's length in bytes.
    pub len: u64,
}

/// The answer to a file request.
#[derive(Debug, PartialEq, Eq)]
pub enum FileReply {
    /// Nothing to serve under that path (status 404).
    NotFound,
    /// Reading the file system failed, for the reason held (status 500).
    ServerError(String),
    /// A directory's `index.html`, as read (status 200).
    IndexPage(Vec<u8>),
    /// A generated listing of a directory (status 200).
    Listing(String),
    /// A file streamed as it is, with its media type and length (status 200).
    File { path: String, content_type: String, length: u64 },
}

impl FileReply {
    /// The HTTP status of this answer.
    pub fn status(&self) -> (code: u16)
        ensures
            code == (match *self {
                FileReply::NotFound => 404u16,
                FileReply::ServerError(_) => 500u16,
                _ => 200u16,
            }),
    {
        match self {
            FileReply::NotFound => 404,
            FileReply::ServerError(_) => 500,
            _ => 200,
        }
    }

    /// The cache policy sent with a streamed file.
    pub fn cache_control(&self) -> (policy: Option<&'static str>)
        ensures
            (self is File) == (policy is Some),
            policy matches Some(p) ==> p@ == "public, max-age=3600"@,
    {
        match self {
            FileReply::File { .. } => Some("public, max-age=3600"),
            _ => None,
        }
    }
}

/// The media type of the HTML answers.
pub fn html_content_type() -> (t: &'static str)
    ensures
        t@ == "text/html; charset=utf-8"@,
{
    "text/html; charset=utf-8"
}

/// What the handler of a file request does next.
#[derive(Debug, PartialEq, Eq)]
pub enum FileStep {
    /// Read the `index.html` at this path.
    ReadIndex(String),
    /// List the directory at this path.
    ListDirectory(String),
    /// Answer.
    Reply(FileReply),
}

/// The step after the served path `target` was opened: a failure is a
/// server error, a directory is answered with its `index.html`, a file is
/// streamed with its guessed media type.
pub fn after_open(target: &str, opened: Result<FileFacts, String>) -> (step: FileStep)
    ensures
        opened matches Err(e) ==> (step matches FileStep::Reply(FileReply::ServerError(m)) && m@
            == e@),
        opened matches Ok(f) ==> (f.is_dir ==> (step matches FileStep::ReadIndex(p) && p@
            == join_path(target@, "index.html"@))),
        opened matches Ok(f) ==> (!f.is_dir ==> (step matches FileStep::Reply(
            FileReply::File { path, content_type, length },
        ) && path@ == target@ && content_type@ == mime_type_of(target@) && length == f.len)),
{
    match opened {
        Err(e) => FileStep::Reply(FileReply::ServerError(e)),
        Ok(facts) => {
            if facts.is_dir {
                let mut index = String::from_str(target);
                let chars = chars_of(target);
                if chars.len() > 0 && chars[chars.len() - 1] != '/' {
                    push_char(&mut index, '/');
                }
                append_str(&mut index, "index.html");
                FileStep::ReadIndex(index)
            } else {
                FileStep::Reply(
                    FileReply::File {
                        path: String::from_str(target),
                        content_type: guess_mime(target),
                        length: facts.len,
                    },
                )
            }
        },
    }
}

/// The step after reading a directory's `index.html`: its bytes are the
/// answer, and without one the directory is listed.
pub fn after_index(target: &str, index: Option<Vec<u8>>) -> (step: FileStep)
    ensures
        index matches Some(b) ==> (step matches FileStep::Reply(FileReply::IndexPage(p)) && p@
            == b@),
        index is None ==> (step matches FileStep::ListDirectory(d) && d@ == target@),
{
    match index {
        Some(bytes) => FileStep::Reply(FileReply::IndexPage(bytes)),
        None => FileStep::ListDirectory(String::from_str(target)),
    }
}

/// The answer after listing the directory requested as `rel`.
pub fn after_listing(rel: &str, listed: Result<Vec<DirEntryInfo>, String>) -> (reply: FileReply)
    ensures
        listed matches Err(e) ==> (reply matches FileReply::ServerError(m) && m@ == e@),
        listed matches Ok(entries) ==> (reply matches FileReply::Listing(page) && page@
            == listing_page(rel@, entry_views(entries@))),
{
    match listed {
        Err(e) => FileReply::ServerError(e),
        Ok(entries) => FileReply::Listing(directory_listing_html(rel, &entries)),
    }
}

} // verus!
