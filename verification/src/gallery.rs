//! The gallery: which files it shows, in which order, and what goes with a
//! file that is deleted.

use vstd::prelude::*;
use vstd::relations::*;
use vstd::seq_lib::*;
use vstd::utf8::*;

use crate::text;
use crate::text::{ends_with, lower, show, str_eq, utf8_text};

verus! {

/// One photo or video of the gallery.
#[derive(Clone, Debug)]
pub struct GalleryItem {
    pub path: String,
    pub name: String,
    pub is_video: bool,
}

/// What a gallery item holds.
pub struct ItemView {
    pub path: Seq<char>,
    pub name: Seq<char>,
    pub is_video: bool,
}

impl View for GalleryItem {
    type V = ItemView;

    open spec fn view(&self) -> ItemView {
        ItemView { path: self.path@, name: self.name@, is_video: self.is_video }
    }
}

/// What a list of gallery items holds.
pub open spec fn item_views(items: Seq<GalleryItem>) -> Seq<ItemView> {
    items.map_values(|i: GalleryItem| i@)
}

/// What an entry of a directory is.
pub enum EntryKind {
    /// A regular file.
    File,
    /// A symbolic link, with the path of the regular file that it leads to,
    /// all links resolved; nothing if it leads to none.
    Link(Option<Vec<u8>>),
    /// Anything else.
    Other,
}

/// An entry of a directory.
pub struct DirEntry {
    pub name: Vec<u8>,
    pub kind: EntryKind,
}

/// A media directory, the same with all links resolved, and its entries as the
/// file system gives them; no entries if the directory cannot be read.
pub struct DirListing {
    pub dir: String,
    pub real_dir: Vec<u8>,
    pub files: Option<Vec<DirEntry>>,
}

/// The rows of a list of byte strings.
pub open spec fn rows(v: Seq<Vec<u8>>) -> Seq<Seq<u8>> {
    v.map_values(|n: Vec<u8>| n@)
}

// ── Links ─────────────────────────────────────────────────────────────────────

/// Whether a path lies below a directory.
pub open spec fn below(path: Seq<u8>, root: Seq<u8>) -> bool {
    let start = joined(root, Seq::empty());
    &&& root.len() > 0
    &&& start.len() < path.len()
    &&& path.take(start.len() as int) == start
}

/// Whether a path lies below one of some directories.
pub open spec fn below_some(path: Seq<u8>, roots: Seq<Seq<u8>>) -> bool {
    exists|k: int| 0 <= k < roots.len() && below(path, #[trigger] roots[k])
}

/// Whether an entry may be given out: a regular file, or a link to one below a
/// media directory. A link that points elsewhere may not.
pub open spec fn admitted(kind: EntryKind, roots: Seq<Seq<u8>>) -> bool {
    match kind {
        EntryKind::File => true,
        EntryKind::Link(Some(target)) => below_some(target@, roots),
        EntryKind::Link(None) => false,
        EntryKind::Other => false,
    }
}

/// The media directories with all links resolved.
pub open spec fn roots_of(listings: Seq<DirListing>) -> Seq<Seq<u8>> {
    listings.map_values(|l: DirListing| l.real_dir@)
}

fn is_below(path: &[u8], root: &[u8]) -> (r: bool)
    ensures
        r == below(path@, root@),
{
    let n = root.len();
    if n == 0 {
        return false;
    }
    let ghost start = joined(root@, Seq::empty());
    let bare = root[n - 1] == 47;
    assert(start =~= (if bare {
        root@
    } else {
        root@ + seq![47u8]
    }));
    if path.len() <= n || (!bare && (path.len() - n < 2 || path[n] != 47)) {
        proof {
            if !bare && path@.len() > n + 1 {
                assert(path@.take(n + 1)[n as int] == path@[n as int]);
            }
        }
        return false;
    }
    let mut i: usize = 0;
    while i < n
        invariant
            i <= n == root@.len(),
            n < path@.len(),
            forall|j: int| 0 <= j < i ==> path@[j] == root@[j],
            start.len() >= n,
            start.len() <= path@.len(),
            forall|j: int| 0 <= j < n ==> start[j] == root@[j],
        decreases n - i,
    {
        if path[i] != root[i] {
            assert(path@.take(start.len() as int)[i as int] != start[i as int]);
            return false;
        }
        i = i + 1;
    }
    assert(path@.take(start.len() as int) =~= start);
    true
}

fn is_below_some(path: &[u8], roots: &Vec<Vec<u8>>) -> (r: bool)
    ensures
        r == below_some(path@, rows(roots@)),
{
    let ghost all = rows(roots@);
    for k in 0..roots.len()
        invariant
            all == rows(roots@),
            forall|j: int| 0 <= j < k ==> !below(path@, #[trigger] all[j]),
    {
        assert(all[k as int] == roots@[k as int]@);
        if is_below(path, roots[k].as_slice()) {
            return true;
        }
    }
    false
}

/// The media directories with all links resolved.
pub fn media_roots(listings: &Vec<DirListing>) -> (r: Vec<Vec<u8>>)
    ensures
        rows(r@) == roots_of(listings@),
{
    let mut roots: Vec<Vec<u8>> = Vec::new();
    for k in 0..listings.len()
        invariant
            roots@.len() == k,
            forall|j: int| 0 <= j < k ==> (#[trigger] roots@[j])@ == listings@[j].real_dir@,
    {
        roots.push(vstd::slice::slice_to_vec(listings[k].real_dir.as_slice()));
    }
    assert(rows(roots@) =~= roots_of(listings@));
    roots
}

/// Whether an entry may be given out.
pub fn is_admitted(kind: &EntryKind, roots: &Vec<Vec<u8>>) -> (r: bool)
    ensures
        r == admitted(*kind, rows(roots@)),
{
    match kind {
        EntryKind::File => true,
        EntryKind::Link(Some(target)) => is_below_some(target.as_slice(), roots),
        EntryKind::Link(None) => false,
        EntryKind::Other => false,
    }
}

// ── Order ─────────────────────────────────────────────────────────────────────

/// Whether `a` comes no later than `b` in the order of their bytes.
pub open spec fn bytes_le(a: Seq<u8>, b: Seq<u8>) -> bool
    decreases a.len(),
{
    a.len() == 0 || (b.len() > 0 && (a[0] < b[0] || (a[0] == b[0] && bytes_le(
        a.drop_first(),
        b.drop_first(),
    ))))
}

/// A file of a media directory.
pub struct Entry {
    pub dir: Seq<char>,
    pub name: Seq<u8>,
}

/// The order of the paths in a directory: the last name in byte order first.
pub open spec fn path_down() -> spec_fn(Entry, Entry) -> bool {
    |a: Entry, b: Entry| path_first(a, b)
}

/// Whether the path of `a` comes no later than that of `b`, last first. Within
/// one directory the names decide.
pub open spec fn path_first(a: Entry, b: Entry) -> bool {
    if a.name != b.name {
        bytes_le(b.name, a.name)
    } else {
        bytes_le(encode_utf8(b.dir), encode_utf8(a.dir))
    }
}

proof fn lemma_le_reflexive(a: Seq<u8>)
    ensures
        bytes_le(a, a),
    decreases a.len(),
{
    if a.len() > 0 {
        lemma_le_reflexive(a.drop_first());
    }
}

proof fn lemma_le_antisymmetric(a: Seq<u8>, b: Seq<u8>)
    requires
        bytes_le(a, b),
        bytes_le(b, a),
    ensures
        a == b,
    decreases a.len(),
{
    if a.len() > 0 {
        lemma_le_antisymmetric(a.drop_first(), b.drop_first());
        assert(a =~= seq![a[0]] + a.drop_first());
        assert(b =~= seq![b[0]] + b.drop_first());
    } else {
        assert(a =~= b);
    }
}

proof fn lemma_le_transitive(a: Seq<u8>, b: Seq<u8>, c: Seq<u8>)
    requires
        bytes_le(a, b),
        bytes_le(b, c),
    ensures
        bytes_le(a, c),
    decreases a.len(),
{
    if a.len() > 0 && a[0] == b[0] && b[0] == c[0] {
        lemma_le_transitive(a.drop_first(), b.drop_first(), c.drop_first());
    }
}

proof fn lemma_le_total(a: Seq<u8>, b: Seq<u8>)
    ensures
        bytes_le(a, b) || bytes_le(b, a),
    decreases a.len(),
{
    if a.len() > 0 && b.len() > 0 {
        lemma_le_total(a.drop_first(), b.drop_first());
    }
}

proof fn lemma_path_transitive(a: Entry, b: Entry, c: Entry)
    requires
        path_first(a, b),
        path_first(b, c),
    ensures
        path_first(a, c),
{
    if a.name == b.name && b.name == c.name {
        lemma_le_transitive(encode_utf8(c.dir), encode_utf8(b.dir), encode_utf8(a.dir));
    } else if a.name != b.name && b.name != c.name {
        lemma_le_transitive(c.name, b.name, a.name);
        if a.name == c.name {
            lemma_le_antisymmetric(a.name, b.name);
        }
    }
}

/// The order of the paths is total: any two files have their places.
pub proof fn path_down_is_total()
    ensures
        total_ordering(path_down()),
{
    let leq = path_down();
    assert forall|x: Entry| #[trigger] leq(x, x) by {
        lemma_le_reflexive(encode_utf8(x.dir));
    }
    assert forall|x: Entry, y: Entry| #[trigger] leq(x, y) && #[trigger] leq(y, x) implies x
        == y by {
        if x.name != y.name {
            lemma_le_antisymmetric(x.name, y.name);
        }
        lemma_le_antisymmetric(encode_utf8(x.dir), encode_utf8(y.dir));
        encode_utf8_decode_utf8(x.dir);
        encode_utf8_decode_utf8(y.dir);
    }
    assert forall|x: Entry, y: Entry, z: Entry| #[trigger] leq(x, y) && #[trigger] leq(
        y,
        z,
    ) implies leq(x, z) by {
        lemma_path_transitive(x, y, z);
    }
    assert forall|x: Entry, y: Entry| #[trigger] leq(x, y) || #[trigger] leq(y, x) by {
        lemma_le_total(x.name, y.name);
        lemma_le_total(encode_utf8(x.dir), encode_utf8(y.dir));
    }
}

fn name_le(a: &[u8], b: &[u8]) -> (r: bool)
    ensures
        r == bytes_le(a@, b@),
{
    let mut i: usize = 0;
    assert(a@.skip(0) =~= a@ && b@.skip(0) =~= b@);
    while i < a.len()
        invariant
            i <= a@.len(),
            i <= b@.len(),
            bytes_le(a@, b@) == bytes_le(a@.skip(i as int), b@.skip(i as int)),
        decreases a@.len() - i,
    {
        if i >= b.len() {
            return false;
        }
        if a[i] < b[i] {
            return true;
        }
        if a[i] > b[i] {
            return false;
        }
        assert(a@.skip(i as int).drop_first() =~= a@.skip(i + 1));
        assert(b@.skip(i as int).drop_first() =~= b@.skip(i + 1));
        i = i + 1;
    }
    true
}

// ── Capture times ─────────────────────────────────────────────────────────────

/// Whether a byte is a decimal digit.
pub open spec fn digit_byte(b: u8) -> bool {
    48 <= b <= 57
}

/// How many digits a name begins with.
pub open spec fn digit_run(s: Seq<u8>) -> int
    decreases s.len(),
{
    if s.len() == 0 || !digit_byte(s[0]) {
        0
    } else {
        1 + digit_run(s.drop_first())
    }
}

/// ASCII bytes as text.
pub open spec fn ascii_text(s: Seq<u8>) -> Seq<char> {
    s.map_values(|b: u8| b as char)
}

/// The number in a name that stands behind a prefix and before a dot or an
/// underscore, if the name is of that form. It is never more than 128 bits
/// hold.
pub open spec fn number_behind(name: Seq<u8>, prefix: Seq<u8>) -> Option<nat> {
    let t = name.skip(prefix.len() as int);
    let n = digit_run(t);
    if prefix.len() <= name.len() && name.take(prefix.len() as int) == prefix && 0 < n < t.len() && (
    t[n] == 46 || t[n] == 95) {
        let v = text::decimal_value(ascii_text(t.take(n)));
        Some(
            if v <= u128::MAX {
                v
            } else {
                u128::MAX as nat
            },
        )
    } else {
        None
    }
}

/// The time at which a file was captured, if its name tells: the number in the
/// names of photos, videos and films.
pub open spec fn capture_time(name: Seq<u8>) -> Option<nat> {
    match number_behind(name, encode_utf8("IMG_"@)) {
        Some(t) => Some(t),
        None => match number_behind(name, encode_utf8("VID_"@)) {
            Some(t) => Some(t),
            None => number_behind(name, encode_utf8("timelapse_"@)),
        },
    }
}

proof fn lemma_digit_run_is(s: Seq<u8>, p: int)
    requires
        0 <= p <= s.len(),
        forall|i: int| 0 <= i < p ==> digit_byte(#[trigger] s[i]),
        p < s.len() ==> !digit_byte(s[p]),
    ensures
        digit_run(s) == p,
    decreases s.len(),
{
    if p > 0 {
        let t = s.drop_first();
        assert(digit_byte(s[0]));
        assert forall|i: int| 0 <= i < p - 1 implies digit_byte(#[trigger] t[i]) by {
            assert(t[i] == s[i + 1]);
        }
        lemma_digit_run_is(t, p - 1);
    }
}

/// Where the last dot of a name stands, counted from 1; 0 if there is none.
fn dot_end(name: &[u8]) -> (r: usize)
    ensures
        r == last_dot(name@) + 1,
        r <= name@.len(),
{
    let n = name.len();
    let mut i: usize = n;
    while i > 0 && name[i - 1] != 46
        invariant
            i <= n == name@.len(),
            forall|j: int| i <= j < n ==> name@[j] != 46,
        decreases i,
    {
        i = i - 1;
    }
    proof {
        lemma_last_dot_is(name@, i - 1);
    }
    i
}

fn number_after(name: &[u8], prefix: &[u8]) -> (r: Option<u128>)
    ensures
        r is Some <==> number_behind(name@, prefix@) is Some,
        r matches Some(t) ==> t == number_behind(name@, prefix@)->0,
{
    let len = name.len();
    let start = prefix.len();
    if len < start {
        return None;
    }
    let head = vstd::slice::slice_subrange(name, 0, start);
    assert(head@ =~= name@.take(start as int));
    if !same_bytes(head, prefix) {
        return None;
    }
    let ghost t = name@.skip(start as int);
    let mut end: usize = start;
    let mut value: u128 = 0;
    assert(ascii_text(t.take(0)) =~= Seq::<char>::empty());
    assert(text::decimal_value(Seq::<char>::empty()) == 0);
    while end < len && 48 <= name[end] && name[end] <= 57
        invariant
            start <= end <= len == name@.len(),
            t == name@.skip(start as int),
            forall|j: int| 0 <= j < end - start ==> digit_byte(#[trigger] t[j]),
            ({
                let v = text::decimal_value(ascii_text(t.take(end - start)));
                value == (if v <= u128::MAX {
                    v
                } else {
                    u128::MAX as nat
                })
            }),
        decreases len - end,
    {
        let d: u128 = (name[end] - 48) as u128;
        let ghost more = ascii_text(t.take(end - start + 1));
        assert(t[end - start] == name@[end as int]);
        assert(more.drop_last() =~= ascii_text(t.take(end - start)));
        assert(more.last() == name@[end as int] as char);
        if value > (u128::MAX - d) / 10 {
            value = u128::MAX;
        } else {
            value = value * 10 + d;
        }
        end = end + 1;
    }
    proof {
        if end < len {
            assert(t[end - start] == name@[end as int]);
        }
        lemma_digit_run_is(t, end - start);
    }
    if start < end && end < len && (name[end] == 46 || name[end] == 95) {
        Some(value)
    } else {
        None
    }
}

/// The time at which a file was captured, if its name tells.
pub fn time_of(name: &[u8]) -> (r: Option<u128>)
    ensures
        r is Some <==> capture_time(name@) is Some,
        r matches Some(t) ==> t == capture_time(name@)->0,
{
    if let Some(t) = number_after(name, "IMG_".as_bytes()) {
        return Some(t);
    }
    if let Some(t) = number_after(name, "VID_".as_bytes()) {
        return Some(t);
    }
    number_after(name, "timelapse_".as_bytes())
}

proof fn lemma_number_behind(prefix: Seq<char>, time: nat, tail: Seq<char>)
    requires
        is_ascii_chars(prefix),
        is_ascii_chars(tail),
        tail.len() > 0,
        tail[0] == '.' || tail[0] == '_',
        time <= u128::MAX,
    ensures
        number_behind(
            encode_utf8(prefix + text::decimal(time) + tail),
            encode_utf8(prefix),
        ) == Some(time),
{
    let d = text::decimal(time);
    text::decimal_reads_back(time);
    assert forall|i: int| 0 <= i < d.len() implies '\0' <= #[trigger] d[i] <= '\u{7f}' by {
        assert('0' <= d[i] <= '9');
    }
    text::encode_concat(prefix + d, tail);
    text::encode_concat(prefix, d);
    is_ascii_chars_encode_utf8(prefix);
    is_ascii_chars_encode_utf8(d);
    is_ascii_chars_encode_utf8(tail);
    let p = encode_utf8(prefix);
    let name = encode_utf8(prefix + d + tail);
    let t = name.skip(p.len() as int);
    let n = d.len() as int;
    assert(name.take(p.len() as int) =~= p);
    assert(t =~= encode_utf8(d) + encode_utf8(tail));
    assert forall|i: int| 0 <= i < n implies digit_byte(#[trigger] t[i]) by {
        assert('0' <= d[i] <= '9');
        assert(t[i] == encode_utf8(d)[i]);
    }
    assert(t[n] == encode_utf8(tail)[0]);
    assert(tail[0] as u8 == encode_utf8(tail)[0]);
    lemma_digit_run_is(t, n);
    assert forall|i: int| 0 <= i < n implies ascii_text(t.take(n))[i] == d[i] by {
        assert('0' <= d[i] <= '9');
        assert(t[i] == encode_utf8(d)[i]);
    }
    assert(ascii_text(t.take(n)) =~= d);
}

/// The time in the name of a photo, a video or a film is the number behind its
/// prefix.
pub proof fn time_is_the_number_in_the_name(prefix: Seq<char>, time: nat, tail: Seq<char>)
    requires
        prefix == "IMG_"@ || prefix == "VID_"@ || prefix == "timelapse_"@,
        is_ascii_chars(tail),
        tail.len() > 0,
        tail[0] == '.' || tail[0] == '_',
        time <= u128::MAX,
    ensures
        capture_time(encode_utf8(prefix + text::decimal(time) + tail)) == Some(time),
{
    reveal_strlit("IMG_");
    reveal_strlit("VID_");
    reveal_strlit("timelapse_");
    lemma_number_behind(prefix, time, tail);
    let name = encode_utf8(prefix + text::decimal(time) + tail);
    text::encode_concat(prefix + text::decimal(time), tail);
    text::encode_concat(prefix, text::decimal(time));
    let img = encode_utf8("IMG_"@);
    let vid = encode_utf8("VID_"@);
    is_ascii_chars_encode_utf8("IMG_"@);
    is_ascii_chars_encode_utf8("VID_"@);
    is_ascii_chars_encode_utf8(prefix);
    assert("IMG_"@[0] == 'I' && "VID_"@[0] == 'V');
    assert(img[0] == 73 && vid[0] == 86);
    assert(name[0] == encode_utf8(prefix)[0]);
    assert(encode_utf8(prefix)[0] == prefix[0] as u8);
    assert(name.take(4)[0] == name[0]);
}

// ── Kinds of files ────────────────────────────────────────────────────────────

/// Where the last dot of a file name stands; -1 if there is none.
pub open spec fn last_dot(name: Seq<u8>) -> int
    decreases name.len(),
{
    if name.len() == 0 {
        -1
    } else if name.last() == 46 {
        name.len() - 1
    } else {
        last_dot(name.drop_last())
    }
}

proof fn lemma_last_dot_is(name: Seq<u8>, p: int)
    requires
        -1 <= p < name.len(),
        forall|i: int| p < i < name.len() ==> name[i] != 46,
        p >= 0 ==> name[p] == 46,
    ensures
        last_dot(name) == p,
    decreases name.len(),
{
    if name.len() > 0 && p < name.len() - 1 {
        lemma_last_dot_is(name.drop_last(), p);
    }
}

/// The extension of a file name: what stands behind its last dot, in small
/// letters. None where there is no dot or only one at the start, and none where
/// it is not UTF-8.
pub open spec fn extension(name: Seq<u8>) -> Seq<char> {
    let d = last_dot(name);
    if d > 0 && valid_utf8(name.skip(d + 1)) {
        text::lowered(decode_utf8(name.skip(d + 1)))
    } else {
        text::lowered(Seq::empty())
    }
}

/// The extensions of videos.
pub open spec fn video_extension(ext: Seq<char>) -> bool {
    ext == "mp4"@ || ext == "h264"@ || ext == "mkv"@
}

/// The extensions of photos.
pub open spec fn photo_extension(ext: Seq<char>) -> bool {
    ext == "jpg"@ || ext == "jpeg"@ || ext == "png"@ || ext == "dng"@
}

/// Whether a small-letter extension is a video's (`Some(true)`), a photo's
/// (`Some(false)`) or neither.
pub fn media_kind(ext: &str) -> (r: Option<bool>)
    ensures
        r == Some(true) <==> video_extension(ext@),
        r == Some(false) <==> !video_extension(ext@) && photo_extension(ext@),
{
    if str_eq(ext, "mp4") || str_eq(ext, "h264") || str_eq(ext, "mkv") {
        Some(true)
    } else if str_eq(ext, "jpg") || str_eq(ext, "jpeg") || str_eq(ext, "png") || str_eq(
        ext,
        "dng",
    ) {
        Some(false)
    } else {
        None
    }
}

/// The extension of a file name.
pub fn file_extension(name: &[u8]) -> (r: String)
    ensures
        r@ == extension(name@),
{
    let n = name.len();
    let i = dot_end(name);
    proof {
        reveal_strlit("");
        assert(""@ =~= Seq::empty());
    }
    if i > 1 {
        let tail = vstd::slice::slice_subrange(name, i, n);
        assert(tail@ =~= name@.skip(i as int));
        match utf8_text(tail) {
            Some(ext) => lower(ext),
            None => lower(""),
        }
    } else {
        lower("")
    }
}

// ── Scanning ──────────────────────────────────────────────────────────────────

/// The path of a file in a directory, as bytes.
pub open spec fn joined(dir: Seq<u8>, name: Seq<u8>) -> Seq<u8> {
    if dir.len() > 0 && dir.last() != 47 {
        dir + seq![47u8] + name
    } else {
        dir + name
    }
}

/// The item that a file of a directory is, if the gallery shows it: photos and
/// videos, but not the thumbnails that stand beside videos.
pub open spec fn item_of(dir: Seq<char>, name: Seq<u8>) -> Option<ItemView> {
    let ext = extension(name);
    if text::has_suffix(text::shown(name), ".thumb.jpg"@) {
        None
    } else if video_extension(ext) || photo_extension(ext) {
        Some(
            ItemView {
                path: text::shown(joined(encode_utf8(dir), name)),
                name: text::shown(name),
                is_video: video_extension(ext),
            },
        )
    } else {
        None
    }
}

/// Whether the gallery shows a file.
pub open spec fn is_shown(e: Entry) -> bool {
    item_of(e.dir, e.name) is Some
}

/// The files of a directory that the gallery shows, of some of its entries, in
/// the order in which those come.
pub open spec fn shown_of(dir: Seq<char>, files: Seq<DirEntry>, roots: Seq<Seq<u8>>) -> Seq<Entry>
    decreases files.len(),
{
    if files.len() == 0 {
        Seq::empty()
    } else {
        let head = shown_of(dir, files.drop_last(), roots);
        let e = Entry { dir, name: files.last().name@ };
        if admitted(files.last().kind, roots) && is_shown(e) {
            head.push(e)
        } else {
            head
        }
    }
}

/// The files of a directory that the gallery shows; none if it cannot be read.
pub open spec fn shown_of_dir(listing: DirListing, roots: Seq<Seq<u8>>) -> Seq<Entry> {
    match listing.files {
        Some(files) => shown_of(listing.dir@, files@, roots),
        None => Seq::empty(),
    }
}

/// The files that the gallery shows, one directory after the other, in each the
/// last path first.
pub open spec fn in_path_order(listings: Seq<DirListing>, roots: Seq<Seq<u8>>) -> Seq<Entry>
    decreases listings.len(),
{
    if listings.len() == 0 {
        Seq::empty()
    } else {
        in_path_order(listings.drop_last(), roots) + shown_of_dir(listings.last(), roots).sort_by(
            path_down(),
        )
    }
}

/// Whether the name of a file tells when it was captured.
pub open spec fn is_dated(e: Entry) -> bool {
    capture_time(e.name) is Some
}

/// When a file was captured whose name tells.
pub open spec fn time_at(files: Seq<Entry>, i: int) -> nat {
    capture_time(files[i].name)->0
}

/// The places of the files whose names tell when they were captured.
pub open spec fn dated_places(files: Seq<Entry>) -> Seq<int>
    decreases files.len(),
{
    if files.len() == 0 {
        Seq::empty()
    } else {
        let head = dated_places(files.drop_last());
        if is_dated(files.last()) {
            head.push(files.len() - 1)
        } else {
            head
        }
    }
}

/// The order of such places: the latest capture first, and of one time the place
/// that comes first.
pub open spec fn newest_first(files: Seq<Entry>) -> spec_fn(int, int) -> bool {
    |i: int, j: int|
        time_at(files, i) > time_at(files, j) || (time_at(files, i) == time_at(files, j) && i <= j)
}

/// The places of the files whose names tell when they were captured, newest
/// first.
pub open spec fn dated_in_order(files: Seq<Entry>) -> Seq<int> {
    dated_places(files).sort_by(newest_first(files))
}

/// How many files before a place have names that tell when they were captured.
pub open spec fn dated_before(files: Seq<Entry>, k: int) -> int {
    dated_places(files.take(k)).len() as int
}

/// Where the file comes from that stands at a place of the gallery: the place
/// itself where the name there tells no time; else that of the next file by
/// time.
pub open spec fn source_of(files: Seq<Entry>, k: int) -> int {
    if is_dated(files[k]) {
        dated_in_order(files)[dated_before(files, k)]
    } else {
        k
    }
}

/// Files in the order of the gallery: those whose names tell when they were
/// captured stand newest first among themselves, whatever their directories.
/// All others keep their places.
pub open spec fn arranged(files: Seq<Entry>) -> Seq<Entry> {
    Seq::new(files.len(), |k: int| files[source_of(files, k)])
}

/// The files that the gallery shows, in its order.
pub open spec fn shown_in_order(listings: Seq<DirListing>) -> Seq<Entry> {
    arranged(in_path_order(listings, roots_of(listings)))
}

/// The items of the gallery, in its order.
pub open spec fn items_of_dirs(listings: Seq<DirListing>) -> Seq<ItemView> {
    shown_in_order(listings).map_values(|e: Entry| item_of(e.dir, e.name)->0)
}

/// The time of an item by the name that the gallery shows, if it tells.
pub open spec fn item_time(v: ItemView) -> Option<nat> {
    capture_time(encode_utf8(v.name))
}

fn join_bytes(dir: &str, name: &[u8]) -> (r: Vec<u8>)
    ensures
        r@ == joined(encode_utf8(dir@), name@),
{
    let mut path: Vec<u8> = dir.as_bytes_vec();
    let n = path.len();
    if n > 0 && path[n - 1] != 47 {
        path.push(47);
        assert(path@ =~= encode_utf8(dir@) + seq![47u8]);
    }
    let mut rest: Vec<u8> = vstd::slice::slice_to_vec(name);
    path.append(&mut rest);
    path
}

/// The item that a file of a directory is, if the gallery shows it.
pub fn gallery_item(dir: &str, name: &[u8]) -> (r: Option<GalleryItem>)
    ensures
        r is Some <==> item_of(dir@, name@) is Some,
        r matches Some(item) ==> item@ == item_of(dir@, name@)->0,
{
    let shown_name = show(name);
    if ends_with(shown_name.as_str(), ".thumb.jpg") {
        return None;
    }
    let ext = file_extension(name);
    match media_kind(ext.as_str()) {
        Some(is_video) => {
            let path = join_bytes(dir, name);
            Some(GalleryItem { path: show(path.as_slice()), name: shown_name, is_video })
        },
        None => None,
    }
}

/// A file that the gallery shows, with its time, if its name tells, and its
/// item.
struct Found {
    dir: String,
    name: Vec<u8>,
    time: Option<u128>,
    item: GalleryItem,
}

impl View for Found {
    type V = Entry;

    closed spec fn view(&self) -> Entry {
        Entry { dir: self.dir@, name: self.name@ }
    }
}

impl Found {
    spec fn wf(self) -> bool {
        &&& self.time is Some <==> capture_time(self.name@) is Some
        &&& self.time matches Some(t) ==> t == capture_time(self.name@)->0
        &&& item_of(self.dir@, self.name@) == Some(self.item@)
    }
}

spec fn found_entries(v: Seq<Found>) -> Seq<Entry> {
    v.map_values(|f: Found| f@)
}

spec fn all_found(v: Seq<Found>) -> bool {
    forall|i: int| 0 <= i < v.len() ==> (#[trigger] v[i]).wf()
}

fn same_bytes(a: &[u8], b: &[u8]) -> (r: bool)
    ensures
        r == (a@ == b@),
{
    let r = name_le(a, b) && name_le(b, a);
    proof {
        if r {
            lemma_le_antisymmetric(a@, b@);
        }
        lemma_le_reflexive(a@);
    }
    r
}

fn found_first(a: &Found, b: &Found) -> (r: bool)
    ensures
        r == path_first(a@, b@),
{
    if !same_bytes(a.name.as_slice(), b.name.as_slice()) {
        name_le(b.name.as_slice(), a.name.as_slice())
    } else {
        name_le(b.dir.as_str().as_bytes(), a.dir.as_str().as_bytes())
    }
}

proof fn lemma_inserted_is_sorted<A>(
    before: Seq<A>,
    p: int,
    n: A,
    leq: spec_fn(A, A) -> bool,
)
    requires
        total_ordering(leq),
        sorted_by(before, leq),
        0 <= p <= before.len(),
        forall|k: int| 0 <= k < p ==> leq(#[trigger] before[k], n),
        p < before.len() ==> leq(n, before[p]),
    ensures
        sorted_by(before.insert(p, n), leq),
{
    let after = before.insert(p, n);
    assert forall|a: int, b: int| 0 <= a < b < after.len() implies #[trigger] leq(
        after[a],
        after[b],
    ) by {
        if b == p {
            assert(leq(before[a], n));
        } else if a == p {
            assert(leq(n, before[p]));
            if b - 1 > p {
                assert(leq(before[p], before[b - 1]));
            }
        } else {
            let x = if a < p {
                a
            } else {
                a - 1
            };
            let y = if b < p {
                b
            } else {
                b - 1
            };
            assert(leq(before[x], before[y]));
        }
    }
}

/// Puts a file in its place among others that stand in order.
fn place(sorted: &mut Vec<Found>, f: Found)
    requires
        all_found(old(sorted)@),
        f.wf(),
        sorted_by(found_entries(old(sorted)@), path_down()),
    ensures
        all_found(final(sorted)@),
        sorted_by(found_entries(final(sorted)@), path_down()),
        found_entries(final(sorted)@).to_multiset() == found_entries(
            old(sorted)@,
        ).to_multiset().insert(f@),
{
    let ghost leq = path_down();
    let ghost before = found_entries(sorted@);
    let ghost n = f@;
    let mut p: usize = 0;
    proof {
        path_down_is_total();
    }
    while p < sorted.len() && !found_first(&f, &sorted[p])
        invariant
            before == found_entries(sorted@),
            all_found(sorted@),
            f.wf(),
            n == f@,
            p <= sorted@.len(),
            leq == path_down(),
            total_ordering(leq),
            forall|j: int| 0 <= j < p ==> leq(#[trigger] before[j], n),
        decreases sorted@.len() - p,
    {
        proof {
            assert(before[p as int] == sorted@[p as int]@);
            assert(leq(n, before[p as int]) || leq(before[p as int], n));
        }
        p = p + 1;
    }
    let ghost old_found = sorted@;
    sorted.insert(p, f);
    proof {
        let after = found_entries(sorted@);
        assert(after =~= before.insert(p as int, n));
        if p < before.len() {
            assert(before[p as int] == old_found[p as int]@);
            assert(leq(n, before[p as int]));
        }
        lemma_inserted_is_sorted(before, p as int, n, leq);
        to_multiset_insert(before, p as int, n);
        assert forall|i: int| 0 <= i < sorted@.len() implies (#[trigger] sorted@[i]).wf() by {
            if i < p {
                assert(sorted@[i] == old_found[i]);
            } else if i > p {
                assert(sorted@[i] == old_found[i - 1]);
            }
        }
    }
}

/// The files of a directory that the gallery shows, the last path first.
fn found_in(listing: &DirListing, roots: &Vec<Vec<u8>>) -> (r: Vec<Found>)
    ensures
        all_found(r@),
        found_entries(r@) == shown_of_dir(*listing, rows(roots@)).sort_by(path_down()),
{
    let ghost leq = path_down();
    let ghost rs = rows(roots@);
    let mut sorted: Vec<Found> = Vec::new();
    proof {
        path_down_is_total();
        assert(found_entries(sorted@) =~= Seq::empty());
    }
    let ghost mut all: Seq<Entry> = Seq::empty();
    if let Some(files) = &listing.files {
        for i in 0..files.len()
            invariant
                leq == path_down(),
                rs == rows(roots@),
                all_found(sorted@),
                sorted_by(found_entries(sorted@), leq),
                all == shown_of(listing.dir@, files@.take(i as int), rs),
                found_entries(sorted@).to_multiset() == all.to_multiset(),
        {
            let entry = &files[i];
            let ghost more = files@.take(i + 1);
            assert(more.drop_last() =~= files@.take(i as int));
            assert(more.last() == *entry);
            if is_admitted(&entry.kind, roots) {
                if let Some(item) = gallery_item(listing.dir.as_str(), entry.name.as_slice()) {
                    let f = Found {
                        dir: listing.dir.as_str().to_owned(),
                        name: vstd::slice::slice_to_vec(entry.name.as_slice()),
                        time: time_of(entry.name.as_slice()),
                        item,
                    };
                    proof {
                        to_multiset_build(all, f@);
                    }
                    place(&mut sorted, f);
                }
            }
            proof {
                all = shown_of(listing.dir@, more, rs);
            }
        }
        assert(files@.take(files@.len() as int) =~= files@);
    }
    proof {
        all.lemma_sort_by_ensures(leq);
        lemma_sorted_unique(found_entries(sorted@), all.sort_by(leq), leq);
    }
    sorted
}

spec fn int_places(v: Seq<usize>) -> Seq<int> {
    v.map_values(|i: usize| i as int)
}

/// The order of places is total.
pub proof fn newest_first_is_total(files: Seq<Entry>)
    ensures
        total_ordering(newest_first(files)),
{
}

/// Whether these are places before `i` of files whose names tell when they were
/// captured.
spec fn dated_below(order: Seq<usize>, found: Seq<Found>, i: int) -> bool {
    forall|k: int|
        0 <= k < order.len() ==> #[trigger] order[k] < i && found[order[k] as int].time is Some
}

/// How many places stand before `i` in the order: all of files that are no older.
fn count_no_older(order: &Vec<usize>, found: &Vec<Found>, i: usize, time: u128) -> (p: usize)
    requires
        all_found(found@),
        i < found@.len(),
        time == time_at(found_entries(found@), i as int),
        dated_below(order@, found@, i as int),
    ensures
        p <= order@.len(),
        ({
            let leq = newest_first(found_entries(found@));
            let before = int_places(order@);
            &&& forall|k: int| 0 <= k < p ==> leq(#[trigger] before[k], i as int)
            &&& p < order@.len() ==> leq(i as int, before[p as int])
        }),
{
    let ghost files = found_entries(found@);
    let ghost leq = newest_first(files);
    let ghost before = int_places(order@);
    let mut p: usize = 0;
    while p < order.len()
        invariant
            files == found_entries(found@),
            leq == newest_first(files),
            before == int_places(order@),
            all_found(found@),
            p <= order@.len(),
            i < found@.len(),
            time == time_at(files, i as int),
            dated_below(order@, found@, i as int),
            forall|k: int| 0 <= k < p ==> leq(#[trigger] before[k], i as int),
        decreases order@.len() - p,
    {
        let ghost x = order@[p as int] as int;
        proof {
            assert(found@[x].wf());
            assert(files[x] == found@[x]@);
            assert(before[p as int] == x);
        }
        if !is_no_older(&found[order[p]], time) {
            assert(leq(i as int, x));
            return p;
        }
        assert(leq(x, i as int));
        p = p + 1;
    }
    p
}

/// The places of the files whose names tell when they were captured, newest
/// first.
fn places_in_order(found: &Vec<Found>) -> (r: Vec<usize>)
    requires
        all_found(found@),
    ensures
        int_places(r@) == dated_in_order(found_entries(found@)),
        forall|k: int| 0 <= k < r@.len() ==> #[trigger] r@[k] < found@.len(),
{
    let ghost files = found_entries(found@);
    let ghost leq = newest_first(files);
    let mut order: Vec<usize> = Vec::new();
    proof {
        newest_first_is_total(files);
        assert(int_places(order@) =~= dated_places(files.take(0)));
    }
    for i in 0..found.len()
        invariant
            files == found_entries(found@),
            leq == newest_first(files),
            total_ordering(leq),
            all_found(found@),
            sorted_by(int_places(order@), leq),
            int_places(order@).to_multiset() == dated_places(files.take(i as int)).to_multiset(),
            dated_below(order@, found@, i as int),
    {
        let ghost old_order = order@;
        let ghost more = files.take(i + 1);
        assert(more.drop_last() =~= files.take(i as int));
        assert(more.last() == found@[i as int]@);
        assert(found@[i as int].wf());
        if let Some(time) = found[i].time {
            let p = count_no_older(&order, found, i, time);
            order.insert(p, i);
            proof {
                let before = int_places(old_order);
                let n = i as int;
                assert(int_places(order@) =~= before.insert(p as int, n));
                lemma_inserted_is_sorted(before, p as int, n, leq);
                to_multiset_insert(before, p as int, n);
                to_multiset_build(dated_places(files.take(i as int)), n);
                assert forall|k: int| 0 <= k < order@.len() implies #[trigger] order@[k] < i + 1
                    && found@[order@[k] as int].time is Some by {
                    if k < p {
                        assert(order@[k] == old_order[k]);
                    } else if k > p {
                        assert(order@[k] == old_order[k - 1]);
                    }
                }
            }
        }
    }
    proof {
        assert(files.take(files.len() as int) =~= files);
        dated_places(files).lemma_sort_by_ensures(leq);
        lemma_sorted_unique(int_places(order@), dated_in_order(files), leq);
    }
    order
}

fn is_no_older(f: &Found, time: u128) -> (r: bool)
    requires
        f.wf(),
        f.time is Some,
    ensures
        r == (capture_time(f@.name)->0 >= time),
{
    match f.time {
        Some(t) => t >= time,
        None => false,
    }
}

/// Lists the photos and videos of the media directories: those whose names tell
/// when they were captured newest first, the others where their paths stand.
pub fn scan(listings: &Vec<DirListing>) -> (r: Vec<GalleryItem>)
    ensures
        item_views(r@) == items_of_dirs(listings@),
        forall|i: int, j: int|
            0 <= i < j < r@.len() && valid_utf8(shown_in_order(listings@)[i].name) && valid_utf8(
                shown_in_order(listings@)[j].name,
            ) && item_time(r@[i]@) is Some && item_time(r@[j]@) is Some ==> item_time(
                (#[trigger] r@[i])@,
            )->0 >= item_time((#[trigger] r@[j])@)->0,
{
    let roots = media_roots(listings);
    let ghost rs = roots_of(listings@);
    let mut found: Vec<Found> = Vec::new();
    assert(found_entries(found@) =~= in_path_order(listings@.take(0), rs));
    for k in 0..listings.len()
        invariant
            rs == rows(roots@),
            all_found(found@),
            found_entries(found@) == in_path_order(listings@.take(k as int), rs),
    {
        let ghost before = found@;
        assert(listings@.take(k + 1).drop_last() =~= listings@.take(k as int));
        let mut more = found_in(&listings[k], &roots);
        let ghost added = more@;
        found.append(&mut more);
        proof {
            assert(found_entries(found@) =~= found_entries(before) + found_entries(added));
            assert forall|i: int| 0 <= i < found@.len() implies (#[trigger] found@[i]).wf() by {
                if i < before.len() {
                    assert(found@[i] == before[i]);
                } else {
                    assert(found@[i] == added[i - before.len()]);
                }
            }
        }
    }
    assert(listings@.take(listings@.len() as int) =~= listings@);
    let ghost files = found_entries(found@);
    let places = places_in_order(&found);
    let mut items: Vec<GalleryItem> = Vec::new();
    let mut dated: usize = 0;
    assert(dated_places(files.take(0)) =~= Seq::empty());
    for k in 0..found.len()
        invariant
            all_found(found@),
            files == found_entries(found@),
            int_places(places@) == dated_in_order(files),
            forall|i: int| 0 <= i < places@.len() ==> #[trigger] places@[i] < found@.len(),
            dated == dated_before(files, k as int),
            items@.len() == k,
            forall|j: int|
                0 <= j < k ==> (#[trigger] items@[j])@ == item_of(
                    arranged(files)[j].dir,
                    arranged(files)[j].name,
                )->0,
    {
        assert(found@[k as int].wf());
        assert(files[k as int] == found@[k as int]@);
        proof {
            lemma_dated_step(files, k as int);
        }
        let mut source: usize = k;
        if found[k].time.is_some() {
            assert(dated < places@.len());
            source = places[dated];
            assert(source as int == int_places(places@)[dated as int]);
            assert(dated < places.len());
            dated = dated + 1;
        }
        assert(source == source_of(files, k as int));
        let f = &found[source];
        assert(found@[source as int].wf());
        assert(arranged(files)[k as int] == f@);
        items.push(
            GalleryItem {
                path: f.item.path.as_str().to_owned(),
                name: f.item.name.as_str().to_owned(),
                is_video: f.item.is_video,
            },
        );
    }
    proof {
        assert(item_views(items@) =~= items_of_dirs(listings@));
        assert forall|i: int, j: int|
            0 <= i < j < items@.len() && valid_utf8(shown_in_order(listings@)[i].name)
                && valid_utf8(shown_in_order(listings@)[j].name) && item_time(items@[i]@) is Some
                && item_time(items@[j]@) is Some implies item_time((#[trigger] items@[i])@)->0
            >= item_time((#[trigger] items@[j])@)->0 by {
            assert(item_views(items@)[i] == items@[i]@);
            assert(item_views(items@)[j] == items@[j]@);
            gallery_is_newest_first(listings@, i, j);
        }
    }
    items
}

// ── Thumbnails and deletion ───────────────────────────────────────────────────

/// What `Path::with_extension` makes of a path and an extension.
pub uninterp spec fn path_with_extension(path: Seq<char>, ext: Seq<char>) -> Seq<char>;

/// Where the file name of a path starts: behind its last slash.
pub open spec fn name_start(path: Seq<char>) -> int {
    text::find_last(path, '/') + 1
}

/// How long the stem of a file name is: up to its last dot, or all of it where
/// there is no dot but one at the start.
pub open spec fn stem_len(name: Seq<char>) -> int {
    let d = text::find_last(name, '.');
    if d > 0 {
        d
    } else {
        name.len() as int
    }
}

/// Whether a path ends in an ordinary file name: no slash at the end, and
/// neither `.` nor a name that starts with a dot that its last dot follows at
/// once.
pub open spec fn plain_file(path: Seq<char>) -> bool {
    let name = path.skip(name_start(path));
    &&& name.len() > 0
    &&& name != seq!['.']
    &&& !(name[0] == '.' && text::find_last(name, '.') == 1)
}

/// A path up to the end of its file's stem.
pub open spec fn path_stem(path: Seq<char>) -> Seq<char> {
    path.take(name_start(path) + stem_len(path.skip(name_start(path))))
}

/// `Path::with_extension`: on a path that ends in an ordinary file name, what
/// stands behind the stem is replaced by a dot and the extension. Of other
/// paths only that the result depends on nothing else.
#[verifier::external_body]
fn with_extension(path: &str, ext: &str) -> (r: String)
    requires
        ext@.len() > 0,
        !ext@.contains('/'),
    ensures
        r@ == path_with_extension(path@, ext@),
        plain_file(path@) ==> r@ == path_stem(path@) + seq!['.'] + ext@,
{
    std::path::Path::new(path).with_extension(ext).to_string_lossy().into_owned()
}

/// The path of the thumbnail that stands beside a video.
pub open spec fn thumb_of(path: Seq<char>) -> Seq<char> {
    if plain_file(path) {
        path_stem(path) + ".thumb.jpg"@
    } else {
        path_with_extension(path, "thumb.jpg"@)
    }
}

/// The path of the thumbnail that stands beside a video.
pub fn thumb_path(path: &str) -> (r: String)
    ensures
        r@ == thumb_of(path@),
{
    proof {
        reveal_strlit("thumb.jpg");
        reveal_strlit(".thumb.jpg");
        assert(seq!['.'] + "thumb.jpg"@ =~= ".thumb.jpg"@);
        assert(path_stem(path@) + seq!['.'] + "thumb.jpg"@ =~= path_stem(path@) + ".thumb.jpg"@);
    }
    with_extension(path, "thumb.jpg")
}

/// The file whose picture the gallery shows for an item: a photo itself, a
/// video's thumbnail.
pub fn preview_path(path: &str, is_video: bool) -> (r: String)
    ensures
        r@ == (if is_video {
            thumb_of(path@)
        } else {
            path@
        }),
{
    if is_video {
        thumb_path(path)
    } else {
        path.to_owned()
    }
}

/// The files to remove, in order, when an item is deleted.
pub open spec fn removals(path: Seq<char>, exists: bool, thumb_exists: bool) -> Seq<Seq<char>> {
    if !exists {
        Seq::empty()
    } else if thumb_exists {
        seq![thumb_of(path), path]
    } else {
        seq![path]
    }
}

/// Which files to remove when an item is deleted, given whether it exists and
/// whether its thumbnail does: nothing if it does not, else the thumbnail, if
/// there is one, and the item last.
pub fn delete(path: &str, exists: bool, thumb_exists: bool) -> (r: Vec<String>)
    ensures
        text::texts(r@) == removals(path@, exists, thumb_exists),
{
    let mut files: Vec<String> = Vec::new();
    if exists {
        if thumb_exists {
            files.push(thumb_path(path));
        }
        files.push(path.to_owned());
    }
    assert(text::texts(files@) =~= removals(path@, exists, thumb_exists));
    files
}

/// Whether a deletion has succeeded: the item was there, and it was removed.
/// What became of its thumbnail makes no difference.
pub fn delete_succeeded(exists: bool, removed: bool) -> (r: bool)
    ensures
        r == (exists && removed),
{
    exists && removed
}

// ── What the gallery promises ─────────────────────────────────────────────────

/// Whether a listing holds a file that is shown as `v`.
pub open spec fn listing_shows(listing: DirListing, roots: Seq<Seq<u8>>, v: ItemView) -> bool {
    listing.files matches Some(files) && exists|i: int|
        0 <= i < files@.len() && admitted((#[trigger] files@[i]).kind, roots) && item_of(
            listing.dir@,
            files@[i].name@,
        ) == Some(v)
}

/// Whether some entries are shown as `v`, one of them.
spec fn entries_show(entries: Seq<Entry>, v: ItemView) -> bool {
    exists|i: int|
        0 <= i < entries.len() && item_of((#[trigger] entries[i]).dir, entries[i].name) == Some(v)
}

proof fn lemma_shown_of(dir: Seq<char>, files: Seq<DirEntry>, roots: Seq<Seq<u8>>, v: ItemView)
    ensures
        entries_show(shown_of(dir, files, roots), v) <==> exists|i: int|
            0 <= i < files.len() && admitted((#[trigger] files[i]).kind, roots) && item_of(
                dir,
                files[i].name@,
            ) == Some(v),
    decreases files.len(),
{
    if files.len() > 0 {
        let head = files.drop_last();
        let before = shown_of(dir, head, roots);
        let all = shown_of(dir, files, roots);
        lemma_shown_of(dir, head, roots, v);
        if entries_show(all, v) {
            let i = choose|i: int|
                0 <= i < all.len() && item_of((#[trigger] all[i]).dir, all[i].name) == Some(v);
            if i < before.len() {
                assert(before[i] == all[i]);
                assert(entries_show(before, v));
                let j = choose|j: int|
                    0 <= j < head.len() && admitted((#[trigger] head[j]).kind, roots) && item_of(
                        dir,
                        head[j].name@,
                    ) == Some(v);
                assert(files[j] == head[j]);
            } else {
                assert(files[files.len() - 1] == files.last());
            }
        }
        if exists|i: int|
            0 <= i < files.len() && admitted((#[trigger] files[i]).kind, roots) && item_of(
                dir,
                files[i].name@,
            ) == Some(v) {
            let i = choose|i: int|
                0 <= i < files.len() && admitted((#[trigger] files[i]).kind, roots) && item_of(
                    dir,
                    files[i].name@,
                ) == Some(v);
            if i < head.len() {
                assert(head[i] == files[i]);
                assert(entries_show(before, v));
                let j = choose|j: int|
                    0 <= j < before.len() && item_of((#[trigger] before[j]).dir, before[j].name)
                        == Some(v);
                assert(all[j] == before[j]);
            } else {
                assert(all[all.len() - 1] == (Entry { dir, name: files.last().name@ }));
            }
        }
    }
}

proof fn lemma_sorted_keeps(files: Seq<Entry>, e: Entry)
    ensures
        files.sort_by(path_down()).contains(e) <==> files.contains(e),
{
    broadcast use group_to_multiset_ensures;

    path_down_is_total();
    files.lemma_sort_by_ensures(path_down());
    let sorted = files.sort_by(path_down());
    assert(files.contains(e) <==> files.to_multiset().contains(e));
    assert(sorted.contains(e) <==> sorted.to_multiset().contains(e));
}

proof fn lemma_sorted_shows(files: Seq<Entry>, v: ItemView)
    ensures
        entries_show(files.sort_by(path_down()), v) <==> entries_show(files, v),
{
    let sorted = files.sort_by(path_down());
    if entries_show(sorted, v) {
        let i = choose|i: int|
            0 <= i < sorted.len() && item_of((#[trigger] sorted[i]).dir, sorted[i].name) == Some(v);
        lemma_sorted_keeps(files, sorted[i]);
        assert(sorted.contains(sorted[i]));
        let j = choose|j: int| 0 <= j < files.len() && files[j] == sorted[i];
        assert(item_of(files[j].dir, files[j].name) == Some(v));
    }
    if entries_show(files, v) {
        let i = choose|i: int|
            0 <= i < files.len() && item_of((#[trigger] files[i]).dir, files[i].name) == Some(v);
        lemma_sorted_keeps(files, files[i]);
        assert(files.contains(files[i]));
        let j = choose|j: int| 0 <= j < sorted.len() && sorted[j] == files[i];
        assert(item_of(sorted[j].dir, sorted[j].name) == Some(v));
    }
}

proof fn lemma_shown_together(a: Seq<Entry>, b: Seq<Entry>, v: ItemView)
    ensures
        entries_show(a + b, v) <==> entries_show(a, v) || entries_show(b, v),
{
    let all = a + b;
    if entries_show(all, v) {
        let i = choose|i: int|
            0 <= i < all.len() && item_of((#[trigger] all[i]).dir, all[i].name) == Some(v);
        if i < a.len() {
            assert(a[i] == all[i]);
        } else {
            assert(b[i - a.len()] == all[i]);
        }
    }
    if entries_show(a, v) {
        let j = choose|j: int|
            0 <= j < a.len() && item_of((#[trigger] a[j]).dir, a[j].name) == Some(v);
        assert(all[j] == a[j]);
    }
    if entries_show(b, v) {
        let j = choose|j: int|
            0 <= j < b.len() && item_of((#[trigger] b[j]).dir, b[j].name) == Some(v);
        assert(all[a.len() + j] == b[j]);
    }
}

proof fn lemma_shown_of_dir(listing: DirListing, roots: Seq<Seq<u8>>, v: ItemView)
    ensures
        entries_show(shown_of_dir(listing, roots).sort_by(path_down()), v) <==> listing_shows(
            listing,
            roots,
            v,
        ),
{
    lemma_sorted_shows(shown_of_dir(listing, roots), v);
    if let Some(files) = listing.files {
        lemma_shown_of(listing.dir@, files@, roots, v);
    }
}

proof fn lemma_shown_of_dirs(listings: Seq<DirListing>, roots: Seq<Seq<u8>>, v: ItemView)
    ensures
        entries_show(in_path_order(listings, roots), v) <==> exists|k: int|
            0 <= k < listings.len() && listing_shows(#[trigger] listings[k], roots, v),
    decreases listings.len(),
{
    if listings.len() > 0 {
        let head = listings.drop_last();
        let last = listings.last();
        let b = shown_of_dir(last, roots).sort_by(path_down());
        lemma_shown_of_dirs(head, roots, v);
        lemma_shown_of_dir(last, roots, v);
        lemma_shown_together(in_path_order(head, roots), b, v);
        if exists|k: int| 0 <= k < head.len() && listing_shows(#[trigger] head[k], roots, v) {
            let k = choose|k: int|
                0 <= k < head.len() && listing_shows(#[trigger] head[k], roots, v);
            assert(listing_shows(listings[k], roots, v));
        }
        if listing_shows(last, roots, v) {
            assert(listing_shows(listings[listings.len() - 1], roots, v));
        }
        if exists|k: int|
            0 <= k < listings.len() && listing_shows(#[trigger] listings[k], roots, v) {
            let k = choose|k: int|
                0 <= k < listings.len() && listing_shows(#[trigger] listings[k], roots, v);
            if k < head.len() {
                assert(listing_shows(head[k], roots, v));
            }
        }
    }
}

proof fn lemma_all_shown(listings: Seq<DirListing>, roots: Seq<Seq<u8>>)
    ensures
        forall|i: int|
            0 <= i < in_path_order(listings, roots).len() ==> is_shown(
                #[trigger] in_path_order(listings, roots)[i],
            ),
    decreases listings.len(),
{
    if listings.len() > 0 {
        lemma_all_shown(listings.drop_last(), roots);
        if let Some(files) = listings.last().files {
            lemma_shown_are_shown(listings.last().dir@, files@, roots);
        }
        let a = in_path_order(listings.drop_last(), roots);
        let raw = shown_of_dir(listings.last(), roots);
        let b = raw.sort_by(path_down());
        let all = in_path_order(listings, roots);
        assert forall|i: int| 0 <= i < all.len() implies is_shown(#[trigger] all[i]) by {
            if i < a.len() {
                assert(all[i] == a[i]);
            } else {
                let e = b[i - a.len()];
                assert(all[i] == e);
                lemma_sorted_keeps(raw, e);
                assert(b.contains(e));
                let j = choose|j: int| 0 <= j < raw.len() && raw[j] == e;
                assert(is_shown(raw[j]));
            }
        }
    }
}

proof fn lemma_shown_are_shown(dir: Seq<char>, files: Seq<DirEntry>, roots: Seq<Seq<u8>>)
    ensures
        forall|i: int|
            0 <= i < shown_of(dir, files, roots).len() ==> is_shown(
                #[trigger] shown_of(dir, files, roots)[i],
            ),
    decreases files.len(),
{
    if files.len() > 0 {
        lemma_shown_are_shown(dir, files.drop_last(), roots);
        let before = shown_of(dir, files.drop_last(), roots);
        let all = shown_of(dir, files, roots);
        assert forall|i: int| 0 <= i < all.len() implies is_shown(#[trigger] all[i]) by {
            if i < before.len() {
                assert(all[i] == before[i]);
            }
        }
    }
}

/// What holds of the places of dated files: they ascend, each is that of a dated
/// file, and each is counted by those before it.
proof fn lemma_dated_places(files: Seq<Entry>)
    ensures
        forall|m: int|
            0 <= m < dated_places(files).len() ==> {
                let k = #[trigger] dated_places(files)[m];
                &&& 0 <= k < files.len()
                &&& is_dated(files[k])
                &&& dated_before(files, k) == m
            },
    decreases files.len(),
{
    if files.len() > 0 {
        let head = files.drop_last();
        lemma_dated_places(head);
        let all = dated_places(files);
        let before = dated_places(head);
        assert forall|m: int| 0 <= m < all.len() implies {
            let k = #[trigger] all[m];
            &&& 0 <= k < files.len()
            &&& is_dated(files[k])
            &&& dated_before(files, k) == m
        } by {
            if m < before.len() {
                let k = before[m];
                assert(all[m] == k);
                assert(files.take(k) =~= head.take(k));
            } else {
                assert(files.take(files.len() - 1) =~= head);
            }
        }
    }
}

/// One place on, the count of dated files grows by one where a dated file
/// stands, and it never passes the count of all.
proof fn lemma_dated_step(files: Seq<Entry>, k: int)
    requires
        0 <= k < files.len(),
    ensures
        dated_before(files, k + 1) == dated_before(files, k) + (if is_dated(files[k]) {
            1int
        } else {
            0
        }),
        dated_before(files, k + 1) <= dated_places(files).len(),
        dated_in_order(files).len() == dated_places(files).len(),
    decreases files.len() - k,
{
    assert(files.take(k + 1).drop_last() =~= files.take(k));
    newest_first_is_total(files);
    dated_places(files).lemma_sort_by_ensures(newest_first(files));
    vstd::seq_lib::to_multiset_len(dated_places(files));
    vstd::seq_lib::to_multiset_len(dated_in_order(files));
    if k + 1 < files.len() {
        lemma_dated_step(files, k + 1);
    } else {
        assert(files.take(files.len() as int) =~= files);
    }
}

proof fn lemma_places_keep(files: Seq<Entry>, x: int)
    ensures
        dated_in_order(files).contains(x) <==> dated_places(files).contains(x),
{
    broadcast use group_to_multiset_ensures;

    newest_first_is_total(files);
    let places = dated_places(files);
    let order = dated_in_order(files);
    places.lemma_sort_by_ensures(newest_first(files));
    assert(places.contains(x) <==> places.to_multiset().contains(x));
    assert(order.contains(x) <==> order.to_multiset().contains(x));
}

/// What stands at a place of the gallery is one of the files, and its name tells
/// a time exactly where the one at that place of the path order does.
proof fn lemma_source(files: Seq<Entry>, k: int)
    requires
        0 <= k < files.len(),
    ensures
        0 <= source_of(files, k) < files.len(),
        is_dated(arranged(files)[k]) == is_dated(files[k]),
        is_dated(files[k]) ==> 0 <= dated_before(files, k) < dated_in_order(files).len(),
{
    if is_dated(files[k]) {
        lemma_dated_step(files, k);
        let x = source_of(files, k);
        assert(dated_in_order(files).contains(x));
        lemma_places_keep(files, x);
        let m = choose|m: int| 0 <= m < dated_places(files).len() && dated_places(files)[m] == x;
        lemma_dated_places(files);
        assert(dated_places(files)[m] == x);
    }
}

/// The gallery's order keeps the files: each of them, and nothing else.
pub proof fn arranging_keeps_the_files(files: Seq<Entry>, e: Entry)
    ensures
        arranged(files).contains(e) <==> files.contains(e),
{
    let all = arranged(files);
    if all.contains(e) {
        let k = choose|k: int| 0 <= k < all.len() && all[k] == e;
        lemma_source(files, k);
        assert(files[source_of(files, k)] == e);
    }
    if files.contains(e) {
        let x = choose|x: int| 0 <= x < files.len() && files[x] == e;
        if is_dated(e) {
            lemma_dated_step(files, x);
            lemma_dated_places(files);
            lemma_place_is_listed(files, x);
            lemma_places_keep(files, x);
            let order = dated_in_order(files);
            let m = choose|m: int| 0 <= m < order.len() && order[m] == x;
            let k = dated_places(files)[m];
            assert(source_of(files, k) == x);
            assert(all[k] == e);
        } else {
            assert(all[x] == e);
        }
    }
}

proof fn lemma_place_is_listed(files: Seq<Entry>, x: int)
    requires
        0 <= x < files.len(),
        is_dated(files[x]),
    ensures
        dated_places(files).contains(x),
    decreases files.len(),
{
    let all = dated_places(files);
    if x == files.len() - 1 {
        assert(all[all.len() - 1] == x);
    } else {
        let head = files.drop_last();
        lemma_place_is_listed(head, x);
        let before = dated_places(head);
        let m = choose|m: int| 0 <= m < before.len() && before[m] == x;
        assert(all[m] == x);
    }
}

/// The gallery's order shows no file twice: two places have their files from two
/// places of the path order.
pub proof fn every_file_has_one_place(files: Seq<Entry>, i: int, j: int)
    requires
        0 <= i < j < files.len(),
    ensures
        source_of(files, i) != source_of(files, j),
{
    lemma_source(files, i);
    lemma_source(files, j);
    if is_dated(files[i]) && is_dated(files[j]) {
        let places = dated_places(files);
        let order = dated_in_order(files);
        lemma_dated_before_grows(files, i, j);
        lemma_dated_places(files);
        assert(places.no_duplicates()) by {
            assert forall|m: int, n: int|
                0 <= m < places.len() && 0 <= n < places.len() && m != n implies places[m]
                != places[n] by {
                assert(dated_before(files, places[m]) == m);
                assert(dated_before(files, places[n]) == n);
            }
        }
        newest_first_is_total(files);
        places.lemma_sort_by_ensures(newest_first(files));
        places.lemma_multiset_has_no_duplicates();
        order.lemma_multiset_has_no_duplicates_conv();
    }
}

/// Files whose names tell no time stand where the path order has them: with such
/// files alone the gallery is in path order.
pub proof fn undated_files_keep_their_places(files: Seq<Entry>)
    ensures
        forall|k: int|
            0 <= k < files.len() && !is_dated(files[k]) ==> #[trigger] arranged(files)[k]
                == files[k],
        (forall|k: int| 0 <= k < files.len() ==> !is_dated(#[trigger] files[k])) ==> arranged(files)
            == files,
{
    if forall|k: int| 0 <= k < files.len() ==> !is_dated(#[trigger] files[k]) {
        assert(arranged(files) =~= files);
    }
}

proof fn lemma_dated_before_grows(files: Seq<Entry>, i: int, j: int)
    requires
        0 <= i < j <= files.len(),
    ensures
        dated_before(files, i) <= dated_before(files, j),
        is_dated(files[i]) ==> dated_before(files, i) < dated_before(files, j),
    decreases j - i,
{
    lemma_dated_step(files, i);
    if i + 1 < j {
        lemma_dated_before_grows(files, i + 1, j);
    }
}

/// Of two files whose names tell when they were captured the later one comes
/// first, whatever their kinds and directories.
pub proof fn later_capture_comes_first(files: Seq<Entry>, i: int, j: int)
    requires
        0 <= i < j < files.len(),
        is_dated(arranged(files)[i]),
        is_dated(arranged(files)[j]),
    ensures
        capture_time(arranged(files)[i].name)->0 >= capture_time(arranged(files)[j].name)->0,
{
    lemma_source(files, i);
    lemma_source(files, j);
    lemma_dated_before_grows(files, i, j);
    let leq = newest_first(files);
    let order = dated_in_order(files);
    newest_first_is_total(files);
    dated_places(files).lemma_sort_by_ensures(leq);
    assert(leq(order[dated_before(files, i)], order[dated_before(files, j)]));
}

proof fn lemma_order_keeps(listings: Seq<DirListing>, e: Entry)
    ensures
        shown_in_order(listings).contains(e) <==> in_path_order(
            listings,
            roots_of(listings),
        ).contains(e),
        shown_in_order(listings).contains(e) ==> is_shown(e),
{
    arranging_keeps_the_files(in_path_order(listings, roots_of(listings)), e);
    lemma_all_shown(listings, roots_of(listings));
}

/// The gallery shows exactly the photos and videos that the readable media
/// directories hold: each of them, and nothing else. A link that points
/// elsewhere is none of them.
pub proof fn gallery_shows_exactly_the_media(listings: Seq<DirListing>, v: ItemView)
    ensures
        items_of_dirs(listings).contains(v) <==> exists|k: int|
            0 <= k < listings.len() && listing_shows(
                #[trigger] listings[k],
                roots_of(listings),
                v,
            ),
{
    let roots = roots_of(listings);
    let all = in_path_order(listings, roots);
    let order = shown_in_order(listings);
    let items = items_of_dirs(listings);
    lemma_shown_of_dirs(listings, roots, v);
    if items.contains(v) {
        let i = choose|i: int| 0 <= i < items.len() && items[i] == v;
        let e = order[i];
        assert(order.contains(e));
        lemma_order_keeps(listings, e);
        let j = choose|j: int| 0 <= j < all.len() && all[j] == e;
        assert(item_of(all[j].dir, all[j].name) == Some(v));
        assert(entries_show(all, v));
    }
    if entries_show(all, v) {
        let j = choose|j: int|
            0 <= j < all.len() && item_of((#[trigger] all[j]).dir, all[j].name) == Some(v);
        let e = all[j];
        assert(all.contains(e));
        lemma_order_keeps(listings, e);
        let i = choose|i: int| 0 <= i < order.len() && order[i] == e;
        assert(items[i] == v);
    }
}

/// The gallery is newest first: of the items whose names tell when they were
/// captured none was captured before a later one in the list, in whatever
/// directories they are.
pub proof fn gallery_is_newest_first(listings: Seq<DirListing>, i: int, j: int)
    requires
        0 <= i < j < items_of_dirs(listings).len(),
        valid_utf8(shown_in_order(listings)[i].name),
        valid_utf8(shown_in_order(listings)[j].name),
        item_time(items_of_dirs(listings)[i]) is Some,
        item_time(items_of_dirs(listings)[j]) is Some,
    ensures
        item_time(items_of_dirs(listings)[i])->0 >= item_time(items_of_dirs(listings)[j])->0,
{
    let order = shown_in_order(listings);
    lemma_order_keeps(listings, order[i]);
    lemma_order_keeps(listings, order[j]);
    assert(order.contains(order[i]) && order.contains(order[j]));
    decode_utf8_encode_utf8(order[i].name);
    decode_utf8_encode_utf8(order[j].name);
    later_capture_comes_first(in_path_order(listings, roots_of(listings)), i, j);
}

/// Links that lead out of the media directories, or nowhere, do not show: what
/// only such links would show as is no item.
pub proof fn links_elsewhere_do_not_show(listings: Seq<DirListing>, v: ItemView)
    requires
        forall|k: int, i: int|
            0 <= k < listings.len() && listings[k].files is Some && 0 <= i
                < listings[k].files->0@.len() && item_of(
                listings[k].dir@,
                (#[trigger] listings[k].files->0@[i]).name@,
            ) == Some(v) ==> {
                &&& listings[k].files->0@[i].kind matches EntryKind::Link(target)
                &&& target matches Some(t) ==> !below_some(t@, roots_of(listings))
            },
    ensures
        !items_of_dirs(listings).contains(v),
{
    gallery_shows_exactly_the_media(listings, v);
    if items_of_dirs(listings).contains(v) {
        let roots = roots_of(listings);
        let k = choose|k: int|
            0 <= k < listings.len() && listing_shows(#[trigger] listings[k], roots, v);
        let files = listings[k].files->0@;
        let i = choose|i: int|
            0 <= i < files.len() && admitted((#[trigger] files[i]).kind, roots) && item_of(
                listings[k].dir@,
                files[i].name@,
            ) == Some(v);
        assert(listings[k].files->0@[i] == files[i]);
    }
}

/// The path of an item is its directory, a slash and its name.
pub proof fn item_path_is_dir_and_name(dir: Seq<char>, name: Seq<char>)
    requires
        dir.len() > 0,
        dir.last() != '/',
        item_of(dir, encode_utf8(name)) is Some,
    ensures
        item_of(dir, encode_utf8(name))->0.path == dir + seq!['/'] + name,
        item_of(dir, encode_utf8(name))->0.name == name,
{
    let slash = seq!['/'];
    text::shown_undoes_encoding(name);
    text::shown_undoes_encoding(dir + slash + name);
    text::encode_concat(dir + slash, name);
    text::encode_concat(dir, slash);
    lemma_slash();
    lemma_last_byte(dir);
}

proof fn lemma_slash()
    ensures
        encode_utf8(seq!['/']) == seq![47u8],
{
    assert(is_ascii_chars(seq!['/']));
    is_ascii_chars_encode_utf8(seq!['/']);
    assert(encode_utf8(seq!['/']) =~= seq![47u8]);
}

proof fn lemma_last_byte(s: Seq<char>)
    requires
        s.len() > 0,
        s.last() != '/',
    ensures
        encode_utf8(s).len() > 0,
        encode_utf8(s).last() != 47,
{
    let tail = seq![s.last()];
    assert(s =~= s.drop_last() + tail);
    text::encode_concat(s.drop_last(), tail);
    lemma_char_bytes(s.last());
}

proof fn lemma_char_bytes(c: char)
    requires
        c != '/',
    ensures
        encode_utf8(seq![c]).len() > 0,
        encode_utf8(seq![c]).last() != 47,
{
    let tail = seq![c];
    let x = c as u32;
    char_is_scalar(c);
    assert(tail.drop_first() =~= Seq::<char>::empty());
    assert(encode_utf8(Seq::<char>::empty()) =~= Seq::<u8>::empty());
    assert(encode_utf8(tail) =~= encode_scalar(x));
    if x <= 0x7F {
        assert(is_ascii_chars(tail));
        is_ascii_chars_encode_utf8(tail);
        assert(encode_utf8(tail)[0] == c as u8);
    } else {
        let low = (x & 0x3F) as u8;
        assert(0x80u8 | low >= 0x80u8) by (bit_vector);
        assert(encode_scalar(x).last() == last_continuation_byte(x));
    }
}

/// The extension of a name is what stands behind its last dot, in small
/// letters.
pub proof fn extension_is_behind_the_dot(stem: Seq<char>, ext: Seq<char>)
    requires
        stem.len() > 0,
        is_ascii_chars(ext),
        !ext.contains('.'),
    ensures
        extension(encode_utf8(stem + seq!['.'] + ext)) == text::lowered(ext),
{
    let dot = seq!['.'];
    let name = encode_utf8(stem + dot + ext);
    let first = encode_utf8(stem);
    let last = encode_utf8(ext);
    text::encode_concat(stem + dot, ext);
    text::encode_concat(stem, dot);
    assert(is_ascii_chars(dot));
    is_ascii_chars_encode_utf8(dot);
    is_ascii_chars_encode_utf8(ext);
    assert(encode_utf8(dot) =~= seq![46u8]);
    lemma_bytes_of_some_text(stem);
    assert(name[first.len() as int] == 46);
    assert forall|i: int| first.len() < i < name.len() implies name[i] != 46 by {
        let k = i - first.len() - 1;
        assert(name[i] == last[k]);
        assert(ext[k] != '.');
        assert('\0' <= ext[k] <= '\u{7f}');
    }
    lemma_last_dot_is(name, first.len() as int);
    assert(name.skip((first.len() + 1) as int) =~= last);
    encode_utf8_valid_utf8(ext);
    encode_utf8_decode_utf8(ext);
}

proof fn lemma_bytes_of_some_text(s: Seq<char>)
    requires
        s.len() > 0,
    ensures
        encode_utf8(s).len() > 0,
{
    let tail = seq![s.last()];
    assert(s =~= s.drop_last() + tail);
    text::encode_concat(s.drop_last(), tail);
    lemma_some_bytes(s.last());
}

proof fn lemma_some_bytes(c: char)
    ensures
        encode_utf8(seq![c]).len() > 0,
{
    char_is_scalar(c);
    assert(seq![c].drop_first() =~= Seq::<char>::empty());
    assert(encode_utf8(Seq::<char>::empty()) =~= Seq::<u8>::empty());
    assert(encode_utf8(seq![c]) =~= encode_scalar(c as u32));
}

/// Every photo and video shows in the gallery, under its own path and as what it
/// is, unless its name is that of a thumbnail. The letters' case of the
/// extension makes no difference.
pub proof fn media_files_are_items(dir: Seq<char>, stem: Seq<char>, ext: Seq<char>)
    requires
        dir.len() > 0,
        dir.last() != '/',
        stem.len() > 0,
        is_ascii_chars(ext),
        video_extension(text::lowered(ext)) || photo_extension(text::lowered(ext)),
        !text::has_suffix(stem + seq!['.'] + ext, ".thumb.jpg"@),
    ensures
        ({
            let name = stem + seq!['.'] + ext;
            item_of(dir, encode_utf8(name)) == Some(
                ItemView {
                    path: dir + seq!['/'] + name,
                    name,
                    is_video: video_extension(text::lowered(ext)),
                },
            )
        }),
{
    let name = stem + seq!['.'] + ext;
    lemma_no_dot(ext);
    extension_is_behind_the_dot(stem, ext);
    text::shown_undoes_encoding(name);
    item_path_is_dir_and_name(dir, name);
}

proof fn lemma_no_dot(ext: Seq<char>)
    requires
        is_ascii_chars(ext),
        video_extension(text::lowered(ext)) || photo_extension(text::lowered(ext)),
    ensures
        !ext.contains('.'),
{
    reveal_strlit("mp4");
    reveal_strlit("h264");
    reveal_strlit("mkv");
    reveal_strlit("jpg");
    reveal_strlit("jpeg");
    reveal_strlit("png");
    reveal_strlit("dng");
    let small = text::lowered(ext);
    if ext.contains('.') {
        let i = choose|i: int| 0 <= i < ext.len() && ext[i] == '.';
        assert(small[i] == '.');
        assert(small.len() <= 4);
        assert(small[0] != '.' && small[1] != '.' && small[2] != '.');
        assert(small.len() == 4 ==> small[3] != '.');
    }
}

/// The names that captures are given are never those of thumbnails: what stands
/// before the dot does not end in a `b`.
pub(crate) proof fn lemma_capture_is_item(dir: Seq<char>, stem: Seq<char>, ext: Seq<char>)
    requires
        dir.len() > 0,
        dir.last() != '/',
        stem.len() > 0,
        stem.last() != 'b',
        ext == "jpg"@ || ext == "mp4"@,
    ensures
        ({
            let name = stem + seq!['.'] + ext;
            item_of(dir, encode_utf8(name)) == Some(
                ItemView { path: dir + seq!['/'] + name, name, is_video: ext == "mp4"@ },
            )
        }),
{
    reveal_strlit("jpg");
    reveal_strlit("mp4");
    reveal_strlit("h264");
    reveal_strlit("mkv");
    reveal_strlit(".thumb.jpg");
    assert("jpg"@[0] == 'j' && "mp4"@[0] == 'm' && "mkv"@[0] == 'm');
    assert("h264"@.len() == 4 && "jpg"@.len() == 3);
    let name = stem + seq!['.'] + ext;
    assert(text::lowered(ext) =~= ext);
    let t = ".thumb.jpg"@;
    if text::has_suffix(name, t) {
        let s = name.skip(name.len() - t.len());
        assert(s[5] == name[name.len() - 5]);
        assert(name[name.len() - 5] == stem.last());
    }
    media_files_are_items(dir, stem, ext);
}

/// The thumbnail that stands beside a video is no item of its own.
pub proof fn thumbnails_do_not_show_in_the_gallery(dir: Seq<char>, stem: Seq<char>)
    ensures
        item_of(dir, encode_utf8(stem + ".thumb.jpg"@)) is None,
{
    let name = stem + ".thumb.jpg"@;
    text::shown_undoes_encoding(name);
    assert(name.skip(stem.len() as int) =~= ".thumb.jpg"@);
}

/// A path lies below a directory exactly where it is the directory, a slash and
/// something more.
pub proof fn below_is_behind_the_slash(path: Seq<u8>, root: Seq<u8>, rest: Seq<u8>)
    requires
        root.len() > 0,
        root.last() != 47,
    ensures
        rest.len() > 0 ==> below(root + seq![47u8] + rest, root),
        below(path, root) ==> path.len() > root.len() + 1 && path == root + seq![47u8] + path.skip(
            root.len() as int + 1,
        ),
{
    let start = joined(root, Seq::empty());
    assert(start =~= root + seq![47u8]);
    assert((root + seq![47u8] + rest).take(start.len() as int) =~= start);
    if below(path, root) {
        assert(path =~= path.take(start.len() as int) + path.skip(start.len() as int));
    }
}

/// Regular files may be given out, links only to files below a media directory,
/// and nothing else.
pub proof fn only_own_files_are_admitted(kind: EntryKind, roots: Seq<Seq<u8>>)
    ensures
        kind is File ==> admitted(kind, roots),
        admitted(kind, roots) && !(kind is File) ==> (kind matches EntryKind::Link(Some(target))
            && exists|k: int| 0 <= k < roots.len() && below(target@, #[trigger] roots[k])),
{
}

/// A file of any other kind does not show in the gallery.
pub proof fn other_files_do_not_show(dir: Seq<char>, stem: Seq<char>, ext: Seq<char>)
    requires
        stem.len() > 0,
        is_ascii_chars(ext),
        !ext.contains('.'),
        ({
            let small = text::lowered(ext);
            small != "jpg"@ && small != "jpeg"@ && small != "png"@ && small != "dng"@ && small
                != "mp4"@ && small != "h264"@ && small != "mkv"@
        }),
    ensures
        item_of(dir, encode_utf8(stem + seq!['.'] + ext)) is None,
{
    extension_is_behind_the_dot(stem, ext);
}

/// The thumbnail of a file is beside it, under its name with another extension.
pub proof fn thumbnails_stand_beside_their_files(dir: Seq<char>, stem: Seq<char>, ext: Seq<char>)
    requires
        stem.len() > 0,
        stem != seq!['.'],
        !stem.contains('/'),
        !ext.contains('/'),
        !ext.contains('.'),
    ensures
        thumb_of(dir + seq!['/'] + stem + seq!['.'] + ext) == dir + seq!['/'] + stem
            + ".thumb.jpg"@,
{
    let name = stem + seq!['.'] + ext;
    let path = dir + seq!['/'] + stem + seq!['.'] + ext;
    let d = dir.len() as int;
    assert(path =~= dir + seq!['/'] + name);
    assert forall|i: int| d < i < path.len() implies path[i] != '/' by {
        let k = i - d - 1;
        assert(path[i] == name[k]);
        if k < stem.len() {
            assert(stem.contains(stem[k]));
        } else if k > stem.len() {
            assert(name[k] == ext[k - stem.len() - 1]);
            assert(ext.contains(ext[k - stem.len() - 1]));
        }
    }
    text::find_last_is(path, '/', d);
    assert(path.skip(d + 1) =~= name);
    let dot = stem.len() as int;
    assert forall|i: int| dot < i < name.len() implies name[i] != '.' by {
        assert(name[i] == ext[i - dot - 1]);
        assert(ext.contains(ext[i - dot - 1]));
    }
    assert(name[dot] == '.');
    text::find_last_is(name, '.', dot);
    if name[0] == '.' && dot == 1 {
        assert(stem =~= seq!['.']);
    }
    assert(plain_file(path));
    assert(path_stem(path) =~= dir + seq!['/'] + stem);
}

/// A deletion removes the item itself, and with it its own thumbnail where there
/// is one, before it; nothing else, and nothing where the item is not there.
pub proof fn deletion_removes_the_item_and_its_thumbnail(
    path: &str,
    exists: bool,
    thumb_exists: bool,
    r: Vec<String>,
)
    requires
        call_ensures(delete, (path, exists, thumb_exists), r),
    ensures
        ({
            let files = text::texts(r@);
            &&& !exists ==> files.len() == 0
            &&& exists ==> files.len() > 0 && files.last() == path@
            &&& exists && thumb_exists ==> files.len() == 2 && files[0] == thumb_of(path@)
            &&& exists && !thumb_exists ==> files.len() == 1
        }),
{
}

/// What the gallery shows for an item is the photo itself, or the thumbnail of
/// the video; and a deletion succeeds exactly where an item that was there is
/// gone.
pub proof fn previews_are_pictures(
    path: &str,
    is_video: bool,
    r: String,
    there: bool,
    removed: bool,
    succeeded: bool,
)
    requires
        call_ensures(preview_path, (path, is_video), r),
        call_ensures(delete_succeeded, (there, removed), succeeded),
    ensures
        !is_video ==> r@ == path@,
        is_video ==> r@ == thumb_of(path@),
        succeeded <==> there && removed,
{
}

/// The order of bytes is that of the first byte that differs; of two names of
/// which one begins with the other the shorter comes first.
pub proof fn first_difference_decides(head: Seq<u8>, x: u8, y: u8, a: Seq<u8>, b: Seq<u8>)
    ensures
        x < y ==> bytes_le(head + seq![x] + a, head + seq![y] + b),
        x < y ==> !bytes_le(head + seq![y] + b, head + seq![x] + a),
        bytes_le(head, head + a),
        a.len() > 0 ==> !bytes_le(head + a, head),
    decreases head.len(),
{
    let p = head + seq![x] + a;
    let q = head + seq![y] + b;
    if head.len() == 0 {
        assert(p[0] == x && q[0] == y);
    } else {
        first_difference_decides(head.drop_first(), x, y, a, b);
        assert(p.drop_first() =~= head.drop_first() + seq![x] + a);
        assert(q.drop_first() =~= head.drop_first() + seq![y] + b);
        assert((head + a).drop_first() =~= head.drop_first() + a);
    }
}

/// In each directory the files come by their names, the last first; the
/// directories come in their own order.
pub proof fn paths_come_last_first(
    listings: Seq<DirListing>,
    roots: Seq<Seq<u8>>,
    listing: DirListing,
    i: int,
    j: int,
)
    requires
        0 <= i < j < shown_of_dir(listing, roots).len(),
    ensures
        ({
            let before = in_path_order(listings, roots);
            let all = in_path_order(listings.push(listing), roots);
            let n = before.len() as int;
            &&& all.take(n) == before
            &&& all.len() == n + shown_of_dir(listing, roots).len()
            &&& bytes_le(all[n + j].name, all[n + i].name)
        }),
{
    let files = shown_of_dir(listing, roots);
    let sorted = files.sort_by(path_down());
    let before = in_path_order(listings, roots);
    let all = in_path_order(listings.push(listing), roots);
    path_down_is_total();
    files.lemma_sort_by_ensures(path_down());
    to_multiset_len(files);
    to_multiset_len(sorted);
    assert(listings.push(listing).drop_last() =~= listings);
    assert(all.take(before.len() as int) =~= before);
    assert(path_down()(sorted[i], sorted[j]));
    assert(all[before.len() + i] == sorted[i]);
    assert(all[before.len() + j] == sorted[j]);
    lemma_le_reflexive(sorted[i].name);
}

/// Names that do not begin as those of captures do tell no time.
pub proof fn other_names_tell_no_time(name: Seq<u8>)
    requires
        !bytes_begin(name, encode_utf8("IMG_"@)),
        !bytes_begin(name, encode_utf8("VID_"@)),
        !bytes_begin(name, encode_utf8("timelapse_"@)),
    ensures
        capture_time(name) is None,
{
}

/// Whether a name begins with some bytes.
pub open spec fn bytes_begin(name: Seq<u8>, start: Seq<u8>) -> bool {
    start.len() <= name.len() && name.take(start.len() as int) == start
}

/// A scan gives exactly the photos and videos of the directories, and of those
/// whose names tell a time the latest first.
pub proof fn scans_give_exactly_the_media(
    listings: Vec<DirListing>,
    r: Vec<GalleryItem>,
    v: ItemView,
    i: int,
    j: int,
)
    requires
        call_ensures(scan, (&listings,), r),
    ensures
        item_views(r@).contains(v) <==> exists|k: int|
            0 <= k < listings@.len() && listing_shows(
                #[trigger] listings@[k],
                roots_of(listings@),
                v,
            ),
        0 <= i < j < r@.len() ==> ({
            let a = shown_in_order(listings@)[i];
            let b = shown_in_order(listings@)[j];
            &&& r@[i]@ == item_of(a.dir, a.name)->0
            &&& r@[j]@ == item_of(b.dir, b.name)->0
            &&& capture_time(a.name) is Some && capture_time(b.name) is Some ==> capture_time(
                a.name,
            )->0 >= capture_time(b.name)->0
        }),
{
    gallery_shows_exactly_the_media(listings@, v);
    let files = in_path_order(listings@, roots_of(listings@));
    if 0 <= i < j < r@.len() {
        assert(item_views(r@)[i] == r@[i]@);
        assert(item_views(r@)[j] == r@[j]@);
        if is_dated(arranged(files)[i]) && is_dated(arranged(files)[j]) {
            later_capture_comes_first(files, i, j);
        }
    }
}

} // verus!
