//! Directory entries and their display classification. An entry is the
//! snapshot of one filesystem object: its raw name and whether it is a file
//! or a directory. Files are classified by their lower-cased extension into
//! display categories; directories have a category of their own.

use vstd::prelude::*;

verus! {

/// What kind of filesystem object an entry denotes.
#[derive(Clone, Copy, PartialEq, Eq, Structural, Debug)]
pub enum EntryKind {
    File,
    Directory,
}

/// Snapshot of one filesystem object: raw name bytes and kind.
#[derive(Debug)]
pub struct Entry {
    pub name: Vec<u8>,
    pub kind: EntryKind,
}

/// Mathematical image of an entry: the name as a byte sequence and the kind.
#[verifier::ext_equal]
pub ghost struct EntryView {
    pub name: Seq<u8>,
    pub kind: EntryKind,
}

impl View for Entry {
    type V = EntryView;

    open spec fn view(&self) -> EntryView {
        EntryView { name: self.name@, kind: self.kind }
    }
}

impl Clone for Entry {
    /// The copy has the same name and kind.
    fn clone(&self) -> (r: Self)
        ensures
            r.name@ == self.name@,
            r.kind == self.kind,
    {
        Entry { name: crate::bytes::bytes_clone(&self.name), kind: self.kind }
    }
}

impl Entry {
    /// Whether the entry denotes a directory.
    pub fn is_dir(&self) -> (r: bool)
        ensures
            r == (self.kind is Directory),
    {
        self.kind == EntryKind::Directory
    }
}

/// Display category of an entry, derived from kind and extension.
#[derive(Clone, Copy, PartialEq, Eq, Structural, Debug)]
pub enum Category {
    Directory,
    Image,
    Audio,
    Archive,
    Video,
    Plain,
}

/// The extension determined by scanning positions `0..=j` for the last dot:
/// the name's suffix after a dot at a position of one or more, none if the
/// only dot is the leading one or there is no dot at all.
pub open spec fn ext_from(s: Seq<u8>, j: int) -> Option<Seq<u8>>
    decreases j + 1,
{
    if j < 0 || j >= s.len() {
        None
    } else if s[j] == '.' as u8 {
        if j >= 1 {
            Some(s.subrange(j + 1, s.len() as int))
        } else {
            None
        }
    } else {
        ext_from(s, j - 1)
    }
}

/// The extension of a file name: what follows the last dot, where a dot in
/// the leading position does not count (a name that starts with its only dot
/// has no extension).
pub open spec fn ext_of(s: Seq<u8>) -> Option<Seq<u8>> {
    ext_from(s, s.len() - 1)
}

/// The extension of a name, as fresh bytes.
pub fn extension(name: &Vec<u8>) -> (r: Option<Vec<u8>>)
    ensures
        match r {
            Some(e) => ext_of(name@) == Some(e@),
            None => ext_of(name@) is None,
        },
{
    let n: usize = name.len();
    let mut j: usize = n;
    while j > 0
        invariant
            n == name@.len(),
            j <= n,
            ext_of(name@) == ext_from(name@, j - 1),
        decreases j,
    {
        let i = j - 1;
        if name[i] == '.' as u8 {
            if i >= 1 {
                let mut e: Vec<u8> = Vec::new();
                let mut k: usize = i + 1;
                while k < n
                    invariant
                        n == name@.len(),
                        i + 1 <= k <= n,
                        e@ =~= name@.subrange(i + 1, k as int),
                    decreases n - k,
                {
                    e.push(name[k]);
                    assert(e@ =~= name@.subrange(i + 1, k + 1));
                    k = k + 1;
                }
                assert(e@ =~= name@.subrange(i + 1, n as int));
                return Some(e);
            } else {
                return None;
            }
        }
        j = i;
    }
    None
}

/// ASCII lower-casing of one byte.
pub open spec fn lower_byte(b: u8) -> u8 {
    if 'A' as u8 <= b && b <= 'Z' as u8 {
        (b + 32) as u8
    } else {
        b
    }
}

/// ASCII lower-casing of a byte sequence.
pub open spec fn lower_seq(s: Seq<u8>) -> Seq<u8> {
    s.map_values(|b: u8| lower_byte(b))
}

/// ASCII lower-casing of a byte vector, as fresh bytes.
pub fn to_lower(v: &Vec<u8>) -> (r: Vec<u8>)
    ensures
        r@ == lower_seq(v@),
{
    let n: usize = v.len();
    let mut r: Vec<u8> = Vec::new();
    let mut i: usize = 0;
    while i < n
        invariant
            n == v@.len(),
            i <= n,
            r@ =~= lower_seq(v@).take(i as int),
        decreases n - i,
    {
        let b = v[i];
        if 'A' as u8 <= b && b <= 'Z' as u8 {
            r.push(b + 32);
        } else {
            r.push(b);
        }
        assert(r@ =~= lower_seq(v@).take(i + 1));
        i = i + 1;
    }
    assert(r@ =~= lower_seq(v@));
    r
}

/// Equality of a byte vector and one literal byte.
fn eq1(e: &Vec<u8>, a: u8) -> (r: bool)
    ensures
        r == (e@ == seq![a]),
{
    if e.len() == 1 && e[0] == a {
        assert(e@ =~= seq![a]);
        true
    } else {
        assert(e@ !~= seq![a]);
        false
    }
}

/// Equality of a byte vector and two literal bytes.
fn eq2(e: &Vec<u8>, a: u8, b: u8) -> (r: bool)
    ensures
        r == (e@ == seq![a, b]),
{
    if e.len() == 2 && e[0] == a && e[1] == b {
        assert(e@ =~= seq![a, b]);
        true
    } else {
        assert(e@ !~= seq![a, b]);
        false
    }
}

/// Equality of a byte vector and three literal bytes.
fn eq3(e: &Vec<u8>, a: u8, b: u8, c: u8) -> (r: bool)
    ensures
        r == (e@ == seq![a, b, c]),
{
    if e.len() == 3 && e[0] == a && e[1] == b && e[2] == c {
        assert(e@ =~= seq![a, b, c]);
        true
    } else {
        assert(e@ !~= seq![a, b, c]);
        false
    }
}

/// Equality of a byte vector and four literal bytes.
fn eq4(e: &Vec<u8>, a: u8, b: u8, c: u8, d: u8) -> (r: bool)
    ensures
        r == (e@ == seq![a, b, c, d]),
{
    if e.len() == 4 && e[0] == a && e[1] == b && e[2] == c && e[3] == d {
        assert(e@ =~= seq![a, b, c, d]);
        true
    } else {
        assert(e@ !~= seq![a, b, c, d]);
        false
    }
}

/// The image extensions, already lower-cased.
pub open spec fn is_image_ext(e: Seq<u8>) -> bool {
    ||| e == seq!['j' as u8, 'p' as u8, 'g' as u8]  // jpg
    ||| e == seq!['j' as u8, 'p' as u8, 'e' as u8, 'g' as u8]  // jpeg
    ||| e == seq!['j' as u8, 'p' as u8, 'e' as u8]  // jpe
    ||| e == seq!['p' as u8, 'n' as u8, 'g' as u8]  // png
    ||| e == seq!['b' as u8, 'm' as u8, 'p' as u8]  // bmp
    ||| e == seq!['s' as u8, 'v' as u8, 'g' as u8]  // svg
    ||| e == seq!['e' as u8, 'p' as u8, 's' as u8]  // eps
    ||| e == seq!['g' as u8, 'i' as u8, 'f' as u8]  // gif
    ||| e == seq!['i' as u8, 'c' as u8, 'o' as u8]  // ico
    ||| e == seq!['w' as u8, 'e' as u8, 'b' as u8, 'p' as u8]  // webp
}

/// The audio extensions, already lower-cased.
pub open spec fn is_audio_ext(e: Seq<u8>) -> bool {
    ||| e == seq!['m' as u8, 'p' as u8, '3' as u8]  // mp3
    ||| e == seq!['o' as u8, 'g' as u8, 'a' as u8]  // oga
    ||| e == seq!['o' as u8, 'p' as u8, 'u' as u8, 's' as u8]  // opus
    ||| e == seq!['m' as u8, '4' as u8, 'a' as u8]  // m4a
    ||| e == seq!['f' as u8, 'l' as u8, 'a' as u8, 'c' as u8]  // flac
    ||| e == seq!['w' as u8, 'a' as u8, 'v' as u8]  // wav
    ||| e == seq!['w' as u8, 'm' as u8, 'a' as u8]  // wma
    ||| e == seq!['a' as u8, 'a' as u8, 'c' as u8]  // aac
    ||| e == seq!['a' as u8, 'l' as u8, 'a' as u8, 'c' as u8]  // alac
}

/// The archive extensions, already lower-cased.
pub open spec fn is_archive_ext(e: Seq<u8>) -> bool {
    ||| e == seq!['i' as u8, 's' as u8, 'o' as u8]  // iso
    ||| e == seq!['t' as u8, 'a' as u8, 'r' as u8]  // tar
    ||| e == seq!['b' as u8, 'z' as u8, '2' as u8]  // bz2
    ||| e == seq!['g' as u8, 'z' as u8]  // gz
    ||| e == seq!['l' as u8, 'z' as u8]  // lz
    ||| e == seq!['l' as u8, 'z' as u8, '4' as u8]  // lz4
    ||| e == seq!['l' as u8, 'z' as u8, 'm' as u8, 'a' as u8]  // lzma
    ||| e == seq!['l' as u8, 'z' as u8, 'o' as u8]  // lzo
    ||| e == seq!['r' as u8, 'z' as u8]  // rz
    ||| e == seq!['x' as u8, 'z' as u8]  // xz
    ||| e == seq!['z' as u8]  // z
    ||| e == seq!['z' as u8, 's' as u8, 't' as u8]  // zst
    ||| e == seq!['7' as u8, 'z' as u8]  // 7z
    ||| e == seq!['s' as u8, '7' as u8, 'z' as u8]  // s7z
    ||| e == seq!['r' as u8, 'a' as u8, 'r' as u8]  // rar
    ||| e == seq!['t' as u8, 'g' as u8, 'z' as u8]  // tgz
    ||| e == seq!['t' as u8, 'b' as u8, 'z' as u8, '2' as u8]  // tbz2
    ||| e == seq!['t' as u8, 'l' as u8, 'z' as u8]  // tlz
    ||| e == seq!['t' as u8, 'x' as u8, 'z' as u8]  // txz
    ||| e == seq!['z' as u8, 'i' as u8, 'p' as u8]  // zip
    ||| e == seq!['z' as u8, 'i' as u8, 'p' as u8, 'x' as u8]  // zipx
    ||| e == seq!['j' as u8, 'a' as u8, 'r' as u8]  // jar
}

/// The video extensions, already lower-cased.
pub open spec fn is_video_ext(e: Seq<u8>) -> bool {
    ||| e == seq!['w' as u8, 'e' as u8, 'b' as u8, 'm' as u8]  // webm
    ||| e == seq!['m' as u8, 'k' as u8, 'v' as u8]  // mkv
    ||| e == seq!['f' as u8, 'l' as u8, 'v' as u8]  // flv
    ||| e == seq!['v' as u8, 'o' as u8, 'b' as u8]  // vob
    ||| e == seq!['o' as u8, 'g' as u8, 'v' as u8]  // ogv
    ||| e == seq!['o' as u8, 'g' as u8, 'g' as u8]  // ogg
    ||| e == seq!['g' as u8, 'i' as u8, 'f' as u8, 'v' as u8]  // gifv
    ||| e == seq!['a' as u8, 'v' as u8, 'i' as u8]  // avi
    ||| e == seq!['m' as u8, 'o' as u8, 'v' as u8]  // mov
    ||| e == seq!['q' as u8, 't' as u8]  // qt
    ||| e == seq!['w' as u8, 'm' as u8, 'v' as u8]  // wmv
    ||| e == seq!['m' as u8, 'p' as u8, '4' as u8]  // mp4
    ||| e == seq!['m' as u8, '4' as u8, 'v' as u8]  // m4v
    ||| e == seq!['m' as u8, 'p' as u8, '2' as u8]  // mp2
    ||| e == seq!['m' as u8, 'p' as u8, 'v' as u8]  // mpv
}

/// Decides membership in the image extension table.
fn image_ext(e: &Vec<u8>) -> (r: bool)
    ensures
        r == is_image_ext(e@),
{
    if eq3(e, 'j' as u8, 'p' as u8, 'g' as u8) {
        return true;
    }
    if eq4(e, 'j' as u8, 'p' as u8, 'e' as u8, 'g' as u8) {
        return true;
    }
    if eq3(e, 'j' as u8, 'p' as u8, 'e' as u8) {
        return true;
    }
    if eq3(e, 'p' as u8, 'n' as u8, 'g' as u8) {
        return true;
    }
    if eq3(e, 'b' as u8, 'm' as u8, 'p' as u8) {
        return true;
    }
    if eq3(e, 's' as u8, 'v' as u8, 'g' as u8) {
        return true;
    }
    if eq3(e, 'e' as u8, 'p' as u8, 's' as u8) {
        return true;
    }
    if eq3(e, 'g' as u8, 'i' as u8, 'f' as u8) {
        return true;
    }
    if eq3(e, 'i' as u8, 'c' as u8, 'o' as u8) {
        return true;
    }
    if eq4(e, 'w' as u8, 'e' as u8, 'b' as u8, 'p' as u8) {
        return true;
    }
    false
}

/// Decides membership in the audio extension table.
fn audio_ext(e: &Vec<u8>) -> (r: bool)
    ensures
        r == is_audio_ext(e@),
{
    if eq3(e, 'm' as u8, 'p' as u8, '3' as u8) {
        return true;
    }
    if eq3(e, 'o' as u8, 'g' as u8, 'a' as u8) {
        return true;
    }
    if eq4(e, 'o' as u8, 'p' as u8, 'u' as u8, 's' as u8) {
        return true;
    }
    if eq3(e, 'm' as u8, '4' as u8, 'a' as u8) {
        return true;
    }
    if eq4(e, 'f' as u8, 'l' as u8, 'a' as u8, 'c' as u8) {
        return true;
    }
    if eq3(e, 'w' as u8, 'a' as u8, 'v' as u8) {
        return true;
    }
    if eq3(e, 'w' as u8, 'm' as u8, 'a' as u8) {
        return true;
    }
    if eq3(e, 'a' as u8, 'a' as u8, 'c' as u8) {
        return true;
    }
    if eq4(e, 'a' as u8, 'l' as u8, 'a' as u8, 'c' as u8) {
        return true;
    }
    false
}

/// Decides membership in the archive extension table.
fn archive_ext(e: &Vec<u8>) -> (r: bool)
    ensures
        r == is_archive_ext(e@),
{
    if eq3(e, 'i' as u8, 's' as u8, 'o' as u8) {
        return true;
    }
    if eq3(e, 't' as u8, 'a' as u8, 'r' as u8) {
        return true;
    }
    if eq3(e, 'b' as u8, 'z' as u8, '2' as u8) {
        return true;
    }
    if eq2(e, 'g' as u8, 'z' as u8) {
        return true;
    }
    if eq2(e, 'l' as u8, 'z' as u8) {
        return true;
    }
    if eq3(e, 'l' as u8, 'z' as u8, '4' as u8) {
        return true;
    }
    if eq4(e, 'l' as u8, 'z' as u8, 'm' as u8, 'a' as u8) {
        return true;
    }
    if eq3(e, 'l' as u8, 'z' as u8, 'o' as u8) {
        return true;
    }
    if eq2(e, 'r' as u8, 'z' as u8) {
        return true;
    }
    if eq2(e, 'x' as u8, 'z' as u8) {
        return true;
    }
    if eq1(e, 'z' as u8) {
        return true;
    }
    if eq3(e, 'z' as u8, 's' as u8, 't' as u8) {
        return true;
    }
    if eq2(e, '7' as u8, 'z' as u8) {
        return true;
    }
    if eq3(e, 's' as u8, '7' as u8, 'z' as u8) {
        return true;
    }
    if eq3(e, 'r' as u8, 'a' as u8, 'r' as u8) {
        return true;
    }
    if eq3(e, 't' as u8, 'g' as u8, 'z' as u8) {
        return true;
    }
    if eq4(e, 't' as u8, 'b' as u8, 'z' as u8, '2' as u8) {
        return true;
    }
    if eq3(e, 't' as u8, 'l' as u8, 'z' as u8) {
        return true;
    }
    if eq3(e, 't' as u8, 'x' as u8, 'z' as u8) {
        return true;
    }
    if eq3(e, 'z' as u8, 'i' as u8, 'p' as u8) {
        return true;
    }
    if eq4(e, 'z' as u8, 'i' as u8, 'p' as u8, 'x' as u8) {
        return true;
    }
    if eq3(e, 'j' as u8, 'a' as u8, 'r' as u8) {
        return true;
    }
    false
}

/// Decides membership in the video extension table.
fn video_ext(e: &Vec<u8>) -> (r: bool)
    ensures
        r == is_video_ext(e@),
{
    if eq4(e, 'w' as u8, 'e' as u8, 'b' as u8, 'm' as u8) {
        return true;
    }
    if eq3(e, 'm' as u8, 'k' as u8, 'v' as u8) {
        return true;
    }
    if eq3(e, 'f' as u8, 'l' as u8, 'v' as u8) {
        return true;
    }
    if eq3(e, 'v' as u8, 'o' as u8, 'b' as u8) {
        return true;
    }
    if eq3(e, 'o' as u8, 'g' as u8, 'v' as u8) {
        return true;
    }
    if eq3(e, 'o' as u8, 'g' as u8, 'g' as u8) {
        return true;
    }
    if eq4(e, 'g' as u8, 'i' as u8, 'f' as u8, 'v' as u8) {
        return true;
    }
    if eq3(e, 'a' as u8, 'v' as u8, 'i' as u8) {
        return true;
    }
    if eq3(e, 'm' as u8, 'o' as u8, 'v' as u8) {
        return true;
    }
    if eq2(e, 'q' as u8, 't' as u8) {
        return true;
    }
    if eq3(e, 'w' as u8, 'm' as u8, 'v' as u8) {
        return true;
    }
    if eq3(e, 'm' as u8, 'p' as u8, '4' as u8) {
        return true;
    }
    if eq3(e, 'm' as u8, '4' as u8, 'v' as u8) {
        return true;
    }
    if eq3(e, 'm' as u8, 'p' as u8, '2' as u8) {
        return true;
    }
    if eq3(e, 'm' as u8, 'p' as u8, 'v' as u8) {
        return true;
    }
    false
}

/// The display category of an entry with the given kind and name:
/// directories are their own category; files go by the lower-cased
/// extension through the four tables, anything else is plain.
pub open spec fn spec_category(kind: EntryKind, name: Seq<u8>) -> Category {
    if kind is Directory {
        Category::Directory
    } else {
        match ext_of(name) {
            None => Category::Plain,
            Some(e) => {
                let l = lower_seq(e);
                if is_image_ext(l) {
                    Category::Image
                } else if is_audio_ext(l) {
                    Category::Audio
                } else if is_archive_ext(l) {
                    Category::Archive
                } else if is_video_ext(l) {
                    Category::Video
                } else {
                    Category::Plain
                }
            },
        }
    }
}

/// The display category of an entry, for the rendering layer to map to an
/// actual color.
pub fn get_color(e: &Entry) -> (r: Category)
    ensures
        r == spec_category(e.kind, e.name@),
{
    if e.is_dir() {
        return Category::Directory;
    }
    let ext = match extension(&e.name) {
        Some(x) => x,
        None => {
            return Category::Plain;
        },
    };
    let l = to_lower(&ext);
    if image_ext(&l) {
        Category::Image
    } else if audio_ext(&l) {
        Category::Audio
    } else if archive_ext(&l) {
        Category::Archive
    } else if video_ext(&l) {
        Category::Video
    } else {
        Category::Plain
    }
}

} // verus!
