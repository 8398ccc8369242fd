//! File names that are safe to use as path segments.

use crate::text::concat_str;
use vstd::prelude::*;
use vstd::string::*;
use vstd::utf8::encode_utf8;

verus! {

/// Whether `c` is one of the characters that may not stand in a file name:
/// `/ ? < > \ : * | "`.
pub open spec fn is_illegal_char(c: char) -> bool {
    c == '/' || c == '?' || c == '<' || c == '>' || c == '\\' || c == ':' || c == '*' || c == '|'
        || c == '"'
}

/// Whether `c` is a control character: U+0000 to U+001F or U+0080 to U+009F.
pub open spec fn is_control_char(c: char) -> bool {
    (c as u32) <= 0x1f || (0x80 <= (c as u32) <= 0x9f)
}

/// Whether `s` holds neither an illegal nor a control character.
pub open spec fn is_clean(s: Seq<char>) -> bool {
    forall|i: int|
        0 <= i < s.len() ==> !is_illegal_char(#[trigger] s[i]) && !is_control_char(s[i])
}

/// What `sanitize_filename::sanitize_with_options` makes of `name` under the
/// given options.
pub uninterp spec fn sanitized(
    name: Seq<char>,
    windows: bool,
    truncate: bool,
    replacement: Seq<char>,
) -> Seq<char>;

/// Calls `sanitize_filename::sanitize_with_options`.
///
/// The crate replaces every illegal and every control character by
/// `replacement`, so with an empty replacement none is left; and with
/// `truncate` it cuts the result to at most 255 bytes of UTF-8. What it does
/// besides (names that are only dots, names reserved on Windows) is not
/// stated here.
#[verifier::external_body]
fn sanitize_with_options(name: &str, windows: bool, truncate: bool, replacement: &str) -> (r:
    String)
    ensures
        r@ == sanitized(name@, windows, truncate, replacement@),
        replacement@.len() == 0 ==> is_clean(r@),
        truncate ==> encode_utf8(r@).len() <= 255,
{
    sanitize_filename::sanitize_with_options(
        name,
        sanitize_filename::Options { windows, truncate, replacement },
    )
}

/// The name `name` as a path segment: without illegal and control
/// characters, and at most 255 bytes long. With `windows` the names that
/// Windows reserves are avoided too.
pub open spec fn segment_of(name: Seq<char>, windows: bool) -> Seq<char> {
    sanitized(name, windows, true, Seq::empty())
}

/// Turns `name` into a path segment.
pub fn sanitize(name: &str, windows: bool) -> (r: String)
    ensures
        r@ == segment_of(name@, windows),
        is_clean(r@),
        encode_utf8(r@).len() <= 255,
{
    proof {
        reveal_strlit("");
        assert(""@ =~= Seq::<char>::empty());
    }
    sanitize_with_options(name, windows, true, "")
}

/// The two directory levels under which an item is stored.
#[derive(Debug, Clone, PartialEq, Eq)]
pub struct ItemPath {
    /// The first level: the owner's name.
    pub artist: String,
    /// The second level: the owner's name, a long dash between two spaces,
    /// and the title.
    pub album: String,
}

/// The second directory level for an owner and a title that are already
/// path segments: the owner, a space, a long dash (U+2014), a space, and the
/// title.
pub open spec fn album_segment(artist: Seq<char>, title: Seq<char>) -> Seq<char> {
    artist + " \u{2014} "@ + title
}

/// The second level is free of illegal and control characters if the two
/// names are.
pub proof fn lemma_album_segment_is_clean(artist: Seq<char>, title: Seq<char>)
    requires
        is_clean(artist),
        is_clean(title),
    ensures
        is_clean(album_segment(artist, title)),
{
    reveal_strlit(" \u{2014} ");
    let middle = " \u{2014} "@;
    let album = album_segment(artist, title);
    assert(middle.len() == 3);
    assert(middle[0] == ' ' && middle[1] == '\u{2014}' && middle[2] == ' ');
    assert forall|i: int| 0 <= i < album.len() implies !is_illegal_char(#[trigger] album[i])
        && !is_control_char(album[i]) by {
        if i < artist.len() {
            assert(album[i] == artist[i]);
        } else if i < artist.len() + 3 {
            assert(album[i] == middle[i - artist.len()]);
        } else {
            assert(album[i] == title[i - artist.len() - 3]);
        }
    }
}

impl ItemPath {
    /// The path for an owner and a title that are already path segments.
    pub fn compose(artist: String, title: &str) -> (p: ItemPath)
        ensures
            p.artist@ == artist@,
            p.album@ == album_segment(artist@, title@),
    {
        let mut album = concat_str(artist.as_str(), " \u{2014} ");
        album.append(title);
        ItemPath { artist, album }
    }

    /// The segments of the path from the top down.
    pub fn segments(&self) -> (v: Vec<String>)
        ensures
            v@.len() == 2,
            v@[0]@ == self.artist@,
            v@[1]@ == self.album@,
    {
        let mut v: Vec<String> = Vec::new();
        v.push(self.artist.clone());
        v.push(self.album.clone());
        v
    }
}

} // verus!
