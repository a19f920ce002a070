//! Where the annotations of an image are kept: beside the image, under the
//! image's name with its extension replaced by `.txt`.

use vstd::prelude::*;
use vstd::string::*;
use crate::text::chars_of;

verus! {

/// The extension `.jpg`.
pub open spec fn jpg_extension() -> Seq<char> {
    seq!['.', 'j', 'p', 'g']
}

/// The extension `.jpeg`.
pub open spec fn jpeg_extension() -> Seq<char> {
    seq!['.', 'j', 'p', 'e', 'g']
}

/// The extension `.png`.
pub open spec fn png_extension() -> Seq<char> {
    seq!['.', 'p', 'n', 'g']
}

/// The extension of every annotation file, `.txt`.
pub open spec fn annotation_extension() -> Seq<char> {
    seq!['.', 't', 'x', 't']
}

/// `s` ends with `suffix`.
pub open spec fn ends_with(s: Seq<char>, suffix: Seq<char>) -> bool {
    suffix.len() <= s.len() && s.subrange(s.len() - suffix.len(), s.len() as int) == suffix
}

/// The length of the image extension that `path` ends with, or 0 where it
/// ends with none. Extensions are matched exactly, lower case only.
pub open spec fn image_extension_len(path: Seq<char>) -> nat {
    if ends_with(path, jpeg_extension()) {
        5
    } else if ends_with(path, jpg_extension()) || ends_with(path, png_extension()) {
        4
    } else {
        0
    }
}

/// The path names an image in a supported format: JPEG or PNG.
pub open spec fn is_supported_image(path: Seq<char>) -> bool {
    image_extension_len(path) > 0
}

/// The annotation path of an image: the image path with its trailing
/// extension, and nothing else, replaced by `.txt`.
pub open spec fn annotation_path(path: Seq<char>) -> Seq<char> {
    path.subrange(0, path.len() - image_extension_len(path)) + annotation_extension()
}

fn has_suffix(s: &Vec<char>, suffix: &Vec<char>) -> (r: bool)
    ensures
        r == ends_with(s@, suffix@),
{
    if suffix.len() > s.len() {
        return false;
    }
    let start: usize = s.len() - suffix.len();
    let ghost tail = s@.subrange(start as int, s.len() as int);
    let mut i: usize = 0;
    while i < suffix.len()
        invariant
            i <= suffix.len(),
            start + suffix.len() == s.len(),
            tail == s@.subrange(start as int, s.len() as int),
            forall|k: int| 0 <= k < i ==> tail[k] == suffix@[k],
        decreases suffix.len() - i,
    {
        if s[start + i] != suffix[i] {
            assert(tail[i as int] != suffix@[i as int]);
            return false;
        }
        i = i + 1;
    }
    assert(tail =~= suffix@);
    true
}

/// Derives the annotation path from an image path.
///
/// A path that ends in `.jpg`, `.jpeg` or `.png` is supported, and its
/// annotation path is the same path with that final extension replaced by
/// `.txt`. The same characters occurring earlier in the path, in a directory
/// name for instance, are left alone. Any other path is unsupported and gives
/// `None`.
pub fn image_path_to_annotation_path(image_path: &str) -> (r: Option<String>)
    ensures
        r is Some <==> is_supported_image(image_path@),
        r matches Some(p) ==> p@ == annotation_path(image_path@),
{
    let chars = chars_of(image_path);
    let jpeg: Vec<char> = vec!['.', 'j', 'p', 'e', 'g'];
    let jpg: Vec<char> = vec!['.', 'j', 'p', 'g'];
    let png: Vec<char> = vec!['.', 'p', 'n', 'g'];
    assert(jpeg@ =~= jpeg_extension());
    assert(jpg@ =~= jpg_extension());
    assert(png@ =~= png_extension());
    let cut: usize = if has_suffix(&chars, &jpeg) {
        5
    } else if has_suffix(&chars, &jpg) || has_suffix(&chars, &png) {
        4
    } else {
        0
    };
    if cut == 0 {
        return None;
    }
    let stem = image_path.substring_char(0, chars.len() - cut);
    let mut p = String::from_str(stem);
    proof {
        reveal_strlit(".txt");
        assert(".txt"@ =~= annotation_extension());
    }
    p.append(".txt");
    Some(p)
}

/// The annotation path of a supported image always ends in `.txt`, and apart
/// from the extension it is the image path unchanged.
pub proof fn annotation_path_keeps_stem(path: Seq<char>)
    requires
        is_supported_image(path),
    ensures
        ends_with(annotation_path(path), annotation_extension()),
        annotation_path(path).len() == path.len() - image_extension_len(path) + 4,
        annotation_path(path).subrange(0, path.len() - image_extension_len(path))
            == path.subrange(0, path.len() - image_extension_len(path)),
{
    let stem = path.subrange(0, path.len() - image_extension_len(path));
    let out = annotation_path(path);
    assert(out.subrange(out.len() - 4, out.len() as int) =~= annotation_extension());
    assert(out.subrange(0, stem.len() as int) =~= stem);
}

} // verus!
