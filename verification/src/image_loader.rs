//! Which files of a deck directory are card images and in what order they come, and turning
//! the bytes of an image file into pixels for display.

use image::{DynamicImage, GenericImageView, ImageFormat};
use vstd::prelude::*;
use vstd::string::*;
use vstd::seq_lib::{to_multiset_build, to_multiset_insert, to_multiset_remove};
use vstd::utf8::char_u32_cast;
use crate::paths::{join, join_path};
use crate::text::{ascii_lower, eq_ignore_case, str_eq_ignore_case};

verus! {

/// Index of the last `.` before `j`, or -1.
pub open spec fn last_dot_before(name: Seq<char>, j: int) -> int
    decreases j,
{
    if j <= 0 {
        -1
    } else if name[j - 1] == '.' {
        j - 1
    } else {
        last_dot_before(name, j - 1)
    }
}

/// `Path::extension` of a file name: the text after its last `.`, unless there is no `.` or
/// the only `.` starts the name; `..` has none.
pub open spec fn extension(name: Seq<char>) -> Option<Seq<char>> {
    let k = last_dot_before(name, name.len() as int);
    if name == seq!['.', '.'] || k <= 0 {
        None
    } else {
        Some(name.subrange(k + 1, name.len() as int))
    }
}

/// A file is a card image when its extension is `jpg`, `jpeg` or `png`, in any case.
pub open spec fn is_card_image(name: Seq<char>) -> bool {
    match extension(name) {
        Some(ext) => eq_ignore_case(ext, "jpg"@) || eq_ignore_case(ext, "jpeg"@) || eq_ignore_case(ext, "png"@),
        None => false,
    }
}

/// The extension of a file name.
pub fn file_extension(name: &str) -> (r: Option<&str>)
    ensures
        match r {
            Some(e) => extension(name@) == Some(e@),
            None => extension(name@) is None,
        },
{
    let n = name.unicode_len();
    if n == 2 && name.get_char(0) == '.' && name.get_char(1) == '.' {
        assert(name@ =~= seq!['.', '.']);
        return None;
    }
    let mut j: usize = n;
    while j > 0 && name.get_char(j - 1) != '.'
        invariant
            n == name@.len(),
            j <= n,
            last_dot_before(name@, j as int) == last_dot_before(name@, n as int),
        decreases j,
    {
        j = j - 1;
    }
    if j <= 1 {
        return None;
    }
    Some(name.substring_char(j, n))
}

/// Card images are told by their extension without regard to ASCII case: two names whose
/// extensions differ only in case are both card images or neither is, and every name whose
/// extension is `jpg`, `jpeg` or `png` in any case is one; a name without extension is not.
pub proof fn lemma_card_image_ignores_case(n1: Seq<char>, n2: Seq<char>)
    ensures
        extension(n1) matches Some(e1) ==> (extension(n2) matches Some(e2) ==> (eq_ignore_case(e1, e2)
            ==> is_card_image(n1) == is_card_image(n2))),
        extension(n1) matches Some(e1) ==> (eq_ignore_case(e1, "jpg"@) || eq_ignore_case(e1, "jpeg"@)
            || eq_ignore_case(e1, "png"@) ==> is_card_image(n1)),
        extension(n1) is None ==> !is_card_image(n1),
{
    if let (Some(e1), Some(e2)) = (extension(n1), extension(n2)) {
        if eq_ignore_case(e1, e2) {
            assert forall|t: Seq<char>| eq_ignore_case(e1, t) <==> eq_ignore_case(e2, t) by {
                if eq_ignore_case(e1, t) {
                    assert forall|i: int| 0 <= i < e2.len() implies ascii_lower(#[trigger] e2[i]) == ascii_lower(t[i]) by {
                        assert(ascii_lower(e1[i]) == ascii_lower(e2[i]));
                        assert(ascii_lower(e1[i]) == ascii_lower(t[i]));
                    }
                }
                if eq_ignore_case(e2, t) {
                    assert forall|i: int| 0 <= i < e1.len() implies ascii_lower(#[trigger] e1[i]) == ascii_lower(t[i]) by {
                        assert(ascii_lower(e1[i]) == ascii_lower(e2[i]));
                        assert(ascii_lower(e2[i]) == ascii_lower(t[i]));
                    }
                }
            }
            assert(eq_ignore_case(e1, "jpg"@) == eq_ignore_case(e2, "jpg"@));
            assert(eq_ignore_case(e1, "jpeg"@) == eq_ignore_case(e2, "jpeg"@));
            assert(eq_ignore_case(e1, "png"@) == eq_ignore_case(e2, "png"@));
        }
    }
}

/// Whether a file name names a card image.
pub fn is_card_image_name(name: &str) -> (r: bool)
    ensures
        r == is_card_image(name@),
{
    match file_extension(name) {
        Some(ext) => str_eq_ignore_case(ext, "jpg") || str_eq_ignore_case(ext, "jpeg") || str_eq_ignore_case(ext, "png"),
        None => false,
    }
}

/// The order of paths: character by character, a proper prefix first.
pub open spec fn text_lt(a: Seq<char>, b: Seq<char>) -> bool
    decreases a.len(),
{
    if b.len() == 0 {
        false
    } else if a.len() == 0 {
        true
    } else if a[0] != b[0] {
        (a[0] as u32) < (b[0] as u32)
    } else {
        text_lt(a.drop_first(), b.drop_first())
    }
}

/// `a` comes no later than `b`.
pub open spec fn text_le(a: Seq<char>, b: Seq<char>) -> bool {
    a == b || text_lt(a, b)
}

/// No text comes before itself.
pub proof fn lemma_text_lt_irreflexive(a: Seq<char>)
    ensures
        !text_lt(a, a),
    decreases a.len(),
{
    if a.len() > 0 {
        lemma_text_lt_irreflexive(a.drop_first());
    }
}

/// Of two different texts one comes first, and not both.
pub proof fn lemma_text_lt_total(a: Seq<char>, b: Seq<char>)
    ensures
        a != b ==> text_lt(a, b) || text_lt(b, a),
        !(text_lt(a, b) && text_lt(b, a)),
    decreases a.len(),
{
    if a.len() > 0 && b.len() > 0 && a[0] == b[0] {
        lemma_text_lt_total(a.drop_first(), b.drop_first());
        if a.drop_first() == b.drop_first() {
            assert(a =~= seq![a[0]] + a.drop_first());
            assert(b =~= seq![b[0]] + b.drop_first());
        }
    } else if a.len() == 0 && b.len() == 0 {
        assert(a =~= b);
    } else if a.len() > 0 && b.len() > 0 {
        char_u32_cast(a[0], a[0] as u32);
        char_u32_cast(b[0], b[0] as u32);
    }
}

/// The order is transitive.
pub proof fn lemma_text_lt_transitive(a: Seq<char>, b: Seq<char>, c: Seq<char>)
    requires
        text_lt(a, b),
        text_lt(b, c),
    ensures
        text_lt(a, c),
    decreases a.len(),
{
    if a.len() > 0 && a[0] == b[0] && b[0] == c[0] {
        lemma_text_lt_transitive(a.drop_first(), b.drop_first(), c.drop_first());
    }
}

/// Compares two texts in path order.
pub fn str_lt(a: &str, b: &str) -> (r: bool)
    ensures
        r == text_lt(a@, b@),
{
    let na = a.unicode_len();
    let nb = b.unicode_len();
    let mut i: usize = 0;
    assert(a@.skip(0) =~= a@);
    assert(b@.skip(0) =~= b@);
    while i < na && i < nb
        invariant
            na == a@.len(),
            nb == b@.len(),
            i <= na,
            i <= nb,
            text_lt(a@, b@) == text_lt(a@.skip(i as int), b@.skip(i as int)),
        decreases na - i,
    {
        let ca = a.get_char(i);
        let cb = b.get_char(i);
        assert(a@.skip(i as int)[0] == ca);
        assert(b@.skip(i as int)[0] == cb);
        if ca != cb {
            return (ca as u32) < (cb as u32);
        }
        assert(a@.skip(i as int).drop_first() =~= a@.skip(i + 1));
        assert(b@.skip(i as int).drop_first() =~= b@.skip(i + 1));
        i = i + 1;
    }
    i < nb
}

/// The texts of a list of strings.
pub open spec fn texts(v: Vec<String>) -> Seq<Seq<char>> {
    v@.map_values(|s: String| s@)
}

/// Texts in path order.
pub open spec fn sorted_texts(s: Seq<Seq<char>>) -> bool {
    forall|i: int, j: int| 0 <= i < j < s.len() ==> text_le(s[i], s[j])
}

/// Sorts paths (`<[PathBuf]>::sort`).
pub fn sort_paths(v: &Vec<String>) -> (r: Vec<String>)
    ensures
        sorted_texts(texts(r)),
        texts(r).to_multiset() == texts(*v).to_multiset(),
{
    let mut out: Vec<String> = Vec::new();
    let mut i: usize = 0;
    assert(texts(out) =~= texts(*v).take(0));
    while i < v.len()
        invariant
            i <= v@.len(),
            sorted_texts(texts(out)),
            texts(out).to_multiset() == texts(*v).take(i as int).to_multiset(),
        decreases v@.len() - i,
    {
        let x = v[i].clone();
        let mut p: usize = 0;
        while p < out.len() && !str_lt(x.as_str(), out[p].as_str())
            invariant
                p <= out@.len(),
                forall|j: int| 0 <= j < p ==> text_le(#[trigger] texts(out)[j], x@),
            decreases out@.len() - p,
        {
            proof {
                lemma_text_lt_total(x@, out@[p as int]@);
            }
            p = p + 1;
        }
        let ghost old_out = texts(out);
        out.insert(p, x);
        assert(texts(out) =~= old_out.insert(p as int, x@));
        assert forall|a: int, b: int| 0 <= a < b < texts(out).len() implies text_le(texts(out)[a], texts(out)[b]) by {
            let t = texts(out);
            if b == p {
                assert(t[a] == old_out[a]);
            } else if a == p {
                assert(t[b] == old_out[b - 1]);
                assert(text_lt(x@, old_out[p as int]));
                if b - 1 > p {
                    assert(text_le(old_out[p as int], old_out[b - 1]));
                    if text_lt(old_out[p as int], old_out[b - 1]) {
                        lemma_text_lt_transitive(x@, old_out[p as int], old_out[b - 1]);
                    }
                }
            } else if a < p && b > p {
                assert(t[a] == old_out[a]);
                assert(t[b] == old_out[b - 1]);
                assert(text_le(old_out[a], old_out[b - 1]));
            } else if b < p {
                assert(t[a] == old_out[a] && t[b] == old_out[b]);
            } else {
                assert(t[a] == old_out[a - 1] && t[b] == old_out[b - 1]);
            }
        }
        proof {
            to_multiset_insert(old_out, p as int, x@);
            assert(texts(*v).take(i + 1) =~= texts(*v).take(i as int).push(x@));
            to_multiset_build(texts(*v).take(i as int), x@);
        }
        i = i + 1;
    }
    assert(texts(*v).take(v@.len() as int) =~= texts(*v));
    out
}

/// Two sorted lists of texts with the same elements are the same list: the paths that
/// `find_image_paths` gives do not depend on the order in which the directory lists them.
pub proof fn lemma_sorted_unique(a: Seq<Seq<char>>, b: Seq<Seq<char>>)
    requires
        sorted_texts(a),
        sorted_texts(b),
        a.to_multiset() == b.to_multiset(),
    ensures
        a == b,
    decreases a.len(),
{
    a.to_multiset_ensures();
    b.to_multiset_ensures();
    if a.len() == 0 {
        assert(b.len() == 0);
        assert(a =~= b);
    } else {
        assert(b.len() == a.len());
        assert(a.contains(a[0]));
        assert(b.to_multiset().count(a[0]) > 0);
        assert(b.contains(a[0]));
        let j = choose|j: int| 0 <= j < b.len() && b[j] == a[0];
        assert(a.to_multiset().count(b[0]) > 0);
        assert(a.contains(b[0]));
        let i = choose|i: int| 0 <= i < a.len() && a[i] == b[0];
        assert(text_le(b[0], a[0])) by {
            if j > 0 {
                assert(text_le(b[0], b[j]));
            }
        }
        assert(text_le(a[0], b[0])) by {
            if i > 0 {
                assert(text_le(a[0], a[i]));
            }
        }
        lemma_text_lt_total(a[0], b[0]);
        assert(a[0] == b[0]);
        to_multiset_remove(a, 0);
        to_multiset_remove(b, 0);
        assert(a.remove(0) =~= a.drop_first());
        assert(b.remove(0) =~= b.drop_first());
        let a1 = a.drop_first();
        let b1 = b.drop_first();
        assert(sorted_texts(a1)) by {
            assert forall|x: int, y: int| 0 <= x < y < a1.len() implies text_le(a1[x], a1[y]) by {
                assert(a1[x] == a[x + 1] && a1[y] == a[y + 1]);
            }
        }
        assert(sorted_texts(b1)) by {
            assert forall|x: int, y: int| 0 <= x < y < b1.len() implies text_le(b1[x], b1[y]) by {
                assert(b1[x] == b[x + 1] && b1[y] == b[y + 1]);
            }
        }
        lemma_sorted_unique(a1, b1);
        assert(a =~= seq![a[0]] + a1);
        assert(b =~= seq![b[0]] + b1);
    }
}

/// The test that `find_image_paths` filters by.
pub open spec fn card_image_pred() -> spec_fn(Seq<char>) -> bool {
    |n: Seq<char>| is_card_image(n)
}

/// The paths of the card images among the names of a directory's entries, in listing order.
pub open spec fn card_image_paths(dir: Seq<char>, names: Seq<Seq<char>>) -> Seq<Seq<char>> {
    names.filter(card_image_pred()).map_values(|n: Seq<char>| join_path(dir, n))
}

/// The card images of a directory, given the names of its entries: the entries whose extension
/// is `jpg`, `jpeg` or `png` in any case, joined to the directory and sorted.
pub fn find_image_paths(image_dir: &str, names: &Vec<String>) -> (r: Vec<String>)
    ensures
        sorted_texts(texts(r)),
        texts(r).to_multiset() == card_image_paths(image_dir@, texts(*names)).to_multiset(),
{
    let mut images: Vec<String> = Vec::new();
    let mut i: usize = 0;
    assert(texts(*names).take(0).filter(card_image_pred()) =~= Seq::empty()) by {
        reveal(Seq::filter);
    }
    assert(texts(images) =~= card_image_paths(image_dir@, texts(*names).take(0)));
    while i < names.len()
        invariant
            i <= names@.len(),
            texts(images) == card_image_paths(image_dir@, texts(*names).take(i as int)),
        decreases names@.len() - i,
    {
        let name = &names[i];
        let ghost before = texts(*names).take(i as int);
        assert(texts(*names).take(i + 1) =~= before.push(name@));
        proof {
            before.lemma_filter_push(name@, card_image_pred());
        }
        if is_card_image_name(name.as_str()) {
            let ghost old_images = texts(images);
            images.push(join(image_dir, name.as_str()));
            assert(texts(images) =~= old_images.push(join_path(image_dir@, name@)));
            assert(card_image_pred()(name@));
            let ghost kept = before.filter(card_image_pred());
            assert(before.push(name@).filter(card_image_pred()) == kept.push(name@));
            assert(kept.push(name@).map_values(|n: Seq<char>| join_path(image_dir@, n))
                =~= kept.map_values(|n: Seq<char>| join_path(image_dir@, n)).push(join_path(image_dir@, name@)));
            assert(texts(images) =~= card_image_paths(image_dir@, texts(*names).take(i + 1)));
        } else {
            assert(before.push(name@).filter(card_image_pred())
                == before.filter(card_image_pred()));
            assert(texts(images) =~= card_image_paths(image_dir@, texts(*names).take(i + 1)));
        }
        i = i + 1;
    }
    assert(texts(*names).take(names@.len() as int) =~= texts(*names));
    sort_paths(&images)
}

/// The pixels of a card image, ready to become a texture.
#[derive(Debug)]
pub struct DecodedCard {
    pub path: String,
    pub size: [usize; 2],
    pub rgba: Vec<u8>,
}

#[verifier::external_type_specification]
#[verifier::external_body]
pub struct ExDynamicImage(DynamicImage);

#[verifier::external_type_specification]
#[verifier::external_body]
pub struct ExImageFormat(ImageFormat);

/// What `image::guess_format` gives for some bytes: the format their leading magic bytes
/// announce, or the text of the error when they announce none.
pub uninterp spec fn guessed_format(bytes: Seq<u8>) -> Result<ImageFormat, Seq<char>>;

/// What `image::load_from_memory_with_format` gives for some bytes read as a format: the
/// decoded image, or the text of the error. Images here are compared as `DynamicImage`'s
/// `PartialEq` compares them: pixel type, size, color space and samples.
pub uninterp spec fn decoded_image(bytes: Seq<u8>, format: ImageFormat) -> Result<DynamicImage, Seq<char>>;

/// What `GenericImageView::dimensions` gives for an image: its width and height.
pub uninterp spec fn image_dimensions(img: DynamicImage) -> (u32, u32);

/// What `DynamicImage::resize` with the Lanczos3 filter gives for an image and the bounds
/// `max_width` by `max_height`.
pub uninterp spec fn resized_image(img: DynamicImage, max_width: u32, max_height: u32) -> DynamicImage;

/// What `DynamicImage::to_rgba8` gives for an image, as its raw samples: four bytes, red,
/// green, blue and alpha, for each pixel, row by row.
pub uninterp spec fn rgba8_samples(img: DynamicImage) -> Seq<u8>;

/// Calls `image::guess_format`, which matches the leading bytes against the built-in table of
/// magic numbers. The claim is that the outcome, the format or the error's text, is
/// `guessed_format` of the bytes.
#[verifier::external_body]
fn guess_image_format(bytes: &[u8]) -> (r: Result<ImageFormat, String>)
    ensures
        match r {
            Ok(format) => guessed_format(bytes@) == Ok::<ImageFormat, Seq<char>>(format),
            Err(e) => guessed_format(bytes@) == Err::<ImageFormat, Seq<char>>(e@),
        },
{
    match image::guess_format(bytes) {
        Ok(format) => Ok(format),
        Err(error) => Err(error.to_string()),
    }
}

/// Calls `image::load_from_memory_with_format`, which decodes the bytes with the built-in
/// decoder of the given format and the default limits. The claim is that the outcome, the
/// image or the error's text, is `decoded_image` of the bytes and the format: decoding depends
/// on nothing else.
#[verifier::external_body]
fn load_image(bytes: &[u8], format: ImageFormat) -> (r: Result<DynamicImage, String>)
    ensures
        match r {
            Ok(img) => decoded_image(bytes@, format) == Ok::<DynamicImage, Seq<char>>(img),
            Err(e) => decoded_image(bytes@, format) == Err::<DynamicImage, Seq<char>>(e@),
        },
{
    match image::load_from_memory_with_format(bytes, format) {
        Ok(img) => Ok(img),
        Err(error) => Err(error.to_string()),
    }
}

/// Calls `GenericImageView::dimensions` on the image.
#[verifier::external_body]
fn image_size(img: &DynamicImage) -> (r: (u32, u32))
    ensures
        r == image_dimensions(*img),
{
    img.dimensions()
}

/// Calls `DynamicImage::resize` with the Lanczos3 filter, which scales the image, keeping its
/// aspect ratio, to the largest size that fits the bounds. The claim is that the result is
/// `resized_image` of the image and the bounds, a function of these alone, and that its size
/// fits bounds of at least one pixel each (each side is rounded from the old side times the
/// smaller of the two ratios, and is at least one).
#[verifier::external_body]
fn resize_image(img: &DynamicImage, max_width: u32, max_height: u32) -> (r: DynamicImage)
    ensures
        r == resized_image(*img, max_width, max_height),
        1 <= max_width && 1 <= max_height ==> image_dimensions(r).0 <= max_width && image_dimensions(r).1 <= max_height,
{
    img.resize(max_width, max_height, image::imageops::FilterType::Lanczos3)
}

/// Calls `DynamicImage::to_rgba8` and `ImageBuffer::into_raw`. The claim is that the width and
/// height are the image's, and that the raw buffer starts with the four bytes of each pixel,
/// `rgba8_samples` of the image: an image that already is RGBA8 hands back its whole buffer,
/// which may be longer.
#[verifier::external_body]
fn image_rgba(img: DynamicImage) -> (r: (u32, u32, Vec<u8>))
    ensures
        (r.0, r.1) == image_dimensions(img),
        r.2@.len() >= 4 * r.0 * r.1,
        r.2@.subrange(0, 4 * r.0 * r.1) == rgba8_samples(img),
{
    let rgba = img.to_rgba8();
    let (w, h) = rgba.dimensions();
    (w, h, rgba.into_raw())
}

/// What the bytes decode to: the image, or the text of the error, whether it comes from
/// guessing the format or from decoding.
pub open spec fn decoded_outcome(bytes: Seq<u8>) -> Result<DynamicImage, Seq<char>> {
    match guessed_format(bytes) {
        Ok(format) => decoded_image(bytes, format),
        Err(e) => Err(e),
    }
}

/// The image as shown: itself when it fits the bounds, else scaled to fit them.
pub open spec fn display_image(img: DynamicImage, max_width: u32, max_height: u32) -> DynamicImage {
    if image_dimensions(img).0 <= max_width && image_dimensions(img).1 <= max_height {
        img
    } else {
        resized_image(img, max_width, max_height)
    }
}

/// An image that exceeds the display bounds is scaled down to fit them; a smaller one is kept.
fn resize_for_display(img: DynamicImage, max_width: u32, max_height: u32) -> (r: DynamicImage)
    ensures
        r == display_image(img, max_width, max_height),
        1 <= max_width && 1 <= max_height ==> image_dimensions(r).0 <= max_width && image_dimensions(r).1 <= max_height,
{
    let (width, height) = image_size(&img);
    if width <= max_width && height <= max_height {
        img
    } else {
        resize_image(&img, max_width, max_height)
    }
}

/// The pixels of an image as RGBA bytes, exactly four for each pixel.
fn rgba_pixels(img: DynamicImage) -> (r: (u32, u32, Vec<u8>))
    ensures
        (r.0, r.1) == image_dimensions(img),
        r.2@.len() == 4 * r.0 * r.1,
        r.2@ == rgba8_samples(img),
{
    let (w, h, mut rgba) = image_rgba(img);
    let full = rgba.len();
    assert((w as int) * (h as int) * 4 == 4 * w * h && (w as int) * (h as int) <= 4 * w * h) by (nonlinear_arith);
    assert((w as int) * (h as int) * 4 <= full);
    let len: usize = (w as usize) * (h as usize) * 4;
    rgba.truncate(len);
    (w, h, rgba)
}

/// The message for bytes that do not decode.
pub open spec fn decode_failure_message(path: Seq<char>, error: Seq<char>) -> Seq<char> {
    "Failed to decode "@ + path + ": "@ + error
}

/// Decodes the bytes read from an image file and scales the image down to the display bounds:
/// the card holds the RGBA samples of the image as shown, and its size.
pub fn decode_image_bytes(path: &str, bytes: &[u8], max_width: u32, max_height: u32) -> (r: Result<DecodedCard, String>)
    ensures
        r is Ok <==> decoded_outcome(bytes@) is Ok,
        match r {
            Ok(card) => {
                &&& decoded_outcome(bytes@) matches Ok(img) && ({
                    let shown = display_image(img, max_width, max_height);
                    &&& card.size[0] == image_dimensions(shown).0 && card.size[1] == image_dimensions(shown).1
                    &&& card.rgba@ == rgba8_samples(shown)
                    &&& image_dimensions(img).0 <= max_width && image_dimensions(img).1 <= max_height
                        ==> card.size[0] == image_dimensions(img).0 && card.size[1] == image_dimensions(img).1
                })
                &&& 1 <= max_width && 1 <= max_height ==> card.size[0] <= max_width && card.size[1] <= max_height
                &&& card.path@ == path@
                &&& card.rgba@.len() == 4 * card.size[0] * card.size[1]
            },
            Err(e) => decoded_outcome(bytes@) matches Err(m) && e@ == decode_failure_message(path@, m),
        },
{
    let decoded = match guess_image_format(bytes) {
        Ok(format) => load_image(bytes, format),
        Err(error) => Err(error),
    };
    match decoded {
        Ok(img) => {
            let resized = resize_for_display(img, max_width, max_height);
            let (rw, rh, rgba) = rgba_pixels(resized);
            Ok(DecodedCard { path: path.to_owned(), size: [rw as usize, rh as usize], rgba })
        },
        Err(error) => {
            let mut e = String::new();
            e.append("Failed to decode ");
            e.append(path);
            e.append(": ");
            e.append(error.as_str());
            Err(e)
        },
    }
}

} // verus!
