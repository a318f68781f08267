//! Paths, held as `/`-separated text as on Unix: joining, file names, components, and the
//! two `std::path` operations that the settings rely on.

use vstd::prelude::*;
use vstd::string::*;
use crate::text::push_char;

verus! {

/// `Path::is_absolute` on Unix: the path starts at the root.
pub open spec fn is_absolute_path(p: Seq<char>) -> bool {
    p.len() > 0 && p[0] == '/'
}

/// `Path::join`: an absolute path replaces the base; otherwise a separator is put between
/// the two unless the base is empty or already ends with one.
pub open spec fn join_path(base: Seq<char>, p: Seq<char>) -> Seq<char> {
    if is_absolute_path(p) {
        p
    } else if base.len() > 0 && base.last() != '/' {
        base + seq!['/'] + p
    } else {
        base + p
    }
}

/// Start of the run of non-separator characters that ends at `j`.
pub open spec fn piece_start(p: Seq<char>, j: int) -> int
    decreases j,
{
    if j <= 0 || p[j - 1] == '/' {
        j
    } else {
        piece_start(p, j - 1)
    }
}

/// `Path::file_name` of the first `j` characters: the last component, skipping trailing
/// separators and `.` components; `None` when that component is `..` or there is none.
pub open spec fn file_name_upto(p: Seq<char>, j: int) -> Option<Seq<char>>
    decreases j,
{
    if j <= 0 || j > p.len() {
        None
    } else if p[j - 1] == '/' {
        file_name_upto(p, j - 1)
    } else {
        let i = piece_start(p, j);
        let piece = p.subrange(i, j);
        if piece == seq!['.'] {
            if 0 <= i < j {
                file_name_upto(p, i)
            } else {
                None
            }
        } else if piece == seq!['.', '.'] {
            None
        } else {
            Some(piece)
        }
    }
}

/// `Path::file_name`.
pub open spec fn file_name(p: Seq<char>) -> Option<Seq<char>> {
    file_name_upto(p, p.len() as int)
}

/// `Path::is_absolute`.
pub fn is_absolute(p: &str) -> (r: bool)
    ensures
        r == is_absolute_path(p@),
{
    p.unicode_len() > 0 && p.get_char(0) == '/'
}

/// `Path::join`.
pub fn join(base: &str, p: &str) -> (r: String)
    ensures
        r@ == join_path(base@, p@),
{
    if is_absolute(p) {
        return p.to_owned();
    }
    let n = base.unicode_len();
    let mut r = base.to_owned();
    if n > 0 && base.get_char(n - 1) != '/' {
        push_char(&mut r, '/');
    }
    r.append(p);
    r
}

/// `Path::file_name`.
pub fn path_file_name(p: &str) -> (r: Option<String>)
    ensures
        match r {
            Some(s) => file_name(p@) == Some(s@),
            None => file_name(p@) is None,
        },
{
    let n = p.unicode_len();
    let mut j: usize = n;
    loop
        invariant
            n == p@.len(),
            j <= n,
            file_name_upto(p@, j as int) == file_name(p@),
        decreases j,
    {
        if j == 0 {
            return None;
        }
        if p.get_char(j - 1) == '/' {
            j = j - 1;
        } else {
            let mut i: usize = j - 1;
            while i > 0 && p.get_char(i - 1) != '/'
                invariant
                    n == p@.len(),
                    i < j <= n,
                    piece_start(p@, i as int) == piece_start(p@, j as int),
                decreases i,
            {
                i = i - 1;
            }
            assert(piece_start(p@, i as int) == i);
            let len = j - i;
            if len == 1 && p.get_char(i) == '.' {
                assert(p@.subrange(i as int, j as int) =~= seq!['.']);
                j = i;
            } else if len == 2 && p.get_char(i) == '.' && p.get_char(i + 1) == '.' {
                assert(p@.subrange(i as int, j as int) =~= seq!['.', '.']);
                return None;
            } else {
                let ghost piece = p@.subrange(i as int, j as int);
                assert(piece != seq!['.']) by {
                    if piece == seq!['.'] {
                        assert(piece.len() == 1 && piece[0] == p@[i as int] && seq!['.'][0] == '.');
                    }
                }
                assert(piece != seq!['.', '.']) by {
                    if piece == seq!['.', '.'] {
                        assert(piece.len() == 2 && piece[0] == p@[i as int] && piece[1] == p@[i + 1]);
                        assert(seq!['.', '.'][0] == '.' && seq!['.', '.'][1] == '.');
                    }
                }
                assert(file_name_upto(p@, j as int) == Some(piece));
                return Some(p.substring_char(i, j).to_owned());
            }
        }
    }
}

/// A piece of text between separators counts as a component unless it is empty or `.`.
pub open spec fn push_piece(acc: Seq<Seq<char>>, piece: Seq<char>) -> Seq<Seq<char>> {
    if piece.len() == 0 || piece == seq!['.'] {
        acc
    } else {
        acc.push(piece)
    }
}

/// The named components of `p` from position `i` on, `piece` being the text read since the
/// last separator and `acc` the components before it.
pub open spec fn pieces_from(p: Seq<char>, i: int, piece: Seq<char>, acc: Seq<Seq<char>>) -> Seq<Seq<char>>
    decreases p.len() - i,
{
    if i >= p.len() {
        push_piece(acc, piece)
    } else if p[i] == '/' {
        pieces_from(p, i + 1, Seq::empty(), push_piece(acc, piece))
    } else {
        pieces_from(p, i + 1, piece.push(p[i]), acc)
    }
}

/// `Path::components` on Unix, each component as text: the root as `/` when the path starts
/// at it, a leading `.` when the path is `.` or starts with `./`, then the pieces between
/// separators that are neither empty nor `.`. Two paths are equal as `Path`s exactly when
/// their components are.
pub open spec fn components(p: Seq<char>) -> Seq<Seq<char>> {
    let lead: Seq<Seq<char>> = if is_absolute_path(p) {
        seq![seq!['/']]
    } else if p == seq!['.'] || (p.len() >= 2 && p[0] == '.' && p[1] == '/') {
        seq![seq!['.']]
    } else {
        Seq::empty()
    };
    lead + pieces_from(p, 0, Seq::empty(), Seq::empty())
}

/// What `Path::strip_prefix` returns for a path and a base, as text: `None` when the base's
/// components are not a prefix of the path's.
pub uninterp spec fn stripped_path(path: Seq<char>, base: Seq<char>) -> Option<Seq<char>>;

/// Calls `std::path::Path::strip_prefix(path, base)`. The claim is that the result is
/// `stripped_path` of the two texts, and what std documents of it: it fails exactly when the
/// components of `base` are not a prefix of those of `path` (`Path::starts_with`), and on
/// success the remainder joined onto `base` is `path` again, component by component. The
/// text of the remainder is not claimed beyond that.
#[verifier::external_body]
fn strip_path_prefix(path: &str, base: &str) -> (r: Option<String>)
    ensures
        match r {
            Some(s) => stripped_path(path@, base@) == Some(s@),
            None => stripped_path(path@, base@) is None,
        },
        r is None <==> !components(base@).is_prefix_of(components(path@)),
        r matches Some(s) ==> components(join_path(base@, s@)) == components(path@),
{
    std::path::Path::new(path).strip_prefix(base).ok().map(|rest| rest.to_string_lossy().into_owned())
}

/// What `Path::parent` returns for a path, as text: `None` for a root or an empty path.
pub uninterp spec fn parent_path(path: Seq<char>) -> Option<Seq<char>>;

/// Calls `std::path::Path::parent(path)`: the claim is only that the result is
/// `parent_path` of the text.
#[verifier::external_body]
pub(crate) fn path_parent(path: &str) -> (r: Option<String>)
    ensures
        match r {
            Some(s) => parent_path(path@) == Some(s@),
            None => parent_path(path@) is None,
        },
{
    std::path::Path::new(path).parent().map(|p| p.to_string_lossy().into_owned())
}

/// `base.join(image_dir)` unless `image_dir` is absolute.
pub open spec fn resolved_path(base: Seq<char>, image_dir: Seq<char>) -> Seq<char> {
    if is_absolute_path(image_dir) {
        image_dir
    } else {
        join_path(base, image_dir)
    }
}

/// A path of the settings file, taken relative to the settings directory.
pub fn resolve_image_dir(base_dir: &str, image_dir: &str) -> (r: String)
    ensures
        r@ == resolved_path(base_dir@, image_dir@),
{
    if is_absolute(image_dir) {
        image_dir.to_owned()
    } else {
        join(base_dir, image_dir)
    }
}

/// `path` with `base` stripped from its front, or `path` itself when `base` is no prefix of it.
pub open spec fn relative_path(base: Seq<char>, path: Seq<char>) -> Seq<char> {
    match stripped_path(path, base) {
        Some(rest) => rest,
        None => path,
    }
}

/// Whether `written`, resolved against `base`, is `path` again, component by component, as
/// it must be where `path` is absolute or lies inside `base`.
pub open spec fn resolves_back(base: Seq<char>, path: Seq<char>, written: Seq<char>) -> bool {
    is_absolute_path(path) || components(base).is_prefix_of(components(path))
        ==> components(resolved_path(base, written)) == components(path)
}

/// A path to write to the settings file: relative to the settings directory where it lies
/// inside it, unchanged where it does not. Resolving it against the directory again gives the
/// path back when the path is absolute or lies inside the directory.
pub fn relative_to(base_dir: &str, path: &str) -> (r: String)
    ensures
        r@ == relative_path(base_dir@, path@),
        !components(base_dir@).is_prefix_of(components(path@)) ==> r@ == path@,
        components(base_dir@).is_prefix_of(components(path@)) ==> components(join_path(base_dir@, r@))
            == components(path@),
        resolves_back(base_dir@, path@, r@),
{
    match strip_path_prefix(path, base_dir) {
        Some(rest) => rest,
        None => path.to_owned(),
    }
}

/// The decimal digits of a number.
pub open spec fn decimal_text(n: nat) -> Seq<char>
    decreases n,
{
    if n < 10 {
        seq![((48 + n) as u8) as char]
    } else {
        decimal_text(n / 10).push(((48 + n % 10) as u8) as char)
    }
}

/// Appends the decimal digits of `n`.
pub fn push_decimal(s: &mut String, n: usize)
    ensures
        final(s)@ == old(s)@ + decimal_text(n as nat),
    decreases n,
{
    if n >= 10 {
        push_decimal(s, n / 10);
    }
    let d: u8 = (n % 10) as u8;
    push_char(s, (48 + d) as char);
    assert(s@ =~= old(s)@ + decimal_text(n as nat)) by {
        if n >= 10 {
            assert(decimal_text(n as nat) == decimal_text((n / 10) as nat).push(((48 + n % 10) as u8) as char));
        }
    }
}

/// The name of a deck whose settings give none: the last component of its image directory,
/// or `Deck ` and its position counted from one.
pub open spec fn default_deck_name_text(image_dir: Seq<char>, index: nat) -> Seq<char> {
    match file_name(image_dir) {
        Some(name) => name,
        None => "Deck "@ + decimal_text(index + 1),
    }
}

/// The name of a deck whose settings give none.
pub fn default_deck_name(image_dir: &str, index: usize) -> (r: String)
    requires
        file_name(image_dir@) is None ==> index < usize::MAX,
    ensures
        r@ == default_deck_name_text(image_dir@, index as nat),
{
    match path_file_name(image_dir) {
        Some(name) => name,
        None => {
            let mut s = String::new();
            s.append("Deck ");
            push_decimal(&mut s, index + 1);
            s
        },
    }
}

} // verus!
