//! File names: which entries are raw files, and what a converted copy is called.
//!
//! A name is split at its last dot as `Path::extension` and `Path::file_stem`
//! split it: a dot at the very start does not begin an extension, and `..`
//! has none.
use vstd::prelude::*;
use vstd::string::StrSliceExecFns;
use vstd::string::StringExecFns;

verus! {

/// The index of the last dot of `s`, or -1 where it has none.
pub open spec fn last_dot(s: Seq<char>) -> int
    decreases s.len(),
{
    if s.len() == 0 {
        -1
    } else if s.last() == '.' {
        s.len() - 1
    } else {
        last_dot(s.drop_last())
    }
}

pub open spec fn is_parent_name(s: Seq<char>) -> bool {
    s == seq!['.', '.']
}

/// The extension of a file name, without its dot.
pub open spec fn extension(name: Seq<char>) -> Option<Seq<char>> {
    if is_parent_name(name) || last_dot(name) <= 0 {
        None
    } else {
        Some(name.subrange(last_dot(name) + 1, name.len() as int))
    }
}

/// A file name without its extension and the extension's dot.
pub open spec fn stem(name: Seq<char>) -> Seq<char> {
    if is_parent_name(name) || last_dot(name) <= 0 {
        name
    } else {
        name.take(last_dot(name))
    }
}

/// `c` with an ASCII capital letter turned into the small one.
pub open spec fn ascii_lower(c: char) -> char {
    if 'A' <= c <= 'Z' {
        ((c as u32) + 32) as char
    } else {
        c
    }
}

/// The extension that marks a camera raw file, in small letters.
pub open spec fn raw_extension() -> Seq<char> {
    seq!['a', 'r', 'w']
}

/// The extension that a converted image gets.
pub open spec fn image_extension() -> Seq<char> {
    seq!['j', 'p', 'g']
}

/// Whether `e` equals the raw extension with ASCII letters of any case.
pub open spec fn is_raw_extension(e: Seq<char>) -> bool {
    e.len() == raw_extension().len() && forall|i: int|
        0 <= i < e.len() ==> #[trigger] ascii_lower(e[i]) == raw_extension()[i]
}

/// Whether a directory entry of this name is a camera raw file.
pub open spec fn is_raw_name(name: Seq<char>) -> bool {
    extension(name) matches Some(e) && is_raw_extension(e)
}

/// The name of the image converted from the file `name`: its stem with the
/// image extension, as `Path::with_extension` gives it.
pub open spec fn image_name(name: Seq<char>) -> Seq<char> {
    stem(name) + seq!['.'] + image_extension()
}

/// The last dot lies within the name, or is -1.
pub proof fn lemma_last_dot_bounds(s: Seq<char>)
    ensures
        -1 <= last_dot(s) < s.len(),
        last_dot(s) >= 0 ==> s[last_dot(s)] == '.',
    decreases s.len(),
{
    if s.len() > 0 && s.last() != '.' {
        lemma_last_dot_bounds(s.drop_last());
    }
}

proof fn lemma_last_dot_take(s: Seq<char>, j: int)
    requires
        0 < j <= s.len(),
        s[j - 1] != '.',
    ensures
        last_dot(s.take(j)) == last_dot(s.take(j - 1)),
{
    assert(s.take(j).drop_last() =~= s.take(j - 1));
}

/// The index of the last dot of `s`, or `None` where it has none.
fn find_last_dot(s: &str) -> (r: Option<usize>)
    ensures
        r matches Some(k) ==> k as int == last_dot(s@) && k < s@.len(),
        r is None ==> last_dot(s@) == -1,
{
    let n = s.unicode_len();
    let mut j: usize = n;
    assert(s@.take(n as int) =~= s@);
    while j > 0 && s.get_char(j - 1) != '.'
        invariant
            j <= n,
            n == s@.len(),
            last_dot(s@) == last_dot(s@.take(j as int)),
        decreases j,
    {
        proof {
            lemma_last_dot_take(s@, j as int);
        }
        j = j - 1;
    }
    if j == 0 {
        assert(s@.take(0).len() == 0);
        None
    } else {
        assert(s@.take(j as int).last() == '.');
        Some(j - 1)
    }
}

fn parent_name(s: &str) -> (r: bool)
    ensures
        r == is_parent_name(s@),
{
    if s.unicode_len() == 2 && s.get_char(0) == '.' && s.get_char(1) == '.' {
        assert(s@ =~= seq!['.', '.']);
        true
    } else {
        false
    }
}

/// The position where the extension's dot stands, where the name has an
/// extension.
fn extension_dot(name: &str) -> (r: Option<usize>)
    ensures
        r is None <==> extension(name@) is None,
        r matches Some(k) ==> k as int == last_dot(name@) && 0 < k < name@.len(),
{
    if parent_name(name) {
        return None;
    }
    match find_last_dot(name) {
        Some(k) => {
            if k == 0 {
                None
            } else {
                Some(k)
            }
        },
        None => None,
    }
}

/// Whether a directory entry called `name` is a camera raw file: its
/// extension is `arw` in any mix of ASCII cases.
pub fn is_raw_file(name: &str) -> (r: bool)
    ensures
        r == is_raw_name(name@),
{
    match extension_dot(name) {
        None => false,
        Some(k) => {
            let n = name.unicode_len();
            let ghost e = name@.subrange(k + 1, n as int);
            if n - (k + 1) != 3 {
                return false;
            }
            let a = lower_ascii(name.get_char(k + 1));
            let b = lower_ascii(name.get_char(k + 2));
            let c = lower_ascii(name.get_char(k + 3));
            let r = a == 'a' && b == 'r' && c == 'w';
            proof {
                assert(e[0] == name@[k + 1]);
                assert(e[1] == name@[k + 2]);
                assert(e[2] == name@[k + 3]);
                if r {
                    assert forall|i: int| 0 <= i < e.len() implies #[trigger] ascii_lower(e[i])
                        == raw_extension()[i] by {
                        if i == 0 {
                        } else if i == 1 {
                        } else {
                        }
                    }
                } else {
                    if a != 'a' {
                        assert(ascii_lower(e[0]) != raw_extension()[0]);
                    } else if b != 'r' {
                        assert(ascii_lower(e[1]) != raw_extension()[1]);
                    } else {
                        assert(ascii_lower(e[2]) != raw_extension()[2]);
                    }
                }
            }
            r
        },
    }
}

/// `c` with an ASCII capital letter turned into the small one, as
/// `char::to_ascii_lowercase` does.
pub fn lower_ascii(c: char) -> (r: char)
    ensures
        r == ascii_lower(c),
{
    if 'A' <= c && c <= 'Z' {
        ((c as u8) + 32) as char
    } else {
        c
    }
}

/// The name of the image converted from the file `name`, in the same folder.
pub fn image_file_name(name: &str) -> (r: String)
    ensures
        r@ == image_name(name@),
{
    let ext = ".jpg";
    proof {
        reveal_strlit(".jpg");
    }
    let mut r = match extension_dot(name) {
        Some(k) => String::from_str(name.substring_char(0, k)),
        None => String::from_str(name),
    };
    r.append(ext);
    assert(r@ =~= image_name(name@));
    r
}

} // verus!
