use vstd::prelude::*;
use crate::sanitize::{chars_to_string, str_to_chars};
use vstd::string::StringExecFns;

verus! {

/// Everything that can go wrong while taking in an upload. Each variant
/// carries the context a caller needs to present the failure.
#[derive(Debug)]
pub enum UploadError {
    /// The declared filename holds no period, so no extension can be read.
    NoExtension,
    /// The (lower-cased) extension is not in the allowed set.
    DisallowedType { ext: String },
    /// The payload is larger than the inclusive size bound.
    TooLarge { size: usize, max_size: usize },
    /// The content directory could not be created.
    DirectoryError { message: String },
    /// The destination file could not be created or written.
    WriteError { message: String },
    /// The payload's image format could not be detected.
    InvalidFormat { message: String },
    /// The payload could not be decoded as an image.
    DecodeError { message: String },
    /// The validated extension names no known encoder (defensive; the
    /// allow-list makes this unreachable).
    UnsupportedFormat,
    /// Re-encoding the image failed.
    EncodeError { message: String },
    /// The offloaded worker task itself failed to run.
    WorkerFailure { message: String },
}

// ----------------------------------------------------------------------------
// The extension of a filename: the characters after the final period.
// ----------------------------------------------------------------------------

/// The substring after the final `.` of `s`: `None` when `s` holds no period,
/// the (possibly empty) suffix otherwise.
pub open spec fn extension_of(s: Seq<char>) -> Option<Seq<char>>
    decreases s.len(),
{
    if s.len() == 0 {
        None
    } else if s[s.len() - 1] == '.' {
        Some(Seq::empty())
    } else {
        match extension_of(s.subrange(0, s.len() - 1)) {
            None => None,
            Some(e) => Some(e.push(s[s.len() - 1])),
        }
    }
}

/// When the final period of `s` stands at `j`, the extension is everything
/// after it.
proof fn lemma_extension_with_dot(s: Seq<char>, j: int)
    requires
        0 <= j < s.len(),
        s[j] == '.',
        forall|k: int| j < k < s.len() ==> s[k] != '.',
    ensures
        extension_of(s) == Some(s.subrange(j + 1, s.len() as int)),
    decreases s.len(),
{
    if j == s.len() - 1 {
        assert(s.subrange(j + 1, s.len() as int) =~= Seq::<char>::empty());
    } else {
        let prefix = s.subrange(0, s.len() - 1);
        lemma_extension_with_dot(prefix, j);
        assert(prefix.subrange(j + 1, prefix.len() as int)
            =~= s.subrange(j + 1, s.len() - 1));
        assert(s.subrange(j + 1, s.len() - 1).push(s[s.len() - 1])
            =~= s.subrange(j + 1, s.len() as int));
    }
}

/// A name without a period has no extension.
proof fn lemma_extension_no_dot(s: Seq<char>)
    requires
        forall|k: int| 0 <= k < s.len() ==> s[k] != '.',
    ensures
        extension_of(s) is None,
    decreases s.len(),
{
    if s.len() > 0 {
        lemma_extension_no_dot(s.subrange(0, s.len() - 1));
    }
}

/// Reads the extension of `name`: the substring after its final period, or
/// `None` when it holds none.
pub fn extract_extension(name: &str) -> (r: Option<String>)
    ensures
        match r {
            Some(e) => extension_of(name@) == Some(e@),
            None => extension_of(name@) is None,
        },
{
    let cs = str_to_chars(name);
    let n: usize = cs.len();
    let mut i: usize = n;
    while i > 0
        invariant
            n == cs@.len(),
            cs@ == name@,
            i <= n,
            forall|k: int| i <= k < n ==> cs@[k] != '.',
        decreases i,
    {
        if cs[i - 1] == '.' {
            let mut ext: Vec<char> = Vec::new();
            let mut m: usize = i;
            while m < n
                invariant
                    n == cs@.len(),
                    i <= m <= n,
                    ext@ == cs@.subrange(i as int, m as int),
                decreases n - m,
            {
                ext.push(cs[m]);
                m = m + 1;
                proof {
                    assert(cs@.subrange(i as int, m - 1).push(cs@[m - 1])
                        =~= cs@.subrange(i as int, m as int));
                }
            }
            proof {
                lemma_extension_with_dot(name@, i - 1);
            }
            return Some(chars_to_string(&ext));
        }
        i = i - 1;
    }
    proof {
        lemma_extension_no_dot(name@);
    }
    None
}

// ----------------------------------------------------------------------------
// ASCII lower-casing, used for the case-insensitive extension comparison.
// ----------------------------------------------------------------------------

/// Maps an ASCII capital letter to its small form and leaves every other
/// character alone.
pub open spec fn ascii_lower_char(c: char) -> char {
    if 65 <= c as u32 && c as u32 <= 90 {
        ((c as u32) + 32) as char
    } else {
        c
    }
}

/// ASCII lower-casing of a whole string.
pub open spec fn ascii_lower(s: Seq<char>) -> Seq<char> {
    s.map_values(|c: char| ascii_lower_char(c))
}

/// Lower-cases one character, ASCII-wise.
fn lower_char(c: char) -> (r: char)
    ensures
        r == ascii_lower_char(c),
{
    match c {
        'A' => 'a',
        'B' => 'b',
        'C' => 'c',
        'D' => 'd',
        'E' => 'e',
        'F' => 'f',
        'G' => 'g',
        'H' => 'h',
        'I' => 'i',
        'J' => 'j',
        'K' => 'k',
        'L' => 'l',
        'M' => 'm',
        'N' => 'n',
        'O' => 'o',
        'P' => 'p',
        'Q' => 'q',
        'R' => 'r',
        'S' => 's',
        'T' => 't',
        'U' => 'u',
        'V' => 'v',
        'W' => 'w',
        'X' => 'x',
        'Y' => 'y',
        'Z' => 'z',
        _ => c,
    }
}

/// Lower-cases a string, ASCII-wise.
pub fn ascii_lowercase(s: &str) -> (r: String)
    ensures
        r@ == ascii_lower(s@),
{
    let cs = str_to_chars(s);
    let n: usize = cs.len();
    let mut out: Vec<char> = Vec::new();
    let mut i: usize = 0;
    while i < n
        invariant
            n == cs@.len(),
            cs@ == s@,
            i <= n,
            out@ == ascii_lower(s@).subrange(0, i as int),
        decreases n - i,
    {
        out.push(lower_char(cs[i]));
        i = i + 1;
        proof {
            assert(out@ =~= ascii_lower(s@).subrange(0, i as int));
        }
    }
    proof {
        assert(out@ =~= ascii_lower(s@));
    }
    chars_to_string(&out)
}

// ----------------------------------------------------------------------------
// The allowed-type check and the generic upload core.
// ----------------------------------------------------------------------------

/// True when some entry of the allowed set reads exactly `ext`.
pub open spec fn allowed_contains(allowed: Seq<String>, ext: Seq<char>) -> bool {
    exists|i: int| 0 <= i < allowed.len() && #[trigger] allowed[i]@ == ext
}

/// Looks `ext` up in the caller-supplied allowed set.
fn contains_type(allowed: &Vec<String>, ext: &String) -> (r: bool)
    ensures
        r == allowed_contains(allowed@, ext@),
{
    let n: usize = allowed.len();
    let mut i: usize = 0;
    while i < n
        invariant
            n == allowed@.len(),
            i <= n,
            forall|j: int| 0 <= j < i ==> #[trigger] allowed@[j]@ != ext@,
        decreases n - i,
    {
        if allowed[i].eq(ext) {
            return true;
        }
        i = i + 1;
    }
    false
}

/// The lower-cased extension of a name, when it has one.
pub open spec fn lowered_extension(name: Seq<char>) -> Option<Seq<char>> {
    match extension_of(name) {
        None => None,
        Some(e) => Some(ascii_lower(e)),
    }
}

/// The destination of an upload: `base_dir`, a slash, and the file's name.
pub open spec fn joined_path(base_dir: Seq<char>, name: Seq<char>) -> Seq<char> {
    base_dir + seq!['/'] + name
}

/// Composes the destination path of an upload.
pub fn compose_path(base_dir: &str, name: &str) -> (r: String)
    ensures
        r@ == joined_path(base_dir@, name@),
{
    let r = String::from_str(base_dir).concat("/").concat(name);
    proof {
        reveal_strlit("/");
        assert(base_dir@ + "/"@ + name@ =~= joined_path(base_dir@, name@));
    }
    r
}

/// The validating core of the generic uploader: checks the extension against
/// the caller's allowed set, then the size bound, and hands back the
/// destination path the raw bytes are to be written to. It touches no
/// filesystem; the caller performs the directory creation and the write.
///
/// The checks run in this order: missing extension, disallowed type,
/// oversized payload. The destination keeps the declared name verbatim.
pub fn prepare_file_upload(
    base_dir: &str,
    original_name: &str,
    file_len: usize,
    allowed_types: &Vec<String>,
    max_size: usize,
) -> (r: Result<String, UploadError>)
    ensures
        match r {
            Ok(path) => {
                &&& lowered_extension(original_name@) is Some
                &&& allowed_contains(allowed_types@, lowered_extension(original_name@)->0)
                &&& file_len <= max_size
                &&& path@ == joined_path(base_dir@, original_name@)
            },
            Err(e) => match e {
                UploadError::NoExtension => extension_of(original_name@) is None,
                UploadError::DisallowedType { ext } => {
                    &&& lowered_extension(original_name@) == Some(ext@)
                    &&& !allowed_contains(allowed_types@, ext@)
                },
                UploadError::TooLarge { size, max_size: bound } => {
                    &&& lowered_extension(original_name@) is Some
                    &&& allowed_contains(allowed_types@, lowered_extension(original_name@)->0)
                    &&& size == file_len
                    &&& bound == max_size
                    &&& file_len > max_size
                },
                _ => false,
            },
        },
{
    let ext = match extract_extension(original_name) {
        None => {
            return Err(UploadError::NoExtension);
        },
        Some(e) => e,
    };
    let ext = ascii_lowercase(ext.as_str());
    if !contains_type(allowed_types, &ext) {
        return Err(UploadError::DisallowedType { ext });
    }
    if file_len > max_size {
        return Err(UploadError::TooLarge { size: file_len, max_size });
    }
    Ok(compose_path(base_dir, original_name))
}

} // verus!
