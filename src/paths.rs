//! Device paths and display paths as character sequences: the device prefix,
//! trailing separators, child composition and drive-letter splitting.
use vstd::prelude::*;
use crate::text::{has_char, has_prefix, is_space, is_space_char, starts_with_text};

verus! {

/// The prefix that every device path carries.
pub const DEVICE_PREFIX: &'static str = "\\Device\\";

/// The prefix of a hard-disk volume device path.
pub const VOLUME_PREFIX: &'static str = "\\Device\\HarddiskVolume";

/// The path separator.
pub open spec fn sep() -> char {
    '\\'
}

pub open spec fn ends_with_sep(p: Seq<char>) -> bool {
    p.len() > 0 && p.last() == sep()
}

/// `p` without any trailing separators.
pub open spec fn trim_seps(p: Seq<char>) -> Seq<char>
    decreases p.len(),
{
    if ends_with_sep(p) {
        trim_seps(p.drop_last())
    } else {
        p
    }
}

/// The folder form of a path: exactly one trailing separator.
pub open spec fn dir_form(p: Seq<char>) -> Seq<char> {
    trim_seps(p).push(sep())
}

/// A valid entry name: not empty, no separator.
pub open spec fn is_entry_name(n: Seq<char>) -> bool {
    n.len() > 0 && !has_char(n, sep())
}

/// The path of an entry named `name` directly inside the folder `parent`.
/// Folders carry a trailing separator.
pub open spec fn child_path(parent: Seq<char>, name: Seq<char>, is_folder: bool) -> Seq<char> {
    if is_folder {
        dir_form(parent) + name + seq![sep()]
    } else {
        dir_form(parent) + name
    }
}

/// Relies on `String::push`: the character is appended at the end.
#[verifier::external_body]
pub(crate) fn push_char(s: &mut String, c: char)
    ensures
        final(s)@ == old(s)@.push(c),
{
    s.push(c)
}

/// Whether `p` ends with a separator.
pub fn ends_with_separator(p: &str) -> (r: bool)
    ensures
        r == ends_with_sep(p@),
{
    let n = p.unicode_len();
    n > 0 && p.get_char(n - 1) == '\\'
}

proof fn lemma_trim_prefix(p: Seq<char>, k: int)
    requires
        0 <= k <= p.len(),
        forall|j: int| k <= j < p.len() ==> p[j] == sep(),
        k == 0 || p[k - 1] != sep(),
    ensures
        trim_seps(p) == p.subrange(0, k),
    decreases p.len(),
{
    if ends_with_sep(p) {
        assert(k < p.len()) by {
            if k == p.len() {
                assert(p[k - 1] == sep());
            }
        }
        lemma_trim_prefix(p.drop_last(), k);
        assert(p.drop_last().subrange(0, k) =~= p.subrange(0, k));
    } else {
        if k < p.len() {
            assert(p[p.len() - 1] == sep());
        }
        assert(p.subrange(0, k) =~= p);
    }
}

/// The folder form of `p`: trailing separators collapsed to exactly one.
pub fn to_dir_form(p: &str) -> (r: String)
    ensures
        r@ == dir_form(p@),
{
    let n = p.unicode_len();
    let mut k: usize = n;
    while k > 0 && p.get_char(k - 1) == '\\'
        invariant
            n == p@.len(),
            k <= n,
            forall|j: int| k <= j < n ==> p@[j] == sep(),
        decreases k,
    {
        k = k - 1;
    }
    proof {
        lemma_trim_prefix(p@, k as int);
    }
    let mut s = String::from_str(p.substring_char(0, k));
    push_char(&mut s, '\\');
    s
}

/// `p` without its trailing separators.
pub fn trim_separators(p: &str) -> (r: String)
    ensures
        r@ == trim_seps(p@),
{
    let folder = to_dir_form(p);
    let k = folder.as_str().unicode_len() - 1;
    let r = String::from_str(folder.as_str().substring_char(0, k));
    assert(r@ =~= trim_seps(p@));
    r
}

/// The path of the entry `name` inside the folder `parent`.
pub fn compose_child_path(parent: &str, name: &str, is_folder: bool) -> (r: String)
    ensures
        r@ == child_path(parent@, name@, is_folder),
{
    let mut s = to_dir_form(parent);
    s.append(name);
    if is_folder {
        push_char(&mut s, '\\');
    }
    s
}

/// Whether `name` can stand as one path component.
pub fn is_entry_name_text(name: &str) -> (r: bool)
    ensures
        r == is_entry_name(name@),
{
    let n = name.unicode_len();
    if n == 0 {
        return false;
    }
    let mut i: usize = 0;
    while i < n
        invariant
            n == name@.len(),
            i <= n,
            forall|j: int| 0 <= j < i ==> name@[j] != sep(),
        decreases n - i,
    {
        if name.get_char(i) == '\\' {
            return false;
        }
        i = i + 1;
    }
    true
}

/// A path in device form.
pub open spec fn is_device_path(p: Seq<char>) -> bool {
    has_prefix(p, DEVICE_PREFIX@)
}

/// Whether `p` starts with the device prefix.
pub fn is_device_path_text(p: &str) -> (r: bool)
    ensures
        r == is_device_path(p@),
{
    starts_with_text(p, DEVICE_PREFIX)
}

/// A drive-letter path: a letter, then a colon.
pub open spec fn has_drive(p: Seq<char>) -> bool {
    p.len() >= 2 && p[1] == ':'
}

/// The device path for the drive-letter path `dos`, given the device root of
/// its volume: the root followed by what comes after the drive letter, with
/// a trailing separator exactly where `dos` has one.
pub open spec fn device_form(root: Seq<char>, dos: Seq<char>) -> Seq<char> {
    let joined = root + dos.subrange(2, dos.len() as int);
    if ends_with_sep(dos) {
        if ends_with_sep(joined) {
            joined
        } else {
            joined.push(sep())
        }
    } else {
        trim_seps(joined)
    }
}

/// The drive part (`"C:"`) of a drive-letter path.
pub fn drive_of(dos: &str) -> (r: Option<String>)
    ensures
        r is Some <==> has_drive(dos@),
        r matches Some(d) ==> d@ == dos@.subrange(0, 2),
{
    let n = dos.unicode_len();
    if n >= 2 && dos.get_char(1) == ':' {
        Some(String::from_str(dos.substring_char(0, 2)))
    } else {
        None
    }
}

/// `device_form` in executable form.
pub fn compose_device_path(root: &str, dos: &str) -> (r: String)
    requires
        has_drive(dos@),
    ensures
        r@ == device_form(root@, dos@),
{
    let n = dos.unicode_len();
    let mut joined = String::from_str(root);
    joined.append(dos.substring_char(2, n));
    if ends_with_separator(dos) {
        if ends_with_separator(joined.as_str()) {
            joined
        } else {
            push_char(&mut joined, '\\');
            joined
        }
    } else {
        trim_separators(joined.as_str())
    }
}

/// Basic path utilities on display paths.
pub struct PathNormalizer;

/// Forward slashes turned into separators.
pub open spec fn with_backslashes(p: Seq<char>) -> Seq<char> {
    Seq::new(p.len(), |i: int| if p[i] == '/' { sep() } else { p[i] })
}

/// `p` without white space at either end.
pub open spec fn trim_spaces(p: Seq<char>) -> Seq<char>
    decreases p.len(),
{
    if p.len() > 0 && is_space(p[0]) {
        trim_spaces(p.subrange(1, p.len() as int))
    } else if p.len() > 0 && is_space(p.last()) {
        trim_spaces(p.drop_last())
    } else {
        p
    }
}

/// The display form of a path: separators normalised, white space trimmed,
/// and a trailing separator added for a folder.
pub open spec fn display_form(p: Seq<char>, is_dir: bool) -> Seq<char> {
    let t = trim_spaces(with_backslashes(p));
    if !ends_with_sep(t) && is_dir {
        t.push(sep())
    } else {
        t
    }
}

/// Characters that no path component may hold.
pub open spec fn is_forbidden_char(c: char) -> bool {
    c == '<' || c == '>' || c == ':' || c == '"' || c == '|' || c == '?' || c == '*'
}

/// Why a path is refused by `validate_path_format`.
#[derive(Debug, Clone, Copy, PartialEq, Eq, Structural)]
pub enum PathFormatError {
    Empty,
    NullCharacter,
    /// The first forbidden character found, in the order `< > : " | ? *`.
    InvalidCharacter(char),
}

pub open spec fn path_format_check(p: Seq<char>) -> Result<(), PathFormatError> {
    if p.len() == 0 {
        Err(PathFormatError::Empty)
    } else if has_char(p, '\0') {
        Err(PathFormatError::NullCharacter)
    } else {
        if has_char(p, '<') {
            Err(PathFormatError::InvalidCharacter('<'))
        } else if has_char(p, '>') {
            Err(PathFormatError::InvalidCharacter('>'))
        } else if has_char(p, ':') {
            Err(PathFormatError::InvalidCharacter(':'))
        } else if has_char(p, '"') {
            Err(PathFormatError::InvalidCharacter('"'))
        } else if has_char(p, '|') {
            Err(PathFormatError::InvalidCharacter('|'))
        } else if has_char(p, '?') {
            Err(PathFormatError::InvalidCharacter('?'))
        } else if has_char(p, '*') {
            Err(PathFormatError::InvalidCharacter('*'))
        } else {
            Ok(())
        }
    }
}

/// The two prefixes that mark a path in NT form.
pub open spec fn nt_like(p: Seq<char>) -> bool {
    has_prefix(p, DEVICE_PREFIX@) || has_prefix(p, "\\\\?\\"@)
}

fn trim_text(p: &str) -> (r: String)
    ensures
        r@ == trim_spaces(p@),
{
    let n = p.unicode_len();
    let mut a: usize = 0;
    assert(p@.subrange(0, n as int) =~= p@);
    while a < n && is_space_char(p.get_char(a))
        invariant
            n == p@.len(),
            a <= n,
            trim_spaces(p@.subrange(a as int, n as int)) == trim_spaces(p@),
        decreases n - a,
    {
        proof {
            let s = p@.subrange(a as int, n as int);
            assert(s.subrange(1, s.len() as int) =~= p@.subrange(a + 1, n as int));
        }
        a = a + 1;
    }
    let mut b: usize = n;
    while b > a && is_space_char(p.get_char(b - 1))
        invariant
            n == p@.len(),
            a <= b <= n,
            a == n || !is_space(p@[a as int]),
            trim_spaces(p@.subrange(a as int, b as int)) == trim_spaces(p@),
        decreases b - a,
    {
        proof {
            let s = p@.subrange(a as int, b as int);
            assert(s.drop_last() =~= p@.subrange(a as int, b - 1));
            assert(s[0] == p@[a as int]);
        }
        b = b - 1;
    }
    proof {
        let s = p@.subrange(a as int, b as int);
        if s.len() > 0 {
            assert(s[0] == p@[a as int]);
            assert(s.last() == p@[b - 1]);
        }
    }
    String::from_str(p.substring_char(a, b))
}

impl PathNormalizer {
    /// The display form of `path`; `is_dir` says whether it names a folder.
    pub fn normalize_display_path(path: &str, is_dir: bool) -> (r: String)
        ensures
            r@ == display_form(path@, is_dir),
    {
        let n = path.unicode_len();
        let mut s = String::new();
        let mut i: usize = 0;
        while i < n
            invariant
                n == path@.len(),
                i <= n,
                s@ == with_backslashes(path@).subrange(0, i as int),
            decreases n - i,
        {
            let c = path.get_char(i);
            if c == '/' {
                push_char(&mut s, '\\');
            } else {
                push_char(&mut s, c);
            }
            assert(s@ =~= with_backslashes(path@).subrange(0, i + 1));
            i = i + 1;
        }
        assert(s@ =~= with_backslashes(path@));
        let mut t = trim_text(s.as_str());
        if !ends_with_separator(t.as_str()) && is_dir {
            push_char(&mut t, '\\');
        }
        t
    }

    /// `path` in UTF-16 with a terminating zero, as the system calls take it.
    pub fn to_wide_string(path: &str) -> (r: Vec<u16>)
        ensures
            r@ == crate::wire::utf16(path@).push(0),
    {
        let mut v = crate::wire::encode_utf16(path);
        v.push(0u16);
        v
    }

    /// Whether `path`, once trimmed, starts like an NT path.
    pub fn is_nt_path_like(path: &str) -> (r: bool)
        ensures
            r == nt_like(trim_spaces(path@)),
    {
        let t = trim_text(path);
        starts_with_text(t.as_str(), DEVICE_PREFIX) || starts_with_text(t.as_str(), "\\\\?\\")
    }

    /// Refuses an empty path, a null character, and the characters `< > : " | ? *`.
    pub fn validate_path_format(path: &str) -> (r: Result<(), PathFormatError>)
        ensures
            r == path_format_check(path@),
    {
        if path.unicode_len() == 0 {
            return Err(PathFormatError::Empty);
        }
        if crate::text::contains_char(path, '\0') {
            return Err(PathFormatError::NullCharacter);
        }
        if crate::text::contains_char(path, '<') {
            return Err(PathFormatError::InvalidCharacter('<'));
        }
        if crate::text::contains_char(path, '>') {
            return Err(PathFormatError::InvalidCharacter('>'));
        }
        if crate::text::contains_char(path, ':') {
            return Err(PathFormatError::InvalidCharacter(':'));
        }
        if crate::text::contains_char(path, '"') {
            return Err(PathFormatError::InvalidCharacter('"'));
        }
        if crate::text::contains_char(path, '|') {
            return Err(PathFormatError::InvalidCharacter('|'));
        }
        if crate::text::contains_char(path, '?') {
            return Err(PathFormatError::InvalidCharacter('?'));
        }
        if crate::text::contains_char(path, '*') {
            return Err(PathFormatError::InvalidCharacter('*'));
        }
        Ok(())
    }
}

/// Conversion between drive-letter and device paths.
pub struct NtPathResolver;

impl NtPathResolver {
    /// Whether `nt_path` names a location on a hard-disk volume.
    pub fn validate_nt_path(nt_path: &str) -> (r: bool)
        ensures
            r == has_prefix(nt_path@, VOLUME_PREFIX@),
    {
        starts_with_text(nt_path, VOLUME_PREFIX)
    }
}

} // verus!
