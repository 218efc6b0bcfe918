use vstd::prelude::*;
use crate::error::{ErrorModel, GenerateError};

verus! {

/// Index of the first `.` in `s` at or after `i`, or `s.len()` if none.
pub open spec fn first_dot_from(s: Seq<char>, i: int) -> int
    decreases s.len() - i,
{
    if i < 0 || i >= s.len() {
        s.len() as int
    } else if s[i] == '.' {
        i
    } else {
        first_dot_from(s, i + 1)
    }
}

/// Index of the last `.` in `s` below `i` and after the first character, or
/// `0` if none.
pub open spec fn last_dot_below(s: Seq<char>, i: int) -> int
    decreases i,
{
    if i <= 1 || i > s.len() {
        0
    } else if s[i - 1] == '.' {
        i - 1
    } else {
        last_dot_below(s, i - 1)
    }
}

/// The base name of a file: what comes before its first `.`, a leading `.`
/// not counted.
pub open spec fn base_name_of(s: Seq<char>) -> Seq<char> {
    s.take(first_dot_from(s, 1))
}

/// The extension of a file: what follows its last `.`, a leading `.` not
/// counted; none if there is no such `.`.
pub open spec fn extension_of(s: Seq<char>) -> Option<Seq<char>> {
    let k = last_dot_below(s, s.len() as int);
    if k == 0 {
        None
    } else {
        Some(s.subrange(k + 1, s.len() as int))
    }
}

/// Index of the first of `names` at or after `i` whose base name is `lang`,
/// or `names.len()` if none.
pub open spec fn first_match_from(names: Seq<String>, lang: Seq<char>, i: int) -> int
    decreases names.len() - i,
{
    if i < 0 || i >= names.len() {
        names.len() as int
    } else if base_name_of(names[i]@) == lang {
        i
    } else {
        first_match_from(names, lang, i + 1)
    }
}

/// Which of the files of a directory holds the language `lang`.
pub open spec fn language_file(dir: Seq<char>, names: Seq<String>, lang: Seq<char>) -> Result<
    int,
    ErrorModel,
> {
    let k = first_match_from(names, lang, 0);
    if k < names.len() {
        Ok(k)
    } else {
        Err(ErrorModel::FileNotFoundForLanguage { dir, lang })
    }
}

/// Whether a file can be read as a source document: its extension must be `json`.
pub open spec fn source_kind(file: Seq<char>) -> Result<(), ErrorModel> {
    match extension_of(file) {
        None => Err(ErrorModel::MissingExtension { file }),
        Some(e) => if e == "json"@ {
            Ok(())
        } else {
            Err(ErrorModel::UnsupportedExtension { file, extension: e })
        },
    }
}

/// The base name of a file name (see `base_name_of`).
pub fn base_name(file_name: &str) -> (r: String)
    ensures
        r@ == base_name_of(file_name@),
{
    let n = file_name.unicode_len();
    let mut i: usize = 1;
    if n == 0 {
        return String::new();
    }
    while i < n && file_name.get_char(i) != '.'
        invariant
            1 <= i <= n,
            n == file_name@.len(),
            first_dot_from(file_name@, 1) == first_dot_from(file_name@, i as int),
        decreases n - i,
    {
        i = i + 1;
    }
    let r = String::from_str(file_name.substring_char(0, i));
    assert(r@ =~= base_name_of(file_name@));
    r
}

/// The extension of a file name (see `extension_of`).
pub fn extension(file_name: &str) -> (r: Option<String>)
    ensures
        match (r, extension_of(file_name@)) {
            (Some(e), Some(m)) => e@ == m,
            (None, None) => true,
            _ => false,
        },
{
    let n = file_name.unicode_len();
    let mut i: usize = n;
    while i > 1
        invariant
            i <= n,
            n == file_name@.len(),
            last_dot_below(file_name@, n as int) == last_dot_below(file_name@, i as int),
        decreases i,
    {
        if file_name.get_char(i - 1) == '.' {
            return Some(String::from_str(file_name.substring_char(i, n)));
        }
        i = i - 1;
    }
    None
}

/// Picks, among the file names of directory `dir`, the first whose base name
/// is exactly `lang`.
pub fn find_language_file(dir: &str, names: &Vec<String>, lang: &str) -> (r: Result<
    usize,
    GenerateError,
>)
    ensures
        match (r, language_file(dir@, names@, lang@)) {
            (Ok(k), Ok(m)) => k == m,
            (Err(e), Err(m)) => e@ == m,
            _ => false,
        },
{
    let mut i: usize = 0;
    while i < names.len()
        invariant
            i <= names@.len(),
            first_match_from(names@, lang@, 0) == first_match_from(names@, lang@, i as int),
        decreases names.len() - i,
    {
        let b = base_name(names[i].as_str());
        if b.as_str().to_owned() == lang.to_owned() {
            return Ok(i);
        }
        i = i + 1;
    }
    Err(GenerateError::FileNotFoundForLanguage { dir: dir.to_owned(), lang: lang.to_owned() })
}

/// Checks that a file is a JSON source document by its extension.
pub fn check_source_kind(file_name: &str) -> (r: Result<(), GenerateError>)
    ensures
        match (r, source_kind(file_name@)) {
            (Ok(()), Ok(())) => true,
            (Err(e), Err(m)) => e@ == m,
            _ => false,
        },
{
    match extension(file_name) {
        None => Err(GenerateError::MissingExtension { file: file_name.to_owned() }),
        Some(e) => {
            if e == "json".to_owned() {
                Ok(())
            } else {
                Err(GenerateError::UnsupportedExtension { file: file_name.to_owned(), extension: e })
            }
        },
    }
}

} // verus!
