//! The language of a file or a project directory.
use vstd::prelude::*;

use crate::error::CapsuleError;
use crate::util::paths::FsPath;
use crate::util::text::{chars_of, slice_vec, str_eq, string_of};

verus! {

/// A language that Capsule runs.
#[derive(Debug, Clone, Copy, PartialEq, Eq, Structural)]
pub enum Language {
    Python,
    Node,
    TypeScript,
}

/// The lowercase name of a language, as the lockfile and the cache use it.
pub open spec fn language_name(language: Language) -> Seq<char> {
    match language {
        Language::Python => "python"@,
        Language::Node => "node"@,
        Language::TypeScript => "typescript"@,
    }
}

impl Language {
    /// The lowercase name of the language.
    pub fn as_str(self) -> (s: &'static str)
        ensures
            s@ == language_name(self),
    {
        match self {
            Language::Python => "python",
            Language::Node => "node",
            Language::TypeScript => "typescript",
        }
    }
}

/// A file or directory to run, with the language found for it.
pub struct Project {
    /// The path given, made absolute when it exists.
    pub input: FsPath,
    /// The directory of the project.
    pub root: FsPath,
    pub language: Language,
    /// The file to run, for a file project.
    pub entry: Option<FsPath>,
    pub is_file: bool,
}

/// Index of the last `c` in `s`, or -1.
pub open spec fn last_index_of(s: Seq<char>, c: char) -> int
    decreases s.len(),
{
    if s.len() == 0 {
        -1
    } else if s.last() == c {
        s.len() - 1
    } else {
        last_index_of(s.drop_last(), c)
    }
}

/// The extension of a file name, as `Path::extension` finds it: the text
/// after the last `.`, unless there is no `.`, the only `.` starts the name,
/// or the name is `..`.
pub open spec fn extension_of(name: Seq<char>) -> Option<Seq<char>> {
    let i = last_index_of(name, '.');
    if name == ".."@ || i <= 0 {
        None
    } else {
        Some(name.skip(i + 1))
    }
}

/// The extension of the last component of a path.
pub open spec fn path_extension(path: Seq<Seq<char>>) -> Option<Seq<char>> {
    if path.len() == 0 {
        None
    } else {
        extension_of(path.last())
    }
}

/// The extension of the file that `path` names.
pub fn extension(path: &FsPath) -> (r: Option<String>)
    ensures
        match r {
            Some(e) => path_extension(path@) == Some(e@),
            None => path_extension(path@) is None,
        },
{
    let n = path.components.len();
    if n == 0 {
        return None;
    }
    let name = chars_of(path.components[n - 1].as_str());
    assert(name@ == path@.last());
    if str_eq(path.components[n - 1].as_str(), "..") {
        return None;
    }
    let mut i: usize = name.len();
    assert(name@.take(name@.len() as int) =~= name@);
    while i > 0 && name[i - 1] != '.'
        invariant
            i <= name@.len(),
            last_index_of(name@, '.') == last_index_of(name@.take(i as int), '.'),
        decreases i,
    {
        assert(name@.take(i as int).drop_last() =~= name@.take(i - 1));
        i = i - 1;
    }
    proof {
        assert(name@.take(name@.len() as int) =~= name@);
        if i > 0 {
            assert(name@.take(i as int).last() == '.');
        }
    }
    if i <= 1 {
        return None;
    }
    let ext = slice_vec(name.as_slice(), i, name.len());
    assert(ext@ =~= name@.skip(i as int));
    Some(string_of(ext.as_slice()))
}

/// The language of a file with the given extension.
pub open spec fn language_of_extension(ext: Seq<char>) -> Option<Language> {
    if ext == "py"@ {
        Some(Language::Python)
    } else if ext == "js"@ || ext == "mjs"@ || ext == "cjs"@ {
        Some(Language::Node)
    } else if ext == "ts"@ || ext == "tsx"@ {
        Some(Language::TypeScript)
    } else {
        None
    }
}

/// A file's extension decides its language: `py` is Python; `js`, `mjs` and
/// `cjs` are Node.js; `ts` and `tsx` are TypeScript; no other extension has
/// a language.
pub proof fn extensions_decide_the_language(ext: Seq<char>)
    ensures
        (ext == "py"@) <==> language_of_extension(ext) == Some(Language::Python),
        (ext == "js"@ || ext == "mjs"@ || ext == "cjs"@) <==> language_of_extension(ext) == Some(
            Language::Node,
        ),
        (ext == "ts"@ || ext == "tsx"@) <==> language_of_extension(ext) == Some(
            Language::TypeScript,
        ),
{
    reveal_strlit("py");
    reveal_strlit("js");
    reveal_strlit("mjs");
    reveal_strlit("cjs");
    reveal_strlit("ts");
    reveal_strlit("tsx");
    assert("js"@[0] != "py"@[0] && "ts"@[0] != "py"@[0] && "ts"@[0] != "js"@[0]);
    assert("tsx"@[0] != "mjs"@[0] && "tsx"@[0] != "cjs"@[0]);
    assert("js"@ != "py"@ && "ts"@ != "py"@ && "ts"@ != "js"@);
    assert("tsx"@ != "mjs"@ && "tsx"@ != "cjs"@);
}

/// The language of a file, by its extension: `.py` is Python, `.js`, `.mjs`
/// and `.cjs` are Node.js, `.ts` and `.tsx` are TypeScript; any other
/// extension (the empty one for none) is refused.
pub fn detect_file(path: &FsPath) -> (r: Result<Language, CapsuleError>)
    ensures
        match r {
            Ok(language) => exists|ext: Seq<char>|
                path_extension(path@) == Some(ext) && language_of_extension(ext) == Some(language),
            Err(e) => e matches CapsuleError::UnsupportedExtension(ext) && match path_extension(path@) {
                Some(x) => ext@ == x && language_of_extension(x) is None,
                None => ext@ == Seq::<char>::empty(),
            },
        },
        path_extension(path@) == Some("py"@) ==> r == Ok::<Language, CapsuleError>(
            Language::Python,
        ),
        path_extension(path@) == Some("js"@) || path_extension(path@) == Some("mjs"@)
            || path_extension(path@) == Some("cjs"@) ==> r == Ok::<Language, CapsuleError>(
            Language::Node,
        ),
        path_extension(path@) == Some("ts"@) || path_extension(path@) == Some("tsx"@) ==> r
            == Ok::<Language, CapsuleError>(Language::TypeScript),
{
    proof {
        if path_extension(path@) is Some {
            extensions_decide_the_language(path_extension(path@)->0);
        }
    }
    let ext = match extension(path) {
        Some(e) => e,
        None => {
            return Err(CapsuleError::UnsupportedExtension(String::new()));
        },
    };
    let e = ext.as_str();
    if str_eq(e, "py") {
        Ok(Language::Python)
    } else if str_eq(e, "js") || str_eq(e, "mjs") || str_eq(e, "cjs") {
        Ok(Language::Node)
    } else if str_eq(e, "ts") || str_eq(e, "tsx") {
        Ok(Language::TypeScript)
    } else {
        Err(CapsuleError::UnsupportedExtension(ext))
    }
}

/// Which of the files that mark a project a directory holds.
pub struct DirMarkers {
    pub package_json: bool,
    pub tsconfig_json: bool,
    pub pyproject_toml: bool,
    pub requirements_txt: bool,
}

/// The language of a project directory: `package.json` with
/// `tsconfig.json` is TypeScript, `package.json` alone Node.js, and
/// `pyproject.toml` or `requirements.txt` Python.
pub fn detect_dir(markers: &DirMarkers) -> (r: Result<Language, CapsuleError>)
    ensures
        r == if markers.package_json && markers.tsconfig_json {
            Ok::<Language, CapsuleError>(Language::TypeScript)
        } else if markers.package_json {
            Ok(Language::Node)
        } else if markers.pyproject_toml || markers.requirements_txt {
            Ok(Language::Python)
        } else {
            Err(CapsuleError::UndetectedLanguage)
        },
{
    if markers.package_json && markers.tsconfig_json {
        return Ok(Language::TypeScript);
    }
    if markers.package_json {
        return Ok(Language::Node);
    }
    if markers.pyproject_toml || markers.requirements_txt {
        return Ok(Language::Python);
    }
    Err(CapsuleError::UndetectedLanguage)
}

} // verus!
