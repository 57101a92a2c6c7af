//! The PyPI package that a Python import name stands for.
use vstd::prelude::*;

use crate::util::text::str_eq;

verus! {

/// Import names whose package is known, with that package.
pub open spec fn import_table() -> Seq<(Seq<char>, Seq<char>)> {
    seq![
        ("PIL"@, "Pillow"@),
        ("cv2"@, "opencv-python"@),
        ("sklearn"@, "scikit-learn"@),
        ("yaml"@, "PyYAML"@),
        ("bs4"@, "beautifulsoup4"@),
        ("dotenv"@, "python-dotenv"@),
        ("Crypto"@, "pycryptodome"@),
        ("dateutil"@, "python-dateutil"@),
        ("jwt"@, "PyJWT"@),
        ("lxml"@, "lxml"@),
        ("requests"@, "requests"@),
        ("fastapi"@, "fastapi"@),
        ("pandas"@, "pandas"@),
        ("numpy"@, "numpy"@),
        ("openai"@, "openai"@),
        ("flask"@, "flask"@),
        ("django"@, "django"@),
        ("rich"@, "rich"@),
        ("typer"@, "typer"@),
    ]
}

/// The value of the first entry of `table` whose key is `key`.
pub open spec fn lookup(table: Seq<(Seq<char>, Seq<char>)>, key: Seq<char>) -> Option<Seq<char>>
    decreases table.len(),
{
    if table.len() == 0 {
        None
    } else if table[0].0 == key {
        Some(table[0].1)
    } else {
        lookup(table.drop_first(), key)
    }
}

/// The package of an import: the known one, or the import name itself.
pub open spec fn resolve_import(import: Seq<char>) -> Seq<char> {
    match lookup(import_table(), import) {
        Some(package) => package,
        None => import,
    }
}

/// Known imports whose package has the same name.
pub open spec fn same_name_packages() -> Seq<Seq<char>> {
    seq![
        "lxml"@, "requests"@, "fastapi"@, "pandas"@, "numpy"@, "openai"@, "flask"@, "django"@,
        "rich"@, "typer"@,
    ]
}

/// An import that the curated table knows.
pub open spec fn is_curated_import(import: Seq<char>) -> bool {
    resolve_import(import) != import || same_name_packages().contains(import)
}

/// The package to install for the Python import `import`.
pub fn resolve(import: &str) -> (r: String)
    ensures
        r@ == resolve_import(import@),
{
    let table: Vec<(&str, &str)> = vec![
        ("PIL", "Pillow"),
        ("cv2", "opencv-python"),
        ("sklearn", "scikit-learn"),
        ("yaml", "PyYAML"),
        ("bs4", "beautifulsoup4"),
        ("dotenv", "python-dotenv"),
        ("Crypto", "pycryptodome"),
        ("dateutil", "python-dateutil"),
        ("jwt", "PyJWT"),
        ("lxml", "lxml"),
        ("requests", "requests"),
        ("fastapi", "fastapi"),
        ("pandas", "pandas"),
        ("numpy", "numpy"),
        ("openai", "openai"),
        ("flask", "flask"),
        ("django", "django"),
        ("rich", "rich"),
        ("typer", "typer"),
    ];
    let ghost spec_table = table@.map_values(|p: (&str, &str)| (p.0@, p.1@));
    assert(spec_table =~= import_table());
    let mut i: usize = 0;
    assert(spec_table.skip(0) =~= spec_table);
    while i < table.len()
        invariant
            i <= table@.len(),
            spec_table == table@.map_values(|p: (&str, &str)| (p.0@, p.1@)),
            lookup(import_table(), import@) == lookup(spec_table.skip(i as int), import@),
        decreases table@.len() - i,
    {
        let (key, package) = table[i];
        assert(spec_table.skip(i as int)[0] == (key@, package@));
        if str_eq(import, key) {
            return package.to_owned();
        }
        assert(spec_table.skip(i as int).drop_first() =~= spec_table.skip(i + 1));
        i = i + 1;
    }
    import.to_owned()
}

/// Whether the import is in the curated table.
pub fn is_curated(import: &str) -> (b: bool)
    ensures
        b == is_curated_import(import@),
{
    let resolved = resolve(import);
    if !str_eq(resolved.as_str(), import) {
        return true;
    }
    let same: Vec<&str> = vec![
        "lxml", "requests", "fastapi", "pandas", "numpy", "openai", "flask", "django", "rich",
        "typer",
    ];
    assert(same@.map_values(|s: &str| s@) =~= same_name_packages());
    let mut i: usize = 0;
    while i < same.len()
        invariant
            i <= same@.len(),
            same@.map_values(|s: &str| s@) == same_name_packages(),
            forall|k: int| 0 <= k < i ==> same_name_packages()[k] != import@,
        decreases same@.len() - i,
    {
        if str_eq(import, same[i]) {
            assert(same_name_packages()[i as int] == import@);
            return true;
        }
        i = i + 1;
    }
    false
}

/// Looking a key up in a table that starts with `entry`.
proof fn lemma_lookup_first(
    entry: (Seq<char>, Seq<char>),
    rest: Seq<(Seq<char>, Seq<char>)>,
    key: Seq<char>,
)
    ensures
        lookup(seq![entry] + rest, key) == if entry.0 == key {
            Some(entry.1)
        } else {
            lookup(rest, key)
        },
{
    assert((seq![entry] + rest).drop_first() =~= rest);
    assert((seq![entry] + rest)[0] == entry);
}

/// Every Python import resolves to the PyPI package that provides it:
/// `PIL` to `Pillow`, `cv2` to `opencv-python`, `sklearn` to `scikit-learn`,
/// `yaml` to `PyYAML`, `bs4` to `beautifulsoup4`, `dotenv` to
/// `python-dotenv`, `Crypto` to `pycryptodome`, `dateutil` to
/// `python-dateutil`, `jwt` to `PyJWT`; every other import to its own name.
pub proof fn imports_resolve_to_their_packages(import: Seq<char>)
    ensures
        resolve_import(import) == if import == "PIL"@ {
            "Pillow"@
        } else if import == "cv2"@ {
            "opencv-python"@
        } else if import == "sklearn"@ {
            "scikit-learn"@
        } else if import == "yaml"@ {
            "PyYAML"@
        } else if import == "bs4"@ {
            "beautifulsoup4"@
        } else if import == "dotenv"@ {
            "python-dotenv"@
        } else if import == "Crypto"@ {
            "pycryptodome"@
        } else if import == "dateutil"@ {
            "python-dateutil"@
        } else if import == "jwt"@ {
            "PyJWT"@
        } else {
            import
        },
{
    let t19: Seq<(Seq<char>, Seq<char>)> = Seq::empty();
    let t18 = seq![("typer"@, "typer"@)] + t19;
    lemma_lookup_first(("typer"@, "typer"@), t19, import);
    let t17 = seq![("rich"@, "rich"@)] + t18;
    lemma_lookup_first(("rich"@, "rich"@), t18, import);
    let t16 = seq![("django"@, "django"@)] + t17;
    lemma_lookup_first(("django"@, "django"@), t17, import);
    let t15 = seq![("flask"@, "flask"@)] + t16;
    lemma_lookup_first(("flask"@, "flask"@), t16, import);
    let t14 = seq![("openai"@, "openai"@)] + t15;
    lemma_lookup_first(("openai"@, "openai"@), t15, import);
    let t13 = seq![("numpy"@, "numpy"@)] + t14;
    lemma_lookup_first(("numpy"@, "numpy"@), t14, import);
    let t12 = seq![("pandas"@, "pandas"@)] + t13;
    lemma_lookup_first(("pandas"@, "pandas"@), t13, import);
    let t11 = seq![("fastapi"@, "fastapi"@)] + t12;
    lemma_lookup_first(("fastapi"@, "fastapi"@), t12, import);
    let t10 = seq![("requests"@, "requests"@)] + t11;
    lemma_lookup_first(("requests"@, "requests"@), t11, import);
    let t9 = seq![("lxml"@, "lxml"@)] + t10;
    lemma_lookup_first(("lxml"@, "lxml"@), t10, import);
    let t8 = seq![("jwt"@, "PyJWT"@)] + t9;
    lemma_lookup_first(("jwt"@, "PyJWT"@), t9, import);
    let t7 = seq![("dateutil"@, "python-dateutil"@)] + t8;
    lemma_lookup_first(("dateutil"@, "python-dateutil"@), t8, import);
    let t6 = seq![("Crypto"@, "pycryptodome"@)] + t7;
    lemma_lookup_first(("Crypto"@, "pycryptodome"@), t7, import);
    let t5 = seq![("dotenv"@, "python-dotenv"@)] + t6;
    lemma_lookup_first(("dotenv"@, "python-dotenv"@), t6, import);
    let t4 = seq![("bs4"@, "beautifulsoup4"@)] + t5;
    lemma_lookup_first(("bs4"@, "beautifulsoup4"@), t5, import);
    let t3 = seq![("yaml"@, "PyYAML"@)] + t4;
    lemma_lookup_first(("yaml"@, "PyYAML"@), t4, import);
    let t2 = seq![("sklearn"@, "scikit-learn"@)] + t3;
    lemma_lookup_first(("sklearn"@, "scikit-learn"@), t3, import);
    let t1 = seq![("cv2"@, "opencv-python"@)] + t2;
    lemma_lookup_first(("cv2"@, "opencv-python"@), t2, import);
    let t0 = seq![("PIL"@, "Pillow"@)] + t1;
    lemma_lookup_first(("PIL"@, "Pillow"@), t1, import);
    assert(import_table() =~= t0);
}

/// The curated imports, which are installed without asking, are exactly
/// `PIL`, `cv2`, `sklearn`, `yaml`, `bs4`, `dotenv`, `Crypto`, `dateutil`,
/// `jwt`, `lxml`, `requests`, `fastapi`, `pandas`, `numpy`, `openai`,
/// `flask`, `django`, `rich` and `typer`.
pub proof fn curated_imports_are_the_known_ones(import: Seq<char>)
    ensures
        is_curated_import(import) <==> {
            ||| import == "PIL"@
            ||| import == "cv2"@
            ||| import == "sklearn"@
            ||| import == "yaml"@
            ||| import == "bs4"@
            ||| import == "dotenv"@
            ||| import == "Crypto"@
            ||| import == "dateutil"@
            ||| import == "jwt"@
            ||| import == "lxml"@
            ||| import == "requests"@
            ||| import == "fastapi"@
            ||| import == "pandas"@
            ||| import == "numpy"@
            ||| import == "openai"@
            ||| import == "flask"@
            ||| import == "django"@
            ||| import == "rich"@
            ||| import == "typer"@
        },
{
    imports_resolve_to_their_packages(import);
    reveal_strlit("PIL");
    reveal_strlit("Pillow");
    reveal_strlit("cv2");
    reveal_strlit("opencv-python");
    reveal_strlit("sklearn");
    reveal_strlit("scikit-learn");
    reveal_strlit("yaml");
    reveal_strlit("PyYAML");
    reveal_strlit("bs4");
    reveal_strlit("beautifulsoup4");
    reveal_strlit("dotenv");
    reveal_strlit("python-dotenv");
    reveal_strlit("Crypto");
    reveal_strlit("pycryptodome");
    reveal_strlit("dateutil");
    reveal_strlit("python-dateutil");
    reveal_strlit("jwt");
    reveal_strlit("PyJWT");
    assert("PIL"@.len() != "Pillow"@.len());
    assert("cv2"@.len() != "opencv-python"@.len());
    assert("sklearn"@.len() != "scikit-learn"@.len());
    assert("yaml"@.len() != "PyYAML"@.len());
    assert("bs4"@.len() != "beautifulsoup4"@.len());
    assert("dotenv"@.len() != "python-dotenv"@.len());
    assert("Crypto"@.len() != "pycryptodome"@.len());
    assert("dateutil"@.len() != "python-dateutil"@.len());
    assert("jwt"@.len() != "PyJWT"@.len());
    assert(same_name_packages()[0] == "lxml"@);
    assert(same_name_packages()[1] == "requests"@);
    assert(same_name_packages()[2] == "fastapi"@);
    assert(same_name_packages()[3] == "pandas"@);
    assert(same_name_packages()[4] == "numpy"@);
    assert(same_name_packages()[5] == "openai"@);
    assert(same_name_packages()[6] == "flask"@);
    assert(same_name_packages()[7] == "django"@);
    assert(same_name_packages()[8] == "rich"@);
    assert(same_name_packages()[9] == "typer"@);
    if same_name_packages().contains(import) {
        let i = choose|i: int| 0 <= i < same_name_packages().len() && same_name_packages()[i] == import;
        assert(0 <= i < 10);
        assert(i == 0 || i == 1 || i == 2 || i == 3 || i == 4 || i == 5 || i == 6 || i == 7 || i == 8
            || i == 9);
    }
}

/// An import that the table does not know is installed under its own name.
pub proof fn unknown_imports_resolve_to_themselves(import: Seq<char>)
    requires
        !is_curated_import(import),
    ensures
        resolve_import(import) == import,
{
}

} // verus!
