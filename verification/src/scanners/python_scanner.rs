//! Import scanning of Python sources.
use vstd::prelude::*;

use crate::util::name_set::{strictly_sorted, NameSet};
use crate::util::text::{
    before_char, chars_before, chars_eq, chars_find, chars_first_word, chars_lines, chars_of,
    chars_split, chars_starts_with, chars_trim, chars_trim_start_char, find_sub, first_word, lines,
    slice_vec, split_char, starts_with, str_eq, trim, trim_start_char,
};
use crate::util::text::{
    is_char, is_ws, lemma_before_char, lemma_index_where_is, trim_end_by, trim_start_by, ws_pred,
};

verus! {

/// Standard-library modules that are never installed.
pub open spec fn stdlib_names() -> Seq<Seq<char>> {
    seq![
        "abc"@, "argparse"@, "asyncio"@, "collections"@, "contextlib"@, "csv"@, "dataclasses"@,
        "datetime"@, "decimal"@, "functools"@, "hashlib"@, "http"@, "importlib"@, "inspect"@,
        "io"@, "itertools"@, "json"@, "logging"@, "math"@, "os"@, "pathlib"@, "random"@, "re"@,
        "shutil"@, "sqlite3"@, "statistics"@, "string"@, "subprocess"@, "sys"@, "tempfile"@,
        "threading"@, "time"@, "typing"@, "unittest"@, "urllib"@, "uuid"@, "venv"@, "xml"@,
    ]
}

/// Whether `name` is one of the standard-library modules.
pub fn is_stdlib(name: &str) -> (b: bool)
    ensures
        b == stdlib_names().contains(name@),
{
    let names: Vec<&str> = vec![
        "abc", "argparse", "asyncio", "collections", "contextlib", "csv", "dataclasses",
        "datetime", "decimal", "functools", "hashlib", "http", "importlib", "inspect",
        "io", "itertools", "json", "logging", "math", "os", "pathlib", "random", "re",
        "shutil", "sqlite3", "statistics", "string", "subprocess", "sys", "tempfile",
        "threading", "time", "typing", "unittest", "urllib", "uuid", "venv", "xml",
    ];
    assert(names@.map_values(|s: &str| s@) =~= stdlib_names());
    let mut i: usize = 0;
    while i < names.len()
        invariant
            i <= names@.len(),
            names@.map_values(|s: &str| s@) == stdlib_names(),
            forall|k: int| 0 <= k < i ==> stdlib_names()[k] != name@,
        decreases names@.len() - i,
    {
        if str_eq(name, names[i]) {
            assert(stdlib_names()[i as int] == name@);
            return true;
        }
        i = i + 1;
    }
    false
}


/// A character that may start a Python identifier here: `_` or an ASCII letter.
pub open spec fn is_ident_start(c: char) -> bool {
    c == '_' || ('a' <= c && c <= 'z') || ('A' <= c && c <= 'Z')
}

/// A character that may continue a Python identifier: `_`, an ASCII letter
/// or an ASCII digit.
pub open spec fn is_ident_continue(c: char) -> bool {
    is_ident_start(c) || ('0' <= c && c <= '9')
}

/// A non-empty ASCII identifier.
pub open spec fn is_identifier_text(name: Seq<char>) -> bool {
    &&& name.len() > 0
    &&& is_ident_start(name[0])
    &&& forall|i: int| 1 <= i < name.len() ==> is_ident_continue(#[trigger] name[i])
}

/// Whether `name` is an ASCII identifier.
pub fn is_identifier(name: &[char]) -> (b: bool)
    ensures
        b == is_identifier_text(name@),
{
    if name.len() == 0 {
        return false;
    }
    let c = name[0];
    if !(c == '_' || ('a' <= c && c <= 'z') || ('A' <= c && c <= 'Z')) {
        return false;
    }
    let mut i: usize = 1;
    while i < name.len()
        invariant
            1 <= i <= name@.len(),
            forall|k: int| 1 <= k < i ==> is_ident_continue(#[trigger] name@[k]),
        decreases name@.len() - i,
    {
        let d = name[i];
        if !(d == '_' || ('a' <= d && d <= 'z') || ('A' <= d && d <= 'Z') || ('0' <= d && d
            <= '9')) {
            return false;
        }
        i = i + 1;
    }
    true
}

/// Whether `name` is a module of the project itself.
pub fn is_local(name: &[char], local_modules: &Vec<Vec<char>>) -> (b: bool)
    ensures
        b == local_modules@.map_values(|v: Vec<char>| v@).contains(name@),
{
    let ghost locals = local_modules@.map_values(|v: Vec<char>| v@);
    let mut i: usize = 0;
    while i < local_modules.len()
        invariant
            i <= local_modules@.len(),
            locals == local_modules@.map_values(|v: Vec<char>| v@),
            forall|k: int| 0 <= k < i ==> locals[k] != name@,
        decreases local_modules@.len() - i,
    {
        if chars_eq(local_modules[i].as_slice(), name) {
            assert(locals[i as int] == name@);
            return true;
        }
        i = i + 1;
    }
    false
}

/// The top-level package that an imported module names, when it is neither
/// relative, nor of the standard library, nor of the project.
pub open spec fn external_name(module: Seq<char>, locals: Seq<Seq<char>>) -> Option<Seq<char>> {
    if module.len() == 0 || module[0] == '.' {
        None
    } else {
        let name = before_char(module, '.');
        if is_identifier_text(name) && !stdlib_names().contains(name) && !locals.contains(name) {
            Some(name)
        } else {
            None
        }
    }
}

/// Adds the top-level package of `module` to `imports` when it is external.
pub fn add_if_external(module: &[char], local_modules: &Vec<Vec<char>>, imports: &mut NameSet)
    requires
        old(imports).wf(),
    ensures
        final(imports).wf(),
        final(imports)@.to_set() == match external_name(
            module@,
            local_modules@.map_values(|v: Vec<char>| v@),
        ) {
            Some(n) => old(imports)@.to_set().insert(n),
            None => old(imports)@.to_set(),
        },
{
    if module.len() == 0 || module[0] == '.' {
        return;
    }
    let name = chars_before(module, '.');
    if is_identifier(name.as_slice()) && !is_stdlib(string_view(&name).as_str()) && !is_local(
        name.as_slice(),
        local_modules,
    ) {
        imports.insert(name);
    }
}

/// The characters `v` as a `String`.
fn string_view(v: &Vec<char>) -> (s: String)
    ensures
        s@ == v@,
{
    crate::util::text::string_of(v.as_slice())
}

/// The module texts that a line of Python imports, before filtering.
pub open spec fn line_modules(line: Seq<char>) -> Seq<Seq<char>> {
    let code = trim(before_char(trim_start_char(line, '\u{feff}'), '#'));
    if code.len() == 0 || starts_with(code, "from ."@) || starts_with(code, "from\t."@) {
        seq![]
    } else if starts_with(code, "import "@) {
        let clause = before_char(code.skip("import "@.len() as int), ';');
        split_char(clause, ',').map_values(|part: Seq<char>| first_word(part))
    } else if starts_with(code, "from "@) {
        let clause = before_char(code.skip("from "@.len() as int), ';');
        match find_sub(clause, " import "@) {
            Some(i) => seq![trim(clause.take(i))],
            None => seq![],
        }
    } else {
        seq![]
    }
}

/// The module texts that `line` imports, before filtering.
pub fn line_module_texts(line: &[char]) -> (r: Vec<Vec<char>>)
    ensures
        r@.len() == line_modules(line@).len(),
        forall|k: int| 0 <= k < r@.len() ==> #[trigger] r@[k]@ == line_modules(line@)[k],
{
    let no_bom = chars_trim_start_char(line, '\u{feff}');
    let before_hash = chars_before(no_bom.as_slice(), '#');
    let code = chars_trim(before_hash.as_slice());
    let from_dot = chars_of("from .");
    let from_tab_dot = chars_of("from\t.");
    if code.len() == 0 || chars_starts_with(code.as_slice(), from_dot.as_slice())
        || chars_starts_with(code.as_slice(), from_tab_dot.as_slice()) {
        return Vec::new();
    }
    let import_kw = chars_of("import ");
    if chars_starts_with(code.as_slice(), import_kw.as_slice()) {
        let rest = slice_vec(code.as_slice(), import_kw.len(), code.len());
        assert(rest@ =~= code@.skip("import "@.len() as int));
        let clause = chars_before(rest.as_slice(), ';');
        let parts = chars_split(clause.as_slice(), ',');
        let ghost expected = split_char(clause@, ',').map_values(
            |part: Seq<char>| first_word(part),
        );
        let mut out: Vec<Vec<char>> = Vec::new();
        let mut k: usize = 0;
        while k < parts.len()
            invariant
                k <= parts@.len(),
                parts@.len() == split_char(clause@, ',').len(),
                forall|j: int|
                    0 <= j < parts@.len() ==> #[trigger] parts@[j]@ == split_char(clause@, ',')[j],
                expected == split_char(clause@, ',').map_values(
                    |part: Seq<char>| first_word(part),
                ),
                out@.len() == k,
                forall|j: int| 0 <= j < k ==> #[trigger] out@[j]@ == expected[j],
            decreases parts@.len() - k,
        {
            out.push(chars_first_word(parts[k].as_slice()));
            k = k + 1;
        }
        return out;
    }
    let from_kw = chars_of("from ");
    if chars_starts_with(code.as_slice(), from_kw.as_slice()) {
        let rest = slice_vec(code.as_slice(), from_kw.len(), code.len());
        assert(rest@ =~= code@.skip("from "@.len() as int));
        let clause = chars_before(rest.as_slice(), ';');
        let sep = chars_of(" import ");
        proof {
            reveal_strlit(" import ");
        }
        match chars_find(clause.as_slice(), sep.as_slice()) {
            Some(i) => {
                let module = slice_vec(clause.as_slice(), 0, i);
                assert(module@ =~= clause@.take(i as int));
                let mut out: Vec<Vec<char>> = Vec::new();
                out.push(chars_trim(module.as_slice()));
                return out;
            },
            None => {
                return Vec::new();
            },
        }
    }
    Vec::new()
}


/// The external packages that `line` imports.
pub open spec fn line_imports(line: Seq<char>, locals: Seq<Seq<char>>) -> Set<Seq<char>> {
    Set::new(
        |n: Seq<char>|
            exists|j: int|
                0 <= j < line_modules(line).len() && external_name(
                    #[trigger] line_modules(line)[j],
                    locals,
                ) == Some(n),
    )
}

/// The external packages that a Python source imports.
pub open spec fn source_imports(source: Seq<char>, locals: Seq<Seq<char>>) -> Set<Seq<char>> {
    Set::new(
        |n: Seq<char>|
            exists|i: int|
                0 <= i < lines(source).len() && #[trigger] line_imports(lines(source)[i], locals).contains(n),
    )
}

/// The external packages that a set of Python sources imports.
pub open spec fn sources_imports(sources: Seq<Seq<char>>, locals: Seq<Seq<char>>) -> Set<Seq<char>> {
    Set::new(
        |n: Seq<char>|
            exists|k: int| 0 <= k < sources.len() && #[trigger] source_imports(sources[k], locals).contains(n),
    )
}

/// Adds the external packages that `line` imports.
fn scan_line(line: &[char], local_modules: &Vec<Vec<char>>, imports: &mut NameSet)
    requires
        old(imports).wf(),
    ensures
        final(imports).wf(),
        final(imports)@.to_set() == old(imports)@.to_set().union(
            line_imports(line@, local_modules@.map_values(|v: Vec<char>| v@)),
        ),
{
    let ghost locals = local_modules@.map_values(|v: Vec<char>| v@);
    let ghost start = imports@.to_set();
    let modules = line_module_texts(line);
    let ghost mods = line_modules(line@);
    let mut j: usize = 0;
    while j < modules.len()
        invariant
            j <= modules@.len(),
            modules@.len() == mods.len(),
            mods == line_modules(line@),
            forall|k: int| 0 <= k < modules@.len() ==> #[trigger] modules@[k]@ == mods[k],
            locals == local_modules@.map_values(|v: Vec<char>| v@),
            imports.wf(),
            imports@.to_set() == start.union(
                Set::new(
                    |n: Seq<char>|
                        exists|k: int| 0 <= k < j && external_name(#[trigger] mods[k], locals) == Some(n),
                ),
            ),
        decreases modules@.len() - j,
    {
        let ghost before = imports@.to_set();
        add_if_external(modules[j].as_slice(), local_modules, imports);
        proof {
            let prev = Set::new(
                |n: Seq<char>|
                    exists|k: int| 0 <= k < j && external_name(#[trigger] mods[k], locals) == Some(n),
            );
            let next = Set::new(
                |n: Seq<char>|
                    exists|k: int| 0 <= k < j + 1 && external_name(#[trigger] mods[k], locals) == Some(n),
            );
            assert forall|n: Seq<char>| next.contains(n) implies prev.contains(n)
                || external_name(mods[j as int], locals) == Some(n) by {
                let k = choose|k: int| 0 <= k < j + 1 && external_name(#[trigger] mods[k], locals) == Some(n);
                if k < j {
                    assert(prev.contains(n));
                }
            }
            assert forall|n: Seq<char>| prev.contains(n) implies next.contains(n) by {
                let k = choose|k: int| 0 <= k < j && external_name(#[trigger] mods[k], locals) == Some(n);
                assert(0 <= k < j + 1 && external_name(mods[k], locals) == Some(n));
            }
            if let Some(n) = external_name(mods[j as int], locals) {
                assert(next.contains(n));
            }
            assert(imports@.to_set() =~= start.union(next));
        }
        j = j + 1;
    }
    assert(Set::new(
        |n: Seq<char>|
            exists|k: int| 0 <= k < j && external_name(#[trigger] mods[k], locals) == Some(n),
    ) =~= line_imports(line@, locals));
}

/// Adds the external packages that a Python source imports.
pub fn scan_source(source: &str, local_modules: &Vec<Vec<char>>, imports: &mut NameSet)
    requires
        old(imports).wf(),
    ensures
        final(imports).wf(),
        final(imports)@.to_set() == old(imports)@.to_set().union(
            source_imports(source@, local_modules@.map_values(|v: Vec<char>| v@)),
        ),
{
    let ghost locals = local_modules@.map_values(|v: Vec<char>| v@);
    let ghost start = imports@.to_set();
    let text = chars_of(source);
    let source_lines = chars_lines(text.as_slice());
    let ghost ls = lines(source@);
    let mut i: usize = 0;
    while i < source_lines.len()
        invariant
            i <= source_lines@.len(),
            source_lines@.len() == ls.len(),
            ls == lines(source@),
            forall|k: int| 0 <= k < source_lines@.len() ==> #[trigger] source_lines@[k]@ == ls[k],
            locals == local_modules@.map_values(|v: Vec<char>| v@),
            imports.wf(),
            imports@.to_set() == start.union(
                Set::new(
                    |n: Seq<char>|
                        exists|k: int| 0 <= k < i && #[trigger] line_imports(ls[k], locals).contains(n),
                ),
            ),
        decreases source_lines@.len() - i,
    {
        scan_line(source_lines[i].as_slice(), local_modules, imports);
        proof {
            let prev = Set::new(
                |n: Seq<char>|
                    exists|k: int| 0 <= k < i && #[trigger] line_imports(ls[k], locals).contains(n),
            );
            let next = Set::new(
                |n: Seq<char>|
                    exists|k: int| 0 <= k < i + 1 && #[trigger] line_imports(ls[k], locals).contains(n),
            );
            assert forall|n: Seq<char>| next.contains(n) implies prev.contains(n)
                || line_imports(ls[i as int], locals).contains(n) by {
                let k = choose|k: int| 0 <= k < i + 1 && #[trigger] line_imports(ls[k], locals).contains(n);
                if k < i {
                    assert(prev.contains(n));
                }
            }
            assert forall|n: Seq<char>| prev.contains(n) implies next.contains(n) by {
                let k = choose|k: int| 0 <= k < i && #[trigger] line_imports(ls[k], locals).contains(n);
                assert(0 <= k < i + 1 && line_imports(ls[k], locals).contains(n));
            }
            assert forall|n: Seq<char>| line_imports(ls[i as int], locals).contains(n) implies next.contains(n) by {
                assert(0 <= i < i + 1 && line_imports(ls[i as int], locals).contains(n));
            }
            assert(imports@.to_set() =~= start.union(next));
        }
        i = i + 1;
    }
    assert(Set::new(
        |n: Seq<char>|
            exists|k: int| 0 <= k < i && #[trigger] line_imports(ls[k], locals).contains(n),
    ) =~= source_imports(source@, locals));
}

/// The external packages that the Python sources of a path import, in
/// ascending order without repeats; `local_modules` are the modules that the
/// project root holds itself.
pub fn scan_path(sources: &Vec<String>, local_modules: &Vec<String>) -> (r: Vec<String>)
    ensures
        strictly_sorted(r@.map_values(|s: String| s@)),
        r@.map_values(|s: String| s@).to_set() == sources_imports(
            sources@.map_values(|s: String| s@),
            local_modules@.map_values(|s: String| s@),
        ),
{
    let ghost srcs = sources@.map_values(|s: String| s@);
    let ghost locals = local_modules@.map_values(|s: String| s@);
    let mut local_chars: Vec<Vec<char>> = Vec::new();
    let mut m: usize = 0;
    while m < local_modules.len()
        invariant
            m <= local_modules@.len(),
            local_chars@.len() == m,
            forall|k: int| 0 <= k < m ==> #[trigger] local_chars@[k]@ == local_modules@[k]@,
        decreases local_modules@.len() - m,
    {
        local_chars.push(chars_of(local_modules[m].as_str()));
        m = m + 1;
    }
    assert(local_chars@.map_values(|v: Vec<char>| v@) =~= locals);
    let mut imports = NameSet::new();
    let mut i: usize = 0;
    while i < sources.len()
        invariant
            i <= sources@.len(),
            srcs == sources@.map_values(|s: String| s@),
            locals == local_chars@.map_values(|v: Vec<char>| v@),
            imports.wf(),
            imports@.to_set() == Set::new(
                |n: Seq<char>|
                    exists|k: int| 0 <= k < i && #[trigger] source_imports(srcs[k], locals).contains(n),
            ),
        decreases sources@.len() - i,
    {
        let ghost before = imports@.to_set();
        scan_source(sources[i].as_str(), &local_chars, &mut imports);
        proof {
            let next = Set::new(
                |n: Seq<char>|
                    exists|k: int| 0 <= k < i + 1 && #[trigger] source_imports(srcs[k], locals).contains(n),
            );
            assert(sources@[i as int]@ == srcs[i as int]);
            assert forall|n: Seq<char>| next.contains(n) implies imports@.to_set().contains(n) by {
                let k = choose|k: int| 0 <= k < i + 1 && #[trigger] source_imports(srcs[k], locals).contains(n);
                if k < i {
                    assert(before.contains(n));
                }
            }
            assert forall|n: Seq<char>| imports@.to_set().contains(n) implies next.contains(n) by {
                if before.contains(n) {
                    let k = choose|k: int| 0 <= k < i && #[trigger] source_imports(srcs[k], locals).contains(n);
                    assert(0 <= k < i + 1 && source_imports(srcs[k], locals).contains(n));
                } else {
                    assert(source_imports(srcs[i as int], locals).contains(n));
                }
            }
            assert(imports@.to_set() =~= next);
        }
        i = i + 1;
    }
    assert(imports@.to_set() =~= sources_imports(srcs, locals));
    let r = imports.to_strings();
    assert(r@.map_values(|s: String| s@) =~= imports@);
    r
}


/// Every package a Python scan reports is a top-level identifier that is
/// neither a standard-library module nor a module of the project.
pub proof fn scanned_imports_are_external(
    sources: Seq<Seq<char>>,
    locals: Seq<Seq<char>>,
    name: Seq<char>,
)
    requires
        sources_imports(sources, locals).contains(name),
    ensures
        is_identifier_text(name),
        !stdlib_names().contains(name),
        !locals.contains(name),
        !name.contains('.'),
{
    let k = choose|k: int| 0 <= k < sources.len() && #[trigger] source_imports(sources[k], locals).contains(name);
    let src = sources[k];
    let i = choose|i: int| 0 <= i < lines(src).len() && #[trigger] line_imports(lines(src)[i], locals).contains(name);
    let line = lines(src)[i];
    let j = choose|j: int|
        0 <= j < line_modules(line).len() && external_name(#[trigger] line_modules(line)[j], locals) == Some(name);
    let module = line_modules(line)[j];
    crate::util::text::lemma_before_char(module, '.');
}

/// No module of Python's standard library is ever reported by a scan, whatever
/// the sources and the project's own modules: `import json` never leads to
/// installing a package named `json`.
pub proof fn standard_library_modules_are_never_scanned(
    sources: Seq<Seq<char>>,
    locals: Seq<Seq<char>>,
    name: Seq<char>,
)
    requires
        seq![
            "abc"@, "argparse"@, "asyncio"@, "collections"@, "contextlib"@, "csv"@,
            "dataclasses"@, "datetime"@, "decimal"@, "functools"@, "hashlib"@, "http"@,
            "importlib"@, "inspect"@, "io"@, "itertools"@, "json"@, "logging"@, "math"@, "os"@,
            "pathlib"@, "random"@, "re"@, "shutil"@, "sqlite3"@, "statistics"@, "string"@,
            "subprocess"@, "sys"@, "tempfile"@, "threading"@, "time"@, "typing"@, "unittest"@,
            "urllib"@, "uuid"@, "venv"@, "xml"@,
        ].contains(name),
    ensures
        !sources_imports(sources, locals).contains(name),
{
    assert(seq![
        "abc"@, "argparse"@, "asyncio"@, "collections"@, "contextlib"@, "csv"@,
        "dataclasses"@, "datetime"@, "decimal"@, "functools"@, "hashlib"@, "http"@,
        "importlib"@, "inspect"@, "io"@, "itertools"@, "json"@, "logging"@, "math"@, "os"@,
        "pathlib"@, "random"@, "re"@, "shutil"@, "sqlite3"@, "statistics"@, "string"@,
        "subprocess"@, "sys"@, "tempfile"@, "threading"@, "time"@, "typing"@, "unittest"@,
        "urllib"@, "uuid"@, "venv"@, "xml"@,
    ] =~= stdlib_names());
    if sources_imports(sources, locals).contains(name) {
        scanned_imports_are_external(sources, locals, name);
    }
}

/// No character of `s` is `c`.
spec fn free_of(s: Seq<char>, c: char) -> bool {
    forall|j: int| 0 <= j < s.len() ==> #[trigger] s[j] != c
}

/// The characters of an identifier are none of the separators that the line
/// parser looks for, nor whitespace.
proof fn lemma_identifier_is_plain(x: Seq<char>)
    requires
        is_identifier_text(x),
    ensures
        forall|j: int| 0 <= j < x.len() ==> !is_ws(#[trigger] x[j]),
        free_of(x, '#'),
        free_of(x, ';'),
        free_of(x, ','),
        free_of(x, '.'),
        free_of(x, ' '),
        !x.contains('#'),
        !x.contains(';'),
        !x.contains(','),
        !x.contains('.'),
{
    assert forall|j: int| 0 <= j < x.len() implies is_ident_continue(#[trigger] x[j]) by {
        if j == 0 {
            assert(is_ident_start(x[0]));
        }
    }
}

/// Joined texts that are each free of `c` are free of `c`.
proof fn lemma_free_of_join(a: Seq<char>, b: Seq<char>, c: char)
    requires
        free_of(a, c),
        free_of(b, c),
    ensures
        free_of(a + b, c),
        !(a + b).contains(c),
{
    assert forall|j: int| 0 <= j < (a + b).len() implies #[trigger] (a + b)[j] != c by {
        if j < a.len() {
            assert((a + b)[j] == a[j]);
        } else {
            assert((a + b)[j] == b[j - a.len()]);
        }
    }
}

/// Text with no whitespace at either end trims to itself.
proof fn lemma_trim_plain(s: Seq<char>)
    requires
        s.len() > 0,
        !is_ws(s[0]),
        !is_ws(s.last()),
    ensures
        trim(s) == s,
{
    assert(trim_start_by(s, ws_pred()) == s);
    assert(trim_end_by(s, ws_pred()) == s);
}

/// An identifier is its own first word.
proof fn lemma_identifier_first_word(x: Seq<char>)
    requires
        is_identifier_text(x),
    ensures
        first_word(x) == x,
{
    lemma_identifier_is_plain(x);
    assert(trim_start_by(x, ws_pred()) == x);
    assert forall|j: int| 0 <= j < x.len() implies !ws_pred()(#[trigger] x[j]) by {}
    lemma_index_where_is(x, ws_pred(), x.len() as int);
    assert(x.take(x.len() as int) =~= x);
}

/// An external identifier is reported as itself.
proof fn lemma_identifier_is_external(x: Seq<char>, locals: Seq<Seq<char>>)
    requires
        is_identifier_text(x),
        !stdlib_names().contains(x),
        !locals.contains(x),
    ensures
        external_name(x, locals) == Some(x),
{
    lemma_identifier_is_plain(x);
    lemma_before_char(x, '.');
}

/// A line `import x` reports the module `x`, and a line `from x import y`
/// reports `x` too, whenever `x` is an identifier that is neither a module of
/// the standard library nor one of the project.
pub proof fn import_lines_report_their_module(x: Seq<char>, y: Seq<char>, locals: Seq<Seq<char>>)
    requires
        is_identifier_text(x),
        !stdlib_names().contains(x),
        !locals.contains(x),
    ensures
        line_imports("import "@ + x, locals).contains(x),
        is_identifier_text(y) ==> line_imports("from "@ + x + " import "@ + y, locals).contains(x),
{
    reveal_strlit("import ");
    reveal_strlit("from ");
    reveal_strlit(" import ");
    reveal_strlit("from .");
    reveal_strlit("from\t.");
    lemma_identifier_is_plain(x);
    lemma_identifier_is_external(x, locals);
    lemma_identifier_first_word(x);
    lemma_before_char(x, ';');
    crate::util::text::lemma_split_char_whole(x, ',');
    assert forall|j: int| 0 <= j < 7 implies "import "@[j] != '#' by {
        assert(j == 0 || j == 1 || j == 2 || j == 3 || j == 4 || j == 5 || j == 6);
    }
    let line = "import "@ + x;
    lemma_free_of_join("import "@, x, '#');
    lemma_before_char(line, '#');
    assert(line[0] == 'i');
    assert(line.last() == x.last());
    assert(trim_start_by(line, is_char('\u{feff}')) == line);
    lemma_trim_plain(line);
    assert(line.take(6)[0] != "from ."@[0]);
    assert(line.take(6)[0] != "from\t."@[0]);
    assert(line.take(7) =~= "import "@);
    assert(line.skip(7) =~= x);
    assert(split_char(x, ',').map_values(|part: Seq<char>| first_word(part)) =~= seq![x]);
    assert(line_modules(line)[0] == x);
    if is_identifier_text(y) {
        lemma_identifier_is_plain(y);
        let l2 = "from "@ + x + " import "@ + y;
        let clause = x + " import "@ + y;
        assert forall|j: int| 0 <= j < 5 implies "from "@[j] != '#' by {
            assert(j == 0 || j == 1 || j == 2 || j == 3 || j == 4);
        }
        assert forall|j: int| 0 <= j < 8 implies " import "@[j] != '#' && " import "@[j] != ';' by {
            assert(j == 0 || j == 1 || j == 2 || j == 3 || j == 4 || j == 5 || j == 6 || j == 7);
        }
        lemma_free_of_join("from "@, x, '#');
        lemma_free_of_join("from "@ + x, " import "@, '#');
        lemma_free_of_join("from "@ + x + " import "@, y, '#');
        lemma_before_char(l2, '#');
        assert(l2[0] == 'f');
        assert(l2.last() == y.last());
        assert(trim_start_by(l2, is_char('\u{feff}')) == l2);
        lemma_trim_plain(l2);
        assert(l2.take(6)[5] == x[0]);
        assert(l2.take(6)[5] != "from ."@[5]);
        assert(l2.take(6)[4] != "from\t."@[4]);
        assert(l2.take(7)[0] != "import "@[0]);
        assert(l2.take(5) =~= "from "@);
        assert(l2.skip(5) =~= clause);
        lemma_free_of_join(x, " import "@, ';');
        lemma_free_of_join(x + " import "@, y, ';');
        lemma_before_char(clause, ';');
        assert(clause.subrange(x.len() as int, x.len() + 8int) =~= " import "@);
        crate::util::text::lemma_find_sub_first(clause, " import "@, x.len() as int);
        crate::util::text::lemma_find_sub_occurs(clause, " import "@);
        let k = find_sub(clause, " import "@)->0;
        if k < x.len() {
            assert(clause.subrange(k, k + 8)[0] == clause[k]);
            assert(clause[k] == x[k]);
        }
        assert(clause.take(x.len() as int) =~= x);
        lemma_trim_plain(x);
        assert(line_modules(l2)[0] == x);
    }
}

} // verus!
