//! Local input data for command-line tasks: which files are accepted, how the files of a
//! directory are combined, and how the input is summarised.
use vstd::prelude::*;

use crate::error::AgentError;
use crate::order::{insert_sorted, listed_once_in_order, strictly_sorted};
use crate::text::{
    append_chars, chars_of, decimal, decimal_vec, lines, lines_vec, str_equal, string_views,
    strings_of, views,
};

verus! {

/// Input read from a file, or from the supported files of a directory.
#[derive(Clone, Debug)]
pub struct LoadedInput {
    pub source_path: String,
    pub payload: String,
}

/// The summary of an input: its path, its number of characters and of lines.
pub open spec fn input_summary_of(source_path: Seq<char>, payload: Seq<char>) -> Seq<char> {
    "Source Path: "@ + source_path + "\nCharacters: "@ + decimal(payload.len()) + "\nLines: "@
        + decimal(lines(payload).len())
}

pub fn build_input_summary(source_path: &str, payload: &str) -> (s: String)
    ensures
        s@ == input_summary_of(source_path@, payload@),
{
    let chars = chars_of(payload);
    let ls = lines_vec(&chars);
    let char_count = decimal_vec(chars.len() as u64);
    let line_count = decimal_vec(ls.len() as u64);
    proof {
        assert(views(ls@).len() == ls@.len());
    }
    let mut s = String::from_str("Source Path: ");
    s.append(source_path);
    s.append("\nCharacters: ");
    append_chars(&mut s, &char_count);
    s.append("\nLines: ");
    append_chars(&mut s, &line_count);
    s
}

/// The file extensions that are read as input.
pub open spec fn supported_extension(ext: Seq<char>) -> bool {
    ext == "txt"@ || ext == "md"@ || ext == "json"@ || ext == "csv"@
}

pub fn is_supported_extension(ext: &str) -> (b: bool)
    ensures
        b == supported_extension(ext@),
{
    str_equal(ext, "txt") || str_equal(ext, "md") || str_equal(ext, "json") || str_equal(
        ext,
        "csv",
    )
}

/// An entry of an input directory: its path, the extension of its file name where it has
/// one, and whether it is a regular file.
#[derive(Clone, Debug)]
pub struct DirEntry {
    pub path: String,
    pub extension: Option<String>,
    pub is_file: bool,
}

/// An entry that is read as input: a regular file with a supported extension.
pub open spec fn is_input_file(e: DirEntry) -> bool {
    e.is_file && match e.extension {
        Some(x) => supported_extension(x@),
        None => false,
    }
}

/// The paths of the entries that are read as input, in the order of the entries.
pub open spec fn input_paths(entries: Seq<DirEntry>) -> Seq<Seq<char>>
    decreases entries.len(),
{
    if entries.len() == 0 {
        Seq::empty()
    } else if is_input_file(entries.last()) {
        input_paths(entries.drop_last()).push(entries.last().path@)
    } else {
        input_paths(entries.drop_last())
    }
}

/// The extensions read as input are exactly `txt`, `md`, `json` and `csv`.
pub proof fn supported_extensions_are_the_four(ext: Seq<char>)
    ensures
        supported_extension(ext) <==> (ext == seq!['t', 'x', 't'] || ext == seq!['m', 'd'] || ext
            == seq!['j', 's', 'o', 'n'] || ext == seq!['c', 's', 'v']),
{
    reveal_strlit("txt");
    reveal_strlit("md");
    reveal_strlit("json");
    reveal_strlit("csv");
    assert("txt"@ =~= seq!['t', 'x', 't']);
    assert("md"@ =~= seq!['m', 'd']);
    assert("json"@ =~= seq!['j', 's', 'o', 'n']);
    assert("csv"@ =~= seq!['c', 's', 'v']);
}

/// Every regular file of the directory with extension `txt`, `md`, `json` or `csv` is among
/// the input files, and every input file is such a file of the directory.
pub proof fn input_files_are_the_supported_files(entries: Seq<DirEntry>, path: Seq<char>)
    ensures
        input_paths(entries).contains(path) <==> exists|i: int|
            0 <= i < entries.len() && #[trigger] entries[i].path@ == path && entries[i].is_file
                && (entries[i].extension matches Some(x) && (x@ == seq!['t', 'x', 't'] || x@
                == seq!['m', 'd'] || x@ == seq!['j', 's', 'o', 'n'] || x@ == seq![
                'c',
                's',
                'v',
            ])),
    decreases entries.len(),
{
    if entries.len() > 0 {
        let init = entries.drop_last();
        let last = entries.last();
        input_files_are_the_supported_files(init, path);
        match last.extension {
            Some(x) => supported_extensions_are_the_four(x@),
            None => {},
        }
        let before = input_paths(init);
        if is_input_file(last) {
            assert(before.push(last.path@).contains(path) <==> (before.contains(path) || path
                == last.path@)) by {
                if before.push(last.path@).contains(path) {
                    let k = choose|k: int|
                        0 <= k < before.push(last.path@).len() && before.push(last.path@)[k] == path;
                    if k < before.len() {
                        assert(before[k] == path);
                    }
                }
                if before.contains(path) {
                    let k = choose|k: int| 0 <= k < before.len() && before[k] == path;
                    assert(before.push(last.path@)[k] == path);
                }
                if path == last.path@ {
                    assert(before.push(last.path@)[before.len() as int] == path);
                }
            }
        }
        if exists|i: int|
            0 <= i < entries.len() && #[trigger] entries[i].path@ == path && entries[i].is_file
                && (entries[i].extension matches Some(x) && (x@ == seq!['t', 'x', 't'] || x@
                == seq!['m', 'd'] || x@ == seq!['j', 's', 'o', 'n'] || x@ == seq![
                'c',
                's',
                'v',
            ])) {
            let i = choose|i: int|
                0 <= i < entries.len() && #[trigger] entries[i].path@ == path && entries[i].is_file
                    && (entries[i].extension matches Some(x) && (x@ == seq!['t', 'x', 't'] || x@
                    == seq!['m', 'd'] || x@ == seq!['j', 's', 'o', 'n'] || x@ == seq![
                    'c',
                    's',
                    'v',
                ]));
            if i < init.len() {
                assert(init[i] == entries[i]);
            }
        }
        assert forall|i: int| 0 <= i < init.len() implies #[trigger] init[i] == entries[i] by {}
    }
}

/// The files of a directory that are read as input: the paths of its supported regular
/// files, each once, in lexicographic order (for the entries of one directory, the order in
/// which their `Path`s sort); an error naming the directory where there are none.
pub fn choose_input_files(directory: &str, entries: &Vec<DirEntry>) -> (r: Result<
    Vec<String>,
    AgentError,
>)
    ensures
        match r {
            Ok(paths) => input_paths(entries@).len() > 0 && listed_once_in_order(
                string_views(paths@),
                input_paths(entries@),
            ),
            Err(e) => {
                &&& input_paths(entries@).len() == 0
                &&& e matches AgentError::EmptyInputDirectory(d) && d@ == directory@
            },
        },
{
    let mut found: Vec<Vec<char>> = Vec::new();
    let mut i: usize = 0;
    assert(entries@.take(0) =~= Seq::<DirEntry>::empty());
    assert(views(found@) =~= Seq::<Seq<char>>::empty());
    while i < entries.len()
        invariant
            i <= entries.len(),
            strictly_sorted(views(found@)),
            forall|u: Seq<char>|
                views(found@).contains(u) <==> input_paths(entries@.take(i as int)).contains(u),
        decreases entries.len() - i,
    {
        assert(entries@.take(i + 1).drop_last() =~= entries@.take(i as int));
        assert(entries@.take(i + 1).last() == entries@[i as int]);
        let ghost before = input_paths(entries@.take(i as int));
        let e = &entries[i];
        let chosen = e.is_file && match &e.extension {
            Some(x) => is_supported_extension(x.as_str()),
            None => false,
        };
        if chosen {
            let path = chars_of(e.path.as_str());
            let ghost c = path@;
            assert(input_paths(entries@.take(i + 1)) == before.push(c));
            insert_sorted(&mut found, path);
            assert forall|u: Seq<char>| before.push(c).contains(u) <==> (before.contains(u) || u
                == c) by {
                if before.push(c).contains(u) {
                    let k = choose|k: int| 0 <= k < before.push(c).len() && before.push(c)[k] == u;
                    if k < before.len() {
                        assert(before[k] == u);
                    }
                }
                if before.contains(u) {
                    let k = choose|k: int| 0 <= k < before.len() && before[k] == u;
                    assert(before.push(c)[k] == u);
                }
                if u == c {
                    assert(before.push(c)[before.len() as int] == c);
                }
            }
        } else {
            assert(input_paths(entries@.take(i + 1)) == before);
        }
        i = i + 1;
    }
    assert(entries@.take(entries.len() as int) =~= entries@);
    if found.len() == 0 {
        assert(input_paths(entries@).len() == 0) by {
            if input_paths(entries@).len() > 0 {
                let x = input_paths(entries@)[0];
                assert(input_paths(entries@).contains(x));
                assert(views(found@).contains(x));
                assert(views(found@).len() == 0);
            }
        }
        return Err(AgentError::EmptyInputDirectory(String::from_str(directory)));
    }
    assert(views(found@).contains(views(found@)[0]));
    Ok(strings_of(&found))
}

/// One file's section of a directory's combined input.
pub open spec fn file_section(f: LoadedInput) -> Seq<char> {
    "File: "@ + f.source_path@ + "\n"@ + f.payload@
}

/// The sections of the files, separated by a `---` line.
pub open spec fn joined_sections(files: Seq<LoadedInput>) -> Seq<char>
    decreases files.len(),
{
    if files.len() == 0 {
        Seq::empty()
    } else if files.len() == 1 {
        file_section(files[0])
    } else {
        joined_sections(files.drop_last()) + "\n\n---\n\n"@ + file_section(files.last())
    }
}

/// The combined input of a directory's files, in the order given.
pub fn combine_input_files(files: &Vec<LoadedInput>) -> (s: String)
    ensures
        s@ == joined_sections(files@),
{
    let mut s = String::new();
    let mut i: usize = 0;
    assert(files@.take(0) =~= Seq::<LoadedInput>::empty());
    while i < files.len()
        invariant
            i <= files.len(),
            s@ == joined_sections(files@.take(i as int)),
        decreases files.len() - i,
    {
        assert(files@.take(i + 1).drop_last() =~= files@.take(i as int));
        if i > 0 {
            s.append("\n\n---\n\n");
        } else {
            proof {
                reveal_strlit("");
            }
            assert(files@.take(1)[0] == files@[0]);
        }
        s.append("File: ");
        s.append(files[i].source_path.as_str());
        s.append("\n");
        s.append(files[i].payload.as_str());
        i = i + 1;
    }
    assert(files@.take(files.len() as int) =~= files@);
    s
}

} // verus!
