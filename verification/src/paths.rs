//! Where files lie, and what a picked folder is called.
use crate::text::{
    from_utf8_lossy, lossy_text, only_the_end_is_taken_off, opt_text, parts,
    parts_split_at_a_separator, parts_weave_back, split_on, str_eq, texts, trim, trim_end_matches,
    trimmed, unseparated_text_is_one_part, without_end,
};
use vstd::prelude::*;

verus! {

/// A path with a name added to it, a slash in between if it takes one.
pub open spec fn joined(base: Seq<char>, name: Seq<char>) -> Seq<char> {
    if base.len() == 0 || base.last() == '/' {
        base + name
    } else {
        base + "/"@ + name
    }
}

/// Adds a name to a path.
fn join(base: &str, name: &str) -> (path: String)
    ensures
        path@ == joined(base@, name@),
{
    let n: usize = base.unicode_len();
    if n == 0 || base.get_char(n - 1) == '/' {
        base.to_owned().concat(name)
    } else {
        base.to_owned().concat("/").concat(name)
    }
}

/// The home directory, or the present one where it is not known.
pub open spec fn home_or_here(home: Option<Seq<char>>) -> Seq<char> {
    match home {
        Some(home) => home,
        None => "."@,
    }
}

/// The directory of the program's files.
pub open spec fn config_dir_of(home: Option<Seq<char>>) -> Seq<char> {
    joined(home_or_here(home), ".rs-term"@)
}

/// The directory of the program's files.
pub fn config_dir(home: Option<&str>) -> (path: String)
    ensures
        path@ == config_dir_of(match home { Some(home) => Some(home@), None => None }),
{
    join(
        match home {
            Some(home) => home,
            None => ".",
        },
        ".rs-term",
    )
}

/// The file that holds the layout.
pub fn layout_path(home: Option<&str>) -> (path: String)
    ensures
        path@ == joined(
            config_dir_of(match home { Some(home) => Some(home@), None => None }),
            "layout.json"@,
        ),
{
    let dir = config_dir(home);
    join(dir.as_str(), "layout.json")
}

/// The configuration file of the private tmux server.
pub fn tmux_conf_path(home: Option<&str>) -> (path: String)
    ensures
        path@ == joined(
            config_dir_of(match home { Some(home) => Some(home@), None => None }),
            "tmux.conf"@,
        ),
{
    let dir = config_dir(home);
    join(dir.as_str(), "tmux.conf")
}

/// The last name among the segments of a path. Empty segments, and dots but
/// for one at the start, do not count. There is none if the path ends in the
/// parent of something, or is nothing but a root or a dot.
pub open spec fn last_name(segments: Seq<Seq<char>>) -> Option<Seq<char>>
    decreases segments.len(),
{
    if segments.len() == 0 {
        None
    } else if segments.last().len() == 0 || (segments.last() == "."@ && segments.len() > 1) {
        last_name(segments.drop_last())
    } else if segments.last() == "."@ || segments.last() == ".."@ {
        None
    } else {
        Some(segments.last())
    }
}

/// The last name in a path.
pub open spec fn file_name_of(path: Seq<char>) -> Option<Seq<char>> {
    last_name(parts(path, '/'))
}

/// The last name in a path, if it has one.
pub fn file_name(path: &str) -> (name: Option<String>)
    ensures
        opt_text(name) == file_name_of(path@),
{
    let segments = split_on(path, '/');
    let mut n: usize = segments.len();
    assert(texts(segments@).take(n as int) =~= texts(segments@));
    while n > 0
        invariant
            n <= segments@.len(),
            texts(segments@) == parts(path@, '/'),
            last_name(texts(segments@)) == last_name(texts(segments@).take(n as int)),
        decreases n,
    {
        let ghost seen = texts(segments@).take(n as int);
        assert(seen.last() == segments@[n - 1]@);
        assert(seen.drop_last() =~= texts(segments@).take(n - 1));
        let segment = segments[n - 1].as_str();
        let dot = str_eq(segment, ".");
        if segment.is_empty() || (dot && n > 1) {
            n -= 1;
        } else if dot || str_eq(segment, "..") {
            return None;
        } else {
            return Some(segment.to_owned());
        }
    }
    None
}

/// The name of the folder at a path: its last name, or the path itself.
pub open spec fn folder_name_of(path: Seq<char>) -> Seq<char> {
    match file_name_of(path) {
        Some(name) => name,
        None => path,
    }
}

/// The name of the folder at a path.
pub fn folder_name(path: &str) -> (name: String)
    ensures
        name@ == folder_name_of(path@),
{
    match file_name(path) {
        Some(name) => name,
        None => path.to_owned(),
    }
}

/// The path in the answer of a folder chooser: without white space around it
/// and without slashes at its end. There is none if nothing is left.
pub open spec fn picked(answer: Seq<char>) -> Option<Seq<char>> {
    let path = without_end(trimmed(answer), '/');
    if path.len() == 0 {
        None
    } else {
        Some(path)
    }
}

/// The path in the text of an answer of a folder chooser.
pub fn picked_text(answer: &str) -> (path: Option<String>)
    ensures
        opt_text(path) == picked(answer@),
{
    let answer = trim(answer);
    let path = trim_end_matches(answer.as_str(), '/');
    if path.as_str().is_empty() {
        None
    } else {
        Some(path)
    }
}

/// The folder that was picked. `success` says whether the chooser was not
/// cancelled, `stdout` is what it printed.
pub fn picked_folder(success: bool, stdout: &[u8]) -> (path: Option<String>)
    ensures
        opt_text(path) == if success {
            picked(lossy_text(stdout@))
        } else {
            None
        },
{
    if !success {
        return None;
    }
    let answer = from_utf8_lossy(stdout);
    picked_text(answer.as_str())
}

/// The name at the end of a path is the name of what lies there, whatever comes
/// before it. A slash after it, or a slash and a dot, does not count; after two
/// dots there is none.
pub proof fn names_stand_at_the_end(above: Seq<char>, name: Seq<char>, path: Seq<char>)
    requires
        name.len() > 0,
        name != "."@,
        name != ".."@,
        forall|k: int| 0 <= k < name.len() ==> #[trigger] name[k] != '/',
    ensures
        file_name_of(name) == Some(name),
        file_name_of(above.push('/') + name) == Some(name),
        file_name_of(path.push('/')) == file_name_of(path),
        file_name_of(path.push('/') + "."@) == file_name_of(path),
        file_name_of(path.push('/') + ".."@) is None,
        folder_name_of(above.push('/') + name) == name,
        file_name_of(path) is None ==> folder_name_of(path) == path,
{
    let none = Seq::<char>::empty();
    reveal_strlit(".");
    reveal_strlit("..");
    unseparated_text_is_one_part(name, '/');
    unseparated_text_is_one_part(none, '/');
    unseparated_text_is_one_part("."@, '/');
    unseparated_text_is_one_part(".."@, '/');
    parts_split_at_a_separator(above, name, '/');
    parts_split_at_a_separator(path, none, '/');
    parts_split_at_a_separator(path, "."@, '/');
    parts_split_at_a_separator(path, ".."@, '/');
    parts_weave_back(path, '/');
    assert(path.push('/') + none =~= path.push('/'));
    assert((parts(above, '/') + seq![name]).last() == name);
    let p = parts(path, '/');
    assert((p + seq![none]).drop_last() =~= p);
    assert((p + seq!["."@]).drop_last() =~= p);
    assert((p + seq![".."@]).last() == ".."@);
    assert("."@ != ".."@) by {
        assert("."@.len() != ".."@.len());
    }
}

/// A name is put at the end of a path, with one slash between them: the path is
/// what comes before, and the name is the last one.
pub proof fn joining_adds_a_name(base: Seq<char>, name: Seq<char>)
    requires
        name.len() > 0,
        name != "."@,
        name != ".."@,
        forall|k: int| 0 <= k < name.len() ==> #[trigger] name[k] != '/',
    ensures
        file_name_of(joined(base, name)) == Some(name),
        joined(base, name).take(base.len() as int) == base,
        base.len() == 0 ==> joined(base, name) == name,
        joined(base.push('/'), name) == base.push('/') + name,
        base.len() > 0 && base.last() != '/' ==> joined(base, name) == base.push('/') + name,
{
    reveal_strlit("/");
    assert(joined(base, name).take(base.len() as int) =~= base);
    names_stand_at_the_end(base, name, base);
    if base.len() == 0 {
        assert(joined(base, name) =~= name);
    } else if base.last() == '/' {
        let above = base.drop_last();
        assert(above.push('/') =~= base);
        names_stand_at_the_end(above, name, base);
    } else {
        assert(joined(base, name) =~= base.push('/') + name);
    }
}

/// A picked folder is what the chooser answered, but for white space around it
/// and slashes at its end; it is there unless nothing else was answered.
pub proof fn picked_folders_are_answers(answer: Seq<char>)
    ensures
        match picked(answer) {
            Some(path) => {
                &&& path.len() > 0
                &&& path.last() != '/'
                &&& path.len() <= trimmed(answer).len()
                &&& path == trimmed(answer).take(path.len() as int)
                &&& forall|k: int|
                    path.len() <= k < trimmed(answer).len() ==> #[trigger] trimmed(answer)[k] == '/'
            },
            None => forall|k: int|
                0 <= k < trimmed(answer).len() ==> #[trigger] trimmed(answer)[k] == '/',
        },
{
    only_the_end_is_taken_off(trimmed(answer), '/');
}

} // verus!
