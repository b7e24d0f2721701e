//! How the programs of the renderer are compiled: where the compiler is looked for, and how
//! it is asked.

use vstd::prelude::*;

use crate::scan::{pieces, rows, split_pieces, stands_at, stands_here, string_of};
use crate::testing::texts;
use crate::text::{chars_of, same_text};

verus! {

/// The version of the graphics interface that programs are compiled for.
pub const SHADER_TARGET: &'static str = "vulkan1.0";

/// Whether a text holds a character.
pub open spec fn holds(s: Seq<char>, c: char) -> bool {
    exists|i: int| 0 <= i < s.len() && s[i] == c
}

fn holds_char(s: &Vec<char>, c: char) -> (r: bool)
    ensures
        r == holds(s@, c),
{
    let mut i: usize = 0;
    while i < s.len()
        invariant
            i <= s.len(),
            forall|j: int| 0 <= j < i ==> s@[j] != c,
        decreases s.len() - i,
    {
        if s[i] == c {
            assert(s@[i as int] == c);
            return true;
        }
        i = i + 1;
    }
    false
}

/// A file in a directory.
pub open spec fn file_in(directory: Seq<char>, name: Seq<char>) -> Seq<char> {
    if directory.last() == '/' {
        directory + name
    } else {
        directory + "/"@ + name
    }
}

/// The files in those of the first `count` directories that are named.
pub open spec fn files_in(directories: Seq<Seq<char>>, name: Seq<char>, count: int) -> Seq<
    Seq<char>,
>
    decreases count,
{
    if count <= 0 {
        Seq::empty()
    } else {
        let before = files_in(directories, name, count - 1);
        if directories[count - 1].len() == 0 {
            before
        } else {
            before.push(file_in(directories[count - 1], name))
        }
    }
}

/// Where a tool may be: at the name itself where that leads somewhere, else in every
/// directory of the search path, in order.
pub open spec fn tool_places(name: Seq<char>, path: Option<Seq<char>>) -> Seq<Seq<char>> {
    if holds(name, '/') {
        seq![name]
    } else {
        match path {
            None => Seq::empty(),
            Some(p) => files_in(pieces(p, ':'), name, pieces(p, ':').len() as int),
        }
    }
}

/// What a borrowed text says.
pub open spec fn borrowed(text: Option<&str>) -> Option<Seq<char>> {
    match text {
        Some(t) => Some(t@),
        None => None,
    }
}

/// Where a tool may be. The first of these that is a file is it.
pub fn places_to_look(name: &str, path: Option<&str>) -> (r: Vec<String>)
    ensures
        texts(r@) == tool_places(name@, borrowed(path)),
{
    let mut places: Vec<String> = Vec::new();
    assert(texts(places@) =~= Seq::<Seq<char>>::empty());
    let letters = chars_of(name);
    if holds_char(&letters, '/') {
        places.push(name.to_owned());
        assert(texts(places@) =~= seq![name@]);
        return places;
    }
    let searched = match path {
        Some(p) => p,
        None => return places,
    };
    let directories = split_pieces(&chars_of(searched), ':');
    let ghost named = pieces(searched@, ':');
    let mut i: usize = 0;
    while i < directories.len()
        invariant
            i <= directories.len(),
            rows(directories@) == named,
            texts(places@) == files_in(named, name@, i as int),
        decreases directories.len() - i,
    {
        assert(named[i as int] == directories@[i as int]@);
        if directories[i].len() > 0 {
            let directory = &directories[i];
            let mut file = string_of(directory);
            if directory[directory.len() - 1] != '/' {
                file.append("/");
            }
            file.append(name);
            let ghost before = texts(places@);
            assert(file@ =~= file_in(named[i as int], name@));
            places.push(file);
            assert(texts(places@) =~= before.push(file_in(named[i as int], name@)));
        }
        i = i + 1;
    }
    places
}

/// The names under which a tool is looked for: the one it was given, else all that are
/// usual. An empty name means that the tool is not wanted.
pub fn names_to_try(given: Option<&str>, usual: &[&str]) -> (r: Vec<String>)
    ensures
        texts(r@) == (match borrowed(given) {
            Some(name) => if name.len() == 0 {
                Seq::empty()
            } else {
                seq![name]
            },
            None => Seq::new(usual@.len(), |i: int| usual@[i]@),
        }),
{
    let mut names: Vec<String> = Vec::new();
    match given {
        Some(name) => {
            if !same_text(name, "") {
                names.push(name.to_owned());
                assert(texts(names@) =~= seq![name@]);
            } else {
                assert(texts(names@) =~= Seq::<Seq<char>>::empty());
            }
            proof {
                reveal_strlit("");
                assert(name@.len() == 0 ==> name@ =~= ""@);
            }
        },
        None => {
            let mut i: usize = 0;
            while i < usual.len()
                invariant
                    i <= usual.len(),
                    names@.len() == i,
                    forall|j: int| 0 <= j < i ==> (#[trigger] names@[j])@ == usual@[j]@,
                decreases usual.len() - i,
            {
                names.push(usual[i].to_owned());
                i = i + 1;
            }
            assert(texts(names@) =~= Seq::new(usual@.len(), |i: int| usual@[i]@));
        },
    }
    names
}

/// Whether `word` stands somewhere in `s` behind its last slash.
pub open spec fn named_with(s: Seq<char>, word: Seq<char>) -> bool {
    exists|at: int|
        #[trigger] stands_at(s, word, at) && forall|i: int| at <= i < s.len() ==> s[i] != '/'
}

/// Whether a compiler is of the kind whose file name holds `glslc`. It is asked in another
/// way than the others.
pub fn is_glslc(compiler: &str) -> (r: bool)
    ensures
        r == named_with(compiler@, "glslc"@),
{
    let letters = chars_of(compiler);
    let word = chars_of("glslc");
    proof {
        reveal_strlit("glslc");
    }
    let mut i: usize = letters.len();
    while i > 0
        invariant
            i <= letters@.len(),
            letters@ == compiler@,
            word@ == "glslc"@,
            word@.len() == 5,
            forall|j: int| i <= j < letters@.len() ==> letters@[j] != '/',
            forall|at: int| i <= at ==> !stands_at(letters@, word@, at),
        decreases i,
    {
        i = i - 1;
        if letters[i] == '/' {
            assert forall|at: int| #[trigger]
                stands_at(compiler@, word@, at) implies exists|j: int|
                at <= j < compiler@.len() && compiler@[j] == '/' by {
                assert(at <= i && compiler@[i as int] == '/');
            }
            return false;
        }
        if letters.len() - i >= word.len() && stands_here(&letters, &word, i) {
            return true;
        }
    }
    assert forall|at: int| !#[trigger] stands_at(compiler@, word@, at) by {
        if at >= 0 {
        }
    }
    false
}

/// How a compiler is asked for a program.
pub open spec fn compiler_words(
    compiler: Seq<char>,
    source: Seq<char>,
    result: Seq<char>,
    stage: Seq<char>,
) -> Seq<Seq<char>> {
    (if named_with(compiler, "glslc"@) {
        seq!["-fshader-stage="@ + stage, "--target-env="@ + SHADER_TARGET@]
    } else {
        seq!["-V"@, "--target-env"@, SHADER_TARGET@]
    }) + seq!["-o"@, result, source]
}

/// How a compiler is asked for a program: from which source, into which file, for which
/// stage.
pub fn compiler_args(compiler: &str, source: &str, result: &str, stage: &str) -> (r: Vec<String>)
    ensures
        texts(r@) == compiler_words(compiler@, source@, result@, stage@),
{
    let mut args: Vec<String> = Vec::new();
    if is_glslc(compiler) {
        let mut staged = "-fshader-stage=".to_owned();
        staged.append(stage);
        let mut aimed = "--target-env=".to_owned();
        aimed.append(SHADER_TARGET);
        args.push(staged);
        args.push(aimed);
    } else {
        args.push("-V".to_owned());
        args.push("--target-env".to_owned());
        args.push(SHADER_TARGET.to_owned());
    }
    args.push("-o".to_owned());
    args.push(result.to_owned());
    args.push(source.to_owned());
    assert(texts(args@) =~= compiler_words(compiler@, source@, result@, stage@));
    args
}

/// How a validator is asked about a compiled program.
pub fn validator_args(result: &str) -> (r: Vec<String>)
    ensures
        texts(r@) == seq!["--target-env"@, SHADER_TARGET@, result@],
{
    let args: Vec<String> = vec![
        "--target-env".to_owned(),
        SHADER_TARGET.to_owned(),
        result.to_owned(),
    ];
    assert(texts(args@) =~= seq!["--target-env"@, SHADER_TARGET@, result@]);
    args
}

} // verus!
