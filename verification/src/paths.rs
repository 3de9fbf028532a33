//! Where a source file's module and the files that it uses are found: the
//! module is called as the file is, and a used module lies beside the file
//! that uses it.

use vstd::prelude::*;
use vstd::string::*;

verus! {

/// The number of characters up to and with the last slash among the first
/// `n` characters of `path`; none where there is no slash.
pub open spec fn spec_directory_end(path: Seq<char>, n: int) -> int
    decreases n,
{
    if n <= 0 {
        0
    } else if path[n - 1] == '/' {
        n
    } else {
        spec_directory_end(path, n - 1)
    }
}

/// The ending of a source file's name.
pub open spec fn spec_ending() -> Seq<char> {
    seq!['.', 's', 'k', 'u', 'n', 'k']
}

/// What stands behind the last slash of `path`.
pub open spec fn spec_file_name(path: Seq<char>) -> Seq<char> {
    path.subrange(spec_directory_end(path, path.len() as int), path.len() as int)
}

/// The name of the module that the file at `path` is about: the file's
/// name without its directory and without the ending `.skunk`, if it has
/// that ending.
pub open spec fn spec_module_name_of(path: Seq<char>) -> Seq<char> {
    let file = spec_file_name(path);
    if file.len() >= 6 && file.subrange(file.len() - 6, file.len() as int) == spec_ending() {
        file.subrange(0, file.len() - 6)
    } else {
        file
    }
}

/// The directory that the file at `path` lies in, with its last slash:
/// what stands before the file's name, and `./` where nothing does.
pub open spec fn spec_directory_of(path: Seq<char>) -> Seq<char> {
    if spec_directory_end(path, path.len() as int) == 0 {
        "./"@
    } else {
        path.subrange(0, spec_directory_end(path, path.len() as int))
    }
}

/// The path of the file of the module `name` that the file at `path` uses:
/// the file called `name` with the ending `.skunk` in the same directory.
pub open spec fn spec_dependency_path(path: Seq<char>, name: Seq<char>) -> Seq<char> {
    spec_directory_of(path) + name + ".skunk"@
}

/// The number of characters of `path` up to and with its last slash.
pub fn directory_end(path: &str) -> (r: usize)
    ensures
        r == spec_directory_end(path@, path@.len() as int),
        r <= path@.len(),
{
    let length = path.unicode_len();
    let mut end: usize = 0;
    let mut i: usize = 0;
    while i < length
        invariant
            i <= length,
            length == path@.len(),
            end <= i,
            end == spec_directory_end(path@, i as int),
        decreases length - i,
    {
        if path.get_char(i) == '/' {
            end = i + 1;
        }
        i += 1;
    }
    end
}

/// The name of the module that the file at `path` is about.
pub fn module_name_of(path: &str) -> (r: String)
    ensures
        r@ == spec_module_name_of(path@),
{
    let length = path.unicode_len();
    let start = directory_end(path);
    let ghost file = spec_file_name(path@);
    if length - start >= 6 {
        let from = length - 6;
        let ends = path.get_char(from) == '.' && path.get_char(from + 1) == 's' && path.get_char(
            from + 2,
        ) == 'k' && path.get_char(from + 3) == 'u' && path.get_char(from + 4) == 'n'
            && path.get_char(from + 5) == 'k';
        proof {
            let tail = file.subrange(file.len() - 6, file.len() as int);
            assert forall|k: int| 0 <= k < 6 implies tail[k] == path@[from + k] by {}
            if ends {
                assert(tail =~= spec_ending());
            } else {
                assert(tail[0] == path@[from as int]);
                assert(tail[1] == path@[from + 1]);
                assert(tail[2] == path@[from + 2]);
                assert(tail[3] == path@[from + 3]);
                assert(tail[4] == path@[from + 4]);
                assert(tail[5] == path@[from + 5]);
                assert(spec_ending()[0] == '.' && spec_ending()[1] == 's' && spec_ending()[2] == 'k'
                    && spec_ending()[3] == 'u' && spec_ending()[4] == 'n' && spec_ending()[5]
                    == 'k');
            }
        }
        if ends {
            proof {
                assert(path@.subrange(start as int, from as int) =~= file.subrange(
                    0,
                    file.len() - 6,
                ));
            }
            return String::from_str(path.substring_char(start, from));
        }
    }
    String::from_str(path.substring_char(start, length))
}

/// The path of the file of the module `name` that the file at `path` uses.
pub fn dependency_path(path: &str, name: &str) -> (r: String)
    ensures
        r@ == spec_dependency_path(path@, name@),
{
    let end = directory_end(path);
    let directory = if end == 0 {
        String::from_str("./")
    } else {
        String::from_str(path.substring_char(0, end))
    };
    directory.concat(name).concat(".skunk")
}

} // verus!
