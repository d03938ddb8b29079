//! Helpers around the serving directory and the names of served files.

use crate::text::{str_eq, views};
use vstd::prelude::*;
use vstd::string::*;
use vstd::utf8::{
    encode_scalar, encode_utf8, encode_utf8_decode_utf8, encode_utf8_first_scalar,
    encode_utf8_valid_utf8, is_char_boundary, pop_first_scalar,
};

verus! {

/// The argument announces the serving directory.
pub open spec fn is_directory_flag(arg: Seq<char>) -> bool {
    arg == "directory"@ || arg == "--directory"@
}

/// The serving directory that the arguments from place `from` on name: the
/// argument after the first directory flag that has one, and `./` where
/// there is none.
pub open spec fn directory_from(args: Seq<Seq<char>>, from: int) -> Seq<char>
    decreases args.len() - from,
{
    if from < 0 || from + 1 >= args.len() {
        "./"@
    } else if is_directory_flag(args[from]) {
        args[from + 1]
    } else {
        directory_from(args, from + 1)
    }
}

/// Resolves the serving directory from the arguments of the process.
pub fn parse_directory_from_args(args: &Vec<String>) -> (directory: String)
    ensures
        directory@ == directory_from(views(args@), 0),
{
    let n = args.len();
    let mut i: usize = 0;
    while i < n && i + 1 < n
        invariant
            n == args.len(),
            i <= n,
            directory_from(views(args@), 0) == directory_from(views(args@), i as int),
        decreases n - i,
    {
        let flag = args[i].as_str();
        if str_eq(flag, "directory") || str_eq(flag, "--directory") {
            return args[i + 1].clone();
        }
        i += 1;
    }
    "./".to_owned()
}

/// The bytes of two texts joined are the bytes of the first, then the
/// bytes of the second.
pub proof fn lemma_bytes_of_joined(a: Seq<char>, b: Seq<char>)
    ensures
        encode_utf8(a + b) == encode_utf8(a) + encode_utf8(b),
    decreases a.len(),
{
    if a.len() == 0 {
        assert(a + b =~= b);
        assert(encode_utf8(a) + encode_utf8(b) =~= encode_utf8(b));
    } else {
        assert((a + b).drop_first() =~= a.drop_first() + b);
        lemma_bytes_of_joined(a.drop_first(), b);
        assert(encode_utf8(a + b) =~= encode_utf8(a) + encode_utf8(b));
    }
}

/// In the bytes of two texts joined, the second text starts at a character
/// boundary.
pub proof fn lemma_joined_at_char_boundary(a: Seq<char>, b: Seq<char>)
    ensures
        is_char_boundary(encode_utf8(a + b), encode_utf8(a).len() as int),
    decreases a.len(),
{
    encode_utf8_valid_utf8(a + b);
    if a.len() > 0 {
        let bytes = encode_utf8(a + b);
        let first = encode_scalar(a[0] as u32);
        encode_utf8_first_scalar(a + b);
        encode_utf8_first_scalar(a);
        assert((a + b).drop_first() =~= a.drop_first() + b);
        assert(pop_first_scalar(bytes) =~= encode_utf8(a.drop_first() + b));
        assert(encode_utf8(a).len() == first.len() + encode_utf8(a.drop_first()).len());
        lemma_joined_at_char_boundary(a.drop_first(), b);
    }
}

/// Cuts the prefix off a request target to get the name of a file: what
/// follows the first bytes of `url`, as many as `prefix` has. Where `url`
/// starts with `prefix`, that is the rest of `url`.
pub fn parse_file_name_from_url(url: &str, prefix: &str) -> (name: String)
    requires
        is_char_boundary(encode_utf8(url@), encode_utf8(prefix@).len() as int),
    ensures
        encode_utf8(name@) == encode_utf8(url@).skip(encode_utf8(prefix@).len() as int),
        forall|rest: Seq<char>| url@ == prefix@ + rest ==> name@ == rest,
{
    let n = prefix.as_bytes().len();
    let (_, rest) = url.split_at(n);
    let name = rest.to_owned();
    proof {
        assert(encode_utf8(name@) =~= encode_utf8(url@).skip(n as int));
        assert forall|rest: Seq<char>| url@ == prefix@ + rest implies name@ == rest by {
            lemma_bytes_of_joined(prefix@, rest);
            assert((encode_utf8(prefix@) + encode_utf8(rest)).skip(n as int) =~= encode_utf8(rest));
            encode_utf8_decode_utf8(name@);
            encode_utf8_decode_utf8(rest);
        }
    }
    name
}

} // verus!
