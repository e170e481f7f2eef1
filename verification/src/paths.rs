//! File names, as the bytes the system knows them by.
use vstd::prelude::*;

verus! {

/// `name` below the directory `base`.
pub open spec fn below(base: Seq<u8>, name: Seq<char>) -> Seq<u8> {
    if base.len() == 0 || base.last() == 47 {
        base + vstd::utf8::encode_utf8(name)
    } else {
        base + seq![47u8] + vstd::utf8::encode_utf8(name)
    }
}

/// The path of `name` below the directory `base`.
pub fn join(base: &Vec<u8>, name: &str) -> (path: Vec<u8>)
    ensures
        path@ == below(base@, name@),
{
    let mut path: Vec<u8> = Vec::new();
    path.extend_from_slice(base.as_slice());
    if base.len() > 0 && base[base.len() - 1] != 47 {
        path.push(47u8);
    }
    path.extend_from_slice(name.as_bytes());
    proof {
        assert(path@ =~= below(base@, name@));
    }
    path
}

/// The bytes of a text.
pub fn bytes_of(text: &str) -> (bytes: Vec<u8>)
    ensures
        bytes@ == vstd::utf8::encode_utf8(text@),
{
    let mut bytes: Vec<u8> = Vec::new();
    bytes.extend_from_slice(text.as_bytes());
    proof {
        assert(bytes@ =~= vstd::utf8::encode_utf8(text@));
    }
    bytes
}

/// A name below a directory starts with the directory and ends with the name, with
/// exactly one slash between, unless the directory is not given at all.
pub proof fn law_one_slash_stands_between(base: Seq<u8>, name: Seq<char>)
    ensures
        ({
            let path = below(base, name);
            let end = vstd::utf8::encode_utf8(name);
            &&& path.take(base.len() as int) == base
            &&& path.len() >= base.len() + end.len()
            &&& path.skip(path.len() - end.len()) == end
            &&& base.len() == 0 ==> path == end
            &&& base.len() > 0 && base.last() == 47 ==> path.len() == base.len() + end.len()
            &&& base.len() > 0 && base.last() != 47 ==> path.len() == base.len() + 1 + end.len()
                && path[base.len() as int] == 47
        }),
{
    let path = below(base, name);
    let end = vstd::utf8::encode_utf8(name);
    assert(path.take(base.len() as int) =~= base);
    assert(path.skip(path.len() - end.len()) =~= end);
    if base.len() == 0 {
        assert(path =~= end);
    }
}

} // verus!
