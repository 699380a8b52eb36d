//! Key construction for the S3 backend: objects are sharded under a prefix
//! made of the first two characters of their name.

use vstd::prelude::*;

verus! {

/// The bucket-relative key of one object, sharded by the first two
/// characters of its name, which must be at least two characters long (the
/// generated object identifiers always are).
pub fn get_path(fname: &str) -> (r: String)
    requires
        fname@.len() >= 2,
    ensures
        r@ == "v2/chum/"@ + fname@.take(2) + "/"@ + fname@,
{
    let first_two = fname.substring_char(0, 2);
    let mut s = "v2/chum/".to_owned();
    s.append(first_two);
    s.append("/");
    s.append(fname);
    proof {
        assert(s@ =~= "v2/chum/"@ + fname@.take(2) + "/"@ + fname@);
    }
    s
}

} // verus!
