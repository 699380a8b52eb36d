//! Path construction for the WebDAV backend. The transport itself lives
//! with the caller; the URL every request addresses is built and specified
//! here.

use vstd::prelude::*;

verus! {

/// The URL of one object on a WebDAV target.
pub fn get_path(target: String, fname: String) -> (r: String)
    ensures
        r@ == "http://"@ + target@ + "/api/v1/object/"@ + fname@,
{
    let mut s = "http://".to_owned();
    s.append(target.as_str());
    s.append("/api/v1/object/");
    s.append(fname.as_str());
    proof {
        assert(s@ =~= "http://"@ + target@ + "/api/v1/object/"@ + fname@);
    }
    s
}

} // verus!
