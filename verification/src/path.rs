//! Paths as text.
use vstd::prelude::*;
use vstd::string::*;

verus! {

/// `name` below the directory `base`. An absolute `name` stands for itself.
pub open spec fn joined(base: Seq<char>, name: Seq<char>) -> Seq<char> {
    if base.len() == 0 || (name.len() > 0 && name[0] == '/') {
        name
    } else if base.last() == '/' {
        base + name
    } else {
        base + "/"@ + name
    }
}

/// `name` below the directory `base`. An absolute `name` stands for itself.
pub fn join_path(base: &str, name: &str) -> (s: String)
    ensures
        s@ == joined(base@, name@),
{
    let n = crate::text::chars_of(name);
    let b = crate::text::chars_of(base);
    if b.len() == 0 || (n.len() > 0 && n[0] == '/') {
        return name.to_owned();
    }
    let mut s = base.to_owned();
    if b[b.len() - 1] != '/' {
        s.append("/");
    }
    s.append(name);
    s
}

/// Different names below a directory are different paths, and each is below the directory.
pub proof fn names_stay_apart(base: Seq<char>, a: Seq<char>, b: Seq<char>)
    requires
        a.len() > 0 ==> a[0] != '/',
        b.len() > 0 ==> b[0] != '/',
    ensures
        joined(base, a) == joined(base, b) ==> a == b,
        crate::text::starts_with(joined(base, a), base),
        crate::text::ends_with(joined(base, a), a),
{
    reveal_strlit("/");
    let p = joined(base, a);
    let q = joined(base, b);
    assert(p.take(base.len() as int) =~= base);
    assert(p.skip(p.len() - a.len()) =~= a);
    assert(q.skip(q.len() - b.len()) =~= b);
}

} // verus!
