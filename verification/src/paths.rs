//! Paths as strings, with `/` between their components.

use vstd::prelude::*;

verus! {

/// `name` below the folder `base`. A name that starts at the root stays as
/// it is; below the empty folder a name stays as it is too; otherwise the
/// name follows the folder, with exactly one `/` between them where the
/// folder does not already end in one.
pub open spec fn joined(base: Seq<char>, name: Seq<char>) -> Seq<char> {
    if name.len() > 0 && name[0] == '/' {
        name
    } else if base.len() == 0 || base.last() == '/' {
        base + name
    } else {
        base + seq!['/'] + name
    }
}

/// A name that does not start at the root lies below the folder it is
/// joined to: the joined path starts with the folder and ends with the
/// name, and nothing but one `/` stands between them.
pub proof fn lemma_joined_below(base: Seq<char>, name: Seq<char>)
    requires
        name.len() == 0 || name[0] != '/',
    ensures
        joined(base, name) == base + name || joined(base, name) == base + seq!['/'] + name,
        joined(base, name).take(base.len() as int) == base,
        joined(base, name).skip(joined(base, name).len() - name.len()) == name,
{
    let path = joined(base, name);
    assert(path.take(base.len() as int) =~= base);
    assert(path.skip(path.len() - name.len()) =~= name);
}

/// The path of `name` below the folder `base`.
pub fn join(base: &str, name: &str) -> (r: String)
    ensures
        r@ == joined(base@, name@),
{
    let n: usize = name.unicode_len();
    let b: usize = base.unicode_len();
    if n > 0 && name.get_char(0) == '/' {
        String::from_str(name)
    } else if b == 0 || base.get_char(b - 1) == '/' {
        String::from_str(base).concat(name)
    } else {
        proof {
            reveal_strlit("/");
            assert("/"@ =~= seq!['/']);
        }
        String::from_str(base).concat("/").concat(name)
    }
}

} // verus!
