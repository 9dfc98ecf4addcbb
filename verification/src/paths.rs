//! Expansion of a leading `~/` to the user's home directory.
use vstd::prelude::*;

verus! {

/// `Path::join` on Unix: an absolute `rest` replaces `base`; otherwise a
/// `/` separates them unless `base` is empty or already ends with one.
pub open spec fn join_path(base: Seq<char>, rest: Seq<char>) -> Seq<char> {
    if rest.len() > 0 && rest[0] == '/' {
        rest
    } else if base.len() > 0 && base.last() != '/' {
        base + seq!['/'] + rest
    } else {
        base + rest
    }
}

/// `path` starts with `~/`.
pub open spec fn starts_with_home(path: Seq<char>) -> bool {
    path.len() >= 2 && path[0] == '~' && path[1] == '/'
}

/// A path with its leading `~/` replaced by the home directory `home`; any
/// other path, or a path when no home directory is known, is unchanged.
pub open spec fn expand_tilde_spec(path: Seq<char>, home: Option<Seq<char>>) -> Seq<char> {
    if starts_with_home(path) {
        match home {
            Some(h) => join_path(h, path.skip(2)),
            None => path,
        }
    } else {
        path
    }
}

/// `dirs::home_dir`, converted to text lossily. The answer depends on the
/// environment and the user database, so nothing is claimed of it.
#[verifier::external_body]
fn home_dir() -> Option<String> {
    match dirs::home_dir() {
        Some(p) => Some(p.to_string_lossy().into_owned()),
        None => None,
    }
}

/// `path` with a leading `~/` replaced by the home directory `home`.
pub fn expand_tilde_with_home(path: &str, home: Option<String>) -> (r: String)
    ensures
        r@ == expand_tilde_spec(path@, match home {
            Some(h) => Some(h@),
            None => None,
        }),
{
    let n = path.unicode_len();
    if n >= 2 && path.get_char(0) == '~' && path.get_char(1) == '/' {
        match home {
            Some(h) => {
                let rest = path.substring_char(2, n);
                assert(rest@ =~= path@.skip(2));
                let rn = rest.unicode_len();
                if rn > 0 && rest.get_char(0) == '/' {
                    rest.to_owned()
                } else {
                    let hn = h.as_str().unicode_len();
                    if hn > 0 && h.as_str().get_char(hn - 1) != '/' {
                        proof {
                            reveal_strlit("/");
                        }
                        h.concat("/").concat(rest)
                    } else {
                        h.concat(rest)
                    }
                }
            },
            None => path.to_owned(),
        }
    } else {
        path.to_owned()
    }
}

/// `path` with a leading `~/` replaced by the user's home directory, when
/// one is known.
pub fn expand_tilde(path: &str) -> (r: String)
    ensures
        exists|home: Option<Seq<char>>| r@ == expand_tilde_spec(path@, home),
        !starts_with_home(path@) ==> r@ == path@,
{
    let home = home_dir();
    let ghost h = match &home {
        Some(s) => Some(s@),
        None => None,
    };
    let r = expand_tilde_with_home(path, home);
    assert(r@ == expand_tilde_spec(path@, h));
    r
}

} // verus!

verus! {

/// With an absolute home directory, a `~/` path expands to an absolute path
/// (so never to itself) that ends with what followed `~/`.
pub proof fn lemma_expansion_is_absolute(path: Seq<char>, home: Seq<char>)
    requires
        starts_with_home(path),
        home.len() > 0,
        home[0] == '/',
    ensures
        expand_tilde_spec(path, Some(home)).len() > 0,
        expand_tilde_spec(path, Some(home))[0] == '/',
        expand_tilde_spec(path, Some(home)) != path,
        expand_tilde_spec(path, Some(home)).len() >= path.len() - 2,
        expand_tilde_spec(path, Some(home)).skip(
            expand_tilde_spec(path, Some(home)).len() - (path.len() - 2),
        ) == path.skip(2),
{
    let r = expand_tilde_spec(path, Some(home));
    let rest = path.skip(2);
    assert(r[0] == '/');
    assert(r[0] != path[0]);
    assert(r.skip(r.len() - rest.len()) =~= rest);
}

} // verus!
