//! Normalizing a git remote's URL into a repository link: an SSH-style
//! remote (the kind with a user part before an '@') is rewritten to an
//! HTTPS link; anything else is passed through unchanged.

use vstd::prelude::*;
use vstd::string::StrSliceExecFns;
use vstd::string::StringExecFns;

verus! {

/// Position of the first `c` in `s`, or `s.len()` when there is none.
pub open spec fn first_index(s: Seq<char>, c: char) -> int
    decreases s.len(),
{
    if s.len() == 0 {
        0
    } else if s[0] == c {
        0
    } else {
        1 + first_index(s.skip(1), c)
    }
}

proof fn lemma_first_index_is(s: Seq<char>, c: char, k: int)
    requires
        0 <= k < s.len(),
        s[k] == c,
        forall|j: int| 0 <= j < k ==> s[j] != c,
    ensures
        first_index(s, c) == k,
    decreases s.len(),
{
    if k > 0 {
        assert forall|j: int| 0 <= j < k - 1 implies s.skip(1)[j] != c by {
            assert(s.skip(1)[j] == s[j + 1]);
        }
        assert(s.skip(1)[k - 1] == s[k]);
        lemma_first_index_is(s.skip(1), c, k - 1);
    }
}

proof fn lemma_first_index_none(s: Seq<char>, c: char)
    requires
        forall|j: int| 0 <= j < s.len() ==> s[j] != c,
    ensures
        first_index(s, c) == s.len(),
    decreases s.len(),
{
    if s.len() > 0 {
        assert forall|j: int| 0 <= j < s.len() - 1 implies s.skip(1)[j] != c by {
            assert(s.skip(1)[j] == s[j + 1]);
        }
        lemma_first_index_none(s.skip(1), c);
    }
}

/// Every ':' replaced by '/'.
pub open spec fn map_colon(s: Seq<char>) -> Seq<char> {
    Seq::new(s.len(), |i: int| if s[i] == ':' { '/' } else { s[i] })
}

/// Every occurrence of ".git" removed, scanning left to right without
/// rescanning what a removal brings together.
pub open spec fn remove_git(s: Seq<char>) -> Seq<char>
    decreases s.len(),
{
    if s.len() >= 4 && s.take(4) == ".git"@ {
        remove_git(s.skip(4))
    } else if s.len() > 0 {
        seq![s[0]] + remove_git(s.skip(1))
    } else {
        Seq::empty()
    }
}

/// The repository link for a raw remote URL: an SSH-style remote loses its
/// user part, has ':' turned to '/' and ".git" removed, and gains an HTTPS
/// scheme; a remote without an '@' is kept as it is.
pub open spec fn normalize_url(s: Seq<char>) -> Seq<char> {
    if first_index(s, '@') < s.len() {
        "https://"@ + remove_git(map_colon(s.skip(first_index(s, '@') + 1)))
    } else {
        s
    }
}

fn map_colon_exec(s: &str) -> (r: String)
    ensures
        r@ == map_colon(s@),
{
    let n = s.unicode_len();
    let mut r = String::new();
    let mut i: usize = 0;
    proof {
        assert(r@ =~= map_colon(s@.take(0)));
    }
    while i < n
        invariant
            i <= n,
            n == s@.len(),
            r@ == map_colon(s@.take(i as int)),
        decreases n - i,
    {
        let c = s.get_char(i);
        if c == ':' {
            r.append("/");
        } else {
            let piece = s.substring_char(i, i + 1);
            proof {
                assert(piece@ =~= seq![s@[i as int]]);
            }
            r.append(piece);
        }
        proof {
            assert("/"@ == seq!['/']) by {
                reveal_strlit("/");
            }
            assert(r@ =~= map_colon(s@.take(i + 1)));
        }
        i = i + 1;
    }
    proof {
        assert(s@.take(n as int) =~= s@);
    }
    r
}

fn remove_git_exec(s: &str) -> (r: String)
    ensures
        r@ == remove_git(s@),
{
    let n = s.unicode_len();
    let mut r = String::new();
    let mut i: usize = 0;
    proof {
        assert(s@.skip(0) =~= s@);
        assert(Seq::<char>::empty() + remove_git(s@) =~= remove_git(s@));
    }
    while i < n
        invariant
            i <= n,
            n == s@.len(),
            remove_git(s@) == r@ + remove_git(s@.skip(i as int)),
        decreases n - i,
    {
        let ghost t = s@.skip(i as int);
        proof {
            reveal_strlit(".git");
        }
        if n - i >= 4 && s.get_char(i) == '.' && s.get_char(i + 1) == 'g' && s.get_char(i + 2)
            == 'i' && s.get_char(i + 3) == 't' {
            proof {
                assert(t.take(4) =~= ".git"@);
                assert(t.skip(4) =~= s@.skip(i + 4));
            }
            i = i + 4;
        } else {
            proof {
                if t.len() >= 4 && t.take(4) == ".git"@ {
                    assert(t.take(4)[0] == s@[i as int]);
                    assert(t.take(4)[1] == s@[i + 1]);
                    assert(t.take(4)[2] == s@[i + 2]);
                    assert(t.take(4)[3] == s@[i + 3]);
                    assert(false);
                }
                assert(t.skip(1) =~= s@.skip(i + 1));
                assert(remove_git(t) == seq![s@[i as int]] + remove_git(s@.skip(i + 1)));
            }
            let piece = s.substring_char(i, i + 1);
            proof {
                assert(piece@ =~= seq![s@[i as int]]);
            }
            r.append(piece);
            proof {
                assert(r@ + remove_git(s@.skip(i + 1)) =~= remove_git(s@));
            }
            i = i + 1;
        }
    }
    proof {
        assert(s@.skip(n as int).len() == 0);
        assert(r@ + Seq::<char>::empty() =~= r@);
    }
    r
}

/// Rewrites a raw git remote URL into the repository link the presence
/// service can show, as `normalize_url` states.
pub fn normalize_remote_url(raw: &str) -> (r: String)
    ensures
        r@ == normalize_url(raw@),
{
    let n = raw.unicode_len();
    let mut i: usize = 0;
    while i < n
        invariant
            i <= n,
            n == raw@.len(),
            forall|k: int| 0 <= k < i ==> raw@[k] != '@',
        decreases n - i,
    {
        if raw.get_char(i) == '@' {
            proof {
                lemma_first_index_is(raw@, '@', i as int);
            }
            let tail = raw.substring_char(i + 1, n);
            proof {
                assert(tail@ =~= raw@.skip(i + 1));
            }
            let mapped = map_colon_exec(tail);
            let cleaned = remove_git_exec(mapped.as_str());
            let mut out = "https://".to_owned();
            out.append(cleaned.as_str());
            return out;
        }
        i = i + 1;
    }
    proof {
        lemma_first_index_none(raw@, '@');
    }
    raw.to_owned()
}

} // verus!
