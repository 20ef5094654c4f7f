//! Plain-text helpers: splitting a document into lines, and comparing
//! string slices character by character.

use vstd::prelude::*;
use vstd::string::StrSliceExecFns;

verus! {

/// A line as the splitter produces it: a carriage return standing directly
/// before the cut is removed together with the line feed.
pub open spec fn strip_cr(line: Seq<char>) -> Seq<char> {
    if line.len() > 0 && line.last() == '\r' {
        line.drop_last()
    } else {
        line
    }
}

/// Position of the first line feed in `s`, or `s.len()` when there is none.
pub open spec fn first_newline(s: Seq<char>) -> int
    decreases s.len(),
{
    if s.len() == 0 {
        0
    } else if s[0] == '\n' {
        0
    } else {
        1 + first_newline(s.skip(1))
    }
}

/// The lines of a text: the text is cut at every line feed, a carriage
/// return standing directly before a line feed is cut with it, and a final
/// fragment after the last line feed is a line only when it is not empty.
pub open spec fn lines_of(s: Seq<char>) -> Seq<Seq<char>>
    decreases s.len(),
{
    if s.len() == 0 {
        Seq::empty()
    } else {
        let i = first_newline(s);
        if 0 <= i < s.len() {
            seq![strip_cr(s.take(i))] + lines_of(s.skip(i + 1))
        } else {
            seq![s]
        }
    }
}

proof fn lemma_first_newline_is(s: Seq<char>, k: int)
    requires
        0 <= k < s.len(),
        s[k] == '\n',
        forall|j: int| 0 <= j < k ==> s[j] != '\n',
    ensures
        first_newline(s) == k,
    decreases s.len(),
{
    if k > 0 {
        assert forall|j: int| 0 <= j < k - 1 implies s.skip(1)[j] != '\n' by {
            assert(s.skip(1)[j] == s[j + 1]);
        }
        assert(s.skip(1)[k - 1] == s[k]);
        lemma_first_newline_is(s.skip(1), k - 1);
    }
}

proof fn lemma_first_newline_none(s: Seq<char>)
    requires
        forall|j: int| 0 <= j < s.len() ==> s[j] != '\n',
    ensures
        first_newline(s) == s.len(),
    decreases s.len(),
{
    if s.len() > 0 {
        assert forall|j: int| 0 <= j < s.len() - 1 implies s.skip(1)[j] != '\n' by {
            assert(s.skip(1)[j] == s[j + 1]);
        }
        lemma_first_newline_none(s.skip(1));
    }
}

/// Cutting the first line off the text starting at `start`, when the next
/// line feed stands at `i`.
proof fn lemma_lines_of_step(s: Seq<char>, start: int, i: int)
    requires
        0 <= start <= i < s.len(),
        s[i] == '\n',
        forall|j: int| start <= j < i ==> s[j] != '\n',
    ensures
        lines_of(s.skip(start)) == seq![strip_cr(s.subrange(start, i))] + lines_of(s.skip(i + 1)),
{
    let t = s.skip(start);
    assert forall|j: int| 0 <= j < i - start implies t[j] != '\n' by {
        assert(t[j] == s[j + start]);
    }
    assert(t[i - start] == s[i]);
    lemma_first_newline_is(t, i - start);
    assert(t.take(i - start) =~= s.subrange(start, i));
    assert(t.skip(i - start + 1) =~= s.skip(i + 1));
}

/// The text starting at `start` holds no further line feed: at most one
/// final line is left.
proof fn lemma_lines_of_tail(s: Seq<char>, start: int)
    requires
        0 <= start <= s.len(),
        forall|j: int| start <= j < s.len() ==> s[j] != '\n',
    ensures
        start == s.len() ==> lines_of(s.skip(start)) == Seq::<Seq<char>>::empty(),
        start < s.len() ==> lines_of(s.skip(start)) == seq![s.subrange(start, s.len() as int)],
{
    let t = s.skip(start);
    if start == s.len() {
        assert(t.len() == 0);
    } else {
        assert forall|j: int| 0 <= j < t.len() implies t[j] != '\n' by {
            assert(t[j] == s[j + start]);
        }
        lemma_first_newline_none(t);
        assert(t =~= s.subrange(start, s.len() as int));
    }
}

/// Splits a text into its lines, exactly as `lines_of` describes.
pub fn split_lines(s: &str) -> (r: Vec<String>)
    ensures
        r.deep_view() == lines_of(s@),
{
    let n = s.unicode_len();
    let mut r: Vec<String> = Vec::new();
    let mut start: usize = 0;
    let mut i: usize = 0;
    proof {
        assert(s@.skip(0) =~= s@);
        assert(r.deep_view() =~= Seq::<Seq<char>>::empty());
    }
    while i < n
        invariant
            n == s@.len(),
            start <= i <= n,
            forall|j: int| start <= j < i ==> s@[j] != '\n',
            lines_of(s@) == r.deep_view() + lines_of(s@.skip(start as int)),
        decreases n - i,
    {
        let c = s.get_char(i);
        if c == '\n' {
            let end = if i > start && s.get_char(i - 1) == '\r' {
                i - 1
            } else {
                i
            };
            let line = s.substring_char(start, end);
            let ghost old_dv = r.deep_view();
            let ghost lv = strip_cr(s@.subrange(start as int, i as int));
            proof {
                lemma_lines_of_step(s@, start as int, i as int);
                if i > start && s@[i - 1] == '\r' {
                    assert(s@.subrange(start as int, i as int).last() == s@[i - 1]);
                    assert(s@.subrange(start as int, i as int).drop_last() =~= s@.subrange(
                        start as int,
                        end as int,
                    ));
                }
                assert(lv == line@);
            }
            r.push(line.to_owned());
            proof {
                assert(r.deep_view() =~= old_dv.push(lv));
                assert(old_dv.push(lv) =~= old_dv + seq![lv]);
                assert((old_dv + seq![lv]) + lines_of(s@.skip(i + 1)) =~= old_dv + (seq![lv]
                    + lines_of(s@.skip(i + 1))));
            }
            start = i + 1;
        }
        i = i + 1;
    }
    if start < n {
        let line = s.substring_char(start, n);
        let ghost old_dv = r.deep_view();
        proof {
            lemma_lines_of_tail(s@, start as int);
        }
        r.push(line.to_owned());
        proof {
            assert(r.deep_view() =~= old_dv.push(line@));
            assert(old_dv.push(line@) =~= old_dv + seq![line@]);
        }
    } else {
        proof {
            lemma_lines_of_tail(s@, start as int);
            assert(r.deep_view() + Seq::<Seq<char>>::empty() =~= r.deep_view());
        }
    }
    r
}

/// A text cut to at most `len` characters: a longer text is truncated and
/// marked with a trailing ellipsis, a shorter one is kept whole.
pub open spec fn spec_clamp(s: Seq<char>, len: int) -> Seq<char> {
    if s.len() > len {
        s.take(len - 3) + "..."@
    } else {
        s
    }
}

/// Cuts a string to at most `len` characters, ending a truncated one with
/// an ellipsis.
pub fn clamp(s: String, len: usize) -> (r: String)
    requires
        len >= 3,
    ensures
        r@ == spec_clamp(s@, len as int),
{
    let n = s.as_str().unicode_len();
    if n > len {
        let mut t = s.as_str().substring_char(0, len - 3).to_owned();
        t.append("...");
        t
    } else {
        s
    }
}

/// Index of the last '/' in `s`, or -1 when there is none.
pub open spec fn last_slash(s: Seq<char>) -> int
    decreases s.len(),
{
    if s.len() == 0 {
        -1
    } else if s.last() == '/' {
        s.len() - 1
    } else {
        last_slash(s.drop_last())
    }
}

/// What follows the last '/' of a path: its file name.
pub open spec fn file_name_of(s: Seq<char>) -> Seq<char> {
    s.skip(last_slash(s) + 1)
}

proof fn lemma_last_slash_bounds(s: Seq<char>)
    ensures
        -1 <= last_slash(s) < s.len(),
    decreases s.len(),
{
    if s.len() > 0 && s.last() != '/' {
        lemma_last_slash_bounds(s.drop_last());
    }
}

/// The last segment of a path: everything after its last '/', or the whole
/// path when it has none.
pub fn get_file_name(path: &str) -> (r: Option<&str>)
    ensures
        r matches Some(name) ==> name@ == file_name_of(path@),
        r is Some,
{
    let n = path.unicode_len();
    let mut idx: usize = 0;
    let mut j: usize = 0;
    proof {
        assert(path@.take(0) =~= Seq::<char>::empty());
    }
    while j < n
        invariant
            j <= n,
            idx <= j,
            n == path@.len(),
            idx == last_slash(path@.take(j as int)) + 1,
        decreases n - j,
    {
        proof {
            lemma_last_slash_bounds(path@.take(j as int));
            assert(path@.take(j + 1).drop_last() =~= path@.take(j as int));
            assert(path@.take(j + 1).last() == path@[j as int]);
        }
        if path.get_char(j) == '/' {
            idx = j + 1;
        }
        j = j + 1;
    }
    proof {
        assert(path@.take(n as int) =~= path@);
    }
    Some(path.substring_char(idx, n))
}

/// Character-for-character equality of two string slices.
pub fn str_eq(a: &str, b: &str) -> (r: bool)
    ensures
        r == (a@ == b@),
{
    let n = a.unicode_len();
    let m = b.unicode_len();
    if n != m {
        return false;
    }
    let mut i: usize = 0;
    while i < n
        invariant
            n == a@.len(),
            n == b@.len(),
            i <= n,
            forall|j: int| 0 <= j < i ==> a@[j] == b@[j],
        decreases n - i,
    {
        if a.get_char(i) != b.get_char(i) {
            return false;
        }
        i = i + 1;
    }
    proof {
        assert(a@ =~= b@);
    }
    true
}

} // verus!
