//! Text helpers that the rest of the crate shares.

use vstd::prelude::*;
use vstd::string::{StrSliceExecFns, StringExecFns, StringSliceAdditionalSpecFns};
use vstd::utf8::encode_utf8_decode_utf8;

verus! {

/// Whether two string slices hold the same characters.
pub fn same_text(a: &str, b: &str) -> (same: bool)
    ensures
        same == (a@ == b@),
{
    let x = a.as_bytes();
    let y = b.as_bytes();
    if x.len() != y.len() {
        return false;
    }
    let mut i: usize = 0;
    while i < x.len()
        invariant
            i <= x.len(),
            x@.len() == y@.len(),
            x@ == a.spec_bytes(),
            y@ == b.spec_bytes(),
            forall|j: int| 0 <= j < i ==> x@[j] == y@[j],
        decreases x.len() - i,
    {
        if x[i] != y[i] {
            return false;
        }
        i += 1;
    }
    proof {
        assert(x@ =~= y@);
        encode_utf8_decode_utf8(a@);
        encode_utf8_decode_utf8(b@);
    }
    true
}

/// `pattern` stands in `text` at place `i`.
pub open spec fn occurs_at(text: Seq<char>, pattern: Seq<char>, i: int) -> bool {
    &&& 0 <= i
    &&& i + pattern.len() <= text.len()
    &&& text.subrange(i, i + pattern.len()) == pattern
}

/// `pattern` stands somewhere in `text`.
pub open spec fn occurs(text: Seq<char>, pattern: Seq<char>) -> bool {
    exists|i: int| occurs_at(text, pattern, i)
}

/// `text` with every occurrence of `pattern` replaced by `with`, read from the
/// left; occurrences do not overlap. An empty pattern occurs nowhere.
pub open spec fn replaced(text: Seq<char>, pattern: Seq<char>, with: Seq<char>) -> Seq<char>
    decreases text.len(),
{
    if pattern.len() == 0 || text.len() < pattern.len() {
        text
    } else if text.subrange(0, pattern.len() as int) == pattern {
        with + replaced(text.skip(pattern.len() as int), pattern, with)
    } else {
        seq![text[0]] + replaced(text.skip(1), pattern, with)
    }
}

/// Replacing a pattern that does not occur changes nothing.
pub proof fn lemma_replaced_without_occurrence(
    text: Seq<char>,
    pattern: Seq<char>,
    with: Seq<char>,
)
    requires
        !occurs(text, pattern),
    ensures
        replaced(text, pattern, with) == text,
    decreases text.len(),
{
    if pattern.len() == 0 || text.len() < pattern.len() {
    } else {
        assert(!occurs_at(text, pattern, 0));
        let rest = text.skip(1);
        assert forall|i: int| !occurs_at(rest, pattern, i) by {
            if occurs_at(rest, pattern, i) {
                assert(text.subrange(i + 1, i + 1 + pattern.len()) =~= rest.subrange(
                    i,
                    i + pattern.len(),
                ));
                assert(occurs_at(text, pattern, i + 1));
            }
        }
        lemma_replaced_without_occurrence(rest, pattern, with);
        assert(seq![text[0]] + rest =~= text);
    }
}

/// `text` with every occurrence of `pattern` replaced by `with`.
pub fn replace_all(text: &str, pattern: &str, with: &str) -> (out: String)
    ensures
        out@ == replaced(text@, pattern@, with@),
{
    let n: usize = text.unicode_len();
    let m: usize = pattern.unicode_len();
    if m == 0 {
        return String::from_str(text);
    }
    let mut out = String::new();
    let mut i: usize = 0;
    proof {
        assert(text@.skip(0) =~= text@);
        assert(out@ + replaced(text@, pattern@, with@) =~= replaced(text@, pattern@, with@));
    }
    while i < n
        invariant
            i <= n,
            n == text@.len(),
            m == pattern@.len(),
            m > 0,
            out@ + replaced(text@.skip(i as int), pattern@, with@) == replaced(
                text@,
                pattern@,
                with@,
            ),
        decreases n - i,
    {
        let ghost tail = text@.skip(i as int);
        let ghost before = out@;
        if n - i >= m && same_text(text.substring_char(i, i + m), pattern) {
            out.append(with);
            proof {
                assert(tail.subrange(0, m as int) =~= text@.subrange(i as int, i + m));
                assert(tail.skip(m as int) =~= text@.skip(i + m));
                let rest = replaced(text@.skip(i + m), pattern@, with@);
                assert((before + with@) + rest =~= before + (with@ + rest));
            }
            i += m;
        } else {
            out.append(text.substring_char(i, i + 1));
            proof {
                assert(text@.subrange(i as int, i + 1) =~= seq![tail[0]]);
                assert(tail.skip(1) =~= text@.skip(i + 1));
                if n - i >= m {
                    assert(tail.subrange(0, m as int) =~= text@.subrange(i as int, i + m));
                } else {
                    assert(replaced(tail.skip(1), pattern@, with@) == tail.skip(1));
                    assert(seq![tail[0]] + tail.skip(1) =~= tail);
                }
                let rest = replaced(text@.skip(i + 1), pattern@, with@);
                assert((before + seq![tail[0]]) + rest =~= before + (seq![tail[0]] + rest));
            }
            i += 1;
        }
    }
    assert(text@.skip(n as int) =~= Seq::empty());
    assert(out@ + Seq::<char>::empty() =~= out@);
    out
}

/// The marker of the service's interface host.
pub open spec fn host_marker() -> Seq<char> {
    seq!['a', 'p', 'i', '.']
}

/// The path segment that the service's interface puts before a repository.
pub open spec fn path_marker() -> Seq<char> {
    seq!['r', 'e', 'p', 'o', 's', '/']
}

/// The collection name in an interface address.
pub open spec fn plural_marker() -> Seq<char> {
    seq!['p', 'u', 'l', 'l', 's']
}

/// The collection name in a web address.
pub open spec fn singular_marker() -> Seq<char> {
    seq!['p', 'u', 'l', 'l']
}

/// The web address for an interface address: the host marker and the path
/// marker removed, then the collection name made singular.
pub open spec fn web_url_of(url: Seq<char>) -> Seq<char> {
    replaced(
        replaced(replaced(url, host_marker(), Seq::empty()), path_marker(), Seq::empty()),
        plural_marker(),
        singular_marker(),
    )
}

/// The address of a pull request's web page, from the address under which the
/// service's interface serves it.
pub fn web_url(url: &str) -> (out: String)
    ensures
        out@ == web_url_of(url@),
{
    proof {
        reveal_strlit("api.");
        reveal_strlit("repos/");
        reveal_strlit("pulls");
        reveal_strlit("pull");
        reveal_strlit("");
        assert("api."@ =~= host_marker());
        assert("repos/"@ =~= path_marker());
        assert("pulls"@ =~= plural_marker());
        assert("pull"@ =~= singular_marker());
        assert(""@ =~= Seq::<char>::empty());
    }
    let without_host = replace_all(url, "api.", "");
    let without_path = replace_all(without_host.as_str(), "repos/", "");
    replace_all(without_path.as_str(), "pulls", "pull")
}

/// An address in which none of the three markers occurs is its own web
/// address: rewriting a rewritten address that holds none of them changes
/// nothing.
pub proof fn lemma_web_url_fixed(url: Seq<char>)
    requires
        !occurs(url, host_marker()),
        !occurs(url, path_marker()),
        !occurs(url, plural_marker()),
    ensures
        web_url_of(url) == url,
{
    lemma_replaced_without_occurrence(url, host_marker(), Seq::empty());
    lemma_replaced_without_occurrence(url, path_marker(), Seq::empty());
    lemma_replaced_without_occurrence(url, plural_marker(), singular_marker());
}

} // verus!
