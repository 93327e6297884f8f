//! Text handling that the request validation relies on.

use vstd::prelude::*;

verus! {

/// Unicode's White_Space property: the characters that `char::is_whitespace`
/// accepts and that `str::trim` removes.
pub open spec fn is_white_space(c: char) -> bool {
    let n = c as u32;
    ||| 0x09 <= n <= 0x0D
    ||| n == 0x20
    ||| n == 0x85
    ||| n == 0xA0
    ||| n == 0x1680
    ||| 0x2000 <= n <= 0x200A
    ||| n == 0x2028
    ||| n == 0x2029
    ||| n == 0x202F
    ||| n == 0x205F
    ||| n == 0x3000
}

/// How many whitespace characters `s` starts with.
pub open spec fn leading_white_space(s: Seq<char>) -> nat
    decreases s.len(),
{
    if s.len() > 0 && is_white_space(s[0]) {
        1 + leading_white_space(s.drop_first())
    } else {
        0
    }
}

/// How many whitespace characters `s` ends with.
pub open spec fn trailing_white_space(s: Seq<char>) -> nat
    decreases s.len(),
{
    if s.len() > 0 && is_white_space(s.last()) {
        1 + trailing_white_space(s.drop_last())
    } else {
        0
    }
}

/// `s` without its leading whitespace.
pub open spec fn trimmed_start(s: Seq<char>) -> Seq<char> {
    s.subrange(leading_white_space(s) as int, s.len() as int)
}

/// `s` with its leading and trailing whitespace removed: what `str::trim`
/// gives back.
pub open spec fn trimmed(s: Seq<char>) -> Seq<char> {
    let front = trimmed_start(s);
    front.subrange(0, front.len() - trailing_white_space(front))
}

/// The leading whitespace of `s` is a prefix of it, followed by a character
/// that is not whitespace, if any.
pub proof fn lemma_leading_white_space(s: Seq<char>)
    ensures
        leading_white_space(s) <= s.len(),
        forall|i: int| 0 <= i < leading_white_space(s) ==> is_white_space(#[trigger] s[i]),
        leading_white_space(s) < s.len() ==> !is_white_space(s[leading_white_space(s) as int]),
    decreases s.len(),
{
    if s.len() > 0 && is_white_space(s[0]) {
        let rest = s.drop_first();
        lemma_leading_white_space(rest);
        assert forall|i: int| 0 <= i < leading_white_space(s) implies is_white_space(#[trigger] s[i]) by {
            if i > 0 {
                assert(s[i] == rest[i - 1]);
            }
        }
        if leading_white_space(s) < s.len() {
            assert(s[leading_white_space(s) as int] == rest[leading_white_space(rest) as int]);
        }
    }
}

/// The trailing whitespace of `s` is a suffix of it, preceded by a character
/// that is not whitespace, if any.
pub proof fn lemma_trailing_white_space(s: Seq<char>)
    ensures
        trailing_white_space(s) <= s.len(),
        forall|i: int|
            s.len() - trailing_white_space(s) <= i < s.len() ==> is_white_space(#[trigger] s[i]),
        trailing_white_space(s) < s.len() ==> !is_white_space(
            s[s.len() - trailing_white_space(s) - 1],
        ),
    decreases s.len(),
{
    if s.len() > 0 && is_white_space(s.last()) {
        let rest = s.drop_last();
        lemma_trailing_white_space(rest);
        assert forall|i: int|
            s.len() - trailing_white_space(s) <= i < s.len() implies is_white_space(
            #[trigger] s[i],
        ) by {
            if i < s.len() - 1 {
                assert(s[i] == rest[i]);
            }
        }
        if trailing_white_space(s) < s.len() {
            assert(s[s.len() - trailing_white_space(s) - 1] == rest[rest.len()
                - trailing_white_space(rest) - 1]);
        }
    }
}

/// A trimmed string neither starts nor ends with whitespace, so trimming it
/// again gives it back; it is no longer than what it was trimmed from.
pub proof fn lemma_trimmed(s: Seq<char>)
    ensures
        trimmed(s).len() <= s.len(),
        trimmed(trimmed(s)) == trimmed(s),
        trimmed(s).len() > 0 ==> !is_white_space(trimmed(s)[0]) && !is_white_space(
            trimmed(s).last(),
        ),
{
    lemma_leading_white_space(s);
    let front = trimmed_start(s);
    lemma_trailing_white_space(front);
    let t = trimmed(s);
    if t.len() > 0 {
        assert(t[0] == front[0]);
        assert(front[0] == s[leading_white_space(s) as int]);
        assert(t.last() == front[front.len() - trailing_white_space(front) - 1]);
        assert(leading_white_space(t) == 0);
        assert(trimmed_start(t) =~= t);
        assert(trailing_white_space(t) == 0);
        assert(trimmed(t) =~= t);
    } else {
        assert(leading_white_space(t) == 0);
        assert(trimmed(t) =~= t);
    }
}

/// Calls `str::trim`. Its contract claims that the result is `trimmed` of the
/// argument: the argument without its leading and trailing characters of
/// Unicode's White_Space property, which is how the documentation of
/// `str::trim` defines whitespace.
#[verifier::external_body]
pub(crate) fn trim_text(s: &str) -> (r: &str)
    ensures
        r@ == trimmed(s@),
{
    s.trim()
}

/// Whether a service name is blank: empty once surrounding whitespace is
/// removed.
pub open spec fn is_blank(s: Seq<char>) -> bool {
    trimmed(s).len() == 0
}

/// The service name as it is stored: with surrounding whitespace removed.
pub fn trim_service(service: &String) -> (r: String)
    ensures
        r@ == trimmed(service@),
        trimmed(r@) == r@,
{
    let t = trim_text(service.as_str());
    proof {
        lemma_trimmed(service@);
    }
    String::from_str(t)
}

/// The three node names a route may point at.
pub open spec fn is_known_node(name: Seq<char>) -> bool {
    name == "node-a"@ || name == "node-b"@ || name == "node-c"@
}

/// Decides `is_known_node`.
pub fn known_node(name: &String) -> (r: bool)
    ensures
        r == is_known_node(name@),
{
    let a = String::from_str("node-a");
    let b = String::from_str("node-b");
    let c = String::from_str("node-c");
    *name == a || *name == b || *name == c
}

} // verus!
