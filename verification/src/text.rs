//! Cell text: joining the text nodes of a cell and trimming the result.

use vstd::prelude::*;
use vstd::string::StringExecFns;

verus! {

/// Whether `c` is white space to `str::trim`, that is, whether it has the
/// Unicode property `White_Space`: the controls from tab to carriage return,
/// the space, next line, the no-break spaces, the Ogham space mark, the
/// spaces from en quad to hair space, the line and paragraph separators, the
/// medium mathematical space and the ideographic space.
pub open spec fn is_whitespace(c: char) -> bool {
    let code = c as u32;
    ||| 0x0009 <= code <= 0x000D
    ||| code == 0x0020
    ||| code == 0x0085
    ||| code == 0x00A0
    ||| code == 0x1680
    ||| 0x2000 <= code <= 0x200A
    ||| code == 0x2028
    ||| code == 0x2029
    ||| code == 0x202F
    ||| code == 0x205F
    ||| code == 0x3000
}

/// Whether every character of `s` is white space. The empty text is blank.
pub open spec fn is_blank(s: Seq<char>) -> bool {
    forall|i: int| 0 <= i < s.len() ==> is_whitespace(#[trigger] s[i])
}

/// Whether `s` neither starts nor ends with white space.
pub open spec fn is_trimmed(s: Seq<char>) -> bool {
    s.len() > 0 ==> !is_whitespace(s.first()) && !is_whitespace(s.last())
}

/// `s` without its leading white space.
pub open spec fn trimmed_start(s: Seq<char>) -> Seq<char>
    decreases s.len(),
{
    if s.len() > 0 && is_whitespace(s.first()) {
        trimmed_start(s.drop_first())
    } else {
        s
    }
}

/// `s` without its trailing white space.
pub open spec fn trimmed_end(s: Seq<char>) -> Seq<char>
    decreases s.len(),
{
    if s.len() > 0 && is_whitespace(s.last()) {
        trimmed_end(s.drop_last())
    } else {
        s
    }
}

/// `s` without its leading and trailing white space.
pub open spec fn trimmed(s: Seq<char>) -> Seq<char> {
    trimmed_end(trimmed_start(s))
}

/// `str::trim` returns the slice that is left when leading and trailing
/// white space is removed, white space being the characters with the
/// Unicode property `White_Space`.
pub assume_specification[ str::trim ](s: &str) -> (t: &str)
    ensures
        t@ == trimmed(s@),
;

/// The text of a cell before trimming: its text nodes, one after another.
pub open spec fn joined(nodes: Seq<Seq<char>>) -> Seq<char> {
    nodes.flatten()
}

/// Joins text nodes into one string.
pub fn join_text(nodes: &[&str]) -> (text: String)
    ensures
        text@ == joined(nodes.deep_view()),
{
    let ghost all = nodes.deep_view();
    let mut text = String::new();
    let mut i: usize = 0;
    while i < nodes.len()
        invariant
            i <= nodes.len(),
            all == nodes.deep_view(),
            text@ == joined(all.take(i as int)),
        decreases nodes.len() - i,
    {
        proof {
            assert(all.take(i + 1) == all.take(i as int).push(nodes[i as int]@));
            all.take(i as int).lemma_flatten_push(nodes[i as int]@);
        }
        text.append(nodes[i]);
        i += 1;
    }
    assert(all.take(i as int) == all);
    text
}

/// The trimmed copy of `s`.
pub fn trim_text(s: &str) -> (t: String)
    ensures
        t@ == trimmed(s@),
        is_trimmed(t@),
{
    proof {
        lemma_trimmed_is_trimmed(s@);
    }
    s.trim().to_owned()
}

/// Removing leading white space leaves a suffix of the text that does not
/// start with white space.
pub proof fn lemma_trimmed_start(s: Seq<char>)
    ensures
        trimmed_start(s).len() <= s.len(),
        trimmed_start(s) == s.skip(s.len() - trimmed_start(s).len()),
        trimmed_start(s).len() > 0 ==> !is_whitespace(trimmed_start(s).first()),
        forall|i: int| 0 <= i < s.len() - trimmed_start(s).len() ==> is_whitespace(#[trigger] s[i]),
    decreases s.len(),
{
    if s.len() > 0 && is_whitespace(s.first()) {
        let rest = s.drop_first();
        lemma_trimmed_start(rest);
        let cut = rest.len() - trimmed_start(rest).len();
        assert(rest.skip(cut) == s.skip(cut + 1));
        assert forall|i: int| 0 <= i < s.len() - trimmed_start(s).len() implies is_whitespace(
            #[trigger] s[i],
        ) by {
            if i > 0 {
                assert(s[i] == rest[i - 1]);
            }
        }
    } else {
        assert(s.skip(0) == s);
    }
}

/// Removing trailing white space leaves a prefix of the text that does not
/// end with white space.
pub proof fn lemma_trimmed_end(s: Seq<char>)
    ensures
        trimmed_end(s).len() <= s.len(),
        trimmed_end(s) == s.take(trimmed_end(s).len() as int),
        trimmed_end(s).len() > 0 ==> !is_whitespace(trimmed_end(s).last()),
        forall|i: int| trimmed_end(s).len() <= i < s.len() ==> is_whitespace(#[trigger] s[i]),
    decreases s.len(),
{
    if s.len() > 0 && is_whitespace(s.last()) {
        let rest = s.drop_last();
        lemma_trimmed_end(rest);
        let kept = trimmed_end(rest).len() as int;
        assert(rest.take(kept) == s.take(kept));
        assert forall|i: int| trimmed_end(s).len() <= i < s.len() implies is_whitespace(
            #[trigger] s[i],
        ) by {
            if i < rest.len() {
                assert(s[i] == rest[i]);
            }
        }
    } else {
        assert(s.take(s.len() as int) == s);
    }
}

/// What trimming returns neither starts nor ends with white space.
pub proof fn lemma_trimmed_is_trimmed(s: Seq<char>)
    ensures
        is_trimmed(trimmed(s)),
{
    let inner = trimmed_start(s);
    lemma_trimmed_start(s);
    lemma_trimmed_end(inner);
    let t = trimmed_end(inner);
    if t.len() > 0 {
        assert(t.first() == inner.take(t.len() as int)[0]);
        assert(t.first() == inner.first());
    }
}

/// Text that holds nothing but white space is trimmed to the empty text.
pub proof fn lemma_blank_is_trimmed_to_nothing(s: Seq<char>)
    requires
        is_blank(s),
    ensures
        trimmed(s) == Seq::<char>::empty(),
{
    lemma_trimmed_start(s);
    let inner = trimmed_start(s);
    if inner.len() > 0 {
        let cut = s.len() - inner.len();
        assert(inner.first() == s.skip(cut)[0]);
        assert(inner.first() == s[cut]);
    }
    assert(inner == Seq::<char>::empty());
}

} // verus!
