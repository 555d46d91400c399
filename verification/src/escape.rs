//! Escaping of text for placement inside an XML element's character content.
//!
//! The three characters that XML reserves in character content are replaced
//! by their entity references: `&` by `&amp;`, `<` by `&lt;`, `>` by `&gt;`.
//! The two quote characters are escaped as well — `"` by `&quot;`, `'` by
//! `&apos;` — so the same routine is safe for attribute content too.
//! Every other character passes through unchanged.  [`escaped`] is the
//! mathematical statement of that transformation; [`escape_text`] computes
//! it.  The encoding loses nothing: [`unescaped`] decodes it, and
//! [`lemma_unescape_escape`] proves that decoding recovers the original
//! text, so escaping is injective ([`lemma_escape_injective`]).

use vstd::prelude::*;

verus! {

/// The entity reference for `&`.
pub open spec fn amp_entity() -> Seq<char> {
    seq!['&', 'a', 'm', 'p', ';']
}

/// The entity reference for `<`.
pub open spec fn lt_entity() -> Seq<char> {
    seq!['&', 'l', 't', ';']
}

/// The entity reference for `>`.
pub open spec fn gt_entity() -> Seq<char> {
    seq!['&', 'g', 't', ';']
}

/// The entity reference for `"`.
pub open spec fn quot_entity() -> Seq<char> {
    seq!['&', 'q', 'u', 'o', 't', ';']
}

/// The entity reference for `'`.
pub open spec fn apos_entity() -> Seq<char> {
    seq!['&', 'a', 'p', 'o', 's', ';']
}

/// What one character contributes to the escaped form of a text.
pub open spec fn escape_char(c: char) -> Seq<char> {
    if c == '&' {
        amp_entity()
    } else if c == '<' {
        lt_entity()
    } else if c == '>' {
        gt_entity()
    } else if c == '"' {
        quot_entity()
    } else if c == '\'' {
        apos_entity()
    } else {
        seq![c]
    }
}

/// The escaped form of a text: each character replaced by its contribution.
pub open spec fn escaped(s: Seq<char>) -> Seq<char>
    decreases s.len(),
{
    if s.len() == 0 {
        Seq::empty()
    } else {
        escape_char(s[0]) + escaped(s.skip(1))
    }
}

/// Escaping a text extended by one character appends that character's
/// contribution.
pub proof fn lemma_escaped_push(s: Seq<char>, c: char)
    ensures
        escaped(s.push(c)) == escaped(s) + escape_char(c),
    decreases s.len(),
{
    assert(s.push(c)[s.len() as int] == c);
    if s.len() == 0 {
        assert(s.push(c).skip(1) =~= Seq::<char>::empty());
        assert(escaped(s.push(c)) == escape_char(c) + escaped(Seq::<char>::empty()));
        assert(escaped(s.push(c)) =~= escaped(s) + escape_char(c));
    } else {
        assert(s.push(c)[0] == s[0]);
        assert(s.push(c).skip(1) =~= s.skip(1).push(c));
        lemma_escaped_push(s.skip(1), c);
        assert(escaped(s.push(c)) =~= escaped(s) + escape_char(c));
    }
}

/// Law: escaped text never holds a raw `<`, `>`, `"` or `'`; wherever the
/// input had one, only its entity reference appears.
pub proof fn lemma_escaped_no_raw(s: Seq<char>)
    ensures
        forall|i: int|
            0 <= i < escaped(s).len() ==> escaped(s)[i] != '<' && escaped(s)[i] != '>' && escaped(
                s,
            )[i] != '"' && escaped(s)[i] != '\'',
    decreases s.len(),
{
    if s.len() > 0 {
        lemma_escaped_no_raw(s.skip(1));
        assert forall|i: int|
            0 <= i < escaped(s).len() implies escaped(s)[i] != '<' && escaped(s)[i] != '>'
            && escaped(s)[i] != '"' && escaped(s)[i] != '\'' by {
            let head = escape_char(s[0]);
            if i < head.len() {
                assert(escaped(s)[i] == head[i]);
            } else {
                assert(escaped(s)[i] == escaped(s.skip(1))[i - head.len()]);
            }
        }
    }
}

/// Whether `n` occurs in `h` as a contiguous run.
pub open spec fn has_substring(h: Seq<char>, n: Seq<char>) -> bool {
    exists|k: int| 0 <= k && k + n.len() <= h.len() && #[trigger] h.subrange(k, k + n.len()) == n
}

/// Law: for text containing one of the reserved characters `&`, `<`, `>`,
/// `"`, `'`, the matching entity reference appears in the escaped text.
pub proof fn lemma_escaped_entity(s: Seq<char>, c: char)
    requires
        s.contains(c),
        c == '&' || c == '<' || c == '>' || c == '"' || c == '\'',
    ensures
        has_substring(escaped(s), escape_char(c)),
    decreases s.len(),
{
    let ent = escape_char(c);
    let head = escape_char(s[0]);
    if s[0] == c {
        let zero: int = 0;
        assert(escaped(s).subrange(zero, zero + ent.len()) =~= ent);
        assert(has_substring(escaped(s), ent));
    } else {
        let j = choose|j: int| 0 <= j < s.len() && s[j] == c;
        assert(s.skip(1)[j - 1] == c);
        assert(s.skip(1).contains(c));
        lemma_escaped_entity(s.skip(1), c);
        let k = choose|k: int|
            0 <= k && k + ent.len() <= escaped(s.skip(1)).len() && #[trigger] escaped(
                s.skip(1),
            ).subrange(k, k + ent.len()) == ent;
        let shifted = head.len() + k;
        assert(escaped(s).subrange(shifted, shifted + ent.len()) =~= ent);
        assert(has_substring(escaped(s), ent));
    }
}

/// Whether `p` is a prefix of `h`.
pub open spec fn starts_with(h: Seq<char>, p: Seq<char>) -> bool {
    p.len() <= h.len() && h.subrange(0, p.len() as int) == p
}

/// The decoding of escaped text: each entity reference taken back to its
/// character, everything else kept.
pub open spec fn unescaped(s: Seq<char>) -> Seq<char>
    decreases s.len(),
{
    if s.len() == 0 {
        Seq::empty()
    } else if starts_with(s, amp_entity()) {
        seq!['&'] + unescaped(s.skip(5))
    } else if starts_with(s, lt_entity()) {
        seq!['<'] + unescaped(s.skip(4))
    } else if starts_with(s, gt_entity()) {
        seq!['>'] + unescaped(s.skip(4))
    } else if starts_with(s, quot_entity()) {
        seq!['"'] + unescaped(s.skip(6))
    } else if starts_with(s, apos_entity()) {
        seq!['\''] + unescaped(s.skip(6))
    } else {
        seq![s[0]] + unescaped(s.skip(1))
    }
}

/// Law: decoding recovers the original text — escaping is applied exactly
/// once and loses nothing, also for inputs that already hold an entity
/// reference.
pub proof fn lemma_unescape_escape(s: Seq<char>)
    ensures
        unescaped(escaped(s)) == s,
    decreases s.len(),
{
    if s.len() == 0 {
        assert(unescaped(escaped(s)) =~= s);
    } else {
        let c = s[0];
        let head = escape_char(c);
        let rest = escaped(s.skip(1));
        lemma_unescape_escape(s.skip(1));
        assert(escaped(s) == head + rest);
        let e = escaped(s);
        assert(e.len() >= 5 ==> e.subrange(0, 5)[1] == e[1]);
        assert(e.len() >= 4 ==> e.subrange(0, 4)[1] == e[1]);
        assert(e.len() >= 5 ==> e.subrange(0, 5)[0] == e[0]);
        assert(e.len() >= 4 ==> e.subrange(0, 4)[0] == e[0]);
        assert(e.len() >= 5 ==> e.subrange(0, 5)[2] == e[2]);
        assert(e.len() >= 6 ==> e.subrange(0, 6)[0] == e[0]);
        assert(e.len() >= 6 ==> e.subrange(0, 6)[1] == e[1]);
        if c == '&' {
            assert(e.subrange(0, 5) =~= amp_entity());
            assert(starts_with(e, amp_entity()));
            assert(e.skip(5) =~= rest);
            assert(unescaped(e) =~= s);
        } else if c == '<' {
            assert(e[1] == 'l');
            assert(e.subrange(0, 4) =~= lt_entity());
            assert(starts_with(e, lt_entity()));
            assert(e.skip(4) =~= rest);
            assert(unescaped(e) =~= s);
        } else if c == '>' {
            assert(e[1] == 'g');
            assert(e.subrange(0, 4) =~= gt_entity());
            assert(starts_with(e, gt_entity()));
            assert(e.skip(4) =~= rest);
            assert(unescaped(e) =~= s);
        } else if c == '"' {
            assert(e[1] == 'q');
            assert(e.subrange(0, 6) =~= quot_entity());
            assert(starts_with(e, quot_entity()));
            assert(e.skip(6) =~= rest);
            assert(unescaped(e) =~= s);
        } else if c == '\'' {
            assert(e[1] == 'a');
            assert(e[2] == 'p');
            assert(e.subrange(0, 6) =~= apos_entity());
            assert(starts_with(e, apos_entity()));
            assert(e.skip(6) =~= rest);
            assert(unescaped(e) =~= s);
        } else {
            assert(e[0] == c);
            assert(e.skip(1) =~= rest);
            assert(unescaped(e) =~= s);
        }
    }
}

/// Law: escaping is injective — two different texts never escape to the
/// same element content.
pub proof fn lemma_escape_injective(s1: Seq<char>, s2: Seq<char>)
    requires
        escaped(s1) == escaped(s2),
    ensures
        s1 == s2,
{
    lemma_unescape_escape(s1);
    lemma_unescape_escape(s2);
}

/// Returns the escaped form of `s`, safe for XML element content.
pub fn escape_text(s: &str) -> (r: String)
    ensures
        r@ == escaped(s@),
{
    let n = s.unicode_len();
    let mut r = String::new();
    let mut i: usize = 0;
    while i < n
        invariant
            n == s@.len(),
            i <= n,
            r@ == escaped(s@.take(i as int)),
        decreases n - i,
    {
        let c = s.get_char(i);
        proof {
            assert(s@.take(i + 1) =~= s@.take(i as int).push(s@[i as int]));
            lemma_escaped_push(s@.take(i as int), s@[i as int]);
        }
        if c == '&' {
            r.append("&amp;");
            proof {
                reveal_strlit("&amp;");
                assert("&amp;"@ =~= amp_entity());
            }
        } else if c == '<' {
            r.append("&lt;");
            proof {
                reveal_strlit("&lt;");
                assert("&lt;"@ =~= lt_entity());
            }
        } else if c == '>' {
            r.append("&gt;");
            proof {
                reveal_strlit("&gt;");
                assert("&gt;"@ =~= gt_entity());
            }
        } else if c == '"' {
            r.append("&quot;");
            proof {
                reveal_strlit("&quot;");
                assert("&quot;"@ =~= quot_entity());
            }
        } else if c == '\'' {
            r.append("&apos;");
            proof {
                reveal_strlit("&apos;");
                assert("&apos;"@ =~= apos_entity());
            }
        } else {
            let one = s.substring_char(i, i + 1);
            r.append(one);
            proof {
                assert(one@ =~= seq![s@[i as int]]);
                assert(r@ =~= escaped(s@.take(i as int)) + escape_char(c));
            }
        }
        i = i + 1;
    }
    proof {
        assert(s@.take(n as int) =~= s@);
    }
    r
}

} // verus!
