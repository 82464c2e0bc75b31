//! What holds of the operations on texts, whatever the texts are.
use vstd::prelude::*;

use crate::text;

verus! {

/// Every character of the text is white space.
pub open spec fn is_blank(s: Seq<char>) -> bool {
    forall|i: int| 0 <= i < s.len() ==> text::is_space(#[trigger] s[i])
}

/// The spaces and line ends of ASCII are white space, and nothing that can be
/// printed in ASCII but the space is.
pub proof fn law_ascii_space(c: char)
    requires
        c <= '\u{7f}',
    ensures
        text::is_space(c) <==> c == ' ' || c == '\t' || c == '\n' || c == '\r' || c == '\u{b}' || c
            == '\u{c}',
{
}

/// White space beyond ASCII is that of Unicode: the next line, the spaces that
/// do not break, the spaces of fixed width, and the separators of lines and
/// paragraphs.
pub proof fn law_other_space(c: char)
    requires
        c > '\u{7f}',
    ensures
        text::is_space(c) <==> {
            ||| c == '\u{85}' || c == '\u{2028}' || c == '\u{2029}'
            ||| c == '\u{a0}' || c == '\u{202f}'
            ||| c == '\u{1680}' || c == '\u{205f}' || c == '\u{3000}'
            ||| '\u{2000}' <= c && c <= '\u{200a}'
        },
{
}

proof fn lemma_front(a: Seq<char>, s: Seq<char>)
    requires
        is_blank(a),
    ensures
        text::trim_front(a + s) == text::trim_front(s),
    decreases a.len(),
{
    if a.len() == 0 {
        assert(a + s =~= s);
    } else {
        let t = a.drop_first();
        assert forall|i: int| 0 <= i < t.len() implies text::is_space(#[trigger] t[i]) by {
            assert(t[i] == a[i + 1]);
        }
        assert((a + s)[0] == a[0]);
        assert((a + s).drop_first() =~= t + s);
        lemma_front(t, s);
    }
}

proof fn lemma_back(s: Seq<char>, b: Seq<char>)
    requires
        is_blank(b),
    ensures
        text::trim_back(s + b) == text::trim_back(s),
    decreases b.len(),
{
    if b.len() == 0 {
        assert(s + b =~= s);
    } else {
        let t = b.drop_last();
        assert forall|i: int| 0 <= i < t.len() implies text::is_space(#[trigger] t[i]) by {
            assert(t[i] == b[i]);
        }
        assert((s + b).last() == b[b.len() - 1]);
        assert((s + b).drop_last() =~= s + t);
        lemma_back(s, t);
    }
}

/// Trimming takes all white space off both ends, and nothing else.
pub proof fn law_trimmed(a: Seq<char>, s: Seq<char>, b: Seq<char>)
    requires
        is_blank(a),
        is_blank(b),
        s.len() > 0 ==> !text::is_space(s[0]) && !text::is_space(s.last()),
    ensures
        text::trimmed(a + s + b) == s,
{
    assert(a + s + b =~= a + (s + b));
    lemma_front(a, s + b);
    if s.len() == 0 {
        assert(s + b =~= b + s);
        lemma_front(b, s);
        assert(text::trim_back(text::trim_front(s)) =~= s);
    } else {
        assert((s + b)[0] == s[0]);
        assert(text::trim_front(s + b) == s + b);
        lemma_back(s, b);
        assert(text::trim_back(s) == s);
    }
}

proof fn lemma_front_parts(s: Seq<char>) -> (n: int)
    ensures
        0 <= n <= s.len(),
        is_blank(s.take(n)),
        text::trim_front(s) == s.skip(n),
        n < s.len() ==> !text::is_space(s[n]),
    decreases s.len(),
{
    if s.len() > 0 && text::is_space(s[0]) {
        let t = s.drop_first();
        let m = lemma_front_parts(t);
        let n = m + 1;
        assert forall|i: int| 0 <= i < n implies text::is_space(#[trigger] s.take(n)[i]) by {
            if i > 0 {
                assert(t.take(m)[i - 1] == s[i]);
            }
        }
        assert(t.skip(m) =~= s.skip(n));
        n
    } else {
        assert(s.skip(0) =~= s);
        0
    }
}

proof fn lemma_back_parts(s: Seq<char>) -> (n: int)
    ensures
        0 <= n <= s.len(),
        is_blank(s.skip(n)),
        text::trim_back(s) == s.take(n),
        n > 0 ==> !text::is_space(s[n - 1]),
    decreases s.len(),
{
    if s.len() > 0 && text::is_space(s.last()) {
        let t = s.drop_last();
        let n = lemma_back_parts(t);
        assert forall|i: int| 0 <= i < s.skip(n).len() implies text::is_space(
            #[trigger] s.skip(n)[i],
        ) by {
            if n + i < t.len() {
                assert(t.skip(n)[i] == s[n + i]);
            }
        }
        assert(t.take(n) =~= s.take(n));
        n
    } else {
        assert(s.take(s.len() as int) =~= s);
        s.len() as int
    }
}

/// Every text is its trimmed text with white space around it; it is trimmed to
/// nothing just where it is all white space.
pub proof fn law_trimmed_is_part(s: Seq<char>)
    ensures
        exists|a: Seq<char>, b: Seq<char>|
            is_blank(a) && is_blank(b) && s == #[trigger] (a + text::trimmed(s) + b),
        text::trimmed(s).len() == 0 <==> is_blank(s),
{
    let n = lemma_front_parts(s);
    let t = s.skip(n);
    let m = lemma_back_parts(t);
    let a = s.take(n);
    let b = t.skip(m);
    assert(s =~= a + t.take(m) + b);
    assert(text::trimmed(s) == t.take(m));
    if is_blank(s) {
        assert(s =~= s + Seq::<char>::empty());
        lemma_front(s, Seq::empty());
        assert(text::trimmed(s) =~= Seq::<char>::empty());
    } else if m == 0 {
        assert forall|i: int| 0 <= i < s.len() implies text::is_space(#[trigger] s[i]) by {
            if i < n {
                assert(a[i] == s[i]);
            } else {
                assert(b[i - n] == s[i]);
            }
        }
    }
}

/// A text occurs in another just where the other is made of it and what stands
/// before and behind it.
pub proof fn law_occurs(hay: Seq<char>, a: Seq<char>, needle: Seq<char>, b: Seq<char>)
    ensures
        text::occurs(a + needle + b, needle),
        text::occurs(hay, needle) ==> exists|x: Seq<char>, y: Seq<char>|
            hay == #[trigger] (x + needle + y),
{
    let all = a + needle + b;
    assert(all.subrange(a.len() as int, (a.len() + needle.len()) as int) =~= needle);
    assert(text::occurs_at(all, needle, a.len() as int));
    if text::occurs(hay, needle) {
        let at = choose|at: int| text::occurs_at(hay, needle, at);
        assert(hay =~= hay.take(at) + needle + hay.skip(at + needle.len()));
    }
}

/// A text begins with another just where it is the other and what follows.
pub proof fn law_begins_with(s: Seq<char>, prefix: Seq<char>, rest: Seq<char>)
    ensures
        text::begins_with(prefix + rest, prefix),
        text::begins_with(s, prefix) ==> s == prefix + s.skip(prefix.len() as int),
{
    assert((prefix + rest).subrange(0, prefix.len() as int) =~= prefix);
    if text::begins_with(s, prefix) {
        assert(s =~= prefix + s.skip(prefix.len() as int));
    }
}

/// Lowering a text changes its capital letters of ASCII alone, each to the
/// small letter.
pub proof fn law_ascii_lowered(s: Seq<char>, i: int)
    requires
        0 <= i < s.len(),
    ensures
        text::ascii_lowered(s).len() == s.len(),
        'A' <= s[i] <= 'Z' ==> text::ascii_lowered(s)[i] as int == s[i] as int + ('a' as int
            - 'A' as int),
        !('A' <= s[i] <= 'Z') ==> text::ascii_lowered(s)[i] == s[i],
{
}

/// Texts that are put together stand one after the other with the separator
/// between them.
pub proof fn law_joined(v: Seq<Seq<char>>, w: Seq<Seq<char>>, x: Seq<char>, sep: Seq<char>)
    ensures
        text::joined(seq![x], sep) == x,
        text::joined(Seq::empty(), sep).len() == 0,
        v.len() > 0 && w.len() > 0 ==> text::joined(v + w, sep) == text::joined(v, sep) + sep
            + text::joined(w, sep),
    decreases w.len(),
{
    if v.len() > 0 && w.len() > 0 {
        assert((v + w).last() == w.last());
        assert((v + w).drop_last() =~= v + w.drop_last());
        if w.len() == 1 {
            assert(v + w.drop_last() =~= v);
        } else {
            law_joined(v, w.drop_last(), x, sep);
            assert(text::joined(v + w, sep) =~= text::joined(v, sep) + sep + text::joined(w, sep));
        }
    }
}

/// Replacing a character works on every character on its own: the character
/// gives way to the text, all others stay.
pub proof fn law_replaced(a: Seq<char>, b: Seq<char>, c: char, with: Seq<char>)
    ensures
        text::replaced(a + b, c, with) == text::replaced(a, c, with) + text::replaced(b, c, with),
        text::replaced(seq![c], c, with) == with,
        !a.contains(c) ==> text::replaced(a, c, with) == a,
    decreases b.len(), a.len(),
{
    assert(seq![c].drop_last() =~= Seq::<char>::empty());
    assert(text::replaced(Seq::<char>::empty(), c, with) + with =~= with);
    if b.len() > 0 {
        assert((a + b).drop_last() =~= a + b.drop_last());
        law_replaced(a, b.drop_last(), c, with);
        assert(text::replaced(a + b, c, with) =~= text::replaced(a, c, with) + text::replaced(
            b,
            c,
            with,
        ));
    } else {
        assert(a + b =~= a);
        assert(text::replaced(a, c, with) + text::replaced(b, c, with) =~= text::replaced(
            a,
            c,
            with,
        ));
        if a.len() > 0 && !a.contains(c) {
            let t = a.drop_last();
            assert(!t.contains(c)) by {
                if t.contains(c) {
                    let i = choose|i: int| 0 <= i < t.len() && t[i] == c;
                    assert(a[i] == c);
                }
            }
            assert(a[a.len() - 1] == a.last());
            law_replaced(t, b, c, with);
            assert(t.push(a.last()) =~= a);
        }
    }
}

/// A number is written with the digit of each power of ten, the highest first
/// and without a zero before it; a negative one has a minus sign before it.
pub proof fn law_decimal(n: nat, d: nat)
    requires
        d < 10,
    ensures
        text::decimal(d) == seq![(48 + d) as char],
        n > 0 ==> text::decimal(10 * n + d) == text::decimal(n).push((48 + d) as char),
        text::signed_decimal(n as int) == text::decimal(n),
        n > 0 ==> text::signed_decimal(-n) == seq!['-'] + text::decimal(n),
{
    assert((10 * n + d) / 10 == n);
    assert((10 * n + d) % 10 == d);
}

/// A text stands for a number just where it is written in digits, with a sign
/// or without, and the number lies within the bounds.
pub proof fn law_int_within(n: nat, lo: int, hi: int)
    ensures
        text::int_within(text::decimal(n), lo, hi) == (if lo <= n <= hi {
            Some(n as int)
        } else {
            None
        }),
        text::int_within(seq!['+'] + text::decimal(n), lo, hi) == (if lo <= n <= hi {
            Some(n as int)
        } else {
            None
        }),
        text::int_within(seq!['-'] + text::decimal(n), lo, hi) == (if lo <= -n <= hi {
            Some(-(n as int))
        } else {
            None
        }),
{
    text::lemma_digits_of_decimal(n);
    let d = text::decimal(n);
    assert('0' <= d[0] <= '9');
    assert((seq!['-'] + d).drop_first() =~= d);
    assert((seq!['+'] + d).drop_first() =~= d);
}

/// A text with a character that is neither a digit nor a sign at its start
/// stands for no number, and neither does the empty one.
pub proof fn law_no_int(s: Seq<char>, i: int, lo: int, hi: int)
    requires
        s.len() == 0 || (0 <= i < s.len() && !('0' <= s[i] <= '9') && !(i == 0 && (s[0] == '+'
            || s[0] == '-'))),
    ensures
        text::int_within(s, lo, hi) is None,
{
    if s.len() > 0 {
        if s[0] == '+' || s[0] == '-' {
            assert(s.drop_first()[i - 1] == s[i]);
        }
    }
}

/// The view of an optional text is that of the text where there is one.
pub proof fn law_opt_view(s: Option<String>)
    ensures
        s is None <==> text::opt_view(s) is None,
        s matches Some(x) ==> text::opt_view(s) == Some(x@),
{
}

/// The views of a list of texts are those of its texts, in their order.
pub proof fn law_views(v: Seq<String>, i: int)
    ensures
        text::views(v).len() == v.len(),
        0 <= i < v.len() ==> text::views(v)[i] == v[i]@,
{
}

} // verus!
