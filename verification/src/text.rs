//! Text helpers over `str` and `String`: appending characters, the Unicode
//! white-space set, trimming, and counting characters.
use vstd::prelude::*;

verus! {

/// `String::push` appends one character.
pub assume_specification[ String::push ](s: &mut String, ch: char)
    ensures
        final(s)@ == old(s)@.push(ch),
;

/// Overwrites a text's bytes, and the spare capacity behind them, with
/// zeros and leaves it empty (`zeroize::Zeroize` for `String`). What is
/// stated is that the text is empty afterwards; that its memory was zeroed
/// is a fact about bytes that the library's model does not hold.
#[verifier::external_body]
pub(crate) fn wipe_text(s: &mut String)
    ensures
        final(s)@ == Seq::<char>::empty(),
{
    zeroize::Zeroize::zeroize(s)
}

#[verifier::external_type_specification]
#[verifier::external_body]
pub struct ExFromUtf8Error(std::string::FromUtf8Error);

/// `String::from_utf8` accepts exactly the valid UTF-8 byte sequences and
/// gives the text they encode.
pub assume_specification[ String::from_utf8 ](vec: Vec<u8>) -> (r: Result<
    String,
    std::string::FromUtf8Error,
>)
    ensures
        r is Ok <==> vstd::utf8::valid_utf8(vec@),
        r matches Ok(s) ==> s@ == vstd::utf8::decode_utf8(vec@),
;

/// Characters with the Unicode `White_Space` property, the set that
/// `char::is_whitespace` and `str::trim` go by.
pub open spec fn is_white_space(c: char) -> bool {
    ||| ('\u{9}' <= c && c <= '\u{d}')
    ||| c == ' '
    ||| c == '\u{85}'
    ||| c == '\u{a0}'
    ||| c == '\u{1680}'
    ||| ('\u{2000}' <= c && c <= '\u{200a}')
    ||| c == '\u{2028}'
    ||| c == '\u{2029}'
    ||| c == '\u{202f}'
    ||| c == '\u{205f}'
    ||| c == '\u{3000}'
}

/// Whether `c` has the Unicode `White_Space` property.
pub fn is_white_space_char(c: char) -> (r: bool)
    ensures
        r == is_white_space(c),
{
    ('\u{9}' <= c && c <= '\u{d}') || c == ' ' || c == '\u{85}' || c == '\u{a0}' || c
        == '\u{1680}' || ('\u{2000}' <= c && c <= '\u{200a}') || c == '\u{2028}' || c
        == '\u{2029}' || c == '\u{202f}' || c == '\u{205f}' || c == '\u{3000}'
}

/// `s` without its leading and trailing white space (what `str::trim` gives).
pub open spec fn trimmed(s: Seq<char>) -> Seq<char>
    decreases s.len(),
{
    if s.len() > 0 && is_white_space(s[0]) {
        trimmed(s.drop_first())
    } else if s.len() > 0 && is_white_space(s.last()) {
        trimmed(s.drop_last())
    } else {
        s
    }
}

/// ASCII upper-case letters to lower case; every other character unchanged.
pub open spec fn ascii_lower(c: char) -> char {
    if 'A' <= c && c <= 'Z' {
        ((c as u32) + 32) as char
    } else {
        c
    }
}

/// The text with ASCII letters folded to lower case.
pub open spec fn fold_ascii_case(s: Seq<char>) -> Seq<char> {
    s.map_values(|c: char| ascii_lower(c))
}

/// Whether a reply to the consent prompt grants access: after trimming white
/// space it reads `y` or `yes`, in any mix of case.
pub open spec fn grants_access(reply: Seq<char>) -> bool {
    let t = fold_ascii_case(trimmed(reply));
    t == seq!['y'] || t == seq!['y', 'e', 's']
}

/// Number of times `c` occurs in `s`.
pub open spec fn occurrences(s: Seq<char>, c: char) -> nat
    decreases s.len(),
{
    if s.len() == 0 {
        0
    } else {
        occurrences(s.drop_last(), c) + if s.last() == c {
            1nat
        } else {
            0nat
        }
    }
}

/// The characters of a text, as a vector.
pub fn chars_of(s: &str) -> (r: Vec<char>)
    ensures
        r@ == s@,
{
    let mut out: Vec<char> = Vec::new();
    for c in it: s.chars()
        invariant
            it.seq() == s@,
            out@ == s@.take(it.index() as int),
    {
        out.push(c);
        proof {
            assert(out@ =~= s@.take(it.index() + 1));
        }
    }
    out
}

/// A character has at most one first occurrence.
proof fn lemma_first_occurrence_unique(s: Seq<char>, c: char, v: int, w: int)
    requires
        is_first_occurrence(s, c, v),
        is_first_occurrence(s, c, w),
    ensures
        v == w,
{
    if v < w {
        assert(s[v] == c);
    } else if w < v {
        assert(s[w] == c);
    }
}

proof fn lemma_occurrences_bounded(s: Seq<char>, c: char)
    ensures
        occurrences(s, c) <= s.len(),
    decreases s.len(),
{
    if s.len() > 0 {
        lemma_occurrences_bounded(s.drop_last(), c);
    }
}

proof fn lemma_occurrences_absent(s: Seq<char>, c: char)
    requires
        !s.contains(c),
    ensures
        occurrences(s, c) == 0,
    decreases s.len(),
{
    if s.len() > 0 {
        let d = s.drop_last();
        assert(!d.contains(c)) by {
            if d.contains(c) {
                let w = choose|w: int| 0 <= w < d.len() && d[w] == c;
                assert(s[w] == c);
            }
        }
        assert(s[s.len() - 1] != c);
        lemma_occurrences_absent(d, c);
    }
}

fn ascii_lower_exec(c: char) -> (r: char)
    ensures
        r == ascii_lower(c),
{
    if 'A' <= c && c <= 'Z' {
        ((c as u8) + 32) as char
    } else {
        c
    }
}

/// `s` without leading and trailing white space.
pub fn trim_text(s: &str) -> (r: Vec<char>)
    ensures
        r@ == trimmed(s@),
{
    let cs = chars_of(s);
    let n = cs.len();
    let mut a: usize = 0;
    assert(cs@.subrange(0, n as int) =~= cs@);
    while a < n && is_white_space_char(cs[a])
        invariant
            cs@ == s@,
            n == cs@.len(),
            a <= n,
            trimmed(s@) == trimmed(cs@.subrange(a as int, n as int)),
        decreases n - a,
    {
        proof {
            let sub = cs@.subrange(a as int, n as int);
            assert(sub.drop_first() =~= cs@.subrange(a + 1, n as int));
        }
        a = a + 1;
    }
    let mut b: usize = n;
    while b > a && is_white_space_char(cs[b - 1])
        invariant
            cs@ == s@,
            n == cs@.len(),
            a <= b <= n,
            a < n ==> !is_white_space(cs@[a as int]),
            trimmed(s@) == trimmed(cs@.subrange(a as int, b as int)),
        decreases b - a,
    {
        proof {
            let sub = cs@.subrange(a as int, b as int);
            assert(sub[0] == cs@[a as int]);
            assert(sub.drop_last() =~= cs@.subrange(a as int, b - 1));
        }
        b = b - 1;
    }
    let mut out: Vec<char> = Vec::new();
    let mut i: usize = a;
    while i < b
        invariant
            cs@ == s@,
            a <= i <= b <= n,
            n == cs@.len(),
            out@ == cs@.subrange(a as int, i as int),
        decreases b - i,
    {
        out.push(cs[i]);
        proof {
            assert(out@ =~= cs@.subrange(a as int, i + 1));
        }
        i = i + 1;
    }
    proof {
        let sub = cs@.subrange(a as int, b as int);
        if sub.len() > 0 {
            assert(sub[0] == cs@[a as int]);
            assert(sub.last() == cs@[b - 1]);
        }
        assert(trimmed(sub) == sub);
    }
    out
}

/// Whether a reply to the consent prompt grants access: after trimming white
/// space it reads `y` or `yes`, in any mix of case.
pub fn is_affirmative(reply: &str) -> (r: bool)
    ensures
        r == grants_access(reply@),
{
    let t = trim_text(reply);
    let ghost folded = fold_ascii_case(t@);
    assert(folded.len() == t@.len());
    assert(forall|q: int| 0 <= q < t@.len() ==> folded[q] == ascii_lower(#[trigger] t@[q]));
    assert(seq!['y'].len() == 1 && seq!['y', 'e', 's'].len() == 3);
    if t.len() == 1 {
        let r = ascii_lower_exec(t[0]) == 'y';
        proof {
            if r {
                assert(folded =~= seq!['y']);
            } else {
                assert(folded[0] != 'y');
            }
        }
        r
    } else if t.len() == 3 {
        let r = ascii_lower_exec(t[0]) == 'y' && ascii_lower_exec(t[1]) == 'e' && ascii_lower_exec(
            t[2],
        ) == 's';
        proof {
            if r {
                assert(folded =~= seq!['y', 'e', 's']);
            } else {
                assert(folded[0] != 'y' || folded[1] != 'e' || folded[2] != 's');
            }
        }
        r
    } else {
        false
    }
}

/// Whether `c` occurs in `s`.
pub fn contains_char(s: &str, c: char) -> (r: bool)
    ensures
        r == s@.contains(c),
{
    let cs = chars_of(s);
    let n = cs.len();
    for i in 0..n
        invariant
            cs@ == s@,
            n == cs@.len(),
            forall|j: int| 0 <= j < i ==> cs@[j] != c,
    {
        if cs[i] == c {
            return true;
        }
    }
    false
}

/// `w` is the position of the first occurrence of `c` in `s`.
pub open spec fn is_first_occurrence(s: Seq<char>, c: char, w: int) -> bool {
    &&& 0 <= w < s.len()
    &&& s[w] == c
    &&& forall|j: int| 0 <= j < w ==> s[j] != c
}

/// Each distinct character of `s` with the number of times it occurs, in the
/// order of first occurrence.
pub fn char_frequencies(s: &str) -> (r: Vec<(char, usize)>)
    ensures
        forall|i: int, j: int| 0 <= i < j < r@.len() ==> r@[i].0 != r@[j].0,
        forall|i: int|
            0 <= i < r@.len() ==> s@.contains(#[trigger] r@[i].0) && r@[i].1 == occurrences(
                s@,
                r@[i].0,
            ),
        forall|c: char| s@.contains(c) ==> exists|i: int| 0 <= i < r@.len() && #[trigger] r@[i].0 == c,
        forall|a: int, b: int, wa: int, wb: int|
            0 <= a < b < r@.len() && is_first_occurrence(s@, r@[a].0, wa) && is_first_occurrence(
                s@,
                r@[b].0,
                wb,
            ) ==> wa < wb,
{
    let cs = chars_of(s);
    let n = cs.len();
    let mut out: Vec<(char, usize)> = Vec::new();
    let ghost mut firsts: Seq<int> = Seq::empty();
    let mut i: usize = 0;
    while i < n
        invariant
            cs@ == s@,
            n == cs@.len(),
            i <= n,
            firsts.len() == out@.len(),
            forall|k: int| 0 <= k < out@.len() ==> is_first_occurrence(cs@, out@[k].0, #[trigger] firsts[k]) && firsts[k] < i,
            forall|a: int, b: int| 0 <= a < b < out@.len() ==> firsts[a] < firsts[b],
            forall|a: int, b: int| 0 <= a < b < out@.len() ==> out@[a].0 != out@[b].0,
            forall|k: int|
                0 <= k < out@.len() ==> cs@.take(i as int).contains(#[trigger] out@[k].0)
                    && out@[k].1 == occurrences(cs@.take(i as int), out@[k].0),
            forall|j: int|
                #![trigger cs@[j]]
                0 <= j < i ==> exists|k: int| 0 <= k < out@.len() && #[trigger] out@[k].0 == cs@[j],
        decreases n - i,
    {
        let c = cs[i];
        let ghost prev = cs@.take(i as int);
        let ghost next = cs@.take(i + 1);
        proof {
            assert(next.drop_last() =~= prev);
            assert(next.last() == c);
            assert forall|d: char| #[trigger] occurrences(next, d) == occurrences(prev, d) + if d
                == c {
                1nat
            } else {
                0nat
            } by {}
            assert forall|d: char| prev.contains(d) implies #[trigger] next.contains(d) by {
                let w = choose|w: int| 0 <= w < prev.len() && prev[w] == d;
                assert(next[w] == d);
            }
            assert(next[i as int] == c);
        }
        let ghost old_out = out@;
        let m = out.len();
        let mut k: usize = 0;
        while k < m
            invariant
                m == out@.len(),
                k <= m,
                forall|q: int| 0 <= q < k ==> out@[q].0 != c,
            ensures
                k <= m,
                k < m ==> out@[k as int].0 == c,
                forall|q: int| 0 <= q < k ==> out@[q].0 != c,
            decreases m - k,
        {
            if out[k].0 == c {
                break;
            }
            k = k + 1;
        }
        let found = k < m;
        if found {
            proof {
                assert(out@[k as int].0 == c);
                assert(occurrences(prev, c) <= prev.len()) by {
                    lemma_occurrences_bounded(prev, c);
                }
            }
            let cnt = out[k].1;
            out.set(k, (c, cnt + 1));
        } else {
            out.push((c, 1));
            proof {
                assert(!prev.contains(c)) by {
                    if prev.contains(c) {
                        let w = choose|w: int| 0 <= w < prev.len() && prev[w] == c;
                        assert(cs@[w] == c);
                        let q = choose|q: int| 0 <= q < old_out.len() && #[trigger] old_out[q].0 == cs@[w];
                        assert(old_out[q].0 == c);
                    }
                }
                lemma_occurrences_absent(prev, c);
                assert forall|j: int| 0 <= j < i implies cs@[j] != c by {
                    assert(prev[j] == cs@[j]);
                }
                assert(is_first_occurrence(cs@, c, i as int));
                firsts = firsts.push(i as int);
            }
        }
        proof {
            assert forall|j: int| #![trigger cs@[j]] 0 <= j < i + 1 implies exists|q: int|
                0 <= q < out@.len() && #[trigger] out@[q].0 == cs@[j] by {
                if j == i {
                    if found {
                        assert(out@[k as int].0 == cs@[j]);
                    } else {
                        assert(out@[m as int].0 == cs@[j]);
                    }
                } else {
                    let q = choose|q: int| 0 <= q < old_out.len() && #[trigger] old_out[q].0 == cs@[j];
                    assert(out@[q].0 == old_out[q].0);
                }
            }
        }
        i = i + 1;
    }
    proof {
        assert(cs@.take(n as int) =~= cs@);
        assert forall|a: int, b: int, wa: int, wb: int|
            0 <= a < b < out@.len() && is_first_occurrence(s@, out@[a].0, wa)
                && is_first_occurrence(s@, out@[b].0, wb) implies wa < wb by {
            lemma_first_occurrence_unique(s@, out@[a].0, wa, firsts[a]);
            lemma_first_occurrence_unique(s@, out@[b].0, wb, firsts[b]);
        }
        assert forall|c: char| s@.contains(c) implies exists|i: int|
            0 <= i < out@.len() && #[trigger] out@[i].0 == c by {
            let w = choose|w: int| 0 <= w < s@.len() && s@[w] == c;
            assert(cs@[w] == c);
        }
    }
    out
}

} // verus!
