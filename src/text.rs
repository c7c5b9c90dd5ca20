//! Character-level text operations: whitespace, token splitting and joining,
//! whitespace collapsing and suffix handling.
use vstd::prelude::*;
use vstd::std_specs::iter::IteratorSpec;

verus! {

/// The characters with the Unicode White_Space property.
pub open spec fn is_ws(c: char) -> bool {
    ||| ('\u{9}' <= c && c <= '\u{d}')
    ||| c == ' '
    ||| c == '\u{85}'
    ||| c == '\u{a0}'
    ||| c == '\u{1680}'
    ||| ('\u{2000}' <= c && c <= '\u{200a}')
    ||| c == '\u{2028}'
    ||| c == '\u{2029}'
    ||| c == '\u{202f}'
    ||| c == '\u{205f}'
    ||| c == '\u{3000}'
}

/// Whether `s` holds only whitespace.
pub open spec fn is_blank(s: Seq<char>) -> bool {
    forall|i: int| 0 <= i < s.len() ==> is_ws(#[trigger] s[i])
}

/// The maximal runs of non-whitespace characters of `s`, in order.
pub open spec fn tokens(s: Seq<char>) -> Seq<Seq<char>>
    decreases s.len(),
{
    if s.len() == 0 {
        Seq::empty()
    } else {
        let t = tokens(s.drop_last());
        let c = s.last();
        if is_ws(c) {
            t
        } else if s.len() >= 2 && !is_ws(s[s.len() - 2]) {
            t.update(t.len() - 1, t.last().push(c))
        } else {
            t.push(seq![c])
        }
    }
}

/// The tokens joined with one space between each two.
pub open spec fn join_spaced(ts: Seq<Seq<char>>) -> Seq<char>
    decreases ts.len(),
{
    if ts.len() == 0 {
        Seq::empty()
    } else if ts.len() == 1 {
        ts[0]
    } else {
        join_spaced(ts.drop_last()) + seq![' '] + ts.last()
    }
}

/// `s` with each newline, carriage return and tab replaced by a space.
pub open spec fn collapse(s: Seq<char>) -> Seq<char> {
    Seq::new(
        s.len(),
        |i: int|
            if s[i] == '\n' || s[i] == '\r' || s[i] == '\t' {
                ' '
            } else {
                s[i]
            },
    )
}

pub open spec fn ends_with(s: Seq<char>, suffix: Seq<char>) -> bool {
    suffix.len() <= s.len() && s.subrange(s.len() - suffix.len(), s.len() as int) == suffix
}

/// `s` without one trailing `suffix`, where it ends with a non-empty one.
pub open spec fn trim_suffix(s: Seq<char>, suffix: Seq<char>) -> Seq<char> {
    if suffix.len() > 0 && ends_with(s, suffix) {
        s.subrange(0, s.len() - suffix.len())
    } else {
        s
    }
}

/// The characters of `s` in order.
pub(crate) fn chars_of(s: &str) -> (r: Vec<char>)
    ensures
        r@ == s@,
{
    broadcast use vstd::string::axiom_spec_iter, vstd::string::next_postcondition;

    let mut it = s.chars();
    let mut out: Vec<char> = Vec::new();
    loop
        invariant
            it.obeys_prophetic_iter_laws(),
            it.decrease() is Some,
            out@ + it.remaining() == s@,
        ensures
            out@ == s@,
        decreases it.decrease()->0,
    {
        let ghost before = it.remaining();
        match it.next() {
            Some(c) => {
                out.push(c);
                assert(out@ + it.remaining() =~= s@) by {
                    assert(before == seq![c] + before.drop_first());
                }
            },
            None => {
                assert(out@ =~= s@);
                break ;
            },
        }
    }
    out
}

/// Relies on `String::push`: appends one character.
#[verifier::external_body]
pub(crate) fn push_char(s: &mut String, c: char)
    ensures
        final(s)@ == old(s)@.push(c),
{
    s.push(c)
}

/// Whether `c` has the White_Space property.
pub fn char_is_ws(c: char) -> (r: bool)
    ensures
        r == is_ws(c),
{
    ('\u{9}' <= c && c <= '\u{d}') || c == ' ' || c == '\u{85}' || c == '\u{a0}' || c
        == '\u{1680}' || ('\u{2000}' <= c && c <= '\u{200a}') || c == '\u{2028}' || c
        == '\u{2029}' || c == '\u{202f}' || c == '\u{205f}' || c == '\u{3000}'
}

/// Whether `s` equals the text `lit`.
pub fn same_text(s: &String, lit: &str) -> (r: bool)
    ensures
        r == (s@ == lit@),
{
    *s == String::from_str(lit)
}

/// A string holding the text `lit`.
pub fn text_of(lit: &str) -> (r: String)
    ensures
        r@ == lit@,
{
    String::from_str(lit)
}

/// Whether `s` holds only whitespace.
pub fn blank(s: &String) -> (r: bool)
    ensures
        r == is_blank(s@),
{
    let cs = chars_of(s.as_str());
    let mut i: usize = 0;
    while i < cs.len()
        invariant
            i <= cs.len(),
            cs@ == s@,
            forall|j: int| 0 <= j < i ==> is_ws(#[trigger] cs@[j]),
        decreases cs.len() - i,
    {
        if !char_is_ws(cs[i]) {
            return false;
        }
        i = i + 1;
    }
    true
}

/// The whitespace-separated tokens of `s`.
pub fn split_tokens(s: &String) -> (r: Vec<String>)
    ensures
        r@.map_values(|t: String| t@) == tokens(s@),
{
    let cs = chars_of(s.as_str());
    let mut out: Vec<String> = Vec::new();
    let mut cur = String::new();
    let mut i: usize = 0;
    while i < cs.len()
        invariant
            i <= cs.len(),
            cs@ == s@,
            cur@.len() > 0 <==> (i > 0 && !is_ws(cs@[i - 1])),
            tokens(cs@.subrange(0, i as int)) == if cur@.len() > 0 {
                out@.map_values(|t: String| t@).push(cur@)
            } else {
                out@.map_values(|t: String| t@)
            },
        decreases cs.len() - i,
    {
        let c = cs[i];
        let ghost prefix = cs@.subrange(0, i + 1);
        let ghost tk = tokens(cs@.subrange(0, i as int));
        let ghost ov = out@.map_values(|t: String| t@);
        let ghost old_cur = cur@;
        assert(prefix.drop_last() =~= cs@.subrange(0, i as int));
        assert(prefix.last() == c);
        if char_is_ws(c) {
            assert(tokens(prefix) == tk);
            if !cur.as_str().is_empty() {
                let done = cur;
                out.push(done);
                cur = String::new();
                assert(out@.map_values(|t: String| t@) =~= ov.push(done@));
            }
        } else {
            push_char(&mut cur, c);
            proof {
                if i > 0 && !is_ws(cs@[i - 1]) {
                    assert(prefix[prefix.len() - 2] == cs@[i - 1]);
                    assert(tk == ov.push(old_cur));
                    assert(tokens(prefix) == tk.update(tk.len() - 1, tk.last().push(c)));
                    assert(tokens(prefix) =~= ov.push(cur@));
                } else {
                    if i > 0 {
                        assert(prefix[prefix.len() - 2] == cs@[i - 1]);
                    }
                    assert(old_cur.len() == 0);
                    assert(tokens(prefix) == tk.push(seq![c]));
                    assert(cur@ =~= seq![c]);
                }
            }
        }
        i = i + 1;
    }
    if !cur.as_str().is_empty() {
        let ghost before = out@;
        let done = cur;
        out.push(done);
        assert(out@.map_values(|t: String| t@) =~= before.map_values(|t: String| t@).push(done@));
    }
    assert(cs@.subrange(0, cs@.len() as int) =~= cs@);
    out
}

/// The tokens joined with one space between each two.
pub fn join_with_spaces(ts: &Vec<String>) -> (r: String)
    ensures
        r@ == join_spaced(ts@.map_values(|t: String| t@)),
{
    let ghost all = ts@.map_values(|t: String| t@);
    let mut out = String::new();
    let mut i: usize = 0;
    while i < ts.len()
        invariant
            i <= ts.len(),
            all == ts@.map_values(|t: String| t@),
            out@ == join_spaced(all.subrange(0, i as int)),
        decreases ts.len() - i,
    {
        let ghost sub = all.subrange(0, i + 1);
        assert(sub.drop_last() =~= all.subrange(0, i as int));
        if i > 0 {
            push_char(&mut out, ' ');
        }
        out.append(ts[i].as_str());
        i = i + 1;
        proof {
            if i == 1 {
                assert(join_spaced(sub) == sub[0]);
                assert(out@ =~= sub[0]);
            }
        }
    }
    assert(all.subrange(0, ts.len() as int) =~= all);
    out
}

/// `s` with each newline, carriage return and tab replaced by a space.
pub fn collapse_text(s: &String) -> (r: String)
    ensures
        r@ == collapse(s@),
{
    let cs = chars_of(s.as_str());
    let mut out = String::new();
    let mut i: usize = 0;
    while i < cs.len()
        invariant
            i <= cs.len(),
            cs@ == s@,
            out@ == collapse(s@).subrange(0, i as int),
        decreases cs.len() - i,
    {
        let c = cs[i];
        if c == '\n' || c == '\r' || c == '\t' {
            push_char(&mut out, ' ');
        } else {
            push_char(&mut out, c);
        }
        i = i + 1;
        assert(out@ =~= collapse(s@).subrange(0, i as int));
    }
    assert(collapse(s@).subrange(0, cs.len() as int) =~= collapse(s@));
    out
}

/// Whether `s` ends with `suffix`.
pub fn has_suffix(s: &String, suffix: &str) -> (r: bool)
    ensures
        r == ends_with(s@, suffix@),
{
    let cs = chars_of(s.as_str());
    let ss = chars_of(suffix);
    if ss.len() > cs.len() {
        return false;
    }
    let off = cs.len() - ss.len();
    let mut i: usize = 0;
    while i < ss.len()
        invariant
            i <= ss.len(),
            cs@ == s@,
            ss@ == suffix@,
            off == cs.len() - ss.len(),
            forall|j: int| 0 <= j < i ==> cs@[off + j] == ss@[j],
        decreases ss.len() - i,
    {
        if cs[off + i] != ss[i] {
            assert(s@.subrange(s@.len() - suffix@.len(), s@.len() as int)[i as int] != suffix@[i as int]);
            return false;
        }
        i = i + 1;
    }
    assert(s@.subrange(s@.len() - suffix@.len(), s@.len() as int) =~= suffix@);
    true
}

/// `s` without one trailing `suffix` (see `trim_suffix`).
pub fn strip_suffix(s: &String, suffix: &str) -> (r: String)
    ensures
        r@ == trim_suffix(s@, suffix@),
{
    let cs = chars_of(s.as_str());
    let ss = chars_of(suffix);
    let mut end: usize = cs.len();
    assert(cs@.subrange(0, end as int) =~= s@);
    if ss.len() > 0 && ss.len() <= end && ends_within(&cs, end, &ss) {
        end = end - ss.len();
    }
    let mut out = String::new();
    let mut i: usize = 0;
    while i < end
        invariant
            i <= end <= cs.len(),
            out@ == cs@.subrange(0, i as int),
        decreases end - i,
    {
        push_char(&mut out, cs[i]);
        i = i + 1;
        assert(out@ =~= cs@.subrange(0, i as int));
    }
    out
}

/// Whether `cs[..end]` ends with `ss`.
fn ends_within(cs: &Vec<char>, end: usize, ss: &Vec<char>) -> (r: bool)
    requires
        end <= cs.len(),
        ss.len() <= end,
    ensures
        r == ends_with(cs@.subrange(0, end as int), ss@),
{
    let off = end - ss.len();
    let ghost pre = cs@.subrange(0, end as int);
    let mut i: usize = 0;
    while i < ss.len()
        invariant
            i <= ss.len(),
            off == end - ss.len(),
            end <= cs.len(),
            pre == cs@.subrange(0, end as int),
            forall|j: int| 0 <= j < i ==> cs@[off + j] == ss@[j],
        decreases ss.len() - i,
    {
        if cs[off + i] != ss[i] {
            assert(pre.subrange(pre.len() - ss@.len(), pre.len() as int)[i as int] != ss@[i as int]);
            return false;
        }
        i = i + 1;
    }
    assert(pre.subrange(pre.len() - ss@.len(), pre.len() as int) =~= ss@);
    true
}

} // verus!
