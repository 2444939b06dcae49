//! Characters, lines and decimal numbers.
use vstd::prelude::*;
use vstd::std_specs::iter::IteratorSpec;
use vstd::string::{axiom_spec_iter, next_postcondition};

verus! {

/// The characters of `s`, in order.
pub fn chars_of(s: &str) -> (r: Vec<char>)
    ensures
        r@ == s@,
{
    broadcast use axiom_spec_iter, next_postcondition;
    let mut it = s.chars();
    let mut r: Vec<char> = Vec::new();
    loop
        invariant
            it.obeys_prophetic_iter_laws(),
            r@ + it.remaining() == s@,
            it.decrease() is Some,
        ensures
            r@ == s@,
        decreases it.decrease()->0,
    {
        match it.next() {
            Some(c) => {
                r.push(c);
            },
            None => {
                assert(r@ + it.remaining() =~= r@);
                break;
            },
        }
    }
    r
}


/// Builds a string from its characters.
/// Relies on `FromIterator<&char>` for `String`: the string holds the characters in order.
#[verifier::external_body]
pub(crate) fn string_of(cs: &[char]) -> (r: String)
    ensures
        r@ == cs@,
{
    cs.iter().collect()
}

/// Reads `t` from the left: the lines closed by a `'\n'` so far, and the open line.
pub open spec fn scan_lines(t: Seq<char>) -> (Seq<Seq<char>>, Seq<char>)
    decreases t.len(),
{
    if t.len() == 0 {
        (Seq::empty(), Seq::empty())
    } else {
        let (closed, open) = scan_lines(t.drop_last());
        if t.last() == '\n' {
            (closed.push(open), Seq::empty())
        } else {
            (closed, open.push(t.last()))
        }
    }
}

/// A line without its carriage return, if it ends in one.
pub open spec fn strip_cr(l: Seq<char>) -> Seq<char> {
    if l.len() > 0 && l.last() == '\r' {
        l.drop_last()
    } else {
        l
    }
}

/// The lines of `t`: split at each `'\n'`, a final unterminated line kept when it
/// is not empty, and one carriage return taken off the end of each line.
pub open spec fn lines_of(t: Seq<char>) -> Seq<Seq<char>> {
    let (closed, open) = scan_lines(t);
    let all = if open.len() > 0 {
        closed.push(open)
    } else {
        closed
    };
    all.map_values(|l: Seq<char>| strip_cr(l))
}

/// The views of a sequence of character vectors.
pub open spec fn views_of(v: Seq<Vec<char>>) -> Seq<Seq<char>> {
    v.map_values(|l: Vec<char>| l@)
}

fn without_cr(l: &Vec<char>) -> (r: Vec<char>)
    ensures
        r@ == strip_cr(l@),
{
    let mut r = l.clone();
    if r.len() > 0 && r[r.len() - 1] == '\r' {
        r.pop();
    }
    proof {
        assert(l@ =~= r@ || (l@.len() > 0 && l@.last() == '\r' && r@ =~= l@.drop_last()));
    }
    r
}

/// Splits `t` into its lines.
pub fn split_lines(t: &Vec<char>) -> (r: Vec<Vec<char>>)
    ensures
        views_of(r@) == lines_of(t@),
{
    let mut closed: Vec<Vec<char>> = Vec::new();
    let mut open: Vec<char> = Vec::new();
    let mut i: usize = 0;
    while i < t.len()
        invariant
            i <= t.len(),
            views_of(closed@) == scan_lines(t@.take(i as int)).0.map_values(
                |l: Seq<char>| strip_cr(l),
            ),
            open@ == scan_lines(t@.take(i as int)).1,
        decreases t.len() - i,
    {
        assert(t@.take(i + 1).drop_last() =~= t@.take(i as int));
        assert(t@.take(i + 1).last() == t@[i as int]);
        if t[i] == '\n' {
            let ghost before = closed@;
            let ghost prev = scan_lines(t@.take(i as int));
            let line = without_cr(&open);
            closed.push(line);
            open = Vec::new();
            assert(views_of(closed@) =~= views_of(before).push(strip_cr(prev.1)));
            assert(prev.0.push(prev.1).map_values(|l: Seq<char>| strip_cr(l)) =~= prev.0.map_values(
                |l: Seq<char>| strip_cr(l),
            ).push(strip_cr(prev.1)));
        } else {
            open.push(t[i]);
        }
        i = i + 1;
    }
    assert(t@.take(i as int) =~= t@);
    let ghost before = closed@;
    let ghost prev = scan_lines(t@);
    if open.len() > 0 {
        let line = without_cr(&open);
        closed.push(line);
        assert(views_of(closed@) =~= views_of(before).push(strip_cr(prev.1)));
        assert(prev.0.push(prev.1).map_values(|l: Seq<char>| strip_cr(l)) =~= prev.0.map_values(
            |l: Seq<char>| strip_cr(l),
        ).push(strip_cr(prev.1)));
    }
    assert(views_of(closed@) =~= lines_of(t@));
    closed
}

/// The lines of `t` that are not empty.
pub open spec fn non_empty_lines_of(t: Seq<char>) -> Seq<Seq<char>> {
    lines_of(t).filter(|l: Seq<char>| l.len() > 0)
}

/// The non-empty lines of `t`, in order.
pub fn non_empty_lines(t: &str) -> (r: Vec<String>)
    ensures
        r@.map_values(|x: String| x@) == non_empty_lines_of(t@),
{
    let cs = chars_of(t);
    let lines = split_lines(&cs);
    let ghost ls = views_of(lines@);
    let mut r: Vec<String> = Vec::new();
    let mut i: usize = 0;
    while i < lines.len()
        invariant
            ls == views_of(lines@),
            ls == lines_of(t@),
            i <= lines.len(),
            r@.map_values(|x: String| x@) == ls.take(i as int).filter(|l: Seq<char>| l.len() > 0),
        decreases lines.len() - i,
    {
        assert(ls.take(i + 1) =~= ls.take(i as int).push(ls[i as int]));
        proof {
            ls.take(i as int).lemma_filter_push(ls[i as int], |l: Seq<char>| l.len() > 0);
        }
        assert(ls[i as int] == lines@[i as int]@);
        if lines[i].len() > 0 {
            let ghost before = r@;
            r.push(string_of(lines[i].as_slice()));
            assert(r@.map_values(|x: String| x@) =~= before.map_values(|x: String| x@).push(ls[i as int]));
        }
        i = i + 1;
    }
    assert(ls.take(i as int) =~= ls);
    r
}

/// The decimal digit for `d`.
pub open spec fn digit_char(d: nat) -> char {
    ((d + 48) as u8) as char
}

/// The decimal numeral of `n`, without leading zeros.
pub open spec fn decimal(n: nat) -> Seq<char>
    decreases n,
{
    if n < 10 {
        seq![digit_char(n)]
    } else {
        decimal(n / 10).push(digit_char(n % 10))
    }
}

/// Appends the decimal numeral of `n` to `out`.
pub fn push_decimal(out: &mut Vec<char>, n: usize)
    ensures
        final(out)@ == old(out)@ + decimal(n as nat),
    decreases n,
{
    if n >= 10 {
        push_decimal(out, n / 10);
    }
    let d: u8 = (n % 10) as u8;
    out.push((d + 48) as char);
    assert(final(out)@ =~= old(out)@ + decimal(n as nat));
}

} // verus!
