use vstd::prelude::*;

use crate::text::{chars_of, has_at, slice_string};

verus! {

/// The placeholder for the binding named `k`: `{{k}}`.
pub open spec fn marker(k: Seq<char>) -> Seq<char> {
    seq!['{', '{'] + k + seq!['}', '}']
}

/// Whether `t` starts with the placeholder for `k`.
pub open spec fn starts_with_marker(t: Seq<char>, k: Seq<char>) -> bool {
    marker(k).len() <= t.len() && t.take(marker(k).len() as int) == marker(k)
}

/// Binding `j` is the first whose placeholder starts `t`.
pub open spec fn first_match(t: Seq<char>, b: Seq<(Seq<char>, Seq<char>)>, j: int) -> bool {
    &&& 0 <= j < b.len()
    &&& starts_with_marker(t, b[j].0)
    &&& forall|i: int| 0 <= i < j ==> !starts_with_marker(t, b[i].0)
}

/// `t` with each placeholder of a binding replaced by its value, scanning
/// from the left; a value is never scanned again, and text that is no
/// placeholder of a binding (an unbound `{{NAME}}` too) stays as it is.
pub open spec fn substitute(t: Seq<char>, b: Seq<(Seq<char>, Seq<char>)>) -> Seq<char>
    decreases t.len(),
{
    if t.len() == 0 {
        Seq::empty()
    } else if exists|j: int| first_match(t, b, j) {
        let j = choose|j: int| first_match(t, b, j);
        b[j].1 + substitute(t.skip(marker(b[j].0).len() as int), b)
    } else {
        seq![t[0]] + substitute(t.drop_first(), b)
    }
}

pub open spec fn bindings_view(b: Seq<(String, String)>) -> Seq<(Seq<char>, Seq<char>)> {
    b.map_values(|p: (String, String)| (p.0@, p.1@))
}

/// The characters of the placeholder for `k`.
fn marker_chars(k: &str) -> (r: Vec<char>)
    ensures
        r@ == marker(k@),
{
    let mut m = String::from_str("{{");
    m.append(k);
    m.append("}}");
    proof {
        reveal_strlit("{{");
        reveal_strlit("}}");
        assert(m@ =~= marker(k@));
    }
    chars_of(m.as_str())
}

/// The first binding whose placeholder stands in `t` at `at`.
fn find_binding(t: &Vec<char>, at: usize, markers: &Vec<Vec<char>>, Ghost(b): Ghost<
    Seq<(Seq<char>, Seq<char>)>,
>) -> (r: Option<usize>)
    requires
        at < t.len(),
        markers.len() == b.len(),
        forall|j: int| 0 <= j < b.len() ==> markers@[j]@ == marker(#[trigger] b[j].0),
    ensures
        match r {
            Some(j) => first_match(t@.skip(at as int), b, j as int),
            None => forall|j: int| !first_match(t@.skip(at as int), b, j),
        },
{
    let ghost s = t@.skip(at as int);
    let mut j: usize = 0;
    while j < markers.len()
        invariant
            at < t.len(),
            s == t@.skip(at as int),
            j <= markers.len() == b.len(),
            forall|i: int| 0 <= i < b.len() ==> markers@[i]@ == marker(#[trigger] b[i].0),
            forall|i: int| 0 <= i < j ==> !starts_with_marker(s, b[i].0),
        decreases markers.len() - j,
    {
        let hit = has_at(t, at, &markers[j]);
        let ghost m = marker(b[j as int].0);
        assert(markers@[j as int]@ == m);
        proof {
            if m.len() <= s.len() {
                assert(s.take(m.len() as int) =~= t@.subrange(at as int, at + m.len()));
            }
        }
        if hit {
            return Some(j);
        }
        j = j + 1;
    }
    None
}

/// `template` with every placeholder `{{NAME}}` of a binding replaced by its
/// value. When two bindings share a name, the first counts.
pub fn format_template(template: &str, bindings: &Vec<(String, String)>) -> (r: String)
    ensures
        r@ == substitute(template@, bindings_view(bindings@)),
{
    let ghost b = bindings_view(bindings@);
    let t = chars_of(template);
    let mut markers: Vec<Vec<char>> = Vec::new();
    let mut k: usize = 0;
    while k < bindings.len()
        invariant
            k <= bindings.len(),
            b == bindings_view(bindings@),
            markers.len() == k,
            forall|j: int| 0 <= j < k ==> markers@[j]@ == marker(#[trigger] b[j].0),
        decreases bindings.len() - k,
    {
        markers.push(marker_chars(bindings[k].0.as_str()));
        k = k + 1;
    }
    let mut out = String::new();
    let mut run: usize = 0;
    let mut i: usize = 0;
    assert(t@.skip(0) =~= t@);
    assert(out@ + t@.subrange(0, 0) + substitute(t@, b) =~= substitute(t@, b));
    while i < t.len()
        invariant
            run <= i <= t.len(),
            t@ == template@,
            b == bindings_view(bindings@),
            markers.len() == b.len(),
            forall|j: int| 0 <= j < b.len() ==> markers@[j]@ == marker(#[trigger] b[j].0),
            out@ + t@.subrange(run as int, i as int) + substitute(t@.skip(i as int), b)
                == substitute(t@, b),
        decreases t.len() - i,
    {
        let ghost s = t@.skip(i as int);
        match find_binding(&t, i, &markers, Ghost(b)) {
            Some(j) => {
                let ghost m = marker(b[j as int].0);
                assert(first_match(s, b, j as int));
                assert(s.len() > 0);
                let ghost c = choose|c: int| first_match(s, b, c);
                assert(c == j) by {
                    if c < j {
                        assert(!starts_with_marker(s, b[c].0));
                    } else if j < c {
                        assert(!starts_with_marker(s, b[j as int].0));
                    }
                }
                assert(substitute(s, b) == b[j as int].1 + substitute(s.skip(m.len() as int), b));
                let ghost out0 = out@;
                let piece = slice_string(template, &t, run, i);
                out.append(piece.as_str());
                out.append(bindings[j].1.as_str());
                let len = markers[j].len();
                assert(s.skip(m.len() as int) =~= t@.skip(i + len));
                assert(t@.subrange(i + len, i + len) =~= Seq::<char>::empty());
                assert(out@ + t@.subrange(i + len, i + len) + substitute(t@.skip(i + len), b)
                    =~= out0 + t@.subrange(run as int, i as int) + (b[j as int].1 + substitute(
                    t@.skip(i + len),
                    b,
                )));
                i = i + len;
                run = i;
            },
            None => {
                assert(substitute(s, b) == seq![s[0]] + substitute(s.drop_first(), b));
                assert(s.drop_first() =~= t@.skip(i + 1));
                assert(t@.subrange(run as int, i as int) + seq![s[0]] =~= t@.subrange(
                    run as int,
                    i + 1,
                ));
                i = i + 1;
            },
        }
    }
    let rest = slice_string(template, &t, run, i);
    out.append(rest.as_str());
    assert(t@.skip(i as int) =~= Seq::<char>::empty());
    out
}


/// `s` holds no `{`, so no placeholder starts in it.
pub open spec fn no_open_brace(s: Seq<char>) -> bool {
    forall|i: int| 0 <= i < s.len() ==> s[i] != '{'
}

/// `s` holds no `}`.
pub open spec fn no_close_brace(s: Seq<char>) -> bool {
    forall|i: int| 0 <= i < s.len() ==> s[i] != '}'
}

/// No placeholder can start in `s`, whatever follows it: `s` holds no `{{`
/// and does not end with `{`.
#[verifier::opaque]
pub open spec fn no_marker_start(s: Seq<char>) -> bool {
    &&& forall|i: int| 0 <= i < s.len() - 1 ==> !(#[trigger] s[i] == '{' && s[i + 1] == '{')
    &&& s.len() > 0 ==> s.last() != '{'
}

/// Text without `{` is text in which no placeholder can start.
pub proof fn lemma_no_open_brace_no_marker(s: Seq<char>)
    requires
        no_open_brace(s),
    ensures
        no_marker_start(s),
{
    reveal(no_marker_start);
    if s.len() > 0 {
        assert(s.last() == s[s.len() - 1]);
    }
}

/// Text in which no placeholder can start is kept as it is.
pub proof fn lemma_literal_kept(a: Seq<char>, r: Seq<char>, b: Seq<(Seq<char>, Seq<char>)>)
    requires
        no_marker_start(a),
    ensures
        substitute(a + r, b) == a + substitute(r, b),
    decreases a.len(),
{
    reveal(no_marker_start);
    if a.len() == 0 {
        assert(a + r =~= r);
        assert(a + substitute(r, b) =~= substitute(r, b));
    } else {
        let t = a + r;
        assert(t[0] == a[0]);
        assert forall|j: int| !first_match(t, b, j) by {
            if first_match(t, b, j) {
                let m = marker(b[j].0);
                assert(t.take(m.len() as int)[0] == '{');
                assert(t.take(m.len() as int)[1] == '{');
                if a.len() >= 2 {
                    assert(t[1] == a[1]);
                } else {
                    assert(a.last() == a[0]);
                }
            }
        }
        let a1 = a.drop_first();
        assert forall|i: int| 0 <= i < a1.len() - 1 implies !(#[trigger] a1[i] == '{' && a1[i + 1]
            == '{') by {
            assert(a1[i] == a[i + 1] && a1[i + 1] == a[i + 2]);
        }
        if a1.len() > 0 {
            assert(a1.last() == a.last());
        }
        lemma_literal_kept(a1, r, b);
        assert(t.drop_first() =~= a.drop_first() + r);
        assert(a =~= seq![a[0]] + a.drop_first());
        assert(seq![a[0]] + (a.drop_first() + substitute(r, b)) =~= a + substitute(r, b));
    }
}

/// A placeholder starts with that of one name only, where names hold no `}`.
proof fn lemma_marker_names(k: Seq<char>, r: Seq<char>, k2: Seq<char>)
    requires
        no_close_brace(k),
        no_close_brace(k2),
        starts_with_marker(marker(k) + r, k2),
    ensures
        k2 == k,
{
    let t = marker(k) + r;
    let m2 = marker(k2);
    assert(t.take(m2.len() as int) == m2);
    let n = k.len() as int;
    let n2 = k2.len() as int;
    if n2 < n {
        assert(m2[2 + n2] == '}');
        assert(t[2 + n2] == k[n2]);
        assert(t.take(m2.len() as int)[2 + n2] == t[2 + n2]);
    } else if n2 > n {
        assert(m2[2 + n] == k2[n]);
        assert(t[2 + n] == '}');
        assert(t.take(m2.len() as int)[2 + n] == t[2 + n]);
    } else {
        assert forall|i: int| 0 <= i < k.len() implies k2[i] == k[i] by {
            assert(m2[2 + i] == k2[i]);
            assert(t[2 + i] == k[i]);
            assert(t.take(m2.len() as int)[2 + i] == t[2 + i]);
        }
        assert(k2 =~= k);
    }
}

/// The placeholder of a bound name is replaced by the value of the first
/// binding of that name, where no name holds `}`.
pub proof fn lemma_placeholder_replaced(
    k: Seq<char>,
    r: Seq<char>,
    b: Seq<(Seq<char>, Seq<char>)>,
    j: int,
)
    requires
        0 <= j < b.len(),
        b[j].0 == k,
        forall|i: int| 0 <= i < j ==> b[i].0 != k,
        forall|i: int| 0 <= i < b.len() ==> no_close_brace(#[trigger] b[i].0),
    ensures
        substitute(marker(k) + r, b) == b[j].1 + substitute(r, b),
{
    let t = marker(k) + r;
    assert(t.take(marker(k).len() as int) =~= marker(k));
    assert forall|i: int| 0 <= i < j implies !starts_with_marker(t, b[i].0) by {
        if starts_with_marker(t, b[i].0) {
            lemma_marker_names(k, r, b[i].0);
        }
    }
    assert(first_match(t, b, j));
    let c = choose|c: int| first_match(t, b, c);
    assert(c == j) by {
        if c < j {
            assert(!starts_with_marker(t, b[c].0));
        } else if c > j {
            assert(!starts_with_marker(t, b[j].0));
        }
    }
    assert(t.skip(marker(k).len() as int) =~= r);
}

} // verus!
