//! Response headers as an ordered list of (name, value) pairs. Names are
//! compared without regard to the case of ASCII letters. A header may occur
//! several times (`Set-Cookie`, `Vary`); `insert` leaves exactly one.

use vstd::prelude::*;
use crate::response_meta::pairs;
use crate::text::{chars_of, eq_ignore_case, same_ignoring_case};

verus! {

/// The mathematical model of a header list.
pub type HeaderSeq = Seq<(Seq<char>, Seq<char>)>;

/// A character that may stand in a header value: a tab or visible ASCII.
pub open spec fn header_char(c: char) -> bool {
    c == '\t' || (32 <= c as u32 && (c as u32) < 127)
}

/// Text that can be sent as the value of a header.
pub open spec fn header_text_ok(s: Seq<char>) -> bool {
    forall|i: int| 0 <= i < s.len() ==> header_char(#[trigger] s[i])
}

/// Some header of the list has the given name.
pub open spec fn has_header(h: HeaderSeq, name: Seq<char>) -> bool {
    exists|i: int| 0 <= i < h.len() && eq_ignore_case((#[trigger] h[i]).0, name)
}

/// The value of the first header with the given name.
pub open spec fn header_value(h: HeaderSeq, name: Seq<char>) -> Option<Seq<char>>
    decreases h.len(),
{
    if h.len() == 0 {
        None
    } else if eq_ignore_case(h[0].0, name) {
        Some(h[0].1)
    } else {
        header_value(h.drop_first(), name)
    }
}

/// The list without the headers of the given name; the others keep their
/// order.
pub open spec fn without_header(h: HeaderSeq, name: Seq<char>) -> HeaderSeq
    decreases h.len(),
{
    if h.len() == 0 {
        h
    } else if eq_ignore_case(h.last().0, name) {
        without_header(h.drop_last(), name)
    } else {
        without_header(h.drop_last(), name).push(h.last())
    }
}

/// The list after `insert`: the headers of that name are gone and one with
/// the new value stands at the end.
pub open spec fn with_header(h: HeaderSeq, name: Seq<char>, value: Seq<char>) -> HeaderSeq {
    without_header(h, name).push((name, value))
}

/// `header_value` finds the first header of the name, and only if there is one.
pub proof fn lemma_header_value(h: HeaderSeq, name: Seq<char>, i: int)
    requires
        0 <= i <= h.len(),
        forall|j: int| 0 <= j < i ==> !eq_ignore_case((#[trigger] h[j]).0, name),
        i < h.len() ==> eq_ignore_case(h[i].0, name),
    ensures
        header_value(h, name) == (if i < h.len() {
            Some(h[i].1)
        } else {
            None
        }),
    decreases h.len(),
{
    if h.len() == 0 {
    } else if i == 0 {
    } else {
        let t = h.drop_first();
        assert(!eq_ignore_case(h[0].0, name));
        assert forall|j: int| 0 <= j < i - 1 implies !eq_ignore_case((#[trigger] t[j]).0, name) by {
            assert(t[j] == h[j + 1]);
        }
        lemma_header_value(t, name, i - 1);
    }
}

/// A list from which a name was removed holds no header of that name, and
/// removing a name that does not occur changes nothing.
pub proof fn lemma_without_header(h: HeaderSeq, name: Seq<char>)
    ensures
        !has_header(without_header(h, name), name),
        !has_header(h, name) ==> without_header(h, name) == h,
        without_header(h, name).len() <= h.len(),
    decreases h.len(),
{
    if h.len() > 0 {
        let t = h.drop_last();
        lemma_without_header(t, name);
        let w = without_header(h, name);
        let wt = without_header(t, name);
        assert forall|i: int| 0 <= i < w.len() implies !eq_ignore_case((#[trigger] w[i]).0, name) by {
            if i < wt.len() {
                assert(w[i] == wt[i]);
            }
        }
        if !has_header(h, name) {
            assert(!eq_ignore_case(h[h.len() - 1].0, name));
            assert forall|i: int| 0 <= i < t.len() implies !eq_ignore_case((#[trigger] t[i]).0, name) by {
                assert(t[i] == h[i]);
            }
            assert(w =~= h);
        }
    }
}

/// Decides whether `s` can be sent as the value of a header.
pub fn is_header_text(s: &str) -> (r: bool)
    ensures
        r == header_text_ok(s@),
{
    let chars = chars_of(s);
    let mut i: usize = 0;
    while i < chars.len()
        invariant
            i <= chars.len(),
            chars@ == s@,
            forall|j: int| 0 <= j < i ==> header_char(#[trigger] chars@[j]),
        decreases chars.len() - i,
    {
        let c = chars[i];
        let code: u32 = c as u32;
        if !(c == '\t' || (32 <= code && code < 127)) {
            assert(!header_char(s@[i as int]));
            return false;
        }
        i += 1;
    }
    true
}

/// Finds the first header with the given name.
pub fn header_index(h: &Vec<(String, String)>, name: &str) -> (r: Option<usize>)
    ensures
        match r {
            Some(i) => i < h.len() && eq_ignore_case(h@[i as int].0@, name@) && forall|j: int|
                0 <= j < i ==> !eq_ignore_case((#[trigger] h@[j]).0@, name@),
            None => !has_header(pairs(h@), name@),
        },
        r is Some <==> has_header(pairs(h@), name@),
{
    let wanted = chars_of(name);
    let mut i: usize = 0;
    while i < h.len()
        invariant
            i <= h.len(),
            wanted@ == name@,
            forall|j: int| 0 <= j < i ==> !eq_ignore_case((#[trigger] h@[j]).0@, name@),
        decreases h.len() - i,
    {
        let this = chars_of(h[i].0.as_str());
        if same_ignoring_case(this.as_slice(), wanted.as_slice()) {
            assert(eq_ignore_case(pairs(h@)[i as int].0, name@));
            return Some(i);
        }
        i += 1;
    }
    assert forall|j: int| 0 <= j < pairs(h@).len() implies !eq_ignore_case(
        (#[trigger] pairs(h@)[j]).0,
        name@,
    ) by {
        assert(pairs(h@)[j].0 == h@[j].0@);
    }
    None
}

/// The value of the first header with the given name.
pub fn header_get<'a>(h: &'a Vec<(String, String)>, name: &str) -> (r: Option<&'a String>)
    ensures
        opt_view(r) == header_value(pairs(h@), name@),
        r is Some <==> has_header(pairs(h@), name@),
{
    match header_index(h, name) {
        Some(i) => {
            proof {
                let p = pairs(h@);
                assert forall|j: int| 0 <= j < i implies !eq_ignore_case((#[trigger] p[j]).0, name@) by {
                    assert(p[j].0 == h@[j].0@);
                }
                lemma_header_value(p, name@, i as int);
            }
            Some(&h[i].1)
        },
        None => {
            proof {
                let p = pairs(h@);
                lemma_header_value(p, name@, p.len() as int);
            }
            None
        },
    }
}

/// The text that an optional reference to a string holds.
pub open spec fn opt_view(s: Option<&String>) -> Option<Seq<char>> {
    match s {
        Some(t) => Some(t@),
        None => None,
    }
}

/// Adds a header at the end of the list, beside any of the same name.
pub fn header_append(h: &mut Vec<(String, String)>, name: &str, value: &str)
    ensures
        pairs(final(h)@) == pairs(old(h)@).push((name@, value@)),
{
    h.push((name.to_owned(), value.to_owned()));
    assert(pairs(h@) =~= pairs(old(h)@).push((name@, value@)));
}

/// Sets a header: every header of that name is removed and one with the new
/// value is added at the end.
pub fn header_insert(h: &mut Vec<(String, String)>, name: &str, value: &str)
    ensures
        pairs(final(h)@) == with_header(pairs(old(h)@), name@, value@),
{
    let wanted = chars_of(name);
    let mut kept: Vec<(String, String)> = Vec::new();
    let mut i: usize = 0;
    assert(pairs(h@).take(0) =~= Seq::empty());
    assert(pairs(kept@) =~= Seq::empty());
    while i < h.len()
        invariant
            i <= h.len(),
            wanted@ == name@,
            h@ == old(h)@,
            pairs(kept@) == without_header(pairs(h@).take(i as int), name@),
        decreases h.len() - i,
    {
        let ghost before = pairs(h@).take(i as int);
        let ghost upto = pairs(h@).take(i + 1);
        proof {
            assert(upto.drop_last() =~= before);
            assert(upto.last() == (h@[i as int].0@, h@[i as int].1@));
        }
        let this = chars_of(h[i].0.as_str());
        if !same_ignoring_case(this.as_slice(), wanted.as_slice()) {
            let ghost old_kept = pairs(kept@);
            kept.push((h[i].0.clone(), h[i].1.clone()));
            assert(pairs(kept@) =~= old_kept.push(upto.last()));
        }
        i += 1;
    }
    assert(pairs(h@).take(h.len() as int) =~= pairs(h@));
    let ghost filtered = pairs(kept@);
    kept.push((name.to_owned(), value.to_owned()));
    assert(pairs(kept@) =~= filtered.push((name@, value@)));
    *h = kept;
}

/// A list without a header of the name has no value for it.
pub proof fn lemma_absent_header(h: HeaderSeq, name: Seq<char>)
    requires
        !has_header(h, name),
    ensures
        header_value(h, name) is None,
{
    assert forall|j: int| 0 <= j < h.len() implies !eq_ignore_case((#[trigger] h[j]).0, name) by {}
    lemma_header_value(h, name, h.len() as int);
}

/// A header added at the end is found only if none of its name stood before.
pub proof fn lemma_value_after_push(h: HeaderSeq, p: (Seq<char>, Seq<char>), name: Seq<char>)
    ensures
        header_value(h.push(p), name) == (match header_value(h, name) {
            Some(v) => Some(v),
            None => if eq_ignore_case(p.0, name) {
                Some(p.1)
            } else {
                None
            },
        }),
    decreases h.len(),
{
    let hp = h.push(p);
    if h.len() == 0 {
        assert(hp.drop_first() =~= h);
    } else {
        assert(hp[0] == h[0]);
        if !eq_ignore_case(h[0].0, name) {
            assert(hp.drop_first() =~= h.drop_first().push(p));
            lemma_value_after_push(h.drop_first(), p, name);
        }
    }
}

/// Removing the headers of one name leaves the value of every other name.
pub proof fn lemma_value_without_other(h: HeaderSeq, removed: Seq<char>, name: Seq<char>)
    requires
        !eq_ignore_case(removed, name),
    ensures
        header_value(without_header(h, removed), name) == header_value(h, name),
    decreases h.len(),
{
    if h.len() > 0 {
        let t = h.drop_last();
        let l = h.last();
        assert(h =~= t.push(l));
        lemma_value_without_other(t, removed, name);
        lemma_value_after_push(t, l, name);
        if !eq_ignore_case(l.0, removed) {
            lemma_value_after_push(without_header(t, removed), l, name);
        }
    }
}

/// After `insert` the header has the new value.
pub proof fn lemma_value_after_insert(h: HeaderSeq, name: Seq<char>, value: Seq<char>)
    ensures
        header_value(with_header(h, name, value), name) == Some(value),
{
    lemma_without_header(h, name);
    lemma_absent_header(without_header(h, name), name);
    lemma_value_after_push(without_header(h, name), (name, value), name);
}

/// `insert` under one name leaves the value of every other name.
pub proof fn lemma_value_after_other_insert(
    h: HeaderSeq,
    set: Seq<char>,
    value: Seq<char>,
    name: Seq<char>,
)
    requires
        !eq_ignore_case(set, name),
    ensures
        header_value(with_header(h, set, value), name) == header_value(h, name),
{
    lemma_value_without_other(h, set, name);
    lemma_value_after_push(without_header(h, set), (set, value), name);
}

/// Removes every header of the given name.
pub fn header_remove(h: &mut Vec<(String, String)>, name: &str)
    ensures
        pairs(final(h)@) == without_header(pairs(old(h)@), name@),
{
    let wanted = chars_of(name);
    let mut kept: Vec<(String, String)> = Vec::new();
    let mut i: usize = 0;
    assert(pairs(h@).take(0) =~= Seq::empty());
    assert(pairs(kept@) =~= Seq::empty());
    while i < h.len()
        invariant
            i <= h.len(),
            wanted@ == name@,
            h@ == old(h)@,
            pairs(kept@) == without_header(pairs(h@).take(i as int), name@),
        decreases h.len() - i,
    {
        let ghost before = pairs(h@).take(i as int);
        let ghost upto = pairs(h@).take(i + 1);
        proof {
            assert(upto.drop_last() =~= before);
            assert(upto.last() == (h@[i as int].0@, h@[i as int].1@));
        }
        let this = chars_of(h[i].0.as_str());
        if !same_ignoring_case(this.as_slice(), wanted.as_slice()) {
            let ghost old_kept = pairs(kept@);
            kept.push((h[i].0.clone(), h[i].1.clone()));
            assert(pairs(kept@) =~= old_kept.push(upto.last()));
        }
        i += 1;
    }
    assert(pairs(h@).take(h.len() as int) =~= pairs(h@));
    *h = kept;
}

} // verus!
