use vstd::prelude::*;

use crate::http::{pairs_view, HeaderSlots};
use crate::seqs::{first_index, lemma_first_index, lemma_first_index_at};
use crate::strs::{
    after_char, before_char, first_char_index, lemma_first_char_index, lemma_first_char_index_unique,
    split_once_char, str_eq,
};

verus! {

/// The `(name, value)` pair a cookie piece `name=value` stands for: the text before the first
/// `=` and the text between it and the next `=`; none when the piece holds no `=`.
pub open spec fn cookie_pair(piece: Seq<char>) -> Option<(Seq<char>, Seq<char>)> {
    match after_char(piece, '=') {
        Some(rest) => Some((before_char(piece, '='), before_char(rest, '='))),
        None => None,
    }
}

/// How much text a cookie scan has left.
pub open spec fn scan_size(rest: Option<Seq<char>>) -> nat {
    match rest {
        Some(s) => s.len() + 1,
        None => 0,
    }
}

/// The text after the first `c` is shorter than the text it was cut from.
pub proof fn lemma_after_char_shorter(s: Seq<char>, c: char)
    ensures
        after_char(s, c) matches Some(t) ==> t.len() < s.len(),
{
    lemma_first_char_index(s, c);
}

/// The cookies a scan of the remaining text `rest` yields: one per `;`-separated piece, up to
/// the first piece that holds no `=`.
pub open spec fn cookie_pairs_from(rest: Option<Seq<char>>) -> HeaderSlots
    decreases scan_size(rest),
{
    match rest {
        None => Seq::empty(),
        Some(s) => {
            proof {
                lemma_after_char_shorter(s, ';');
            }
            match cookie_pair(before_char(s, ';')) {
                Some(p) => seq![p] + cookie_pairs_from(after_char(s, ';')),
                None => Seq::empty(),
            }
        },
    }
}

/// The cookies of a `Cookie` header value.
pub open spec fn cookie_pairs(s: Seq<char>) -> HeaderSlots {
    cookie_pairs_from(Some(s))
}

/// A cookie named exactly `name`.
pub open spec fn key_pred(name: Seq<char>) -> spec_fn((Seq<char>, Seq<char>)) -> bool {
    |p: (Seq<char>, Seq<char>)| p.0 == name
}

/// The value of the first cookie named exactly `name`.
pub open spec fn spec_cookie_get(s: Seq<char>, name: Seq<char>) -> Option<Seq<char>> {
    let pairs = cookie_pairs(s);
    match first_index(pairs, key_pred(name)) {
        Some(i) => Some(pairs[i].1),
        None => None,
    }
}

/// The cookies not named `name`, in order.
pub open spec fn spec_cookie_remove(pairs: HeaderSlots, name: Seq<char>) -> HeaderSlots {
    pairs.filter(|p: (Seq<char>, Seq<char>)| p.0 != name)
}

/// The cookies not named `name`, followed by `(name, value)`.
pub open spec fn spec_cookie_set(pairs: HeaderSlots, name: Seq<char>, value: Seq<char>) -> HeaderSlots {
    spec_cookie_remove(pairs, name).push((name, value))
}

/// The pieces `;`, name, `=`, value of every cookie, in order.
pub open spec fn cookie_pieces(pairs: HeaderSlots) -> Seq<Seq<char>>
    decreases pairs.len(),
{
    if pairs.len() == 0 {
        Seq::empty()
    } else {
        cookie_pieces(pairs.drop_last()) + seq![";"@, pairs.last().0, "="@, pairs.last().1]
    }
}

/// The pieces of a `Cookie` header value holding `pairs`: those of `cookie_pieces` without the
/// leading `;`.
pub open spec fn spec_cookie_serialize(pairs: HeaderSlots) -> Seq<Seq<char>> {
    if pairs.len() == 0 {
        Seq::empty()
    } else {
        cookie_pieces(pairs).skip(1)
    }
}

/// A scan over the cookies of a `Cookie` header value.
pub struct CookieIterator<'a> {
    rest: Option<&'a str>,
}

impl<'a> CookieIterator<'a> {
    /// The text the scan has not consumed yet; none once it has consumed the last piece.
    pub closed spec fn rest(&self) -> Option<Seq<char>> {
        match self.rest {
            Some(s) => Some(s@),
            None => None,
        }
    }

    /// A scan over the cookies of `cookies`.
    pub fn new(cookies: &'a str) -> (r: Self)
        ensures
            r.rest() == Some(cookies@),
    {
        CookieIterator { rest: Some(cookies) }
    }

    /// Consumes the next `;`-separated piece and yields its cookie; none once the text is
    /// consumed or when the piece holds no `=`.
    pub fn next(&mut self) -> (r: Option<(&'a str, &'a str)>)
        ensures
            match old(self).rest() {
                None => r is None && final(self).rest() is None,
                Some(s) => {
                    &&& final(self).rest() == after_char(s, ';')
                    &&& r is Some == cookie_pair(before_char(s, ';')) is Some
                    &&& r matches Some(p) ==> cookie_pair(before_char(s, ';')) == Some((p.0@, p.1@))
                },
            },
    {
        match self.rest {
            None => None,
            Some(s) => {
                let (piece, rest) = split_once_char(s, ';');
                self.rest = rest;
                let (name, after) = split_once_char(piece, '=');
                match after {
                    Some(v) => {
                        let (value, _) = split_once_char(v, '=');
                        Some((name, value))
                    },
                    None => None,
                }
            },
        }
    }
}

/// The cookies of a `Cookie` header value.
pub struct Cookies<'a>(&'a str);

impl<'a> Cookies<'a> {
    /// The header value the cookies are read from.
    pub closed spec fn text(&self) -> Seq<char> {
        self.0@
    }

    /// The cookies of the header value `cookies_str`.
    pub fn new(cookies_str: &'a str) -> (r: Self)
        ensures
            r.text() == cookies_str@,
    {
        Cookies(cookies_str)
    }

    /// A scan over the cookies.
    pub fn into_iter(self) -> (r: CookieIterator<'a>)
        ensures
            r.rest() == Some(self.text()),
    {
        CookieIterator::new(self.0)
    }

    /// The value of the first cookie named exactly `name`.
    pub fn get(&self, name: &str) -> (r: Option<&'a str>)
        ensures
            r is Some == spec_cookie_get(self.text(), name@) is Some,
            r matches Some(v) ==> spec_cookie_get(self.text(), name@) == Some(v@),
    {
        let ghost all = cookie_pairs(self.0@);
        let mut it = CookieIterator::new(self.0);
        let ghost mut seen: HeaderSlots = Seq::empty();
        loop
            invariant
                all == cookie_pairs(self.0@),
                all == seen + cookie_pairs_from(it.rest()),
                forall|j: int| 0 <= j < seen.len() ==> !(#[trigger] key_pred(name@)(seen[j])),
            decreases scan_size(it.rest()),
        {
            let ghost before = it.rest();
            proof {
                if let Some(s) = before {
                    lemma_after_char_shorter(s, ';');
                }
            }
            match it.next() {
                None => {
                    proof {
                        assert(cookie_pairs_from(before) =~= Seq::<(Seq<char>, Seq<char>)>::empty());
                        assert(all =~= seen);
                        lemma_first_index_at(all, key_pred(name@), seen.len() as int);
                    }
                    return None;
                },
                Some((k, v)) => {
                    proof {
                        assert(cookie_pairs_from(before) =~= seq![(k@, v@)] + cookie_pairs_from(
                            it.rest(),
                        ));
                    }
                    if str_eq(k, name) {
                        proof {
                            assert(all[seen.len() as int] == (k@, v@));
                            lemma_first_index_at(all, key_pred(name@), seen.len() as int);
                        }
                        return Some(v);
                    }
                    proof {
                        seen = seen.push((k@, v@));
                        assert(all =~= seen + cookie_pairs_from(it.rest()));
                    }
                },
            }
        }
    }

    /// The cookies of `iter` not named `name`, followed by `(name, value)`.
    pub fn set<'b>(iter: Vec<(&'b str, &'b str)>, name: &'b str, value: &'b str) -> (r: Vec<
        (&'b str, &'b str),
    >)
        ensures
            pairs_view(r@) == spec_cookie_set(pairs_view(iter@), name@, value@),
    {
        let mut r = Self::remove(iter, name);
        r.push((name, value));
        assert(pairs_view(r@) =~= spec_cookie_set(pairs_view(iter@), name@, value@));
        r
    }

    /// The cookies of `iter` not named `name`.
    pub fn remove<'b>(iter: Vec<(&'b str, &'b str)>, name: &'b str) -> (r: Vec<(&'b str, &'b str)>)
        ensures
            pairs_view(r@) == spec_cookie_remove(pairs_view(iter@), name@),
    {
        let mut r: Vec<(&'b str, &'b str)> = Vec::new();
        let mut i: usize = 0;
        let ghost p = pairs_view(iter@);
        while i < iter.len()
            invariant
                i <= iter@.len(),
                p == pairs_view(iter@),
                pairs_view(r@) == spec_cookie_remove(p.take(i as int), name@),
            decreases iter@.len() - i,
        {
            let e = iter[i];
            proof {
                assert(p.take(i + 1).drop_last() =~= p.take(i as int));
                reveal(Seq::filter);
            }
            if !str_eq(e.0, name) {
                r.push(e);
            }
            assert(pairs_view(r@) =~= spec_cookie_remove(p.take(i + 1), name@));
            i += 1;
        }
        assert(p.take(i as int) =~= p);
        r
    }

    /// The pieces of a `Cookie` header value holding the cookies of `iter`:
    /// `name`, `=`, `value`, with `;` between consecutive cookies.
    pub fn serialize<'b>(iter: Vec<(&'b str, &'b str)>) -> (r: Vec<&'b str>)
        ensures
            r@.map_values(|s: &'b str| s@) == spec_cookie_serialize(pairs_view(iter@)),
    {
        let ghost p = pairs_view(iter@);
        let mut all: Vec<&'b str> = Vec::new();
        let mut i: usize = 0;
        while i < iter.len()
            invariant
                i <= iter@.len(),
                p == pairs_view(iter@),
                all@.map_values(|s: &'b str| s@) == cookie_pieces(p.take(i as int)),
            decreases iter@.len() - i,
        {
            let e = iter[i];
            all.push(";");
            all.push(e.0);
            all.push("=");
            all.push(e.1);
            proof {
                assert(p.take(i + 1).drop_last() =~= p.take(i as int));
                assert(all@.map_values(|s: &'b str| s@) =~= cookie_pieces(p.take(i + 1)));
            }
            i += 1;
        }
        assert(p.take(i as int) =~= p);
        if all.len() == 0 {
            assert(all@.map_values(|s: &'b str| s@) =~= spec_cookie_serialize(p));
            return all;
        }
        let mut r: Vec<&'b str> = Vec::new();
        let mut k: usize = 1;
        while k < all.len()
            invariant
                1 <= k <= all@.len(),
                all@.len() > 0,
                r@.len() == k - 1,
                forall|j: int| 0 <= j < r@.len() ==> r@[j] == all@[j + 1],
            decreases all@.len() - k,
        {
            r.push(all[k]);
            k += 1;
        }
        assert(r@.map_values(|s: &'b str| s@) =~= all@.map_values(|s: &'b str| s@).skip(1));
        assert(p.len() > 0) by {
            if p.len() == 0 {
                assert(cookie_pieces(p) =~= Seq::<Seq<char>>::empty());
            }
        }
        assert(r@.map_values(|s: &'b str| s@) =~= spec_cookie_serialize(p));
        r
    }
}

/// The text made of `pieces` put end to end.
pub open spec fn concat_pieces(pieces: Seq<Seq<char>>) -> Seq<char>
    decreases pieces.len(),
{
    if pieces.len() == 0 {
        Seq::empty()
    } else {
        concat_pieces(pieces.drop_last()) + pieces.last()
    }
}

/// The `Cookie` header value holding `pairs`.
pub open spec fn cookie_text(pairs: HeaderSlots) -> Seq<char> {
    concat_pieces(spec_cookie_serialize(pairs))
}

/// A name or value that can stand in a `Cookie` header value: it holds no `;` and no `=`.
pub open spec fn plain_cookie_text(s: Seq<char>) -> bool {
    forall|i: int| 0 <= i < s.len() ==> s[i] != ';' && s[i] != '='
}

proof fn lemma_concat_pieces_append(a: Seq<Seq<char>>, b: Seq<Seq<char>>)
    ensures
        concat_pieces(a + b) == concat_pieces(a) + concat_pieces(b),
    decreases b.len(),
{
    if b.len() == 0 {
        assert(a + b =~= a);
        assert(concat_pieces(b) =~= Seq::<char>::empty());
        assert(concat_pieces(a) + concat_pieces(b) =~= concat_pieces(a));
    } else {
        lemma_concat_pieces_append(a, b.drop_last());
        assert((a + b).drop_last() =~= a + b.drop_last());
        assert((a + b).last() == b.last());
        assert(concat_pieces(a) + concat_pieces(b) =~= concat_pieces(a) + concat_pieces(b.drop_last())
            + b.last());
    }
}

proof fn lemma_concat_one(a: Seq<char>)
    ensures
        concat_pieces(seq![a]) == a,
{
    assert(seq![a].drop_last() =~= Seq::<Seq<char>>::empty());
    assert(concat_pieces(Seq::<Seq<char>>::empty()) =~= Seq::<char>::empty());
    assert(Seq::<char>::empty() + a =~= a);
}

proof fn lemma_concat_three(a: Seq<char>, b: Seq<char>, c: Seq<char>)
    ensures
        concat_pieces(seq![a, b, c]) == a + b + c,
{
    lemma_concat_one(a);
    lemma_concat_one(b);
    lemma_concat_one(c);
    lemma_concat_pieces_append(seq![a], seq![b]);
    assert(seq![a] + seq![b] =~= seq![a, b]);
    lemma_concat_pieces_append(seq![a, b], seq![c]);
    assert(seq![a, b] + seq![c] =~= seq![a, b, c]);
}

proof fn lemma_cookie_pieces_first(p: HeaderSlots)
    requires
        p.len() > 0,
    ensures
        cookie_pieces(p) == seq![";"@, p[0].0, "="@, p[0].1] + cookie_pieces(p.drop_first()),
    decreases p.len(),
{
    if p.len() == 1 {
        assert(p.drop_last() =~= Seq::<(Seq<char>, Seq<char>)>::empty());
        assert(p.drop_first() =~= Seq::<(Seq<char>, Seq<char>)>::empty());
        assert(cookie_pieces(p.drop_first()) =~= Seq::<Seq<char>>::empty());
        assert(cookie_pieces(p.drop_last()) =~= Seq::<Seq<char>>::empty());
        assert(cookie_pieces(p) =~= seq![";"@, p[0].0, "="@, p[0].1] + cookie_pieces(p.drop_first()));
    } else {
        lemma_cookie_pieces_first(p.drop_last());
        assert(p.drop_last().drop_first() =~= p.drop_first().drop_last());
        assert(p.drop_first().last() == p.last());
        assert(cookie_pieces(p) =~= seq![";"@, p[0].0, "="@, p[0].1] + cookie_pieces(p.drop_first()));
    }
}

proof fn lemma_char_not_in(a: Seq<char>, c: char)
    requires
        forall|i: int| 0 <= i < a.len() ==> a[i] != c,
    ensures
        first_char_index(a, c) is None,
        before_char(a, c) == a,
        after_char(a, c) is None,
{
    lemma_first_char_index_unique(a, c, a.len() as int);
}

proof fn lemma_char_first_at(a: Seq<char>, c: char, b: Seq<char>)
    requires
        forall|i: int| 0 <= i < a.len() ==> a[i] != c,
    ensures
        before_char(a + seq![c] + b, c) == a,
        after_char(a + seq![c] + b, c) == Some(b),
{
    let s = a + seq![c] + b;
    assert forall|j: int| 0 <= j < a.len() implies s[j] != c by {
        assert(s[j] == a[j]);
    }
    lemma_first_char_index_unique(s, c, a.len() as int);
    assert(s.take(a.len() as int) =~= a);
    assert(s.skip(a.len() as int + 1) =~= b);
}

/// The text of cookies put one after another: the first cookie's `name=value`, then, when
/// more follow, `;` and their text.
proof fn lemma_cookie_text_first(p: HeaderSlots)
    requires
        p.len() > 0,
    ensures
        cookie_text(p) == p[0].0 + seq!['='] + p[0].1 + (if p.len() > 1 {
            seq![';'] + cookie_text(p.drop_first())
        } else {
            Seq::<char>::empty()
        }),
{
    reveal_strlit(";");
    reveal_strlit("=");
    assert(";"@ =~= seq![';']);
    assert("="@ =~= seq!['=']);
    lemma_cookie_pieces_first(p);
    let rest = p.drop_first();
    let tail = cookie_pieces(rest);
    assert(cookie_pieces(p).skip(1) =~= seq![p[0].0, "="@, p[0].1] + tail);
    lemma_concat_pieces_append(seq![p[0].0, "="@, p[0].1], tail);
    lemma_concat_three(p[0].0, "="@, p[0].1);
    if p.len() > 1 {
        lemma_cookie_pieces_first(rest);
        assert(tail =~= seq![";"@] + tail.skip(1));
        lemma_concat_pieces_append(seq![";"@], tail.skip(1));
        lemma_concat_one(";"@);
    } else {
        assert(rest =~= Seq::<(Seq<char>, Seq<char>)>::empty());
        assert(tail =~= Seq::<Seq<char>>::empty());
    }
}

/// Reading back the `Cookie` header value written for plain cookies gives those cookies.
pub proof fn lemma_cookie_text_roundtrip(p: HeaderSlots)
    requires
        forall|i: int| 0 <= i < p.len() ==> plain_cookie_text((#[trigger] p[i]).0) && plain_cookie_text(p[i].1),
    ensures
        cookie_pairs(cookie_text(p)) == p,
    decreases p.len(),
{
    if p.len() > 0 {
        let k = p[0].0;
        let v = p[0].1;
        assert(plain_cookie_text(k) && plain_cookie_text(v));
        lemma_cookie_text_first(p);
        let s = cookie_text(p);
        let piece = k + seq!['='] + v;
        lemma_char_first_at(k, '=', v);
        lemma_char_not_in(v, '=');
        assert(cookie_pair(piece) == Some((k, v)));
        if p.len() > 1 {
            let rest = p.drop_first();
            assert forall|i: int| 0 <= i < rest.len() implies plain_cookie_text((#[trigger] rest[i]).0)
                && plain_cookie_text(rest[i].1) by {
                assert(rest[i] == p[i + 1]);
            }
            lemma_cookie_text_roundtrip(rest);
            assert forall|i: int| 0 <= i < piece.len() implies piece[i] != ';' by {
                if i < k.len() {
                    assert(piece[i] == k[i]);
                } else if i > k.len() {
                    assert(piece[i] == v[i - k.len() - 1]);
                }
            }
            assert(s =~= piece + seq![';'] + cookie_text(rest));
            lemma_char_first_at(piece, ';', cookie_text(rest));
            assert(cookie_pairs(s) =~= seq![(k, v)] + rest);
            assert(seq![(k, v)] + rest =~= p);
        } else {
            assert(s =~= piece);
            assert forall|i: int| 0 <= i < piece.len() implies piece[i] != ';' by {
                if i < k.len() {
                    assert(piece[i] == k[i]);
                } else if i > k.len() {
                    assert(piece[i] == v[i - k.len() - 1]);
                }
            }
            lemma_char_not_in(piece, ';');
            assert(cookie_pairs_from(None) =~= Seq::<(Seq<char>, Seq<char>)>::empty());
            assert(cookie_pairs(s) =~= seq![(k, v)]);
            assert(seq![(k, v)] =~= p);
        }
    }
}

/// After a cookie is set, the first cookie with its name holds the value it was set to.
pub proof fn lemma_cookie_set_then_get(p: HeaderSlots, name: Seq<char>, value: Seq<char>)
    ensures
        ({
            let q = spec_cookie_set(p, name, value);
            &&& first_index(q, key_pred(name)) == Some(q.len() - 1)
            &&& q[q.len() - 1].1 == value
        }),
{
    let r = spec_cookie_remove(p, name);
    let q = spec_cookie_set(p, name, value);
    assert forall|j: int| 0 <= j < r.len() implies !key_pred(name)(#[trigger] r[j]) by {
        broadcast use vstd::seq_lib::group_filter_ensures;
        assert(r[j].0 != name);
    }
    assert forall|j: int| 0 <= j < q.len() - 1 implies !key_pred(name)(#[trigger] q[j]) by {
        assert(q[j] == r[j]);
    }
    lemma_first_index_at(q, key_pred(name), q.len() - 1);
}

} // verus!
