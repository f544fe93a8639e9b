//! Reading the guest cookie: a guest's short links are tied to the UUID in the
//! `guest_id` cookie until the guest signs up.
use vstd::prelude::*;

use crate::ids::{
    is_uuid_char, lemma_uuid_hyphenated_chars, lemma_uuid_round_trip, parse_uuid, uuid_hyphenated, uuid_hyphenated_string,
    uuid_parsed,
};
use crate::text::{
    chars_eq_str, chars_of, concat, is_white_space, string_from_chars, trim, trim_chars, trim_end,
    trim_start,
};

verus! {

broadcast use vstd::string::group_string_axioms;

/// The pieces of `s` between the occurrences of `sep`, as `str::split` yields
/// them: there is always at least one, and empty pieces are kept.
pub open spec fn split_on(s: Seq<char>, sep: char) -> Seq<Seq<char>>
    decreases s.len(),
{
    if s.len() == 0 {
        seq![Seq::empty()]
    } else {
        let p = split_on(s.drop_last(), sep);
        if s.last() == sep {
            p.push(Seq::empty())
        } else {
            p.update(p.len() - 1, p.last().push(s.last()))
        }
    }
}

pub proof fn lemma_split_nonempty(s: Seq<char>, sep: char)
    ensures
        split_on(s, sep).len() >= 1,
    decreases s.len(),
{
    if s.len() > 0 {
        lemma_split_nonempty(s.drop_last(), sep);
    }
}

/// Text with no `sep` in it is a single piece.
pub proof fn lemma_split_without_sep(s: Seq<char>, sep: char)
    requires
        forall|i: int| 0 <= i < s.len() ==> #[trigger] s[i] != sep,
    ensures
        split_on(s, sep) == seq![s],
    decreases s.len(),
{
    if s.len() > 0 {
        lemma_split_without_sep(s.drop_last(), sep);
        assert(s.drop_last().push(s.last()) =~= s);
        assert(seq![s.drop_last()].update(0, s) =~= seq![s]);
    } else {
        assert(s =~= Seq::<char>::empty());
    }
}

/// Appending text with no `sep` in it extends the last piece.
pub proof fn lemma_split_extend(p: Seq<char>, t: Seq<char>, sep: char)
    requires
        forall|i: int| 0 <= i < t.len() ==> #[trigger] t[i] != sep,
    ensures
        split_on(p + t, sep) == split_on(p, sep).update(
            split_on(p, sep).len() - 1,
            split_on(p, sep).last() + t,
        ),
    decreases t.len(),
{
    let r = split_on(p, sep);
    lemma_split_nonempty(p, sep);
    if t.len() == 0 {
        assert(p + t =~= p);
        assert(r.last() + t =~= r.last());
        assert(r.update(r.len() - 1, r.last() + t) =~= r);
    } else {
        lemma_split_extend(p, t.drop_last(), sep);
        assert((p + t).drop_last() =~= p + t.drop_last());
        assert((p + t).last() == t.last());
        let q = split_on(p + t.drop_last(), sep);
        assert(q.last() == r.last() + t.drop_last());
        assert(q.last().push(t.last()) =~= r.last() + t);
        assert(q.update(q.len() - 1, q.last().push(t.last())) =~= r.update(
            r.len() - 1,
            r.last() + t,
        ));
    }
}

/// The pair a browser sends back for the guest cookie of `id` names `id`.
pub proof fn law_guest_pair_read_back(id: u128)
    ensures
        guest_id_of(Some("guest_id="@ + uuid_hyphenated(id))) == Some(id),
{
    lemma_uuid_round_trip(id);
    reveal_strlit("guest_id=");
    reveal_strlit("guest_id");
    let u = uuid_hyphenated(id);
    lemma_uuid_hyphenated_chars(id);
    let name = "guest_id"@;
    let h = "guest_id="@ + u;
    assert(h =~= name.push('=') + u);
    assert(h.len() == 45);
    assert forall|i: int| 0 <= i < h.len() implies #[trigger] h[i] != ';' by {
        if i >= 9 {
            assert(h[i] == u[i - 9]);
            assert(is_uuid_char(u[i - 9]));
        }
    }
    lemma_split_without_sep(h, ';');
    // No white space at either end.
    assert(!is_white_space(h[0]));
    assert(trim_start(h) == h);
    assert(h.last() == u[35]);
    assert(is_uuid_char(u[35]));
    assert(trim_end(h) == h);
    assert(trim(h) == h);
    // Splitting at '=' gives the name and the UUID.
    assert forall|i: int| 0 <= i < u.len() implies #[trigger] u[i] != '=' by {
        assert(is_uuid_char(u[i]));
    }
    assert forall|i: int| 0 <= i < name.len() implies #[trigger] name[i] != '=' by {}
    lemma_split_without_sep(name, '=');
    assert(name.push('=').drop_last() =~= name);
    assert(split_on(name.push('='), '=') =~= seq![name, Seq::<char>::empty()]);
    lemma_split_extend(name.push('='), u, '=');
    assert(Seq::<char>::empty() + u =~= u);
    assert(split_on(h, '=') =~= seq![name, u]);
    assert(guest_value(h) == Some(u));
    assert(seq![h].drop_first() =~= Seq::<Seq<char>>::empty());
    assert(first_guest_value(seq![h]) == Some(u));
}

/// The views of a sequence of character vectors.
pub open spec fn views(p: Seq<Vec<char>>) -> Seq<Seq<char>> {
    p.map_values(|x: Vec<char>| x@)
}

/// Splits `v` at every `sep`.
pub fn split_chars(v: &[char], sep: char) -> (r: Vec<Vec<char>>)
    ensures
        views(r@) == split_on(v@, sep),
{
    let mut pieces: Vec<Vec<char>> = Vec::new();
    let mut cur: Vec<char> = Vec::new();
    let mut i: usize = 0;
    assert(v@.take(0) =~= Seq::<char>::empty());
    while i < v.len()
        invariant
            i <= v@.len(),
            views(pieces@).push(cur@) == split_on(v@.take(i as int), sep),
        decreases v@.len() - i,
    {
        let ghost before = views(pieces@).push(cur@);
        proof {
            lemma_split_nonempty(v@.take(i as int), sep);
            assert(v@.take(i + 1).drop_last() =~= v@.take(i as int));
            assert(v@.take(i + 1).last() == v@[i as int]);
        }
        if v[i] == sep {
            pieces.push(cur);
            cur = Vec::new();
            assert(views(pieces@).push(cur@) =~= before.push(Seq::empty()));
        } else {
            cur.push(v[i]);
            assert(views(pieces@).push(cur@) =~= before.update(
                before.len() - 1,
                before.last().push(v@[i as int]),
            ));
        }
        i = i + 1;
    }
    assert(v@.take(v@.len() as int) =~= v@);
    pieces.push(cur);
    assert(views(pieces@) =~= split_on(v@, sep));
    pieces
}

/// The value of a `guest_id=<value>` cookie pair (white space around the pair
/// is ignored; a pair with more or fewer than one `=` is no guest pair).
pub open spec fn guest_value(pair: Seq<char>) -> Option<Seq<char>> {
    let parts = split_on(trim(pair), '=');
    if parts.len() == 2 && parts[0] == "guest_id"@ {
        Some(parts[1])
    } else {
        None
    }
}

/// The value of the first guest pair among `pairs`.
pub open spec fn first_guest_value(pairs: Seq<Seq<char>>) -> Option<Seq<char>>
    decreases pairs.len(),
{
    if pairs.len() == 0 {
        None
    } else if guest_value(pairs[0]) is Some {
        guest_value(pairs[0])
    } else {
        first_guest_value(pairs.drop_first())
    }
}

/// The guest UUID a `Cookie` header carries: the first `guest_id` pair decides,
/// and its value must parse as a UUID.
pub open spec fn guest_id_of(header: Option<Seq<char>>) -> Option<u128> {
    match header {
        None => None,
        Some(h) => match first_guest_value(split_on(h, ';')) {
            None => None,
            Some(v) => uuid_parsed(v),
        },
    }
}

/// The UUIDs of all guest pairs whose value parses, in order.
pub open spec fn all_guest_ids(pairs: Seq<Seq<char>>) -> Seq<u128>
    decreases pairs.len(),
{
    if pairs.len() == 0 {
        Seq::empty()
    } else {
        let rest = all_guest_ids(pairs.drop_first());
        match guest_value(pairs[0]) {
            Some(v) => match uuid_parsed(v) {
                Some(id) => seq![id] + rest,
                None => rest,
            },
            None => rest,
        }
    }
}

/// The value of the guest pair `pair`, if it is one.
fn pair_guest_value(pair: &[char]) -> (r: Option<Vec<char>>)
    ensures
        match guest_value(pair@) {
            None => r is None,
            Some(v) => r matches Some(x) && x@ == v,
        },
{
    let trimmed = trim_chars(pair);
    let parts = split_chars(trimmed.as_slice(), '=');
    proof {
        assert(parts@.len() == views(parts@).len());
    }
    if parts.len() == 2 {
        assert(parts@[0]@ == views(parts@)[0]);
        assert(parts@[1]@ == views(parts@)[1]);
        if chars_eq_str(parts[0].as_slice(), "guest_id") {
            let mut parts = parts;
            let v = parts.pop().unwrap();
            return Some(v);
        }
    }
    None
}

/// The guest UUID in a `Cookie` header, if any: the first `guest_id` pair
/// decides, and its value must parse as a UUID.
pub fn extract_guest_id(cookie_header: Option<&str>) -> (r: Option<u128>)
    ensures
        r == guest_id_of(match cookie_header {
            None => None,
            Some(h) => Some(h@),
        }),
{
    let header = match cookie_header {
        None => return None,
        Some(h) => h,
    };
    let chars = chars_of(header);
    let pairs = split_chars(chars.as_slice(), ';');
    let ghost all = split_on(header@, ';');
    let mut i: usize = 0;
    assert(all.subrange(0, all.len() as int) =~= all);
    while i < pairs.len()
        invariant
            views(pairs@) == all,
            all == split_on(header@, ';'),
            i <= pairs@.len(),
            first_guest_value(all) == first_guest_value(all.subrange(i as int, all.len() as int)),
            cookie_header == Some(header),
        decreases pairs@.len() - i,
    {
        let ghost rest = all.subrange(i as int, all.len() as int);
        assert(pairs@[i as int]@ == all[i as int]);
        assert(rest[0] == all[i as int]);
        match pair_guest_value(pairs[i].as_slice()) {
            Some(v) => {
                assert(guest_value(rest[0]) == Some(v@));
                assert(first_guest_value(rest) == Some(v@));
                let s = string_from_chars(v.as_slice());
                return parse_uuid(s.as_str());
            },
            None => {
                assert(rest.drop_first() =~= all.subrange(i + 1, all.len() as int));
            },
        }
        i = i + 1;
    }
    assert(all.subrange(i as int, all.len() as int) =~= Seq::<Seq<char>>::empty());
    None
}

/// All guest UUIDs in a `Cookie` header, in order: every `guest_id` pair whose
/// value parses as a UUID.
pub fn extract_all_guest_ids(cookie_header: Option<&str>) -> (r: Vec<u128>)
    ensures
        r@ == match cookie_header {
            None => Seq::<u128>::empty(),
            Some(h) => all_guest_ids(split_on(h@, ';')),
        },
{
    let mut ids: Vec<u128> = Vec::new();
    let header = match cookie_header {
        None => return ids,
        Some(h) => h,
    };
    let chars = chars_of(header);
    let pairs = split_chars(chars.as_slice(), ';');
    let ghost all = split_on(header@, ';');
    let mut i: usize = 0;
    assert(all.subrange(0, all.len() as int) =~= all);
    while i < pairs.len()
        invariant
            views(pairs@) == all,
            all == split_on(header@, ';'),
            i <= pairs@.len(),
            all_guest_ids(all) == ids@ + all_guest_ids(all.subrange(i as int, all.len() as int)),
            cookie_header == Some(header),
        decreases pairs@.len() - i,
    {
        let ghost rest = all.subrange(i as int, all.len() as int);
        assert(pairs@[i as int]@ == all[i as int]);
        assert(rest[0] == all[i as int]);
        assert(rest.drop_first() =~= all.subrange(i + 1, all.len() as int));
        match pair_guest_value(pairs[i].as_slice()) {
            Some(v) => {
                let s = string_from_chars(v.as_slice());
                match parse_uuid(s.as_str()) {
                    Some(id) => {
                        let ghost before = ids@;
                        ids.push(id);
                        assert(before + (seq![id] + all_guest_ids(rest.drop_first()))
                            =~= ids@ + all_guest_ids(rest.drop_first()));
                    },
                    None => {},
                }
            },
            None => {},
        }
        i = i + 1;
    }
    assert(all.subrange(i as int, all.len() as int) =~= Seq::<Seq<char>>::empty());
    assert(ids@ + Seq::<u128>::empty() =~= ids@);
    ids
}

/// The `Set-Cookie` value that hands a new guest its UUID for a day.
pub open spec fn guest_cookie_header(id: u128) -> Seq<char> {
    "guest_id="@ + uuid_hyphenated(id) + "; Path=/; Max-Age=86400; HttpOnly; SameSite=Lax"@
}

/// The `Set-Cookie` value for a new guest.
pub fn guest_cookie(id: u128) -> (s: String)
    ensures
        s@ == guest_cookie_header(id),
{
    let u = uuid_hyphenated_string(id);
    let a = concat("guest_id=", u.as_str());
    concat(a.as_str(), "; Path=/; Max-Age=86400; HttpOnly; SameSite=Lax")
}

/// The `Cookie` pair a browser sends back for the guest cookie.
pub fn guest_cookie_pair(id: u128) -> (s: String)
    ensures
        s@ == "guest_id="@ + uuid_hyphenated(id),
        guest_id_of(Some(s@)) == Some(id),
{
    let u = uuid_hyphenated_string(id);
    proof {
        law_guest_pair_read_back(id);
    }
    concat("guest_id=", u.as_str())
}

} // verus!
