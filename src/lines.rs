use vstd::prelude::*;
use vstd::string::*;

use crate::contact::{
    address_text, addresses_text, card_body, escape_newlines, name_value, Address, Contact,
};

verus! {

/// Lines written one after another, each followed by a line break.
pub open spec fn join_lines(ls: Seq<Seq<char>>) -> Seq<char>
    decreases ls.len(),
{
    if ls.len() == 0 {
        Seq::empty()
    } else {
        join_lines(ls.drop_last()) + ls.last() + "\n"@
    }
}

/// How many of the lines begin with `p`.
pub open spec fn count_with_prefix(ls: Seq<Seq<char>>, p: Seq<char>) -> nat
    decreases ls.len(),
{
    if ls.len() == 0 {
        0
    } else {
        count_with_prefix(ls.drop_last(), p) + if p.is_prefix_of(ls.last()) {
            1nat
        } else {
            0nat
        }
    }
}

/// The single line `property:value`, or no line when the value is empty.
pub open spec fn optional_lines(property: Seq<char>, value: Seq<char>) -> Seq<Seq<char>> {
    if value.len() == 0 {
        Seq::empty()
    } else {
        seq![property + ":"@ + value]
    }
}

/// One line for each address, in entry order.
pub open spec fn address_lines(addrs: Seq<Address>) -> Seq<Seq<char>> {
    Seq::new(addrs.len(), |k: int| address_text(addrs[k]))
}

/// The lines of the structured name: one if it was given, else none.
pub open spec fn name_lines(c: Contact) -> Seq<Seq<char>> {
    match c.name_components {
        Some(n) => seq!["N"@ + ":"@ + name_value(n)],
        None => Seq::empty(),
    }
}

/// The lines of the note: one if a non-empty note was given, else none.
pub open spec fn note_lines(c: Contact) -> Seq<Seq<char>> {
    match c.note {
        Some(s) => optional_lines("NOTE"@, escape_newlines(s@)),
        None => Seq::empty(),
    }
}

/// The property lines of a card, without terminators, in their fixed order.
pub open spec fn card_lines(c: Contact) -> Seq<Seq<char>> {
    seq!["FN"@ + ":"@ + c.name@] + name_lines(c) + optional_lines("EMAIL"@, c.email@)
        + optional_lines("TEL"@, c.phone@) + optional_lines("URL"@, c.website@) + address_lines(
        c.addresses@,
    ) + note_lines(c)
}

/// Where the e-mail line stands: after the full name and the structured name.
pub open spec fn email_index(c: Contact) -> int {
    1 + name_lines(c).len() as int
}

/// Where the phone line stands: after the e-mail line, if there is one.
pub open spec fn phone_index(c: Contact) -> int {
    email_index(c) + optional_lines("EMAIL"@, c.email@).len() as int
}

/// Where the website line stands: after the phone line, if there is one.
pub open spec fn website_index(c: Contact) -> int {
    phone_index(c) + optional_lines("TEL"@, c.phone@).len() as int
}

proof fn lemma_join_add(a: Seq<Seq<char>>, b: Seq<Seq<char>>)
    ensures
        join_lines(a + b) == join_lines(a) + join_lines(b),
    decreases b.len(),
{
    if b.len() == 0 {
        assert(a + b =~= a);
        assert(join_lines(a) + join_lines(b) =~= join_lines(a));
    } else {
        assert((a + b).drop_last() =~= a + b.drop_last());
        lemma_join_add(a, b.drop_last());
        assert(join_lines(a + b) =~= join_lines(a) + join_lines(b));
    }
}

proof fn lemma_count_add(a: Seq<Seq<char>>, b: Seq<Seq<char>>, p: Seq<char>)
    ensures
        count_with_prefix(a + b, p) == count_with_prefix(a, p) + count_with_prefix(b, p),
    decreases b.len(),
{
    if b.len() == 0 {
        assert(a + b =~= a);
    } else {
        assert((a + b).drop_last() =~= a + b.drop_last());
        lemma_count_add(a, b.drop_last(), p);
    }
}

proof fn lemma_join_one(l: Seq<char>)
    ensures
        join_lines(seq![l]) == l + "\n"@,
{
    let s = seq![l];
    assert(s.drop_last() =~= Seq::<Seq<char>>::empty());
    assert(join_lines(s.drop_last()) == Seq::<char>::empty());
    assert(s.last() == l);
    assert(join_lines(s) =~= l + "\n"@);
}

proof fn lemma_count_one(l: Seq<char>, p: Seq<char>)
    ensures
        count_with_prefix(seq![l], p) == if p.is_prefix_of(l) {
            1nat
        } else {
            0nat
        },
{
    let s = seq![l];
    assert(s.drop_last() =~= Seq::<Seq<char>>::empty());
    assert(count_with_prefix(s.drop_last(), p) == 0);
    assert(s.last() == l);
}

proof fn lemma_count_none(ls: Seq<Seq<char>>, p: Seq<char>)
    requires
        forall|i: int| 0 <= i < ls.len() ==> !p.is_prefix_of(#[trigger] ls[i]),
    ensures
        count_with_prefix(ls, p) == 0,
    decreases ls.len(),
{
    if ls.len() > 0 {
        assert(!p.is_prefix_of(ls[ls.len() - 1]));
        lemma_count_none(ls.drop_last(), p);
    }
}

proof fn lemma_join_addresses(addrs: Seq<Address>)
    ensures
        join_lines(address_lines(addrs)) == addresses_text(addrs),
    decreases addrs.len(),
{
    if addrs.len() > 0 {
        assert(address_lines(addrs).drop_last() =~= address_lines(addrs.drop_last()));
        lemma_join_addresses(addrs.drop_last());
    }
}

/// Two texts that differ at position `j` before the end of `p` cannot both
/// begin with `p`.
proof fn lemma_differs_at(l: Seq<char>, p: Seq<char>, j: int)
    requires
        0 <= j < p.len(),
        j < l.len() ==> l[j] != p[j],
    ensures
        !p.is_prefix_of(l),
{
    if p.is_prefix_of(l) {
        assert(l.subrange(0, p.len() as int)[j] == l[j]);
    }
}

/// The card's text is its lines, each followed by a line break.
pub proof fn lemma_card_lines(c: Contact)
    ensures
        join_lines(card_lines(c)) == card_body(c),
{
    reveal_strlit(":");
    let a = seq!["FN"@ + ":"@ + c.name@];
    let b = name_lines(c);
    let e = optional_lines("EMAIL"@, c.email@);
    let t = optional_lines("TEL"@, c.phone@);
    let u = optional_lines("URL"@, c.website@);
    let d = address_lines(c.addresses@);
    let n = note_lines(c);
    lemma_join_add(a, b);
    lemma_join_add(a + b, e);
    lemma_join_add(a + b + e, t);
    lemma_join_add(a + b + e + t, u);
    lemma_join_add(a + b + e + t + u, d);
    lemma_join_add(a + b + e + t + u + d, n);
    lemma_join_one("FN"@ + ":"@ + c.name@);
    match c.name_components {
        Some(nc) => lemma_join_one("N"@ + ":"@ + name_value(nc)),
        None => {},
    }
    if c.email@.len() > 0 {
        lemma_join_one("EMAIL"@ + ":"@ + c.email@);
    }
    if c.phone@.len() > 0 {
        lemma_join_one("TEL"@ + ":"@ + c.phone@);
    }
    if c.website@.len() > 0 {
        lemma_join_one("URL"@ + ":"@ + c.website@);
    }
    match c.note {
        Some(s) => {
            if escape_newlines(s@).len() > 0 {
                lemma_join_one("NOTE"@ + ":"@ + escape_newlines(s@));
            }
        },
        None => {},
    }
    lemma_join_addresses(c.addresses@);
    assert(join_lines(card_lines(c)) =~= card_body(c));
}

proof fn lemma_none_at(ls: Seq<Seq<char>>, p: Seq<char>, j: int)
    requires
        0 <= j < p.len(),
        forall|i: int| 0 <= i < ls.len() && j < (#[trigger] ls[i]).len() ==> ls[i][j] != p[j],
    ensures
        count_with_prefix(ls, p) == 0,
{
    assert forall|i: int| 0 <= i < ls.len() implies !p.is_prefix_of(#[trigger] ls[i]) by {
        lemma_differs_at(ls[i], p, j);
    }
    lemma_count_none(ls, p);
}

proof fn lemma_address_start(a: Address)
    ensures
        address_text(a).len() >= 3,
        address_text(a)[0] == 'A',
        address_text(a)[1] == 'D',
{
    reveal_strlit("ADR");
    reveal_strlit("ADR;TYPE=");
    reveal_strlit(":;;");
}

/// An optional field left empty gives no line of its property; one given a
/// value gives exactly one, at its place in the fixed order: after the full
/// name and the structured name come e-mail, phone and website, and the note
/// is the last line.
pub proof fn lemma_optional_fields(c: Contact)
    ensures
        join_lines(card_lines(c)) == card_body(c),
        count_with_prefix(card_lines(c), "EMAIL:"@) == if c.email@.len() == 0 {
            0nat
        } else {
            1nat
        },
        count_with_prefix(card_lines(c), "TEL:"@) == if c.phone@.len() == 0 {
            0nat
        } else {
            1nat
        },
        count_with_prefix(card_lines(c), "URL:"@) == if c.website@.len() == 0 {
            0nat
        } else {
            1nat
        },
        count_with_prefix(card_lines(c), "NOTE:"@) == match c.note {
            Some(s) => if s@.len() == 0 {
                0nat
            } else {
                1nat
            },
            None => 0nat,
        },
        c.email@.len() > 0 ==> card_lines(c)[email_index(c)] == "EMAIL:"@ + c.email@,
        c.phone@.len() > 0 ==> card_lines(c)[phone_index(c)] == "TEL:"@ + c.phone@,
        c.website@.len() > 0 ==> card_lines(c)[website_index(c)] == "URL:"@ + c.website@,
        c.note is Some && c.note->0@.len() > 0 ==> card_lines(c).last() == "NOTE:"@
            + escape_newlines(c.note->0@),
{
    lemma_card_lines(c);
    reveal_strlit(":");
    reveal_strlit("FN");
    reveal_strlit("N");
    reveal_strlit("EMAIL");
    reveal_strlit("TEL");
    reveal_strlit("URL");
    reveal_strlit("NOTE");
    reveal_strlit("EMAIL:");
    reveal_strlit("TEL:");
    reveal_strlit("URL:");
    reveal_strlit("NOTE:");
    assert("EMAIL"@ + ":"@ =~= "EMAIL:"@);
    assert("TEL"@ + ":"@ =~= "TEL:"@);
    assert("URL"@ + ":"@ =~= "URL:"@);
    assert("NOTE"@ + ":"@ =~= "NOTE:"@);
    let a = seq!["FN"@ + ":"@ + c.name@];
    let b = name_lines(c);
    let e = optional_lines("EMAIL"@, c.email@);
    let t = optional_lines("TEL"@, c.phone@);
    let u = optional_lines("URL"@, c.website@);
    let d = address_lines(c.addresses@);
    let n = note_lines(c);
    match c.note {
        Some(s) => {
            crate::contact::lemma_escaped_text_has_no_line_breaks(s@);
        },
        None => {},
    }
    assert forall|i: int| 0 <= i < d.len() implies (#[trigger] d[i]).len() >= 3 && d[i][0] == 'A'
        && d[i][1] == 'D' by {
        lemma_address_start(c.addresses@[i]);
    }
    assert(card_lines(c) == a + b + e + t + u + d + n);
    let ps = seq!["EMAIL:"@, "TEL:"@, "URL:"@, "NOTE:"@];
    assert forall|k: int| 0 <= k < 4 implies #[trigger] count_with_prefix(card_lines(c), ps[k])
        == count_with_prefix(a, ps[k]) + count_with_prefix(b, ps[k]) + count_with_prefix(
        e,
        ps[k],
    ) + count_with_prefix(t, ps[k]) + count_with_prefix(u, ps[k]) + count_with_prefix(d, ps[k])
        + count_with_prefix(n, ps[k]) by {
        let p = ps[k];
        lemma_count_add(a, b, p);
        lemma_count_add(a + b, e, p);
        lemma_count_add(a + b + e, t, p);
        lemma_count_add(a + b + e + t, u, p);
        lemma_count_add(a + b + e + t + u, d, p);
        lemma_count_add(a + b + e + t + u + d, n, p);
    }
    // Each prefix is told from the other kinds of line by its first
    // character, but NOTE, which shares it with N and is told by its second.
    assert(count_with_prefix(card_lines(c), ps[0]) == count_with_prefix(card_lines(c), "EMAIL:"@));
    lemma_none_at(a, "EMAIL:"@, 0);
    lemma_none_at(b, "EMAIL:"@, 0);
    lemma_none_at(t, "EMAIL:"@, 0);
    lemma_none_at(u, "EMAIL:"@, 0);
    lemma_none_at(d, "EMAIL:"@, 0);
    lemma_none_at(n, "EMAIL:"@, 0);
    if c.email@.len() > 0 {
        lemma_count_one("EMAIL:"@ + c.email@, "EMAIL:"@);
        assert(("EMAIL:"@ + c.email@).subrange(0, 6) =~= "EMAIL:"@);
    } else {
        assert(e =~= Seq::<Seq<char>>::empty());
    }
    assert(count_with_prefix(card_lines(c), ps[1]) == count_with_prefix(card_lines(c), "TEL:"@));
    lemma_none_at(a, "TEL:"@, 0);
    lemma_none_at(b, "TEL:"@, 0);
    lemma_none_at(e, "TEL:"@, 0);
    lemma_none_at(u, "TEL:"@, 0);
    lemma_none_at(d, "TEL:"@, 0);
    lemma_none_at(n, "TEL:"@, 0);
    if c.phone@.len() > 0 {
        lemma_count_one("TEL:"@ + c.phone@, "TEL:"@);
        assert(("TEL:"@ + c.phone@).subrange(0, 4) =~= "TEL:"@);
    } else {
        assert(t =~= Seq::<Seq<char>>::empty());
    }
    assert(count_with_prefix(card_lines(c), ps[2]) == count_with_prefix(card_lines(c), "URL:"@));
    lemma_none_at(a, "URL:"@, 0);
    lemma_none_at(b, "URL:"@, 0);
    lemma_none_at(e, "URL:"@, 0);
    lemma_none_at(t, "URL:"@, 0);
    lemma_none_at(d, "URL:"@, 0);
    lemma_none_at(n, "URL:"@, 0);
    if c.website@.len() > 0 {
        lemma_count_one("URL:"@ + c.website@, "URL:"@);
        assert(("URL:"@ + c.website@).subrange(0, 4) =~= "URL:"@);
    } else {
        assert(u =~= Seq::<Seq<char>>::empty());
    }
    assert(count_with_prefix(card_lines(c), ps[3]) == count_with_prefix(card_lines(c), "NOTE:"@));
    lemma_none_at(a, "NOTE:"@, 1);
    lemma_none_at(b, "NOTE:"@, 1);
    lemma_none_at(e, "NOTE:"@, 1);
    lemma_none_at(t, "NOTE:"@, 1);
    lemma_none_at(u, "NOTE:"@, 1);
    lemma_none_at(d, "NOTE:"@, 1);
    match c.note {
        Some(s) => {
            if s@.len() > 0 {
                lemma_count_one("NOTE:"@ + escape_newlines(s@), "NOTE:"@);
                assert(("NOTE:"@ + escape_newlines(s@)).subrange(0, 5) =~= "NOTE:"@);
            } else {
                assert(n =~= Seq::<Seq<char>>::empty());
            }
        },
        None => {
            assert(n =~= Seq::<Seq<char>>::empty());
        },
    }
}

} // verus!
