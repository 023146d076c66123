use vstd::prelude::*;
use vstd::string::*;

use crate::vcard::{footer, header, optional_line, property_line, VCard};

verus! {

/// The structured name: five positional parts, each possibly empty and each
/// possibly holding several comma-separated values.
pub struct NameComponents {
    pub family: String,
    pub given: String,
    pub middle: String,
    pub prefix: String,
    pub suffix: String,
}

/// One postal address as it was entered.
pub struct Address {
    pub street: String,
    pub extended: String,
    pub city: String,
    pub state: String,
    pub zip: String,
    pub country: String,
    pub addr_type: String,
}

/// Everything collected about one person, in the order it is written out.
pub struct Contact {
    pub name: String,
    pub name_components: Option<NameComponents>,
    pub email: String,
    pub phone: String,
    pub website: String,
    pub addresses: Vec<Address>,
    pub note: Option<String>,
}

/// `s` with each line break replaced by the two characters `\` and `n`.
pub open spec fn escape_newlines(s: Seq<char>) -> Seq<char>
    decreases s.len(),
{
    if s.len() == 0 {
        Seq::empty()
    } else if s.last() == '\n' {
        escape_newlines(s.drop_last()) + "\\n"@
    } else {
        escape_newlines(s.drop_last()).push(s.last())
    }
}

/// How many times `c` occurs in `s`.
pub open spec fn count_char(s: Seq<char>, c: char) -> nat
    decreases s.len(),
{
    if s.len() == 0 {
        0
    } else {
        count_char(s.drop_last(), c) + if s.last() == c {
            1nat
        } else {
            0nat
        }
    }
}

/// The value of the `N` property: the five parts joined by semicolons.
pub open spec fn name_value(n: NameComponents) -> Seq<char> {
    n.family@ + ";"@ + n.given@ + ";"@ + n.middle@ + ";"@ + n.prefix@ + ";"@ + n.suffix@
}

/// The property name of an address line, with its type parameter if one was given.
pub open spec fn address_property(addr_type: Seq<char>) -> Seq<char> {
    if addr_type.len() == 0 {
        "ADR"@
    } else {
        "ADR;TYPE="@ + addr_type
    }
}

/// The street field: the street, then the extended line after an escaped
/// line break if there is one.
pub open spec fn street_field(street: Seq<char>, extended: Seq<char>) -> Seq<char> {
    if extended.len() == 0 {
        street
    } else {
        street + "\\n"@ + extended
    }
}

/// The address line, without terminator: two empty leading positions, then
/// street, city, state, postal code and country.
pub open spec fn address_text(a: Address) -> Seq<char> {
    address_property(a.addr_type@) + ":;;"@ + street_field(a.street@, a.extended@) + ";"@
        + a.city@ + ";"@ + a.state@ + ";"@ + a.zip@ + ";"@ + a.country@
}

/// The address lines of `addrs`, each with its terminator, in entry order.
pub open spec fn addresses_text(addrs: Seq<Address>) -> Seq<char>
    decreases addrs.len(),
{
    if addrs.len() == 0 {
        Seq::empty()
    } else {
        addresses_text(addrs.drop_last()) + address_text(addrs.last()) + "\n"@
    }
}

/// The `N` line, present only when the structured name was given.
pub open spec fn name_components_text(n: Option<NameComponents>) -> Seq<char> {
    match n {
        Some(n) => property_line("N"@, name_value(n)),
        None => Seq::empty(),
    }
}

/// The `NOTE` line, present only when a non-empty note was given.
pub open spec fn note_text(note: Option<String>) -> Seq<char> {
    match note {
        Some(s) => optional_line("NOTE"@, escape_newlines(s@)),
        None => Seq::empty(),
    }
}

/// The property lines of a card, in their fixed order.
pub open spec fn card_body(c: Contact) -> Seq<char> {
    property_line("FN"@, c.name@) + name_components_text(c.name_components) + optional_line(
        "EMAIL"@,
        c.email@,
    ) + optional_line("TEL"@, c.phone@) + optional_line("URL"@, c.website@) + addresses_text(
        c.addresses@,
    ) + note_text(c.note)
}

/// The finished card of a contact.
pub open spec fn card_text(c: Contact) -> Seq<char> {
    header() + card_body(c) + footer()
}

/// Replaces each line break in `s` by the escape `\n`.
pub fn escape_newlines_in(s: &str) -> (r: String)
    ensures
        r@ == escape_newlines(s@),
{
    let n = s.unicode_len();
    let mut out = String::new();
    let mut start: usize = 0;
    let mut i: usize = 0;
    while i < n
        invariant
            n == s@.len(),
            start <= i <= n,
            out@ + s@.subrange(start as int, i as int) == escape_newlines(s@.subrange(0, i as int)),
        decreases n - i,
    {
        let c = s.get_char(i);
        let ghost prefix = s@.subrange(0, i as int + 1);
        assert(prefix.drop_last() =~= s@.subrange(0, i as int));
        if c == '\n' {
            let part = s.substring_char(start, i);
            out.append(part);
            out.append("\\n");
            start = i + 1;
            assert(s@.subrange(start as int, i as int + 1) =~= Seq::<char>::empty());
            assert(out@ + s@.subrange(start as int, i as int + 1) =~= escape_newlines(prefix));
        } else {
            assert(s@.subrange(start as int, i as int + 1) =~= s@.subrange(
                start as int,
                i as int,
            ).push(c));
            assert(out@ + s@.subrange(start as int, i as int + 1) =~= escape_newlines(prefix));
        }
        i = i + 1;
    }
    let rest = s.substring_char(start, n);
    out.append(rest);
    assert(s@.subrange(0, n as int) =~= s@);
    out
}

/// The value of the `N` property for the given parts.
pub fn format_name_components(n: &NameComponents) -> (r: String)
    ensures
        r@ == name_value(*n),
{
    let mut r = String::new();
    r.append(n.family.as_str());
    r.append(";");
    r.append(n.given.as_str());
    r.append(";");
    r.append(n.middle.as_str());
    r.append(";");
    r.append(n.prefix.as_str());
    r.append(";");
    r.append(n.suffix.as_str());
    assert(r@ =~= name_value(*n));
    r
}

/// The line, without terminator, that stands for one address.
pub fn format_address(a: &Address) -> (r: String)
    ensures
        r@ == address_text(*a),
{
    let mut r = String::from_str("ADR");
    if !a.addr_type.as_str().is_empty() {
        r.append(";TYPE=");
        r.append(a.addr_type.as_str());
    }
    proof {
        reveal_strlit("ADR");
        reveal_strlit(";TYPE=");
        reveal_strlit("ADR;TYPE=");
    }
    assert(r@ =~= address_property(a.addr_type@));
    r.append(":;;");
    r.append(a.street.as_str());
    if !a.extended.as_str().is_empty() {
        r.append("\\n");
        r.append(a.extended.as_str());
    }
    r.append(";");
    r.append(a.city.as_str());
    r.append(";");
    r.append(a.state.as_str());
    r.append(";");
    r.append(a.zip.as_str());
    r.append(";");
    r.append(a.country.as_str());
    assert(r@ =~= address_text(*a));
    r
}

/// The lines of all addresses, one for each, in entry order.
pub fn format_addresses(addrs: &Vec<Address>) -> (r: Vec<String>)
    ensures
        r@.len() == addrs@.len(),
        forall|k: int| 0 <= k < r@.len() ==> #[trigger] r@[k]@ == address_text(addrs@[k]),
{
    let mut r: Vec<String> = Vec::new();
    let mut i: usize = 0;
    while i < addrs.len()
        invariant
            i <= addrs@.len(),
            r@.len() == i,
            forall|k: int| 0 <= k < i ==> #[trigger] r@[k]@ == address_text(addrs@[k]),
        decreases addrs@.len() - i,
    {
        let line = format_address(&addrs[i]);
        r.push(line);
        i = i + 1;
    }
    r
}

/// Writes the card of `c`: the header, the full name, the structured name if
/// given, e-mail, phone and website unless empty, each address in entry
/// order, the note with its line breaks escaped unless empty, and the footer.
pub fn build_card(c: &Contact) -> (r: String)
    ensures
        r@ == card_text(*c),
{
    let mut card = VCard::new();
    card.push("FN", c.name.as_str());
    match &c.name_components {
        Some(n) => {
            let value = format_name_components(n);
            card.push("N", value.as_str());
        },
        None => {},
    }
    card.optional_push("EMAIL", c.email.as_str());
    card.optional_push("TEL", c.phone.as_str());
    card.optional_push("URL", c.website.as_str());
    let ghost before = card@;
    let lines = format_addresses(&c.addresses);
    let mut i: usize = 0;
    while i < lines.len()
        invariant
            card.wf(),
            lines@.len() == c.addresses@.len(),
            forall|k: int| 0 <= k < lines@.len() ==> #[trigger] lines@[k]@ == address_text(
                c.addresses@[k],
            ),
            i <= lines@.len(),
            card@ == before + addresses_text(c.addresses@.subrange(0, i as int)),
        decreases lines@.len() - i,
    {
        card.push_explicit(lines[i].as_str());
        assert(c.addresses@.subrange(0, i as int + 1).drop_last() =~= c.addresses@.subrange(
            0,
            i as int,
        ));
        i = i + 1;
    }
    assert(c.addresses@.subrange(0, i as int) =~= c.addresses@);
    match &c.note {
        Some(note) => {
            let escaped = escape_newlines_in(note.as_str());
            card.optional_push("NOTE", escaped.as_str());
        },
        None => {},
    }
    let r = card.finalize();
    assert(r@ =~= card_text(*c));
    r
}

} // verus!

verus! {

/// Every card, whatever was collected, begins with the two header lines and
/// ends with the footer line, and trimming leaves it as it is.
pub proof fn lemma_card_is_framed(c: Contact)
    ensures
        card_text(c).len() >= header().len() + footer().len(),
        card_text(c).subrange(0, header().len() as int) == header(),
        card_text(c).subrange(card_text(c).len() - footer().len(), card_text(c).len() as int)
            == footer(),
{
    let t = card_text(c);
    assert(t.subrange(0, header().len() as int) =~= header());
    assert(t.subrange(t.len() - footer().len(), t.len() as int) =~= footer());
}

/// Escaping leaves no line break, puts one backslash in for each line break
/// taken out, and grows the text by exactly one character per line break.
pub proof fn lemma_escaped_text_has_no_line_breaks(s: Seq<char>)
    ensures
        count_char(escape_newlines(s), '\n') == 0,
        count_char(escape_newlines(s), '\\') == count_char(s, '\\') + count_char(s, '\n'),
        escape_newlines(s).len() == s.len() + count_char(s, '\n'),
        forall|k: int| 0 <= k < escape_newlines(s).len() ==> #[trigger] escape_newlines(s)[k] != '\n',
    decreases s.len(),
{
    reveal_strlit("\\n");
    if s.len() > 0 {
        let e = escape_newlines(s.drop_last());
        lemma_escaped_text_has_no_line_breaks(s.drop_last());
        if s.last() == '\n' {
            let t = e + "\\n"@;
            assert(t.drop_last().drop_last() =~= e);
            assert(t.drop_last().last() == '\\');
            assert(t.last() == 'n');
            assert(count_char(t.drop_last(), '\n') == count_char(e, '\n'));
            assert(count_char(t.drop_last(), '\\') == count_char(e, '\\') + 1);
        } else {
            let t = e.push(s.last());
            assert(t.drop_last() =~= e);
        }
    }
}

/// An address line names its type in the property, as `ADR;TYPE=<tag>`,
/// exactly when a type tag was given for that address; otherwise the
/// property is the bare `ADR`.
pub proof fn lemma_address_type_tag(a: Address)
    ensures
        a.addr_type@.len() == 0 ==> address_text(a).subrange(0, 4) == "ADR:"@,
        a.addr_type@.len() > 0 ==> address_text(a).subrange(0, 10 + a.addr_type@.len() as int)
            == "ADR;TYPE="@ + a.addr_type@ + ":"@,
{
    reveal_strlit("ADR:");
    reveal_strlit("ADR");
    reveal_strlit(":;;");
    reveal_strlit("ADR;TYPE=");
    reveal_strlit(":");
    let t = address_text(a);
    if a.addr_type@.len() == 0 {
        assert(t.subrange(0, 4) =~= "ADR:"@);
    } else {
        assert(t.subrange(0, 10 + a.addr_type@.len() as int) =~= "ADR;TYPE="@ + a.addr_type@ + ":"@);
    }
}

} // verus!
