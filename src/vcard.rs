use vstd::prelude::*;
use vstd::string::*;

verus! {

/// The text that opens every card: the begin marker and the version line.
pub open spec fn header() -> Seq<char> {
    "BEGIN:VCARD\nVERSION:4.0\n"@
}

/// The line that closes every card.
pub open spec fn footer() -> Seq<char> {
    "END:VCARD"@
}

/// One property line with its terminator: `NAME:VALUE` and a line break.
pub open spec fn property_line(property: Seq<char>, value: Seq<char>) -> Seq<char> {
    property + ":"@ + value + "\n"@
}

/// A property line, or nothing at all when the value is empty.
pub open spec fn optional_line(property: Seq<char>, value: Seq<char>) -> Seq<char> {
    if value.len() == 0 {
        Seq::empty()
    } else {
        property_line(property, value)
    }
}

/// The characters that `char::is_whitespace` accepts (Unicode White_Space).
pub open spec fn is_whitespace(c: char) -> bool {
    let n = c as u32;
    ||| 0x09 <= n <= 0x0d
    ||| n == 0x20
    ||| n == 0x85
    ||| n == 0xa0
    ||| n == 0x1680
    ||| 0x2000 <= n <= 0x200a
    ||| n == 0x2028
    ||| n == 0x2029
    ||| n == 0x202f
    ||| n == 0x205f
    ||| n == 0x3000
}

/// `s` without its leading whitespace.
pub open spec fn trim_start(s: Seq<char>) -> Seq<char>
    decreases s.len(),
{
    if s.len() > 0 && is_whitespace(s[0]) {
        trim_start(s.drop_first())
    } else {
        s
    }
}

/// `s` without its trailing whitespace.
pub open spec fn trim_end(s: Seq<char>) -> Seq<char>
    decreases s.len(),
{
    if s.len() > 0 && is_whitespace(s.last()) {
        trim_end(s.drop_last())
    } else {
        s
    }
}

/// `s` without whitespace at either end, as `str::trim` gives it.
pub open spec fn trim(s: Seq<char>) -> Seq<char> {
    trim_end(trim_start(s))
}

/// A contact card that is still being written: the header, then the lines
/// appended so far, in the order they were appended.
pub struct VCard {
    buf: String,
}

impl View for VCard {
    type V = Seq<char>;

    closed spec fn view(&self) -> Seq<char> {
        self.buf@
    }
}

impl VCard {
    /// The text written so far begins with the header.
    pub open spec fn wf(&self) -> bool {
        &&& self@.len() >= header().len()
        &&& self@.subrange(0, header().len() as int) == header()
    }

    /// A card holding only the header.
    pub fn new() -> (r: Self)
        ensures
            r@ == header(),
            r.wf(),
    {
        let r = VCard { buf: String::from_str("BEGIN:VCARD\nVERSION:4.0\n") };
        assert(r@.subrange(0, header().len() as int) =~= header());
        r
    }

    /// Appends the line `property:value`, also where `value` is empty.
    pub fn push(&mut self, property: &str, value: &str)
        requires
            old(self).wf(),
        ensures
            final(self)@ == old(self)@ + property_line(property@, value@),
            final(self).wf(),
    {
        self.buf.append(property);
        self.buf.append(":");
        self.buf.append(value);
        self.buf.append("\n");
        assert(self@ =~= old(self)@ + property_line(property@, value@));
        assert(self@.subrange(0, header().len() as int) =~= old(self)@.subrange(
            0,
            header().len() as int,
        ));
    }

    /// Appends the line `property:value` unless `value` is empty, in which
    /// case the card is left as it was.
    pub fn optional_push(&mut self, property: &str, value: &str)
        requires
            old(self).wf(),
        ensures
            final(self)@ == old(self)@ + optional_line(property@, value@),
            final(self).wf(),
    {
        if !value.is_empty() {
            self.push(property, value);
        } else {
            assert(self@ =~= old(self)@ + optional_line(property@, value@));
        }
    }

    /// Appends a line that the caller has already formatted, as it stands.
    pub fn push_explicit(&mut self, data: &str)
        requires
            old(self).wf(),
        ensures
            final(self)@ == old(self)@ + data@ + "\n"@,
            final(self).wf(),
    {
        self.buf.append(data);
        self.buf.append("\n");
        assert(self@.subrange(0, header().len() as int) =~= old(self)@.subrange(
            0,
            header().len() as int,
        ));
    }

    /// Closes the card: appends the footer line and trims whitespace at both
    /// ends of the whole text. Since the text begins with the header and ends
    /// with the footer's line break, that is the text so far and the footer.
    pub fn finalize(self) -> (r: String)
        requires
            self.wf(),
        ensures
            r@ == trim(self@ + footer() + "\n"@),
            r@ == self@ + footer(),
            r@.subrange(0, header().len() as int) == header(),
            r@.subrange(r@.len() - footer().len(), r@.len() as int) == footer(),
    {
        let mut buf = self.buf;
        buf.append("END:VCARD");
        proof {
            lemma_trim_closed_card(self@);
            assert(buf@.subrange(0, header().len() as int) =~= self@.subrange(
                0,
                header().len() as int,
            ));
            assert(buf@.subrange(buf@.len() - footer().len(), buf@.len() as int) =~= footer());
        }
        buf
    }
}

/// Trimming a card that begins with the header and ends with the footer's
/// line break removes only that line break.
proof fn lemma_trim_closed_card(s: Seq<char>)
    requires
        s.len() >= header().len(),
        s.subrange(0, header().len() as int) == header(),
    ensures
        trim(s + footer() + "\n"@) == s + footer(),
{
    reveal_strlit("BEGIN:VCARD\nVERSION:4.0\n");
    reveal_strlit("END:VCARD");
    reveal_strlit("\n");
    let t = s + footer() + "\n"@;
    assert(t[0] == s.subrange(0, header().len() as int)[0]);
    assert(!is_whitespace(t[0]));
    assert(trim_start(t) == t);
    assert(is_whitespace(t.last()));
    assert(t.drop_last() =~= s + footer());
    assert(!is_whitespace((s + footer()).last()));
    assert(trim_end(t.drop_last()) == s + footer());
}

} // verus!
