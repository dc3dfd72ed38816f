//! Finding the `bigfred` group in the text of `/etc/group`.

use crate::text::same_bytes;
use crate::text;
use vstd::prelude::*;
use vstd::slice::*;
use vstd::string::*;

verus! {

const NEWLINE: u8 = 0x0A;

const RETURN: u8 = 0x0D;

const COLON: u8 = 0x3A;

const PLUS: u8 = 0x2B;

/// Where `x` first occurs in `s`; the length of `s` if it does not.
pub open spec fn first_index(s: Seq<u8>, x: u8) -> int
    decreases s.len(),
{
    if s.len() == 0 || s[0] == x {
        0
    } else {
        1 + first_index(s.skip(1), x)
    }
}

fn find_byte(s: &[u8], x: u8) -> (r: usize)
    ensures
        r == first_index(s@, x),
        r <= s@.len(),
        r < s@.len() ==> s@[r as int] == x,
{
    let mut i: usize = 0;
    assert(s@.skip(0) =~= s@);
    while i < s.len() && s[i] != x
        invariant
            i <= s@.len(),
            first_index(s@, x) == i + first_index(s@.skip(i as int), x),
        decreases s@.len() - i,
    {
        assert(s@.skip(i as int)[0] == s@[i as int]);
        assert(s@.skip(i as int).skip(1) =~= s@.skip(i + 1));
        i += 1;
    }
    i
}

/// The lines of a text. A line ends at a line feed, which a carriage return may
/// precede; the last line needs no end.
pub open spec fn lines(text: Seq<u8>) -> Seq<Seq<u8>>
    decreases text.len(),
{
    if text.len() == 0 {
        Seq::empty()
    } else {
        let end = first_index(text, '\n' as u8);
        if end >= text.len() || end < 0 {
            seq![text]
        } else {
            seq![without_return(text.take(end))] + lines(text.skip(end + 1))
        }
    }
}

/// A line without the carriage return at its end.
pub open spec fn without_return(line: Seq<u8>) -> Seq<u8> {
    if line.len() > 0 && line.last() == '\r' as u8 {
        line.drop_last()
    } else {
        line
    }
}

/// The fields of a line, which colons separate.
pub open spec fn fields(line: Seq<u8>) -> Seq<Seq<u8>>
    decreases line.len(),
{
    let end = first_index(line, ':' as u8);
    if end >= line.len() || end < 0 {
        seq![line]
    } else {
        seq![line.take(end)] + fields(line.skip(end + 1))
    }
}

/// Whether a byte is a decimal digit.
pub open spec fn digit(b: u8) -> bool {
    '0' as u8 <= b <= '9' as u8
}

/// The value of a run of decimal digits.
pub open spec fn digits_value(s: Seq<u8>) -> nat
    decreases s.len(),
{
    if s.len() == 0 {
        0
    } else {
        digits_value(s.drop_last()) * 10 + (s.last() - '0' as u8) as nat
    }
}

/// A text without the plus sign it may start with.
pub open spec fn unsigned_part(s: Seq<u8>) -> Seq<u8> {
    if s.len() > 0 && s[0] == '+' as u8 {
        s.skip(1)
    } else {
        s
    }
}

/// The number that a text spells, when it is digits, after at most a plus sign,
/// and fits in 32 bits.
pub open spec fn number(s: Seq<u8>) -> Option<u32> {
    let d = unsigned_part(s);
    if d.len() > 0 && (forall|i: int| 0 <= i < d.len() ==> digit(#[trigger] d[i])) && digits_value(
        d,
    ) <= u32::MAX {
        Some(digits_value(d) as u32)
    } else {
        None
    }
}

proof fn lemma_digits_value_grows(s: Seq<u8>, k: int)
    requires
        0 <= k <= s.len(),
    ensures
        digits_value(s.take(k)) <= digits_value(s),
    decreases s.len(),
{
    if k < s.len() {
        lemma_digits_value_grows(s.drop_last(), k);
        assert(s.drop_last().take(k) =~= s.take(k));
    } else {
        assert(s.take(k) =~= s);
    }
}

/// Reads a number.
pub fn parse_number(s: &[u8]) -> (r: Option<u32>)
    ensures
        r == number(s@),
{
    let n: usize = s.len();
    let start: usize = if n > 0 && s[0] == PLUS {
        1
    } else {
        0
    };
    let d = slice_subrange(s, start, n);
    assert(d@ =~= unsigned_part(s@));
    if d.len() == 0 {
        return None;
    }
    let mut value: u32 = 0;
    let mut i: usize = 0;
    while i < d.len()
        invariant
            i <= d@.len(),
            d@ == unsigned_part(s@),
            forall|k: int| 0 <= k < i ==> digit(#[trigger] d@[k]),
            value == digits_value(d@.take(i as int)),
        decreases d@.len() - i,
    {
        let b = d[i];
        if !(0x30 <= b && b <= 0x39) {
            assert(!digit(d@[i as int]));
            return None;
        }
        let wide: u64 = (value as u64) * 10 + ((b - 0x30) as u64);
        proof {
            assert(d@.take(i + 1).drop_last() =~= d@.take(i as int));
            assert(wide == digits_value(d@.take(i + 1)));
            lemma_digits_value_grows(d@, i + 1);
        }
        if wide > u32::MAX as u64 {
            return None;
        }
        value = wide as u32;
        i += 1;
    }
    assert(d@.take(i as int) =~= d@);
    Some(value)
}

/// The group id in a line of the group file, when the line is about `group` and
/// its third field is a number.
pub open spec fn line_gid(line: Seq<u8>, group: Seq<u8>) -> Option<u32> {
    let f = fields(line);
    if f[0] == group && f.len() >= 3 {
        number(f[2])
    } else {
        None
    }
}

/// The first group id that a list of lines gives for `group`.
pub open spec fn first_gid(lines: Seq<Seq<u8>>, group: Seq<u8>) -> Option<u32>
    decreases lines.len(),
{
    if lines.len() == 0 {
        None
    } else {
        match line_gid(lines[0], group) {
            Some(gid) => Some(gid),
            None => first_gid(lines.skip(1), group),
        }
    }
}

fn gid_of_line(line: &[u8], group: &[u8]) -> (r: Option<u32>)
    ensures
        r == line_gid(line@, group@),
{
    let n: usize = line.len();
    let a: usize = find_byte(line, COLON);
    let name = slice_subrange(line, 0, a);
    assert(name@ =~= line@.take(a as int));
    if !same_bytes(name, group) {
        proof {
            if a == n {
                assert(line@.take(a as int) =~= line@);
            }
        }
        return None;
    }
    if a == n {
        return None;
    }
    let second = slice_subrange(line, a + 1, n);
    assert(second@ =~= line@.skip(a + 1));
    assert(fields(line@) == seq![line@.take(a as int)] + fields(second@));
    let b: usize = find_byte(second, COLON);
    if b == second.len() {
        assert(fields(second@).len() == 1);
        return None;
    }
    let third = slice_subrange(second, b + 1, second.len());
    assert(third@ =~= second@.skip(b + 1));
    assert(fields(second@) == seq![second@.take(b as int)] + fields(third@));
    let c: usize = find_byte(third, COLON);
    let gid = slice_subrange(third, 0, c);
    proof {
        if c == third@.len() {
            assert(gid@ =~= third@);
        }
        assert(gid@ =~= third@.take(c as int));
        assert(fields(third@)[0] == gid@);
        assert(fields(line@)[2] == fields(second@)[1]);
    }
    parse_number(gid)
}

/// The id of the `bigfred` group, given the text of `/etc/group`. Lines of that
/// group without a readable id are passed over.
pub fn bigfred_gid(text: &str) -> (r: Option<u32>)
    ensures
        r == first_gid(lines(text.spec_bytes()), "bigfred".spec_bytes()),
{
    let bytes = text.as_bytes();
    let group = "bigfred".as_bytes();
    let mut from: usize = 0;
    assert(bytes@.skip(0) =~= bytes@);
    while from < bytes.len()
        invariant
            from <= bytes@.len(),
            group@ == "bigfred".spec_bytes(),
            bytes@ == text.spec_bytes(),
            first_gid(lines(bytes@.skip(from as int)), group@) == first_gid(
                lines(bytes@),
                group@,
            ),
        decreases bytes@.len() - from,
    {
        let rest = slice_subrange(bytes, from, bytes.len());
        assert(rest@ =~= bytes@.skip(from as int));
        let end: usize = find_byte(rest, NEWLINE);
        let mut stop: usize = end;
        if end < rest.len() && end > 0 && rest[end - 1] == RETURN {
            stop = end - 1;
        }
        let line = slice_subrange(rest, 0, stop);
        let ghost all = lines(rest@);
        proof {
            if end == rest@.len() {
                assert(line@ =~= rest@);
                assert(all.skip(1) =~= Seq::<Seq<u8>>::empty());
            } else {
                assert(line@ =~= without_return(rest@.take(end as int)));
                assert(all.skip(1) =~= lines(rest@.skip(end + 1)));
            }
            assert(all[0] == line@);
        }
        let gid = gid_of_line(line, group);
        if gid.is_some() {
            return gid;
        }
        if end == rest.len() {
            assert(first_gid(all.skip(1), group@) is None);
            return None;
        }
        proof {
            assert(rest@.skip(end + 1) =~= bytes@.skip(from + end + 1));
        }
        from = from + end + 1;
    }
    None
}

/// A byte is found where it first occurs: not before, and at the end only if it
/// does not occur at all.
pub proof fn lemma_first_index(s: Seq<u8>, x: u8)
    ensures
        0 <= first_index(s, x) <= s.len(),
        first_index(s, x) < s.len() ==> s[first_index(s, x)] == x,
        forall|k: int| 0 <= k < first_index(s, x) ==> #[trigger] s[k] != x,
    decreases s.len(),
{
    if s.len() > 0 && s[0] != x {
        let rest = s.skip(1);
        lemma_first_index(rest, x);
        assert forall|k: int| 0 <= k < first_index(s, x) implies #[trigger] s[k] != x by {
            if k > 0 {
                assert(s[k] == rest[k - 1]);
            }
        }
    }
}

proof fn lemma_first_index_after(head: Seq<u8>, x: u8, tail: Seq<u8>)
    requires
        forall|k: int| 0 <= k < head.len() ==> #[trigger] head[k] != x,
    ensures
        first_index(head, x) == head.len(),
        first_index(head.push(x) + tail, x) == head.len(),
{
    let s = head.push(x) + tail;
    lemma_first_index(head, x);
    lemma_first_index(s, x);
    assert(s[head.len() as int] == x);
    assert(forall|k: int| 0 <= k < head.len() ==> s[k] == head[k]);
}

/// Lines end at line feeds: the first line is what stands before the first one,
/// and the lines of the rest follow; what has none is one line, and nothing is no
/// line.
pub proof fn lemma_lines_end_at_line_feeds(line: Seq<u8>, rest: Seq<u8>)
    requires
        forall|k: int| 0 <= k < line.len() ==> #[trigger] line[k] != '\n' as u8,
    ensures
        lines(line.push('\n' as u8) + rest) == seq![without_return(line)] + lines(rest),
        line.len() > 0 ==> lines(line) == seq![line],
        lines(Seq::empty()) == Seq::<Seq<u8>>::empty(),
{
    let text = line.push('\n' as u8) + rest;
    lemma_first_index_after(line, '\n' as u8, rest);
    assert(text.take(line.len() as int) =~= line);
    assert(text.skip(line.len() + 1int) =~= rest);
}

/// One carriage return at the end of a line does not belong to it; any other line
/// is as it stands.
pub proof fn lemma_return_before_line_feed(line: Seq<u8>)
    ensures
        without_return(line.push('\r' as u8)) == line,
        !(line.len() > 0 && line.last() == '\r' as u8) ==> without_return(line) == line,
{
    assert(line.push('\r' as u8).drop_last() =~= line);
}

/// Fields are separated by colons: the first field is what stands before the
/// first one, and the fields of the rest follow; what has none is one field.
pub proof fn lemma_fields_end_at_colons(field: Seq<u8>, rest: Seq<u8>)
    requires
        forall|k: int| 0 <= k < field.len() ==> #[trigger] field[k] != ':' as u8,
    ensures
        fields(field.push(':' as u8) + rest) == seq![field] + fields(rest),
        fields(field) == seq![field],
{
    let line = field.push(':' as u8) + rest;
    lemma_first_index_after(field, ':' as u8, rest);
    assert(line.take(field.len() as int) =~= field);
    assert(line.skip(field.len() + 1int) =~= rest);
}

/// The bytes of a text of ASCII characters.
pub open spec fn ascii(text: Seq<char>) -> Seq<u8> {
    text.map_values(|c: char| c as u8)
}

/// A number that is written out is read back, also after a plus sign; one that
/// does not fit in 32 bits is refused.
pub proof fn lemma_written_number_is_read_back(n: nat)
    ensures
        n <= u32::MAX ==> number(ascii(text::decimal_text(n))) == Some(n as u32),
        n > u32::MAX ==> number(ascii(text::decimal_text(n))) is None,
        number(seq!['+' as u8] + ascii(text::decimal_text(n))) == number(
            ascii(text::decimal_text(n)),
        ),
{
    let s = ascii(text::decimal_text(n));
    text::lemma_decimal_text_spells_number(n);
    lemma_ascii_value(text::decimal_text(n));
    assert forall|i: int| 0 <= i < s.len() implies digit(#[trigger] s[i]) by {
        let c = text::decimal_text(n)[i];
        assert('0' <= c <= '9');
    }
    assert(digit(s[0]));
    assert(unsigned_part(s) == s);
    assert((seq!['+' as u8] + s).skip(1) =~= s);
}

proof fn lemma_ascii_value(t: Seq<char>)
    requires
        forall|i: int| 0 <= i < t.len() ==> '0' <= #[trigger] t[i] <= '9',
    ensures
        digits_value(ascii(t)) == text::decimal_value(t),
    decreases t.len(),
{
    if t.len() > 0 {
        let head = t.drop_last();
        assert forall|i: int| 0 <= i < head.len() implies '0' <= #[trigger] head[i] <= '9' by {
            assert(head[i] == t[i]);
        }
        lemma_ascii_value(head);
        assert(ascii(t).drop_last() =~= ascii(head));
        let c = t[t.len() - 1];
        assert('0' <= c <= '9');
    }
}

/// Zeros in front do not change a number, but a sign makes none; what holds
/// anything but digits, or nothing, is no number.
pub proof fn lemma_what_is_a_number(s: Seq<u8>, k: int)
    ensures
        number(Seq::empty()) is None,
        number(seq!['+' as u8]) is None,
        s.len() > 0 && s[0] != '+' as u8 ==> number(seq!['0' as u8] + s) == number(s),
        0 <= k < s.len() && !('0' as u8 <= s[k] <= '9' as u8) && (k > 0 || s[k] != '+' as u8)
            ==> number(s) is None,
        s.len() > 0 && s[0] == '+' as u8 ==> number(seq!['+' as u8] + s) is None,
{
    assert(seq!['+' as u8].skip(1) =~= Seq::<u8>::empty());
    if s.len() > 0 && s[0] != '+' as u8 {
        let z = seq!['0' as u8] + s;
        assert(unsigned_part(z) == z && unsigned_part(s) == s);
        lemma_leading_zero(s);
        if forall|i: int| 0 <= i < s.len() ==> digit(#[trigger] s[i]) {
            assert forall|i: int| 0 <= i < z.len() implies digit(#[trigger] z[i]) by {
                if i > 0 {
                    assert(z[i] == s[i - 1]);
                }
            }
        } else {
            let i = choose|i: int| 0 <= i < s.len() && !digit(#[trigger] s[i]);
            assert(z[i + 1] == s[i]);
        }
    }
    if 0 <= k < s.len() && !('0' as u8 <= s[k] <= '9' as u8) && (k > 0 || s[k] != '+' as u8) {
        let d = unsigned_part(s);
        if s[0] == '+' as u8 {
            assert(d[k - 1] == s[k]);
        } else {
            assert(d[k] == s[k]);
        }
    }
    if s.len() > 0 && s[0] == '+' as u8 {
        let d = unsigned_part(seq!['+' as u8] + s);
        assert(d =~= s);
        assert(!digit(d[0]));
    }
}

proof fn lemma_leading_zero(s: Seq<u8>)
    ensures
        digits_value(seq!['0' as u8] + s) == digits_value(s),
    decreases s.len(),
{
    let z = seq!['0' as u8] + s;
    if s.len() > 0 {
        lemma_leading_zero(s.drop_last());
        assert(z.drop_last() =~= seq!['0' as u8] + s.drop_last());
        assert(z.last() == s.last());
    } else {
        assert(z.drop_last() =~= Seq::<u8>::empty());
        assert(digits_value(z) == digits_value(z.drop_last()) * 10 + (z.last() - '0' as u8) as nat);
    }
}

/// A line of the group file is name, password, id and the rest, with colons
/// between them. It gives the id that its third field spells, to the group that
/// its first field names and to no other; the rest does not matter.
pub proof fn lemma_group_line(
    name: Seq<u8>,
    password: Seq<u8>,
    gid: Seq<u8>,
    members: Seq<u8>,
    group: Seq<u8>,
)
    requires
        forall|k: int| 0 <= k < name.len() ==> #[trigger] name[k] != ':' as u8,
        forall|k: int| 0 <= k < password.len() ==> #[trigger] password[k] != ':' as u8,
        forall|k: int| 0 <= k < gid.len() ==> #[trigger] gid[k] != ':' as u8,
    ensures
        ({
            let short = name.push(':' as u8) + (password.push(':' as u8) + gid);
            let long = name.push(':' as u8) + (password.push(':' as u8) + (gid.push(':' as u8)
                + members));
            &&& name == group ==> line_gid(short, group) == number(gid)
            &&& name == group ==> line_gid(long, group) == number(gid)
            &&& name != group ==> line_gid(short, group) is None
            &&& name != group ==> line_gid(long, group) is None
            &&& line_gid(name, group) is None
            &&& line_gid(name.push(':' as u8) + password, group) is None
        }),
{
    let id_on = gid.push(':' as u8) + members;
    lemma_fields_end_at_colons(gid, members);
    lemma_fields_end_at_colons(password, gid);
    lemma_fields_end_at_colons(password, id_on);
    lemma_fields_end_at_colons(name, password.push(':' as u8) + gid);
    lemma_fields_end_at_colons(name, password.push(':' as u8) + id_on);
    lemma_fields_end_at_colons(name, password);
}

/// The first line that gives an id decides: lines before it that give none are
/// passed over, and lines after it do not matter.
pub proof fn lemma_first_gid_decides(before: Seq<Seq<u8>>, after: Seq<Seq<u8>>, group: Seq<u8>)
    ensures
        first_gid(before + after, group) == (match first_gid(before, group) {
            Some(gid) => Some(gid),
            None => first_gid(after, group),
        }),
        before.len() == 1 ==> first_gid(before, group) == line_gid(before[0], group),
        first_gid(Seq::empty(), group) is None,
    decreases before.len(),
{
    if before.len() == 0 {
        assert(before + after =~= after);
    } else {
        lemma_first_gid_decides(before.skip(1), after, group);
        assert((before + after).skip(1) =~= before.skip(1) + after);
        if before.len() == 1 {
            assert(before.skip(1) =~= Seq::<Seq<u8>>::empty());
        }
    }
}

} // verus!
