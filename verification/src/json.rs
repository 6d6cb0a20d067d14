//! Build records and their JSON serialization. The serializer is exact:
//! strings are escaped as JSON demands (quote, backslash, and control
//! characters), fields appear in a fixed order, and the win rate is emitted
//! as the decimal numeral the parser produced.

use vstd::prelude::*;
use crate::numfmt::digit_char;

verus! {

/// One extracted build record. Every field is optional in the sense of the
/// source markup: a name only if a title element was present, a composition
/// only if at least one non-empty unit name was found, a win rate only if a
/// percentage parsed. A record with no field at all is never emitted.
pub struct BuildRecord {
    pub name: Option<String>,
    pub composition: Vec<String>,
    pub win_rate: Option<String>,
}

/// The mathematical model of a build record.
pub struct RecordV {
    pub name: Option<Seq<char>>,
    pub composition: Seq<Seq<char>>,
    pub win_rate: Option<Seq<char>>,
}

impl View for BuildRecord {
    type V = RecordV;

    open spec fn view(&self) -> RecordV {
        RecordV {
            name: match self.name {
                Some(s) => Some(s@),
                None => None,
            },
            composition: self.composition@.map_values(|s: String| s@),
            win_rate: match self.win_rate {
                Some(s) => Some(s@),
                None => None,
            },
        }
    }
}

/// A record carries at least one field.
pub open spec fn record_nonempty(r: RecordV) -> bool {
    r.name is Some || r.composition.len() > 0 || r.win_rate is Some
}

/// The hexadecimal digit character for `d` in `0..=15`.
pub open spec fn hex_char(d: int) -> char {
    if d < 10 {
        digit_char(d)
    } else if d == 10 {
        'a'
    } else if d == 11 {
        'b'
    } else if d == 12 {
        'c'
    } else if d == 13 {
        'd'
    } else if d == 14 {
        'e'
    } else {
        'f'
    }
}

/// The JSON escape of one character inside a string literal.
pub open spec fn escape_char(c: char) -> Seq<char> {
    if c == '"' {
        seq!['\\', '"']
    } else if c == '\\' {
        seq!['\\', '\\']
    } else if c == '\u{8}' {
        seq!['\\', 'b']
    } else if c == '\t' {
        seq!['\\', 't']
    } else if c == '\n' {
        seq!['\\', 'n']
    } else if c == '\u{c}' {
        seq!['\\', 'f']
    } else if c == '\r' {
        seq!['\\', 'r']
    } else if (c as u32) < 0x20 {
        seq!['\\', 'u', '0', '0', hex_char((c as u32) as int / 16), hex_char((c as u32) as int % 16)]
    } else {
        seq![c]
    }
}

/// The JSON escape of a whole string body.
pub open spec fn escape_seq(s: Seq<char>) -> Seq<char>
    decreases s.len(),
{
    if s.len() == 0 {
        Seq::empty()
    } else {
        escape_seq(s.drop_last()) + escape_char(s.last())
    }
}

/// A JSON string literal: quotes around the escaped body.
pub open spec fn quoted(s: Seq<char>) -> Seq<char> {
    seq!['"'] + escape_seq(s) + seq!['"']
}

/// Comma-separated concatenation.
pub open spec fn join_comma(items: Seq<Seq<char>>) -> Seq<char>
    decreases items.len(),
{
    if items.len() == 0 {
        Seq::empty()
    } else if items.len() == 1 {
        items[0]
    } else {
        join_comma(items.drop_last()) + seq![','] + items.last()
    }
}

/// The fields of a record, rendered, in the fixed output order:
/// composition, name, winRate.
pub open spec fn record_fields(r: RecordV) -> Seq<Seq<char>> {
    (if r.composition.len() > 0 {
        seq![
            "\"composition\":"@ + seq!['['] + join_comma(
                r.composition.map_values(|u: Seq<char>| quoted(u)),
            ) + seq![']']
        ]
    } else {
        Seq::empty()
    }) + (match r.name {
        Some(nm) => seq!["\"name\":"@ + quoted(nm)],
        None => Seq::empty(),
    }) + (match r.win_rate {
        Some(w) => seq!["\"winRate\":"@ + w],
        None => Seq::empty(),
    })
}

/// The JSON object for one record.
pub open spec fn record_json(r: RecordV) -> Seq<char> {
    seq!['{'] + join_comma(record_fields(r)) + seq!['}']
}

/// The JSON array for a sequence of records.
pub open spec fn records_json(rs: Seq<RecordV>) -> Seq<char> {
    seq!['['] + join_comma(rs.map_values(|r: RecordV| record_json(r))) + seq![']']
}

/// Appends the JSON escape of `c` to `out`.
fn push_escaped_char(out: &mut String, c: char)
    ensures
        final(out)@ == old(out)@ + escape_char(c),
{
    if c == '"' {
        out.append("\\\"");
        proof {
            reveal_strlit("\\\"");
            assert(final(out)@ =~= old(out)@ + escape_char(c));
        }
    } else if c == '\\' {
        out.append("\\\\");
        proof {
            reveal_strlit("\\\\");
            assert(final(out)@ =~= old(out)@ + escape_char(c));
        }
    } else if c == '\u{8}' {
        out.append("\\b");
        proof {
            reveal_strlit("\\b");
            assert(final(out)@ =~= old(out)@ + escape_char(c));
        }
    } else if c == '\t' {
        out.append("\\t");
        proof {
            reveal_strlit("\\t");
            assert(final(out)@ =~= old(out)@ + escape_char(c));
        }
    } else if c == '\n' {
        out.append("\\n");
        proof {
            reveal_strlit("\\n");
            assert(final(out)@ =~= old(out)@ + escape_char(c));
        }
    } else if c == '\u{c}' {
        out.append("\\f");
        proof {
            reveal_strlit("\\f");
            assert(final(out)@ =~= old(out)@ + escape_char(c));
        }
    } else if c == '\r' {
        out.append("\\r");
        proof {
            reveal_strlit("\\r");
            assert(final(out)@ =~= old(out)@ + escape_char(c));
        }
    } else if (c as u32) < 0x20 {
        out.append("\\u00");
        let hi: u8 = ((c as u32) / 16) as u8;
        let lo: u8 = ((c as u32) % 16) as u8;
        out.push(hex_char_exec(hi));
        out.push(hex_char_exec(lo));
        proof {
            reveal_strlit("\\u00");
            assert(final(out)@ =~= old(out)@ + escape_char(c));
        }
    } else {
        out.push(c);
        proof {
            assert(final(out)@ =~= old(out)@ + escape_char(c));
        }
    }
}

/// Executable hexadecimal digit character.
fn hex_char_exec(d: u8) -> (c: char)
    requires
        d < 16,
    ensures
        c == hex_char(d as int),
{
    if d < 10 {
        crate::numfmt::digit_char_exec(d)
    } else if d == 10 {
        'a'
    } else if d == 11 {
        'b'
    } else if d == 12 {
        'c'
    } else if d == 13 {
        'd'
    } else if d == 14 {
        'e'
    } else {
        'f'
    }
}

/// Appends the JSON string literal for `s` to `out`.
pub fn push_quoted(out: &mut String, s: &str)
    ensures
        final(out)@ == old(out)@ + quoted(s@),
{
    let cs = crate::text::str_chars(s);
    out.push('"');
    let mut i: usize = 0;
    while i < cs.len()
        invariant
            i <= cs@.len(),
            cs@ == s@,
            out@ == old(out)@ + seq!['"'] + escape_seq(s@.subrange(0, i as int)),
        decreases cs@.len() - i,
    {
        push_escaped_char(out, cs[i]);
        proof {
            let pre = s@.subrange(0, i as int);
            let pre1 = s@.subrange(0, i + 1 as int);
            assert(pre1.drop_last() =~= pre);
            assert(pre1.last() == s@[i as int]);
            assert(escape_seq(pre1) == escape_seq(pre) + escape_char(s@[i as int]));
        }
        i = i + 1;
    }
    proof {
        assert(s@.subrange(0, s@.len() as int) =~= s@);
    }
    out.push('"');
    proof {
        assert(final(out)@ =~= old(out)@ + quoted(s@));
    }
}

/// Joins rendered items with commas between `open` and `close`.
fn join_items(items: &Vec<String>, open: char, close: char) -> (r: String)
    ensures
        r@ == seq![open] + join_comma(items@.map_values(|s: String| s@)) + seq![close],
{
    let mut out = String::new();
    out.push(open);
    let mut i: usize = 0;
    while i < items.len()
        invariant
            i <= items@.len(),
            out@ == seq![open] + join_comma(items@.subrange(0, i as int).map_values(|s: String| s@)),
        decreases items@.len() - i,
    {
        if i > 0 {
            out.push(',');
        }
        let mut tmp = out;
        tmp.append(items[i].as_str());
        out = tmp;
        proof {
            let pv = items@.subrange(0, i as int).map_values(|s: String| s@);
            let pv1 = items@.subrange(0, i + 1 as int).map_values(|s: String| s@);
            assert(pv1.drop_last() =~= pv);
            assert(pv1.last() == items@[i as int]@);
            if i == 0 {
                assert(out@ =~= seq![open] + join_comma(pv1));
            } else {
                assert(join_comma(pv1) == join_comma(pv) + seq![','] + items@[i as int]@);
                assert(out@ =~= seq![open] + join_comma(pv1));
            }
        }
        i = i + 1;
    }
    proof {
        assert(items@.subrange(0, items@.len() as int) =~= items@);
    }
    out.push(close);
    proof {
        assert(out@ =~= seq![open] + join_comma(items@.map_values(|s: String| s@)) + seq![close]);
    }
    out
}

/// Renders one record as a JSON object.
pub fn record_to_json(b: &BuildRecord) -> (r: String)
    ensures
        r@ == record_json(b@),
{
    let mut fields: Vec<String> = Vec::new();
    let ghost fv = record_fields(b@);
    if b.composition.len() > 0 {
        let mut units: Vec<String> = Vec::new();
        let mut i: usize = 0;
        while i < b.composition.len()
            invariant
                i <= b.composition@.len(),
                units@.map_values(|s: String| s@) =~= b.composition@.subrange(
                    0,
                    i as int,
                ).map_values(|s: String| s@).map_values(|u: Seq<char>| quoted(u)),
            decreases b.composition@.len() - i,
        {
            let mut q = String::new();
            push_quoted(&mut q, b.composition[i].as_str());
            let ghost before = units@;
            units.push(q);
            proof {
                assert(q@ =~= quoted(b.composition@[i as int]@));
                let cv = b.composition@.map_values(|s: String| s@);
                assert(b.composition@.subrange(0, i + 1 as int).map_values(|s: String| s@)
                    =~= b.composition@.subrange(0, i as int).map_values(|s: String| s@).push(
                    b.composition@[i as int]@,
                ));
                assert(b.composition@.subrange(0, i as int).map_values(|s: String| s@).push(
                    b.composition@[i as int]@,
                ).map_values(|u: Seq<char>| quoted(u)) =~= b.composition@.subrange(
                    0,
                    i as int,
                ).map_values(|s: String| s@).map_values(|u: Seq<char>| quoted(u)).push(
                    quoted(b.composition@[i as int]@),
                ));
                assert(units@.map_values(|s: String| s@) =~= before.map_values(|s: String| s@).push(
                    q@,
                ));
            }
            i = i + 1;
        }
        proof {
            assert(b.composition@.subrange(0, b.composition@.len() as int) =~= b.composition@);
        }
        let arr = join_items(&units, '[', ']');
        let mut f = "\"composition\":".to_owned();
        f.append(arr.as_str());
        proof {
            assert(f@ =~= "\"composition\":"@ + seq!['['] + join_comma(
                b@.composition.map_values(|u: Seq<char>| quoted(u)),
            ) + seq![']']);
        }
        fields.push(f);
    }
    match &b.name {
        Some(nm) => {
            let mut f = "\"name\":".to_owned();
            push_quoted(&mut f, nm.as_str());
            fields.push(f);
        },
        None => {},
    }
    match &b.win_rate {
        Some(w) => {
            let mut f = "\"winRate\":".to_owned();
            f.append(w.as_str());
            fields.push(f);
        },
        None => {},
    }
    proof {
        assert(fields@.map_values(|s: String| s@) =~= fv);
    }
    let r = join_items(&fields, '{', '}');
    proof {
        assert(r@ =~= record_json(b@));
    }
    r
}

/// Renders a sequence of records as a JSON array, exactly
/// `records_json` of their views.
pub fn records_to_json(rs: &Vec<BuildRecord>) -> (r: String)
    ensures
        r@ == records_json(rs@.map_values(|b: BuildRecord| b@)),
{
    let mut items: Vec<String> = Vec::new();
    let mut i: usize = 0;
    while i < rs.len()
        invariant
            i <= rs@.len(),
            items@.map_values(|s: String| s@) =~= rs@.subrange(0, i as int).map_values(
                |b: BuildRecord| b@,
            ).map_values(|r: RecordV| record_json(r)),
        decreases rs@.len() - i,
    {
        let j = record_to_json(&rs[i]);
        let ghost before = items@;
        items.push(j);
        proof {
            assert(j@ == record_json(rs@[i as int]@));
            assert(rs@.subrange(0, i + 1 as int).map_values(|b: BuildRecord| b@)
                =~= rs@.subrange(0, i as int).map_values(|b: BuildRecord| b@).push(rs@[i as int]@));
            assert(rs@.subrange(0, i as int).map_values(|b: BuildRecord| b@).push(
                rs@[i as int]@,
            ).map_values(|r: RecordV| record_json(r)) =~= rs@.subrange(0, i as int).map_values(
                |b: BuildRecord| b@,
            ).map_values(|r: RecordV| record_json(r)).push(record_json(rs@[i as int]@)));
            assert(items@.map_values(|s: String| s@) =~= before.map_values(|s: String| s@).push(
                j@,
            ));
        }
        i = i + 1;
    }
    proof {
        assert(rs@.subrange(0, rs@.len() as int) =~= rs@);
    }
    let r = join_items(&items, '[', ']');
    proof {
        assert(r@ =~= records_json(rs@.map_values(|b: BuildRecord| b@)));
    }
    r
}

} // verus!
