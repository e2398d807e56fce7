//! JSON encoding of the two payload shapes.  The payloads have a fixed
//! structure, so the encoder is written directly: strings are escaped as
//! JSON string literals, optional fields are left out entirely when unset,
//! and an insight value is encoded as its bare underlying JSON value.

use vstd::prelude::*;

use crate::models::{Insight, InsightValue, Log, TagHashMap};
use crate::text::{push_str_chars, string_from_chars};

verus! {

/// The character for the digit `d` (decimal or low hexadecimal).
pub open spec fn digit_char_spec(d: int) -> char {
    if d == 0 {
        '0'
    } else if d == 1 {
        '1'
    } else if d == 2 {
        '2'
    } else if d == 3 {
        '3'
    } else if d == 4 {
        '4'
    } else if d == 5 {
        '5'
    } else if d == 6 {
        '6'
    } else if d == 7 {
        '7'
    } else if d == 8 {
        '8'
    } else if d == 9 {
        '9'
    } else if d == 10 {
        'a'
    } else if d == 11 {
        'b'
    } else if d == 12 {
        'c'
    } else if d == 13 {
        'd'
    } else if d == 14 {
        'e'
    } else {
        'f'
    }
}

/// How one character appears inside a JSON string literal: quotes and
/// backslashes are escaped, control characters use a short escape or the
/// `\u00XX` form, and everything else stands for itself.
pub open spec fn escape_char(c: char) -> Seq<char> {
    if c == '"' {
        seq!['\\', '"']
    } else if c == '\\' {
        seq!['\\', '\\']
    } else if c == '\n' {
        seq!['\\', 'n']
    } else if c == '\r' {
        seq!['\\', 'r']
    } else if c == '\t' {
        seq!['\\', 't']
    } else if (c as u32) < 32 {
        seq!['\\', 'u', '0', '0', digit_char_spec(c as u32 as int / 16), digit_char_spec(
            c as u32 as int % 16,
        )]
    } else {
        seq![c]
    }
}

/// The body of a JSON string literal encoding `s`.
pub open spec fn escape_seq(s: Seq<char>) -> Seq<char>
    decreases s.len(),
{
    if s.len() == 0 {
        Seq::<char>::empty()
    } else {
        escape_char(s[0]) + escape_seq(s.drop_first())
    }
}

/// The JSON string literal encoding `s`, quotes included.
pub open spec fn json_string(s: Seq<char>) -> Seq<char> {
    seq!['"'] + escape_seq(s) + seq!['"']
}

/// The decimal digits of `n`, most significant first.
pub open spec fn dec_digits(n: nat) -> Seq<char>
    decreases n,
{
    if n < 10 {
        seq![digit_char_spec(n as int)]
    } else {
        dec_digits(n / 10) + seq![digit_char_spec((n % 10) as int)]
    }
}

/// The decimal encoding of `i`, with a leading minus sign if negative.
pub open spec fn int_digits(i: int) -> Seq<char> {
    if i < 0 {
        seq!['-'] + dec_digits((-i) as nat)
    } else {
        dec_digits(i as nat)
    }
}

/// The JSON encoding of a boolean.
pub open spec fn json_bool(b: bool) -> Seq<char> {
    if b {
        "true"@
    } else {
        "false"@
    }
}

/// The JSON encoding of an insight value: the bare underlying string,
/// number or boolean, with no wrapper object around it.
pub open spec fn json_insight_value(v: InsightValue) -> Seq<char> {
    match v {
        InsightValue::Str(s) => json_string(s@),
        InsightValue::Int(i) => int_digits(i as int),
        InsightValue::Bool(b) => json_bool(b),
    }
}

/// The members of the JSON object encoding the tag pairs, in order,
/// separated by commas.
pub open spec fn json_tag_entries(ps: Seq<(Seq<char>, Seq<char>)>) -> Seq<char>
    decreases ps.len(),
{
    if ps.len() == 0 {
        Seq::<char>::empty()
    } else if ps.len() == 1 {
        json_string(ps[0].0) + seq![':'] + json_string(ps[0].1)
    } else {
        json_string(ps[0].0) + seq![':'] + json_string(ps[0].1) + seq![','] + json_tag_entries(
            ps.drop_first(),
        )
    }
}

/// The JSON object encoding the tag pairs.
pub open spec fn json_tags(ps: Seq<(Seq<char>, Seq<char>)>) -> Seq<char> {
    seq!['{'] + json_tag_entries(ps) + seq!['}']
}

/// The JSON encoding of an event-log payload: the three required fields,
/// then each optional field only if it is set; a tag set appears only if
/// it is set and holds at least one tag.
pub open spec fn json_log(l: Log) -> Seq<char> {
    "{\"project\":"@ + json_string(l.project@) + ",\"channel\":"@ + json_string(l.channel@)
        + ",\"event\":"@ + json_string(l.event@) + (if l.description is Some {
        ",\"description\":"@ + json_string(l.description->0@)
    } else {
        Seq::<char>::empty()
    }) + (if l.icon is Some {
        ",\"icon\":"@ + json_string(l.icon->0@)
    } else {
        Seq::<char>::empty()
    }) + (if l.notify is Some {
        ",\"notify\":"@ + json_bool(l.notify->0)
    } else {
        Seq::<char>::empty()
    }) + (if l.tags is Some && l.tags->0.pairs().len() > 0 {
        ",\"tags\":"@ + json_tags(l.tags->0.pairs())
    } else {
        Seq::<char>::empty()
    }) + seq!['}']
}

/// The JSON encoding of an insight payload with the given field contents:
/// project, title and bare value, then the icon only if it is set.
pub open spec fn json_insight_fields(
    project: Seq<char>,
    title: Seq<char>,
    value: InsightValue,
    icon: Option<Seq<char>>,
) -> Seq<char> {
    "{\"project\":"@ + json_string(project) + ",\"title\":"@ + json_string(title) + ",\"value\":"@
        + json_insight_value(value) + (if icon is Some {
        ",\"icon\":"@ + json_string(icon->0)
    } else {
        Seq::<char>::empty()
    }) + seq!['}']
}

/// The JSON encoding of an insight payload.
pub open spec fn json_insight(v: Insight) -> Seq<char> {
    json_insight_fields(
        v.project@,
        v.title@,
        v.value,
        match v.icon {
            Some(s) => Some(s@),
            None => None,
        },
    )
}

/// Law: an event-log payload with no optional field set encodes to a JSON
/// object holding exactly the three required members `project`, `channel`
/// and `event` — no member at all is emitted for an unset optional field,
/// null-valued or otherwise.
pub proof fn lemma_log_json_no_optionals(l: Log)
    requires
        l.description is None,
        l.icon is None,
        l.notify is None,
        l.tags is None,
    ensures
        json_log(l) == "{\"project\":"@ + json_string(l.project@) + ",\"channel\":"@ + json_string(
            l.channel@,
        ) + ",\"event\":"@ + json_string(l.event@) + seq!['}'],
{
    assert(json_log(l) =~= "{\"project\":"@ + json_string(l.project@) + ",\"channel\":"@
        + json_string(l.channel@) + ",\"event\":"@ + json_string(l.event@) + seq!['}']);
}

fn digit_char(d: u32) -> (c: char)
    requires
        d < 16,
    ensures
        c == digit_char_spec(d as int),
{
    if d == 0 {
        '0'
    } else if d == 1 {
        '1'
    } else if d == 2 {
        '2'
    } else if d == 3 {
        '3'
    } else if d == 4 {
        '4'
    } else if d == 5 {
        '5'
    } else if d == 6 {
        '6'
    } else if d == 7 {
        '7'
    } else if d == 8 {
        '8'
    } else if d == 9 {
        '9'
    } else if d == 10 {
        'a'
    } else if d == 11 {
        'b'
    } else if d == 12 {
        'c'
    } else if d == 13 {
        'd'
    } else if d == 14 {
        'e'
    } else {
        'f'
    }
}

fn push_escaped_char(out: &mut Vec<char>, c: char)
    ensures
        final(out)@ == old(out)@ + escape_char(c),
{
    if c == '"' {
        out.push('\\');
        out.push('"');
        proof {
            assert(out@ =~= old(out)@ + escape_char(c));
        }
    } else if c == '\\' {
        out.push('\\');
        out.push('\\');
        proof {
            assert(out@ =~= old(out)@ + escape_char(c));
        }
    } else if c == '\n' {
        out.push('\\');
        out.push('n');
        proof {
            assert(out@ =~= old(out)@ + escape_char(c));
        }
    } else if c == '\r' {
        out.push('\\');
        out.push('r');
        proof {
            assert(out@ =~= old(out)@ + escape_char(c));
        }
    } else if c == '\t' {
        out.push('\\');
        out.push('t');
        proof {
            assert(out@ =~= old(out)@ + escape_char(c));
        }
    } else if (c as u32) < 32 {
        let u = c as u32;
        out.push('\\');
        out.push('u');
        out.push('0');
        out.push('0');
        out.push(digit_char(u / 16));
        out.push(digit_char(u % 16));
        proof {
            assert(out@ =~= old(out)@ + escape_char(c));
        }
    } else {
        out.push(c);
        proof {
            assert(out@ =~= old(out)@ + escape_char(c));
        }
    }
}

fn push_escaped(out: &mut Vec<char>, s: &str)
    ensures
        final(out)@ == old(out)@ + escape_seq(s@),
{
    let n = s.unicode_len();
    let mut i: usize = 0;
    proof {
        assert(s@.subrange(0, n as int) =~= s@);
    }
    while i < n
        invariant
            n == s@.len(),
            i <= n,
            old(out)@ + escape_seq(s@) == out@ + escape_seq(s@.subrange(i as int, n as int)),
        decreases n - i,
    {
        let ghost pre = out@;
        let c = s.get_char(i);
        proof {
            let suffix = s@.subrange(i as int, n as int);
            assert(suffix[0] == s@[i as int]);
            assert(suffix.drop_first() =~= s@.subrange(i + 1 as int, n as int));
            assert(pre + escape_seq(suffix) =~= pre + escape_char(c) + escape_seq(
                s@.subrange(i + 1 as int, n as int),
            ));
        }
        push_escaped_char(out, c);
        i = i + 1;
    }
    proof {
        assert(s@.subrange(n as int, n as int) =~= Seq::<char>::empty());
        assert(out@ + escape_seq(s@.subrange(n as int, n as int)) =~= out@);
    }
}

fn push_json_string(out: &mut Vec<char>, s: &str)
    ensures
        final(out)@ == old(out)@ + json_string(s@),
{
    out.push('"');
    push_escaped(out, s);
    out.push('"');
    proof {
        assert(out@ =~= old(out)@ + json_string(s@));
    }
}

pub(crate) fn push_dec_u32(out: &mut Vec<char>, n: u32)
    ensures
        final(out)@ == old(out)@ + dec_digits(n as nat),
    decreases n,
{
    if n < 10 {
        out.push(digit_char(n));
        proof {
            assert(out@ =~= old(out)@ + dec_digits(n as nat));
        }
    } else {
        push_dec_u32(out, n / 10);
        out.push(digit_char(n % 10));
        proof {
            assert(out@ =~= old(out)@ + dec_digits(n as nat));
        }
    }
}

fn push_i32(out: &mut Vec<char>, i: i32)
    ensures
        final(out)@ == old(out)@ + int_digits(i as int),
{
    if i < 0 {
        out.push('-');
        let m = (-(i as i64)) as u32;
        proof {
            assert(m == -(i as int));
        }
        push_dec_u32(out, m);
        proof {
            assert(out@ =~= old(out)@ + int_digits(i as int));
        }
    } else {
        push_dec_u32(out, i as u32);
    }
}

fn push_bool(out: &mut Vec<char>, b: bool)
    ensures
        final(out)@ == old(out)@ + json_bool(b),
{
    if b {
        push_str_chars(out, "true");
    } else {
        push_str_chars(out, "false");
    }
}

fn push_tags(out: &mut Vec<char>, t: &TagHashMap)
    ensures
        final(out)@ == old(out)@ + json_tags(t.pairs()),
{
    out.push('{');
    let n = t.len();
    let mut i: usize = 0;
    proof {
        assert(t.pairs().subrange(0, n as int) =~= t.pairs());
    }
    while i < n
        invariant
            n == t.pairs().len(),
            i <= n,
            old(out)@ + seq!['{'] + json_tag_entries(t.pairs()) == out@ + json_tag_entries(
                t.pairs().subrange(i as int, n as int),
            ),
        decreases n - i,
    {
        let ghost pre = out@;
        let ghost suffix = t.pairs().subrange(i as int, n as int);
        proof {
            assert(suffix[0] == t.pairs()[i as int]);
            assert(suffix.drop_first() =~= t.pairs().subrange(i + 1 as int, n as int));
        }
        push_json_string(out, t.key_at(i).as_str());
        out.push(':');
        push_json_string(out, t.value_at(i).as_str());
        if i + 1 < n {
            out.push(',');
            proof {
                assert(out@ =~= pre + json_string(suffix[0].0) + seq![':'] + json_string(
                    suffix[0].1,
                ) + seq![',']);
                assert(pre + json_tag_entries(suffix) =~= out@ + json_tag_entries(
                    t.pairs().subrange(i + 1 as int, n as int),
                ));
            }
        } else {
            proof {
                assert(suffix.len() == 1);
                assert(out@ =~= pre + json_string(suffix[0].0) + seq![':'] + json_string(
                    suffix[0].1,
                ));
                assert(pre + json_tag_entries(suffix) =~= out@ + json_tag_entries(
                    t.pairs().subrange(i + 1 as int, n as int),
                ));
            }
        }
        i = i + 1;
    }
    out.push('}');
    proof {
        assert(t.pairs().subrange(n as int, n as int) =~= Seq::<(Seq<char>, Seq<char>)>::empty());
        assert(out@ =~= old(out)@ + json_tags(t.pairs()));
    }
}

impl Log {
    /// The JSON text of this payload, exactly as it goes on the wire.
    #[verifier::rlimit(50)]
    pub fn to_json(&self) -> (r: String)
        ensures
            r@ == json_log(*self),
    {
        let mut out: Vec<char> = Vec::new();
        push_str_chars(&mut out, "{\"project\":");
        push_json_string(&mut out, self.project.as_str());
        push_str_chars(&mut out, ",\"channel\":");
        push_json_string(&mut out, self.channel.as_str());
        push_str_chars(&mut out, ",\"event\":");
        push_json_string(&mut out, self.event.as_str());
        let ghost head = "{\"project\":"@ + json_string(self.project@) + ",\"channel\":"@
            + json_string(self.channel@) + ",\"event\":"@ + json_string(self.event@);
        proof {
            assert(out@ =~= head);
        }
        match &self.description {
            Some(d) => {
                push_str_chars(&mut out, ",\"description\":");
                push_json_string(&mut out, d.as_str());
            },
            None => {},
        }
        let ghost with_description = head + (if self.description is Some {
            ",\"description\":"@ + json_string(self.description->0@)
        } else {
            Seq::<char>::empty()
        });
        proof {
            assert(out@ =~= with_description);
        }
        match &self.icon {
            Some(ic) => {
                push_str_chars(&mut out, ",\"icon\":");
                push_json_string(&mut out, ic.as_str());
            },
            None => {},
        }
        let ghost with_icon = with_description + (if self.icon is Some {
            ",\"icon\":"@ + json_string(self.icon->0@)
        } else {
            Seq::<char>::empty()
        });
        proof {
            assert(out@ =~= with_icon);
        }
        match self.notify {
            Some(b) => {
                push_str_chars(&mut out, ",\"notify\":");
                push_bool(&mut out, b);
            },
            None => {},
        }
        let ghost with_notify = with_icon + (if self.notify is Some {
            ",\"notify\":"@ + json_bool(self.notify->0)
        } else {
            Seq::<char>::empty()
        });
        proof {
            assert(out@ =~= with_notify);
        }
        match &self.tags {
            Some(t) => {
                if t.len() > 0 {
                    push_str_chars(&mut out, ",\"tags\":");
                    push_tags(&mut out, t);
                }
            },
            None => {},
        }
        let ghost with_tags = with_notify + (if self.tags is Some && self.tags->0.pairs().len()
            > 0 {
            ",\"tags\":"@ + json_tags(self.tags->0.pairs())
        } else {
            Seq::<char>::empty()
        });
        proof {
            assert(out@ =~= with_tags);
        }
        out.push('}');
        proof {
            assert(out@ =~= json_log(*self));
        }
        string_from_chars(&out)
    }
}

impl Insight {
    /// The JSON text of this payload, exactly as it goes on the wire.
    pub fn to_json(&self) -> (r: String)
        ensures
            r@ == json_insight(*self),
    {
        let mut out: Vec<char> = Vec::new();
        push_str_chars(&mut out, "{\"project\":");
        push_json_string(&mut out, self.project.as_str());
        push_str_chars(&mut out, ",\"title\":");
        push_json_string(&mut out, self.title.as_str());
        push_str_chars(&mut out, ",\"value\":");
        match &self.value {
            InsightValue::Str(s) => push_json_string(&mut out, s.as_str()),
            InsightValue::Int(i) => push_i32(&mut out, *i),
            InsightValue::Bool(b) => push_bool(&mut out, *b),
        }
        match &self.icon {
            Some(ic) => {
                push_str_chars(&mut out, ",\"icon\":");
                push_json_string(&mut out, ic.as_str());
            },
            None => {},
        }
        out.push('}');
        proof {
            assert(out@ =~= json_insight(*self));
        }
        string_from_chars(&out)
    }
}

} // verus!
