//! `key=value` report lines.
use vstd::prelude::*;

use crate::text::{chars_of, is_whitespace, is_ws, join, string_of};

verus! {

/// How one character of a value is written: backslash, newline and
/// carriage return become two-character escapes.
pub open spec fn escape_char(c: char) -> Seq<char> {
    if c == '\\' {
        seq!['\\', '\\']
    } else if c == '\n' {
        seq!['\\', 'n']
    } else if c == '\r' {
        seq!['\\', 'r']
    } else {
        seq![c]
    }
}

pub open spec fn escape_chars(s: Seq<char>) -> Seq<char>
    decreases s.len(),
{
    if s.len() == 0 {
        Seq::empty()
    } else {
        escape_chars(s.drop_last()) + escape_char(s.last())
    }
}

/// `s` with every `"` preceded by a backslash.
pub open spec fn escape_quotes(s: Seq<char>) -> Seq<char>
    decreases s.len(),
{
    if s.len() == 0 {
        Seq::empty()
    } else {
        escape_quotes(s.drop_last()) + if s.last() == '"' {
            seq!['\\', '"']
        } else {
            seq![s.last()]
        }
    }
}

pub open spec fn needs_quotes(s: Seq<char>) -> bool {
    exists|i: int| 0 <= i < s.len() && (is_ws(#[trigger] s[i]) || s[i] == '"')
}

/// A report value: escaped, and quoted (with inner quotes escaped) when it
/// holds whitespace or a quote.
pub open spec fn escaped_value(v: Seq<char>) -> Seq<char> {
    let s = escape_chars(v);
    if needs_quotes(s) {
        seq!['"'] + escape_quotes(s) + seq!['"']
    } else {
        s
    }
}

/// Escapes and, when needed, quotes a report value.
pub fn escape_value(value: &str) -> (r: String)
    ensures
        r@ == escaped_value(value@),
{
    let v = chars_of(value);
    let mut s: Vec<char> = Vec::new();
    let mut i: usize = 0;
    while i < v.len()
        invariant
            i <= v.len(),
            s@ == escape_chars(v@.take(i as int)),
        decreases v.len() - i,
    {
        let c = v[i];
        let ghost before = s@;
        if c == '\\' {
            s.push('\\');
            s.push('\\');
        } else if c == '\n' {
            s.push('\\');
            s.push('n');
        } else if c == '\r' {
            s.push('\\');
            s.push('r');
        } else {
            s.push(c);
        }
        proof {
            assert(v@.take(i + 1).drop_last() == v@.take(i as int));
            assert(s@ =~= before + escape_char(c));
        }
        i = i + 1;
    }
    proof {
        assert(v@.take(v.len() as int) == v@);
    }
    let mut quotes = false;
    let mut k: usize = 0;
    while k < s.len()
        invariant
            k <= s.len(),
            quotes == exists|j: int| 0 <= j < k && (is_ws(#[trigger] s@[j]) || s@[j] == '"'),
        decreases s.len() - k,
    {
        if is_whitespace(s[k]) || s[k] == '"' {
            quotes = true;
        }
        k = k + 1;
    }
    if !quotes {
        return string_of(s.as_slice());
    }
    let mut q: Vec<char> = Vec::new();
    q.push('"');
    let mut j: usize = 0;
    while j < s.len()
        invariant
            j <= s.len(),
            q@ == seq!['"'] + escape_quotes(s@.take(j as int)),
        decreases s.len() - j,
    {
        let ghost before = q@;
        if s[j] == '"' {
            q.push('\\');
            q.push('"');
        } else {
            q.push(s[j]);
        }
        proof {
            assert(s@.take(j + 1).drop_last() == s@.take(j as int));
            assert(q@ =~= seq!['"'] + escape_quotes(s@.take(j + 1)));
        }
        j = j + 1;
    }
    q.push('"');
    proof {
        assert(s@.take(s.len() as int) == s@);
    }
    string_of(q.as_slice())
}

/// One `key=value` pair as it is printed.
pub open spec fn pair_text(key: Seq<char>, value: Seq<char>) -> Seq<char> {
    key + "="@ + escaped_value(value)
}

pub open spec fn pairs_text(pairs: Seq<(String, String)>) -> Seq<char> {
    join(Seq::new(pairs.len(), |i: int| pair_text(pairs[i].0@, pairs[i].1@)), " "@)
}

/// The report line for `pairs`: `key=value` items separated by spaces.
pub fn render_pairs(pairs: &Vec<(String, String)>) -> (r: String)
    ensures
        r@ == pairs_text(pairs@),
{
    let mut out = String::new();
    let mut i: usize = 0;
    let ghost items = Seq::new(pairs@.len(), |k: int| pair_text(pairs@[k].0@, pairs@[k].1@));
    proof {
        reveal_strlit(" ");
        reveal_strlit("=");
    }
    while i < pairs.len()
        invariant
            i <= pairs.len(),
            items == Seq::new(pairs@.len(), |k: int| pair_text(pairs@[k].0@, pairs@[k].1@)),
            out@ == join(items.take(i as int), " "@),
        decreases pairs.len() - i,
    {
        let ghost before = items.take(i as int);
        if i > 0 {
            out.append(" ");
        }
        out.append(pairs[i].0.as_str());
        out.append("=");
        let ev = escape_value(pairs[i].1.as_str());
        out.append(ev.as_str());
        proof {
            assert(items.take(i + 1) == before.push(items[i as int]));
            crate::text::lemma_join_push(before, " "@, items[i as int]);
        }
        i = i + 1;
    }
    proof {
        assert(items.take(pairs.len() as int) == items);
    }
    out
}

/// `s` holds no line break.
pub open spec fn single_line(s: Seq<char>) -> bool {
    forall|i: int| 0 <= i < s.len() ==> #[trigger] s[i] != '\n' && s[i] != '\r'
}

proof fn lemma_escape_chars_single_line(s: Seq<char>)
    ensures
        single_line(escape_chars(s)),
    decreases s.len(),
{
    if s.len() > 0 {
        lemma_escape_chars_single_line(s.drop_last());
        let a = escape_chars(s.drop_last());
        let b = escape_char(s.last());
        assert forall|i: int| 0 <= i < (a + b).len() implies #[trigger] (a + b)[i] != '\n' && (a
            + b)[i] != '\r' by {
            if i >= a.len() {
                assert((a + b)[i] == b[i - a.len()]);
            }
        }
    }
}

proof fn lemma_escape_quotes_single_line(s: Seq<char>)
    requires
        single_line(s),
    ensures
        single_line(escape_quotes(s)),
    decreases s.len(),
{
    if s.len() > 0 {
        assert(single_line(s.drop_last())) by {
            assert forall|i: int| 0 <= i < s.drop_last().len() implies #[trigger] s.drop_last()[i]
                != '\n' && s.drop_last()[i] != '\r' by {
                assert(s.drop_last()[i] == s[i]);
            }
        }
        lemma_escape_quotes_single_line(s.drop_last());
        let a = escape_quotes(s.drop_last());
        let b = if s.last() == '"' {
            seq!['\\', '"']
        } else {
            seq![s.last()]
        };
        assert(s.last() == s[s.len() - 1]);
        assert forall|i: int| 0 <= i < (a + b).len() implies #[trigger] (a + b)[i] != '\n' && (a
            + b)[i] != '\r' by {
            if i >= a.len() {
                assert((a + b)[i] == b[i - a.len()]);
            }
        }
    }
}

/// Whatever a value holds, its escaped form has no line break, so every
/// `key=value` pair of a report stays on its line.
pub proof fn lemma_escaped_value_single_line(v: Seq<char>)
    ensures
        single_line(escaped_value(v)),
{
    let s = escape_chars(v);
    lemma_escape_chars_single_line(v);
    if needs_quotes(s) {
        lemma_escape_quotes_single_line(s);
        let q = escape_quotes(s);
        let r = seq!['"'] + q + seq!['"'];
        assert forall|i: int| 0 <= i < r.len() implies #[trigger] r[i] != '\n' && r[i] != '\r' by {
            if 1 <= i < r.len() - 1 {
                assert(r[i] == q[i - 1]);
            }
        }
    }
}

/// Reads escapes: a backslash and the character after it stand for a
/// backslash, newline, carriage return or quote (`\\`, `\n`, `\r`, `\"`);
/// any other character stands for itself.
pub open spec fn unescape_chars(s: Seq<char>) -> Seq<char>
    decreases s.len(),
{
    if s.len() == 0 {
        Seq::empty()
    } else if s[0] == '\\' && s.len() >= 2 {
        let c = s[1];
        seq![
            if c == 'n' {
                '\n'
            } else if c == 'r' {
                '\r'
            } else {
                c
            },
        ] + unescape_chars(s.skip(2))
    } else {
        seq![s[0]] + unescape_chars(s.skip(1))
    }
}

/// Undoes the escaping of a report value: drops the surrounding quotes of
/// a quoted value, then reads its escapes.
pub open spec fn unescaped_value(r: Seq<char>) -> Seq<char> {
    if r.len() >= 2 && r[0] == '"' && r.last() == '"' {
        unescape_chars(r.subrange(1, r.len() - 1))
    } else {
        unescape_chars(r)
    }
}

proof fn lemma_escape_chars_front(v: Seq<char>)
    requires
        v.len() > 0,
    ensures
        escape_chars(v) == escape_char(v[0]) + escape_chars(v.drop_first()),
    decreases v.len(),
{
    if v.len() == 1 {
        assert(v.drop_last() =~= Seq::<char>::empty());
        assert(v.drop_first() =~= Seq::<char>::empty());
        assert(escape_char(v[0]) + Seq::<char>::empty() =~= escape_char(v[0]));
    } else {
        lemma_escape_chars_front(v.drop_last());
        assert(v.drop_last().drop_first() =~= v.drop_first().drop_last());
        assert(v.drop_first().last() == v.last());
        assert(v.drop_last()[0] == v[0]);
        assert(escape_char(v[0]) + escape_chars(v.drop_last().drop_first()) + escape_char(v.last())
            =~= escape_char(v[0]) + (escape_chars(v.drop_first().drop_last()) + escape_char(
            v.drop_first().last(),
        )));
    }
}

proof fn lemma_escape_quotes_concat(a: Seq<char>, b: Seq<char>)
    ensures
        escape_quotes(a + b) == escape_quotes(a) + escape_quotes(b),
    decreases b.len(),
{
    if b.len() == 0 {
        assert(a + b =~= a);
        assert(escape_quotes(a) + escape_quotes(b) =~= escape_quotes(a));
    } else {
        lemma_escape_quotes_concat(a, b.drop_last());
        assert((a + b).drop_last() =~= a + b.drop_last());
        assert((a + b).last() == b.last());
        let tail = if b.last() == '"' {
            seq!['\\', '"']
        } else {
            seq![b.last()]
        };
        assert(escape_quotes(a) + escape_quotes(b.drop_last()) + tail =~= escape_quotes(a) + (
        escape_quotes(b.drop_last()) + tail));
    }
}

proof fn lemma_unescape_step(c: char, rest: Seq<char>)
    ensures
        unescape_chars(escape_char(c) + rest) == seq![c] + unescape_chars(rest),
{
    let e = escape_char(c) + rest;
    if c == '\\' || c == '\n' || c == '\r' {
        assert(e.skip(2) =~= rest);
    } else {
        assert(e.skip(1) =~= rest);
    }
}

proof fn lemma_unescape_quoted_step(c: char, rest: Seq<char>)
    ensures
        unescape_chars(escape_quotes(escape_char(c)) + rest) == seq![c] + unescape_chars(rest),
{
    reveal_with_fuel(escape_quotes, 3);
    let q = escape_quotes(escape_char(c));
    if c == '\\' {
        assert(seq!['\\', '\\'].drop_last() =~= seq!['\\']);
        assert(seq!['\\'].drop_last() =~= Seq::<char>::empty());
        assert(q =~= seq!['\\', '\\']);
    } else if c == '\n' {
        assert(seq!['\\', 'n'].drop_last() =~= seq!['\\']);
        assert(seq!['\\'].drop_last() =~= Seq::<char>::empty());
        assert(q =~= seq!['\\', 'n']);
    } else if c == '\r' {
        assert(seq!['\\', 'r'].drop_last() =~= seq!['\\']);
        assert(seq!['\\'].drop_last() =~= Seq::<char>::empty());
        assert(q =~= seq!['\\', 'r']);
    } else if c == '"' {
        assert(seq!['"'].drop_last() =~= Seq::<char>::empty());
        assert(q =~= seq!['\\', '"']);
    } else {
        assert(seq![c].drop_last() =~= Seq::<char>::empty());
        assert(q =~= seq![c]);
    }
    let e = q + rest;
    if c == '\\' || c == '\n' || c == '\r' || c == '"' {
        assert(e.skip(2) =~= rest);
    } else {
        assert(e.skip(1) =~= rest);
    }
}

proof fn lemma_unescape_escape(v: Seq<char>, t: Seq<char>)
    ensures
        unescape_chars(escape_chars(v) + t) == v + unescape_chars(t),
        unescape_chars(escape_quotes(escape_chars(v)) + t) == v + unescape_chars(t),
    decreases v.len(),
{
    if v.len() == 0 {
        assert(escape_chars(v) + t =~= t);
        assert(escape_quotes(escape_chars(v)) + t =~= t);
        assert(v + unescape_chars(t) =~= unescape_chars(t));
    } else {
        let c = v[0];
        let w = v.drop_first();
        lemma_escape_chars_front(v);
        lemma_unescape_escape(w, t);
        assert(escape_chars(v) + t =~= escape_char(c) + (escape_chars(w) + t));
        lemma_unescape_step(c, escape_chars(w) + t);
        lemma_escape_quotes_concat(escape_char(c), escape_chars(w));
        assert(escape_quotes(escape_chars(v)) + t =~= escape_quotes(escape_char(c)) + (
        escape_quotes(escape_chars(w)) + t));
        lemma_unescape_quoted_step(c, escape_quotes(escape_chars(w)) + t);
        assert(seq![c] + (w + unescape_chars(t)) =~= v + unescape_chars(t));
    }
}

/// Undoing the escaping of a report value gives the value back, and a
/// value shows whitespace or a quote only when it is wrapped in quotes.
pub proof fn lemma_escaped_value_round_trip(v: Seq<char>)
    ensures
        unescaped_value(escaped_value(v)) == v,
        ({
            let r = escaped_value(v);
            (exists|i: int| 0 <= i < r.len() && (is_ws(#[trigger] r[i]) || r[i] == '"')) ==> (
            r.len() >= 2 && r[0] == '"' && r.last() == '"')
        }),
{
    let s = escape_chars(v);
    lemma_unescape_escape(v, Seq::empty());
    assert(s + Seq::<char>::empty() =~= s);
    assert(escape_quotes(s) + Seq::<char>::empty() =~= escape_quotes(s));
    assert(v + Seq::<char>::empty() =~= v);
    if needs_quotes(s) {
        let q = escape_quotes(s);
        let r = seq!['"'] + q + seq!['"'];
        assert(r.subrange(1, r.len() - 1) =~= q);
    } else {
        if s.len() >= 2 && s[0] == '"' {
            assert(is_ws(s[0]) || s[0] == '"');
        }
    }
}

} // verus!
