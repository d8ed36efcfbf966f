//! The CSV an export is written as. Semicolon-separated with a decimal comma, because that is
//! what a spreadsheet on a European locale opens without being asked twice.

use vstd::prelude::*;
use crate::amount::{Amount, figure_of, figure_text, is_figure_char, lemma_figure_text_chars};
use crate::text::{chars_of, string_of};

verus! {

/// A character that would end a field or a row, or start a quoted one.
pub open spec fn is_special(c: char) -> bool {
    c == ';' || c == '"' || c == '\n' || c == '\r'
}

pub open spec fn needs_quoting(v: Seq<char>) -> bool {
    exists|i: int| 0 <= i < v.len() && is_special(#[trigger] v[i])
}

/// What one character becomes inside a quoted field: a quote is doubled.
pub open spec fn escaped_char(c: char) -> Seq<char> {
    if c == '"' {
        seq!['"', '"']
    } else {
        seq![c]
    }
}

/// The text with every quote doubled.
pub open spec fn escaped(v: Seq<char>) -> Seq<char>
    decreases v.len(),
{
    if v.len() == 0 {
        Seq::empty()
    } else {
        escaped_char(v[0]) + escaped(v.drop_first())
    }
}

/// One field as written: quoted, with quotes doubled, when it holds a separator, a quote or a
/// line break; as it is otherwise.
pub open spec fn cell_text(v: Seq<char>) -> Seq<char> {
    if needs_quoting(v) {
        seq!['"'] + escaped(v) + seq!['"']
    } else {
        v
    }
}

/// The fields joined by `;`.
pub open spec fn joined(cells: Seq<Seq<char>>) -> Seq<char>
    decreases cells.len(),
{
    if cells.len() == 0 {
        Seq::empty()
    } else if cells.len() == 1 {
        cell_text(cells[0])
    } else {
        joined(cells.drop_last()) + seq![';'] + cell_text(cells.last())
    }
}

/// One row as written: the fields joined by `;`, then a line break.
pub open spec fn row_text(cells: Seq<Seq<char>>) -> Seq<char> {
    joined(cells) + seq!['\n']
}

/// The decimal point of a figure written as a comma.
pub open spec fn comma_for_dot(s: Seq<char>) -> Seq<char> {
    s.map_values(|c: char| if c == '.' { ',' } else { c })
}

/// The money cell of a figure: its text with a decimal comma.
pub open spec fn money_text(value: (int, int, bool)) -> Seq<char> {
    comma_for_dot(figure_text(value.0, value.1, value.2))
}

proof fn lemma_escaped_push(v: Seq<char>, c: char)
    ensures
        escaped(v.push(c)) == escaped(v) + escaped_char(c),
    decreases v.len(),
{
    if v.len() == 0 {
        assert(v.push(c).drop_first() =~= Seq::<char>::empty());
        assert(escaped(v.push(c).drop_first()) =~= Seq::<char>::empty());
        assert(v.push(c)[0] == c);
        assert(escaped(v) =~= Seq::<char>::empty());
        assert(escaped(v.push(c)) =~= escaped_char(c));
    } else {
        lemma_escaped_push(v.drop_first(), c);
        assert(v.push(c).drop_first() =~= v.drop_first().push(c));
        assert(escaped(v.push(c)) =~= escaped(v) + escaped_char(c));
    }
}

/// Reads the content of a quoted field, after its opening quote, up to the closing one: the
/// content with doubled quotes made single again, and what follows the closing quote.
pub open spec fn read_quoted(s: Seq<char>) -> (Seq<char>, Seq<char>)
    decreases s.len(),
{
    if s.len() == 0 {
        (Seq::empty(), Seq::empty())
    } else if s[0] == '"' {
        if s.len() >= 2 && s[1] == '"' {
            let (c, r) = read_quoted(s.subrange(2, s.len() as int));
            (seq!['"'] + c, r)
        } else {
            (Seq::empty(), s.drop_first())
        }
    } else {
        let (c, r) = read_quoted(s.drop_first());
        (seq![s[0]] + c, r)
    }
}

/// Reads an unquoted field up to the next `;` or line break.
pub open spec fn read_plain(s: Seq<char>) -> (Seq<char>, Seq<char>)
    decreases s.len(),
{
    if s.len() == 0 {
        (Seq::empty(), Seq::empty())
    } else if s[0] == ';' || s[0] == '\n' {
        (Seq::empty(), s)
    } else {
        let (c, r) = read_plain(s.drop_first());
        (seq![s[0]] + c, r)
    }
}

/// Reads one field: the value and what follows it.
pub open spec fn read_field(s: Seq<char>) -> (Seq<char>, Seq<char>) {
    if s.len() > 0 && s[0] == '"' {
        read_quoted(s.drop_first())
    } else {
        read_plain(s)
    }
}

/// Reads the fields of one row, as a spreadsheet splits it: field after field, each followed
/// by a `;` or by the end of the row.
pub open spec fn read_row(s: Seq<char>) -> Seq<Seq<char>>
    decreases s.len(),
{
    let (f, rest) = read_field(s);
    if rest.len() > 0 && rest[0] == ';' && rest.len() <= s.len() {
        seq![f] + read_row(rest.drop_first())
    } else {
        seq![f]
    }
}

/// What may follow a field: nothing, a separator or a line break.
pub open spec fn field_end(t: Seq<char>) -> bool {
    t.len() == 0 || t[0] == ';' || t[0] == '\n'
}

proof fn lemma_read_plain(v: Seq<char>, t: Seq<char>)
    requires
        !needs_quoting(v),
        field_end(t),
    ensures
        read_plain(v + t) == (v, t),
    decreases v.len(),
{
    if v.len() == 0 {
        assert(v + t =~= t);
    } else {
        assert(!is_special(v[0]));
        let rest = v.drop_first();
        assert forall|i: int| 0 <= i < rest.len() implies !is_special(#[trigger] rest[i]) by {
            assert(rest[i] == v[i + 1]);
        }
        lemma_read_plain(rest, t);
        assert((v + t).drop_first() =~= rest + t);
        assert(seq![v[0]] + rest =~= v);
    }
}

proof fn lemma_read_quoted(v: Seq<char>, t: Seq<char>)
    requires
        t.len() == 0 || t[0] != '"',
    ensures
        read_quoted(escaped(v) + seq!['"'] + t) == (v, t),
    decreases v.len(),
{
    let s = escaped(v) + seq!['"'] + t;
    if v.len() == 0 {
        assert(escaped(v) =~= Seq::<char>::empty());
        assert(s =~= seq!['"'] + t);
        assert(s.drop_first() =~= t);
    } else {
        let rest = v.drop_first();
        lemma_read_quoted(rest, t);
        let tail = escaped(rest) + seq!['"'] + t;
        assert(seq![v[0]] + rest =~= v);
        if v[0] == '"' {
            assert(s =~= seq!['"', '"'] + tail);
            assert(s.subrange(2, s.len() as int) =~= tail);
            assert(seq!['"'] + rest =~= v);
        } else {
            assert(s =~= seq![v[0]] + tail);
            assert(s.drop_first() =~= tail);
        }
    }
}

proof fn lemma_read_field(v: Seq<char>, t: Seq<char>)
    requires
        field_end(t),
    ensures
        read_field(cell_text(v) + t) == (v, t),
{
    if needs_quoting(v) {
        let s = seq!['"'] + escaped(v) + seq!['"'] + t;
        assert(cell_text(v) + t =~= s);
        assert(s.drop_first() =~= escaped(v) + seq!['"'] + t);
        lemma_read_quoted(v, t);
    } else {
        lemma_read_plain(v, t);
        if v.len() > 0 {
            assert(!is_special(v[0]));
            assert((v + t)[0] == v[0]);
        } else {
            assert(v + t =~= t);
        }
    }
}

proof fn lemma_joined_front(cells: Seq<Seq<char>>)
    requires
        cells.len() >= 2,
    ensures
        joined(cells) == cell_text(cells[0]) + seq![';'] + joined(cells.drop_first()),
    decreases cells.len(),
{
    if cells.len() == 2 {
        assert(cells.drop_last().len() == 1);
        assert(cells.drop_first().len() == 1);
        assert(cells.drop_first()[0] == cells.last());
        assert(cells.drop_last()[0] == cells[0]);
        assert(joined(cells.drop_last()) == cell_text(cells[0]));
        assert(joined(cells.drop_first()) == cell_text(cells.last()));
    } else {
        lemma_joined_front(cells.drop_last());
        assert(cells.drop_last().drop_first() =~= cells.drop_first().drop_last());
        assert(cells.drop_first().last() == cells.last());
        assert(cells.drop_last()[0] == cells[0]);
        let a = cell_text(cells[0]);
        let m = joined(cells.drop_first().drop_last());
        let z = cell_text(cells.last());
        assert(joined(cells) == joined(cells.drop_last()) + seq![';'] + z);
        assert(joined(cells.drop_last()) == a + seq![';'] + m);
        assert(joined(cells.drop_first()) == m + seq![';'] + z);
        assert(a + seq![';'] + m + seq![';'] + z =~= a + seq![';'] + (m + seq![';'] + z));
    }
}

proof fn lemma_joined_reads_back(cells: Seq<Seq<char>>)
    requires
        cells.len() >= 1,
    ensures
        read_row(joined(cells) + seq!['\n']) == cells,
    decreases cells.len(),
{
    let s = joined(cells) + seq!['\n'];
    if cells.len() == 1 {
        lemma_read_field(cells[0], seq!['\n']);
        assert(seq![cells[0]] =~= cells);
    } else {
        lemma_joined_front(cells);
        let tail = cells.drop_first();
        let rest = seq![';'] + joined(tail) + seq!['\n'];
        assert(s =~= cell_text(cells[0]) + rest);
        lemma_read_field(cells[0], rest);
        assert(rest.drop_first() =~= joined(tail) + seq!['\n']);
        lemma_joined_reads_back(tail);
        assert(seq![cells[0]] + tail =~= cells);
    }
}

/// A row read back splits into exactly the values it was written from: no value, whatever
/// separators, quotes or line breaks it holds, becomes two columns or spills into the next row.
/// (A row of no values at all is written as an empty line, which reads as one empty value.)
pub proof fn law_row_reads_back(cells: Seq<Seq<char>>)
    requires
        cells.len() >= 1,
    ensures
        read_row(row_text(cells)) == cells,
{
    lemma_joined_reads_back(cells);
}

/// A CSV cell. Semicolon-separated because that is what a European-locale spreadsheet
/// expects, so a name carrying one — or a quote, or a line break — has to be quoted like any
/// CSV field.
pub fn cell(value: &str) -> (s: String)
    ensures
        s@ == cell_text(value@),
{
    let v = chars_of(value);
    let mut special = false;
    let mut i: usize = 0;
    while i < v.len()
        invariant
            v@ == value@,
            i <= v.len(),
            special == exists|k: int| 0 <= k < i && is_special(#[trigger] v@[k]),
        decreases v.len() - i,
    {
        let c = v[i];
        if c == ';' || c == '"' || c == '\n' || c == '\r' {
            special = true;
        }
        i = i + 1;
    }
    if !special {
        return string_of(&v);
    }
    let mut out: Vec<char> = Vec::new();
    out.push('"');
    let mut j: usize = 0;
    while j < v.len()
        invariant
            v@ == value@,
            j <= v.len(),
            out@ == seq!['"'] + escaped(v@.subrange(0, j as int)),
        decreases v.len() - j,
    {
        let c = v[j];
        proof {
            lemma_escaped_push(v@.subrange(0, j as int), c);
            assert(v@.subrange(0, j as int).push(c) =~= v@.subrange(0, j + 1));
        }
        if c == '"' {
            out.push('"');
            out.push('"');
        } else {
            out.push(c);
        }
        j = j + 1;
        assert(out@ =~= seq!['"'] + escaped(v@.subrange(0, j as int)));
    }
    out.push('"');
    assert(v@.subrange(0, v@.len() as int) =~= v@);
    assert(out@ =~= seq!['"'] + escaped(v@) + seq!['"']);
    string_of(&out)
}

/// One CSV row from cells that are already strings.
pub fn row<const N: usize>(cells: [&str; N]) -> (line: String)
    ensures
        line@ == row_text(cells@.map_values(|c: &str| c@)),
{
    let ghost all = cells@.map_values(|c: &str| c@);
    let mut line = String::new();
    let mut i: usize = 0;
    while i < N
        invariant
            N == cells@.len(),
            all == cells@.map_values(|c: &str| c@),
            i <= N,
            line@ == joined(all.subrange(0, i as int)),
        decreases N - i,
    {
        let value = cells[i];
        if i > 0 {
            line.push(';');
        }
        let c = cell(value);
        line.append(c.as_str());
        proof {
            let prefix = all.subrange(0, i + 1);
            assert(prefix.drop_last() =~= all.subrange(0, i as int));
            assert(prefix.last() == value@);
            if i == 0 {
                assert(prefix.len() == 1);
            }
        }
        i = i + 1;
    }
    assert(all.subrange(0, N as int) =~= all);
    line.push('\n');
    line
}

/// A number for the same spreadsheet the separator is chosen for: a locale that splits columns
/// on `;` also reads `12.50` as text, so the decimal mark is a comma.
pub fn money(value: Amount) -> (s: String)
    ensures
        s@ == money_text(figure_of(value)),
        !s@.contains('.'),
        !needs_quoting(s@),
        cell_text(s@) == s@,
{
    let text = value.to_text();
    let v = chars_of(text.as_str());
    let mut out: Vec<char> = Vec::new();
    let mut i: usize = 0;
    while i < v.len()
        invariant
            v@ == figure_text(value.view().0, value.view().1, value.sign_negative()),
            i <= v.len(),
            out@ == comma_for_dot(v@.subrange(0, i as int)),
        decreases v.len() - i,
    {
        let c = v[i];
        if c == '.' {
            out.push(',');
        } else {
            out.push(c);
        }
        i = i + 1;
        assert(out@ =~= comma_for_dot(v@.subrange(0, i as int)));
    }
    assert(v@.subrange(0, v@.len() as int) =~= v@);
    proof {
        law_money_cell_needs_no_quoting(figure_of(value));
    }
    string_of(&out)
}

/// A money cell never needs quoting in a `;` file: a figure is written with digits, a point and a
/// minus sign, and the point becomes a comma, which separates nothing here.
pub proof fn law_money_cell_needs_no_quoting(value: (int, int, bool))
    ensures
        !money_text(value).contains('.'),
        !needs_quoting(money_text(value)),
        cell_text(money_text(value)) == money_text(value),
{
    lemma_figure_text_chars(value.0, value.1, value.2);
    let t = figure_text(value.0, value.1, value.2);
    let m = money_text(value);
    assert forall|k: int| 0 <= k < m.len() implies m[k] != '.' && !is_special(#[trigger] m[k]) by {
        assert(is_figure_char(t[k]));
    }
    if m.contains('.') {
        let k = choose|k: int| 0 <= k < m.len() && m[k] == '.';
        assert(m[k] != '.');
    }
    if needs_quoting(m) {
        let k = choose|k: int| 0 <= k < m.len() && is_special(#[trigger] m[k]);
        assert(!is_special(m[k]));
    }
}

/// A figure that may be missing: an empty cell when it is.
pub fn maybe(value: Option<Amount>) -> (s: String)
    ensures
        s@ == match value {
            Some(v) => money_text(figure_of(v)),
            None => Seq::<char>::empty(),
        },
{
    match value {
        Some(v) => money(v),
        None => String::new(),
    }
}

} // verus!
