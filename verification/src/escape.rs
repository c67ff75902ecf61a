//! Escaping of one field for use inside a table cell.

use vstd::prelude::*;

verus! {

/// What one character of a field becomes inside a cell: a pipe gets a
/// backslash in front, a line feed becomes a `<br>` tag, a carriage return
/// disappears, and every other character stands for itself.
pub open spec fn escape_char(c: char) -> Seq<char> {
    if c == '|' {
        seq!['\\', '|']
    } else if c == '\n' {
        seq!['<', 'b', 'r', '>']
    } else if c == '\r' {
        Seq::empty()
    } else {
        seq![c]
    }
}

/// The escaped form of a whole field: the images of its characters, in order.
pub open spec fn escape_text(s: Seq<char>) -> Seq<char>
    decreases s.len(),
{
    if s.len() == 0 {
        Seq::empty()
    } else {
        escape_text(s.drop_last()) + escape_char(s.last())
    }
}

/// Whether escaping leaves the character as it is.
pub open spec fn is_plain(c: char) -> bool {
    c != '|' && c != '\n' && c != '\r'
}

/// A field made of plain characters only is its own escaped form.
pub proof fn lemma_plain_text_unchanged(s: Seq<char>)
    requires
        forall|i: int| 0 <= i < s.len() ==> is_plain(#[trigger] s[i]),
    ensures
        escape_text(s) == s,
    decreases s.len(),
{
    if s.len() > 0 {
        lemma_plain_text_unchanged(s.drop_last());
        assert(s.drop_last() + seq![s.last()] =~= s);
    }
}

/// Two characters other than the carriage return have the same escaped
/// form only if they are the same character: an escaped pipe, a line break
/// tag and a character that stands for itself are never mistaken for one
/// another.
pub proof fn lemma_escape_char_injective(c: char, d: char)
    requires
        c != '\r',
        d != '\r',
        escape_char(c) == escape_char(d),
    ensures
        c == d,
{
    lemma_escape_char_shape(c);
    lemma_escape_char_shape(d);
}

/// The length of an escaped character and its first character, by kind.
proof fn lemma_escape_char_shape(c: char)
    ensures
        c == '|' ==> escape_char(c).len() == 2 && escape_char(c)[0] == '\\' && escape_char(c)[1]
            == '|',
        c == '\n' ==> escape_char(c).len() == 4 && escape_char(c)[0] == '<' && escape_char(c)[3]
            == '>',
        c == '\r' ==> escape_char(c).len() == 0,
        is_plain(c) ==> escape_char(c).len() == 1 && escape_char(c)[0] == c,
{
}

/// Every pipe in an escaped text has a backslash directly before it.
pub proof fn lemma_escaped_pipes(s: Seq<char>, i: int)
    requires
        0 <= i < escape_text(s).len(),
        escape_text(s)[i] == '|',
    ensures
        i > 0,
        escape_text(s)[i - 1] == '\\',
    decreases s.len(),
{
    if s.len() > 0 {
        let head = escape_text(s.drop_last());
        if i < head.len() {
            lemma_escaped_pipes(s.drop_last(), i);
        } else {
            let c = s.last();
            lemma_escape_char_shape(c);
            assert(escape_text(s)[i] == escape_char(c)[i - head.len()]);
            if c == '|' {
                assert(i - head.len() == 1);
                assert(escape_text(s)[i - 1] == escape_char(c)[0]);
            }
        }
    }
}

/// Two different fields of the same length have different escaped forms if
/// they differ only in places where one of them has a pipe and the other a
/// line feed, or any other character but a carriage return: an escaped
/// pipe is not mistaken for a line break tag nor for a character that
/// stands for itself.
///
/// The same does not hold of line feeds against other characters: a line
/// feed and the four characters of a line break tag are escaped alike.
pub proof fn lemma_escape_tells_pipes_apart(a: Seq<char>, b: Seq<char>)
    requires
        a.len() == b.len(),
        forall|i: int|
            0 <= i < a.len() ==> a[i] == b[i] || (a[i] == '|' && b[i] != '\r') || (b[i] == '|'
                && a[i] != '\r'),
        a != b,
    ensures
        escape_text(a) != escape_text(b),
    decreases a.len(),
{
    if a.len() == 0 {
        assert(a =~= b);
    } else {
        let a_head = escape_text(a.drop_last());
        let b_head = escape_text(b.drop_last());
        let a_tail = escape_char(a.last());
        let b_tail = escape_char(b.last());
        if a.last() == b.last() {
            if a.drop_last() =~= b.drop_last() {
                assert(a =~= a.drop_last().push(a.last()));
                assert(b =~= b.drop_last().push(b.last()));
                assert(a == b);
            }
            lemma_escape_tells_pipes_apart(a.drop_last(), b.drop_last());
            if escape_text(a) == escape_text(b) {
                assert(escape_text(a) == a_head + a_tail);
                assert(escape_text(b) == b_head + b_tail);
                assert((a_head + a_tail).len() == a_head.len() + a_tail.len());
                assert((b_head + b_tail).len() == b_head.len() + b_tail.len());
                assert(a_head.len() == b_head.len());
                assert(a_head =~= (a_head + a_tail).subrange(0, a_head.len() as int));
                assert(b_head =~= (b_head + b_tail).subrange(0, b_head.len() as int));
            }
        } else {
            lemma_escape_char_shape(a.last());
            lemma_escape_char_shape(b.last());
            assert((a_head + a_tail).last() == a_tail.last());
            assert((b_head + b_tail).last() == b_tail.last());
        }
    }
}

/// Tells whether every character of the field is plain.
fn all_plain(field: &str) -> (plain: bool)
    ensures
        plain <==> forall|i: int| 0 <= i < field@.len() ==> is_plain(#[trigger] field@[i]),
{
    let mut plain: bool = true;
    for c in it: field.chars()
        invariant
            it.seq() == field@,
            plain <==> forall|i: int| 0 <= i < it.index() ==> is_plain(#[trigger] field@[i]),
    {
        if c == '|' || c == '\n' || c == '\r' {
            plain = false;
        }
    }
    plain
}

/// Makes a field safe to stand in a Markdown table cell.
///
/// A field without pipes, line feeds and carriage returns is copied in one
/// piece; any other is rebuilt character by character.
pub fn escape_markdown_cell(field: &str) -> (cell: String)
    ensures
        cell@ == escape_text(field@),
{
    if all_plain(field) {
        proof {
            lemma_plain_text_unchanged(field@);
        }
        return field.to_owned();
    }
    let mut cell = String::new();
    for c in it: field.chars()
        invariant
            it.seq() == field@,
            cell@ == escape_text(field@.take(it.index())),
    {
        proof {
            let k = it.index();
            assert(field@.take(k + 1).drop_last() =~= field@.take(k));
            assert(field@.take(k + 1).last() == c);
        }
        if c == '|' {
            cell.push('\\');
            cell.push('|');
        } else if c == '\n' {
            cell.push('<');
            cell.push('b');
            cell.push('r');
            cell.push('>');
        } else if c == '\r' {
        } else {
            cell.push(c);
        }
        assert(cell@ =~= escape_text(field@.take(it.index())) + escape_char(c));
    }
    assert(field@.take(field@.len() as int) =~= field@);
    cell
}

} // verus!
