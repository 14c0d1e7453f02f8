//! Lines of comma-separated text: writing a cell as a quoted field, reading
//! a line back into its fields, and that the one undoes the other.

use vstd::prelude::*;
use crate::text::{chars_of, is_plain, lemma_line_feeds_add, line_feeds, string_of, texts};

verus! {

/// `cell` with each double quote in it written twice.
pub open spec fn doubled(cell: Seq<char>) -> Seq<char>
    decreases cell.len(),
{
    if cell.len() == 0 {
        Seq::empty()
    } else if cell.last() == '"' {
        doubled(cell.drop_last()) + seq!['"', '"']
    } else {
        doubled(cell.drop_last()).push(cell.last())
    }
}

/// `cell` as a quoted field: between two double quotes, with each double
/// quote of its own written twice.
pub open spec fn quoted(cell: Seq<char>) -> Seq<char> {
    seq!['"'] + doubled(cell) + seq!['"']
}

/// Appends `cell` as a quoted field.
pub fn push_quoted(out: &mut Vec<char>, cell: &Vec<char>)
    ensures
        final(out)@ == old(out)@ + quoted(cell@),
{
    out.push('"');
    let mut i: usize = 0;
    assert(cell@.take(0) =~= Seq::<char>::empty());
    while i < cell.len()
        invariant
            i <= cell.len(),
            out@ == old(out)@ + seq!['"'] + doubled(cell@.take(i as int)),
        decreases cell.len() - i,
    {
        let c = cell[i];
        proof {
            assert(cell@.take(i + 1).drop_last() =~= cell@.take(i as int));
            assert(cell@.take(i + 1).last() == c);
        }
        if c == '"' {
            out.push('"');
        }
        out.push(c);
        assert(out@ =~= old(out)@ + seq!['"'] + doubled(cell@.take(i + 1)));
        i += 1;
    }
    assert(cell@.take(i as int) =~= cell@);
    out.push('"');
    assert(out@ =~= old(out)@ + quoted(cell@));
}

/// Where a reader of a line stands.
#[derive(Clone, Copy, Debug, PartialEq, Eq, Structural)]
pub enum Mode {
    /// In a field, outside quotes.
    Bare,
    /// Inside the quotes of a field.
    Quoted,
    /// Inside the quotes of a field, just behind a double quote: the quotes
    /// end here unless another double quote follows.
    Closing,
}

/// What a reader of a line has read: the fields that are complete, and the
/// field that it is in.
pub struct Reading {
    pub mode: Mode,
    pub field: Seq<char>,
    pub done: Seq<Seq<char>>,
}

/// The reader before the first character of a line.
pub open spec fn start() -> Reading {
    Reading { mode: Mode::Bare, field: Seq::empty(), done: Seq::empty() }
}

/// The reader after the field it was in has ended.
pub open spec fn next_field(r: Reading) -> Reading {
    Reading { mode: Mode::Bare, field: Seq::empty(), done: r.done.push(r.field) }
}

/// The reader after one more character. Outside quotes a comma ends the
/// field and a double quote opens quotes; inside quotes two double quotes
/// stand for one and a single one closes the quotes; every other character
/// belongs to the field.
pub open spec fn step(r: Reading, c: char) -> Reading {
    match r.mode {
        Mode::Bare => if c == ',' {
            next_field(r)
        } else if c == '"' {
            Reading { mode: Mode::Quoted, ..r }
        } else {
            Reading { field: r.field.push(c), ..r }
        },
        Mode::Quoted => if c == '"' {
            Reading { mode: Mode::Closing, ..r }
        } else {
            Reading { field: r.field.push(c), ..r }
        },
        Mode::Closing => if c == '"' {
            Reading { mode: Mode::Quoted, field: r.field.push(c), ..r }
        } else if c == ',' {
            next_field(r)
        } else {
            Reading { mode: Mode::Bare, field: r.field.push(c), ..r }
        },
    }
}

/// The reader after the characters of `s`.
pub open spec fn read_from(r: Reading, s: Seq<char>) -> Reading
    decreases s.len(),
{
    if s.len() == 0 {
        r
    } else {
        step(read_from(r, s.drop_last()), s.last())
    }
}

/// The fields of a line, which holds no line feed of its own.
pub open spec fn fields_of(line: Seq<char>) -> Seq<Seq<char>> {
    let r = read_from(start(), line);
    r.done.push(r.field)
}

/// Reads a line into its fields.
pub fn read_fields(line: &str) -> (r: Vec<String>)
    ensures
        texts(r@) == fields_of(line@),
{
    let v = chars_of(line);
    let mut done: Vec<String> = Vec::new();
    let mut field: Vec<char> = Vec::new();
    let mut mode = Mode::Bare;
    let mut i: usize = 0;
    assert(v@.take(0) =~= Seq::<char>::empty());
    assert(texts(done@) =~= Seq::<Seq<char>>::empty());
    while i < v.len()
        invariant
            i <= v.len(),
            read_from(start(), v@.take(i as int)) == (Reading {
                mode,
                field: field@,
                done: texts(done@),
            }),
        decreases v.len() - i,
    {
        let c = v[i];
        let ghost before = texts(done@);
        let ghost ended = field@;
        proof {
            assert(v@.take(i + 1).drop_last() =~= v@.take(i as int));
            assert(v@.take(i + 1).last() == c);
        }
        let ends = c == ',' && (mode == Mode::Bare || mode == Mode::Closing);
        if ends {
            done.push(string_of(&field));
            field = Vec::new();
            mode = Mode::Bare;
            assert(texts(done@) =~= before.push(ended));
        } else if c == '"' {
            match mode {
                Mode::Bare => {
                    mode = Mode::Quoted;
                },
                Mode::Quoted => {
                    mode = Mode::Closing;
                },
                Mode::Closing => {
                    field.push(c);
                    mode = Mode::Quoted;
                },
            }
        } else {
            field.push(c);
            if mode == Mode::Closing {
                mode = Mode::Bare;
            }
        }
        i += 1;
    }
    assert(v@.take(i as int) =~= v@);
    let ghost before = texts(done@);
    done.push(string_of(&field));
    assert(texts(done@) =~= before.push(field@));
    done
}

/// Reading one character is one step.
pub proof fn lemma_read_one(r: Reading, c: char)
    ensures
        read_from(r, seq![c]) == step(r, c),
{
    reveal_with_fuel(read_from, 2);
    assert(seq![c].drop_last() =~= Seq::<char>::empty());
    assert(seq![c].last() == c);
}

/// Reading two texts one after the other is reading them put together.
pub proof fn lemma_read_add(r: Reading, a: Seq<char>, b: Seq<char>)
    ensures
        read_from(r, a + b) == read_from(read_from(r, a), b),
    decreases b.len(),
{
    if b.len() == 0 {
        assert(a + b =~= a);
    } else {
        assert((a + b).drop_last() =~= a + b.drop_last());
        assert((a + b).last() == b.last());
        lemma_read_add(r, a, b.drop_last());
    }
}

/// Outside quotes a text without comma and double quote is added to the
/// field as it is.
pub proof fn lemma_read_plain(r: Reading, s: Seq<char>)
    requires
        r.mode == Mode::Bare,
        is_plain(s),
    ensures
        read_from(r, s) == (Reading { field: r.field + s, ..r }),
    decreases s.len(),
{
    if s.len() == 0 {
        assert(r.field + s =~= r.field);
    } else {
        assert(is_plain(s.drop_last())) by {
            assert forall|i: int| 0 <= i < s.drop_last().len() implies {
                let c = #[trigger] s.drop_last()[i];
                c != ',' && c != '"' && c != '\n'
            } by {
                assert(s.drop_last()[i] == s[i]);
            }
        }
        lemma_read_plain(r, s.drop_last());
        assert(r.field + s =~= (r.field + s.drop_last()).push(s.last()));
    }
}

/// Inside quotes a text with its double quotes written twice is added to
/// the field with each written once.
pub proof fn lemma_read_doubled(r: Reading, cell: Seq<char>)
    requires
        r.mode == Mode::Quoted,
    ensures
        read_from(r, doubled(cell)) == (Reading { field: r.field + cell, ..r }),
    decreases cell.len(),
{
    if cell.len() == 0 {
        assert(r.field + cell =~= r.field);
    } else {
        let head = cell.drop_last();
        lemma_read_doubled(r, head);
        let mid = Reading { field: r.field + head, ..r };
        if cell.last() == '"' {
            let pair = seq!['"', '"'];
            lemma_read_add(r, doubled(head), pair);
            assert(pair.drop_last() =~= seq!['"']);
            lemma_read_one(mid, '"');
            assert(read_from(mid, pair) == step(step(mid, '"'), '"'));
        } else {
            assert(doubled(cell).drop_last() =~= doubled(head));
        }
        assert(r.field + cell =~= (r.field + head).push(cell.last()));
    }
}

/// Outside quotes a quoted field is added to the field without its quotes,
/// and the reader stands behind the closing quote.
pub proof fn lemma_read_quoted(r: Reading, cell: Seq<char>)
    requires
        r.mode == Mode::Bare,
    ensures
        read_from(r, quoted(cell)) == (Reading {
            mode: Mode::Closing,
            field: r.field + cell,
            ..r
        }),
{
    let open = seq!['"'];
    lemma_read_one(r, '"');
    let inside = Reading { mode: Mode::Quoted, ..r };
    lemma_read_add(r, open, doubled(cell));
    lemma_read_doubled(inside, cell);
    lemma_read_add(r, open + doubled(cell), open);
    let filled = Reading { mode: Mode::Quoted, field: r.field + cell, ..r };
    lemma_read_one(filled, '"');
}

/// A comma outside quotes, or behind a closing quote, ends the field.
pub proof fn lemma_read_comma(r: Reading)
    requires
        r.mode != Mode::Quoted,
    ensures
        read_from(r, seq![',']) == next_field(r),
{
    lemma_read_one(r, ',');
}

/// Writing double quotes twice brings no line feed.
pub proof fn lemma_quoted_line_feeds(cell: Seq<char>)
    ensures
        line_feeds(doubled(cell)) == line_feeds(cell),
        line_feeds(quoted(cell)) == line_feeds(cell),
    decreases cell.len(),
{
    let quote = seq!['"'];
    assert(quote.drop_last() =~= Seq::<char>::empty());
    assert(line_feeds(Seq::<char>::empty()) == 0);
    assert(line_feeds(quote) == 0);
    if cell.len() > 0 {
        let head = cell.drop_last();
        lemma_quoted_line_feeds(head);
        if cell.last() == '"' {
            let pair = seq!['"', '"'];
            assert(pair.drop_last() =~= quote);
            assert(line_feeds(pair) == 0);
            lemma_line_feeds_add(doubled(head), pair);
        } else {
            assert(doubled(cell).drop_last() =~= doubled(head));
        }
    }
    lemma_line_feeds_add(quote, doubled(cell));
    lemma_line_feeds_add(quote + doubled(cell), quote);
}

} // verus!
