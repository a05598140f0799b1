//! Text building: joining with a separator and the written form of a column.

use vstd::prelude::*;
use vstd::string::StringExecFns;

verus! {

/// The character sequences of a sequence of strings.
pub open spec fn texts(v: Seq<String>) -> Seq<Seq<char>> {
    Seq::new(v.len(), |i: int| v[i]@)
}

/// The parts written one after another with `sep` between neighbours.
pub open spec fn joined(parts: Seq<Seq<char>>, sep: Seq<char>) -> Seq<char>
    decreases parts.len(),
{
    if parts.len() == 0 {
        Seq::empty()
    } else if parts.len() == 1 {
        parts[0]
    } else {
        joined(parts.drop_last(), sep) + sep + parts.last()
    }
}

/// The separator between the cells of a written column.
pub open spec fn cell_sep() -> Seq<char> {
    seq![',', ' ']
}

/// The written form of a column: its name, then its cells in brackets.
pub open spec fn column_text(name: Seq<char>, cells: Seq<Seq<char>>) -> Seq<char> {
    name + seq![':', ' ', '['] + joined(cells, cell_sep()) + seq![']']
}

/// Joins `parts` with `sep` between neighbours.
pub fn join(parts: &Vec<String>, sep: &str) -> (r: String)
    ensures
        r@ == joined(texts(parts@), sep@),
{
    let mut r = String::new();
    let mut i: usize = 0;
    while i < parts.len()
        invariant
            0 <= i <= parts.len(),
            r@ == joined(texts(parts@).take(i as int), sep@),
        decreases parts.len() - i,
    {
        proof {
            let all = texts(parts@);
            assert(all.take(i + 1).drop_last() =~= all.take(i as int));
            assert(all.take(i + 1).last() == parts@[i as int]@);
            if i == 0 {
                assert(r@ =~= Seq::<char>::empty());
            }
        }
        if i > 0 {
            r.append(sep);
        }
        r.append(parts[i].as_str());
        proof {
            if i == 0 {
                assert(r@ =~= parts@[0]@);
            }
        }
        i += 1;
    }
    proof {
        assert(texts(parts@).take(i as int) =~= texts(parts@));
    }
    r
}

/// Writes a column: `name: [c0, c1, ...]`.
pub fn write_column(name: &String, cells: &Vec<String>) -> (r: String)
    ensures
        r@ == column_text(name@, texts(cells@)),
{
    let mut r = name.clone();
    let body = join(cells, ", ");
    proof {
        reveal_strlit(", ");
        reveal_strlit(": [");
        reveal_strlit("]");
        assert(", "@ =~= cell_sep());
        assert(": ["@ =~= seq![':', ' ', '[']);
        assert("]"@ =~= seq![']']);
    }
    r.append(": [");
    r.append(body.as_str());
    r.append("]");
    r
}

} // verus!
