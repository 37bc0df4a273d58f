use crate::grammar::{parse_int, parse_uint, skip_space};
use crate::parser::{char_at, chars_of, int_at, lemma_skip_skip, skip_space_at, uint_at};
use std::collections::HashMap;
use vstd::prelude::*;

verus! {

broadcast use vstd::std_specs::hash::group_hash_axioms;

// A memory seed holds one cell per line, `<uint address> : <int value>`, with
// whitespace allowed around each part; blank lines are skipped.

/// The address and value on one line, if the line has the cell shape.
pub open spec fn parse_cell(line: Seq<char>) -> Option<(u32, i32)> {
    match parse_uint(skip_space(line)) {
        Some((a, r1)) => {
            let r2 = skip_space(r1);
            if r2.len() > 0 && r2[0] == ':' {
                match parse_int(skip_space(r2.skip(1))) {
                    Some((v, r3)) => if skip_space(r3).len() == 0 {
                        Some((a, v))
                    } else {
                        None
                    },
                    None => None,
                }
            } else {
                None
            }
        },
        None => None,
    }
}

/// Length of the first line, without its line break.
pub open spec fn line_len(s: Seq<char>) -> nat
    decreases s.len(),
{
    if s.len() == 0 || s[0] == '\n' {
        0
    } else {
        1 + line_len(s.skip(1))
    }
}

/// The cells of `s` written over `m`, later lines winning; or the 1-based
/// number of the first line that is neither blank nor a cell, counting
/// `done` lines before `s`.
pub open spec fn seed_from(s: Seq<char>, done: nat, m: Map<u32, i32>) -> Result<Map<u32, i32>, nat>
    decreases s.len(),
{
    if s.len() == 0 {
        Ok(m)
    } else {
        let e = line_len(s) as int;
        let line = s.take(e);
        let next = if e < s.len() {
            s.skip(e + 1)
        } else {
            Seq::empty()
        };
        if skip_space(line).len() == 0 {
            seed_from(next, done + 1, m)
        } else {
            match parse_cell(line) {
                Some((a, v)) => seed_from(next, done + 1, m.insert(a, v)),
                None => Err(done + 1),
            }
        }
    }
}

/// The memory a seed text describes, or the number of its first bad line.
pub open spec fn seed(s: Seq<char>) -> Result<Map<u32, i32>, nat> {
    seed_from(s, 0, Map::empty())
}

fn cell_of(line: &Vec<char>) -> (r: Option<(u32, i32)>)
    ensures
        r == parse_cell(line@),
{
    proof {
        assert(line@.skip(0) =~= line@);
    }
    let i = skip_space_at(line, 0);
    let (a, i) = match uint_at(line, i) {
        Some(x) => x,
        None => return None,
    };
    let i = skip_space_at(line, i);
    if !char_at(line, i, ':') {
        return None;
    }
    proof {
        lemma_skip_skip(line@, i as int, 1);
    }
    let i = skip_space_at(line, i + 1);
    let (v, i) = match int_at(line, i) {
        Some(x) => x,
        None => return None,
    };
    let i = skip_space_at(line, i);
    if i == line.len() {
        Some((a, v))
    } else {
        None
    }
}

proof fn lemma_line_len(s: Seq<char>, k: nat)
    requires
        k <= s.len(),
        forall|m: int| 0 <= m < k ==> #[trigger] s[m] != '\n',
        k == s.len() || s[k as int] == '\n',
    ensures
        line_len(s) == k,
    decreases k,
{
    if k > 0 {
        assert forall|m: int| 0 <= m < k - 1 implies #[trigger] s.skip(1)[m] != '\n' by {
            assert(s.skip(1)[m] == s[m + 1]);
        }
        lemma_line_len(s.skip(1), (k - 1) as nat);
    }
}

/// Reads a memory seed: every non-blank line must be `<address> : <value>`.
/// Returns the cells, or the 1-based number of the first line that is not.
pub fn parse_memory(memory: &str) -> (r: Result<HashMap<u32, i32>, usize>)
    ensures
        match seed(memory@) {
            Ok(m) => r is Ok && r->Ok_0@ == m,
            Err(n) => r == Err::<HashMap<u32, i32>, usize>(n as usize),
        },
{
    let s = chars_of(memory);
    let mut cells: HashMap<u32, i32> = HashMap::new();
    let mut i: usize = 0;
    let mut done: usize = 0;
    proof {
        assert(s@.skip(0) =~= s@);
    }
    while i < s.len()
        invariant
            i <= s.len(),
            done <= i,
            s@ == memory@,
            seed(s@) == seed_from(s@.skip(i as int), done as nat, cells@),
        decreases s.len() - i,
    {
        let mut j = i;
        while j < s.len() && s[j] != '\n'
            invariant
                i <= j <= s.len(),
                forall|m: int| i <= m < j ==> #[trigger] s@[m] != '\n',
            decreases s.len() - j,
        {
            j = j + 1;
        }
        let mut line: Vec<char> = Vec::new();
        let mut k = i;
        while k < j
            invariant
                i <= k <= j <= s.len(),
                line@ == s@.subrange(i as int, k as int),
            decreases j - k,
        {
            line.push(s[k]);
            proof {
                assert(s@.subrange(i as int, k + 1) =~= s@.subrange(i as int, k as int).push(
                    s@[k as int],
                ));
            }
            k = k + 1;
        }
        let ghost rest = s@.skip(i as int);
        proof {
            assert forall|m: int| 0 <= m < j - i implies #[trigger] rest[m] != '\n' by {
                assert(rest[m] == s@[i + m]);
            }
            lemma_line_len(rest, (j - i) as nat);
            assert(rest.take((j - i) as int) =~= line@);
            if j < s.len() {
                lemma_skip_skip(s@, i as int, (j - i + 1) as int);
            }
            assert(line@.skip(0) =~= line@);
        }
        let blank = skip_space_at(&line, 0) == line.len();
        if !blank {
            match cell_of(&line) {
                Some((a, v)) => {
                    cells.insert(a, v);
                },
                None => {
                    return Err(done + 1);
                },
            }
        }
        done = done + 1;
        if j < s.len() {
            i = j + 1;
        } else {
            proof {
                assert(s@.skip(j as int) =~= Seq::<char>::empty());
            }
            i = j;
        }
    }
    proof {
        assert(s@.skip(i as int) =~= Seq::<char>::empty());
    }
    Ok(cells)
}

} // verus!
