//! The jump destinations of a piece of code.

use vstd::prelude::*;

verus! {

/// The number of immediate bytes that follow the opcode `op`: `n` for `PUSHn`, else none.
pub open spec fn push_width(op: u8) -> nat {
    if 0x60 <= op <= 0x7f {
        (op - 0x5f) as nat
    } else {
        0
    }
}

/// Where the opcode after the one at `p` starts.
pub open spec fn next_opcode(code: Seq<u8>, p: int) -> int {
    p + 1 + if 0 <= p < code.len() {
        push_width(code[p])
    } else {
        0
    }
}

/// Whether reading opcode after opcode from `from` arrives exactly at `p`.
pub open spec fn scan_reaches(code: Seq<u8>, from: int, p: int) -> bool
    decreases p - from,
{
    if from >= p {
        from == p
    } else if next_opcode(code, from) > p {
        false
    } else {
        scan_reaches(code, next_opcode(code, from), p)
    }
}

/// Whether an opcode starts at `p` when the code is read from its first byte.
pub open spec fn is_opcode_start(code: Seq<u8>, p: int) -> bool {
    0 <= p && scan_reaches(code, 0, p)
}

/// Whether `p` lies among the immediate bytes of a `PUSHn`.
pub open spec fn in_push_data(code: Seq<u8>, p: int) -> bool {
    exists|q: int| 0 <= q < p && #[trigger] is_opcode_start(code, q) && p < next_opcode(code, q)
}

/// Whether the code may jump to `p`: a `JUMPDEST` byte at which an opcode starts.
pub open spec fn valid_jumpdest(code: Seq<u8>, p: int) -> bool {
    0 <= p < code.len() && code[p] == 0x5b && is_opcode_start(code, p)
}

/// A scan that passes through `m` goes on from `m` as a scan started there.
pub proof fn lemma_scan_through(code: Seq<u8>, from: int, m: int, p: int)
    requires
        scan_reaches(code, from, m),
        m <= p,
    ensures
        scan_reaches(code, from, p) == scan_reaches(code, m, p),
    decreases m - from,
{
    if from < m {
        assert(next_opcode(code, from) <= m);
        lemma_scan_through(code, next_opcode(code, from), m, p);
    }
}

/// Between the start of an opcode and the start of the next no opcode starts.
pub proof fn lemma_no_start_inside(code: Seq<u8>, q: int, p: int)
    requires
        is_opcode_start(code, q),
        q < p < next_opcode(code, q),
    ensures
        !is_opcode_start(code, p),
{
    lemma_scan_through(code, 0, q, p);
}

/// An opcode starts where the opcode before it ends.
pub proof fn lemma_next_is_start(code: Seq<u8>, q: int)
    requires
        is_opcode_start(code, q),
    ensures
        is_opcode_start(code, next_opcode(code, q)),
{
    let n = next_opcode(code, q);
    lemma_scan_through(code, 0, q, n);
    assert(scan_reaches(code, n, n));
}

/// Every position from an opcode start on is an opcode start or immediate data.
proof fn lemma_covered(code: Seq<u8>, from: int, p: int)
    requires
        is_opcode_start(code, from),
        from <= p,
    ensures
        is_opcode_start(code, p) || in_push_data(code, p),
    decreases p - from,
{
    if from < p {
        let n = next_opcode(code, from);
        if n > p {
            assert(is_opcode_start(code, from) && from < p && p < next_opcode(code, from));
        } else {
            lemma_next_is_start(code, from);
            lemma_covered(code, n, p);
        }
    }
}

/// The code falls into opcodes and the immediate bytes of `PUSHn`: at every position either an
/// opcode starts, or the position lies among immediate bytes, and never both.
pub proof fn lemma_partition(code: Seq<u8>, p: int)
    requires
        0 <= p,
    ensures
        is_opcode_start(code, p) <==> !in_push_data(code, p),
{
    assert(scan_reaches(code, 0, 0));
    lemma_covered(code, 0, p);
    if in_push_data(code, p) {
        let q = choose|q: int|
            0 <= q < p && #[trigger] is_opcode_start(code, q) && p < next_opcode(code, q);
        lemma_no_start_inside(code, q, p);
    }
}

/// A position is a jump destination exactly when it holds the `JUMPDEST` byte and is not
/// among the immediate bytes of a `PUSHn`.
pub proof fn lemma_jumpdest_outside_push_data(code: Seq<u8>, p: int)
    ensures
        valid_jumpdest(code, p) <==> (0 <= p < code.len() && code[p] == 0x5b && !in_push_data(
            code,
            p,
        )),
{
    if 0 <= p {
        lemma_partition(code, p);
    }
}

/// The table of valid jump destinations of a piece of code.
pub struct Valids {
    table: Vec<bool>,
}

impl View for Valids {
    type V = Seq<bool>;

    closed spec fn view(&self) -> Seq<bool> {
        self.table@
    }
}

impl Valids {
    /// Whether the table is that of `code`.
    pub open spec fn matches(&self, code: Seq<u8>) -> bool {
        &&& self@.len() == code.len()
        &&& forall|p: int| 0 <= p < code.len() ==> self@[p] == valid_jumpdest(code, p)
    }

    /// Builds the table in one pass over the code, skipping the immediate bytes of each `PUSHn`.
    pub fn new(code: &[u8]) -> (r: Valids)
        ensures
            r.matches(code@),
    {
        let len: usize = code.len();
        let mut table: Vec<bool> = Vec::new();
        while table.len() < len
            invariant
                table@.len() <= len,
                forall|p: int| 0 <= p < table@.len() ==> !table@[p],
            decreases len - table@.len(),
        {
            table.push(false);
        }
        let mut i: usize = 0;
        let ghost mut pos: int = 0;
        assert(scan_reaches(code@, 0, 0));
        while i < len
            invariant
                len == code@.len(),
                table@.len() == len,
                i <= len,
                is_opcode_start(code@, pos),
                pos <= len ==> i == pos,
                pos > len ==> i == len,
                forall|p: int| 0 <= p < i ==> table@[p] == valid_jumpdest(code@, p),
                forall|p: int| i <= p < len ==> !table@[p],
            decreases len - i,
        {
            let op: u8 = code[i];
            let ghost next = next_opcode(code@, i as int);
            proof {
                lemma_next_is_start(code@, i as int);
                assert forall|p: int| i < p < next implies !valid_jumpdest(code@, p) by {
                    lemma_no_start_inside(code@, i as int, p);
                }
            }
            if op == 0x5b {
                table.set(i, true);
                i = i + 1;
            } else if 0x60 <= op && op <= 0x7f {
                let width: usize = (op - 0x5f) as usize;
                if width >= len - i {
                    i = len;
                } else {
                    i = i + 1 + width;
                }
            } else {
                i = i + 1;
            }
            proof {
                pos = next;
            }
        }
        Valids { table }
    }

    /// The number of positions the table covers: the length of the code.
    pub fn len(&self) -> (r: usize)
        ensures
            r == self@.len(),
    {
        self.table.len()
    }

    /// Whether the code may jump to `position`.
    pub fn is_valid(&self, position: usize) -> (r: bool)
        ensures
            r == (position < self@.len() && self@[position as int]),
    {
        if position >= self.table.len() {
            return false;
        }
        self.table[position]
    }
}

} // verus!
