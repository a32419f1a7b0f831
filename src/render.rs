use vstd::prelude::*;

verus! {

/// One operation on the terminal, each ending on a new line where it writes.
#[derive(Debug, PartialEq, Eq)]
pub enum TermOp {
    /// Move the cursor up by that many lines.
    CursorUp(usize),
    /// Overwrite a line with that many spaces.
    BlankLine(usize),
    /// Write a line of text.
    Text(String),
}

/// What a `TermOp` stands for.
pub enum TermOpModel {
    CursorUp(nat),
    BlankLine(nat),
    Text(Seq<char>),
}

impl View for TermOp {
    type V = TermOpModel;

    open spec fn view(&self) -> TermOpModel {
        match self {
            TermOp::CursorUp(n) => TermOpModel::CursorUp(*n as nat),
            TermOp::BlankLine(w) => TermOpModel::BlankLine(*w as nat),
            TermOp::Text(s) => TermOpModel::Text(s@),
        }
    }
}

/// The operations that wipe the `n` lines printed last, `width` columns
/// wide, and leave the cursor where the first of them began.
pub open spec fn erase_ops(n: nat, width: nat) -> Seq<TermOpModel> {
    if n == 0 {
        Seq::empty()
    } else {
        seq![TermOpModel::CursorUp(n)] + Seq::new(n, |i: int| TermOpModel::BlankLine(width))
            + seq![TermOpModel::CursorUp(n)]
    }
}

/// The operations that print `lines`.
pub open spec fn draw_ops(lines: Seq<Seq<char>>) -> Seq<TermOpModel> {
    lines.map_values(|l: Seq<char>| TermOpModel::Text(l))
}

/// One repaint: wipe the `drawn` lines of the last one, then print `lines`.
pub open spec fn frame_ops(drawn: nat, width: nat, lines: Seq<Seq<char>>) -> Seq<TermOpModel> {
    erase_ops(drawn, width) + draw_ops(lines)
}

/// The number of lines that `ops` wipe.
pub open spec fn erased_count(ops: Seq<TermOpModel>) -> nat
    decreases ops.len(),
{
    if ops.len() == 0 {
        0
    } else {
        erased_count(ops.drop_last()) + if ops.last() is BlankLine {
            1nat
        } else {
            0nat
        }
    }
}

/// The number of lines of text that `ops` print.
pub open spec fn printed_count(ops: Seq<TermOpModel>) -> nat
    decreases ops.len(),
{
    if ops.len() == 0 {
        0
    } else {
        printed_count(ops.drop_last()) + if ops.last() is Text {
            1nat
        } else {
            0nat
        }
    }
}

/// No line is wiped after a line of text has been printed.
pub open spec fn erases_before_printing(ops: Seq<TermOpModel>) -> bool {
    forall|i: int, j: int|
        0 <= i < j < ops.len() && #[trigger] ops[i] is Text ==> !(#[trigger] ops[j] is BlankLine)
}

/// Keeps the one number a repaint needs: how many lines the last one printed.
pub struct Renderer {
    drawn: usize,
}

impl View for Renderer {
    type V = nat;

    closed spec fn view(&self) -> nat {
        self.drawn as nat
    }
}

impl Renderer {
    /// A renderer that has printed nothing yet.
    pub fn new() -> (r: Renderer)
        ensures
            r@ == 0,
    {
        Renderer { drawn: 0 }
    }

    /// The number of lines the last repaint printed.
    pub fn drawn(&self) -> (r: usize)
        ensures
            r == self@,
    {
        self.drawn
    }

    /// The operations of a repaint that replaces what was printed last by
    /// `lines`, on a terminal `width` columns wide.
    pub fn frame(&mut self, lines: &Vec<String>, width: usize) -> (ops: Vec<TermOp>)
        ensures
            ops@.map_values(|o: TermOp| o@) == frame_ops(
                old(self)@,
                width as nat,
                lines@.map_values(|s: String| s@),
            ),
            final(self)@ == lines@.len(),
    {
        let mut ops = self.erase(width);
        let ghost erased = ops@.map_values(|o: TermOp| o@);
        let mut i: usize = 0;
        while i < lines.len()
            invariant
                i <= lines@.len(),
                ops@.map_values(|o: TermOp| o@) == erased + draw_ops(
                    lines@.map_values(|s: String| s@).take(i as int),
                ),
            decreases lines@.len() - i,
        {
            let ghost before = ops@.map_values(|o: TermOp| o@);
            let ghost texts = lines@.map_values(|s: String| s@);
            ops.push(TermOp::Text(lines[i].clone()));
            assert(ops@.map_values(|o: TermOp| o@) =~= before.push(
                TermOpModel::Text(texts[i as int]),
            ));
            assert(draw_ops(texts.take(i as int + 1)) =~= draw_ops(texts.take(i as int)).push(
                TermOpModel::Text(texts[i as int]),
            ));
            i = i + 1;
        }
        assert(lines@.map_values(|s: String| s@).take(i as int) =~= lines@.map_values(
            |s: String| s@,
        ));
        self.drawn = lines.len();
        ops
    }

    /// The operations that wipe what was printed last; afterwards nothing is
    /// on the screen.
    pub fn clear(&mut self, width: usize) -> (ops: Vec<TermOp>)
        ensures
            ops@.map_values(|o: TermOp| o@) == erase_ops(old(self)@, width as nat),
            final(self)@ == 0,
    {
        let ops = self.erase(width);
        self.drawn = 0;
        ops
    }

    fn erase(&self, width: usize) -> (ops: Vec<TermOp>)
        ensures
            ops@.map_values(|o: TermOp| o@) == erase_ops(self@, width as nat),
    {
        let n = self.drawn;
        let mut ops: Vec<TermOp> = Vec::new();
        if n == 0 {
            assert(ops@.map_values(|o: TermOp| o@) =~= erase_ops(self@, width as nat));
            return ops;
        }
        ops.push(TermOp::CursorUp(n));
        let mut i: usize = 0;
        while i < n
            invariant
                i <= n,
                n == self@,
                n > 0,
                ops@.len() == i + 1,
                ops@[0]@ == TermOpModel::CursorUp(n as nat),
                forall|k: int| 1 <= k <= i ==> #[trigger] ops@[k]@ == TermOpModel::BlankLine(width as nat),
            decreases n - i,
        {
            ops.push(TermOp::BlankLine(width));
            i = i + 1;
        }
        ops.push(TermOp::CursorUp(n));
        assert(ops@.map_values(|o: TermOp| o@) =~= erase_ops(self@, width as nat));
        ops
    }
}

/// The number of list lines a terminal of `rows` rows shows: one row is kept
/// free for the line the cursor rests on after printing.
pub open spec fn viewport_height_of(rows: int) -> int {
    if rows > 1 {
        rows - 1
    } else {
        1
    }
}

/// The scroll window's height on a terminal of `rows` rows.
pub fn viewport_height_for_rows(rows: u16) -> (h: usize)
    ensures
        h == viewport_height_of(rows as int),
        h >= 1,
{
    if rows > 1 {
        (rows - 1) as usize
    } else {
        1
    }
}

/// Counting wiped and printed lines adds up over concatenation.
pub proof fn lemma_counts_concat(a: Seq<TermOpModel>, b: Seq<TermOpModel>)
    ensures
        erased_count(a + b) == erased_count(a) + erased_count(b),
        printed_count(a + b) == printed_count(a) + printed_count(b),
    decreases b.len(),
{
    if b.len() > 0 {
        assert((a + b).drop_last() =~= a + b.drop_last());
        lemma_counts_concat(a, b.drop_last());
    }
}

/// `n` blank lines wipe `n` lines and print none.
pub proof fn lemma_blank_counts(n: nat, width: nat)
    ensures
        erased_count(Seq::new(n, |i: int| TermOpModel::BlankLine(width))) == n,
        printed_count(Seq::new(n, |i: int| TermOpModel::BlankLine(width))) == 0,
    decreases n,
{
    if n > 0 {
        assert(Seq::new(n, |i: int| TermOpModel::BlankLine(width)).drop_last() =~= Seq::new(
            (n - 1) as nat,
            |i: int| TermOpModel::BlankLine(width),
        ));
        lemma_blank_counts((n - 1) as nat, width);
    }
}

/// Wiping `n` lines wipes exactly `n` and prints none.
pub proof fn lemma_erase_counts(n: nat, width: nat)
    ensures
        erased_count(erase_ops(n, width)) == n,
        printed_count(erase_ops(n, width)) == 0,
{
    if n > 0 {
        let up = seq![TermOpModel::CursorUp(n)];
        let blanks = Seq::new(n, |i: int| TermOpModel::BlankLine(width));
        assert(up.drop_last() =~= Seq::<TermOpModel>::empty());
        assert(erased_count(Seq::<TermOpModel>::empty()) == 0);
        assert(printed_count(Seq::<TermOpModel>::empty()) == 0);
        assert(erased_count(up) == 0);
        assert(printed_count(up) == 0);
        lemma_blank_counts(n, width);
        lemma_counts_concat(up, blanks);
        lemma_counts_concat(up + blanks, up);
    }
}

/// Printing `lines` prints exactly that many lines and wipes none.
pub proof fn lemma_draw_counts(lines: Seq<Seq<char>>)
    ensures
        erased_count(draw_ops(lines)) == 0,
        printed_count(draw_ops(lines)) == lines.len(),
    decreases lines.len(),
{
    if lines.len() > 0 {
        assert(draw_ops(lines).drop_last() =~= draw_ops(lines.drop_last()));
        lemma_draw_counts(lines.drop_last());
    }
}

/// A repaint wipes exactly the lines that the repaint before it printed, no
/// more and no fewer, and wipes them all before it prints its own; the last
/// wipe, when the list goes away, likewise wipes exactly those lines and
/// prints nothing.
pub proof fn law_repaint_erases_previous(
    prev: nat,
    width: nat,
    first: Seq<Seq<char>>,
    second: Seq<Seq<char>>,
)
    ensures
        printed_count(frame_ops(prev, width, first)) == first.len(),
        erased_count(frame_ops(first.len(), width, second)) == first.len(),
        printed_count(frame_ops(first.len(), width, second)) == second.len(),
        erases_before_printing(frame_ops(first.len(), width, second)),
        erased_count(erase_ops(first.len(), width)) == first.len(),
        printed_count(erase_ops(first.len(), width)) == 0,
{
    lemma_erase_counts(prev, width);
    lemma_draw_counts(first);
    lemma_counts_concat(erase_ops(prev, width), draw_ops(first));
    let e = erase_ops(first.len(), width);
    let d = draw_ops(second);
    lemma_erase_counts(first.len(), width);
    lemma_draw_counts(second);
    lemma_counts_concat(e, d);
    let ops = e + d;
    assert forall|i: int, j: int|
        0 <= i < j < ops.len() && #[trigger] ops[i] is Text implies !(
        #[trigger] ops[j] is BlankLine) by {
        assert(i >= e.len());
        assert(ops[j] == d[j - e.len()]);
    }
}

} // verus!
