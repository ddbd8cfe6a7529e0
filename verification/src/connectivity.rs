//! Helpers for the neighbourhood connectivity view.
//!
//! A neighbourhood is partitioned into cells; a cell can end up
//! disconnected from the surrounding network. The view warns about the
//! number of disconnected cells, and offers a short help text. Counting is
//! done here over plain flags; rendering the warning is the host
//! application's business.

use vstd::prelude::*;

verus! {

/// How many of the flags are set.
pub open spec fn count_true(flags: Seq<bool>) -> int
    decreases flags.len(),
{
    if flags.len() == 0 {
        0
    } else {
        (if flags[0] {
            1int
        } else {
            0int
        }) + count_true(flags.drop_first())
    }
}

proof fn lemma_count_true_push(flags: Seq<bool>, flag: bool)
    ensures
        count_true(flags.push(flag)) == count_true(flags) + (if flag {
            1int
        } else {
            0int
        }),
    decreases flags.len(),
{
    if flags.len() == 0 {
        assert(flags.push(flag).drop_first() =~= flags);
    } else {
        assert(flags.push(flag).drop_first() =~= flags.drop_first().push(flag));
        lemma_count_true_push(flags.drop_first(), flag);
    }
}

proof fn lemma_count_true_bound(flags: Seq<bool>)
    ensures
        0 <= count_true(flags) <= flags.len(),
    decreases flags.len(),
{
    if flags.len() == 0 {
    } else {
        lemma_count_true_bound(flags.drop_first());
    }
}

/// Count the disconnected cells of a neighbourhood, given one flag per
/// cell in cell order, set when that cell is unreachable. The warning the
/// host shows — none, one cell, or several — follows from this count
/// alone.
pub fn count_disconnected(cells: &Vec<bool>) -> (n: usize)
    ensures
        n == count_true(cells@),
        n <= cells@.len(),
{
    let mut n: usize = 0;
    let mut i: usize = 0;
    while i < cells.len()
        invariant
            i <= cells.len(),
            n == count_true(cells@.subrange(0, i as int)),
            n <= i,
        decreases cells.len() - i,
    {
        proof {
            assert(cells@.subrange(0, i + 1) =~= cells@.subrange(0, i as int).push(
                cells@[i as int],
            ));
            lemma_count_true_push(cells@.subrange(0, i as int), cells@[i as int]);
        }
        if cells[i] {
            n = n + 1;
        }
        i = i + 1;
    }
    proof {
        assert(cells@.subrange(0, cells@.len() as int) =~= cells@);
    }
    n
}

/// The help text of the connectivity view, one line per entry, blank lines
/// included.
pub fn help() -> (r: Vec<&'static str>)
    ensures
        r@.len() == 6,
        r@[0]@
            == "The colored cells show where it's possible to drive without leaving the neighbourhood."@,
        r@[1]@ == ""@,
        r@[2]@ == "The darker red roads have more predicted shortcutting traffic."@,
        r@[3]@ == ""@,
        r@[4]@ == "Hint: You can place filters at roads or intersections."@,
        r@[5]@ == "Use the lasso tool to quickly sketch your idea."@,
{
    let mut lines: Vec<&'static str> = Vec::new();
    lines.push(
        "The colored cells show where it's possible to drive without leaving the neighbourhood.",
    );
    lines.push("");
    lines.push("The darker red roads have more predicted shortcutting traffic.");
    lines.push("");
    lines.push("Hint: You can place filters at roads or intersections.");
    lines.push("Use the lasso tool to quickly sketch your idea.");
    lines
}

} // verus!
