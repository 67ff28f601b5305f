//! The words on paper.
//!
//! An issue slip is rendered after its number was taken, so that no slip
//! exists without the number that a correction makes the cashier type back.

use vstd::prelude::*;

use crate::money::{milli_text, Milli};
use crate::repo::receipts::Destination;
use crate::text::join3;

verus! {

/// The lines of a slip: what to hand over, and how many thousandths of it.
pub open spec fn slip_view(lines: Seq<(String, i64)>) -> Seq<(Seq<char>, int)> {
    lines.map_values(|line: (String, i64)| (line.0@, line.1 as int))
}

/// One line of a slip as it is printed.
pub open spec fn slip_line(line: (Seq<char>, int)) -> Seq<char> {
    line.0 + " x"@ + milli_text(line.1)
}

/// What stands above the lines of a slip.
pub open spec fn slip_head(
    number: Seq<char>,
    destination: Destination,
    tab_code: Seq<char>,
    tab_label: Seq<char>,
    waiter: Seq<char>,
) -> Seq<char> {
    number + "\n"@ + destination.word() + "\nTab: "@ + tab_code + " — "@ + tab_label
        + "\nWaiter: "@ + waiter
}

/// An issue slip as it is printed: the head, and every line below it.
pub open spec fn slip_text(head: Seq<char>, lines: Seq<(Seq<char>, int)>) -> Seq<char>
    decreases lines.len(),
{
    if lines.len() == 0 {
        head
    } else {
        slip_text(head, lines.drop_last()) + "\n"@ + slip_line(lines.last())
    }
}

/// Renders an issue slip.
pub fn render_issue(
    number: &str,
    destination: Destination,
    tab_code: &str,
    tab_label: &str,
    waiter: &str,
    lines: &Vec<(String, i64)>,
) -> (result: String)
    ensures
        result@ == slip_text(
            slip_head(number@, destination, tab_code@, tab_label@, waiter@),
            slip_view(lines@),
        ),
{
    let top: String = join3(number, "\n", destination.as_str());
    let tab: String = join3(top.as_str(), "\nTab: ", tab_code);
    let label: String = join3(tab.as_str(), " — ", tab_label);
    let mut out: String = join3(label.as_str(), "\nWaiter: ", waiter);
    let ghost head = slip_head(number@, destination, tab_code@, tab_label@, waiter@);
    let ghost all = slip_view(lines@);
    assert(out@ =~= head);
    let mut i: usize = 0;
    assert(all.take(0) =~= Seq::<(Seq<char>, int)>::empty());
    while i < lines.len()
        invariant
            i <= lines.len(),
            all == slip_view(lines@),
            out@ == slip_text(head, all.take(i as int)),
        decreases lines.len() - i,
    {
        proof {
            assert(all.take(i + 1).drop_last() =~= all.take(i as int));
            assert(all.take(i + 1).last() == (lines@[i as int].0@, lines@[i as int].1 as int));
        }
        let shown: String = Milli::from_thousandths(lines[i].1).to_display();
        let line: String = join3(lines[i].0.as_str(), " x", shown.as_str());
        out = join3(out.as_str(), "\n", line.as_str());
        i = i + 1;
    }
    assert(all.take(all.len() as int) =~= all);
    out
}

/// A slip starts with its number.
pub proof fn a_slip_starts_with_its_number(
    number: Seq<char>,
    destination: Destination,
    tab_code: Seq<char>,
    tab_label: Seq<char>,
    waiter: Seq<char>,
    lines: Seq<(Seq<char>, int)>,
)
    ensures
        ({
            let text = slip_text(
                slip_head(number, destination, tab_code, tab_label, waiter),
                lines,
            );
            text.len() >= number.len() && text.take(number.len() as int) == number
        }),
    decreases lines.len(),
{
    let head = slip_head(number, destination, tab_code, tab_label, waiter);
    if lines.len() == 0 {
        assert(head.take(number.len() as int) =~= number);
    } else {
        a_slip_starts_with_its_number(
            number,
            destination,
            tab_code,
            tab_label,
            waiter,
            lines.drop_last(),
        );
        let before = slip_text(head, lines.drop_last());
        let whole = slip_text(head, lines);
        assert(whole.take(number.len() as int) =~= before.take(number.len() as int));
    }
}

} // verus!
