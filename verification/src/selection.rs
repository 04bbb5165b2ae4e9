//! Which rows of the visible file list are selected, and how a click with
//! or without the shift and control keys changes that.

use vstd::prelude::*;

verus! {

/// The selection: nothing, one row, or several rows in the order in which
/// they were added. Rows are positions in the list as it is shown, not
/// identifiers of files.
#[derive(Debug, Clone, PartialEq, Eq)]
pub enum FileSelection {
    Empty,
    Single(usize),
    Multiple(Vec<usize>),
}

/// A selection as the contracts speak of it.
pub enum SelectionView {
    Empty,
    Single(usize),
    Multiple(Seq<usize>),
}

impl View for FileSelection {
    type V = SelectionView;

    open spec fn view(&self) -> SelectionView {
        match self {
            FileSelection::Empty => SelectionView::Empty,
            FileSelection::Single(index) => SelectionView::Single(*index),
            FileSelection::Multiple(indices) => SelectionView::Multiple(indices@),
        }
    }
}

impl Default for FileSelection {
    fn default() -> (selection: Self)
        ensures
            selection@ == SelectionView::Empty,
    {
        FileSelection::Empty
    }
}

/// The rows from `low` to `high`, both included, in rising order; no row
/// where `high` is below `low`.
pub open spec fn rows(low: usize, high: usize) -> Seq<usize> {
    if low <= high {
        Seq::new((high - low + 1) as nat, |k: int| (low + k) as usize)
    } else {
        Seq::empty()
    }
}

/// The rows between `anchor` and `index`, both included, in rising order.
pub open spec fn span(anchor: usize, index: usize) -> Seq<usize> {
    if anchor <= index {
        rows(anchor, index)
    } else {
        rows(index, anchor)
    }
}

/// The test that holds of every row but `index`.
pub open spec fn is_not(index: usize) -> spec_fn(usize) -> bool {
    |member: usize| member != index
}

/// `members` without every occurrence of `index`, the rest in their order.
pub open spec fn without(members: Seq<usize>, index: usize) -> Seq<usize> {
    members.filter(is_not(index))
}

/// `members` with the membership of `index` switched: taken out where it is
/// a member, added at the end where it is not.
pub open spec fn toggled(members: Seq<usize>, index: usize) -> Seq<usize> {
    if members.contains(index) {
        without(members, index)
    } else {
        members.push(index)
    }
}

impl SelectionView {
    /// No row is selected twice.
    pub open spec fn wf(self) -> bool {
        self matches SelectionView::Multiple(members) ==> members.no_duplicates()
    }

    /// Whether row `index` is selected.
    pub open spec fn selects(self, index: usize) -> bool {
        match self {
            SelectionView::Empty => false,
            SelectionView::Single(row) => row == index,
            SelectionView::Multiple(members) => members.contains(index),
        }
    }

    /// The row from which a shift click measures its span: the selected row,
    /// or of several the one that was added first.
    pub open spec fn anchor(self) -> Option<usize> {
        match self {
            SelectionView::Empty => None,
            SelectionView::Single(row) => Some(row),
            SelectionView::Multiple(members) => if members.len() > 0 {
                Some(members[0])
            } else {
                None
            },
        }
    }

    /// The number of entries of the selection.
    pub open spec fn count(self) -> nat {
        match self {
            SelectionView::Empty => 0,
            SelectionView::Single(_) => 1,
            SelectionView::Multiple(members) => members.len(),
        }
    }

    /// The selection after a click on row `index` with the shift key down
    /// or not, and the control key down or not.
    ///
    /// With nothing selected the click selects the row. With one row
    /// selected, a click on that row clears the selection; otherwise shift
    /// selects the span between the two rows, control selects the two rows,
    /// and a plain click selects the clicked row alone. With several rows
    /// selected, shift selects the span between the row that was added first
    /// and the clicked row, control switches the membership of the clicked
    /// row, and a plain click selects the clicked row alone. Shift wins over
    /// control. A shift click on a selection of several from which every row
    /// was taken out has no row to start from and selects the clicked row
    /// alone.
    pub open spec fn clicked(self, index: usize, shift: bool, ctrl: bool) -> SelectionView {
        match self {
            SelectionView::Empty => SelectionView::Single(index),
            SelectionView::Single(first) => {
                if first == index {
                    SelectionView::Empty
                } else if shift {
                    SelectionView::Multiple(span(first, index))
                } else if ctrl {
                    SelectionView::Multiple(seq![first, index])
                } else {
                    SelectionView::Single(index)
                }
            },
            SelectionView::Multiple(members) => {
                if shift {
                    if members.len() > 0 {
                        SelectionView::Multiple(span(members[0], index))
                    } else {
                        SelectionView::Single(index)
                    }
                } else if ctrl {
                    SelectionView::Multiple(toggled(members, index))
                } else {
                    SelectionView::Single(index)
                }
            },
        }
    }
}

/// Whether `index` occurs in `members`.
pub fn is_member(members: &Vec<usize>, index: usize) -> (found: bool)
    ensures
        found == members@.contains(index),
{
    let mut i: usize = 0;
    while i < members.len()
        invariant
            i <= members.len(),
            forall|k: int| 0 <= k < i ==> members@[k] != index,
        decreases members.len() - i,
    {
        if members[i] == index {
            return true;
        }
        i += 1;
    }
    false
}

fn rows_between(low: usize, high: usize) -> (list: Vec<usize>)
    requires
        low <= high,
    ensures
        list@ == rows(low, high),
{
    let mut list: Vec<usize> = Vec::new();
    let mut row: usize = low;
    while row < high
        invariant
            low <= row <= high,
            list@.len() == row - low,
            forall|k: int| 0 <= k < list@.len() ==> list@[k] == low + k,
        decreases high - row,
    {
        list.push(row);
        row += 1;
    }
    list.push(high);
    assert(list@ =~= rows(low, high));
    list
}

fn span_of(anchor: usize, index: usize) -> (list: Vec<usize>)
    ensures
        list@ == span(anchor, index),
{
    if anchor <= index {
        rows_between(anchor, index)
    } else {
        rows_between(index, anchor)
    }
}

fn remove_row(members: &Vec<usize>, index: usize) -> (rest: Vec<usize>)
    ensures
        rest@ == without(members@, index),
{
    let mut rest: Vec<usize> = Vec::new();
    let mut i: usize = 0;
    proof {
        reveal(Seq::filter);
        assert(members@.take(0) =~= Seq::<usize>::empty());
    }
    while i < members.len()
        invariant
            i <= members.len(),
            rest@ == members@.take(i as int).filter(is_not(index)),
        decreases members.len() - i,
    {
        proof {
            reveal(Seq::filter);
            assert(members@.take(i + 1).drop_last() =~= members@.take(i as int));
        }
        if members[i] != index {
            rest.push(members[i]);
        }
        i += 1;
    }
    assert(members@.take(i as int) =~= members@);
    rest
}

fn copy_rows(members: &Vec<usize>) -> (copy: Vec<usize>)
    ensures
        copy@ == members@,
{
    let mut copy: Vec<usize> = Vec::new();
    let mut i: usize = 0;
    while i < members.len()
        invariant
            i <= members.len(),
            copy@ == members@.take(i as int),
        decreases members.len() - i,
    {
        copy.push(members[i]);
        assert(members@.take(i as int).push(members@[i as int]) =~= members@.take(i + 1));
        i += 1;
    }
    assert(members@.take(i as int) =~= members@);
    copy
}

impl FileSelection {
    /// Whether row `index` is selected.
    pub fn contains(&self, index: usize) -> (selected: bool)
        ensures
            selected == self@.selects(index),
    {
        match self {
            FileSelection::Empty => false,
            FileSelection::Single(row) => *row == index,
            FileSelection::Multiple(members) => is_member(members, index),
        }
    }

    /// The number of entries of the selection.
    pub fn count(&self) -> (count: usize)
        ensures
            count == self@.count(),
    {
        match self {
            FileSelection::Empty => 0,
            FileSelection::Single(_) => 1,
            FileSelection::Multiple(members) => members.len(),
        }
    }

    /// The selection after a click on row `index`; `shift` and `ctrl` say
    /// which of the two keys were down.
    pub fn select(&self, index: usize, shift: bool, ctrl: bool) -> (next: FileSelection)
        ensures
            next@ == self@.clicked(index, shift, ctrl),
    {
        match self {
            FileSelection::Empty => FileSelection::Single(index),
            FileSelection::Single(first) => {
                if *first == index {
                    FileSelection::Empty
                } else if shift {
                    FileSelection::Multiple(span_of(*first, index))
                } else if ctrl {
                    let mut pair: Vec<usize> = Vec::new();
                    pair.push(*first);
                    pair.push(index);
                    assert(pair@ =~= seq![*first, index]);
                    FileSelection::Multiple(pair)
                } else {
                    FileSelection::Single(index)
                }
            },
            FileSelection::Multiple(members) => {
                if shift {
                    if members.len() > 0 {
                        FileSelection::Multiple(span_of(members[0], index))
                    } else {
                        FileSelection::Single(index)
                    }
                } else if ctrl {
                    if !is_member(members, index) {
                        let mut grown = copy_rows(members);
                        grown.push(index);
                        FileSelection::Multiple(grown)
                    } else {
                        FileSelection::Multiple(remove_row(members, index))
                    }
                } else {
                    FileSelection::Single(index)
                }
            },
        }
    }
}

/// A span holds exactly the rows between its two ends, each once.
pub proof fn lemma_span_members(anchor: usize, index: usize)
    ensures
        span(anchor, index).no_duplicates(),
        forall|row: usize|
            span(anchor, index).contains(row) <==> (anchor <= row <= index || index <= row
                <= anchor),
        span(anchor, index).len() == if anchor <= index {
            index - anchor + 1
        } else {
            anchor - index + 1
        },
{
    let low = if anchor <= index {
        anchor
    } else {
        index
    };
    let high = if anchor <= index {
        index
    } else {
        anchor
    };
    let s = span(anchor, index);
    assert(s == rows(low, high));
    assert forall|row: usize| s.contains(row) <==> (low <= row <= high) by {
        if low <= row <= high {
            assert(s[row - low] == row);
        }
    }
}

/// Taking a row out of a selection leaves exactly the other rows selected,
/// and none of them twice where none was before.
pub proof fn lemma_without_members(members: Seq<usize>, index: usize)
    ensures
        forall|row: usize|
            #![trigger without(members, index).contains(row)]
            #![trigger members.contains(row)]
            without(members, index).contains(row) <==> (row != index && members.contains(row)),
        members.no_duplicates() ==> without(members, index).no_duplicates(),
        without(members, index).len() <= members.len(),
    decreases members.len(),
{
    reveal(Seq::filter);
    let keep = is_not(index);
    let out = members.filter(keep);
    if members.len() > 0 {
        let front = members.drop_last();
        let last = members.last();
        lemma_without_members(front, index);
        let sub = front.filter(keep);
        assert forall|row: usize| out.contains(row) <==> (row != index && members.contains(
            row,
        )) by {
            if out.contains(row) {
                let j = choose|j: int| 0 <= j < out.len() && out[j] == row;
                if j < sub.len() {
                    assert(sub[j] == row);
                    assert(sub.contains(row));
                    assert(without(front, index).contains(row));
                    let k = choose|k: int| 0 <= k < front.len() && front[k] == row;
                    assert(members[k] == row);
                } else {
                    assert(keep(last));
                    assert(members[members.len() - 1] == row);
                }
            }
            if row != index && members.contains(row) {
                let k = choose|k: int| 0 <= k < members.len() && members[k] == row;
                if k < front.len() {
                    assert(front[k] == row);
                    assert(front.contains(row));
                    assert(without(front, index).contains(row));
                    let j = choose|j: int| 0 <= j < sub.len() && sub[j] == row;
                    assert(out[j] == row);
                } else {
                    assert(keep(last));
                    assert(out[sub.len() as int] == row);
                }
            }
        }
        if members.no_duplicates() {
            assert(front.no_duplicates());
            if keep(last) && without(front, index).contains(last) {
                let k = choose|k: int| 0 <= k < front.len() && front[k] == last;
                assert(members[k] == members[members.len() - 1]);
            }
        }
    }
}

/// A click never leaves a row selected twice.
pub proof fn lemma_click_keeps_rows_distinct(
    selection: SelectionView,
    index: usize,
    shift: bool,
    ctrl: bool,
)
    requires
        selection.wf(),
    ensures
        selection.clicked(index, shift, ctrl).wf(),
{
    match selection {
        SelectionView::Empty => {},
        SelectionView::Single(first) => {
            lemma_span_members(first, index);
        },
        SelectionView::Multiple(members) => {
            if members.len() > 0 {
                lemma_span_members(members[0], index);
            }
            lemma_without_members(members, index);
        },
    }
}

/// A shift click on a selection that has a first row selects exactly the
/// rows between that row and the clicked one, unless the selection is the
/// clicked row alone, which the click clears.
pub proof fn lemma_shift_click_selects_span(selection: SelectionView, index: usize, ctrl: bool)
    requires
        selection.anchor() is Some,
        selection != SelectionView::Single(index),
    ensures
        forall|row: usize|
            selection.clicked(index, true, ctrl).selects(row) <==> (selection.anchor().unwrap()
                <= row <= index || index <= row <= selection.anchor().unwrap()),
{
    lemma_span_members(selection.anchor().unwrap(), index);
}

/// A control click on a selection of several rows switches whether the
/// clicked row is selected and changes nothing for any other row.
pub proof fn lemma_control_click_toggles(members: Seq<usize>, index: usize)
    ensures
        ({
            let next = SelectionView::Multiple(members).clicked(index, false, true);
            &&& next.selects(index) == !members.contains(index)
            &&& forall|row: usize| row != index ==> next.selects(row) == members.contains(row)
        }),
{
    lemma_without_members(members, index);
    if !members.contains(index) {
        let grown = members.push(index);
        assert(grown[members.len() as int] == index);
        assert forall|row: usize| row != index implies grown.contains(row) == members.contains(
            row,
        ) by {
            if members.contains(row) {
                let k = choose|k: int| 0 <= k < members.len() && members[k] == row;
                assert(grown[k] == row);
            }
        }
    }
}

} // verus!
