//! The order of the rows in the agents panel.
use crate::schema::PaneId;
use crate::state::{AgentPanelSort, App, PanelEntry};
use crate::text;
use vstd::prelude::*;

verus! {

/// Being another than `id`.
pub open spec fn is_not(id: Seq<char>) -> spec_fn(Seq<char>) -> bool {
    |other: Seq<char>| other != id
}

/// `ids` in the stored order: each of its entries takes the first row of that id
/// that is left. Rows that no entry takes follow in the order they had, and an
/// entry without a row leaves no gap.
pub open spec fn arranged(ids: Seq<Seq<char>>, order: Seq<Seq<char>>) -> Seq<Seq<char>>
    decreases order.len(),
{
    if order.len() == 0 {
        ids
    } else {
        match ids.index_of_first(order[0]) {
            Some(at) => seq![order[0]] + arranged(ids.remove(at), order.skip(1)),
            None => arranged(ids, order.skip(1)),
        }
    }
}

/// `ids` with `id` moved before `before`, or to the end.
pub open spec fn moved(ids: Seq<Seq<char>>, id: Seq<char>, before: Option<Seq<char>>) -> Seq<
    Seq<char>,
> {
    let rest = ids.filter(is_not(id));
    let end = rest.len() as int;
    let at = match before {
        Some(before) => rest.index_of_first(before).unwrap_or(end),
        None => end,
    };
    rest.insert(at, id)
}

impl App {
    /// The id that the API answers with for the pane.
    pub open spec fn public_pane(self, ws_idx: int, pane_id: PaneId) -> Option<Seq<char>> {
        if 0 <= ws_idx < self.state.workspaces@.len() {
            match self.state.workspaces@[ws_idx].pane_at(pane_id) {
                Some(pane) => text::optional(pane.public_id),
                None => None,
            }
        } else {
            None
        }
    }

    /// The ids of the rows, in the order that the panel derives.
    pub open spec fn row_ids(self) -> Seq<Seq<char>> {
        self.state.agent_rows@.filter_map(
            |row: PanelEntry| self.public_pane(row.ws_idx as int, row.pane_id),
        )
    }

    /// The ids of the rows, in the order that the panel shows them.
    pub open spec fn panel_ids(self) -> Seq<Seq<char>> {
        if self.state.agent_panel_sort is UserOrdered {
            arranged(self.row_ids(), text::words(self.state.agent_user_order@))
        } else {
            self.row_ids()
        }
    }

    /// The id that the API answers with for the pane.
    pub fn public_pane_id(&self, ws_idx: usize, pane_id: PaneId) -> (id: Option<String>)
        ensures
            text::optional(id) == self.public_pane(ws_idx as int, pane_id),
    {
        if ws_idx >= self.state.workspaces.len() {
            return None;
        }
        match self.state.workspaces[ws_idx].pane(pane_id) {
            Some(pane) => text::clone_optional(&pane.public_id),
            None => None,
        }
    }

    /// Public pane ids of every row the agents panel currently shows, in the
    /// order it shows them.
    pub fn agent_panel_pane_ids(&self) -> (ids: Vec<String>)
        ensures
            text::words(ids@) == self.panel_ids(),
    {
        let mut ids: Vec<String> = Vec::new();
        let ghost rows = self.state.agent_rows@;
        let ghost public = |row: PanelEntry| self.public_pane(row.ws_idx as int, row.pane_id);
        let mut i: usize = 0;
        assert(text::words(ids@) =~= rows.take(0).filter_map(public));
        while i < self.state.agent_rows.len()
            invariant
                i <= rows.len(),
                rows == self.state.agent_rows@,
                public == (|row: PanelEntry| self.public_pane(row.ws_idx as int, row.pane_id)),
                text::words(ids@) == rows.take(i as int).filter_map(public),
            decreases rows.len() - i,
        {
            proof {
                rows.lemma_filter_map_take_succ(public, i as int);
            }
            let ghost before = ids@;
            let row = self.state.agent_rows[i];
            match self.public_pane_id(row.ws_idx, row.pane_id) {
                Some(id) => {
                    ids.push(id);
                    assert(text::words(ids@) =~= text::words(before).push(id@));
                },
                None => {},
            }
            i = i + 1;
        }
        assert(rows.take(i as int) == rows);
        match self.state.agent_panel_sort {
            AgentPanelSort::UserOrdered => arrange(&ids, &self.state.agent_user_order),
            _ => ids,
        }
    }
}

proof fn lemma_filter_step(s: Seq<Seq<char>>, keep: spec_fn(Seq<char>) -> bool, i: int)
    requires
        0 <= i < s.len(),
    ensures
        s.take(i + 1).filter(keep) == (if keep(s[i]) {
            s.take(i).filter(keep).push(s[i])
        } else {
            s.take(i).filter(keep)
        }),
{
    reveal(Seq::filter);
    assert(s.take(i + 1).drop_last() == s.take(i));
}

/// Whether `id` is in `ids`.
pub fn contains_id(ids: &Vec<String>, id: &str) -> (found: bool)
    ensures
        found == text::words(ids@).contains(id@),
{
    proof {
        text::words(ids@).index_of_first_ensures(id@);
    }
    position(ids, id).is_some()
}

/// Whether two lists name the same ids in the same order.
pub fn same_ids(a: &Vec<String>, b: &Vec<String>) -> (same: bool)
    ensures
        same == (text::words(a@) == text::words(b@)),
{
    let ghost left = text::words(a@);
    let ghost right = text::words(b@);
    if a.len() != b.len() {
        assert(left.len() != right.len());
        return false;
    }
    let mut i: usize = 0;
    while i < a.len()
        invariant
            i <= a@.len() == b@.len(),
            left == text::words(a@),
            right == text::words(b@),
            forall|j: int| 0 <= j < i ==> left[j] == right[j],
        decreases a@.len() - i,
    {
        assert(left[i as int] == a@[i as int]@ && right[i as int] == b@[i as int]@);
        if !a[i].as_str().eq(b[i].as_str()) {
            return false;
        }
        i = i + 1;
    }
    assert(left =~= right);
    true
}

/// Puts `ids` in the stored order.
pub fn arrange(ids: &Vec<String>, order: &Vec<String>) -> (result: Vec<String>)
    ensures
        text::words(result@) == arranged(text::words(ids@), text::words(order@)),
{
    let ghost stored = text::words(order@);
    let ghost goal = arranged(text::words(ids@), stored);
    let mut rest = ids.clone();
    let mut result: Vec<String> = Vec::new();
    let mut i: usize = 0;
    assert(stored.skip(0) =~= stored);
    assert(text::words(result@) + goal =~= goal);
    while i < order.len()
        invariant
            i <= order@.len(),
            stored == text::words(order@),
            text::words(result@) + arranged(text::words(rest@), stored.skip(i as int)) == goal,
        decreases order@.len() - i,
    {
        let ghost placed = text::words(result@);
        let ghost left = text::words(rest@);
        assert(stored.skip(i as int)[0] == order@[i as int]@);
        assert(stored.skip(i as int).skip(1) =~= stored.skip(i + 1));
        match position(&rest, order[i].as_str()) {
            Some(at) => {
                let id = rest.remove(at);
                assert(text::words(rest@) =~= left.remove(at as int));
                assert(id@ == left[at as int]);
                proof {
                    left.index_of_first_ensures(stored[i as int]);
                }
                result.push(id);
                let ghost tail = arranged(left.remove(at as int), stored.skip(i + 1));
                assert(text::words(result@) + tail =~= placed + (seq![stored[i as int]] + tail));
            },
            None => {},
        }
        i = i + 1;
    }
    let ghost placed = result@;
    let ghost left = rest@;
    result.append(&mut rest);
    assert(text::words(result@) =~= text::words(placed) + text::words(left));
    result
}

/// Moves `id` before `before`, or to the end.
pub fn move_id(ids: &Vec<String>, id: &str, before: Option<&str>) -> (order: Vec<String>)
    ensures
        text::words(order@) == moved(
            text::words(ids@),
            id@,
            match before {
                Some(before) => Some(before@),
                None => None,
            },
        ),
{
    let ghost all = text::words(ids@);
    let ghost others = is_not(id@);
    let mut order: Vec<String> = Vec::new();
    let mut i: usize = 0;
    assert(all.take(0).filter(others) =~= Seq::empty());
    while i < ids.len()
        invariant
            i <= ids@.len(),
            all == text::words(ids@),
            others == is_not(id@),
            text::words(order@) =~= all.take(i as int).filter(others),
        decreases ids@.len() - i,
    {
        let ghost shorter = order@;
        proof {
            lemma_filter_step(all, others, i as int);
        }
        if !ids[i].as_str().eq(id) {
            order.push(ids[i].clone());
            assert(text::words(order@) =~= text::words(shorter).push(ids@[i as int]@));
        }
        i = i + 1;
    }
    assert(all.take(i as int) == all);
    let at: usize = match before {
        Some(before) => match position(&order, before) {
            Some(at) => at,
            None => order.len(),
        },
        None => order.len(),
    };
    let ghost rest = order@;
    order.insert(at, id.to_owned());
    assert(text::words(order@) =~= text::words(rest).insert(at as int, id@));
    order
}

/// The first position of `id` in `ids`.
fn position(ids: &Vec<String>, id: &str) -> (at: Option<usize>)
    ensures
        match at {
            Some(at) => text::words(ids@).index_of_first(id@) == Some(at as int) && at
                < ids@.len(),
            None => text::words(ids@).index_of_first(id@) is None,
        },
{
    let ghost all = text::words(ids@);
    proof {
        all.index_of_first_ensures(id@);
    }
    let mut i: usize = 0;
    while i < ids.len()
        invariant
            i <= ids@.len(),
            all == text::words(ids@),
            forall|j: int| 0 <= j < i ==> all[j] != id@,
            match all.index_of_first(id@) {
                Some(k) => 0 <= k < all.len() && all[k] == id@ && forall|j: int|
                    0 <= j < k < all.len() ==> all[j] != id@,
                None => !all.contains(id@),
            },
        decreases ids@.len() - i,
    {
        assert(all[i as int] == ids@[i as int]@);
        if ids[i].as_str().eq(id) {
            assert(all.contains(id@));
            return Some(i);
        }
        i = i + 1;
    }
    None
}

proof fn lemma_filter_last(s: Seq<Seq<char>>, keep: spec_fn(Seq<char>) -> bool)
    requires
        s.len() > 0,
    ensures
        s.filter(keep) == (if keep(s.last()) {
            s.drop_last().filter(keep).push(s.last())
        } else {
            s.drop_last().filter(keep)
        }),
{
    reveal(Seq::filter);
}

proof fn lemma_filter_of_none(keep: spec_fn(Seq<char>) -> bool)
    ensures
        Seq::<Seq<char>>::empty().filter(keep) == Seq::<Seq<char>>::empty(),
{
    reveal(Seq::filter);
}

proof fn lemma_filter_counts(s: Seq<Seq<char>>, keep: spec_fn(Seq<char>) -> bool, id: Seq<char>)
    ensures
        s.filter(keep).to_multiset().count(id) == (if keep(id) {
            s.to_multiset().count(id)
        } else {
            0
        }),
    decreases s.len(),
{
    broadcast use vstd::seq_lib::group_to_multiset_ensures;

    if s.len() == 0 {
        lemma_filter_of_none(keep);
        assert(s =~= Seq::empty());
    } else {
        lemma_filter_counts(s.drop_last(), keep, id);
        lemma_filter_last(s, keep);
        assert(s =~= s.drop_last().push(s.last()));
    }
}

/// Arranging rows neither loses nor repeats one, whatever order is stored.
pub proof fn lemma_arranged_keeps_every_row(ids: Seq<Seq<char>>, order: Seq<Seq<char>>)
    ensures
        arranged(ids, order).to_multiset() == ids.to_multiset(),
    decreases order.len(),
{
    if order.len() > 0 {
        let id = order[0];
        ids.index_of_first_ensures(id);
        match ids.index_of_first(id) {
            Some(at) => {
                let tail = arranged(ids.remove(at), order.skip(1));
                lemma_arranged_keeps_every_row(ids.remove(at), order.skip(1));
                vstd::seq_lib::to_multiset_remove(ids, at);
                vstd::seq_lib::to_multiset_contains(ids, id);
                vstd::seq_lib::to_multiset_insert(tail, 0, id);
                assert(seq![id] + tail =~= tail.insert(0, id));
                assert(ids.to_multiset().remove(id).insert(id) =~= ids.to_multiset());
            },
            None => {
                lemma_arranged_keeps_every_row(ids, order.skip(1));
            },
        }
    }
}

/// Without a stored order the rows stay where they are.
pub proof fn lemma_nothing_stored_changes_nothing(ids: Seq<Seq<char>>)
    ensures
        arranged(ids, Seq::empty()) == ids,
{
}

proof fn lemma_filter_keeps_all(s: Seq<Seq<char>>, keep: spec_fn(Seq<char>) -> bool)
    requires
        forall|i: int| 0 <= i < s.len() ==> keep(#[trigger] s[i]),
    ensures
        s.filter(keep) == s,
    decreases s.len(),
{
    if s.len() == 0 {
        lemma_filter_of_none(keep);
        assert(s =~= Seq::empty());
    } else {
        assert forall|i: int| 0 <= i < s.len() - 1 implies keep(#[trigger] s.drop_last()[i]) by {
            assert(keep(s[i]));
        }
        lemma_filter_keeps_all(s.drop_last(), keep);
        lemma_filter_last(s, keep);
        assert(keep(s[s.len() - 1]));
        assert(s =~= s.drop_last().push(s.last()));
    }
}

proof fn lemma_filter_keeps_none(s: Seq<Seq<char>>, keep: spec_fn(Seq<char>) -> bool)
    requires
        forall|i: int| 0 <= i < s.len() ==> !keep(#[trigger] s[i]),
    ensures
        s.filter(keep) == Seq::<Seq<char>>::empty(),
    decreases s.len(),
{
    if s.len() == 0 {
        lemma_filter_of_none(keep);
        assert(s =~= Seq::empty());
    } else {
        assert forall|i: int| 0 <= i < s.len() - 1 implies !keep(#[trigger] s.drop_last()[i]) by {
            assert(!keep(s[i]));
        }
        lemma_filter_keeps_none(s.drop_last(), keep);
        lemma_filter_last(s, keep);
        assert(!keep(s[s.len() - 1]));
    }
}

/// Where every entry of the stored order has its row, those rows are shown
/// first, in the stored order.
pub proof fn lemma_stored_rows_come_first(ids: Seq<Seq<char>>, order: Seq<Seq<char>>)
    requires
        order.to_multiset().subset_of(ids.to_multiset()),
    ensures
        order.is_prefix_of(arranged(ids, order)),
    decreases order.len(),
{
    let shown = arranged(ids, order);
    if order.len() > 0 {
        let id = order[0];
        let rest = order.skip(1);
        assert(order.contains(id));
        vstd::seq_lib::to_multiset_contains(order, id);
        vstd::seq_lib::to_multiset_contains(ids, id);
        assert(order.to_multiset().count(id) <= ids.to_multiset().count(id));
        ids.index_of_first_ensures(id);
        let at = ids.index_of_first(id).unwrap();
        let left = ids.remove(at);
        vstd::seq_lib::to_multiset_remove(ids, at);
        vstd::seq_lib::to_multiset_remove(order, 0);
        assert(order.remove(0) =~= rest);
        assert forall|other: Seq<char>|
            rest.to_multiset().count(other) <= left.to_multiset().count(other) by {
            assert(order.to_multiset().count(other) <= ids.to_multiset().count(other));
        }
        lemma_stored_rows_come_first(left, rest);
        let tail = arranged(left, rest);
        assert(rest =~= tail.subrange(0, rest.len() as int));
        assert forall|i: int| 0 <= i < order.len() implies order[i] == shown[i] by {
            if i > 0 {
                assert(rest[i - 1] == tail.subrange(0, rest.len() as int)[i - 1]);
            }
        }
        assert(order =~= shown.subrange(0, order.len() as int));
    } else {
        assert(order =~= shown.subrange(0, 0));
    }
}

/// Where the stored order names exactly the rows, the rows are shown in it.
pub proof fn lemma_complete_order_is_shown(ids: Seq<Seq<char>>, order: Seq<Seq<char>>)
    requires
        order.to_multiset() == ids.to_multiset(),
    ensures
        arranged(ids, order) == order,
{
    let shown = arranged(ids, order);
    lemma_stored_rows_come_first(ids, order);
    lemma_arranged_keeps_every_row(ids, order);
    vstd::seq_lib::to_multiset_len(order);
    vstd::seq_lib::to_multiset_len(shown);
    assert(shown.subrange(0, order.len() as int) =~= shown);
}

/// Rows that go away leave the order of the others as it was, though the stored
/// order still names them.
pub proof fn lemma_gone_rows_leave_no_gap(
    ids: Seq<Seq<char>>,
    order: Seq<Seq<char>>,
    stays: spec_fn(Seq<char>) -> bool,
)
    ensures
        arranged(ids.filter(stays), order) == arranged(ids, order).filter(stays),
    decreases order.len(),
{
    if order.len() > 0 {
        let id = order[0];
        lemma_filter_without_first(ids, id, stays);
        match ids.index_of_first(id) {
            Some(at) => {
                let tail = arranged(ids.remove(at), order.skip(1));
                lemma_gone_rows_leave_no_gap(ids.remove(at), order.skip(1), stays);
                Seq::filter_distributes_over_add(seq![id], tail, stays);
                if stays(id) {
                    lemma_filter_keeps_all(seq![id], stays);
                } else {
                    lemma_filter_keeps_none(seq![id], stays);
                    assert(Seq::<Seq<char>>::empty() + tail.filter(stays) =~= tail.filter(stays));
                }
            },
            None => {
                lemma_gone_rows_leave_no_gap(ids, order.skip(1), stays);
            },
        }
    }
}

proof fn lemma_filter_without_first(
    ids: Seq<Seq<char>>,
    id: Seq<char>,
    keep: spec_fn(Seq<char>) -> bool,
)
    ensures
        match ids.index_of_first(id) {
            Some(at) => if keep(id) {
                &&& ids.filter(keep).index_of_first(id) matches Some(k)
                &&& ids.filter(keep).remove(k) == ids.remove(at).filter(keep)
            } else {
                &&& ids.filter(keep).index_of_first(id) is None
                &&& ids.filter(keep) == ids.remove(at).filter(keep)
            },
            None => ids.filter(keep).index_of_first(id) is None,
        },
{
    let kept = ids.filter(keep);
    ids.index_of_first_ensures(id);
    kept.index_of_first_ensures(id);
    match ids.index_of_first(id) {
        Some(at) => {
            let head = ids.take(at);
            let tail = ids.skip(at + 1);
            let first = head.filter(keep);
            let last = tail.filter(keep);
            assert(ids =~= head + (seq![id] + tail));
            assert(ids.remove(at) =~= head + tail);
            Seq::filter_distributes_over_add(head, seq![id] + tail, keep);
            Seq::filter_distributes_over_add(seq![id], tail, keep);
            Seq::filter_distributes_over_add(head, tail, keep);
            assert(!first.contains(id)) by {
                if first.contains(id) {
                    head.lemma_filter_contains_rev(keep, id);
                }
            }
            if keep(id) {
                lemma_filter_keeps_all(seq![id], keep);
                lemma_first_after(first, id, last);
                assert(kept.remove(first.len() as int) =~= first + last);
            } else {
                lemma_filter_keeps_none(seq![id], keep);
                assert(Seq::<Seq<char>>::empty() + last =~= last);
                if kept.contains(id) {
                    let k = choose|k: int| 0 <= k < kept.len() && kept[k] == id;
                    ids.lemma_filter_pred(keep, k);
                }
            }
        },
        None => {
            if kept.contains(id) {
                ids.lemma_filter_contains_rev(keep, id);
            }
        },
    }
}

proof fn lemma_first_after(head: Seq<Seq<char>>, id: Seq<char>, tail: Seq<Seq<char>>)
    requires
        !head.contains(id),
    ensures
        (head + (seq![id] + tail)).index_of_first(id) == Some(head.len() as int),
{
    let whole = head + (seq![id] + tail);
    whole.index_of_first_ensures(id);
    assert(whole[head.len() as int] == id);
    assert(whole.contains(id));
    assert forall|j: int| 0 <= j < head.len() implies whole[j] != id by {
        assert(head.contains(head[j]));
    }
}

/// A move leaves the other rows in the order they had.
pub proof fn lemma_move_keeps_the_others(
    ids: Seq<Seq<char>>,
    id: Seq<char>,
    before: Option<Seq<char>>,
)
    ensures
        moved(ids, id, before).filter(is_not(id)) == ids.filter(is_not(id)),
{
    let at = lemma_move_position(ids, id, before);
    lemma_rest_lacks(ids, id);
    lemma_without_inserted(ids.filter(is_not(id)), at, id);
}

proof fn lemma_without_inserted(rest: Seq<Seq<char>>, at: int, id: Seq<char>)
    requires
        0 <= at <= rest.len(),
        forall|i: int| 0 <= i < rest.len() ==> #[trigger] rest[i] != id,
    ensures
        rest.insert(at, id).filter(is_not(id)) == rest,
    decreases rest.len(),
{
    let longer = rest.insert(at, id);
    lemma_filter_last(longer, is_not(id));
    if at == rest.len() {
        lemma_filter_keeps_all(rest, is_not(id));
        assert(longer.drop_last() =~= rest);
    } else {
        let shorter = rest.drop_last();
        assert forall|i: int| 0 <= i < shorter.len() implies #[trigger] shorter[i] != id by {
            assert(rest[i] != id);
        }
        lemma_without_inserted(shorter, at, id);
        assert(longer.drop_last() =~= shorter.insert(at, id));
        assert(longer.last() == rest[rest.len() - 1]);
        assert(shorter.push(rest.last()) =~= rest);
    }
}

proof fn lemma_rest_lacks(ids: Seq<Seq<char>>, id: Seq<char>)
    ensures
        forall|i: int|
            0 <= i < ids.filter(is_not(id)).len() ==> #[trigger] ids.filter(is_not(id))[i] != id,
    decreases ids.len(),
{
    let others = is_not(id);
    if ids.len() == 0 {
        assert(ids =~= Seq::empty());
        lemma_filter_of_none(others);
    } else {
        lemma_rest_lacks(ids.drop_last(), id);
        lemma_filter_last(ids, others);
    }
}

proof fn lemma_move_position(ids: Seq<Seq<char>>, id: Seq<char>, before: Option<Seq<char>>) -> (at:
    int)
    ensures
        0 <= at <= ids.filter(is_not(id)).len(),
        moved(ids, id, before) == ids.filter(is_not(id)).insert(at, id),
        before is None ==> at == ids.filter(is_not(id)).len(),
        before matches Some(before) ==> at == ids.filter(is_not(id)).index_of_first(
            before,
        ).unwrap_or(ids.filter(is_not(id)).len() as int),
        before matches Some(before) ==> if ids.filter(is_not(id)).contains(
            before,
        ) {
            at < ids.filter(is_not(id)).len() && ids.filter(is_not(id))[at] == before
        } else {
            at == ids.filter(is_not(id)).len()
        },
{
    let rest = ids.filter(is_not(id));
    match before {
        Some(before) => {
            rest.index_of_first_ensures(before);
            rest.index_of_first(before).unwrap_or(rest.len() as int)
        },
        None => rest.len() as int,
    }
}

/// A moved row stands directly before the row it was moved before, or last.
pub proof fn lemma_moved_row_stands_before(
    ids: Seq<Seq<char>>,
    id: Seq<char>,
    before: Option<Seq<char>>,
)
    requires
        before matches Some(before) ==> ids.contains(before) && before != id,
    ensures
        match before {
            Some(before) => exists|at: int|
                0 <= at < moved(ids, id, Some(before)).len() - 1 && #[trigger] moved(
                    ids,
                    id,
                    Some(before),
                )[at] == id && moved(ids, id, Some(before))[at + 1] == before,
            None => moved(ids, id, None).len() > 0 && moved(ids, id, None).last() == id,
        },
{
    let others = is_not(id);
    let rest = ids.filter(is_not(id));
    let order = moved(ids, id, before);
    let at = lemma_move_position(ids, id, before);
    assert(order[at] == id);
    match before {
        Some(before) => {
            broadcast use vstd::seq_lib::group_to_multiset_ensures;

            lemma_filter_counts(ids, others, before);
            assert(ids.to_multiset().contains(before));
            assert(rest.contains(before));
            assert(order[at + 1] == before);
        },
        None => {},
    }
}

/// A move of a row that is there once neither loses nor repeats one.
pub proof fn lemma_move_keeps_every_row(
    ids: Seq<Seq<char>>,
    id: Seq<char>,
    before: Option<Seq<char>>,
)
    requires
        ids.to_multiset().count(id) == 1,
    ensures
        moved(ids, id, before).to_multiset() == ids.to_multiset(),
{
    let order = moved(ids, id, before);
    assert forall|other: Seq<char>| #[trigger]
        order.to_multiset().count(other) == ids.to_multiset().count(other) by {
        lemma_move_counts(ids, id, before, other);
    }
    assert(order.to_multiset() =~= ids.to_multiset());
}

/// A move leaves the others as often as they were, and the moved one once.
proof fn lemma_move_counts(
    ids: Seq<Seq<char>>,
    id: Seq<char>,
    before: Option<Seq<char>>,
    other: Seq<char>,
)
    ensures
        moved(ids, id, before).to_multiset().count(other) == (if other == id {
            1
        } else {
            ids.to_multiset().count(other)
        }),
{
    let rest = ids.filter(is_not(id));
    let at = lemma_move_position(ids, id, before);
    vstd::seq_lib::to_multiset_insert(rest, at, id);
    lemma_filter_counts(ids, is_not(id), other);
}

/// Moving a row where it was just moved changes nothing more.
pub proof fn lemma_move_twice_is_once(
    ids: Seq<Seq<char>>,
    id: Seq<char>,
    before: Option<Seq<char>>,
)
    ensures
        moved(moved(ids, id, before), id, before) == moved(ids, id, before),
{
    lemma_move_keeps_the_others(ids, id, before);
}

/// Where a move was stored, the same move gives that order again, though the
/// moved row be there more than once.
pub proof fn lemma_stored_move_is_settled(
    ids: Seq<Seq<char>>,
    shown: Seq<Seq<char>>,
    id: Seq<char>,
    before: Option<Seq<char>>,
)
    requires
        shown.to_multiset() == ids.to_multiset(),
        ids.contains(id),
    ensures
        moved(arranged(ids, moved(shown, id, before)), id, before) == moved(shown, id, before),
{
    let order = moved(shown, id, before);
    let again = arranged(ids, order);
    let rest = again.skip(order.len() as int);
    vstd::seq_lib::to_multiset_contains(ids, id);
    assert forall|other: Seq<char>|
        order.to_multiset().count(other) <= ids.to_multiset().count(other) by {
        lemma_move_counts(shown, id, before, other);
    }
    lemma_stored_rows_come_first(ids, order);
    lemma_arranged_keeps_every_row(ids, order);
    assert(again =~= order + rest);
    vstd::seq_lib::lemma_multiset_commutative(order, rest);
    assert forall|i: int| 0 <= i < rest.len() implies !is_not(id)(#[trigger] rest[i]) by {
        let other = rest[i];
        assert(rest.contains(other));
        vstd::seq_lib::to_multiset_contains(rest, other);
        lemma_move_counts(shown, id, before, other);
        assert(again.to_multiset().count(other) == order.to_multiset().count(other)
            + rest.to_multiset().count(other));
    }
    lemma_filter_keeps_none(rest, is_not(id));
    Seq::filter_distributes_over_add(order, rest, is_not(id));
    lemma_move_keeps_the_others(shown, id, before);
    assert(again.filter(is_not(id)) =~= shown.filter(is_not(id)));
}

/// The rows do not depend on how they are ordered.
pub proof fn lemma_row_ids_of(a: App, b: App)
    requires
        a.state.agent_rows == b.state.agent_rows,
        a.state.workspaces == b.state.workspaces,
    ensures
        a.row_ids() == b.row_ids(),
{
    assert((|row: PanelEntry| a.public_pane(row.ws_idx as int, row.pane_id)) =~= (|row: PanelEntry|
        b.public_pane(row.ws_idx as int, row.pane_id)));
}

/// The panel shows the rows that there are, each as often as it is there.
pub proof fn lemma_panel_shows_the_rows(app: App)
    ensures
        app.panel_ids().to_multiset() == app.row_ids().to_multiset(),
        forall|id: Seq<char>| app.panel_ids().contains(id) <==> app.row_ids().contains(id),
{
    lemma_arranged_keeps_every_row(
        app.row_ids(),
        text::words(app.state.agent_user_order@),
    );
    assert forall|id: Seq<char>| app.panel_ids().contains(id) <==> app.row_ids().contains(id) by {
        vstd::seq_lib::to_multiset_contains(app.panel_ids(), id);
        vstd::seq_lib::to_multiset_contains(app.row_ids(), id);
    }
}

/// Closed panes leave the panel without changing the order of the other rows.
pub proof fn lemma_closed_panes_leave_no_gap(
    app: App,
    after: App,
    stays: spec_fn(Seq<char>) -> bool,
)
    requires
        after.row_ids() == app.row_ids().filter(stays),
        after.state.agent_panel_sort == app.state.agent_panel_sort,
        after.state.agent_user_order == app.state.agent_user_order,
    ensures
        after.panel_ids() == app.panel_ids().filter(stays),
{
    lemma_gone_rows_leave_no_gap(
        app.row_ids(),
        text::words(app.state.agent_user_order@),
        stays,
    );
}

/// Being another id.
pub proof fn lemma_another_id(id: Seq<char>, other: Seq<char>)
    ensures
        is_not(id)(other) <==> other != id,
{
}

/// The public id of a pane is that of its workspace's pane, where both are there
/// and the pane has one.
pub proof fn lemma_public_pane_of_the_workspace(app: App, ws_idx: int, pane_id: PaneId)
    ensures
        !(0 <= ws_idx < app.state.workspaces@.len()) ==> app.public_pane(ws_idx, pane_id) is None,
        0 <= ws_idx < app.state.workspaces@.len() ==> match app.state.workspaces@[ws_idx].pane_at(
            pane_id,
        ) {
            Some(pane) => match pane.public_id {
                Some(id) => app.public_pane(ws_idx, pane_id) == Some(id@),
                None => app.public_pane(ws_idx, pane_id) is None,
            },
            None => app.public_pane(ws_idx, pane_id) is None,
        },
{
}

/// The rows are listed in the order that the panel derives: one more derived row
/// comes after the others, and a row without a public id is not listed.
pub proof fn lemma_rows_in_derived_order(shorter: App, longer: App, row: PanelEntry)
    requires
        longer.state.workspaces == shorter.state.workspaces,
        longer.state.agent_rows@ == shorter.state.agent_rows@.push(row),
    ensures
        longer.row_ids() == (match shorter.public_pane(row.ws_idx as int, row.pane_id) {
            Some(id) => shorter.row_ids().push(id),
            None => shorter.row_ids(),
        }),
{
    let a = |row: PanelEntry| shorter.public_pane(row.ws_idx as int, row.pane_id);
    let b = |row: PanelEntry| longer.public_pane(row.ws_idx as int, row.pane_id);
    assert(a =~= b);
    assert(longer.state.agent_rows@.drop_last() =~= shorter.state.agent_rows@);
}

/// Without derived rows none is listed.
pub proof fn lemma_no_rows_without_derived_rows(app: App)
    requires
        app.state.agent_rows@.len() == 0,
    ensures
        app.row_ids().len() == 0,
        app.panel_ids().len() == 0,
{
    lemma_panel_shows_the_rows(app);
    vstd::seq_lib::to_multiset_len(app.panel_ids());
    vstd::seq_lib::to_multiset_len(app.row_ids());
}

/// Under every sort but the user's own the panel shows the rows in the order that
/// it derives, whatever order is stored.
pub proof fn lemma_stored_order_counts_only_when_chosen(app: App)
    requires
        app.state.agent_panel_sort != AgentPanelSort::UserOrdered,
    ensures
        app.panel_ids() == app.row_ids(),
{
}

/// What the user arranged stays when the panel is switched to another sort and
/// back: the panel then shows again what it showed.
pub proof fn lemma_user_order_is_resumed(app: App, derived: App, back: App)
    requires
        app.state.agent_panel_sort == AgentPanelSort::UserOrdered,
        derived.state.agent_panel_sort != AgentPanelSort::UserOrdered,
        back.state.agent_panel_sort == AgentPanelSort::UserOrdered,
        derived.state.agent_rows == app.state.agent_rows,
        derived.state.workspaces == app.state.workspaces,
        back.state.agent_rows == app.state.agent_rows,
        back.state.workspaces == app.state.workspaces,
        back.state.agent_user_order == app.state.agent_user_order,
    ensures
        back.panel_ids() == app.panel_ids(),
        derived.panel_ids() == app.row_ids(),
{
    lemma_row_ids_of(app, back);
    lemma_row_ids_of(app, derived);
}

/// Under the user's sort the first stored id that has a row is shown first, and
/// the other rows as the rest of the stored order has them.
pub proof fn lemma_first_stored_row_comes_first(
    head: Seq<Seq<char>>,
    id: Seq<char>,
    tail: Seq<Seq<char>>,
    rest: Seq<Seq<char>>,
)
    requires
        !head.contains(id),
    ensures
        arranged(head + (seq![id] + tail), seq![id] + rest) == seq![id] + arranged(
            head + tail,
            rest,
        ),
{
    let ids = head + (seq![id] + tail);
    lemma_first_after(head, id, tail);
    assert((seq![id] + rest).skip(1) =~= rest);
    assert(ids.remove(head.len() as int) =~= head + tail);
}

/// A stored id without a row says nothing.
pub proof fn lemma_stored_id_without_row_says_nothing(
    ids: Seq<Seq<char>>,
    id: Seq<char>,
    rest: Seq<Seq<char>>,
)
    requires
        !ids.contains(id),
    ensures
        arranged(ids, seq![id] + rest) == arranged(ids, rest),
{
    ids.index_of_first_ensures(id);
    assert((seq![id] + rest).skip(1) =~= rest);
}

/// Rows that the stored order does not name are shown after those it names, in
/// the order that the panel derives.
pub proof fn lemma_unnamed_rows_come_last(
    named: Seq<Seq<char>>,
    unnamed: Seq<Seq<char>>,
    order: Seq<Seq<char>>,
)
    requires
        forall|i: int| 0 <= i < unnamed.len() ==> !order.contains(#[trigger] unnamed[i]),
    ensures
        arranged(named + unnamed, order) == arranged(named, order) + unnamed,
    decreases order.len(),
{
    if order.len() > 0 {
        let id = order[0];
        let rest = order.skip(1);
        assert(order =~= seq![id] + rest);
        assert(order.contains(id));
        assert forall|i: int| 0 <= i < unnamed.len() implies !rest.contains(
            #[trigger] unnamed[i],
        ) by {
            if rest.contains(unnamed[i]) {
                let k = choose|k: int| 0 <= k < rest.len() && rest[k] == unnamed[i];
                assert(order[k + 1] == unnamed[i]);
            }
        }
        named.index_of_first_ensures(id);
        match named.index_of_first(id) {
            Some(at) => {
                let head = named.take(at);
                let tail = named.skip(at + 1);
                assert(named =~= head + (seq![id] + tail));
                assert(named + unnamed =~= head + (seq![id] + (tail + unnamed)));
                lemma_first_stored_row_comes_first(head, id, tail, rest);
                lemma_first_stored_row_comes_first(head, id, tail + unnamed, rest);
                lemma_unnamed_rows_come_last(head + tail, unnamed, rest);
                assert(head + (tail + unnamed) =~= head + tail + unnamed);
                assert(seq![id] + (arranged(head + tail, rest) + unnamed) =~= seq![id] + arranged(
                    head + tail,
                    rest,
                ) + unnamed);
            },
            None => {
                assert(!(named + unnamed).contains(id)) by {
                    if (named + unnamed).contains(id) {
                        let k = choose|k: int|
                            0 <= k < (named + unnamed).len() && (named + unnamed)[k] == id;
                        if k < named.len() {
                            assert(named.contains(named[k]));
                        } else {
                            assert(unnamed[k - named.len()] == id);
                        }
                    }
                }
                lemma_stored_id_without_row_says_nothing(named, id, rest);
                lemma_stored_id_without_row_says_nothing(named + unnamed, id, rest);
                lemma_unnamed_rows_come_last(named, unnamed, rest);
            },
        }
    }
}

/// The panel shows the stored order under the user's sort: where it names exactly
/// the rows, in that order.
pub proof fn lemma_panel_shows_complete_order(app: App)
    requires
        app.state.agent_panel_sort == AgentPanelSort::UserOrdered,
        text::words(app.state.agent_user_order@).to_multiset() == app.row_ids().to_multiset(),
    ensures
        app.panel_ids() == text::words(app.state.agent_user_order@),
{
    lemma_complete_order_is_shown(app.row_ids(), text::words(app.state.agent_user_order@));
}

/// Under the user's sort the panel arranges the derived rows by the stored order.
pub proof fn lemma_panel_arranges_derived_rows(app: App)
    requires
        app.state.agent_panel_sort == AgentPanelSort::UserOrdered,
    ensures
        app.panel_ids() == arranged(app.row_ids(), text::words(app.state.agent_user_order@)),
{
}

/// A move cuts the other rows in two and puts the moved one between: before the
/// first row of the id it goes before, or after all where there is none.
pub proof fn lemma_move_cuts_the_others(
    ids: Seq<Seq<char>>,
    id: Seq<char>,
    before: Option<Seq<char>>,
) -> (parts: (Seq<Seq<char>>, Seq<Seq<char>>))
    ensures
        parts.0 + parts.1 == ids.filter(is_not(id)),
        moved(ids, id, before) == parts.0 + seq![id] + parts.1,
        before is None ==> parts.1.len() == 0,
        before matches Some(before) ==> !parts.0.contains(before) && (parts.1.len() > 0
            ==> parts.1[0] == before),
{
    let rest = ids.filter(is_not(id));
    let at = lemma_move_position(ids, id, before);
    let parts = (rest.take(at), rest.skip(at));
    assert(parts.0 + parts.1 =~= rest);
    assert(rest.insert(at, id) =~= parts.0 + seq![id] + parts.1);
    match before {
        Some(before) => {
            rest.index_of_first_ensures(before);
            if parts.0.contains(before) {
                let k = choose|k: int| 0 <= k < parts.0.len() && parts.0[k] == before;
                assert(rest[k] == before);
                assert(rest.contains(before));
                assert(at == rest.index_of_first(before)->0);
            }
        },
        None => {},
    }
    parts
}

/// The listed ids are the panel's: under a derived sort the rows' ids in the
/// derived order, whatever is stored, and under the user's sort every row once
/// more, whatever is stored.
pub proof fn lemma_listed_ids_are_the_panels(app: App, ids: Vec<String>)
    requires
        call_ensures(App::agent_panel_pane_ids, (&app,), ids),
    ensures
        app.state.agent_panel_sort != AgentPanelSort::UserOrdered ==> text::words(ids@)
            == app.row_ids(),
        text::words(ids@).to_multiset() == app.row_ids().to_multiset(),
{
    lemma_panel_shows_the_rows(app);
}

} // verus!
