//! Listing goals page by page.

use crate::extension;
use crate::json;
use crate::json::{Field, Json, JsonView};
use crate::store;
use crate::store::{GoalStore, StoreView};
use crate::types::{Goal, GoalStatus, GoalView};
use vstd::prelude::*;
use vstd::string::*;

verus! {

/// How many goals a page shows if nobody asks for another number.
pub const DEFAULT_LIMIT: u64 = 50;

/// How many goals a page shows at most.
pub const MAX_LIMIT: u64 = 200;

/// How many goals a page shows when `asked` were asked for.
pub open spec fn limit_of(asked: Option<int>) -> int {
    match asked {
        None => DEFAULT_LIMIT as int,
        Some(n) => if n < 1 {
            1
        } else if n > MAX_LIMIT {
            MAX_LIMIT as int
        } else {
            n
        },
    }
}

/// How many goals a page shows when `asked` were asked for.
pub fn page_limit(asked: Option<u64>) -> (r: usize)
    ensures
        r == limit_of(
            match asked {
                Some(n) => Some(n as int),
                None => None,
            },
        ),
        1 <= r <= MAX_LIMIT,
{
    let n: u64 = match asked {
        None => DEFAULT_LIMIT,
        Some(n) => if n < 1 {
            1
        } else if n > MAX_LIMIT {
            MAX_LIMIT
        } else {
            n
        },
    };
    n as usize
}

/// Whether a goal with status `s` is wanted; without a filter all are.
pub open spec fn is_wanted(wanted: Option<Seq<GoalStatus>>, s: GoalStatus) -> bool {
    match wanted {
        Some(w) => w.contains(s),
        None => true,
    }
}

/// The wanted goals of a listing, in its order.
pub open spec fn shown(
    l: Seq<(Seq<char>, GoalView)>,
    wanted: Option<Seq<GoalStatus>>,
) -> Seq<GoalView>
    decreases l.len(),
{
    if l.len() == 0 {
        Seq::empty()
    } else if is_wanted(wanted, l.last().1.status) {
        shown(l.drop_last(), wanted).push(l.last().1)
    } else {
        shown(l.drop_last(), wanted)
    }
}

/// Where the page from `offset` on ends, among `total` goals.
pub open spec fn page_end(total: nat, offset: nat, limit: nat) -> nat {
    if offset + limit <= total {
        offset + limit
    } else {
        total
    }
}

/// The page from `offset` on: at most `limit` goals.
pub open spec fn page(s: Seq<GoalView>, offset: nat, limit: nat) -> Seq<GoalView> {
    if offset >= s.len() {
        Seq::empty()
    } else {
        s.subrange(offset as int, page_end(s.len(), offset, limit) as int)
    }
}

/// Goals as clients see them, with their full objectives.
pub open spec fn wire_items(s: Seq<GoalView>, store: StoreView, now: Seq<char>) -> Seq<JsonView> {
    Seq::new(s.len(), |i: int| extension::wire_json(store.resolved(s[i]), None, now, false))
}

/// A page as JSON, with the cursor to the next one if there is any.
pub open spec fn page_json(
    s: Seq<GoalView>,
    offset: nat,
    limit: nat,
    store: StoreView,
    now: Seq<char>,
    generation: u64,
) -> JsonView {
    let end = page_end(s.len(), offset, limit);
    JsonView::Obj(
        seq![
            extension::entry("items"@, JsonView::Arr(wire_items(page(s, offset, limit), store, now))),
            extension::entry(
                "nextCursor"@,
                if end < s.len() {
                    JsonView::Str(extension::cursor_text(generation, end as u64))
                } else {
                    JsonView::Null
                },
            ),
            extension::entry("hasMore"@, JsonView::Bool(end < s.len())),
        ],
    )
}

/// Whether the cursor of the page from `offset` on, if it has one, leads to where
/// that page ends.
pub open spec fn leads_on(s: Seq<GoalView>, offset: nat, limit: nat, generation: u64) -> bool {
    let end = page_end(s.len(), offset, limit);
    end < s.len() ==> end <= usize::MAX && extension::leads_to(
        extension::cursor_text(generation, end as u64),
        generation,
        end as u64,
    )
}

/// The value of a filter.
pub open spec fn opt_statuses(wanted: Option<Vec<GoalStatus>>) -> Option<Seq<GoalStatus>> {
    match wanted {
        Some(w) => Some(w@),
        None => None,
    }
}

fn has_status(w: &Vec<GoalStatus>, s: GoalStatus) -> (r: bool)
    ensures
        r == w@.contains(s),
{
    let mut i: usize = 0;
    while i < w.len()
        invariant
            i <= w.len(),
            forall|j: int| 0 <= j < i ==> w@[j] != s,
        decreases w.len() - i,
    {
        if w[i] == s {
            return true;
        }
        i += 1;
    }
    false
}

fn wants(wanted: &Option<Vec<GoalStatus>>, s: GoalStatus) -> (r: bool)
    ensures
        r == is_wanted(opt_statuses(*wanted), s),
{
    match wanted {
        None => true,
        Some(w) => has_status(w, s),
    }
}

/// The values of some goals.
pub open spec fn goal_views(v: Seq<Goal>) -> Seq<GoalView> {
    v.map_values(|g: Goal| g@)
}

/// The wanted goals of a listing, in its order.
pub fn select(l: &Vec<(String, Goal)>, wanted: &Option<Vec<GoalStatus>>) -> (r: Vec<Goal>)
    ensures
        goal_views(r@) == shown(store::listing(l@), opt_statuses(*wanted)),
        r@.len() <= l@.len(),
{
    let ghost w = opt_statuses(*wanted);
    let ghost all = store::listing(l@);
    let mut r: Vec<Goal> = Vec::new();
    let mut i: usize = 0;
    assert(goal_views(r@) =~= shown(all.take(0), w));
    while i < l.len()
        invariant
            i <= l.len(),
            all == store::listing(l@),
            w == opt_statuses(*wanted),
            goal_views(r@) == shown(all.take(i as int), w),
            r@.len() <= i,
        decreases l.len() - i,
    {
        let ghost before = r@;
        assert(all.take(i as int + 1).drop_last() =~= all.take(i as int));
        assert(all.take(i as int + 1).last() == (l@[i as int].0@, l@[i as int].1@));
        if wants(wanted, l[i].1.status) {
            r.push(l[i].1.clone());
            assert(goal_views(r@) =~= goal_views(before).push(l@[i as int].1@));
        }
        i += 1;
    }
    assert(all.take(l@.len() as int) =~= all);
    r
}

/// The page from `offset` on.
pub fn show_page(
    s: &Vec<Goal>,
    offset: usize,
    limit: usize,
    store: &GoalStore,
    now: &str,
    generation: u64,
) -> (r: Json)
    requires
        store.wf(),
    ensures
        r@ == page_json(goal_views(s@), offset as nat, limit as nat, store@, now@, generation),
        leads_on(goal_views(s@), offset as nat, limit as nat, generation),
{
    let total: usize = s.len();
    let start: usize = if offset < total {
        offset
    } else {
        total
    };
    let end: usize = if limit <= total - start {
        start + limit
    } else {
        total
    };
    let ghost part = page(goal_views(s@), offset as nat, limit as nat);
    let ghost stop = page_end(goal_views(s@).len(), offset as nat, limit as nat);
    let mut items: Vec<Json> = Vec::new();
    let mut i: usize = start;
    while i < end
        invariant
            start <= i <= end,
            end <= s.len(),
            part.len() == end - start,
            forall|k: int| 0 <= k < part.len() ==> #[trigger] part[k] == s@[start + k]@,
            store.wf(),
            items@.len() == i - start,
            forall|k: int|
                0 <= k < items@.len() ==> (#[trigger] items@[k])@ == extension::wire_json(
                    store@.resolved(part[k]),
                    None,
                    now@,
                    false,
                ),
        decreases end - i,
    {
        let ghost k = i as int - start;
        assert(part[k] == s@[start + k]@);
        let g: Goal = store.resolve_objective(s[i].clone());
        items.push(extension::goal_json(&g, None, now, false));
        i += 1;
    }
    assert(json::items_view(items@) =~= wire_items(part, store@, now@));
    let more: bool = end < total;
    assert(more == (stop < s@.len()));
    let cursor: Json = if more {
        json::string(extension::encode_cursor(generation, end).as_str())
    } else {
        Json::Null
    };
    let mut f: Vec<Field> = json::no_fields();
    json::put(&mut f, "items", json::array(items));
    json::put(&mut f, "nextCursor", cursor);
    json::put(&mut f, "hasMore", Json::Bool(more));
    assert(json::fields_view(f@) =~= page_json(
        goal_views(s@),
        offset as nat,
        limit as nat,
        store@,
        now@,
        generation,
    )->Obj_0);
    json::object(f)
}

/// What a client sees who starts at `offset` and follows the cursors to the
/// end.
pub open spec fn walk(s: Seq<GoalView>, offset: nat, limit: nat) -> Seq<GoalView>
    decreases s.len() - offset,
{
    if offset >= s.len() || limit == 0 {
        Seq::empty()
    } else {
        page(s, offset, limit) + walk(s, page_end(s.len(), offset, limit), limit)
    }
}

/// Following the cursors from the first page on shows every goal exactly once
/// and in order, whatever the size of the pages.
pub proof fn law_pages_cover_the_list(s: Seq<GoalView>, limit: nat)
    requires
        limit > 0,
    ensures
        walk(s, 0, limit) == s,
{
    lemma_walk(s, 0, limit);
    assert(s.subrange(0, s.len() as int) =~= s);
}

proof fn lemma_walk(s: Seq<GoalView>, offset: nat, limit: nat)
    requires
        limit > 0,
        offset <= s.len(),
    ensures
        walk(s, offset, limit) == s.subrange(offset as int, s.len() as int),
    decreases s.len() - offset,
{
    if offset < s.len() {
        let end = page_end(s.len(), offset, limit);
        lemma_walk(s, end, limit);
        assert(s.subrange(offset as int, end as int) + s.subrange(end as int, s.len() as int)
            =~= s.subrange(offset as int, s.len() as int));
    } else {
        assert(s.subrange(offset as int, s.len() as int) =~= Seq::empty());
    }
}

/// What is listed is what there is: every wanted goal is shown, nothing else is,
/// and no thread is shown twice.
pub proof fn law_list_shows_each_goal_once(
    rows: Map<Seq<char>, GoalView>,
    l: Seq<(Seq<char>, GoalView)>,
    wanted: Option<Seq<GoalStatus>>,
)
    requires
        store::lists_rows(l, rows),
        forall|t: Seq<char>| #[trigger] rows.contains_key(t) ==> rows[t].thread_id == t,
    ensures
        forall|t: Seq<char>| #[trigger]
            rows.contains_key(t) && is_wanted(wanted, rows[t].status) ==> shown(l, wanted).contains(
                rows[t],
            ),
        forall|i: int|
            0 <= i < shown(l, wanted).len() ==> {
                let g = #[trigger] shown(l, wanted)[i];
                rows.contains_key(g.thread_id) && rows[g.thread_id] == g && is_wanted(
                    wanted,
                    g.status,
                )
            },
        forall|i: int, j: int|
            0 <= i < j < shown(l, wanted).len() ==> (#[trigger] shown(l, wanted)[i]).thread_id != (
            #[trigger] shown(l, wanted)[j]).thread_id,
{
    lemma_shown(l, wanted);
    assert forall|t: Seq<char>| #[trigger]
        rows.contains_key(t) && is_wanted(wanted, rows[t].status) implies shown(l, wanted).contains(
        rows[t],
    ) by {
        let k = choose|k: int| 0 <= k < l.len() && (#[trigger] l[k]).0 == t;
        assert(shown(l, wanted).contains(l[k].1));
    }
    assert forall|i: int| 0 <= i < shown(l, wanted).len() implies {
        let g = #[trigger] shown(l, wanted)[i];
        rows.contains_key(g.thread_id) && rows[g.thread_id] == g && is_wanted(wanted, g.status)
    } by {
        let g = shown(l, wanted)[i];
        let k = choose|k: int| 0 <= k < l.len() && g == (#[trigger] l[k]).1;
        assert(rows.contains_key(l[k].0));
    }
}

proof fn lemma_shown(l: Seq<(Seq<char>, GoalView)>, wanted: Option<Seq<GoalStatus>>)
    requires
        forall|k: int| 0 <= k < l.len() ==> (#[trigger] l[k]).1.thread_id == l[k].0,
        forall|i: int, j: int| 0 <= i < j < l.len() ==> (#[trigger] l[i]).0 != (#[trigger] l[j]).0,
    ensures
        forall|k: int|
            0 <= k < l.len() && is_wanted(wanted, (#[trigger] l[k]).1.status) ==> shown(
                l,
                wanted,
            ).contains(l[k].1),
        forall|i: int|
            0 <= i < shown(l, wanted).len() ==> is_wanted(
                wanted,
                (#[trigger] shown(l, wanted)[i]).status,
            ) && exists|k: int| 0 <= k < l.len() && shown(l, wanted)[i] == (#[trigger] l[k]).1,
        forall|i: int, j: int|
            0 <= i < j < shown(l, wanted).len() ==> (#[trigger] shown(l, wanted)[i]).thread_id != (
            #[trigger] shown(l, wanted)[j]).thread_id,
    decreases l.len(),
{
    if l.len() > 0 {
        let rest = l.drop_last();
        let last = l.last();
        let before = shown(rest, wanted);
        lemma_shown(rest, wanted);
        let all = shown(l, wanted);
        assert forall|i: int| 0 <= i < before.len() implies (#[trigger] before[i]).thread_id
            != last.0 && exists|k: int| 0 <= k < l.len() && before[i] == (#[trigger] l[k]).1 by {
            let k = choose|k: int| 0 <= k < rest.len() && before[i] == (#[trigger] rest[k]).1;
            assert(rest[k] == l[k]);
        }
        assert(forall|i: int| 0 <= i < before.len() ==> #[trigger] all[i] == before[i]);
        if is_wanted(wanted, last.1.status) {
            assert(all[before.len() as int] == l[l.len() - 1].1);
        }
        assert forall|k: int|
            0 <= k < l.len() && is_wanted(wanted, (#[trigger] l[k]).1.status) implies all.contains(
            l[k].1,
        ) by {
            if k < rest.len() {
                assert(l[k] == rest[k]);
                let i = choose|i: int| 0 <= i < before.len() && before[i] == rest[k].1;
                assert(all[i] == l[k].1);
            }
        }
    }
}

/// How many goals a page shows: fifty where nobody asks, what is asked for within one to
/// two hundred, and else the nearer of these.
pub proof fn law_page_sizes(n: int)
    ensures
        limit_of(None) == 50,
        1 <= n <= 200 ==> limit_of(Some(n)) == n,
        n < 1 ==> limit_of(Some(n)) == 1,
        n > 200 ==> limit_of(Some(n)) == 200,
{
}

/// A page shows the goals from its offset on, as many as there are up to its size.
pub proof fn law_page_is_a_part_of_the_list(s: Seq<GoalView>, offset: nat, limit: nat, k: int)
    ensures
        offset >= s.len() ==> page(s, offset, limit).len() == 0,
        offset + limit <= s.len() ==> page(s, offset, limit).len() == limit,
        offset <= s.len() < offset + limit ==> page(s, offset, limit).len() == s.len() - offset,
        0 <= k < page(s, offset, limit).len() ==> page(s, offset, limit)[k] == s[offset + k],
{
}

/// Each goal of a listing is shown in its place exactly when it is wanted: without a
/// filter always, and else when the filter has its status.
pub proof fn law_wanted_goals_are_shown(
    l: Seq<(Seq<char>, GoalView)>,
    e: (Seq<char>, GoalView),
    w: Seq<GoalStatus>,
)
    ensures
        shown(Seq::empty(), Some(w)).len() == 0,
        shown(Seq::empty(), None).len() == 0,
        shown(l.push(e), None) == shown(l, None).push(e.1),
        w.contains(e.1.status) ==> shown(l.push(e), Some(w)) == shown(l, Some(w)).push(e.1),
        !w.contains(e.1.status) ==> shown(l.push(e), Some(w)) == shown(l, Some(w)),
{
    assert(l.push(e).drop_last() =~= l);
}

/// What a page tells: its goals with their full objectives, whether there are more, and
/// a cursor exactly then.
pub proof fn law_page_by_key(
    s: Seq<GoalView>,
    offset: nat,
    limit: nat,
    store: StoreView,
    now: Seq<char>,
    generation: u64,
)
    requires
        offset <= s.len(),
    ensures
        ({
            let p = page_json(s, offset, limit, store, now, generation);
            let more = offset + limit < s.len();
            &&& p.field("hasMore"@) == Some(JsonView::Bool(more))
            &&& !more ==> p.field("nextCursor"@) == Some(JsonView::Null)
            &&& more ==> p.field("nextCursor"@) == Some(
                JsonView::Str(extension::cursor_text(generation, (offset + limit) as u64)),
            )
            &&& p.field("items"@) matches Some(JsonView::Arr(items)) && {
                &&& items.len() == page(s, offset, limit).len()
                &&& forall|i: int|
                    0 <= i < items.len() ==> #[trigger] items[i] == extension::wire_json(
                        store.resolved(s[offset + i]),
                        None,
                        now,
                        false,
                    )
            }
        }),
{
    reveal_strlit("items");
    reveal_strlit("nextCursor");
    reveal_strlit("hasMore");
    assert("items"@.len() == 5 && "nextCursor"@.len() == 10 && "hasMore"@.len() == 7);
    let f = page_json(s, offset, limit, store, now, generation)->Obj_0;
    assert(f[0].key == "items"@ && f[1].key == "nextCursor"@ && f[2].key == "hasMore"@);
    reveal_with_fuel(json::lookup, 4);
    let g = f.drop_first();
    assert(g[0] == f[1] && g[1] == f[2]);
    assert(g.drop_first()[0] == f[2]);
}

} // verus!
