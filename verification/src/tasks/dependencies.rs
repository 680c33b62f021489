//! Which tasks a task waits for.
//!
//! A write replaces the whole set of one task's dependencies. It changes only
//! that task's own edges, so any cycle it could create passes through the task,
//! and it is enough to ask of each proposed dependency whether the task can be
//! reached from it.

use vstd::prelude::*;
use vstd::string::*;

use crate::db::Task;
use crate::error;
use crate::error::{missing_task, Error, ErrorCode};
use crate::instant::Instant;
use crate::tasks::service::TaskStamp;
use crate::text;
use crate::text::{join, same, sort};
use crate::textmap::TextMap;

verus! {

/// One stored dependency: the task, and the task it waits for.
#[derive(Debug, Clone, PartialEq, Eq)]
pub struct Edge {
    pub task_id: String,
    pub depends_on: String,
}

/// The tasks that `node` waits for, in the order of `edges`.
pub open spec fn waits_for(edges: Seq<Edge>, node: Seq<char>) -> Seq<Seq<char>>
    decreases edges.len(),
{
    if edges.len() == 0 {
        seq![]
    } else if edges.last().task_id@ == node {
        waits_for(edges.drop_last(), node).push(edges.last().depends_on@)
    } else {
        waits_for(edges.drop_last(), node)
    }
}

/// `from` waits for `to`.
pub open spec fn edge(edges: Seq<Edge>, from: Seq<char>, to: Seq<char>) -> bool {
    exists|i: int|
        0 <= i < edges.len() && (#[trigger] edges[i]).task_id@ == from && edges[i].depends_on@ == to
}

/// Each task of `path` waits for the next.
pub open spec fn walk(edges: Seq<Edge>, path: Seq<Seq<char>>) -> bool {
    &&& path.len() > 0
    &&& forall|i: int| 0 <= i < path.len() - 1 ==> edge(edges, #[trigger] path[i], path[i + 1])
}

/// `to` can be reached from `from`.
pub open spec fn reaches(edges: Seq<Edge>, from: Seq<char>, to: Seq<char>) -> bool {
    exists|path: Seq<Seq<char>>| #[trigger]
        walk(edges, path) && path[0] == from && path.last() == to
}

/// No task can be reached from a task it waits for.
pub open spec fn acyclic(edges: Seq<Edge>) -> bool {
    forall|i: int|
        0 <= i < edges.len() ==> !reaches(
            edges,
            (#[trigger] edges[i]).depends_on@,
            edges[i].task_id@,
        )
}

/// How many edges start at a task that is not in `visited`.
pub open spec fn unvisited(edges: Seq<Edge>, visited: Set<Seq<char>>) -> nat
    decreases edges.len(),
{
    if edges.len() == 0 {
        0
    } else {
        unvisited(edges.drop_last(), visited) + if visited.contains(edges.last().task_id@) {
            0nat
        } else {
            1
        }
    }
}

/// `path` continued by each of `nexts`, in order.
pub open spec fn continued(path: Seq<Seq<char>>, nexts: Seq<Seq<char>>) -> Seq<Seq<Seq<char>>> {
    Seq::new(nexts.len(), |i: int| path.push(nexts[i]))
}

/// What a search for `to` finds that still has `stack` to look at, the last of
/// it first, and has been through `visited`: the first path it meets that ends
/// at `to`.
pub open spec fn search(
    edges: Seq<Edge>,
    stack: Seq<Seq<Seq<char>>>,
    visited: Set<Seq<char>>,
    to: Seq<char>,
) -> Option<Seq<Seq<char>>>
    decreases unvisited(edges, visited), stack.len(),
    via search_ends
{
    if stack.len() == 0 {
        None
    } else {
        let path = stack.last();
        let node = path.last();
        if node == to {
            Some(path)
        } else if visited.contains(node) {
            search(edges, stack.drop_last(), visited, to)
        } else {
            search(
                edges,
                stack.drop_last() + continued(path, waits_for(edges, node)),
                visited.insert(node),
                to,
            )
        }
    }
}

#[via_fn]
proof fn search_ends(
    edges: Seq<Edge>,
    stack: Seq<Seq<Seq<char>>>,
    visited: Set<Seq<char>>,
    to: Seq<char>,
) {
    if stack.len() > 0 {
        let node = stack.last().last();
        lemma_unvisited_shrinks(edges, visited, node);
    }
}

proof fn lemma_unvisited_shrinks(edges: Seq<Edge>, visited: Set<Seq<char>>, node: Seq<char>)
    ensures
        unvisited(edges, visited.insert(node)) <= unvisited(edges, visited),
        !visited.contains(node) && waits_for(edges, node).len() > 0 ==> unvisited(
            edges,
            visited.insert(node),
        ) < unvisited(edges, visited),
    decreases edges.len(),
{
    if edges.len() > 0 {
        lemma_unvisited_shrinks(edges.drop_last(), visited, node);
    }
}

/// What the search for a path from `from` to `to` finds.
pub open spec fn found_path(edges: Seq<Edge>, from: Seq<char>, to: Seq<char>) -> Option<
    Seq<Seq<char>>,
> {
    search(edges, seq![seq![from]], Set::empty(), to)
}

proof fn lemma_waits_for_edge(edges: Seq<Edge>, node: Seq<char>, next: Seq<char>)
    ensures
        waits_for(edges, node).contains(next) <==> edge(edges, node, next),
    decreases edges.len(),
{
    if edges.len() > 0 {
        let fewer = edges.drop_last();
        lemma_waits_for_edge(fewer, node, next);
        let before = waits_for(fewer, node);
        let all = waits_for(edges, node);
        if all.contains(next) {
            let k = choose|k: int| 0 <= k < all.len() && all[k] == next;
            if k < before.len() {
                assert(before[k] == next);
                assert(before.contains(next));
                let i = choose|i: int|
                    0 <= i < fewer.len() && (#[trigger] fewer[i]).task_id@ == node
                        && fewer[i].depends_on@ == next;
                assert(edges[i] == fewer[i]);
            } else {
                assert(edges[edges.len() - 1].task_id@ == node);
            }
        }
        if edge(edges, node, next) {
            let i = choose|i: int|
                0 <= i < edges.len() && (#[trigger] edges[i]).task_id@ == node
                    && edges[i].depends_on@ == next;
            if i < fewer.len() {
                assert(fewer[i] == edges[i]);
                assert(before.contains(next));
                let k = choose|k: int| 0 <= k < before.len() && before[k] == next;
                assert(all[k] == next);
            } else {
                assert(all[all.len() - 1] == next);
            }
        }
    }
}

/// Every path on the stack is a walk from `from`.
spec fn walks(edges: Seq<Edge>, stack: Seq<Seq<Seq<char>>>, from: Seq<char>) -> bool {
    forall|i: int|
        0 <= i < stack.len() ==> walk(edges, #[trigger] stack[i]) && stack[i][0] == from
}

/// Everything a visited task waits for is visited too, or ends a path on the
/// stack.
spec fn closed(
    edges: Seq<Edge>,
    stack: Seq<Seq<Seq<char>>>,
    visited: Set<Seq<char>>,
) -> bool {
    forall|a: Seq<char>, b: Seq<char>|
        visited.contains(a) && #[trigger] edge(edges, a, b) ==> visited.contains(b) || pending(
            stack,
            b,
        )
}

spec fn pending(stack: Seq<Seq<Seq<char>>>, node: Seq<char>) -> bool {
    exists|i: int| 0 <= i < stack.len() && (#[trigger] stack[i]).last() == node
}

proof fn lemma_walk_push(edges: Seq<Edge>, path: Seq<Seq<char>>, next: Seq<char>)
    requires
        walk(edges, path),
        edge(edges, path.last(), next),
    ensures
        walk(edges, path.push(next)),
{
    let longer = path.push(next);
    assert forall|i: int| 0 <= i < longer.len() - 1 implies edge(
        edges,
        #[trigger] longer[i],
        longer[i + 1],
    ) by {
        if i < path.len() - 1 {
            assert(edge(edges, path[i], path[i + 1]));
        }
    }
}

/// The search finds a walk from `from` to `to`, or there is none to find.
proof fn lemma_search(
    edges: Seq<Edge>,
    stack: Seq<Seq<Seq<char>>>,
    visited: Set<Seq<char>>,
    from: Seq<char>,
    to: Seq<char>,
)
    requires
        walks(edges, stack, from),
        closed(edges, stack, visited),
        !visited.contains(to),
        visited.contains(from) || pending(stack, from),
    ensures
        match search(edges, stack, visited, to) {
            Some(path) => walk(edges, path) && path[0] == from && path.last() == to,
            None => !reaches(edges, from, to),
        },
    decreases unvisited(edges, visited), stack.len(),
{
    if stack.len() == 0 {
        assert forall|path: Seq<Seq<char>>| #[trigger] walk(edges, path) && path[0]
            == from implies path.last() != to by {
            lemma_stays_visited(edges, stack, visited, path, path.len() - 1);
        }
    } else {
        let path = stack.last();
        let node = path.last();
        let rest = stack.drop_last();
        assert(stack[stack.len() - 1] == path);
        if node == to {
        } else if visited.contains(node) {
            assert(walks(edges, rest, from)) by {
                assert forall|i: int| 0 <= i < rest.len() implies walk(edges, #[trigger] rest[i])
                    && rest[i][0] == from by {
                    assert(rest[i] == stack[i]);
                }
            }
            assert forall|b: Seq<char>| pending(stack, b) && b != node implies pending(rest, b) by {
                let i = choose|i: int| 0 <= i < stack.len() && (#[trigger] stack[i]).last() == b;
                assert(rest[i] == stack[i]);
            }
            lemma_search(edges, rest, visited, from, to);
        } else {
            let nexts = waits_for(edges, node);
            let more = continued(path, nexts);
            let grown = rest + more;
            let seen = visited.insert(node);
            lemma_unvisited_shrinks(edges, visited, node);
            assert forall|i: int| 0 <= i < grown.len() implies walk(edges, #[trigger] grown[i])
                && grown[i][0] == from by {
                if i < rest.len() {
                    assert(grown[i] == stack[i]);
                } else {
                    let k = i - rest.len();
                    assert(grown[i] == path.push(nexts[k]));
                    assert(nexts.contains(nexts[k]));
                    lemma_waits_for_edge(edges, node, nexts[k]);
                    lemma_walk_push(edges, path, nexts[k]);
                    assert(path.push(nexts[k])[0] == path[0]);
                }
            }
            assert forall|b: Seq<char>| pending(stack, b) && b != node implies pending(grown, b) by {
                let i = choose|i: int| 0 <= i < stack.len() && (#[trigger] stack[i]).last() == b;
                assert(grown[i] == stack[i]);
            }
            assert forall|a: Seq<char>, b: Seq<char>|
                seen.contains(a) && #[trigger] edge(edges, a, b) implies seen.contains(b)
                || pending(grown, b) by {
                if a == node {
                    lemma_waits_for_edge(edges, node, b);
                    let k = choose|k: int| 0 <= k < nexts.len() && nexts[k] == b;
                    assert(grown[rest.len() + k] == path.push(b));
                }
            }
            lemma_search(edges, grown, seen, from, to);
        }
    }
}

proof fn lemma_stays_visited(
    edges: Seq<Edge>,
    stack: Seq<Seq<Seq<char>>>,
    visited: Set<Seq<char>>,
    path: Seq<Seq<char>>,
    k: int,
)
    requires
        stack.len() == 0,
        closed(edges, stack, visited),
        walk(edges, path),
        visited.contains(path[0]),
        0 <= k < path.len(),
    ensures
        visited.contains(path[k]),
    decreases k,
{
    if k > 0 {
        lemma_stays_visited(edges, stack, visited, path, k - 1);
        assert(edge(edges, path[k - 1], path[k - 1 + 1]));
    }
}

/// A path is found exactly when there is one, and what is found is a walk from
/// `from` to `to`.
pub proof fn law_a_path_is_found_iff_there_is_one(
    edges: Seq<Edge>,
    from: Seq<char>,
    to: Seq<char>,
)
    ensures
        found_path(edges, from, to) is Some <==> reaches(edges, from, to),
        found_path(edges, from, to) matches Some(path) ==> walk(edges, path) && path[0] == from
            && path.last() == to,
{
    let stack = seq![seq![from]];
    assert(stack[0].last() == from);
    assert(pending(stack, from));
    assert(walks(edges, stack, from));
    assert(closed(edges, stack, Set::empty()));
    lemma_search(edges, stack, Set::empty(), from, to);
}

/// The ids of `path`.
pub open spec fn ids_of(path: Seq<String>) -> Seq<Seq<char>> {
    text::views(path)
}

/// The ids of the paths of `stack`.
pub open spec fn paths_of(stack: Seq<Vec<String>>) -> Seq<Seq<Seq<char>>> {
    stack.map_values(|path: Vec<String>| ids_of(path@))
}

fn copy_path(path: &Vec<String>) -> (r: Vec<String>)
    ensures
        r@ == path@,
{
    let mut out: Vec<String> = Vec::new();
    let n: usize = path.len();
    let mut i: usize = 0;
    while i < n
        invariant
            i <= n,
            n == path.len(),
            out@ == path@.take(i as int),
        decreases n - i,
    {
        out.push(path[i].clone());
        i += 1;
        assert(out@ =~= path@.take(i as int));
    }
    assert(path@.take(n as int) =~= path@);
    out
}

fn is_member(ids: &Vec<String>, id: &str) -> (r: bool)
    ensures
        r == ids_of(ids@).contains(id@),
{
    let n: usize = ids.len();
    let mut i: usize = 0;
    while i < n
        invariant
            i <= n,
            n == ids.len(),
            forall|j: int| 0 <= j < i ==> (#[trigger] ids@[j])@ != id@,
        decreases n - i,
    {
        if same(ids[i].as_str(), id) {
            assert(ids_of(ids@)[i as int] == id@);
            return true;
        }
        i += 1;
    }
    proof {
        if ids_of(ids@).contains(id@) {
            let k = choose|k: int| 0 <= k < ids_of(ids@).len() && ids_of(ids@)[k] == id@;
            assert(ids@[k]@ == id@);
        }
    }
    false
}

/// The chain of ids from `from` to `to`, following stored dependencies, or
/// nothing when `to` cannot be reached. Both ends are part of it.
pub fn find_path(edges: &Vec<Edge>, from: &str, to: &str) -> (r: Option<Vec<String>>)
    ensures
        match r {
            Some(path) => found_path(edges@, from@, to@) == Some(ids_of(path@)),
            None => found_path(edges@, from@, to@) is None,
        },
        r is Some <==> reaches(edges@, from@, to@),
{
    proof {
        law_a_path_is_found_iff_there_is_one(edges@, from@, to@);
    }
    let mut first: Vec<String> = Vec::new();
    first.push(from.to_owned());
    let mut stack: Vec<Vec<String>> = Vec::new();
    assert(ids_of(first@) =~= seq![from@]);
    stack.push(first);
    let mut visited: Vec<String> = Vec::new();
    let ghost mut seen: Set<Seq<char>> = Set::empty();
    assert(paths_of(stack@) =~= seq![seq![from@]]);
    assert(forall|node: Seq<char>| !ids_of(visited@).contains(node));
    loop
        invariant
            search(edges@, paths_of(stack@), seen, to@) == found_path(edges@, from@, to@),
            forall|node: Seq<char>|
                #![trigger seen.contains(node)]
                #![trigger ids_of(visited@).contains(node)]
                seen.contains(node) == ids_of(visited@).contains(node),
            forall|i: int| 0 <= i < stack@.len() ==> (#[trigger] stack@[i])@.len() > 0,
            found_path(edges@, from@, to@) is Some <==> reaches(edges@, from@, to@),
        decreases unvisited(edges@, seen), stack@.len(),
    {
        let ghost whole = stack@;
        let path = match stack.pop() {
            Some(path) => path,
            None => {
                return None;
            },
        };
        let ghost at = ids_of(path@);
        assert(whole.last() == path);
        assert(paths_of(whole).last() == at);
        assert(paths_of(whole).drop_last() =~= paths_of(stack@));
        let node = path[path.len() - 1].clone();
        assert(at.last() == node@);
        if same(node.as_str(), to) {
            return Some(path);
        }
        if is_member(&visited, node.as_str()) {
            assert(seen.contains(node@));
            continue ;
        }
        let ghost before = visited@;
        let ghost earlier_seen = seen;
        visited.push(node.clone());
        proof {
            assert(!seen.contains(node@));
            seen = seen.insert(node@);
            assert forall|other: Seq<char>| seen.contains(other) == ids_of(visited@).contains(
                other,
            ) by {
                let now = ids_of(visited@);
                let then = ids_of(before);
                assert(now =~= then.push(node@));
                if then.contains(other) {
                    let k = choose|k: int| 0 <= k < then.len() && then[k] == other;
                    assert(now[k] == other);
                }
                if other == node@ {
                    assert(now[then.len() as int] == other);
                }
                if now.contains(other) && other != node@ {
                    let k = choose|k: int| 0 <= k < now.len() && now[k] == other;
                    assert(then[k] == other);
                }
            }
            lemma_unvisited_shrinks(edges@, earlier_seen, node@);
        }
        let ghost rest = stack@;
        let n: usize = edges.len();
        let mut i: usize = 0;
        assert(paths_of(rest) + continued(at, waits_for(edges@.take(0), node@)) =~= paths_of(
            stack@,
        ));
        while i < n
            invariant
                i <= n,
                n == edges.len(),
                at == ids_of(path@),
                path@.len() > 0,
                paths_of(stack@) == paths_of(rest) + continued(
                    at,
                    waits_for(edges@.take(i as int), node@),
                ),
                forall|j: int| 0 <= j < stack@.len() ==> (#[trigger] stack@[j])@.len() > 0,
            decreases n - i,
        {
            proof {
                assert(edges@.take(i + 1).drop_last() =~= edges@.take(i as int));
                assert(edges@.take(i + 1).last() == edges@[i as int]);
            }
            let ghost stacked = stack@;
            if same(edges[i].task_id.as_str(), node.as_str()) {
                let mut extended = copy_path(&path);
                extended.push(edges[i].depends_on.clone());
                assert(ids_of(extended@) =~= at.push(edges@[i as int].depends_on@));
                stack.push(extended);
                proof {
                    let nexts = waits_for(edges@.take(i as int), node@);
                    assert(paths_of(stack@) =~= paths_of(stacked).push(ids_of(extended@)));
                    assert(continued(at, nexts.push(edges@[i as int].depends_on@)) =~= continued(
                        at,
                        nexts,
                    ).push(at.push(edges@[i as int].depends_on@)));
                    assert(paths_of(stack@) =~= paths_of(rest) + continued(
                        at,
                        waits_for(edges@.take(i + 1), node@),
                    ));
                }
            }
            i += 1;
        }
        assert(edges@.take(n as int) =~= edges@);
    }
}

/// `ids` without the ones that stand earlier already.
pub open spec fn deduped(ids: Seq<String>) -> Seq<String>
    decreases ids.len(),
{
    if ids.len() == 0 {
        ids
    } else {
        let earlier = deduped(ids.drop_last());
        if ids_of(earlier).contains(ids.last()@) {
            earlier
        } else {
            earlier.push(ids.last())
        }
    }
}

/// `ids` without repetitions, in the order of first occurrence.
pub fn dedupe(ids: &Vec<String>) -> (r: Vec<String>)
    ensures
        r@ == deduped(ids@),
{
    let mut out: Vec<String> = Vec::new();
    let n: usize = ids.len();
    let mut i: usize = 0;
    assert(ids@.take(0) =~= out@);
    while i < n
        invariant
            i <= n,
            n == ids.len(),
            out@ == deduped(ids@.take(i as int)),
        decreases n - i,
    {
        proof {
            assert(ids@.take(i + 1).drop_last() =~= ids@.take(i as int));
            assert(ids@.take(i + 1).last() == ids@[i as int]);
        }
        if !is_member(&out, ids[i].as_str()) {
            out.push(ids[i].clone());
        }
        i += 1;
    }
    assert(ids@.take(n as int) =~= ids@);
    out
}

/// Deduplicating keeps exactly the ids there were, each once.
pub proof fn law_deduplicating_keeps_each_id_once(ids: Seq<String>)
    ensures
        forall|id: Seq<char>| #[trigger]
            ids_of(deduped(ids)).contains(id) <==> ids_of(ids).contains(id),
        ids_of(deduped(ids)).no_duplicates(),
    decreases ids.len(),
{
    if ids.len() > 0 {
        let fewer = ids.drop_last();
        law_deduplicating_keeps_each_id_once(fewer);
        let earlier = ids_of(deduped(fewer));
        let all = ids_of(deduped(ids));
        assert forall|id: Seq<char>| #[trigger] all.contains(id) <==> ids_of(ids).contains(id) by {
            lemma_ids_of_push(fewer, ids.last(), id);
            assert(fewer.push(ids.last()) =~= ids);
            if !earlier.contains(ids.last()@) {
                lemma_ids_of_push(deduped(fewer), ids.last(), id);
            }
            assert(earlier.contains(id) <==> ids_of(fewer).contains(id));
        }
        if !earlier.contains(ids.last()@) {
            assert(all =~= earlier.push(ids.last()@));
            assert forall|i: int, j: int|
                0 <= i < all.len() && 0 <= j < all.len() && i != j implies all[i] != all[j] by {
                if i < earlier.len() && j < earlier.len() {
                    assert(earlier[i] != earlier[j]);
                } else if i < earlier.len() {
                    assert(earlier.contains(earlier[i]));
                } else {
                    assert(earlier.contains(earlier[j]));
                }
            }
        }
    }
}

proof fn lemma_ids_of_push(ids: Seq<String>, last: String, id: Seq<char>)
    ensures
        ids_of(ids.push(last)).contains(id) <==> ids_of(ids).contains(id) || last@ == id,
{
    let all = ids_of(ids.push(last));
    let some = ids_of(ids);
    assert(all =~= some.push(last@));
    if some.contains(id) {
        let k = choose|k: int| 0 <= k < some.len() && some[k] == id;
        assert(all[k] == id);
    }
    if last@ == id {
        assert(all[some.len() as int] == id);
    }
    if all.contains(id) && last@ != id {
        let k = choose|k: int| 0 <= k < all.len() && all[k] == id;
        assert(some[k] == id);
    }
}

/// Every id that is in exactly one of the two lists, once.
pub fn symmetric_difference(previous: &Vec<String>, next: &Vec<String>) -> (r: Vec<String>)
    ensures
        forall|id: Seq<char>| #[trigger]
            ids_of(r@).contains(id) <==> (ids_of(previous@).contains(id) != ids_of(
                next@,
            ).contains(id)),
        ids_of(r@).no_duplicates(),
{
    let mut out: Vec<String> = Vec::new();
    let n: usize = previous.len();
    let mut i: usize = 0;
    while i < n
        invariant
            i <= n,
            n == previous.len(),
            forall|id: Seq<char>| #[trigger]
                ids_of(out@).contains(id) <==> ids_of(previous@.take(i as int)).contains(id)
                    && !ids_of(next@).contains(id),
        decreases n - i,
    {
        let ghost earlier = out@;
        if !is_member(next, previous[i].as_str()) {
            out.push(previous[i].clone());
        }
        proof {
            assert(previous@.take(i + 1) =~= previous@.take(i as int).push(previous@[i as int]));
            assert forall|id: Seq<char>| #[trigger] ids_of(out@).contains(id) <==> ids_of(
                previous@.take(i + 1),
            ).contains(id) && !ids_of(next@).contains(id) by {
                lemma_ids_of_push(previous@.take(i as int), previous@[i as int], id);
                if out@.len() > earlier.len() {
                    lemma_ids_of_push(earlier, previous@[i as int], id);
                }
                assert(ids_of(earlier).contains(id) <==> ids_of(
                    previous@.take(i as int),
                ).contains(id) && !ids_of(next@).contains(id));
            }
        }
        i += 1;
    }
    assert(previous@.take(n as int) =~= previous@);
    let m: usize = next.len();
    let mut k: usize = 0;
    let ghost lost = out@;
    assert forall|id: Seq<char>| !ids_of(next@.take(0)).contains(id) by {}
    while k < m
        invariant
            k <= m,
            m == next.len(),
            forall|id: Seq<char>| #[trigger]
                ids_of(out@).contains(id) <==> ((ids_of(previous@).contains(id) && !ids_of(
                    next@,
                ).contains(id)) || (ids_of(next@.take(k as int)).contains(id) && !ids_of(
                    previous@,
                ).contains(id))),
        decreases m - k,
    {
        let ghost earlier = out@;
        if !is_member(previous, next[k].as_str()) {
            out.push(next[k].clone());
        }
        proof {
            assert(next@.take(k + 1) =~= next@.take(k as int).push(next@[k as int]));
            assert forall|id: Seq<char>| #[trigger] ids_of(out@).contains(id) <==> ((ids_of(
                previous@,
            ).contains(id) && !ids_of(next@).contains(id)) || (ids_of(next@.take(k + 1)).contains(
                id,
            ) && !ids_of(previous@).contains(id))) by {
                lemma_ids_of_push(next@.take(k as int), next@[k as int], id);
                if out@.len() > earlier.len() {
                    lemma_ids_of_push(earlier, next@[k as int], id);
                }
                assert(ids_of(earlier).contains(id) <==> ((ids_of(previous@).contains(id)
                    && !ids_of(next@).contains(id)) || (ids_of(next@.take(k as int)).contains(id)
                    && !ids_of(previous@).contains(id))));
            }
        }
        k += 1;
    }
    assert(next@.take(m as int) =~= next@);
    let r = dedupe(&out);
    proof {
        law_deduplicating_keeps_each_id_once(out@);
    }
    r
}

/// `before` and then `after`, which starts where `before` ends.
proof fn lemma_walk_joined(edges: Seq<Edge>, before: Seq<Seq<char>>, after: Seq<Seq<char>>)
    requires
        walk(edges, before),
        walk(edges, after),
        edge(edges, before.last(), after[0]),
    ensures
        walk(edges, before + after),
        (before + after)[0] == before[0],
        (before + after).last() == after.last(),
{
    let all = before + after;
    assert forall|i: int| 0 <= i < all.len() - 1 implies edge(edges, #[trigger] all[i], all[i + 1]) by {
        if i < before.len() - 1 {
            assert(edge(edges, before[i], before[i + 1]));
        } else if i >= before.len() {
            let k = i - before.len();
            assert(edge(edges, after[k], after[k + 1]));
        }
    }
}

/// `after` is `edges` with the dependencies of `task` replaced by `wanted`.
pub open spec fn replaced(
    after: Seq<Edge>,
    edges: Seq<Edge>,
    task: Seq<char>,
    wanted: Seq<Seq<char>>,
) -> bool {
    forall|from: Seq<char>, to: Seq<char>| #[trigger]
        edge(after, from, to) <==> if from == task {
            wanted.contains(to)
        } else {
            edge(edges, from, to)
        }
}

proof fn lemma_first_arrival(
    after: Seq<Edge>,
    edges: Seq<Edge>,
    task: Seq<char>,
    wanted: Seq<Seq<char>>,
    path: Seq<Seq<char>>,
    k: int,
)
    requires
        replaced(after, edges, task, wanted),
        walk(after, path),
        0 <= k < path.len(),
        path[k] == task,
    ensures
        reaches(edges, path[0], task),
    decreases k,
{
    if exists|j: int| 0 <= j < k && path[j] == task {
        let j = choose|j: int| 0 <= j < k && path[j] == task;
        lemma_first_arrival(after, edges, task, wanted, path, j);
    } else {
        let prefix = path.take(k + 1);
        assert forall|i: int| 0 <= i < prefix.len() - 1 implies edge(
            edges,
            #[trigger] prefix[i],
            prefix[i + 1],
        ) by {
            assert(edge(after, path[i], path[i + 1]));
        }
        assert(walk(edges, prefix));
        assert(prefix.last() == task);
    }
}

/// Replacing the dependencies of a task by tasks from which it cannot be
/// reached never closes a cycle: dependencies without a cycle stay without one.
pub proof fn law_a_checked_write_never_closes_a_cycle(
    after: Seq<Edge>,
    edges: Seq<Edge>,
    task: Seq<char>,
    wanted: Seq<Seq<char>>,
)
    requires
        acyclic(edges),
        replaced(after, edges, task, wanted),
        forall|i: int| 0 <= i < wanted.len() ==> !reaches(edges, #[trigger] wanted[i], task),
    ensures
        acyclic(after),
{
    assert forall|i: int| 0 <= i < after.len() implies !reaches(
        after,
        (#[trigger] after[i]).depends_on@,
        after[i].task_id@,
    ) by {
        let a = after[i].task_id@;
        let b = after[i].depends_on@;
        assert(edge(after, a, b));
        if reaches(after, b, a) {
            let path = choose|path: Seq<Seq<char>>| #[trigger]
                walk(after, path) && path[0] == b && path.last() == a;
            if a == task {
                assert(wanted.contains(b));
                let w = choose|w: int| 0 <= w < wanted.len() && wanted[w] == b;
                lemma_first_arrival(after, edges, task, wanted, path, path.len() - 1);
                assert(!reaches(edges, wanted[w], task));
            } else if exists|k: int| 0 <= k < path.len() && path[k] == task {
                let k = choose|k: int| 0 <= k < path.len() && path[k] == task;
                assert(k < path.len() - 1);
                assert(edge(after, path[k], path[k + 1]));
                let onward = path.subrange(k + 1, path.len() as int);
                let upto = path.take(k + 1);
                assert(walk(after, onward)) by {
                    assert forall|j: int| 0 <= j < onward.len() - 1 implies edge(
                        after,
                        #[trigger] onward[j],
                        onward[j + 1],
                    ) by {
                        assert(edge(after, path[k + 1 + j], path[k + 1 + j + 1]));
                    }
                }
                assert(walk(after, upto)) by {
                    assert forall|j: int| 0 <= j < upto.len() - 1 implies edge(
                        after,
                        #[trigger] upto[j],
                        upto[j + 1],
                    ) by {
                        assert(edge(after, path[j], path[j + 1]));
                    }
                }
                lemma_walk_joined(after, onward, upto);
                let around = onward + upto;
                assert(around[around.len() - 1] == task);
                lemma_first_arrival(after, edges, task, wanted, around, around.len() - 1);
                let w = choose|w: int| 0 <= w < wanted.len() && wanted[w] == path[k + 1];
                assert(!reaches(edges, wanted[w], task));
            } else {
                assert forall|j: int| 0 <= j < path.len() - 1 implies edge(
                    edges,
                    #[trigger] path[j],
                    path[j + 1],
                ) by {
                    assert(edge(after, path[j], path[j + 1]));
                }
                assert(walk(edges, path));
                assert(edge(edges, a, b));
                let e = choose|e: int|
                    0 <= e < edges.len() && (#[trigger] edges[e]).task_id@ == a
                        && edges[e].depends_on@ == b;
                assert(!reaches(edges, edges[e].depends_on@, edges[e].task_id@));
            }
        }
    }
}

/// What a write of a task's dependencies does.
#[derive(Debug, Clone, PartialEq, Eq)]
pub struct DependencyChange {
    /// The dependencies to store, in place of all that are stored.
    pub stored: Vec<String>,
    /// The same set, in the order it is read back in.
    pub sorted: Vec<String>,
    /// The tasks it announces: the task itself, then every task that gained or
    /// lost a dependent.
    pub changed: Vec<String>,
    /// The stamp the task gets, even where the set stays as it was.
    pub stamp: TaskStamp,
}

/// The refusal of a dependency in another repository.
pub open spec fn elsewhere(title: Seq<char>, other: Seq<char>) -> Seq<char> {
    "cannot make \""@ + title + "\" depend on \""@ + other
        + "\": they are in different repositories, and a dependent task branches from its dependency"@
}

/// A proposed dependency is refused: it is the task itself, there is no such
/// task, or it is in another repository.
pub open spec fn objectionable(
    task: Task,
    task_id: Seq<char>,
    dependency: Seq<char>,
    rows: Map<Seq<char>, Task>,
) -> bool {
    ||| dependency == task_id
    ||| !rows.contains_key(dependency)
    ||| rows[dependency].repository_id@ != task.repository_id@
}

/// Why a proposed dependency is refused.
pub open spec fn objection(
    e: Error,
    task: Task,
    task_id: Seq<char>,
    dependency: Seq<char>,
    rows: Map<Seq<char>, Task>,
) -> bool {
    if dependency == task_id {
        e.says(ErrorCode::Invalid, "a task cannot depend on itself"@)
    } else if !rows.contains_key(dependency) {
        e.says(ErrorCode::NotFound, error::no_task(dependency))
    } else {
        e.says(ErrorCode::Invalid, elsewhere(task.title@, rows[dependency].title@))
    }
}

/// How a cycle names a task: by its title, or by its id where it has none.
pub open spec fn quoted(titles: Map<Seq<char>, String>, id: Seq<char>) -> Seq<char> {
    "\""@ + (if titles.contains_key(id) {
        titles[id]@
    } else {
        id
    }) + "\""@
}

/// The refusal of dependencies that would close a cycle, naming every task in
/// it.
pub open spec fn cycle(titles: Map<Seq<char>, String>, chain: Seq<Seq<char>>) -> Seq<char> {
    "cannot save these dependencies: they would create a cycle \u{2014} "@ + text::joined(
        Seq::new(chain.len(), |i: int| quoted(titles, chain[i])),
        " depends on "@,
    )
}

fn cycle_error(titles: &TextMap<String>, chain: &Vec<String>) -> (r: Error)
    ensures
        r.says(ErrorCode::Invalid, cycle(titles@, ids_of(chain@))),
{
    let mut names: Vec<String> = Vec::new();
    let n: usize = chain.len();
    let mut i: usize = 0;
    while i < n
        invariant
            i <= n,
            n == chain.len(),
            names@.len() == i,
            forall|j: int| 0 <= j < i ==> (#[trigger] names@[j])@ == quoted(titles@, chain@[j]@),
        decreases n - i,
    {
        let mut name = "\"".to_owned();
        match titles.get(chain[i].as_str()) {
            Some(title) => name.append(title.as_str()),
            None => name.append(chain[i].as_str()),
        }
        name.append("\"");
        names.push(name);
        i += 1;
    }
    let ghost ids = ids_of(chain@);
    assert(text::views(names@) =~= Seq::new(ids.len(), |i: int| quoted(titles@, ids[i])));
    let mut message =
        "cannot save these dependencies: they would create a cycle \u{2014} ".to_owned();
    message.append(join(&names, " depends on ").as_str());
    Error::invalid(message)
}

/// The first of `wanted` that is refused, if one is.
pub open spec fn first_objection(
    task: Task,
    task_id: Seq<char>,
    wanted: Seq<String>,
    rows: Map<Seq<char>, Task>,
    i: int,
) -> bool {
    &&& 0 <= i < wanted.len()
    &&& objectionable(task, task_id, wanted[i]@, rows)
    &&& forall|j: int| 0 <= j < i ==> !objectionable(task, task_id, (#[trigger] wanted[j])@, rows)
}

/// The first of `wanted` from which the task can be reached, if there is one.
pub open spec fn first_cycle(
    edges: Seq<Edge>,
    task_id: Seq<char>,
    wanted: Seq<String>,
    i: int,
) -> bool {
    &&& 0 <= i < wanted.len()
    &&& reaches(edges, wanted[i]@, task_id)
    &&& forall|j: int| 0 <= j < i ==> !reaches(edges, (#[trigger] wanted[j])@, task_id)
}

/// No proposed dependency is refused.
pub open spec fn unobjectionable(
    task: Task,
    task_id: Seq<char>,
    wanted: Seq<String>,
    rows: Map<Seq<char>, Task>,
) -> bool {
    forall|i: int|
        0 <= i < wanted.len() ==> !objectionable(task, task_id, (#[trigger] wanted[i])@, rows)
}

/// The task can be reached from no proposed dependency.
pub open spec fn cycle_free(edges: Seq<Edge>, task_id: Seq<char>, wanted: Seq<String>) -> bool {
    forall|i: int| 0 <= i < wanted.len() ==> !reaches(edges, (#[trigger] wanted[i])@, task_id)
}

/// What a write that is let through does: it stores what was asked for, stamps
/// the task with the time, and announces the task itself first and then, once
/// each, every task that the set gained or lost.
pub open spec fn accepted(
    change: DependencyChange,
    task_id: Seq<char>,
    wanted: Seq<String>,
    previous: Seq<String>,
    now: Instant,
) -> bool {
    &&& change.stamp.marks(task_id, now)
    &&& change.stored@ == wanted
    &&& text::in_order(change.sorted@)
    &&& change.sorted@.to_multiset() == wanted.to_multiset()
    &&& change.changed@.len() > 0
    &&& change.changed@[0]@ == task_id
    &&& forall|id: Seq<char>| #[trigger]
        ids_of(change.changed@.subrange(1, change.changed@.len() as int)).contains(id) <==> (
        ids_of(previous).contains(id) != ids_of(wanted).contains(id))
    &&& ids_of(change.changed@.subrange(1, change.changed@.len() as int)).no_duplicates()
}

/// Replaces the whole set of tasks a task waits for: what to write, or why the
/// set is refused.
///
/// `row` is the task `task_id` names, `rows` the tasks the requested ids name,
/// `edges` every stored dependency, `previous` the task's own, and `titles` the
/// titles a refusal can name tasks by. The first requested id that is refused
/// is the one the refusal is about.
pub fn set_task_dependencies(
    task_id: &str,
    row: &Option<Task>,
    depends_on: &Vec<String>,
    rows: &TextMap<Task>,
    edges: &Vec<Edge>,
    previous: &Vec<String>,
    titles: &TextMap<String>,
    now: Instant,
) -> (r: Result<DependencyChange, Error>)
    ensures
        match *row {
            None => r matches Err(e) && e.says(ErrorCode::NotFound, error::no_task(task_id@)),
            Some(task) => {
                let wanted = deduped(depends_on@);
                if !unobjectionable(task, task_id@, wanted, rows@) {
                    r matches Err(e) && exists|i: int| #[trigger]
                        first_objection(task, task_id@, wanted, rows@, i) && objection(
                            e,
                            task,
                            task_id@,
                            wanted[i]@,
                            rows@,
                        )
                } else if !cycle_free(edges@, task_id@, wanted) {
                    r matches Err(e) && exists|i: int| #[trigger]
                        first_cycle(edges@, task_id@, wanted, i) && e.says(
                            ErrorCode::Invalid,
                            cycle(
                                titles@,
                                seq![task_id@] + found_path(edges@, wanted[i]@, task_id@)->0,
                            ),
                        )
                } else {
                    r matches Ok(change) && accepted(change, task_id@, wanted, previous@, now)
                }
            },
        },
{
    let task = match row {
        Some(task) => task,
        None => return Err(missing_task(task_id)),
    };
    let requested = dedupe(depends_on);
    let n: usize = requested.len();
    let mut i: usize = 0;
    while i < n
        invariant
            i <= n,
            n == requested.len(),
            *row == Some(*task),
            requested@ == deduped(depends_on@),
            forall|j: int|
                0 <= j < i ==> !objectionable(*task, task_id@, (#[trigger] requested@[j])@, rows@),
        decreases n - i,
    {
        let dependency_id = requested[i].as_str();
        if same(dependency_id, task_id) {
            assert(first_objection(*task, task_id@, requested@, rows@, i as int));
            return Err(Error::invalid("a task cannot depend on itself".to_owned()));
        }
        match rows.get(dependency_id) {
            None => {
                assert(first_objection(*task, task_id@, requested@, rows@, i as int));
                return Err(missing_task(dependency_id));
            },
            Some(dependency) => {
                if !same(dependency.repository_id.as_str(), task.repository_id.as_str()) {
                    let mut message = "cannot make \"".to_owned();
                    message.append(task.title.as_str());
                    message.append("\" depend on \"");
                    message.append(dependency.title.as_str());
                    message.append(
                        "\": they are in different repositories, and a dependent task branches from its dependency",
                    );
                    assert(first_objection(*task, task_id@, requested@, rows@, i as int));
                    return Err(Error::invalid(message));
                }
            },
        }
        i += 1;
    }
    let mut k: usize = 0;
    while k < n
        invariant
            k <= n,
            n == requested.len(),
            *row == Some(*task),
            requested@ == deduped(depends_on@),
            unobjectionable(*task, task_id@, requested@, rows@),
            forall|j: int|
                0 <= j < k ==> !reaches(edges@, (#[trigger] requested@[j])@, task_id@),
        decreases n - k,
    {
        match find_path(edges, requested[k].as_str(), task_id) {
            Some(path) => {
                let mut chain: Vec<String> = Vec::new();
                chain.push(task_id.to_owned());
                let mut rest = path;
                chain.append(&mut rest);
                assert(ids_of(chain@) =~= seq![task_id@] + ids_of(path@));
                assert(first_cycle(edges@, task_id@, requested@, k as int));
                return Err(cycle_error(titles, &chain));
            },
            None => {},
        }
        k += 1;
    }
    let mut changed: Vec<String> = Vec::new();
    changed.push(task_id.to_owned());
    let mut moved = symmetric_difference(previous, &requested);
    let ghost others = moved@;
    changed.append(&mut moved);
    assert(changed@.subrange(1, changed@.len() as int) =~= others);
    let sorted = sort(copy_path(&requested));
    let stamp = TaskStamp { task_id: task_id.to_owned(), updated_at: now };
    Ok(DependencyChange { stored: requested, sorted, changed, stamp })
}

/// A write that is let through leaves a board without a cycle without one.
pub proof fn law_an_accepted_write_keeps_the_board_acyclic(
    after: Seq<Edge>,
    edges: Seq<Edge>,
    task_id: Seq<char>,
    wanted: Seq<String>,
)
    requires
        acyclic(edges),
        cycle_free(edges, task_id, wanted),
        replaced(after, edges, task_id, ids_of(wanted)),
    ensures
        acyclic(after),
{
    assert forall|i: int| 0 <= i < ids_of(wanted).len() implies !reaches(
        edges,
        #[trigger] ids_of(wanted)[i],
        task_id,
    ) by {
        assert(ids_of(wanted)[i] == wanted[i]@);
    }
    law_a_checked_write_never_closes_a_cycle(after, edges, task_id, ids_of(wanted));
}

/// An empty request is never refused for its content: it clears every
/// dependency.
pub proof fn law_an_empty_set_is_always_accepted(
    task: Task,
    task_id: Seq<char>,
    rows: Map<Seq<char>, Task>,
    edges: Seq<Edge>,
)
    ensures
        deduped(Seq::empty()).len() == 0,
        unobjectionable(task, task_id, deduped(Seq::empty()), rows),
        cycle_free(edges, task_id, deduped(Seq::empty())),
{
}

/// Storing the set that is stored already changes no other task: nothing but
/// the task itself is announced. It is stamped all the same.
pub proof fn law_storing_the_same_set_again_touches_no_other_task(
    change: DependencyChange,
    task_id: Seq<char>,
    wanted: Seq<String>,
    previous: Seq<String>,
    now: Instant,
)
    requires
        accepted(change, task_id, wanted, previous, now),
        forall|id: Seq<char>| ids_of(previous).contains(id) <==> #[trigger] ids_of(wanted).contains(id),
    ensures
        change.changed@.len() == 1,
        change.changed@[0]@ == task_id,
        change.stamp.marks(task_id, now),
{
    if change.changed@.len() > 1 {
        let rest = change.changed@.subrange(1, change.changed@.len() as int);
        assert(ids_of(rest).contains(ids_of(rest)[0]));
    }
}

/// To be reached is to be at the end of a chain of dependencies: a task reaches
/// itself, and what depends on what it reaches; and whatever holds of a task and
/// is handed on by every dependency holds of all it reaches.
pub proof fn law_reaching_follows_the_dependencies(
    edges: Seq<Edge>,
    from: Seq<char>,
    to: Seq<char>,
    i: int,
    holds: spec_fn(Seq<char>) -> bool,
)
    ensures
        reaches(edges, from, from),
        0 <= i < edges.len() && reaches(edges, from, edges[i].task_id@) ==> reaches(
            edges,
            from,
            edges[i].depends_on@,
        ),
        reaches(edges, from, to) && holds(from) && (forall|k: int|
            0 <= k < edges.len() && holds((#[trigger] edges[k]).task_id@) ==> holds(
                edges[k].depends_on@,
            )) ==> holds(to),
{
    let lone = seq![from];
    assert(walk(edges, lone) && lone[0] == from && lone.last() == from);
    if 0 <= i < edges.len() && reaches(edges, from, edges[i].task_id@) {
        let path = choose|path: Seq<Seq<char>>| #[trigger]
            walk(edges, path) && path[0] == from && path.last() == edges[i].task_id@;
        let longer = path.push(edges[i].depends_on@);
        assert forall|k: int| 0 <= k < longer.len() - 1 implies edge(
            edges,
            #[trigger] longer[k],
            longer[k + 1],
        ) by {
            if k < path.len() - 1 {
                assert(edge(edges, path[k], path[k + 1]));
            } else {
                assert(edges[i].task_id@ == longer[k] && edges[i].depends_on@ == longer[k + 1]);
            }
        }
        assert(walk(edges, longer) && longer[0] == from && longer.last() == edges[i].depends_on@);
    }
    if reaches(edges, from, to) && holds(from) && (forall|k: int|
        0 <= k < edges.len() && holds((#[trigger] edges[k]).task_id@) ==> holds(
            edges[k].depends_on@,
        )) {
        let path = choose|path: Seq<Seq<char>>| #[trigger]
            walk(edges, path) && path[0] == from && path.last() == to;
        lemma_handed_on(edges, path, holds, path.len() - 1);
    }
}

proof fn lemma_handed_on(
    edges: Seq<Edge>,
    path: Seq<Seq<char>>,
    holds: spec_fn(Seq<char>) -> bool,
    k: int,
)
    requires
        walk(edges, path),
        0 <= k < path.len(),
        holds(path[0]),
        forall|e: int|
            0 <= e < edges.len() && holds((#[trigger] edges[e]).task_id@) ==> holds(
                edges[e].depends_on@,
            ),
    ensures
        holds(path[k]),
    decreases k,
{
    if k > 0 {
        lemma_handed_on(edges, path, holds, k - 1);
        assert(edge(edges, path[k - 1], path[k - 1 + 1]));
        let e = choose|e: int|
            0 <= e < edges.len() && (#[trigger] edges[e]).task_id@ == path[k - 1]
                && edges[e].depends_on@ == path[k];
        assert(holds(edges[e].depends_on@));
    }
}

proof fn lemma_deduped_covers(ids: Seq<String>, good: spec_fn(Seq<char>) -> bool)
    ensures
        (forall|i: int| 0 <= i < ids.len() ==> good((#[trigger] ids[i])@)) <==> (forall|i: int|
            0 <= i < deduped(ids).len() ==> good((#[trigger] deduped(ids)[i])@)),
{
    law_deduplicating_keeps_each_id_once(ids);
    let kept = deduped(ids);
    if forall|i: int| 0 <= i < ids.len() ==> good((#[trigger] ids[i])@) {
        assert forall|i: int| 0 <= i < kept.len() implies good((#[trigger] kept[i])@) by {
            assert(ids_of(kept)[i] == kept[i]@);
            assert(ids_of(kept).contains(kept[i]@));
            assert(ids_of(ids).contains(kept[i]@));
            let k = choose|k: int| 0 <= k < ids_of(ids).len() && ids_of(ids)[k] == kept[i]@;
            assert(ids[k]@ == kept[i]@);
        }
    }
    if forall|i: int| 0 <= i < kept.len() ==> good((#[trigger] kept[i])@) {
        assert forall|i: int| 0 <= i < ids.len() implies good((#[trigger] ids[i])@) by {
            assert(ids_of(ids)[i] == ids[i]@);
            assert(ids_of(ids).contains(ids[i]@));
            assert(ids_of(kept).contains(ids[i]@));
            let k = choose|k: int| 0 <= k < ids_of(kept).len() && ids_of(kept)[k] == ids[i]@;
            assert(kept[k]@ == ids[i]@);
        }
    }
}

/// A set of dependencies is let through exactly where the task is there and each
/// of them is another task that is there, in the same repository, and does not
/// depend on it already, directly or through others.
pub proof fn law_when_dependencies_are_let_through(
    task_id: &str,
    row: Option<Task>,
    depends_on: Vec<String>,
    rows: TextMap<Task>,
    edges: Vec<Edge>,
    previous: Vec<String>,
    titles: TextMap<String>,
    now: Instant,
    r: Result<DependencyChange, Error>,
)
    requires
        call_ensures(
            set_task_dependencies,
            (task_id, &row, &depends_on, &rows, &edges, &previous, &titles, now),
            r,
        ),
    ensures
        r is Ok <==> (row matches Some(task) && forall|i: int|
            0 <= i < depends_on@.len() ==> {
                let id = (#[trigger] depends_on@[i])@;
                &&& id != task_id@
                &&& rows@.contains_key(id)
                &&& rows@[id].repository_id@ == task.repository_id@
                &&& !reaches(edges@, id, task_id@)
            }),
        row is None ==> (r matches Err(e) && e.code == ErrorCode::NotFound),
{
    if let Some(task) = row {
        let good = |id: Seq<char>|
            {
                &&& id != task_id@
                &&& rows@.contains_key(id)
                &&& rows@[id].repository_id@ == task.repository_id@
                &&& !reaches(edges@, id, task_id@)
            };
        let wanted = deduped(depends_on@);
        lemma_deduped_covers(depends_on@, good);
        if unobjectionable(task, task_id@, wanted, rows@) && cycle_free(edges@, task_id@, wanted) {
            assert forall|i: int| 0 <= i < wanted.len() implies good((#[trigger] wanted[i])@) by {
                assert(!objectionable(task, task_id@, wanted[i]@, rows@));
                assert(!reaches(edges@, wanted[i]@, task_id@));
            }
            assert forall|i: int| 0 <= i < depends_on@.len() implies {
                let id = (#[trigger] depends_on@[i])@;
                &&& id != task_id@
                &&& rows@.contains_key(id)
                &&& rows@[id].repository_id@ == task.repository_id@
                &&& !reaches(edges@, id, task_id@)
            } by {
                assert(good(depends_on@[i]@));
            }
        }
        if forall|i: int|
            0 <= i < depends_on@.len() ==> {
                let id = (#[trigger] depends_on@[i])@;
                &&& id != task_id@
                &&& rows@.contains_key(id)
                &&& rows@[id].repository_id@ == task.repository_id@
                &&& !reaches(edges@, id, task_id@)
            } {
            assert forall|i: int| 0 <= i < depends_on@.len() implies good(
                (#[trigger] depends_on@[i])@,
            ) by {}
            assert forall|i: int| 0 <= i < wanted.len() implies !objectionable(
                task,
                task_id@,
                (#[trigger] wanted[i])@,
                rows@,
            ) by {
                assert(good(wanted[i]@));
            }
            assert forall|i: int| 0 <= i < wanted.len() implies !reaches(
                edges@,
                (#[trigger] wanted[i])@,
                task_id@,
            ) by {
                assert(good(wanted[i]@));
            }
        }
    }
}

/// What is stored is what was asked for, each id once; it reads back in order;
/// the task is stamped and announced first, and after it, once each, exactly the
/// tasks that it starts or stops waiting for.
pub proof fn law_dependencies_are_stored_as_asked_for(
    task_id: &str,
    row: Option<Task>,
    depends_on: Vec<String>,
    rows: TextMap<Task>,
    edges: Vec<Edge>,
    previous: Vec<String>,
    titles: TextMap<String>,
    now: Instant,
    change: DependencyChange,
    id: Seq<char>,
)
    requires
        call_ensures(
            set_task_dependencies,
            (task_id, &row, &depends_on, &rows, &edges, &previous, &titles, now),
            Ok::<DependencyChange, Error>(change),
        ),
    ensures
        text::views(change.stored@).contains(id) <==> text::views(depends_on@).contains(id),
        text::views(change.stored@).no_duplicates(),
        change.sorted@.to_multiset() == change.stored@.to_multiset(),
        text::in_order(change.sorted@),
        change.changed@.len() > 0 && change.changed@[0]@ == task_id@,
        text::views(change.changed@.skip(1)).contains(id) <==> (text::views(previous@).contains(id)
            <==> !text::views(depends_on@).contains(id)),
        text::views(change.changed@.skip(1)).no_duplicates(),
        change.stamp.task_id@ == task_id@,
        change.stamp.updated_at == now,
{
    law_deduplicating_keeps_each_id_once(depends_on@);
    let wanted = deduped(depends_on@);
    assert(accepted(change, task_id@, wanted, previous@, now));
    assert(change.changed@.skip(1) =~= change.changed@.subrange(1, change.changed@.len() as int));
    assert(ids_of(wanted).contains(id) <==> ids_of(depends_on@).contains(id));
}

/// Without repetitions, a list with one more id at its end is the list without
/// repetitions, with that id at its end where it was not in it yet: what came
/// first stays first.
pub proof fn law_what_came_first_stays_first(
    ids: Vec<String>,
    longer: Vec<String>,
    one: Vec<String>,
    other: Vec<String>,
    last: String,
)
    requires
        longer@ == ids@.push(last),
        call_ensures(dedupe, (&ids,), one),
        call_ensures(dedupe, (&longer,), other),
    ensures
        text::views(ids@).contains(last@) ==> other@ == one@,
        !text::views(ids@).contains(last@) ==> other@ == one@.push(last),
{
    assert(longer@.drop_last() =~= ids@);
    law_deduplicating_keeps_each_id_once(ids@);
    assert(ids_of(deduped(ids@)).contains(last@) <==> ids_of(ids@).contains(last@));
}

/// A refusal is about the first id that is refused: that there is no such task,
/// or that it is the task itself or in another repository.
pub proof fn law_a_refusal_is_about_the_first_refused(
    task_id: &str,
    task: Task,
    depends_on: Vec<String>,
    rows: TextMap<Task>,
    edges: Vec<Edge>,
    previous: Vec<String>,
    titles: TextMap<String>,
    now: Instant,
    e: Error,
    wanted: Vec<String>,
    i: int,
)
    requires
        call_ensures(
            set_task_dependencies,
            (task_id, &Some(task), &depends_on, &rows, &edges, &previous, &titles, now),
            Err::<DependencyChange, Error>(e),
        ),
        call_ensures(dedupe, (&depends_on,), wanted),
        0 <= i < wanted@.len(),
        wanted@[i]@ == task_id@ || !rows@.contains_key(wanted@[i]@)
            || rows@[wanted@[i]@].repository_id@ != task.repository_id@,
        forall|j: int|
            0 <= j < i ==> (#[trigger] wanted@[j])@ != task_id@ && rows@.contains_key(wanted@[j]@)
                && rows@[wanted@[j]@].repository_id@ == task.repository_id@,
    ensures
        e.code == ErrorCode::NotFound <==> wanted@[i]@ != task_id@ && !rows@.contains_key(
            wanted@[i]@,
        ),
        e.code == ErrorCode::NotFound ==> exists|k: int| #[trigger]
            text::occurs_at(e.message@, wanted@[i]@, k),
{
    let ids = deduped(depends_on@);
    assert(objectionable(task, task_id@, ids[i]@, rows@));
    assert(!unobjectionable(task, task_id@, ids, rows@));
    let k = choose|k: int| #[trigger]
        first_objection(task, task_id@, ids, rows@, k) && objection(
            e,
            task,
            task_id@,
            ids[k]@,
            rows@,
        );
    assert(k == i) by {
        if k < i {
            assert(wanted@[k]@ != task_id@);
        }
        if i < k {
            assert(!objectionable(task, task_id@, ids[i]@, rows@));
        }
    }
    if e.code == ErrorCode::NotFound {
        let head = "no task with id "@;
        assert(e.message@ =~= head + wanted@[i]@ + seq![]);
        text::lemma_stands_between(head, wanted@[i]@, seq![]);
        assert(text::occurs_at(e.message@, wanted@[i]@, head.len() as int));
    }
}

/// What is found between two tasks is a chain of stored dependencies from the one
/// to the other, and something is found exactly where there is one.
pub proof fn law_a_found_chain_is_one(
    edges: Vec<Edge>,
    from: &str,
    to: &str,
    r: Option<Vec<String>>,
)
    requires
        call_ensures(find_path, (&edges, from, to), r),
    ensures
        r is Some <==> reaches(edges@, from@, to@),
        r matches Some(path) ==> {
            &&& path@.len() > 0 && path@[0]@ == from@ && path@.last()@ == to@
            &&& forall|k: int|
                0 <= k < path@.len() - 1 ==> exists|e: int|
                    0 <= e < edges@.len() && (#[trigger] edges@[e]).task_id@ == (
                    #[trigger] path@[k])@ && edges@[e].depends_on@ == path@[k + 1]@
        },
{
    law_a_path_is_found_iff_there_is_one(edges@, from@, to@);
    if let Some(path) = r {
        let ids = ids_of(path@);
        assert(walk(edges@, ids) && ids[0] == from@ && ids.last() == to@);
        assert forall|k: int| 0 <= k < path@.len() - 1 implies exists|e: int|
            0 <= e < edges@.len() && (#[trigger] edges@[e]).task_id@ == (#[trigger] path@[k])@
                && edges@[e].depends_on@ == path@[k + 1]@ by {
            assert(edge(edges@, ids[k], ids[k + 1]));
        }
    }
}

/// A refused cycle is told from the task round to itself: through the first
/// requested task that leads back to it, and on through the chain that is found
/// from there, each task by its title, or by its id where it has none.
pub proof fn law_a_refused_cycle_is_told_all_the_way_round(
    task_id: &str,
    task: Task,
    depends_on: Vec<String>,
    rows: TextMap<Task>,
    edges: Vec<Edge>,
    previous: Vec<String>,
    titles: TextMap<String>,
    now: Instant,
    e: Error,
    wanted: Vec<String>,
    i: int,
    first: &str,
    path: Vec<String>,
    names: Vec<String>,
    told: String,
)
    requires
        call_ensures(
            set_task_dependencies,
            (task_id, &Some(task), &depends_on, &rows, &edges, &previous, &titles, now),
            Err::<DependencyChange, Error>(e),
        ),
        call_ensures(dedupe, (&depends_on,), wanted),
        forall|j: int|
            0 <= j < wanted@.len() ==> (#[trigger] wanted@[j])@ != task_id@ && rows@.contains_key(
                wanted@[j]@,
            ) && rows@[wanted@[j]@].repository_id@ == task.repository_id@,
        0 <= i < wanted@.len(),
        first@ == wanted@[i]@,
        forall|j: int| 0 <= j < i ==> !reaches(edges@, (#[trigger] wanted@[j])@, task_id@),
        call_ensures(find_path, (&edges, first, task_id), Some(path)),
        names@.len() == path@.len() + 1,
        forall|k: int|
            0 <= k < names@.len() ==> (#[trigger] names@[k])@ == "\""@ + ({
                let id = if k == 0 {
                    task_id@
                } else {
                    path@[k - 1]@
                };
                if titles@.contains_key(id) {
                    titles@[id]@
                } else {
                    id
                }
            }) + "\""@,
        call_ensures(join, (&names, " depends on "), told),
    ensures
        e.code == ErrorCode::Invalid,
        text::occurs_at(e.message@, told@, e.message@.len() - told@.len()),
{
    let ids = deduped(depends_on@);
    assert(unobjectionable(task, task_id@, ids, rows@));
    assert(reaches(edges@, ids[i]@, task_id@));
    assert(!cycle_free(edges@, task_id@, ids));
    let k = choose|k: int| #[trigger]
        first_cycle(edges@, task_id@, ids, k) && e.says(
            ErrorCode::Invalid,
            cycle(titles@, seq![task_id@] + found_path(edges@, ids[k]@, task_id@)->0),
        );
    assert(k == i) by {
        if k < i {
            assert(!reaches(edges@, wanted@[k]@, task_id@));
        }
        if i < k {
            assert(!reaches(edges@, ids[i]@, task_id@));
        }
    }
    let chain = seq![task_id@] + ids_of(path@);
    let quotes = Seq::new(chain.len(), |i: int| quoted(titles@, chain[i]));
    assert(text::views(names@) =~= quotes) by {
        assert forall|k: int| 0 <= k < names@.len() implies text::views(names@)[k] == quotes[k] by {
            assert(names@[k]@ == quoted(titles@, chain[k]));
        }
    }
    let head = "cannot save these dependencies: they would create a cycle \u{2014} "@;
    assert(e.message@ =~= head + told@ + seq![]);
    text::lemma_stands_between(head, told@, seq![]);
}

/// What differs between two sets of ids is what is in one of them and not in the
/// other, each once.
pub proof fn law_what_differs_is_in_one_of_the_two(
    previous: Vec<String>,
    next: Vec<String>,
    r: Vec<String>,
    id: Seq<char>,
)
    requires
        call_ensures(symmetric_difference, (&previous, &next), r),
    ensures
        text::views(r@).contains(id) <==> (text::views(previous@).contains(id) && !text::views(
            next@,
        ).contains(id)) || (!text::views(previous@).contains(id) && text::views(next@).contains(
            id,
        )),
        text::views(r@).no_duplicates(),
{
    assert(ids_of(r@).contains(id) <==> (ids_of(previous@).contains(id) != ids_of(next@).contains(
        id,
    )));
}

} // verus!
