//! The catalogue worker's decisions: which app ids it visits and in what order,
//! which failures stop it, and how it counts what it stored.

use crate::steam::api_steampowered_com::i_steam_apps::get_app_list;
use crate::steam::api_steampowered_com::SteamClientError;
use crate::steam::store::SteamStoreError;
use itertools::Itertools;
use vstd::prelude::*;

verus! {

/// Why a pass of the worker failed.
#[derive(Debug)]
pub enum SteamWorkerError {
    Client(SteamClientError),
    Store(SteamStoreError),
}

impl From<SteamClientError> for SteamWorkerError {
    fn from(error: SteamClientError) -> (r: Self) {
        SteamWorkerError::Client(error)
    }
}

impl vstd::std_specs::convert::FromSpecImpl<SteamClientError> for SteamWorkerError {
    open spec fn obeys_from_spec() -> bool {
        true
    }

    open spec fn from_spec(v: SteamClientError) -> Self {
        SteamWorkerError::Client(v)
    }
}

impl From<SteamStoreError> for SteamWorkerError {
    fn from(error: SteamStoreError) -> (r: Self) {
        SteamWorkerError::Store(error)
    }
}

impl vstd::std_specs::convert::FromSpecImpl<SteamStoreError> for SteamWorkerError {
    open spec fn obeys_from_spec() -> bool {
        true
    }

    open spec fn from_spec(v: SteamStoreError) -> Self {
        SteamWorkerError::Store(v)
    }
}

/// Whether the outcome of storing one game ends the pass: any store failure, and the
/// Web API refusing more requests or answering with an unexpected status.
pub open spec fn is_critical_spec(res: Result<(), SteamWorkerError>) -> bool {
    match res {
        Err(SteamWorkerError::Store(_)) => true,
        Err(SteamWorkerError::Client(SteamClientError::TooManyRequests)) => true,
        Err(SteamWorkerError::Client(SteamClientError::Unknown(_, _))) => true,
        _ => false,
    }
}

/// Which outcomes end a pass: every failure of the store, the Web API refusing more
/// requests, and any unexpected reply; a stored game, a bad request and a forbidden one
/// do not.
pub proof fn law_critical_outcomes(store_error: SteamStoreError, status: u16, body: String)
    ensures
        is_critical_spec(Err(SteamWorkerError::Store(store_error))),
        is_critical_spec(Err(SteamWorkerError::Client(SteamClientError::TooManyRequests))),
        is_critical_spec(Err(SteamWorkerError::Client(SteamClientError::Unknown(status, body)))),
        !is_critical_spec(Ok(())),
        !is_critical_spec(Err(SteamWorkerError::Client(SteamClientError::BadRequest))),
        !is_critical_spec(Err(SteamWorkerError::Client(SteamClientError::Forbidden))),
{
}

/// Whether the outcome of storing one game ends the pass.
pub fn is_critical(res: &Result<(), SteamWorkerError>) -> (r: bool)
    ensures
        r == is_critical_spec(*res),
        *res matches Err(SteamWorkerError::Store(_)) ==> r,
        *res matches Err(SteamWorkerError::Client(SteamClientError::TooManyRequests)) ==> r,
        *res matches Err(SteamWorkerError::Client(SteamClientError::Unknown(_, _))) ==> r,
        *res matches Err(SteamWorkerError::Client(SteamClientError::BadRequest)) ==> !r,
        *res matches Err(SteamWorkerError::Client(SteamClientError::Forbidden)) ==> !r,
        *res is Ok ==> !r,
{
    match res {
        Err(SteamWorkerError::Store(_)) => true,
        Err(SteamWorkerError::Client(SteamClientError::TooManyRequests)) => true,
        Err(SteamWorkerError::Client(SteamClientError::Unknown(_, _))) => true,
        _ => false,
    }
}

/// Counts one more outcome of the pass, which counts the games it stored: `None` when the
/// outcome ends the pass (it is not counted), otherwise the count with one more for a
/// stored game and unchanged for a failure that does not end the pass.
pub fn count_outcome(count: usize, res: &Result<(), SteamWorkerError>) -> (r: Option<usize>)
    requires
        count < usize::MAX,
    ensures
        is_critical_spec(*res) ==> r is None,
        !is_critical_spec(*res) && res is Ok ==> r == Some((count + 1) as usize),
        !is_critical_spec(*res) && res is Err ==> r == Some(count),
        *res matches Err(SteamWorkerError::Store(_)) ==> r is None,
        *res matches Err(SteamWorkerError::Client(SteamClientError::TooManyRequests)) ==> r is None,
        *res matches Err(SteamWorkerError::Client(SteamClientError::Unknown(_, _))) ==> r is None,
        *res matches Err(SteamWorkerError::Client(SteamClientError::BadRequest)) ==> r == Some(count),
        *res matches Err(SteamWorkerError::Client(SteamClientError::Forbidden)) ==> r == Some(count),
        *res is Ok ==> r == Some((count + 1) as usize),
{
    if is_critical(res) {
        None
    } else if res.is_ok() {
        Some(count + 1)
    } else {
        Some(count)
    }
}

/// Whether the ids are in ascending order.
pub open spec fn is_ascending(s: Seq<i64>) -> bool {
    forall|i: int, j: int| 0 <= i <= j < s.len() ==> s[i] <= s[j]
}

/// The app ids of a reply, in the reply's order.
pub open spec fn reply_app_ids(apps: Seq<get_app_list::ResponseApp>) -> Seq<i64> {
    apps.map_values(|a: get_app_list::ResponseApp| a.app_id)
}

/// Calls `itertools::Itertools::sorted` on the ids and collects the result.
/// Trusted: the result holds the same ids, in ascending order (the crate collects them
/// into a `Vec` and calls the standard library's stable sort on it).
#[verifier::external_body]
fn sort_ids(ids: Vec<i64>) -> (r: Vec<i64>)
    ensures
        is_ascending(r@),
        r@.to_multiset() == ids@.to_multiset(),
{
    ids.into_iter().sorted().collect()
}

/// The app ids of the reply, in ascending order.
pub fn game_ids(res: &get_app_list::Response) -> (r: Vec<i64>)
    ensures
        is_ascending(r@),
        forall|i: int, j: int| 0 <= i <= j < r@.len() ==> r@[i] <= r@[j],
        r@.to_multiset() == reply_app_ids(res.app_list.apps@).to_multiset(),
        r@.len() == res.app_list.apps@.len(),
{
    let apps = &res.app_list.apps;
    let len = apps.len();
    let mut ids: Vec<i64> = Vec::new();
    let mut i: usize = 0;
    while i < len
        invariant
            len == apps@.len(),
            i <= len,
            ids@ == reply_app_ids(apps@.take(i as int)),
        decreases len - i,
    {
        ids.push(apps[i].app_id);
        assert(reply_app_ids(apps@.take(i + 1)) =~= reply_app_ids(apps@.take(i as int)).push(
            apps@[i as int].app_id,
        ));
        i = i + 1;
    }
    assert(apps@.take(len as int) =~= apps@);
    let sorted = sort_ids(ids);
    proof {
        sorted@.to_multiset_ensures();
        ids@.to_multiset_ensures();
    }
    sorted
}


/// The order in which a pass visits the app ids: the stream that cycles through the ids,
/// skips those not above the memento, takes ids up to the memento, then the memento itself.
#[derive(Debug, PartialEq, Eq)]
pub enum VisitOrder {
    /// The pass visits these ids, then ends.
    Finite(Vec<i64>),
    /// The pass visits these ids, again and again, and never ends.
    Endless(Vec<i64>),
    /// The pass never reaches an id and never ends.
    Stalled,
}

/// The shape of a visit order, with the ids as sequences.
pub enum VisitShape {
    Finite(Seq<i64>),
    Endless(Seq<i64>),
    Stalled,
}

impl VisitOrder {
    pub open spec fn shape(&self) -> VisitShape {
        match self {
            VisitOrder::Finite(v) => VisitShape::Finite(v@),
            VisitOrder::Endless(v) => VisitShape::Endless(v@),
            VisitOrder::Stalled => VisitShape::Stalled,
        }
    }
}

/// Ids above `m`.
pub open spec fn above(m: i64) -> spec_fn(i64) -> bool {
    |x: i64| x > m
}

/// Ids below `m`.
pub open spec fn below(m: i64) -> spec_fn(i64) -> bool {
    |x: i64| x < m
}

/// The id `m`.
pub open spec fn equal_to(m: i64) -> spec_fn(i64) -> bool {
    |x: i64| x == m
}

/// The index of the first element of `s` that satisfies `p`, or `s.len()` if none does.
pub open spec fn first_index(s: Seq<i64>, p: spec_fn(i64) -> bool) -> nat
    decreases s.len(),
{
    if s.len() == 0 {
        0
    } else if p(s[0]) {
        0
    } else {
        1 + first_index(s.drop_first(), p)
    }
}

/// `s` turned so that it starts at index `k`.
pub open spec fn rotation(s: Seq<i64>, k: int) -> Seq<i64> {
    s.skip(k) + s.take(k)
}

/// The turned sequence is the cycle through `s` read from index `k`: its element `t` is
/// the element `(k + t) mod n` of `s`.
pub proof fn lemma_rotation_is_cycle(s: Seq<i64>, k: int)
    requires
        0 <= k < s.len(),
    ensures
        rotation(s, k).len() == s.len(),
        forall|t: int|
            0 <= t < s.len() ==> #[trigger] rotation(s, k)[t] == s[(k + t) % (s.len() as int)],
{
    let n = s.len() as int;
    assert forall|t: int| 0 <= t < n implies #[trigger] rotation(s, k)[t] == s[(k + t) % n] by {
        if t < n - k {
            assert((k + t) % n == k + t) by (nonlinear_arith)
                requires 0 <= k + t < n;
        } else {
            assert((k + t) % n == k + t - n) by (nonlinear_arith)
                requires n <= k + t < 2 * n;
        }
    }
}

/// The visit order for the ids `s` and the memento `m`. With `k` the first index of an id
/// above `m`, the cycle through `s` from `k` on is the turned sequence `rotation(s, k)`;
/// the pass takes it up to the first `m`, then `m`. Where `s` holds no `m` the cycle is
/// taken forever; where no id is above `m` the skipping never ends.
pub open spec fn visit_order_spec(s: Seq<i64>, m: i64) -> VisitShape {
    if s.len() == 0 {
        VisitShape::Finite(seq![m])
    } else {
        let k = first_index(s, above(m));
        if k == s.len() {
            VisitShape::Stalled
        } else {
            let turned = rotation(s, k as int);
            let j = first_index(turned, equal_to(m));
            if j == turned.len() {
                VisitShape::Endless(turned)
            } else {
                VisitShape::Finite(turned.take(j as int).push(m))
            }
        }
    }
}

/// What `first_index` is: no element before it satisfies `p`, and the one at it does.
pub proof fn lemma_first_index(s: Seq<i64>, p: spec_fn(i64) -> bool)
    ensures
        first_index(s, p) <= s.len(),
        forall|i: int| 0 <= i < first_index(s, p) ==> !p(#[trigger] s[i]),
        first_index(s, p) < s.len() ==> p(s[first_index(s, p) as int]),
    decreases s.len(),
{
    if s.len() > 0 && !p(s[0]) {
        lemma_first_index(s.drop_first(), p);
        assert forall|i: int| 0 <= i < first_index(s, p) implies !p(#[trigger] s[i]) by {
            if i > 0 {
                assert(s[i] == s.drop_first()[i - 1]);
            }
        }
    }
}

/// An index before which no element satisfies `p`, and at which one does (or the end),
/// is `first_index`.
pub proof fn lemma_first_index_at(s: Seq<i64>, p: spec_fn(i64) -> bool, k: int)
    requires
        0 <= k <= s.len(),
        forall|i: int| 0 <= i < k ==> !p(#[trigger] s[i]),
        k == s.len() || p(s[k]),
    ensures
        first_index(s, p) == k,
    decreases k,
{
    if k > 0 {
        assert forall|i: int| 0 <= i < k - 1 implies !p(#[trigger] s.drop_first()[i]) by {
            assert(s.drop_first()[i] == s[i + 1]);
        }
        lemma_first_index_at(s.drop_first(), p, k - 1);
        assert(!p(s[0]));
    }
}

/// The visit order of a pass over the app ids `ids`, resuming after `memento`.
pub fn visit_order(ids: &Vec<i64>, memento: i64) -> (r: VisitOrder)
    ensures
        r.shape() == visit_order_spec(ids@, memento),
{
    let ghost s = ids@;
    let n = ids.len();
    if n == 0 {
        let mut only: Vec<i64> = Vec::new();
        only.push(memento);
        assert(only@ =~= seq![memento]);
        return VisitOrder::Finite(only);
    }
    let mut k: usize = 0;
    while k < n && ids[k] <= memento
        invariant
            n == s.len(),
            s == ids@,
            k <= n,
            forall|i: int| 0 <= i < k ==> !above(memento)(#[trigger] s[i]),
        decreases n - k,
    {
        k = k + 1;
    }
    proof {
        lemma_first_index_at(s, above(memento), k as int);
    }
    if k == n {
        return VisitOrder::Stalled;
    }
    let ghost turned = rotation(s, k as int);
    let mut rotated: Vec<i64> = Vec::new();
    let mut i: usize = k;
    while i < n
        invariant
            n == s.len(),
            s == ids@,
            k <= i <= n,
            rotated@ == s.subrange(k as int, i as int),
        decreases n - i,
    {
        rotated.push(ids[i]);
        assert(s.subrange(k as int, i + 1) =~= s.subrange(k as int, i as int).push(s[i as int]));
        i = i + 1;
    }
    i = 0;
    while i < k
        invariant
            n == s.len(),
            s == ids@,
            k < n,
            i <= k,
            rotated@ == s.skip(k as int) + s.take(i as int),
        decreases k - i,
    {
        rotated.push(ids[i]);
        assert(s.take(i + 1) =~= s.take(i as int).push(s[i as int]));
        assert(s.skip(k as int) + s.take(i + 1) =~= (s.skip(k as int) + s.take(i as int)).push(
            s[i as int],
        ));
        i = i + 1;
    }
    assert(rotated@ =~= turned);
    let mut taken: Vec<i64> = Vec::new();
    let mut j: usize = 0;
    while j < n && rotated[j] != memento
        invariant
            n == turned.len(),
            rotated@ == turned,
            j <= n,
            taken@ == turned.take(j as int),
            forall|t: int| 0 <= t < j ==> !equal_to(memento)(#[trigger] turned[t]),
        decreases n - j,
    {
        taken.push(rotated[j]);
        assert(turned.take(j + 1) =~= turned.take(j as int).push(turned[j as int]));
        j = j + 1;
    }
    proof {
        lemma_first_index_at(turned, equal_to(memento), j as int);
    }
    if j == n {
        VisitOrder::Endless(rotated)
    } else {
        taken.push(memento);
        VisitOrder::Finite(taken)
    }
}


/// Filtering keeps a sequence whole when every element passes, and empties it when none does.
pub proof fn lemma_filter_whole_or_empty(s: Seq<i64>, p: spec_fn(i64) -> bool)
    ensures
        (forall|i: int| 0 <= i < s.len() ==> p(#[trigger] s[i])) ==> s.filter(p) == s,
        (forall|i: int| 0 <= i < s.len() ==> !p(#[trigger] s[i])) ==> s.filter(p) == Seq::<
            i64,
        >::empty(),
    decreases s.len(),
{
    reveal(Seq::filter);
    if s.len() > 0 {
        let rest = s.drop_last();
        lemma_filter_whole_or_empty(rest, p);
        if forall|i: int| 0 <= i < s.len() ==> p(#[trigger] s[i]) {
            assert(forall|i: int| 0 <= i < rest.len() ==> p(#[trigger] rest[i])) by {
                assert forall|i: int| 0 <= i < rest.len() implies p(#[trigger] rest[i]) by {
                    assert(rest[i] == s[i]);
                }
            }
            assert(p(s[s.len() - 1]));
            assert(rest.push(s.last()) =~= s);
        }
        if forall|i: int| 0 <= i < s.len() ==> !p(#[trigger] s[i]) {
            assert(forall|i: int| 0 <= i < rest.len() ==> !p(#[trigger] rest[i])) by {
                assert forall|i: int| 0 <= i < rest.len() implies !p(#[trigger] rest[i]) by {
                    assert(rest[i] == s[i]);
                }
            }
            assert(!p(s[s.len() - 1]));
        }
    }
}

/// Resuming after a memento that is one of the ids (in ascending order) and below the
/// largest of them, a pass visits the ids above the memento, then the ids below it, then
/// the memento, and ends: every id other than the memento comes before it.
pub proof fn lemma_resume_after_memento(s: Seq<i64>, m: i64)
    requires
        is_ascending(s),
        s.contains(m),
        exists|i: int| 0 <= i < s.len() && s[i] > m,
    ensures
        visit_order_spec(s, m) == VisitShape::Finite(
            s.filter(above(m)) + s.filter(below(m)).push(m),
        ),
{
    let n = s.len();
    let k = first_index(s, above(m)) as int;
    lemma_first_index(s, above(m));
    let w = choose|i: int| 0 <= i < s.len() && s[i] > m;
    if k == n {
        assert(!above(m)(s[w]));
    }
    assert(k < n);
    assert(s[k] > m);
    let q = choose|i: int| 0 <= i < s.len() && s[i] == m;
    if q >= k {
        assert(s[k] <= s[q]);
    }
    assert(q < k);
    let p = first_index(s, equal_to(m)) as int;
    lemma_first_index(s, equal_to(m));
    if p > q {
        assert(!equal_to(m)(s[q]));
    }
    assert(p <= q);
    assert(s[p] == m);
    let turned = rotation(s, k);
    assert(turned.len() == n);
    assert forall|t: int| 0 <= t < n - k + p implies !equal_to(m)(#[trigger] turned[t]) by {
        if t < n - k {
            assert(turned[t] == s[k + t]);
            assert(s[k] <= s[k + t]);
        } else {
            assert(turned[t] == s[t - (n - k)]);
            assert(!equal_to(m)(s[t - (n - k)]));
        }
    }
    assert(turned[n - k + p] == s[p]);
    lemma_first_index_at(turned, equal_to(m), n - k + p);
    assert(turned.take(n - k + p) =~= s.skip(k) + s.take(p));
    let low = s.take(p);
    let mid = s.subrange(p, k);
    let high = s.skip(k);
    assert(s =~= low + mid + high);
    assert forall|i: int| 0 <= i < low.len() implies #[trigger] low[i] < m by {
        assert(low[i] == s[i]);
        assert(!above(m)(s[i]));
        assert(!equal_to(m)(s[i]));
    }
    assert forall|i: int| 0 <= i < mid.len() implies #[trigger] mid[i] == m by {
        assert(mid[i] == s[p + i]);
        assert(s[p] <= s[p + i]);
        assert(!above(m)(s[p + i]));
    }
    assert forall|i: int| 0 <= i < high.len() implies #[trigger] high[i] > m by {
        assert(high[i] == s[k + i]);
        assert(s[k] <= s[k + i]);
    }
    lemma_filter_whole_or_empty(low, above(m));
    lemma_filter_whole_or_empty(low, below(m));
    lemma_filter_whole_or_empty(mid, above(m));
    lemma_filter_whole_or_empty(mid, below(m));
    lemma_filter_whole_or_empty(high, above(m));
    lemma_filter_whole_or_empty(high, below(m));
    Seq::filter_distributes_over_add(low + mid, high, above(m));
    Seq::filter_distributes_over_add(low, mid, above(m));
    Seq::filter_distributes_over_add(low + mid, high, below(m));
    Seq::filter_distributes_over_add(low, mid, below(m));
    assert(s.filter(above(m)) =~= high);
    assert(s.filter(below(m)) =~= low);
}


/// Resuming after a memento that is not one of the ids (in ascending order) but below the
/// largest of them, a pass visits the ids above the memento, then the ids below it, and
/// starts over, forever.
pub proof fn lemma_resume_after_absent_memento(s: Seq<i64>, m: i64)
    requires
        is_ascending(s),
        !s.contains(m),
        exists|i: int| 0 <= i < s.len() && s[i] > m,
    ensures
        visit_order_spec(s, m) == VisitShape::Endless(s.filter(above(m)) + s.filter(below(m))),
{
    let n = s.len();
    let k = first_index(s, above(m)) as int;
    lemma_first_index(s, above(m));
    let w = choose|i: int| 0 <= i < s.len() && s[i] > m;
    if k == n {
        assert(!above(m)(s[w]));
    }
    assert(k < n);
    let turned = rotation(s, k);
    assert(turned.len() == n);
    assert forall|t: int| 0 <= t < n implies !equal_to(m)(#[trigger] turned[t]) by {
        let i = if t < n - k { k + t } else { t - (n - k) };
        assert(turned[t] == s[i]);
        if s[i] == m {
            assert(s.contains(m));
        }
    }
    lemma_first_index_at(turned, equal_to(m), n as int);
    let low = s.take(k);
    let high = s.skip(k);
    assert(s =~= low + high);
    assert forall|i: int| 0 <= i < low.len() implies #[trigger] low[i] < m by {
        assert(low[i] == s[i]);
        assert(!above(m)(s[i]));
        if s[i] == m {
            assert(s.contains(m));
        }
    }
    assert forall|i: int| 0 <= i < high.len() implies #[trigger] high[i] > m by {
        assert(high[i] == s[k + i]);
        assert(s[k] <= s[k + i]);
    }
    lemma_filter_whole_or_empty(low, above(m));
    lemma_filter_whole_or_empty(low, below(m));
    lemma_filter_whole_or_empty(high, above(m));
    lemma_filter_whole_or_empty(high, below(m));
    Seq::filter_distributes_over_add(low, high, above(m));
    Seq::filter_distributes_over_add(low, high, below(m));
    assert(s.filter(above(m)) =~= high);
    assert(s.filter(below(m)) =~= low);
}


/// Without ids, a pass visits the memento alone.
pub proof fn law_visit_order_without_ids(m: i64)
    ensures
        visit_order_spec(Seq::<i64>::empty(), m) == VisitShape::Finite(seq![m]),
{
}

/// When no id is above the memento, skipping the ids not above it never ends.
pub proof fn law_visit_order_stalls(s: Seq<i64>, m: i64)
    requires
        s.len() > 0,
        forall|i: int| 0 <= i < s.len() ==> s[i] <= m,
    ensures
        visit_order_spec(s, m) == VisitShape::Stalled,
{
    lemma_first_index_at(s, above(m), s.len() as int);
}

/// With `k` the first index of an id above the memento, a pass reads the cycle through the
/// ids from `k` on (element `t` is id `(k + t) mod n`). Where the memento is among the ids,
/// it takes the cycle up to (not including) the first memento, then the memento, and ends;
/// otherwise it reads the cycle forever.
pub proof fn law_visit_order_reads_the_cycle(s: Seq<i64>, m: i64, k: int)
    requires
        0 <= k < s.len(),
        s[k] > m,
        forall|i: int| 0 <= i < k ==> s[i] <= m,
    ensures
        match visit_order_spec(s, m) {
            VisitShape::Finite(v) => {
                &&& s.contains(m)
                &&& 1 <= v.len() <= s.len()
                &&& v.last() == m
                &&& s[(k + v.len() - 1) % (s.len() as int)] == m
                &&& forall|t: int|
                    0 <= t < v.len() - 1 ==> #[trigger] v[t] == s[(k + t) % (s.len() as int)] && v[t]
                        != m
            },
            VisitShape::Endless(v) => {
                &&& !s.contains(m)
                &&& v.len() == s.len()
                &&& forall|t: int| 0 <= t < v.len() ==> #[trigger] v[t] == s[(k + t) % (s.len() as int)]
            },
            VisitShape::Stalled => false,
        },
{
    let n = s.len() as int;
    assert forall|i: int| 0 <= i < k implies !above(m)(#[trigger] s[i]) by {}
    lemma_first_index_at(s, above(m), k);
    let turned = rotation(s, k);
    lemma_rotation_is_cycle(s, k);
    let j = first_index(turned, equal_to(m)) as int;
    lemma_first_index(turned, equal_to(m));
    if j == n {
        if s.contains(m) {
            let i = choose|i: int| 0 <= i < n && s[i] == m;
            let t = if i >= k { i - k } else { n - k + i };
            assert(turned[t] == s[i]);
            assert(!equal_to(m)(turned[t]));
        }
    } else {
        let v = turned.take(j).push(m);
        assert(turned[j] == m);
        assert(s[(k + j) % n] == m);
        assert(0 <= (k + j) % n < n) by (nonlinear_arith)
            requires n > 0;
        assert(s.contains(m));
        assert(v.len() - 1 == j);
        assert forall|t: int| 0 <= t < v.len() - 1 implies #[trigger] v[t] == s[(k + t) % n] && v[t]
            != m by {
            assert(v[t] == turned[t]);
            assert(!equal_to(m)(turned[t]));
        }
    }
}

} // verus!
