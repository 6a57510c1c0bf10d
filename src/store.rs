//! Aggregation queries over telemetry records.
//!
//! Records are read from storage fresh for every query; these functions
//! compute the dashboard figures from what was read.
use vstd::prelude::*;
use crate::errors::{contains_seq, contains_str};
use crate::records::{day_of, day_of_millis, parse_day, ce_day_of, ClickLog, RequestLog, UNIX_EPOCH_CE_DAY};

verus! {

/// The text values of a sequence of strings.
pub open spec fn views(v: Seq<String>) -> Seq<Seq<char>> {
    v.map_values(|s: String| s@)
}

/// Whether a request record falls on the given Unix day.
pub open spec fn request_on_day(r: RequestLog, day: int) -> bool {
    day_of(r.timestamp as int) == day
}

/// The records that fall on the given Unix day, in their order.
pub open spec fn requests_on_day(recs: Seq<RequestLog>, day: int) -> Seq<RequestLog> {
    recs.filter(|r: RequestLog| request_on_day(r, day))
}

/// The records counted for a day are exactly those whose timestamp falls
/// within it: each counted record lies on that day, and every record of that
/// day is counted. A record of the next day is never counted.
pub proof fn lemma_day_selection_exact(recs: Seq<RequestLog>, day: int)
    ensures
        forall|i: int|
            0 <= i < requests_on_day(recs, day).len() ==> request_on_day(
                #[trigger] requests_on_day(recs, day)[i],
                day,
            ),
        forall|k: int|
            0 <= k < recs.len() && request_on_day(#[trigger] recs[k], day) ==> requests_on_day(
                recs,
                day,
            ).contains(recs[k]),
        forall|k: int|
            0 <= k < recs.len() && request_on_day(#[trigger] recs[k], day + 1) ==> !requests_on_day(
                recs,
                day,
            ).contains(recs[k]),
{
    let pred = |r: RequestLog| request_on_day(r, day);
    assert forall|i: int| 0 <= i < requests_on_day(recs, day).len() implies request_on_day(
        #[trigger] requests_on_day(recs, day)[i],
        day,
    ) by {
        recs.lemma_filter_pred(pred, i);
    }
    assert forall|k: int| 0 <= k < recs.len() && request_on_day(#[trigger] recs[k], day) implies requests_on_day(
        recs,
        day,
    ).contains(recs[k]) by {
        recs.lemma_filter_contains(pred, k);
    }
    assert forall|k: int| 0 <= k < recs.len() && request_on_day(#[trigger] recs[k], day + 1) implies !requests_on_day(
        recs,
        day,
    ).contains(recs[k]) by {
        if requests_on_day(recs, day).contains(recs[k]) {
            let i = choose|i: int| 0 <= i < requests_on_day(recs, day).len() && requests_on_day(recs, day)[i] == recs[k];
            recs.lemma_filter_pred(pred, i);
        }
    }
}

/// The sum of the response times of a sequence of records.
pub open spec fn total_response_time(recs: Seq<RequestLog>) -> nat
    decreases recs.len(),
{
    if recs.len() == 0 {
        0
    } else {
        (total_response_time(recs.drop_last()) + recs.last().response_time_ms) as nat
    }
}

/// The set of client addresses of a sequence of records.
pub open spec fn request_clients(recs: Seq<RequestLog>) -> Set<Seq<char>> {
    recs.map_values(|r: RequestLog| r.ip_address@).to_set()
}

/// The mean of `total` over `count` items, rounded down; 0 for no items.
pub open spec fn mean(total: int, count: int) -> int {
    if count == 0 { 0 } else { total / count }
}

/// Totals for the requests of one day.
pub struct RequestStats {
    pub total_requests: usize,
    pub total_response_time_ms: u128,
    /// Mean response time in milliseconds, rounded down.
    pub avg_response_time_ms: u128,
    pub distinct_client_count: usize,
}

impl RequestStats {
    /// Whether these are the totals of exactly the given records.
    pub open spec fn describes(&self, recs: Seq<RequestLog>) -> bool {
        &&& self.total_requests == recs.len()
        &&& self.total_response_time_ms == total_response_time(recs)
        &&& self.avg_response_time_ms == mean(total_response_time(recs) as int, recs.len() as int)
        &&& self.distinct_client_count == request_clients(recs).len()
    }
}

/// Whether `s` occurs among the strings of `v`.
pub fn contains_text(v: &Vec<String>, s: &String) -> (r: bool)
    ensures
        r == views(v@).contains(s@),
{
    let mut i: usize = 0;
    while i < v.len()
        invariant
            i <= v.len(),
            forall|k: int| 0 <= k < i ==> v@[k]@ != s@,
        decreases v.len() - i,
    {
        if v[i] == *s {
            assert(views(v@)[i as int] == s@);
            return true;
        }
        i = i + 1;
    }
    assert(!views(v@).contains(s@)) by {
        assert forall|k: int| 0 <= k < views(v@).len() implies views(v@)[k] != s@ by {
            assert(views(v@)[k] == v@[k]@);
        }
    }
    false
}

proof fn lemma_total_bound(recs: Seq<RequestLog>)
    ensures
        total_response_time(recs) <= recs.len() * (u64::MAX as int),
    decreases recs.len(),
{
    if recs.len() > 0 {
        lemma_total_bound(recs.drop_last());
        assert(total_response_time(recs.drop_last()) + recs.last().response_time_ms
            <= (recs.len() - 1) * (u64::MAX as int) + u64::MAX) by (nonlinear_arith)
            requires
                total_response_time(recs.drop_last()) <= (recs.len() - 1) * (u64::MAX as int),
                recs.last().response_time_ms <= u64::MAX,
        ;
        assert((recs.len() - 1) * (u64::MAX as int) + u64::MAX == recs.len() * (u64::MAX as int))
            by (nonlinear_arith);
    }
}

/// Computes the totals for the records that fall on the given Unix day.
///
/// Only records whose timestamp lies within that calendar day (UTC) count.
pub fn stats_for_day(records: &Vec<RequestLog>, day: i64) -> (r: RequestStats)
    ensures
        r.describes(requests_on_day(records@, day as int)),
{
    let mut count: usize = 0;
    let mut total: u128 = 0;
    let mut seen: Vec<String> = Vec::new();
    let mut i: usize = 0;
    while i < records.len()
        invariant
            i <= records.len(),
            count == requests_on_day(records@.subrange(0, i as int), day as int).len(),
            total == total_response_time(requests_on_day(records@.subrange(0, i as int), day as int)),
            views(seen@).no_duplicates(),
            views(seen@).to_set() == request_clients(
                requests_on_day(records@.subrange(0, i as int), day as int),
            ),
        decreases records.len() - i,
    {
        let ghost prev = records@.subrange(0, i as int);
        let ghost next = records@.subrange(0, i as int + 1);
        proof {
            assert(next.drop_last() == prev);
            assert(next.last() == records@[i as int]);
            reveal(Seq::filter);
            assert(requests_on_day(next, day as int) == if request_on_day(records@[i as int], day as int) {
                requests_on_day(prev, day as int).push(records@[i as int])
            } else {
                requests_on_day(prev, day as int)
            });
            lemma_total_bound(requests_on_day(prev, day as int));
            prev.lemma_filter_len(|r: RequestLog| request_on_day(r, day as int));
        }
        let rec = &records[i];
        if day_of_millis(rec.timestamp) == day {
            proof {
                let m = requests_on_day(prev, day as int);
                let m2 = m.push(*rec);
                assert(m2.drop_last() == m);
                assert(m2.last() == *rec);
                assert(m.len() <= prev.len());
                assert(total_response_time(m) + rec.response_time_ms <= u128::MAX) by (nonlinear_arith)
                    requires
                        total_response_time(m) <= m.len() * (u64::MAX as int),
                        m.len() < usize::MAX,
                        rec.response_time_ms <= u64::MAX,
                        usize::MAX <= u64::MAX,
                ;
                assert(request_clients(m2) == request_clients(m).insert(rec.ip_address@)) by {
                    assert(m2.map_values(|r: RequestLog| r.ip_address@) == m.map_values(
                        |r: RequestLog| r.ip_address@,
                    ).push(rec.ip_address@));
                    lemma_push_to_set(
                        m.map_values(|r: RequestLog| r.ip_address@),
                        rec.ip_address@,
                    );
                }
            }
            count = count + 1;
            total = total + rec.response_time_ms as u128;
            if !contains_text(&seen, &rec.ip_address) {
                let ghost old_seen = seen@;
                seen.push(rec.ip_address.clone());
                proof {
                    assert(views(seen@) == views(old_seen).push(rec.ip_address@));
                    lemma_push_to_set(views(old_seen), rec.ip_address@);
                }
            }
        }
        i = i + 1;
    }
    proof {
        assert(records@.subrange(0, records.len() as int) == records@);
        views(seen@).unique_seq_to_set();
    }
    let avg: u128 = if count == 0 { 0 } else { total / (count as u128) };
    RequestStats {
        total_requests: count,
        total_response_time_ms: total,
        avg_response_time_ms: avg,
        distinct_client_count: seen.len(),
    }
}

/// Pushing an item adds it to the set of the sequence.
proof fn lemma_push_to_set<A>(s: Seq<A>, x: A)
    ensures
        s.push(x).to_set() == s.to_set().insert(x),
{
    assert(s.push(x).to_set() =~= s.to_set().insert(x)) by {
        assert forall|y: A| s.to_set().insert(x).contains(y) implies s.push(x).to_set().contains(y) by {
            if y == x {
                assert(s.push(x)[s.len() as int] == x);
            } else {
                let k = choose|k: int| 0 <= k < s.len() && s[k] == y;
                assert(s.push(x)[k] == y);
            }
        }
        assert forall|y: A| s.push(x).to_set().contains(y) implies s.to_set().insert(x).contains(y) by {
            let k = choose|k: int| 0 <= k < s.push(x).len() && s.push(x)[k] == y;
            if k < s.len() {
                assert(s[k] == y);
            }
        }
    }
}

/// Computes the totals for a `%Y-%m-%d` date; `None` where the text is no
/// date. Only records whose timestamp lies within that calendar day (UTC)
/// count: a record of the next day never does.
pub fn stats_for_date(records: &Vec<RequestLog>, date: &str) -> (r: Option<RequestStats>)
    ensures
        ce_day_of(date@) is None ==> r is None,
        ce_day_of(date@) matches Some(d) ==> r matches Some(st) && st.describes(
            requests_on_day(records@, d - UNIX_EPOCH_CE_DAY),
        ),
{
    match parse_day(date) {
        Some(day) => Some(stats_for_day(records, day)),
        None => None,
    }
}

/// The client filter of a click query, as text.
pub open spec fn client_view(client: Option<&str>) -> Option<Seq<char>> {
    match client {
        Some(c) => Some(c@),
        None => None,
    }
}

/// Whether a click passes the client filter.
pub open spec fn click_selected(c: ClickLog, client: Option<Seq<char>>) -> bool {
    match client {
        Some(a) => c.ip_address@ == a,
        None => true,
    }
}

/// The elements of the selected clicks, each once, in the order in which
/// each was first clicked.
pub open spec fn seen_elements(clicks: Seq<ClickLog>, client: Option<Seq<char>>) -> Seq<Seq<char>>
    decreases clicks.len(),
{
    if clicks.len() == 0 {
        Seq::empty()
    } else {
        let prev = seen_elements(clicks.drop_last(), client);
        let c = clicks.last();
        if click_selected(c, client) && !prev.contains(c.element@) {
            prev.push(c.element@)
        } else {
            prev
        }
    }
}

/// The selected clicks on one element.
pub open spec fn clicks_on(clicks: Seq<ClickLog>, client: Option<Seq<char>>, element: Seq<char>) -> Seq<
    ClickLog,
> {
    clicks.filter(|c: ClickLog| click_selected(c, client) && c.element@ == element)
}

/// The set of client addresses of a sequence of clicks.
pub open spec fn click_clients(clicks: Seq<ClickLog>) -> Set<Seq<char>> {
    clicks.map_values(|c: ClickLog| c.ip_address@).to_set()
}

/// Clicks on one UI element.
pub struct ClickStat {
    pub element: String,
    pub click_count: usize,
    pub distinct_client_count: usize,
}

/// Whether `a` comes before `b` in a click ranking: more clicks first, and
/// among equal counts the element that was clicked first.
pub open spec fn ranks_before(groups: Seq<Seq<char>>, a: ClickStat, b: ClickStat) -> bool {
    ||| a.click_count > b.click_count
    ||| (a.click_count == b.click_count && exists|x: int, y: int|
        0 <= x < y < groups.len() && #[trigger] groups[x] == a.element@ && #[trigger] groups[y]
            == b.element@)
}

/// Whether `st` holds the figures of one element among the selected clicks.
pub open spec fn describes_element(
    st: ClickStat,
    clicks: Seq<ClickLog>,
    client: Option<Seq<char>>,
) -> bool {
    &&& st.click_count == clicks_on(clicks, client, st.element@).len()
    &&& st.distinct_client_count == click_clients(clicks_on(clicks, client, st.element@)).len()
}

/// The distinct elements of the selected clicks, in first-click order.
fn elements_in_order(clicks: &Vec<ClickLog>, client: Option<&str>) -> (r: Vec<String>)
    ensures
        views(r@) == seen_elements(clicks@, client_view(client)),
        views(r@).no_duplicates(),
{
    let ghost cl = client_view(client);
    let wanted: Option<String> = match client {
        Some(a) => Some(a.to_owned()),
        None => None,
    };
    let mut elems: Vec<String> = Vec::new();
    let mut i: usize = 0;
    while i < clicks.len()
        invariant
            i <= clicks.len(),
            cl == client_view(client),
            wanted matches Some(w) ==> cl == Some(w@),
            wanted is None ==> cl is None,
            views(elems@) == seen_elements(clicks@.subrange(0, i as int), cl),
            views(elems@).no_duplicates(),
        decreases clicks.len() - i,
    {
        let ghost prev = clicks@.subrange(0, i as int);
        let ghost next = clicks@.subrange(0, i as int + 1);
        proof {
            assert(next.drop_last() == prev);
            assert(next.last() == clicks@[i as int]);
        }
        let c = &clicks[i];
        let selected = match &wanted {
            Some(a) => c.ip_address == *a,
            None => true,
        };
        if selected && !contains_text(&elems, &c.element) {
            let ghost before = elems@;
            elems.push(c.element.clone());
            proof {
                assert(views(elems@) == views(before).push(c.element@));
            }
        }
        i = i + 1;
    }
    proof {
        assert(clicks@.subrange(0, clicks.len() as int) == clicks@);
    }
    elems
}

/// The number of selected clicks on one element, and of distinct clients
/// among them.
fn element_totals(clicks: &Vec<ClickLog>, client: Option<&str>, element: &String) -> (r: (
    usize,
    usize,
))
    ensures
        r.0 == clicks_on(clicks@, client_view(client), element@).len(),
        r.1 == click_clients(clicks_on(clicks@, client_view(client), element@)).len(),
{
    let ghost cl = client_view(client);
    let wanted: Option<String> = match client {
        Some(a) => Some(a.to_owned()),
        None => None,
    };
    let mut count: usize = 0;
    let mut seen: Vec<String> = Vec::new();
    let mut i: usize = 0;
    while i < clicks.len()
        invariant
            i <= clicks.len(),
            cl == client_view(client),
            wanted matches Some(w) ==> cl == Some(w@),
            wanted is None ==> cl is None,
            count == clicks_on(clicks@.subrange(0, i as int), cl, element@).len(),
            views(seen@).no_duplicates(),
            views(seen@).to_set() == click_clients(
                clicks_on(clicks@.subrange(0, i as int), cl, element@),
            ),
        decreases clicks.len() - i,
    {
        let ghost prev = clicks@.subrange(0, i as int);
        let ghost next = clicks@.subrange(0, i as int + 1);
        proof {
            assert(next.drop_last() == prev);
            assert(next.last() == clicks@[i as int]);
            reveal(Seq::filter);
            prev.lemma_filter_len(
                |c: ClickLog| click_selected(c, cl) && c.element@ == element@,
            );
            let c = clicks@[i as int];
            assert(clicks_on(next, cl, element@) == if click_selected(c, cl) && c.element@
                == element@ {
                clicks_on(prev, cl, element@).push(c)
            } else {
                clicks_on(prev, cl, element@)
            });
        }
        let c = &clicks[i];
        let selected = match &wanted {
            Some(a) => c.ip_address == *a,
            None => true,
        };
        if selected && c.element == *element {
            proof {
                let m = clicks_on(prev, cl, element@);
                let m2 = m.push(*c);
                assert(m2.map_values(|x: ClickLog| x.ip_address@) == m.map_values(
                    |x: ClickLog| x.ip_address@,
                ).push(c.ip_address@));
                lemma_push_to_set(m.map_values(|x: ClickLog| x.ip_address@), c.ip_address@);
            }
            count = count + 1;
            if !contains_text(&seen, &c.ip_address) {
                let ghost old_seen = seen@;
                seen.push(c.ip_address.clone());
                proof {
                    assert(views(seen@) == views(old_seen).push(c.ip_address@));
                    lemma_push_to_set(views(old_seen), c.ip_address@);
                }
            }
        }
        i = i + 1;
    }
    proof {
        assert(clicks@.subrange(0, clicks.len() as int) == clicks@);
        views(seen@).unique_seq_to_set();
    }
    (count, seen.len())
}

/// Whether the group at index `a` is ranked before the group at index `b`:
/// more clicks first, then first-seen order.
spec fn index_before(stats: Seq<ClickStat>, a: int, b: int) -> bool {
    ||| stats[a].click_count > stats[b].click_count
    ||| (stats[a].click_count == stats[b].click_count && a < b)
}

/// Ranks the indices of `stats` by click count, descending; groups with
/// equal counts keep their order.
fn rank_groups(stats: &Vec<ClickStat>) -> (order: Vec<usize>)
    ensures
        order.len() == stats.len(),
        forall|j: int| 0 <= j < order.len() ==> order[j] < stats.len(),
        forall|j: int, k: int|
            0 <= j < k < order.len() ==> index_before(stats@, order[j] as int, order[k] as int),
{
    let mut order: Vec<usize> = Vec::new();
    let mut g: usize = 0;
    while g < stats.len()
        invariant
            g <= stats.len(),
            order.len() == g,
            forall|j: int| 0 <= j < order.len() ==> order[j] < g,
            forall|j: int, k: int|
                0 <= j < k < order.len() ==> index_before(stats@, order[j] as int, order[k] as int),
        decreases stats.len() - g,
    {
        let count = stats[g].click_count;
        let mut p: usize = 0;
        while p < order.len() && stats[order[p]].click_count >= count
            invariant
                p <= order.len(),
                g < stats.len(),
                order.len() == g,
                forall|j: int, k: int|
                    0 <= j < k < order.len() ==> index_before(stats@, order[j] as int, order[k] as int),
                count == stats@[g as int].click_count,
                forall|j: int| 0 <= j < order.len() ==> order[j] < g,
                forall|j: int| 0 <= j < p ==> stats@[order[j] as int].click_count >= count,
            decreases order.len() - p,
        {
            p = p + 1;
        }
        proof {
            assert forall|j: int| p <= j < order.len() implies stats@[order[j] as int].click_count
                < count by {
                if j > p {
                    assert(index_before(stats@, order[p as int] as int, order[j] as int));
                }
            }
        }
        let ghost before = order@;
        order.insert(p, g);
        proof {
            assert forall|j: int, k: int| 0 <= j < k < order.len() implies index_before(
                stats@,
                order[j] as int,
                order[k] as int,
            ) by {
                if k < p {
                    assert(order[j] == before[j] && order[k] == before[k]);
                } else if k == p {
                    assert(order[j] == before[j]);
                } else if j < p {
                    assert(order[j] == before[j] && order[k] == before[k - 1]);
                } else if j == p {
                    assert(order[k] == before[k - 1]);
                } else {
                    assert(order[j] == before[j - 1] && order[k] == before[k - 1]);
                }
            }
        }
        g = g + 1;
    }
    order
}

/// Click counts per UI element, optionally for one client only, sorted by
/// click count, descending; elements with equal counts come in the order in
/// which each was first clicked.
pub fn click_stats(clicks: &Vec<ClickLog>, client: Option<&str>) -> (r: Vec<ClickStat>)
    ensures
        r.len() == seen_elements(clicks@, client_view(client)).len(),
        forall|i: int|
            0 <= i < r.len() ==> seen_elements(clicks@, client_view(client)).contains(
                #[trigger] r[i].element@,
            ) && describes_element(r[i], clicks@, client_view(client)),
        forall|i: int, j: int|
            0 <= i < j < r.len() ==> ranks_before(
                seen_elements(clicks@, client_view(client)),
                r[i],
                r[j],
            ),
{
    let ghost cl = client_view(client);
    let ghost groups = seen_elements(clicks@, cl);
    let elems = elements_in_order(clicks, client);
    let mut stats: Vec<ClickStat> = Vec::new();
    let mut k: usize = 0;
    while k < elems.len()
        invariant
            k <= elems.len(),
            cl == client_view(client),
            views(elems@) == groups,
            stats.len() == k,
            forall|q: int|
                0 <= q < k ==> (#[trigger] stats@[q]).element@ == groups[q] && describes_element(
                    stats@[q],
                    clicks@,
                    cl,
                ),
        decreases elems.len() - k,
    {
        let (n, d) = element_totals(clicks, client, &elems[k]);
        let ghost old_stats = stats@;
        stats.push(
            ClickStat { element: elems[k].clone(), click_count: n, distinct_client_count: d },
        );
        proof {
            assert(views(elems@)[k as int] == elems@[k as int]@);
            assert(stats@[k as int].element@ == elems@[k as int]@);
            assert(describes_element(stats@[k as int], clicks@, cl));
            assert forall|q: int| 0 <= q < k implies stats@[q] == old_stats[q] by {}
        }
        k = k + 1;
    }
    let order = rank_groups(&stats);
    let mut r: Vec<ClickStat> = Vec::new();
    let mut i: usize = 0;
    while i < order.len()
        invariant
            i <= order.len(),
            order.len() == stats.len(),
            stats.len() == groups.len(),
            forall|j: int| 0 <= j < order.len() ==> order[j] < stats.len(),
            r.len() == i,
            forall|q: int|
                0 <= q < i ==> (#[trigger] r@[q]).element@ == stats@[order[q] as int].element@
                    && r@[q].click_count == stats@[order[q] as int].click_count
                    && r@[q].distinct_client_count == stats@[order[q] as int].distinct_client_count,
        decreases order.len() - i,
    {
        let st = &stats[order[i]];
        r.push(
            ClickStat {
                element: st.element.clone(),
                click_count: st.click_count,
                distinct_client_count: st.distinct_client_count,
            },
        );
        i = i + 1;
    }
    proof {
        assert forall|i: int| 0 <= i < r.len() implies groups.contains(#[trigger] r[i].element@)
            && describes_element(r[i], clicks@, cl) by {
            let q = order[i] as int;
            assert(stats@[q].element@ == groups[q]);
        }
        assert forall|i: int, j: int| 0 <= i < j < r.len() implies ranks_before(
            groups,
            r[i],
            r[j],
        ) by {
            let x = order[i] as int;
            let y = order[j] as int;
            assert(stats@[x].element@ == groups[x]);
            assert(stats@[y].element@ == groups[y]);
            assert(index_before(stats@, x, y));
        }
    }
    r
}

/// The records of one client, in their stored order.
pub open spec fn requests_of(recs: Seq<RequestLog>, ip: Seq<char>) -> Seq<RequestLog> {
    recs.filter(|r: RequestLog| r.ip_address@ == ip)
}

/// All records of one client address.
pub fn requests_by_client(records: &Vec<RequestLog>, ip: &str) -> (r: Vec<RequestLog>)
    ensures
        r@ == requests_of(records@, ip@),
{
    let wanted = ip.to_owned();
    let mut out: Vec<RequestLog> = Vec::new();
    let mut i: usize = 0;
    while i < records.len()
        invariant
            i <= records.len(),
            wanted@ == ip@,
            out@ == requests_of(records@.subrange(0, i as int), ip@),
        decreases records.len() - i,
    {
        let ghost prev = records@.subrange(0, i as int);
        let ghost next = records@.subrange(0, i as int + 1);
        proof {
            assert(next.drop_last() == prev);
            assert(next.last() == records@[i as int]);
            reveal(Seq::filter);
        }
        if records[i].ip_address == wanted {
            out.push(records[i].duplicate());
        }
        i = i + 1;
    }
    proof {
        assert(records@.subrange(0, records.len() as int) == records@);
    }
    out
}

/// The client addresses that occur among the records, each once, in the
/// order in which each first occurs.
pub fn distinct_client_addresses(records: &Vec<RequestLog>) -> (r: Vec<String>)
    ensures
        views(r@).no_duplicates(),
        views(r@).to_set() == request_clients(records@),
{
    let mut seen: Vec<String> = Vec::new();
    let mut i: usize = 0;
    while i < records.len()
        invariant
            i <= records.len(),
            views(seen@).no_duplicates(),
            views(seen@).to_set() == request_clients(records@.subrange(0, i as int)),
        decreases records.len() - i,
    {
        let ghost prev = records@.subrange(0, i as int);
        let ghost next = records@.subrange(0, i as int + 1);
        let ip = &records[i].ip_address;
        proof {
            assert(next == prev.push(records@[i as int]));
            assert(next.map_values(|r: RequestLog| r.ip_address@) == prev.map_values(
                |r: RequestLog| r.ip_address@,
            ).push(ip@));
            lemma_push_to_set(prev.map_values(|r: RequestLog| r.ip_address@), ip@);
        }
        if !contains_text(&seen, ip) {
            let ghost old_seen = seen@;
            seen.push(ip.clone());
            proof {
                assert(views(seen@) == views(old_seen).push(ip@));
                lemma_push_to_set(views(old_seen), ip@);
            }
        } else {
            proof {
                assert(views(seen@).to_set().insert(ip@) =~= views(seen@).to_set());
            }
        }
        i = i + 1;
    }
    proof {
        assert(records@.subrange(0, records.len() as int) == records@);
    }
    seen
}

/// Whether `days` is strictly increasing.
pub open spec fn strictly_increasing(days: Seq<i64>) -> bool {
    forall|j: int, k: int| 0 <= j < k < days.len() ==> days[j] < days[k]
}

/// The day numbers of a sequence of timestamps.
pub open spec fn stamp_days(stamps: Seq<i64>) -> Seq<int> {
    stamps.map_values(|t: i64| day_of(t as int))
}

/// The day numbers of a sequence of request records.
pub open spec fn request_days(recs: Seq<RequestLog>) -> Seq<int> {
    recs.map_values(|r: RequestLog| day_of(r.timestamp as int))
}

/// The days of a sequence of daily totals.
pub open spec fn totals_days(totals: Seq<DailyTotal>) -> Seq<i64> {
    totals.map_values(|t: DailyTotal| t.day)
}

/// The days on which the timestamps fall, each once, in ascending order.
fn days_ascending(stamps: &Vec<i64>) -> (r: Vec<i64>)
    ensures
        strictly_increasing(r@),
        forall|k: int| 0 <= k < stamps.len() ==> r@.contains(day_of(#[trigger] stamps[k] as int) as i64),
        forall|j: int| 0 <= j < r.len() ==> stamp_days(stamps@).contains(#[trigger] r[j] as int),
{
    let mut days: Vec<i64> = Vec::new();
    let mut i: usize = 0;
    while i < stamps.len()
        invariant
            i <= stamps.len(),
            strictly_increasing(days@),
            forall|k: int| 0 <= k < i ==> days@.contains(day_of(#[trigger] stamps[k] as int) as i64),
            forall|j: int|
                0 <= j < days.len() ==> exists|k: int|
                    0 <= k < i && day_of(stamps[k] as int) == #[trigger] days[j],
        decreases stamps.len() - i,
    {
        let d = day_of_millis(stamps[i]);
        let mut p: usize = 0;
        while p < days.len() && days[p] < d
            invariant
                p <= days.len(),
                strictly_increasing(days@),
                forall|j: int| 0 <= j < p ==> days[j] < d,
            decreases days.len() - p,
        {
            p = p + 1;
        }
        let ghost before = days@;
        if p < days.len() && days[p] == d {
            assert(days@[p as int] == d);
        } else {
            days.insert(p, d);
            proof {
                assert forall|j: int, k: int| 0 <= j < k < days.len() implies days[j] < days[k] by {
                    if k < p {
                        assert(days[j] == before[j] && days[k] == before[k]);
                    } else if k == p {
                        assert(days[j] == before[j]);
                    } else if j < p {
                        assert(days[j] == before[j] && days[k] == before[k - 1]);
                        assert(before[p as int] > d);
                    } else if j == p {
                        assert(days[k] == before[k - 1]);
                        assert(before[p as int] > d);
                        if k - 1 > p {
                            assert(before[p as int] < before[k - 1]);
                        }
                    } else {
                        assert(days[j] == before[j - 1] && days[k] == before[k - 1]);
                    }
                }
                assert(days@[p as int] == d);
                assert forall|k: int| 0 <= k < i implies days@.contains(
                    day_of(#[trigger] stamps[k] as int) as i64,
                ) by {
                    let x = day_of(stamps[k] as int) as i64;
                    let q = choose|q: int| 0 <= q < before.len() && before[q] == x;
                    if q < p {
                        assert(days@[q] == x);
                    } else {
                        assert(days@[q + 1] == x);
                    }
                }
                assert forall|j: int| 0 <= j < days.len() implies exists|k: int|
                    0 <= k < i + 1 && day_of(stamps[k] as int) == #[trigger] days[j] by {
                    if j < p {
                        assert(days[j] == before[j]);
                    } else if j == p {
                        assert(day_of(stamps[i as int] as int) == days[j]);
                    } else {
                        assert(days[j] == before[j - 1]);
                    }
                }
            }
        }
        i = i + 1;
    }
    proof {
        assert forall|j: int| 0 <= j < days.len() implies stamp_days(stamps@).contains(
            #[trigger] days[j] as int,
        ) by {
            let k = choose|k: int| 0 <= k < i && day_of(stamps[k] as int) == days[j];
            assert(stamp_days(stamps@)[k] == days[j]);
        }
    }
    days
}

/// The request totals of one day.
pub struct DailyTotal {
    /// Days since 1970-01-01, UTC.
    pub day: i64,
    pub stats: RequestStats,
}

/// Request totals for each day on which there is a record, in ascending order
/// of day.
pub fn daily_totals(records: &Vec<RequestLog>) -> (r: Vec<DailyTotal>)
    ensures
        strictly_increasing(totals_days(r@)),
        forall|k: int|
            0 <= k < records.len() ==> totals_days(r@).contains(
                day_of((#[trigger] records[k]).timestamp as int) as i64,
            ),
        forall|j: int|
            0 <= j < r.len() ==> request_days(records@).contains((#[trigger] r[j]).day as int),
        forall|j: int|
            0 <= j < r.len() ==> (#[trigger] r[j]).stats.describes(
                requests_on_day(records@, r[j].day as int),
            ),
{
    let mut stamps: Vec<i64> = Vec::new();
    let mut i: usize = 0;
    while i < records.len()
        invariant
            i <= records.len(),
            stamps.len() == i,
            forall|k: int| 0 <= k < i ==> stamps[k] == records[k].timestamp,
        decreases records.len() - i,
    {
        stamps.push(records[i].timestamp);
        i = i + 1;
    }
    let days = days_ascending(&stamps);
    let mut out: Vec<DailyTotal> = Vec::new();
    let mut j: usize = 0;
    while j < days.len()
        invariant
            j <= days.len(),
            out.len() == j,
            forall|q: int| 0 <= q < j ==> (#[trigger] out[q]).day == days[q],
            forall|q: int|
                0 <= q < j ==> (#[trigger] out[q]).stats.describes(
                    requests_on_day(records@, out[q].day as int),
                ),
        decreases days.len() - j,
    {
        let stats = stats_for_day(records, days[j]);
        out.push(DailyTotal { day: days[j], stats });
        j = j + 1;
    }
    proof {
        assert(totals_days(out@) == days@);
        assert forall|k: int| 0 <= k < records.len() implies totals_days(out@).contains(
            day_of((#[trigger] records[k]).timestamp as int) as i64,
        ) by {
            assert(stamps[k] == records[k].timestamp);
        }
        assert forall|j: int| 0 <= j < out.len() implies request_days(records@).contains(
            (#[trigger] out[j]).day as int,
        ) by {
            assert(out[j].day == days[j]);
            assert(stamp_days(stamps@).contains(days[j] as int));
            let k = choose|k: int| 0 <= k < stamps.len() && stamp_days(stamps@)[k] == days[j] as int;
            assert(stamps[k] == records[k].timestamp);
            assert(request_days(records@)[k] == days[j] as int);
        }
    }
    out
}

/// The clicks that fall on the given Unix day.
pub open spec fn clicks_on_day(clicks: Seq<ClickLog>, day: int) -> Seq<ClickLog> {
    clicks.filter(|c: ClickLog| day_of(c.timestamp as int) == day)
}

/// The day numbers of a sequence of clicks.
pub open spec fn click_days(clicks: Seq<ClickLog>) -> Seq<int> {
    clicks.map_values(|c: ClickLog| day_of(c.timestamp as int))
}

/// The click count of one day.
pub struct DailyClicks {
    /// Days since 1970-01-01, UTC.
    pub day: i64,
    pub total_clicks: usize,
}

/// The days of a sequence of daily click counts.
pub open spec fn click_totals_days(totals: Seq<DailyClicks>) -> Seq<i64> {
    totals.map_values(|t: DailyClicks| t.day)
}

fn clicks_for_day(clicks: &Vec<ClickLog>, day: i64) -> (r: usize)
    ensures
        r == clicks_on_day(clicks@, day as int).len(),
{
    let mut count: usize = 0;
    let mut i: usize = 0;
    while i < clicks.len()
        invariant
            i <= clicks.len(),
            count == clicks_on_day(clicks@.subrange(0, i as int), day as int).len(),
        decreases clicks.len() - i,
    {
        let ghost prev = clicks@.subrange(0, i as int);
        let ghost next = clicks@.subrange(0, i as int + 1);
        proof {
            assert(next.drop_last() == prev);
            assert(next.last() == clicks@[i as int]);
            reveal(Seq::filter);
            prev.lemma_filter_len(|c: ClickLog| day_of(c.timestamp as int) == day as int);
        }
        if day_of_millis(clicks[i].timestamp) == day {
            count = count + 1;
        }
        i = i + 1;
    }
    proof {
        assert(clicks@.subrange(0, clicks.len() as int) == clicks@);
    }
    count
}

/// Click counts for each day on which there is a click, in ascending order of
/// day.
pub fn daily_click_totals(clicks: &Vec<ClickLog>) -> (r: Vec<DailyClicks>)
    ensures
        strictly_increasing(click_totals_days(r@)),
        forall|k: int|
            0 <= k < clicks.len() ==> click_totals_days(r@).contains(
                day_of((#[trigger] clicks[k]).timestamp as int) as i64,
            ),
        forall|j: int|
            0 <= j < r.len() ==> click_days(clicks@).contains((#[trigger] r[j]).day as int),
        forall|j: int|
            0 <= j < r.len() ==> (#[trigger] r[j]).total_clicks == clicks_on_day(
                clicks@,
                r[j].day as int,
            ).len(),
{
    let mut stamps: Vec<i64> = Vec::new();
    let mut i: usize = 0;
    while i < clicks.len()
        invariant
            i <= clicks.len(),
            stamps.len() == i,
            forall|k: int| 0 <= k < i ==> stamps[k] == clicks[k].timestamp,
        decreases clicks.len() - i,
    {
        stamps.push(clicks[i].timestamp);
        i = i + 1;
    }
    let days = days_ascending(&stamps);
    let mut out: Vec<DailyClicks> = Vec::new();
    let mut j: usize = 0;
    while j < days.len()
        invariant
            j <= days.len(),
            out.len() == j,
            forall|q: int| 0 <= q < j ==> (#[trigger] out[q]).day == days[q],
            forall|q: int|
                0 <= q < j ==> (#[trigger] out[q]).total_clicks == clicks_on_day(
                    clicks@,
                    out[q].day as int,
                ).len(),
        decreases days.len() - j,
    {
        let n = clicks_for_day(clicks, days[j]);
        out.push(DailyClicks { day: days[j], total_clicks: n });
        j = j + 1;
    }
    proof {
        assert(click_totals_days(out@) == days@);
        assert forall|k: int| 0 <= k < clicks.len() implies click_totals_days(out@).contains(
            day_of((#[trigger] clicks[k]).timestamp as int) as i64,
        ) by {
            assert(stamps[k] == clicks[k].timestamp);
        }
        assert forall|j: int| 0 <= j < out.len() implies click_days(clicks@).contains(
            (#[trigger] out[j]).day as int,
        ) by {
            assert(out[j].day == days[j]);
            assert(stamp_days(stamps@).contains(days[j] as int));
            let k = choose|k: int| 0 <= k < stamps.len() && stamp_days(stamps@)[k] == days[j] as int;
            assert(stamps[k] == clicks[k].timestamp);
            assert(click_days(clicks@)[k] == days[j] as int);
        }
    }
    out
}

/// The records that remain after deleting those of one day.
pub open spec fn kept_after_delete(recs: Seq<RequestLog>, day: int) -> Seq<RequestLog> {
    recs.filter(|r: RequestLog| !request_on_day(r, day))
}

/// Deletes the records of one Unix day and returns how many were removed.
/// The records of other days stay, in their order.
pub fn delete_by_day(records: &mut Vec<RequestLog>, day: i64) -> (removed: usize)
    ensures
        final(records)@ == kept_after_delete(old(records)@, day as int),
        removed == old(records)@.len() - final(records)@.len(),
{
    let ghost orig = records@;
    let ghost pred = |r: RequestLog| !request_on_day(r, day as int);
    let initial_len = records.len();
    let mut i: usize = 0;
    let ghost mut j: int = 0;
    while i < records.len()
        invariant
            0 <= i <= j <= orig.len(),
            i <= records.len(),
            records@.subrange(0, i as int) == kept_after_delete(orig.subrange(0, j), day as int),
            records@.subrange(i as int, records@.len() as int) == orig.subrange(j, orig.len() as int),
            pred == (|r: RequestLog| !request_on_day(r, day as int)),
            initial_len == orig.len(),
            records.len() <= orig.len(),
        decreases records.len() - i,
    {
        let ghost prev = orig.subrange(0, j);
        let ghost next = orig.subrange(0, j + 1);
        proof {
            assert(records@.subrange(i as int, records@.len() as int).len() == orig.len() - j);
            assert(j < orig.len());
            assert(orig[j] == records@[i as int]) by {
                assert(records@.subrange(i as int, records@.len() as int)[0] == records@[i as int]);
                assert(orig.subrange(j, orig.len() as int)[0] == orig[j]);
            }
            assert(next.drop_last() == prev);
            assert(next.last() == orig[j]);
            reveal(Seq::filter);
        }
        if day_of_millis(records[i].timestamp) == day {
            let ghost before = records@;
            records.remove(i);
            proof {
                assert(records@.subrange(0, i as int) == before.subrange(0, i as int));
                assert(records@.subrange(i as int, records@.len() as int) == before.subrange(
                    i as int + 1,
                    before.len() as int,
                ));
                assert(orig.subrange(j + 1, orig.len() as int) == orig.subrange(j, orig.len() as int).subrange(1, orig.len() - j));
                j = j + 1;
            }
        } else {
            proof {
                assert(records@.subrange(0, i as int + 1) == records@.subrange(0, i as int).push(
                    records@[i as int],
                ));
                assert(orig.subrange(j + 1, orig.len() as int) == orig.subrange(j, orig.len() as int).subrange(1, orig.len() - j));
                j = j + 1;
            }
            i = i + 1;
        }
    }
    proof {
        assert(j == orig.len()) by {
            assert(records@.subrange(i as int, records@.len() as int).len() == 0);
        }
        assert(orig.subrange(0, j) == orig);
        assert(records@.subrange(0, i as int) == records@);
        orig.lemma_filter_len(pred);
    }
    initial_len - records.len()
}

/// Deletes the records of a `%Y-%m-%d` date and returns how many were
/// removed; `None`, with nothing removed, where the text is no date.
pub fn delete_by_date(records: &mut Vec<RequestLog>, date: &str) -> (r: Option<usize>)
    ensures
        ce_day_of(date@) is None ==> r is None && final(records)@ == old(records)@,
        ce_day_of(date@) matches Some(d) ==> {
            &&& final(records)@ == kept_after_delete(old(records)@, d - UNIX_EPOCH_CE_DAY)
            &&& r == Some((old(records)@.len() - final(records)@.len()) as usize)
        },
{
    match parse_day(date) {
        Some(day) => Some(delete_by_day(records, day)),
        None => None,
    }
}

/// Deleting a day removes exactly the records of that day; deleting the same
/// day again finds nothing left to remove.
pub proof fn lemma_delete_idempotent(recs: Seq<RequestLog>, day: int)
    ensures
        recs.len() - kept_after_delete(recs, day).len() == requests_on_day(recs, day).len(),
        kept_after_delete(kept_after_delete(recs, day), day) == kept_after_delete(recs, day),
        requests_on_day(kept_after_delete(recs, day), day).len() == 0,
    decreases recs.len(),
{
    reveal(Seq::filter);
    if recs.len() > 0 {
        let prev = recs.drop_last();
        let x = recs.last();
        lemma_delete_idempotent(prev, day);
        let kp = kept_after_delete(prev, day);
        if !request_on_day(x, day) {
            assert(kept_after_delete(recs, day) == kp.push(x));
            assert(kp.push(x).drop_last() == kp);
            assert(kp.push(x).last() == x);
            assert(kept_after_delete(kp.push(x), day) == kept_after_delete(kp, day).push(x));
            assert(requests_on_day(kp.push(x), day) == requests_on_day(kp, day));
        } else {
            assert(kept_after_delete(recs, day) == kp);
        }
    }
}

/// The records of one Unix day, in their stored order.
pub fn requests_for_day(records: &Vec<RequestLog>, day: i64) -> (r: Vec<RequestLog>)
    ensures
        r@ == requests_on_day(records@, day as int),
{
    let mut out: Vec<RequestLog> = Vec::new();
    let mut i: usize = 0;
    while i < records.len()
        invariant
            i <= records.len(),
            out@ == requests_on_day(records@.subrange(0, i as int), day as int),
        decreases records.len() - i,
    {
        let ghost prev = records@.subrange(0, i as int);
        let ghost next = records@.subrange(0, i as int + 1);
        proof {
            assert(next.drop_last() == prev);
            assert(next.last() == records@[i as int]);
            reveal(Seq::filter);
        }
        if day_of_millis(records[i].timestamp) == day {
            out.push(records[i].duplicate());
        }
        i = i + 1;
    }
    proof {
        assert(records@.subrange(0, records.len() as int) == records@);
    }
    out
}

/// The positions of the records of one Unix day, ascending.
pub fn positions_on_day(records: &Vec<RequestLog>, day: i64) -> (r: Vec<usize>)
    ensures
        forall|j: int, k: int| 0 <= j < k < r.len() ==> r[j] < r[k],
        forall|j: int|
            0 <= j < r.len() ==> r[j] < records.len() && request_on_day(
                records[#[trigger] r[j] as int],
                day as int,
            ),
        forall|k: int|
            0 <= k < records.len() && request_on_day(#[trigger] records[k], day as int)
                ==> r@.contains(k as usize),
{
    let mut out: Vec<usize> = Vec::new();
    let mut i: usize = 0;
    while i < records.len()
        invariant
            i <= records.len(),
            forall|j: int, k: int| 0 <= j < k < out.len() ==> out[j] < out[k],
            forall|j: int|
                0 <= j < out.len() ==> out[j] < i && request_on_day(
                    records[#[trigger] out[j] as int],
                    day as int,
                ),
            forall|k: int|
                0 <= k < i && request_on_day(#[trigger] records[k], day as int) ==> out@.contains(
                    k as usize,
                ),
        decreases records.len() - i,
    {
        if day_of_millis(records[i].timestamp) == day {
            let ghost before = out@;
            out.push(i);
            proof {
                assert(out@[before.len() as int] == i);
                assert forall|k: int|
                    0 <= k < i + 1 && request_on_day(#[trigger] records[k], day as int)
                        implies out@.contains(k as usize) by {
                    if k < i {
                        let q = choose|q: int| 0 <= q < before.len() && before[q] == k as usize;
                        assert(out@[q] == k as usize);
                    }
                }
            }
        }
        i = i + 1;
    }
    out
}

/// The records whose path, method or client address contains `needle`, in
/// their stored order.
pub open spec fn matches_search(r: RequestLog, needle: Seq<char>) -> bool {
    contains_seq(r.path@, needle) || contains_seq(r.method@, needle) || contains_seq(
        r.ip_address@,
        needle,
    )
}

/// The records whose path, method or client address contains `needle`.
pub fn search_requests(records: &Vec<RequestLog>, needle: &str) -> (r: Vec<RequestLog>)
    ensures
        r@ == records@.filter(|x: RequestLog| matches_search(x, needle@)),
{
    let mut out: Vec<RequestLog> = Vec::new();
    let mut i: usize = 0;
    while i < records.len()
        invariant
            i <= records.len(),
            out@ == records@.subrange(0, i as int).filter(|x: RequestLog| matches_search(x, needle@)),
        decreases records.len() - i,
    {
        let ghost prev = records@.subrange(0, i as int);
        let ghost next = records@.subrange(0, i as int + 1);
        proof {
            assert(next.drop_last() == prev);
            assert(next.last() == records@[i as int]);
            reveal(Seq::filter);
        }
        let rec = &records[i];
        if contains_str(rec.path.as_str(), needle) || contains_str(rec.method.as_str(), needle)
            || contains_str(rec.ip_address.as_str(), needle) {
            out.push(rec.duplicate());
        }
        i = i + 1;
    }
    proof {
        assert(records@.subrange(0, records.len() as int) == records@);
    }
    out
}

} // verus!
