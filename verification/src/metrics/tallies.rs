//! What holds of the breakdowns by handler kind and by virtual host after a row of
//! requests was counted in them.
use crate::metrics::counters::{ClassCounters, ClassSnapshot, HandlerKind, HANDLER_KIND_ALL};
use crate::metrics::{class_recorded, kinds_listed, vhost_tally, vhosts_listed, Metrics};
use crate::strmap::lemma_pairs_map;
use vstd::prelude::*;

verus! {

/// A request as the breakdowns count it: the kind of its handler, its virtual host
/// and the status of its answer.
pub type Counted = (HandlerKind, Seq<char>, u16);

/// The requests of a row under one key.
pub open spec fn under<K>(keys: Seq<K>, statuses: Seq<u16>, k: K) -> ClassCounters
    decreases keys.len(),
{
    if keys.len() == 0 {
        ClassCounters::zero()
    } else {
        let rest = under(keys.drop_last(), statuses.drop_last(), k);
        if keys.last() == k {
            rest.with(statuses.last())
        } else {
            rest
        }
    }
}

/// How often a key occurs in a row.
pub open spec fn count_of<K>(keys: Seq<K>, k: K) -> nat
    decreases keys.len(),
{
    if keys.len() == 0 {
        0
    } else {
        count_of(keys.drop_last(), k) + if keys.last() == k {
            1nat
        } else {
            0
        }
    }
}

/// How often a key occurs in a row with a status that belongs to no class.
pub open spec fn unclassed<K>(keys: Seq<K>, statuses: Seq<u16>, k: K) -> nat
    decreases keys.len(),
{
    if keys.len() == 0 {
        0
    } else {
        unclassed(keys.drop_last(), statuses.drop_last(), k) + if keys.last() == k && !(200
            <= statuses.last() < 600) {
            1nat
        } else {
            0
        }
    }
}

/// How often the keys of a list occur in a row, together.
pub open spec fn count_all<K>(list: Seq<K>, keys: Seq<K>) -> nat
    decreases list.len(),
{
    if list.len() == 0 {
        0
    } else {
        count_all(list.drop_last(), keys) + count_of(keys, list.last())
    }
}

/// The totals of some rows of a breakdown, together.
pub open spec fn rows_total<T>(rows: Seq<(T, ClassSnapshot)>) -> int
    decreases rows.len(),
{
    if rows.len() == 0 {
        0
    } else {
        rows_total(rows.drop_last()) + rows.last().1.total
    }
}

/// The requests of a row of a breakdown that belong to no status class.
pub open spec fn outside_classes(r: ClassSnapshot) -> int {
    r.total - (r.s2xx + r.s3xx + r.s4xx + r.s5xx)
}

/// The kinds of a row of requests.
pub open spec fn kinds_of(calls: Seq<Counted>) -> Seq<HandlerKind> {
    Seq::new(calls.len(), |i: int| calls[i].0)
}

/// The virtual hosts of a row of requests.
pub open spec fn vhosts_of(calls: Seq<Counted>) -> Seq<Seq<char>> {
    Seq::new(calls.len(), |i: int| calls[i].1)
}

/// The statuses of a row of requests.
pub open spec fn statuses_of(calls: Seq<Counted>) -> Seq<u16> {
    Seq::new(calls.len(), |i: int| calls[i].2)
}

/// A row of requests was counted, one after the other: the counters before the
/// first, between them and after the last.
pub open spec fn all_recorded(calls: Seq<Counted>, m: Seq<Metrics>) -> bool {
    &&& m.len() == calls.len() + 1
    &&& forall|i: int|
        0 <= i < calls.len() ==> class_recorded(
            m[i],
            m[i + 1],
            (#[trigger] calls[i]).0,
            calls[i].1,
            calls[i].2,
        )
}

proof fn lemma_under<K>(keys: Seq<K>, statuses: Seq<u16>, k: K)
    requires
        keys.len() == statuses.len(),
        keys.len() <= u64::MAX,
    ensures
        ({
            let c = under(keys, statuses, k);
            &&& c.total == count_of(keys, k)
            &&& outside_classes(c.values()) == unclassed(keys, statuses, k)
            &&& count_of(keys, k) <= keys.len()
        }),
    decreases keys.len(),
{
    if keys.len() > 0 {
        lemma_under(keys.drop_last(), statuses.drop_last(), k);
    }
}

proof fn lemma_count_all_step<K>(list: Seq<K>, keys: Seq<K>)
    requires
        list.no_duplicates(),
        keys.len() > 0,
    ensures
        count_all(list, keys) == count_all(list, keys.drop_last()) + if list.contains(keys.last()) {
            1nat
        } else {
            0
        },
    decreases list.len(),
{
    if list.len() > 0 {
        let short = list.drop_last();
        lemma_count_all_step(short, keys);
        let k = keys.last();
        if list.last() == k {
            assert(list.contains(k));
            assert(!short.contains(k)) by {
                if short.contains(k) {
                    let i = choose|i: int| 0 <= i < short.len() && short[i] == k;
                    assert(list[i] == list[list.len() - 1]);
                }
            }
        } else if list.contains(k) {
            let i = choose|i: int| 0 <= i < list.len() && list[i] == k;
            assert(short[i] == k);
        } else if short.contains(k) {
            let i = choose|i: int| 0 <= i < short.len() && short[i] == k;
            assert(list[i] == k);
        }
    }
}

proof fn lemma_count_all<K>(list: Seq<K>, keys: Seq<K>)
    requires
        list.no_duplicates(),
        forall|i: int| 0 <= i < keys.len() ==> list.contains(#[trigger] keys[i]),
    ensures
        count_all(list, keys) == keys.len(),
    decreases keys.len(),
{
    if keys.len() == 0 {
        lemma_count_all_of_none(list, keys);
    } else {
        let rest = keys.drop_last();
        assert forall|i: int| 0 <= i < rest.len() implies list.contains(#[trigger] rest[i]) by {
            assert(keys[i] == rest[i]);
        }
        lemma_count_all(list, rest);
        lemma_count_all_step(list, keys);
        assert(list.contains(keys[keys.len() - 1]));
    }
}

proof fn lemma_count_all_of_none<K>(list: Seq<K>, keys: Seq<K>)
    requires
        keys.len() == 0,
    ensures
        count_all(list, keys) == 0,
    decreases list.len(),
{
    if list.len() > 0 {
        lemma_count_all_of_none(list.drop_last(), keys);
    }
}

proof fn lemma_rows_total<T, K>(rows: Seq<(T, ClassSnapshot)>, list: Seq<K>, keys: Seq<K>)
    requires
        rows.len() == list.len(),
        forall|i: int|
            0 <= i < rows.len() ==> (#[trigger] rows[i]).1.total == count_of(keys, list[i]),
    ensures
        rows_total(rows) == count_all(list, keys),
    decreases rows.len(),
{
    if rows.len() > 0 {
        let r = rows.drop_last();
        let l = list.drop_last();
        assert forall|i: int| 0 <= i < r.len() implies (#[trigger] r[i]).1.total == count_of(
            keys,
            l[i],
        ) by {
            assert(rows[i] == r[i]);
        }
        lemma_rows_total(r, l, keys);
        assert(rows[rows.len() - 1].1.total == count_of(keys, list[list.len() - 1]));
    }
}

/// The counters hold, under each kind and each virtual host, the requests of the
/// row.
proof fn lemma_tallies(calls: Seq<Counted>, m: Seq<Metrics>)
    requires
        m[0].is_fresh(),
        all_recorded(calls, m),
    ensures
        ({
            let last = m.last();
            let s = statuses_of(calls);
            &&& forall|k: HandlerKind| #[trigger]
                last.per_kind@[k.place()] == under(kinds_of(calls), s, k)
            &&& forall|v: Seq<char>| #[trigger]
                vhost_tally(last.per_vhost@, v) == under(vhosts_of(calls), s, v)
            &&& forall|v: Seq<char>| #[trigger]
                last.per_vhost@.dom().contains(v) <==> vhosts_of(calls).contains(v)
            &&& last == (Metrics { per_kind: last.per_kind, per_vhost: last.per_vhost, ..m[0] })
        }),
    decreases calls.len(),
{
    let s = statuses_of(calls);
    if calls.len() > 0 {
        let rest = calls.drop_last();
        let n = rest.len() as int;
        let a = m[n];
        let b = m[n + 1];
        let c = calls[n];
        assert forall|i: int| 0 <= i < rest.len() implies class_recorded(
            m.drop_last()[i],
            m.drop_last()[i + 1],
            (#[trigger] rest[i]).0,
            rest[i].1,
            rest[i].2,
        ) by {
            assert(calls[i] == rest[i]);
        }
        lemma_tallies(rest, m.drop_last());
        assert(m.drop_last().last() == a);
        assert(class_recorded(a, b, c.0, c.1, c.2));
        assert(kinds_of(calls).drop_last() =~= kinds_of(rest));
        assert(vhosts_of(calls).drop_last() =~= vhosts_of(rest));
        assert(s.drop_last() =~= statuses_of(rest));
        assert(a.per_kind@.len() == 9);
        assert forall|k: HandlerKind| #[trigger] b.per_kind@[k.place()] == under(
            kinds_of(calls),
            s,
            k,
        ) by {
            assert(a.per_kind@[k.place()] == under(kinds_of(rest), statuses_of(rest), k));
            assert(k.place() == c.0.place() ==> k == c.0);
        }
        assert forall|v: Seq<char>| #[trigger] vhost_tally(b.per_vhost@, v) == under(
            vhosts_of(calls),
            s,
            v,
        ) by {
            assert(vhost_tally(a.per_vhost@, v) == under(vhosts_of(rest), statuses_of(rest), v));
        }
        assert forall|v: Seq<char>| #[trigger] b.per_vhost@.dom().contains(v) <==> vhosts_of(
            calls,
        ).contains(v) by {
            let before = vhosts_of(rest);
            let after = vhosts_of(calls);
            assert(a.per_vhost@.dom().contains(v) <==> before.contains(v));
            if before.contains(v) {
                let i = choose|i: int| 0 <= i < before.len() && before[i] == v;
                assert(after[i] == v);
            }
            if after.contains(v) && v != c.1 {
                let i = choose|i: int| 0 <= i < after.len() && after[i] == v;
                assert(before[i] == v);
            }
            assert(after[n] == c.1);
        }
    } else {
        assert(m.last() == m[0]);
        assert forall|k: HandlerKind| #[trigger] m[0].per_kind@[k.place()] == under(
            kinds_of(calls),
            s,
            k,
        ) by {
            assert(0 <= k.place() < 9);
        }
    }
}

/// After any row of requests, counted from the start, both breakdowns add up to
/// their number. The hosts that are listed are those of the requests, each once. A
/// row's total, and the part of it that belongs to no status class, are those of its
/// requests. The counters of completed requests do not move.
pub proof fn law_breakdowns_add_up(
    calls: Seq<Counted>,
    m: Seq<Metrics>,
    by_kind: Seq<(&'static str, ClassSnapshot)>,
    by_vhost: Seq<(String, ClassSnapshot)>,
)
    requires
        calls.len() <= u64::MAX,
        m[0].is_fresh(),
        all_recorded(calls, m),
        kinds_listed(m.last().per_kind@, by_kind),
        vhosts_listed(m.last().per_vhost, by_vhost),
    ensures
        rows_total(by_kind) == calls.len(),
        rows_total(by_vhost) == calls.len(),
        forall|i: int|
            #![trigger by_kind[i]]
            0 <= i < 9 ==> by_kind[i].1.total == count_of(kinds_of(calls), HANDLER_KIND_ALL@[i])
                && outside_classes(by_kind[i].1) == unclassed(
                kinds_of(calls),
                statuses_of(calls),
                HANDLER_KIND_ALL@[i],
            ),
        forall|i: int|
            #![trigger by_vhost[i]]
            0 <= i < by_vhost.len() ==> by_vhost[i].1.total == count_of(
                vhosts_of(calls),
                by_vhost[i].0@,
            ) && outside_classes(by_vhost[i].1) == unclassed(
                vhosts_of(calls),
                statuses_of(calls),
                by_vhost[i].0@,
            ) && vhosts_of(calls).contains(by_vhost[i].0@),
        forall|v: Seq<char>| #[trigger]
            vhosts_of(calls).contains(v) ==> exists|i: int|
                0 <= i < by_vhost.len() && (#[trigger] by_vhost[i]).0@ == v,
        forall|i: int, j: int|
            0 <= i < j < by_vhost.len() ==> (#[trigger] by_vhost[i]).0@ != (
            #[trigger] by_vhost[j]).0@,
        m.last().requests_total == 0,
        m.last().status_2xx == 0,
        m.last().status_3xx == 0,
        m.last().status_4xx == 0,
        m.last().status_5xx == 0,
{
    let last = m.last();
    let s = statuses_of(calls);
    lemma_tallies(calls, m);
    // The kinds.
    let kinds = HANDLER_KIND_ALL@;
    assert forall|i: int| 0 <= i < 9 implies #[trigger] kinds[i].place() == i by {}
    assert(kinds.no_duplicates());
    assert forall|i: int| 0 <= i < kinds_of(calls).len() implies kinds.contains(
        #[trigger] kinds_of(calls)[i],
    ) by {
        let k = kinds_of(calls)[i];
        assert(kinds[k.place()] == k);
    }
    assert forall|i: int|
        #![trigger by_kind[i]]
        0 <= i < 9 implies by_kind[i].1.total == count_of(kinds_of(calls), kinds[i])
        && outside_classes(by_kind[i].1) == unclassed(kinds_of(calls), s, kinds[i]) by {
        assert(kinds[i].place() == i);
        assert(last.per_kind@[kinds[i].place()] == under(kinds_of(calls), s, kinds[i]));
        lemma_under(kinds_of(calls), s, kinds[i]);
    }
    lemma_count_all(kinds, kinds_of(calls));
    lemma_rows_total(by_kind, kinds, kinds_of(calls));
    // The hosts.
    let pairs = last.per_vhost.pairs();
    lemma_pairs_map(pairs);
    let names = Seq::new(pairs.len(), |i: int| pairs[i].0);
    let hosts = vhosts_of(calls);
    assert forall|i: int, j: int| 0 <= i < j < by_vhost.len() implies (#[trigger] by_vhost[i]).0@
        != (#[trigger] by_vhost[j]).0@ by {
        assert(pairs[i].0 != pairs[j].0);
    }
    assert(names.no_duplicates()) by {
        assert forall|i: int, j: int| 0 <= i < names.len() && 0 <= j < names.len() && i
            != j implies names[i] != names[j] by {
            assert(pairs[i].0 != pairs[j].0);
        }
    }
    assert forall|v: Seq<char>| #[trigger] hosts.contains(v) implies exists|i: int|
        0 <= i < by_vhost.len() && (#[trigger] by_vhost[i]).0@ == v by {
        assert(last.per_vhost@.dom().contains(v));
        let i = choose|i: int| 0 <= i < pairs.len() && pairs[i].0 == v;
        assert(by_vhost[i].0@ == v);
    }
    assert forall|i: int| 0 <= i < hosts.len() implies names.contains(#[trigger] hosts[i]) by {
        let v = hosts[i];
        assert(hosts.contains(v));
        let j = choose|j: int| 0 <= j < by_vhost.len() && (#[trigger] by_vhost[j]).0@ == v;
        assert(names[j] == v);
    }
    assert forall|i: int|
        #![trigger by_vhost[i]]
        0 <= i < by_vhost.len() implies by_vhost[i].1.total == count_of(hosts, by_vhost[i].0@)
        && outside_classes(by_vhost[i].1) == unclassed(hosts, s, by_vhost[i].0@) && hosts.contains(
        by_vhost[i].0@,
    ) by {
        let v = pairs[i].0;
        assert(last.per_vhost@.dom().contains(v) && last.per_vhost@[v] == pairs[i].1);
        assert(vhost_tally(last.per_vhost@, v) == under(hosts, s, v));
        lemma_under(hosts, s, v);
    }
    lemma_count_all(names, hosts);
    lemma_rows_total(by_vhost, names, hosts);
}

} // verus!
